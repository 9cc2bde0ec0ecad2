//! One call of `p4 where`, from the first attempt to its result, as a state
//! machine that never touches a process itself.
//!
//! The caller performs what an [`Action`] asks for and reports what happened
//! as the next [`Event`]:
//!
//! ```text
//! Idle --Ready--> Spawning --Output--> Done | Fatal
//!                    |
//!                    +--Failed--> Idle (retries left) | Fatal
//! ```
//!
//! The output is classified within the transition that receives it. A spawn
//! failure is tried again while the policy allows; output that does not parse
//! never is.

use crate::err::{P4Error, P4ErrorView};
use crate::p4::RetryPolicy;
use crate::text::texts;
use crate::where_::{conclude, outcome, result_view, FileItemView, Files, WhereCommand};
use vstd::prelude::*;

verus! {

/// Where a call stands.
#[derive(Debug, Clone, Copy, PartialEq, Eq, Structural)]
pub enum State {
    /// No process is running; the next attempt may begin.
    Idle,
    /// A process was asked for and has not been reported on yet.
    Spawning,
    /// The call has delivered its result.
    Done,
    /// The call has failed for good.
    Fatal,
}

/// What the caller reports.
#[derive(Debug)]
pub enum Event {
    /// The caller is ready to start a process.
    Ready,
    /// The process could not be started or did not complete, for this cause.
    Failed(String),
    /// The process completed and wrote these bytes to its standard output.
    Output(Vec<u8>),
}

/// Mathematical model of an [`Event`].
pub ghost enum EventView {
    Ready,
    Failed(Seq<char>),
    Output(Seq<u8>),
}

impl View for Event {
    type V = EventView;

    open spec fn view(&self) -> EventView {
        match self {
            Event::Ready => EventView::Ready,
            Event::Failed(cause) => EventView::Failed(cause@),
            Event::Output(bytes) => EventView::Output(bytes@),
        }
    }
}

/// What the caller is to do next.
#[derive(Debug)]
pub enum Action {
    /// Start the process of the command line and report how it went.
    Spawn,
    /// Let this many milliseconds pass, then report `Ready`.
    Wait { delay_ms: u64 },
    /// Hand this result to whoever made the call.
    Finish(Result<Files, P4Error>),
}

/// Mathematical model of an [`Action`].
pub ghost enum ActionView {
    Spawn,
    Wait { delay_ms: u64 },
    Finish(Result<Seq<FileItemView>, P4ErrorView>),
}

impl View for Action {
    type V = ActionView;

    open spec fn view(&self) -> ActionView {
        match self {
            Action::Spawn => ActionView::Spawn,
            Action::Wait { delay_ms } => ActionView::Wait { delay_ms: *delay_ms },
            Action::Finish(result) => ActionView::Finish(result_view(*result)),
        }
    }
}

/// The model of what a step asks for, if anything.
pub open spec fn action_view(action: Option<Action>) -> Option<ActionView> {
    match action {
        Some(action) => Some(action@),
        None => None,
    }
}

/// The state of one call. It is made afresh for every call and shared with
/// no other.
#[derive(Debug)]
pub struct Invocation {
    command_line: Vec<String>,
    policy: RetryPolicy,
    retries: usize,
    state: State,
}

/// Mathematical model of an [`Invocation`].
pub ghost struct InvocationView {
    pub command_line: Seq<Seq<char>>,
    pub policy: RetryPolicy,
    pub retries: nat,
    pub state: State,
}

impl InvocationView {
    /// No more attempts were repeated than the policy allows.
    pub open spec fn within_budget(self) -> bool {
        self.retries <= self.policy.max_retries
    }
}

impl View for Invocation {
    type V = InvocationView;

    closed spec fn view(&self) -> InvocationView {
        InvocationView {
            command_line: texts(self.command_line@),
            policy: self.policy,
            retries: self.retries as nat,
            state: self.state,
        }
    }
}

/// The transition that `event` causes in `pre`, and what it asks of the
/// caller. `None` where the event does not fit the state: nothing changes
/// then.
pub open spec fn next(pre: InvocationView, event: EventView) -> Option<
    (InvocationView, ActionView),
> {
    match (pre.state, event) {
        (State::Idle, EventView::Ready) => Some(
            (InvocationView { state: State::Spawning, ..pre }, ActionView::Spawn),
        ),
        (State::Spawning, EventView::Failed(cause)) => if pre.retries < pre.policy.max_retries {
            Some(
                (
                    InvocationView { state: State::Idle, retries: pre.retries + 1, ..pre },
                    ActionView::Wait { delay_ms: pre.policy.backoff_ms },
                ),
            )
        } else {
            Some(
                (
                    InvocationView { state: State::Fatal, ..pre },
                    ActionView::Finish(outcome(pre.command_line, Err(cause))),
                ),
            )
        },
        (State::Spawning, EventView::Output(bytes)) => {
            let result = outcome(pre.command_line, Ok(bytes));
            Some(
                (
                    InvocationView {
                        state: if result is Ok {
                            State::Done
                        } else {
                            State::Fatal
                        },
                        ..pre
                    },
                    ActionView::Finish(result),
                ),
            )
        },
        _ => None,
    }
}

impl Invocation {
    #[verifier::type_invariant]
    spec fn well_formed(self) -> bool {
        self.retries <= self.policy.max_retries
    }

    /// A call of `command` that has not begun: no attempt was made and none
    /// repeated.
    pub fn new(command: &WhereCommand) -> (invocation: Invocation)
        ensures
            invocation@ == (InvocationView {
                command_line: command@.command_line(),
                policy: command@.connection.retry,
                retries: 0,
                state: State::Idle,
            }),
    {
        Invocation {
            command_line: command.command_line(),
            policy: command.connection().retry(),
            retries: 0,
            state: State::Idle,
        }
    }

    /// Where the call stands.
    pub fn state(&self) -> (state: State)
        ensures
            state == self@.state,
    {
        self.state
    }

    /// How many attempts were repeated so far: never more than the policy
    /// allows.
    pub fn retries(&self) -> (retries: usize)
        ensures
            retries == self@.retries,
            self@.within_budget(),
    {
        proof {
            use_type_invariant(self);
        }
        self.retries
    }

    /// The policy that the call follows.
    pub fn policy(&self) -> (policy: RetryPolicy)
        ensures
            policy == self@.policy,
    {
        self.policy
    }

    /// The words of the command line to spawn.
    pub fn command_line(&self) -> (words: &Vec<String>)
        ensures
            texts(words@) == self@.command_line,
    {
        &self.command_line
    }

    /// Takes note of `event` and says what to do next: see [`next`].
    pub fn step(&mut self, event: Event) -> (action: Option<Action>)
        ensures
            match next(old(self)@, event@) {
                Some((post, asked)) => final(self)@ == post && action_view(action) == Some(asked),
                None => final(self)@ == old(self)@ && action is None,
            },
            final(self)@.within_budget(),
    {
        proof {
            use_type_invariant(&*self);
        }
        match self.state {
            State::Idle => match event {
                Event::Ready => {
                    self.state = State::Spawning;
                    Some(Action::Spawn)
                },
                _ => None,
            },
            State::Spawning => match event {
                Event::Ready => None,
                Event::Failed(cause) => {
                    if self.retries < self.policy.max_retries {
                        self.retries = self.retries + 1;
                        self.state = State::Idle;
                        Some(Action::Wait { delay_ms: self.policy.backoff_ms })
                    } else {
                        self.state = State::Fatal;
                        Some(Action::Finish(conclude(&self.command_line, Err(cause))))
                    }
                },
                Event::Output(bytes) => {
                    let result = conclude(&self.command_line, Ok(bytes));
                    self.state = if result.is_ok() {
                        State::Done
                    } else {
                        State::Fatal
                    };
                    Some(Action::Finish(result))
                },
            },
            _ => None,
        }
    }
}

/// `event` answers what `action` asked for: a report on the process after
/// `Spawn`, readiness after `Wait`, and nothing after `Finish`.
pub open spec fn answers(action: ActionView, event: EventView) -> bool {
    match action {
        ActionView::Spawn => event is Failed || event is Output,
        ActionView::Wait { .. } => event is Ready,
        ActionView::Finish(_) => false,
    }
}

/// A transition keeps the command line and the policy, never lowers the
/// count of repeated attempts, and never lets it pass what the policy allows.
pub proof fn lemma_budget_kept(pre: InvocationView, event: EventView)
    requires
        pre.within_budget(),
        next(pre, event) is Some,
    ensures
        ({
            let (post, _) = next(pre, event)->0;
            &&& post.within_budget()
            &&& post.retries >= pre.retries
            &&& post.command_line == pre.command_line
            &&& post.policy == pre.policy
        }),
{
}

/// A call that begins is asked to spawn, and a caller that answers what it
/// was asked is never turned down.
pub proof fn lemma_answer_accepted(pre: InvocationView, event: EventView, answer: EventView)
    requires
        next(pre, event) is Some,
        ({
            let (_, action) = next(pre, event)->0;
            answers(action, answer)
        }),
    ensures
        next(pre, EventView::Ready) is Some <==> pre.state == State::Idle,
        pre.state == State::Idle ==> ({
            let (_, action) = next(pre, EventView::Ready)->0;
            action is Spawn
        }),
        ({
            let (post, _) = next(pre, event)->0;
            next(post, answer) is Some
        }),
{
}

/// A call finishes exactly when it reaches `Done` or `Fatal`, with a result
/// in `Done` and an error in `Fatal`; after that it accepts no event.
pub proof fn lemma_finish_is_final(pre: InvocationView, event: EventView, later: EventView)
    requires
        next(pre, event) is Some,
    ensures
        ({
            let (post, action) = next(pre, event)->0;
            &&& action is Finish <==> post.state == State::Done || post.state == State::Fatal
            &&& action matches ActionView::Finish(result) ==> (result is Ok <==> post.state
                == State::Done)
            &&& action is Finish ==> next(post, later) is None
        }),
{
}

/// Output is never asked for again: whatever the process wrote, the call
/// finishes on it, with what the output comes to.
pub proof fn lemma_output_finishes(pre: InvocationView, output: Seq<u8>)
    requires
        pre.state == State::Spawning,
    ensures
        next(pre, EventView::Output(output)) matches Some((post, action)) && action
            == ActionView::Finish(outcome(pre.command_line, Ok(output))),
{
}

/// What the call asks for last when it is given `events` one after the
/// other, and the state it is in then. `None` when `events` is empty or one
/// of them is turned down.
pub open spec fn last_step(pre: InvocationView, events: Seq<EventView>) -> Option<
    (InvocationView, ActionView),
>
    decreases events.len(),
{
    if events.len() == 0 {
        None
    } else {
        match next(pre, events[0]) {
            Some((post, action)) => if events.len() == 1 {
                Some((post, action))
            } else {
                last_step(post, events.drop_first())
            },
            None => None,
        }
    }
}

/// The events of attempts that fail one after the other, for `causes`.
pub open spec fn failures(causes: Seq<Seq<char>>) -> Seq<EventView>
    decreases causes.len(),
{
    if causes.len() == 0 {
        Seq::empty()
    } else {
        seq![EventView::Ready, EventView::Failed(causes[0])] + failures(causes.drop_first())
    }
}

/// The last step on `first` followed by `others` is the one transition when
/// nothing follows, and else the last step on `others` after it.
proof fn lemma_last_step_unfolds(pre: InvocationView, first: EventView, others: Seq<EventView>)
    ensures
        last_step(pre, seq![first] + others) == match next(pre, first) {
            Some((post, action)) => if others.len() == 0 {
                Some((post, action))
            } else {
                last_step(post, others)
            },
            None => None,
        },
{
    assert((seq![first] + others).drop_first() =~= others);
}

/// Failures within the budget do not decide a call: when as many attempts
/// fail as the policy still allows to repeat, or fewer, and the next one
/// completes, the call finishes with what its output comes to, and has
/// repeated one attempt for each failure.
pub proof fn lemma_completes_after_failures(
    pre: InvocationView,
    causes: Seq<Seq<char>>,
    output: Seq<u8>,
)
    requires
        pre.state == State::Idle,
        pre.retries + causes.len() <= pre.policy.max_retries,
    ensures
        ({
            let result = outcome(pre.command_line, Ok(output));
            last_step(
                pre,
                failures(causes) + seq![EventView::Ready, EventView::Output(output)],
            ) == Some(
                (
                    InvocationView {
                        state: if result is Ok {
                            State::Done
                        } else {
                            State::Fatal
                        },
                        retries: pre.retries + causes.len(),
                        ..pre
                    },
                    ActionView::Finish(result),
                ),
            )
        }),
    decreases causes.len(),
{
    let end = seq![EventView::Ready, EventView::Output(output)];
    let events = failures(causes) + end;
    let spawning = InvocationView { state: State::Spawning, ..pre };
    if causes.len() == 0 {
        let report = seq![EventView::Output(output)];
        assert(events =~= seq![EventView::Ready] + report);
        lemma_last_step_unfolds(pre, EventView::Ready, report);
        assert(report =~= seq![EventView::Output(output)] + Seq::<EventView>::empty());
        lemma_last_step_unfolds(spawning, EventView::Output(output), Seq::empty());
    } else {
        let waiting = InvocationView { state: State::Idle, retries: pre.retries + 1, ..pre };
        let others = causes.drop_first();
        let later = failures(others) + end;
        let report = seq![EventView::Failed(causes[0])] + later;
        assert(events =~= seq![EventView::Ready] + report);
        lemma_last_step_unfolds(pre, EventView::Ready, report);
        lemma_last_step_unfolds(spawning, EventView::Failed(causes[0]), later);
        lemma_completes_after_failures(waiting, others, output);
    }
}

/// A budget that is used up decides a call: when one more attempt fails than
/// the policy still allows to repeat, the call finishes with a spawn failure
/// that carries the cause of the last attempt.
pub proof fn lemma_fails_after_budget(pre: InvocationView, causes: Seq<Seq<char>>)
    requires
        pre.state == State::Idle,
        pre.within_budget(),
        pre.retries + causes.len() == pre.policy.max_retries + 1,
    ensures
        last_step(pre, failures(causes)) == Some(
            (
                InvocationView { state: State::Fatal, retries: pre.policy.max_retries as nat, ..pre },
                ActionView::Finish(outcome(pre.command_line, Err(causes.last()))),
            ),
        ),
    decreases causes.len(),
{
    let events = failures(causes);
    let others = causes.drop_first();
    let later = failures(others);
    let report = seq![EventView::Failed(causes[0])] + later;
    let spawning = InvocationView { state: State::Spawning, ..pre };
    assert(events =~= seq![EventView::Ready] + report);
    lemma_last_step_unfolds(pre, EventView::Ready, report);
    lemma_last_step_unfolds(spawning, EventView::Failed(causes[0]), later);
    if causes.len() == 1 {
        assert(later =~= Seq::<EventView>::empty());
    } else {
        let waiting = InvocationView { state: State::Idle, retries: pre.retries + 1, ..pre };
        assert(others.last() == causes.last());
        lemma_fails_after_budget(waiting, others);
    }
}

} // verus!
