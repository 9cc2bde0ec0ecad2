//! The connection: which client program to run and how often to try.

use crate::where_::WhereCommand;
use vstd::prelude::*;

verus! {

/// How a call deals with a process that could not be started: how many
/// further attempts it may make after the first, and how long it waits before
/// each of them.
#[derive(Debug, Clone, Copy, PartialEq, Eq, Structural)]
pub struct RetryPolicy {
    pub max_retries: usize,
    pub backoff_ms: u64,
}

/// A connection to a Perforce server, as far as commands need it: read-only
/// configuration that any number of commands may share.
#[derive(Debug, Clone)]
pub struct P4 {
    program: String,
    retry: RetryPolicy,
}

/// Mathematical model of a [`P4`].
pub ghost struct P4View {
    pub program: Seq<char>,
    pub retry: RetryPolicy,
}

impl View for P4 {
    type V = P4View;

    closed spec fn view(&self) -> P4View {
        P4View { program: self.program@, retry: self.retry }
    }
}

impl P4 {
    /// A connection that runs `p4` and never tries again.
    pub fn new() -> (p4: P4)
        ensures
            p4@ == (P4View {
                program: "p4"@,
                retry: RetryPolicy { max_retries: 0, backoff_ms: 0 },
            }),
    {
        P4 { program: "p4".to_owned(), retry: RetryPolicy { max_retries: 0, backoff_ms: 0 } }
    }

    /// The same connection with another client program.
    pub fn set_p4_cmd(self, program: String) -> (p4: P4)
        ensures
            p4@ == (P4View { program: program@, retry: self@.retry }),
    {
        P4 { program, retry: self.retry }
    }

    /// The same connection with another retry policy.
    pub fn set_retry(self, retry: RetryPolicy) -> (p4: P4)
        ensures
            p4@ == (P4View { program: self@.program, retry }),
    {
        P4 { program: self.program, retry }
    }

    /// The client program that commands run.
    pub fn program(&self) -> (program: &String)
        ensures
            program@ == self@.program,
    {
        &self.program
    }

    /// The retry policy that commands follow.
    pub fn retry(&self) -> (retry: RetryPolicy)
        ensures
            retry == self@.retry,
    {
        self.retry
    }

    /// Shows how file names are mapped by the client view.
    pub fn where_<'p, 'f>(&'p self) -> (command: WhereCommand<'p, 'f>)
        ensures
            command@.connection == self@,
            command@.file == Seq::<Seq<char>>::empty(),
    {
        WhereCommand::new(self)
    }
}

} // verus!
