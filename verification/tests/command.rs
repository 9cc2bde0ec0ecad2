use p4_cmd::err::{ErrorKind, Item};
use p4_cmd::invocation::{Action, Event, Invocation, State};
use p4_cmd::text::join;
use p4_cmd::where_::{conclude, WhereCommand};
use p4_cmd::{RetryPolicy, P4};

const OUTPUT: &[u8] = b"//depot/a#1 //client/a a\n(exit code 0)\n";

fn words(all: &[&str]) -> Vec<String> {
    all.iter().map(|word| word.to_string()).collect()
}

#[test]
fn command_line_names_program_command_and_paths() {
    let p4 = P4::new();
    assert_eq!(p4.where_().command_line(), words(&["p4", "where"]));
    assert_eq!(
        WhereCommand::new(&p4).file("//depot/dir/*").file("b").command_line(),
        words(&["p4", "where", "//depot/dir/*", "b"])
    );
    let other = P4::new().set_p4_cmd("/opt/bin/p4".to_owned());
    assert_eq!(other.program(), "/opt/bin/p4");
    assert_eq!(other.where_().file("a").command_line(), words(&["/opt/bin/p4", "where", "a"]));
}

#[test]
fn join_puts_one_space_between_words() {
    assert_eq!(join(&words(&[])), "");
    assert_eq!(join(&words(&["p4"])), "p4");
    assert_eq!(join(&words(&["p4", "where", "a"])), "p4 where a");
    assert_eq!(join(&words(&["", ""])), " ");
}

#[test]
fn spawn_failure_carries_cause_and_command_line() {
    let p4 = P4::new();
    let error = p4.where_().file("//depot/...").run(Err("No such file or directory".to_owned())).unwrap_err();
    assert_eq!(error.kind, ErrorKind::SpawnFailed);
    assert_eq!(error.cause, Some("No such file or directory".to_owned()));
    assert_eq!(error.context, "p4 where //depot/...");
}

#[test]
fn parse_failure_carries_command_line_only() {
    let p4 = P4::new();
    let error = p4.where_().file("a").run(Ok(b"garbage".to_vec())).unwrap_err();
    assert_eq!(error.kind, ErrorKind::ParseFailed);
    assert_eq!(error.cause, None);
    assert_eq!(error.context, "p4 where a");
}

#[test]
fn conclude_agrees_with_run() {
    let files = conclude(&words(&["p4", "where"]), Ok(OUTPUT.to_vec())).unwrap();
    assert_eq!(files.len(), 2);
    assert_eq!(files.get(1), Some(&Item::Exit { success: true }));
    assert_eq!(files.get(2), None);
}

#[test]
fn iteration_is_forward_and_single_pass() {
    let p4 = P4::new();
    let files = p4.where_().run(Ok(b"info: a\nerror: b\n(exit code 0)\n".to_vec())).unwrap();
    let mut iter = files.into_iter();
    assert_eq!(iter.size_hint(), (3, Some(3)));
    assert_eq!(iter.next(), Some(Item::Info("a".to_owned())));
    assert_eq!(iter.size_hint(), (2, Some(2)));
    assert_eq!(iter.next(), Some(Item::Error("b".to_owned())));
    assert_eq!(iter.next(), Some(Item::Exit { success: true }));
    assert_eq!(iter.size_hint(), (0, Some(0)));
    assert_eq!(iter.next(), None);
    assert_eq!(iter.next(), None);
    assert_eq!(iter.count(), 0);
}

#[test]
fn count_gives_what_is_left() {
    let p4 = P4::new();
    let files = p4.where_().run(Ok(b"info: a\nerror: b\n(exit code 0)\n".to_vec())).unwrap();
    let mut iter = files.into_iter();
    iter.next();
    assert_eq!(iter.count(), 2);
}

fn retrying(max_retries: usize, backoff_ms: u64) -> P4 {
    P4::new().set_retry(RetryPolicy { max_retries, backoff_ms })
}

#[test]
fn third_attempt_succeeds_within_budget() {
    let p4 = retrying(3, 250);
    let command = p4.where_().file("a");
    let mut call = Invocation::new(&command);
    assert_eq!(call.state(), State::Idle);
    assert_eq!(call.retries(), 0);
    assert!(matches!(call.step(Event::Ready), Some(Action::Spawn)));
    assert_eq!(call.state(), State::Spawning);
    assert!(matches!(
        call.step(Event::Failed("busy".to_owned())),
        Some(Action::Wait { delay_ms: 250 })
    ));
    assert_eq!(call.state(), State::Idle);
    assert_eq!(call.retries(), 1);
    assert!(matches!(call.step(Event::Ready), Some(Action::Spawn)));
    assert!(matches!(
        call.step(Event::Failed("busy".to_owned())),
        Some(Action::Wait { delay_ms: 250 })
    ));
    assert_eq!(call.retries(), 2);
    assert!(matches!(call.step(Event::Ready), Some(Action::Spawn)));
    match call.step(Event::Output(OUTPUT.to_vec())) {
        Some(Action::Finish(Ok(files))) => {
            assert_eq!(files.len(), 2);
            assert_eq!(files.get(1), Some(&Item::Exit { success: true }));
        }
        other => panic!("unexpected action {:?}", other),
    }
    assert_eq!(call.state(), State::Done);
    assert_eq!(call.retries(), 2);
    assert!(call.retries() <= call.policy().max_retries);
}

#[test]
fn exhausted_budget_is_fatal() {
    let p4 = retrying(1, 0);
    let command = p4.where_().file("a");
    let mut call = Invocation::new(&command);
    assert!(matches!(call.step(Event::Ready), Some(Action::Spawn)));
    assert!(matches!(
        call.step(Event::Failed("first".to_owned())),
        Some(Action::Wait { delay_ms: 0 })
    ));
    assert!(matches!(call.step(Event::Ready), Some(Action::Spawn)));
    match call.step(Event::Failed("second".to_owned())) {
        Some(Action::Finish(Err(error))) => {
            assert_eq!(error.kind, ErrorKind::SpawnFailed);
            assert_eq!(error.cause, Some("second".to_owned()));
            assert_eq!(error.context, "p4 where a");
        }
        other => panic!("unexpected action {:?}", other),
    }
    assert_eq!(call.state(), State::Fatal);
    assert_eq!(call.retries(), 1);
}

#[test]
fn no_retries_by_default() {
    let p4 = P4::new();
    assert_eq!(p4.retry(), RetryPolicy { max_retries: 0, backoff_ms: 0 });
    let command = p4.where_();
    let mut call = Invocation::new(&command);
    assert!(matches!(call.step(Event::Ready), Some(Action::Spawn)));
    assert!(matches!(
        call.step(Event::Failed("gone".to_owned())),
        Some(Action::Finish(Err(_)))
    ));
    assert_eq!(call.state(), State::Fatal);
    assert_eq!(call.retries(), 0);
}

#[test]
fn parse_failure_is_never_retried() {
    let p4 = retrying(5, 10);
    let command = p4.where_();
    let mut call = Invocation::new(&command);
    assert!(matches!(call.step(Event::Ready), Some(Action::Spawn)));
    match call.step(Event::Output(b"//depot/a //client/a\n(exit code 0)\n".to_vec())) {
        Some(Action::Finish(Err(error))) => {
            assert_eq!(error.kind, ErrorKind::ParseFailed);
            assert_eq!(error.context, "p4 where");
        }
        other => panic!("unexpected action {:?}", other),
    }
    assert_eq!(call.state(), State::Fatal);
    assert_eq!(call.retries(), 0);
    assert!(call.step(Event::Ready).is_none());
}

#[test]
fn events_that_do_not_fit_change_nothing() {
    let p4 = retrying(2, 10);
    let command = p4.where_();
    let mut call = Invocation::new(&command);
    assert!(call.step(Event::Output(OUTPUT.to_vec())).is_none());
    assert!(call.step(Event::Failed("early".to_owned())).is_none());
    assert_eq!(call.state(), State::Idle);
    assert_eq!(call.retries(), 0);
    assert!(matches!(call.step(Event::Ready), Some(Action::Spawn)));
    assert!(call.step(Event::Ready).is_none());
    assert_eq!(call.state(), State::Spawning);
    assert!(matches!(call.step(Event::Output(OUTPUT.to_vec())), Some(Action::Finish(Ok(_)))));
    assert!(call.step(Event::Ready).is_none());
    assert!(call.step(Event::Output(OUTPUT.to_vec())).is_none());
    assert!(call.step(Event::Failed("late".to_owned())).is_none());
    assert_eq!(call.state(), State::Done);
    assert_eq!(call.command_line(), &words(&["p4", "where"]));
}
