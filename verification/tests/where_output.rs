use p4_cmd::err::{ErrorKind, Item};
use p4_cmd::where_::{File, FileItem, Files};
use p4_cmd::P4;

fn entries(files: Files) -> Vec<FileItem> {
    let mut iter = files.into_iter();
    let mut all = Vec::new();
    while let Some(item) = iter.next() {
        all.push(item);
    }
    all
}

fn run(output: &[u8]) -> Result<Files, p4_cmd::err::P4Error> {
    let p4 = P4::new();
    p4.where_().run(Ok(output.to_vec()))
}

fn mapping(depot: &str, client: &str, path: &str) -> FileItem {
    Item::Data(File::new(depot.to_owned(), client.to_owned(), path.to_owned()))
}

#[test]
fn one_mapping_then_exit() {
    let files = run(b"//depot/a#1 //client/a a\n(exit code 0)\n").unwrap();
    assert_eq!(
        entries(files),
        vec![mapping("//depot/a#1", "//client/a", "a"), Item::Exit { success: true }]
    );
}

#[test]
fn only_the_terminal_line() {
    let files = run(b"(exit code 0)\n").unwrap();
    assert_eq!(files.len(), 1);
    assert_eq!(entries(files), vec![Item::Exit { success: true }]);
}

#[test]
fn error_then_mapping_then_exit() {
    let files =
        run(b"error: //depot/x - no such file\n//depot/a //client/a /home/me/a\n(exit code 1)\n")
            .unwrap();
    assert_eq!(
        entries(files),
        vec![
            Item::Error("//depot/x - no such file".to_owned()),
            mapping("//depot/a", "//client/a", "/home/me/a"),
            Item::Exit { success: false },
        ]
    );
}

#[test]
fn two_tokens_are_no_mapping() {
    let error = run(b"//depot/a#1 //client/a\n(exit code 0)\n").unwrap_err();
    assert_eq!(error.kind, ErrorKind::ParseFailed);
    assert_eq!(error.cause, None);
    assert_eq!(error.context, "p4 where");
}

#[test]
fn four_tokens_are_no_mapping() {
    let error = run(b"//depot/a //client/a /home/my files/a\n(exit code 0)\n").unwrap_err();
    assert_eq!(error.kind, ErrorKind::ParseFailed);
}

#[test]
fn empty_output_fails() {
    let error = run(b"").unwrap_err();
    assert_eq!(error.kind, ErrorKind::ParseFailed);
}

#[test]
fn missing_terminal_line_fails() {
    let error = run(b"//depot/a //client/a a\ninfo: done\n").unwrap_err();
    assert_eq!(error.kind, ErrorKind::ParseFailed);
}

#[test]
fn terminal_line_without_newline_fails() {
    let error = run(b"//depot/a //client/a a\n(exit code 0)").unwrap_err();
    assert_eq!(error.kind, ErrorKind::ParseFailed);
}

#[test]
fn bytes_after_the_terminal_line_fail() {
    let error = run(b"(exit code 0)\n//depot/a //client/a a\n").unwrap_err();
    assert_eq!(error.kind, ErrorKind::ParseFailed);
    let error = run(b"(exit code 0)\n(exit code 0)\n").unwrap_err();
    assert_eq!(error.kind, ErrorKind::ParseFailed);
    let error = run(b"(exit code 0)\n\n").unwrap_err();
    assert_eq!(error.kind, ErrorKind::ParseFailed);
}

#[test]
fn unknown_line_fails() {
    let error = run(b"warning: odd\n(exit code 0)\n").unwrap_err();
    assert_eq!(error.kind, ErrorKind::ParseFailed);
    let error = run(b"\n(exit code 0)\n").unwrap_err();
    assert_eq!(error.kind, ErrorKind::ParseFailed);
}

#[test]
fn mapping_outside_perforce_syntax_fails() {
    let error = run(b"depot/a //client/a a\n(exit code 0)\n").unwrap_err();
    assert_eq!(error.kind, ErrorKind::ParseFailed);
    let error = run(b"//depot/a client/a a\n(exit code 0)\n").unwrap_err();
    assert_eq!(error.kind, ErrorKind::ParseFailed);
}

#[test]
fn empty_token_fails() {
    let error = run(b"//depot/a //client/a \n(exit code 0)\n").unwrap_err();
    assert_eq!(error.kind, ErrorKind::ParseFailed);
    let error = run(b"//depot/a  //client/a a\n(exit code 0)\n").unwrap_err();
    assert_eq!(error.kind, ErrorKind::ParseFailed);
}

#[test]
fn invalid_utf8_fails() {
    let error = run(b"//depot/a //client/a \xff\n(exit code 0)\n").unwrap_err();
    assert_eq!(error.kind, ErrorKind::ParseFailed);
    let error = run(b"info: \xc3\n(exit code 0)\n").unwrap_err();
    assert_eq!(error.kind, ErrorKind::ParseFailed);
}

#[test]
fn names_keep_their_bytes() {
    let output = "//depot/d\u{e9}p\u{f4}t/\u{65e5}\u{672c} //client/\u{1f600} /tmp/\u{e9}\n(exit code 0)\n";
    let files = run(output.as_bytes()).unwrap();
    match files.get(0) {
        Some(Item::Data(file)) => {
            assert_eq!(file.depot_file, "//depot/d\u{e9}p\u{f4}t/\u{65e5}\u{672c}");
            assert_eq!(file.client_file, "//client/\u{1f600}");
            assert_eq!(file.path, "/tmp/\u{e9}");
            let line = format!("{} {} {}\n", file.depot_file, file.client_file, file.path);
            assert!(output.starts_with(&line));
        }
        other => panic!("unexpected entry {:?}", other),
    }
}

#[test]
fn lines_keep_their_order() {
    let files = run(
        b"info: first\n//depot/a //client/a a\nerror: second\ninfo: third\n//depot/b //client/b b\n(exit code 0)\n",
    )
    .unwrap();
    assert_eq!(files.len(), 6);
    assert_eq!(
        entries(files),
        vec![
            Item::Info("first".to_owned()),
            mapping("//depot/a", "//client/a", "a"),
            Item::Error("second".to_owned()),
            Item::Info("third".to_owned()),
            mapping("//depot/b", "//client/b", "b"),
            Item::Exit { success: true },
        ]
    );
}

#[test]
fn same_output_same_entries() {
    let output = b"error: no\n//depot/a //client/a a\ninfo: yes\n(exit code 3)\n";
    let first = entries(run(output).unwrap());
    let second = entries(run(output).unwrap());
    assert_eq!(first, second);
    assert_eq!(first.len(), 4);
}

#[test]
fn last_entry_is_the_only_exit() {
    let files = run(b"info: a\nerror: b\n//depot/a //client/a a\n(exit code 0)\n").unwrap();
    let all = entries(files);
    let exits = all.iter().filter(|item| matches!(item, Item::Exit { .. })).count();
    assert_eq!(exits, 1);
    assert!(matches!(all.last(), Some(Item::Exit { success: true })));
}

#[test]
fn exit_code_decides_success() {
    assert_eq!(entries(run(b"(exit code 0)\n").unwrap()), vec![Item::Exit { success: true }]);
    assert_eq!(entries(run(b"(exit code 000)\n").unwrap()), vec![Item::Exit { success: true }]);
    assert_eq!(entries(run(b"(exit code 1)\n").unwrap()), vec![Item::Exit { success: false }]);
    assert_eq!(entries(run(b"(exit code 10)\n").unwrap()), vec![Item::Exit { success: false }]);
    assert_eq!(
        entries(run(b"(exit code 18446744073709551616)\n").unwrap()),
        vec![Item::Exit { success: false }]
    );
}

#[test]
fn malformed_terminal_line_fails() {
    for output in [
        &b"(exit code )\n"[..],
        &b"(exit code 0\n"[..],
        &b"(exit code -1)\n"[..],
        &b"(exit code 0) \n"[..],
        &b"(exit code 0x)\n"[..],
        &b"(exit code  0)\n"[..],
        &b" (exit code 0)\n"[..],
        &b"(exit 0)\n"[..],
    ] {
        let error = run(output).unwrap_err();
        assert_eq!(error.kind, ErrorKind::ParseFailed);
    }
}

#[test]
fn empty_messages_are_kept() {
    let files = run(b"info: \nerror: \n(exit code 0)\n").unwrap();
    assert_eq!(
        entries(files),
        vec![
            Item::Info(String::new()),
            Item::Error(String::new()),
            Item::Exit { success: true }
        ]
    );
}

#[test]
fn marker_needs_its_space() {
    let error = run(b"info:\n(exit code 0)\n").unwrap_err();
    assert_eq!(error.kind, ErrorKind::ParseFailed);
    let error = run(b"error:no\n(exit code 0)\n").unwrap_err();
    assert_eq!(error.kind, ErrorKind::ParseFailed);
}

#[test]
fn messages_may_look_like_mappings() {
    let files = run(b"error: //depot/a //client/a\ninfo: a b\n(exit code 0)\n").unwrap();
    assert_eq!(
        entries(files),
        vec![
            Item::Error("//depot/a //client/a".to_owned()),
            Item::Info("a b".to_owned()),
            Item::Exit { success: true },
        ]
    );
}

#[test]
fn tool_errors_do_not_fail_the_call() {
    let files = run(b"error: a\nerror: b\n(exit code 1)\n").unwrap();
    assert_eq!(
        entries(files),
        vec![
            Item::Error("a".to_owned()),
            Item::Error("b".to_owned()),
            Item::Exit { success: false }
        ]
    );
}
