use rexec::clock::{request_time, request_time_at, session_name, session_name_at};
use rexec::environment::Environment;
use rexec::lists::keep;
use rexec::paths::join;
use rexec::protocol::{is_zero, message_line, message_of_line, ABORT_LINE, PING_LINE};
use rexec::pty_exec::{
    check_spawn, control_flags, decode_failure, encode_failure, failure_stage, plan_child,
    stdin_source, ChildFailure, ChildStep, ControlBits, FailureStage, SpawnError, StdinSource,
    PTY_COLS, PTY_ROWS,
};
use rexec::shell::shell_quote;
use rexec::socket::{socket_path, socket_path_for};
use rexec::text::{is_blank, text_precedes, trim};
use rexec::transcript::{
    count_lines, dir, entry_lines, listing_line, path_for, recent_names, Follower,
    TranscriptListing,
};

fn words(list: &[&str]) -> Vec<String> {
    list.iter().map(|word| word.to_string()).collect()
}

fn pairs(list: &[(&str, &str)]) -> Vec<(String, String)> {
    list.iter()
        .map(|(name, value)| (name.to_string(), value.to_string()))
        .collect()
}

#[test]
fn words_are_quoted_for_the_shell() {
    assert_eq!(shell_quote("a-b_c/d.e+f:g@h=i,j%k"), "a-b_c/d.e+f:g@h=i,j%k");
    assert_eq!(shell_quote(""), "''");
    assert_eq!(shell_quote("two words"), "'two words'");
    assert_eq!(shell_quote("it's"), "'it'\\''s'");
    assert_eq!(shell_quote("\u{e9}"), "'\u{e9}'");
}

#[test]
fn environments_are_ordered_and_later_values_hold() {
    let env = Environment::from_pairs(pairs(&[("b", "1"), ("a", "2"), ("b", "3"), ("ab", "4")]));
    assert_eq!(*env.entries(), pairs(&[("a", "2"), ("ab", "4"), ("b", "3")]));
    let mut copy = env.clone();
    copy.insert("a".into(), "5".into());
    assert_eq!(copy.entries()[0].1, "5");
    assert_eq!(env.entries()[0].1, "2");
}

#[test]
fn texts_are_trimmed_and_ordered() {
    assert_eq!(trim(" \u{3000}a b\t\n"), "a b");
    assert!(is_blank(" \u{85}\n"));
    assert!(!is_blank("x"));
    assert!(text_precedes("ab", "abc"));
    assert!(text_precedes("abc", "b"));
    assert!(!text_precedes("b", "b"));
}

#[test]
fn messages_survive_their_lines() {
    assert_eq!(message_of_line(&message_line("{\"exit\":0}")), "{\"exit\":0}");
    assert_eq!(PING_LINE, "{\"action\":\"ping\"}\n");
    assert_eq!(ABORT_LINE, "{\"action\":\"abort\"}\n");
    assert!(is_zero(&0));
    assert!(!is_zero(&1));
}

#[test]
fn times_are_written_in_utc() {
    assert_eq!(session_name_at(1_779_356_538), "2026-05-21-09:42:18");
    assert_eq!(request_time_at(1_779_356_538), "2026-05-21T09:42:18Z");
    assert_eq!(session_name_at(0), "1970-01-01-00:00:00");
    assert_eq!(session_name_at(253_402_300_799), "9999-12-31-23:59:59");
    assert_eq!(request_time_at(8_210_266_876_799), "+262142-12-31T23:59:59Z");
    assert_eq!(session_name().len(), 19);
    assert!(request_time().ends_with('Z'));
}

#[test]
fn later_sessions_have_later_names() {
    let seconds = [0, 1, 59, 60, 86_399, 86_400, 951_782_400, 1_779_356_538, 253_402_300_799];
    for pair in seconds.windows(2) {
        assert!(text_precedes(&session_name_at(pair[0]), &session_name_at(pair[1])));
    }
}

#[test]
fn sockets_belong_to_users() {
    assert_eq!(socket_path_for(1000), "/tmp/.rexec-1000");
    assert_eq!(socket_path_for(0), "/tmp/.rexec-0");
    assert_eq!(socket_path_for(u32::MAX), "/tmp/.rexec-4294967295");
    let uid = nix::unistd::Uid::current().as_raw();
    assert_eq!(socket_path(), socket_path_for(uid));
}

#[test]
fn paths_are_joined() {
    assert_eq!(join(b"/home/a", b"b"), b"/home/a/b");
    assert_eq!(join(b"/home/a/", b"b"), b"/home/a/b");
    assert_eq!(join(b"", b"b"), b"b");
    assert_eq!(join(b"/home", b"/etc"), b"/etc");
}

#[test]
fn transcripts_have_their_place() {
    assert_eq!(dir(Some(b"/home/a")).unwrap(), b"/home/a/.rexec");
    assert_eq!(
        path_for(Some(b"/home/a"), "2026-05-21-09:42:18").unwrap(),
        b"/home/a/.rexec/2026-05-21-09:42:18.jsonl"
    );
    assert_eq!(dir(None).unwrap_err(), "HOME not set");
    assert_eq!(path_for(None, "x").unwrap_err(), "HOME not set");
}

#[test]
fn listings_are_newest_first() {
    let files: Vec<Vec<u8>> = [
        &b"2026-05-20-17:03:55.jsonl"[..],
        b"notes.txt",
        b".jsonl",
        b"2026-05-21-09:42:18.jsonl",
        b"\xff.jsonl",
        b"2025-01-01-00:00:00.jsonl",
    ]
    .iter()
    .map(|file| file.to_vec())
    .collect();
    assert_eq!(
        recent_names(&files, 2),
        vec!["2026-05-21-09:42:18", "2026-05-20-17:03:55"]
    );
    assert_eq!(recent_names(&files, 10).len(), 3);
    assert!(recent_names(&files, 0).is_empty());
    let listing = TranscriptListing { name: "2026-05-21-09:42:18".into(), command_count: 19 };
    assert_eq!(listing_line(&listing), "2026-05-21-09:42:18 commands=19");
}

#[test]
fn blank_lines_do_not_count() {
    assert_eq!(entry_lines(b"a\r\n\n \nb").unwrap(), vec!["a", "b"]);
    assert_eq!(count_lines(b"a\r\n\n \nb"), 2);
    assert_eq!(count_lines(b"a\n\xff\n"), 0);
    assert!(entry_lines(b"\xff").is_none());
}

#[test]
fn followers_wait_for_whole_lines() {
    let mut follower = Follower::new();
    assert!(!follower.has_news(0));
    assert!(follower.has_news(1));
    assert_eq!(follower.read(b"one\n\ntwo \nthr"), vec!["one", "two"]);
    assert_eq!(follower.offset, 10);
    assert!(!follower.has_news(10));
    assert_eq!(follower.read(b"three\n\xff\n"), vec!["three"]);
    assert_eq!(follower.offset, 18);
}

#[test]
fn written_transcripts_are_read_back() {
    let bodies = vec!["{\"exit\":0}", "{\"output\":\"gr\u{fc}n\"}", "x y"];
    let text: String = bodies.iter().map(|body| message_line(body)).collect();
    let mut follower = Follower::new();
    assert_eq!(follower.read(text.as_bytes()), bodies);
    assert_eq!(follower.offset, text.len() as u64);
    assert_eq!(entry_lines(text.as_bytes()).unwrap(), bodies);
    assert_eq!(count_lines(text.as_bytes()), 3);
    let path = path_for(Some(b"/h"), "name").unwrap();
    let file = path[b"/h/.rexec/".len()..].to_vec();
    assert_eq!(recent_names(&vec![file], 1), vec!["name"]);
}

#[test]
fn terminals_are_small() {
    assert_eq!((PTY_ROWS, PTY_COLS), (24, 80));
}

#[test]
fn commands_are_checked_before_they_start() {
    let good = words(&["echo", "x"]);
    assert!(check_spawn(&good, &pairs(&[("A", "b=c")]), "/tmp").is_ok());
    let error = |argv: &[&str], envs: &[(&str, &str)], cwd: &str| {
        check_spawn(&words(argv), &pairs(envs), cwd).unwrap_err().message()
    };
    assert_eq!(error(&[], &[], "/"), "PTY argv contains a NUL byte");
    assert_eq!(error(&["a\0"], &[], "/"), "PTY program contains a NUL byte");
    assert_eq!(error(&["a", "\0"], &[], "/"), "PTY argument contains a NUL byte");
    assert_eq!(
        error(&["a"], &[("A=", "x\0")], "/"),
        "environment variable name contains '=': A="
    );
    assert_eq!(error(&["a"], &[("A\0", "x")], "/"), "PTY env name contains a NUL byte");
    assert_eq!(error(&["a"], &[("A", "\0")], "/"), "PTY env value contains a NUL byte");
    assert_eq!(error(&["a"], &[], "/\0"), "PTY cwd contains a NUL byte");
}

#[test]
fn start_errors_have_messages() {
    let reason = || "EIO".to_string();
    assert_eq!(SpawnError::Pipe(reason()).message(), "failed to open errno pipe: EIO");
    assert_eq!(SpawnError::Stdin(reason()).message(), "failed to open child stdin: EIO");
    assert_eq!(SpawnError::Open(reason()).message(), "failed to open PTY: EIO");
    assert_eq!(
        SpawnError::Termios(reason()).message(),
        "failed to configure PTY termios: EIO"
    );
    assert_eq!(SpawnError::Fork(reason()).message(), "failed to fork PTY child: EIO");
}

#[test]
fn children_set_up_in_order() {
    let steps = plan_child(&pairs(&[("A", "1"), ("B", "2")]), true);
    assert_eq!(steps.len(), 6);
    assert!(matches!(steps[0], ChildStep::AttachStdin));
    assert!(matches!(steps[1], ChildStep::ChangeDir));
    assert!(matches!(steps[2], ChildStep::ClearEnv));
    assert!(matches!(&steps[3], ChildStep::SetEnv { name, value } if name == "A" && value == "1"));
    assert!(matches!(&steps[4], ChildStep::SetEnv { name, .. } if name == "B"));
    assert!(matches!(steps[5], ChildStep::Execute));
    for step in &steps[..5] {
        assert_eq!(failure_stage(step), FailureStage::Setup);
    }
    assert_eq!(failure_stage(&steps[5]), FailureStage::Exec);
    assert_eq!(plan_child(&Vec::new(), false).len(), 3);
}

#[test]
fn standard_input_is_a_pipe_when_given() {
    assert!(matches!(stdin_source(&None), StdinSource::Null));
    assert!(matches!(stdin_source(&Some("payload".into())),
        StdinSource::Pipe(bytes) if bytes == b"payload"));
    assert!(matches!(stdin_source(&Some(String::new())),
        StdinSource::Pipe(bytes) if bytes.is_empty()));
}

#[test]
fn failures_cross_the_pipe() {
    for errno in [0, 2, 13, 0x0102_0304, -1, i32::MIN] {
        for stage in [FailureStage::Setup, FailureStage::Exec] {
            let failure = ChildFailure { stage, errno };
            assert_eq!(decode_failure(&encode_failure(failure)), Some(failure));
        }
    }
    assert_eq!(
        encode_failure(ChildFailure { stage: FailureStage::Exec, errno: 0x0102_0304 }),
        [2, 4, 3, 2, 1]
    );
    assert_eq!(decode_failure(b""), None);
    assert_eq!(decode_failure(&[2, 0, 0]), None);
    assert_eq!(decode_failure(&[3, 0, 0, 0, 0]), None);
}

#[test]
fn terminals_take_eight_bits() {
    let bits = ControlBits { csize: 0o60, parenb: 0o400, cread: 0o200, cs8: 0o60 };
    assert_eq!(control_flags(0o1420, bits), 0o1260);
}

#[test]
fn only_marked_items_stay() {
    assert_eq!(keep(vec!["a", "b", "c"], &vec![true, false, true]), vec!["a", "c"]);
    assert!(keep(vec!["a"], &vec![false]).is_empty());
}
