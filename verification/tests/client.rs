use rexec::cli::{ColorChoice, RunArgs};
use rexec::client::{
    attach_opening, attach_step, exec_error, list_failure, print_step, report_broken, report_check,
    report_response, run_dir, run_request, stdin_failure, stdin_text, wants_ansi, AbortGuard,
    AttachEvent, AttachStep, PrintEvent,
};
use rexec::connection::LineRead;
use rexec::environment::Environment;
use rexec::filter::OutputFilter;
use rexec::protocol::{
    action_line, message_of_line, ClientAction, ControlResponse, Response, TranscriptEntry,
    ABORT_LINE, PING_LINE,
};
use rexec::render::{render_entry, render_entry_to};
use rexec::session::{ping_outcome, reply_message, HostConnection, SessionEvent, SessionPhase};

fn entry(output: &str) -> TranscriptEntry {
    TranscriptEntry {
        whoami: "agent".into(),
        dir: "/tmp".into(),
        envs: Environment::new(),
        argv: vec!["printf".into(), "red".into()],
        timeout: 0,
        exit: 0,
        output: output.into(),
        error: None,
        time: Some("2026-09-01T00:00:00Z".into()),
    }
}

fn response(exit: i32, output: &str, error: Option<&str>) -> Response {
    Response { exit, output: output.into(), error: error.map(String::from) }
}

#[test]
fn attach_renderer_colors_headers_and_preserves_raw_output() {
    let mut rendered = Vec::new();
    render_entry_to(&mut rendered, &entry("\x1b[31mred\x1b[0m\n"), true);
    assert!(rendered.starts_with(b"\x1b[2m["));
    assert!(rendered.windows(9).any(|part| part == b"\x1b[31mred\x1b"));
}

#[test]
fn plain_renderer_introduces_no_ansi_sequences() {
    let mut rendered = Vec::new();
    render_entry_to(&mut rendered, &entry("red\n"), false);
    assert!(!rendered.contains(&0x1b));
}

#[test]
fn rendering_is_exact() {
    assert_eq!(
        render_entry(&entry("red"), false),
        "[2026-09-01T00:00:00Z] agent:/tmp $ TO=0 printf red\nred\n\n"
    );
    assert_eq!(
        render_entry(&entry("red\n"), true),
        "\x1b[2m[2026-09-01T00:00:00Z] \x1b[0m\x1b[1;36magent\x1b[0m:\x1b[34m/tmp\x1b[0m \
         \x1b[1;33m$\x1b[0m TO=0 printf red\nred\n\n"
    );
    let mut timeless = entry("");
    timeless.time = None;
    timeless.timeout = 5;
    assert_eq!(render_entry(&timeless, false), "agent:/tmp $ TO=5 printf red\n\n\n");
}

#[test]
fn requests_carry_the_command_line() {
    let args = RunArgs {
        whoami: "agent".into(),
        dir: b"/repo".to_vec(),
        envs: vec![
            ("B".into(), "1".into()),
            ("A".into(), "2".into()),
            ("B".into(), "3".into()),
        ],
        argv: vec!["true".into()],
        read_stdin: false,
        timeout: 9,
    };
    let dir = run_dir(&args.dir).unwrap();
    let request = run_request(args, dir, Some("in".into()));
    assert_eq!(request.dir, "/repo");
    assert_eq!(request.timeout, 9);
    assert_eq!(request.stdin.as_deref(), Some("in"));
    assert!(!request.clear_env);
    assert_eq!(
        *request.envs.entries(),
        vec![("A".to_string(), "2".to_string()), ("B".to_string(), "3".to_string())]
    );
}

#[test]
fn texts_must_be_utf8() {
    let report = run_dir(b"/a\xff").unwrap_err();
    assert_eq!(report.exit, 127);
    assert_eq!(report.stderr.unwrap(), "rexec: --dir contains invalid UTF-8");
    assert_eq!(stdin_text("h\u{e9}".as_bytes()).unwrap(), "h\u{e9}");
    assert_eq!(
        stdin_text(b"\xc3").unwrap_err().stderr.unwrap(),
        "rexec: failed to read stdin: stdin is not valid UTF-8"
    );
    assert_eq!(
        stdin_failure("closed").stderr.unwrap(),
        "rexec: failed to read stdin: closed"
    );
}

#[test]
fn responses_are_reported() {
    let argv = vec!["frob".to_string()];
    let good = report_response(&argv, response(3, "out\n", None));
    assert_eq!((good.stdout.as_str(), good.stderr, good.exit), ("out\n", None, 3));
    let missing = report_response(&argv, response(127, "noise", Some("not_found")));
    assert_eq!(missing.stdout, "");
    assert_eq!(missing.stderr.unwrap(), "frob: not found");
    assert_eq!(missing.exit, 127);
    let late = report_response(&argv, response(124, "some", Some("timeout")));
    assert_eq!(late.stdout, "some");
    assert_eq!(late.stderr.unwrap(), "rexec: host reported error: timeout");
    assert_eq!(
        report_response(&Vec::new(), response(127, "", Some("not_found"))).stderr.unwrap(),
        ": not found"
    );
}

#[test]
fn broken_connections_are_reported() {
    assert_eq!(report_broken(SessionPhase::Fresh, "x").stderr.unwrap(), "HOST NOT FOUND");
    assert_eq!(
        report_broken(SessionPhase::Verified, "x").stderr.unwrap(),
        "rexec: failed to send request: x"
    );
    let lost = report_broken(SessionPhase::Waiting, "x");
    assert_eq!(lost.stderr.unwrap(), "rexec: failed to read response: x");
    assert_eq!(lost.exit, 127);
    assert_eq!(exec_error(SessionPhase::Fresh, "x"), "HOST NOT FOUND");
    assert_eq!(exec_error(SessionPhase::Authorised, "x"), "send: x");
    assert_eq!(exec_error(SessionPhase::Waiting, "x"), "read: x");
}

#[test]
fn only_a_pong_proves_a_host() {
    let up = report_check(SessionPhase::Verified);
    assert_eq!((up.stdout.as_str(), up.exit), ("HOST RUNNING\n", 0));
    for phase in [SessionPhase::Fresh, SessionPhase::Broken] {
        let down = report_check(phase);
        assert_eq!((down.stdout.as_str(), down.exit), ("HOST NOT FOUND\n", 127));
    }
    assert_eq!(ping_outcome(Some(ControlResponse::Pong)), SessionEvent::Pong);
    assert_eq!(ping_outcome(None), SessionEvent::NoPong);
}

#[test]
fn sessions_follow_the_exchange() {
    let mut session = HostConnection::new();
    assert!(!session.is_verified());
    session.advance(SessionEvent::Pong);
    assert!(session.is_verified());
    session.advance(SessionEvent::Pong);
    session.advance(SessionEvent::Pong);
    assert_eq!(session.phase, SessionPhase::Authorised);
    session.advance(SessionEvent::RequestSent);
    assert_eq!(session.phase, SessionPhase::Waiting);
    session.advance(SessionEvent::Response);
    assert_eq!(session.phase, SessionPhase::Verified);
    session.advance(SessionEvent::NoPong);
    assert_eq!(session.phase, SessionPhase::Broken);
    session.advance(SessionEvent::Pong);
    assert_eq!(session.phase, SessionPhase::Broken);
}

#[test]
fn requests_follow_a_further_pong() {
    let mut session = HostConnection::new();
    assert!(!session.may_send_request());
    session.advance(SessionEvent::Pong);
    assert!(!session.may_send_request());
    session.advance(SessionEvent::Pong);
    assert!(session.may_send_request());
    session.advance(SessionEvent::RequestSent);
    assert!(!session.may_send_request());
    session.advance(SessionEvent::Response);
    assert!(!session.may_send_request());
    session.advance(SessionEvent::RequestSent);
    assert_eq!(session.phase, SessionPhase::Broken);
}

#[test]
fn attach_action_selects_raw_ansi_output() {
    let action = ClientAction::Attach { ansi: true };
    assert_eq!(message_of_line(action_line(action)), r#"{"action":"attach","ansi":true}"#);
}

#[test]
fn actions_have_lines_of_their_own() {
    assert_eq!(action_line(ClientAction::Ping), PING_LINE);
    assert_eq!(action_line(ClientAction::Abort), ABORT_LINE);
    assert_eq!(
        action_line(ClientAction::Attach { ansi: false }),
        "{\"action\":\"attach\",\"ansi\":false}\n"
    );
}

#[test]
fn attaching_waits_for_the_opening_pong() {
    assert!(matches!(
        attach_opening(SessionEvent::Pong, true),
        Some(ClientAction::Attach { ansi: true })
    ));
    assert!(matches!(
        attach_opening(SessionEvent::Pong, false),
        Some(ClientAction::Attach { ansi: false })
    ));
    assert!(attach_opening(SessionEvent::NoPong, true).is_none());
}

#[test]
fn colours_add_control_sequences_only() {
    let entry = entry("\x1b[31mred\x1b[0m");
    let mut coloured = Vec::new();
    render_entry_to(&mut coloured, &entry, true);
    let mut shown = Vec::new();
    OutputFilter::new().push(&coloured, &mut shown);
    assert_eq!(shown, b"[2026-09-01T00:00:00Z] agent:/tmp $ TO=0 printf red\nred\n\n");
}

#[test]
fn replies_are_trimmed() {
    assert_eq!(reply_message(LineRead::Eof).unwrap(), "");
    assert_eq!(reply_message(LineRead::Line("{} \n".into())).unwrap(), "{}");
    assert_eq!(reply_message(LineRead::Failed("reset".into())).unwrap_err(), "reset");
}

#[test]
fn colors_depend_on_the_terminal_by_default() {
    assert!(wants_ansi(ColorChoice::Auto, true));
    assert!(!wants_ansi(ColorChoice::Auto, false));
    assert!(!wants_ansi(ColorChoice::Never, true));
    assert!(wants_ansi(ColorChoice::Always, false));
}

#[test]
fn attached_clients_print_or_end() {
    assert!(matches!(attach_step(AttachEvent::Entry(entry("x\n")), false),
        AttachStep::Print(text) if text.ends_with(" printf red\nx\n\n")));
    let end = |event: AttachEvent| match attach_step(event, true) {
        AttachStep::Exit(report) => (report.stderr, report.exit),
        other => panic!("{other:?}"),
    };
    assert_eq!(end(AttachEvent::Eof), (None, 0));
    assert_eq!(end(AttachEvent::NoHost), (Some("HOST NOT FOUND".into()), 127));
    assert_eq!(
        end(AttachEvent::NotAttached),
        (Some("rexec: failed to attach to host".into()), 127)
    );
    assert_eq!(
        end(AttachEvent::Invalid("x".into())),
        (Some("rexec: invalid attach response: x".into()), 127)
    );
    assert_eq!(
        end(AttachEvent::ReadFailed("x".into())),
        (Some("rexec: error reading attached host: x".into()), 127)
    );
}

#[test]
fn printing_ends_unless_it_follows() {
    assert!(print_step(PrintEvent::Printed, true).is_none());
    let end = |event: PrintEvent| {
        let report = print_step(event, false).unwrap();
        (report.stderr, report.exit)
    };
    assert_eq!(end(PrintEvent::Printed), (None, 0));
    assert_eq!(
        end(PrintEvent::NoPath("HOME not set".into())),
        (Some("rexec: cannot resolve transcript path: HOME not set".into()), 127)
    );
    assert_eq!(
        end(PrintEvent::Missing("/x".into())),
        (Some("rexec: transcript not found: /x".into()), 127)
    );
    assert_eq!(
        end(PrintEvent::ReadFailed("x".into())),
        (Some("rexec: error reading transcript: x".into()), 127)
    );
    assert_eq!(
        end(PrintEvent::FollowFailed("x".into())),
        (Some("rexec: error following transcript: x".into()), 127)
    );
    assert_eq!(
        list_failure("x").stderr.unwrap(),
        "rexec: failed to list transcripts: x"
    );
}

#[test]
fn abort_is_sent_until_it_is_disarmed() {
    let mut guard = AbortGuard::arm(5);
    assert_eq!(guard.target(), Some(5));
    guard.disarm();
    assert_eq!(guard.target(), None);
}
