use std::time::Duration;

use rexec::command::{
    exit_code, finish, finish_unstarted, is_expiration, kill_plan, time_limit, timeout_expired,
    watch_line, watch_message, CancelWait, ChildStatus, CommandRun, Ending, KillStep, RunAction,
    RunEvent, WatchRead, WatchStep,
};
use rexec::connection::{classify, Connection, Incoming, LineRead, LineStep, Phase, Step};
use rexec::console::{banner, ConsoleJob, ConsoleStep, PrintQueue};
use rexec::environment::Environment;
use rexec::host::{
    accept_failure, attachment_disconnected, bind_step, feed_step, poll_step, start_notice,
    stop_notice, transcript_failure, Arrivals, BindEvent, BindStep, FeedEvent, FeedStep, Peek,
    PollEvent, ServeStep,
};
use rexec::journal::{delivery, TranscriptQueue, TranscriptRecord};
use rexec::output::{PtyBuffer, PtyRead};
use rexec::protocol::{ClientAction, HostEvent, Request, TranscriptEntry};
use rexec::pty_exec::{ChildFailure, FailureStage, SpawnError};
use rexec::session::{HostConnection, SessionEvent, SessionPhase};

fn test_request(command: &str) -> Request {
    Request {
        whoami: "test".into(),
        dir: "/tmp".into(),
        envs: Environment::new(),
        clear_env: false,
        argv: vec![command.into()],
        stdin: None,
        timeout: 0,
    }
}

fn entry(name: &str) -> TranscriptEntry {
    TranscriptEntry {
        whoami: name.into(),
        dir: "/tmp".into(),
        envs: Environment::new(),
        argv: vec!["true".into()],
        timeout: 0,
        exit: 0,
        output: "plain".into(),
        error: None,
        time: None,
    }
}

fn ended(exit_code: i32) -> Ending {
    Ending { failure: None, timed_out: false, aborted: false, exit_code }
}

#[test]
fn timeout_wait_can_be_cancelled() {
    let (send, receive) = std::sync::mpsc::channel();
    send.send(()).unwrap();
    assert!(!timeout_expired(&receive, Duration::from_secs(1)));
}

#[test]
fn disconnected_timeout_wait_is_not_an_expiration() {
    let (send, receive) = std::sync::mpsc::channel();
    drop(send);
    assert!(!timeout_expired(&receive, Duration::from_secs(1)));
}

#[test]
fn timeout_wait_reports_expiration() {
    let (_send, receive) = std::sync::mpsc::channel();
    assert!(timeout_expired(&receive, Duration::from_millis(1)));
}

#[test]
fn only_a_spent_wait_is_an_expiration() {
    assert!(is_expiration(CancelWait::TimedOut));
    assert!(!is_expiration(CancelWait::Cancelled));
    assert!(!is_expiration(CancelWait::Disconnected));
}

#[test]
fn queuing_console_output_does_not_wait_for_its_turn() {
    let mut print_queue = PrintQueue::new();
    assert_eq!(print_queue.next, 0);
    assert!(print_queue.must_wait(1));
    assert!(!print_queue.must_wait(0));

    print_queue.release();
    assert!(!print_queue.must_wait(1));
    print_queue.release();
    assert_eq!(print_queue.next, 2);
}

#[test]
fn attachment_disconnect_is_detected_without_an_event() {
    assert!(!attachment_disconnected(Peek::Empty));
    assert!(attachment_disconnected(Peek::Eof));
    assert!(attachment_disconnected(Peek::Failed));
    assert!(!attachment_disconnected(Peek::Data));
    assert!(!attachment_disconnected(Peek::Interrupted));
}

#[test]
fn verified_connection_accepts_multiple_commands() {
    let mut host = Connection::new();
    let mut client = HostConnection::new();
    let mut arrivals = Arrivals::new();
    let mut transcript: TranscriptQueue<()> = TranscriptQueue::new();
    let mut entries = Vec::new();

    assert!(matches!(host.receive(Incoming::Action(ClientAction::Ping)), Step::Pong));
    client.advance(SessionEvent::Pong);
    for _ in 0..2 {
        assert!(client.is_verified());
        assert!(matches!(host.receive(Incoming::Action(ClientAction::Ping)), Step::Pong));
        client.advance(SessionEvent::Pong);
        assert_eq!(client.phase, SessionPhase::Authorised);
        let Step::Run(request) = host.receive(Incoming::Request(test_request("true"))) else {
            panic!("the request should be run");
        };
        client.advance(SessionEvent::RequestSent);
        let seq = arrivals.number();
        let mut buffer = PtyBuffer::new(false);
        assert!(!buffer.absorb(PtyRead::Eof));
        let done = finish(request, "now".into(), ended(0), &buffer);
        assert_eq!(done.response.exit, 0);
        client.advance(SessionEvent::Response);
        for record in transcript.submit(seq, done.entry, done.raw_output) {
            entries.push(record.entry);
        }
    }
    assert_eq!(entries.len(), 2);
    assert!(matches!(host.line(LineRead::Eof), LineStep::Close { diagnostic: None }));
}

#[test]
fn command_without_fresh_ping_is_rejected() {
    let mut host = Connection::new();
    assert!(matches!(host.receive(Incoming::Action(ClientAction::Ping)), Step::Pong));
    match host.receive(Incoming::Request(test_request("true"))) {
        Step::Reject { diagnostic } => assert_eq!(
            diagnostic,
            "rexec host: command request was not preceded by ping"
        ),
        other => panic!("{other:?}"),
    }
    assert_eq!(host.phase, Phase::Closed);
    assert!(matches!(host.receive(Incoming::Action(ClientAction::Ping)), Step::Ignore));
}

#[test]
fn connection_must_start_with_ping() {
    for first in [
        Incoming::Action(ClientAction::Attach { ansi: true }),
        Incoming::Action(ClientAction::Abort),
        Incoming::Request(test_request("true")),
        Incoming::Malformed("x".into()),
    ] {
        let mut host = Connection::new();
        match host.receive(first) {
            Step::Reject { diagnostic } => {
                assert_eq!(diagnostic, "rexec host: connection did not start with ping")
            }
            other => panic!("{other:?}"),
        }
        assert_eq!(host.phase, Phase::Closed);
    }
}

#[test]
fn one_ping_authorises_one_request() {
    let mut host = Connection::new();
    host.receive(Incoming::Action(ClientAction::Ping));
    host.receive(Incoming::Action(ClientAction::Ping));
    assert!(matches!(host.receive(Incoming::Action(ClientAction::Abort)), Step::Ignore));
    assert!(matches!(host.receive(Incoming::Request(test_request("a"))), Step::Run(_)));
    assert!(matches!(
        host.receive(Incoming::Request(test_request("b"))),
        Step::Reject { .. }
    ));
}

#[test]
fn bad_requests_are_answered() {
    let mut host = Connection::new();
    host.receive(Incoming::Action(ClientAction::Ping));
    host.receive(Incoming::Action(ClientAction::Ping));
    match host.receive(Incoming::Malformed("expected value".into())) {
        Step::Reply { response, warning } => {
            assert_eq!(response.exit, 127);
            assert_eq!(response.output, "");
            assert_eq!(response.error.unwrap(), "malformed request: expected value");
            assert_eq!(warning.unwrap(), "rexec host: malformed request: expected value");
        }
        other => panic!("{other:?}"),
    }
    host.receive(Incoming::Action(ClientAction::Ping));
    let mut empty = test_request("x");
    empty.argv.clear();
    match host.receive(Incoming::Request(empty)) {
        Step::Reply { response, warning } => {
            assert_eq!(response.error.unwrap(), "exec is empty");
            assert!(warning.is_none());
        }
        other => panic!("{other:?}"),
    }
    host.receive(Incoming::Action(ClientAction::Ping));
    assert!(matches!(host.receive(Incoming::Request(test_request("a"))), Step::Run(_)));
    host.write_failed();
    assert_eq!(host.phase, Phase::Closed);
}

#[test]
fn attach_follows_the_opening_handshake() {
    let mut host = Connection::new();
    host.receive(Incoming::Action(ClientAction::Ping));
    assert!(matches!(
        host.receive(Incoming::Action(ClientAction::Attach { ansi: true })),
        Step::Attach { ansi: true }
    ));
    assert_eq!(host.phase, Phase::Attached);
}

#[test]
fn actions_come_before_requests() {
    assert!(matches!(
        classify(Some(ClientAction::Ping), Ok(test_request("x"))),
        Incoming::Action(ClientAction::Ping)
    ));
    assert!(matches!(classify(None, Ok(test_request("x"))), Incoming::Request(_)));
    assert!(matches!(classify(None, Err("bad".into())), Incoming::Malformed(m) if m == "bad"));
}

#[test]
fn lines_become_messages() {
    let mut host = Connection::new();
    match host.line(LineRead::Line("{\"action\":\"ping\"} \r\n".into())) {
        LineStep::Parse(message) => assert_eq!(message, "{\"action\":\"ping\"}"),
        other => panic!("{other:?}"),
    }
    assert!(matches!(host.line(LineRead::Line("\n".into())), LineStep::Parse(_)));
    host.receive(Incoming::Action(ClientAction::Ping));
    assert!(matches!(host.line(LineRead::Line(" \t\n".into())), LineStep::Skip));
    match host.line(LineRead::Failed("reset".into())) {
        LineStep::Close { diagnostic } => {
            assert_eq!(diagnostic.unwrap(), "rexec host: read request: reset")
        }
        other => panic!("{other:?}"),
    }
}

#[test]
fn watcher_aborts_for_its_client_alone() {
    assert!(matches!(watch_line(WatchRead::Finished), WatchStep::Done));
    assert!(matches!(watch_line(WatchRead::Eof), WatchStep::Abort));
    assert!(matches!(watch_line(WatchRead::Failed), WatchStep::Abort));
    assert!(matches!(watch_line(WatchRead::Quiet), WatchStep::Continue));
    assert!(matches!(watch_line(WatchRead::Line("\n".into())), WatchStep::Continue));
    assert!(matches!(watch_line(WatchRead::Line("x\n".into())), WatchStep::Parse(m) if m == "x"));
    assert!(watch_message(Some(ClientAction::Abort)));
    assert!(!watch_message(Some(ClientAction::Ping)));
    assert!(!watch_message(Some(ClientAction::Attach { ansi: false })));
    assert!(!watch_message(None));
}

#[test]
fn endings_are_reported() {
    let buffer = || {
        let mut buffer = PtyBuffer::new(true);
        assert!(buffer.absorb(PtyRead::Data(b"\x1b[31mred\x1b[0m\r".to_vec())));
        buffer
    };
    let report = |ending: Ending| {
        let done = finish(test_request("x"), "t".into(), ending, &buffer());
        assert_eq!(done.entry.output, "red\n");
        assert_eq!(done.raw_output, "\x1b[31mred\x1b[0m\r");
        assert_eq!(done.entry.time.as_deref(), Some("t"));
        assert_eq!(done.entry.exit, done.response.exit);
        assert_eq!(done.entry.error, done.response.error);
        (done.response.exit, done.response.error)
    };
    assert_eq!(report(ended(3)), (3, None));
    let aborted = Ending { aborted: true, ..ended(143) };
    assert_eq!(report(aborted), (143, Some("aborted".to_string())));
    let late = Ending { timed_out: true, ..aborted };
    assert_eq!(report(late), (124, Some("timeout".to_string())));
    let missing = Ending {
        failure: Some(ChildFailure { stage: FailureStage::Exec, errno: 2 }),
        ..late
    };
    assert_eq!(report(missing), (127, Some("not_found".to_string())));
    let no_dir = Ending {
        failure: Some(ChildFailure { stage: FailureStage::Setup, errno: 2 }),
        ..ended(127)
    };
    assert_eq!(report(no_dir), (127, Some("spawn_failed".to_string())));
}

#[test]
fn runs_are_concluded_when_nothing_can_kill() {
    let mut run = CommandRun::new();
    assert!(matches!(run.advance(RunEvent::Started), RunAction::Accompany));
    assert!(matches!(
        run.advance(RunEvent::WatcherOver { aborted: true }),
        RunAction::Nothing
    ));
    assert!(matches!(run.advance(RunEvent::TerminalClosed), RunAction::StopTimer));
    assert!(matches!(
        run.advance(RunEvent::TimerOver { expired: true }),
        RunAction::StopWatcher
    ));
    assert!(matches!(run.advance(RunEvent::WatcherOver { aborted: false }), RunAction::Reap));
    let reaped = || RunEvent::Reaped { exit_code: 137, failure: None };
    match run.advance(reaped()) {
        RunAction::Conclude(ending) => {
            assert_eq!(ending.exit_code, 137);
            assert!(ending.timed_out);
            assert!(!ending.aborted);
            assert!(ending.failure.is_none());
        }
        other => panic!("{other:?}"),
    }
    assert!(matches!(run.advance(reaped()), RunAction::Nothing));
}

#[test]
fn every_run_is_concluded() {
    let mut unstarted = CommandRun::new();
    assert!(matches!(
        unstarted.advance(RunEvent::NotStarted(SpawnError::Fork("EAGAIN".into()))),
        RunAction::ConcludeUnstarted(SpawnError::Fork(reason)) if reason == "EAGAIN"
    ));
    let mut lost = CommandRun::new();
    lost.advance(RunEvent::Started);
    lost.advance(RunEvent::TerminalClosed);
    lost.advance(RunEvent::TimerOver { expired: false });
    assert!(matches!(lost.advance(RunEvent::WatcherLost), RunAction::Reap));
    assert!(matches!(
        lost.advance(RunEvent::Reaped { exit_code: 1, failure: None }),
        RunAction::Conclude(ending) if ending.exit_code == 1 && !ending.aborted
    ));
}

#[test]
fn unstarted_commands_are_reported() {
    let done = finish_unstarted(
        test_request("x"),
        "t".into(),
        &SpawnError::Fork("EAGAIN".into()),
    );
    let output = "rexec: failed to spawn command: failed to fork PTY child: EAGAIN\n";
    assert_eq!(done.response.output, output);
    assert_eq!(done.response.exit, 127);
    assert_eq!(done.response.error.as_deref(), Some("spawn_failed"));
    assert_eq!(done.entry.output, output);
    assert_eq!(done.raw_output, output);
}

#[test]
fn output_that_is_not_text_is_replaced() {
    let mut buffer = PtyBuffer::new(false);
    buffer.absorb(PtyRead::Data(b"a\xffb".to_vec()));
    let done = finish(test_request("x"), "t".into(), ended(0), &buffer);
    assert_eq!(done.response.output, "a\u{fffd}b");
}

#[test]
fn exit_codes_follow_the_child() {
    assert_eq!(exit_code(ChildStatus::Exited(7)), Some(7));
    assert_eq!(exit_code(ChildStatus::Signaled(9)), Some(137));
    assert_eq!(exit_code(ChildStatus::Running), None);
    assert_eq!(exit_code(ChildStatus::Unknown), Some(127));
    assert_eq!(time_limit(0), None);
    assert_eq!(time_limit(30), Some(30));
}

#[test]
fn banner_shows_the_command() {
    let mut request = test_request("grep");
    request.whoami = "Some Agent".into();
    request.dir = "/path/to/repo".into();
    request.argv = vec!["grep".into(), "-v".into(), "it's".into(), "".into()];
    assert_eq!(
        banner(&request, "2026-05-21T09:42:18Z"),
        "[2026-05-21T09:42:18Z] Some Agent:/path/to/repo $ TO=0 grep -v 'it'\\''s' ''\n"
    );
    request.timeout = 30;
    assert!(banner(&request, "t").contains(" $ TO=30 grep"));
}

fn printed(step: ConsoleStep) -> Vec<u8> {
    match step {
        ConsoleStep::Print(bytes) => bytes,
        other => panic!("{other:?}"),
    }
}

fn printed_last(step: ConsoleStep) -> Vec<u8> {
    match step {
        ConsoleStep::Last(bytes) => bytes,
        other => panic!("{other:?}"),
    }
}

#[test]
fn console_shows_banner_output_and_line_feed() {
    let mut buffer = PtyBuffer::new(true);
    let mut job = ConsoleJob::new(false, &test_request("true"), "now");
    assert_eq!(printed(job.next(&mut buffer)), b"[now] test:/tmp $ TO=0 true\n");
    assert!(matches!(job.next(&mut buffer), ConsoleStep::Wait));
    buffer.absorb(PtyRead::Data(b"\x1b[31mred".to_vec()));
    assert_eq!(printed(job.next(&mut buffer)), b"\x1b[31mred");
    assert!(matches!(job.next(&mut buffer), ConsoleStep::Wait));
    buffer.absorb(PtyRead::Data(b" end".to_vec()));
    buffer.absorb(PtyRead::Eof);
    assert_eq!(printed_last(job.next(&mut buffer)), b" end\n");
}

#[test]
fn console_shows_commands_without_output() {
    let mut buffer = PtyBuffer::new(true);
    buffer.absorb(PtyRead::Eof);
    let mut job = ConsoleJob::new(false, &test_request("true"), "now");
    assert_eq!(printed(job.next(&mut buffer)), b"[now] test:/tmp $ TO=0 true\n");
    assert_eq!(printed_last(job.next(&mut buffer)), b"\n");
}

#[test]
fn silent_console_shows_nothing() {
    let mut buffer = PtyBuffer::new(false);
    buffer.absorb(PtyRead::Data(b"x".to_vec()));
    let mut job = ConsoleJob::new(true, &test_request("true"), "now");
    assert!(printed_last(job.next(&mut buffer)).is_empty());
}

#[test]
fn commands_are_asked_to_end_before_they_are_ended() {
    assert_eq!(
        kill_plan(),
        [KillStep::Terminate, KillStep::Wait { millis: 200 }, KillStep::Kill]
    );
}

#[test]
fn console_takes_output_in_order() {
    let mut buffer = PtyBuffer::new(true);
    assert!(!buffer.has_news());
    buffer.absorb(PtyRead::Data(b"one ".to_vec()));
    buffer.absorb(PtyRead::Interrupted);
    buffer.absorb(PtyRead::Data(b"two".to_vec()));
    assert!(buffer.has_news());
    assert_eq!(buffer.take_pending(), (b"one two".to_vec(), false));
    assert!(!buffer.has_news());
    buffer.absorb(PtyRead::Data(b"!".to_vec()));
    assert!(!buffer.absorb(PtyRead::Eof));
    assert_eq!(buffer.take_pending(), (b"!".to_vec(), true));
    assert_eq!(buffer.raw_bytes(), b"one two!");
    let mut silent = PtyBuffer::new(false);
    silent.absorb(PtyRead::Data(b"x".to_vec()));
    assert!(!silent.has_news());
    assert_eq!(silent.filtered_bytes(), b"x");
}

#[test]
fn transcript_keeps_the_order_of_arrival() {
    let mut queue: TranscriptQueue<&str> = TranscriptQueue::new();
    assert!(queue.submit(2, entry("c"), String::new()).is_empty());
    assert!(queue.submit(1, entry("b"), String::new()).is_empty());
    let names: Vec<String> = queue
        .submit(0, entry("a"), String::new())
        .into_iter()
        .map(|record| record.entry.whoami)
        .collect();
    assert_eq!(names, vec!["a", "b", "c"]);
    let last = queue.submit(3, entry("d"), "raw".into());
    assert_eq!(last.len(), 1);
    assert_eq!(last[0].raw_output, "raw");
}

#[test]
fn followers_get_later_entries_alone() {
    let mut queue: TranscriptQueue<&str> = TranscriptQueue::new();
    let mut entries = Vec::new();
    let mut feed = Vec::new();
    for (step, seq) in [1, 0, 4, 2, 3].into_iter().enumerate() {
        if step == 2 {
            queue.subscribe(true, "late");
        }
        for record in queue.submit(seq, entry(&seq.to_string()), format!("raw {seq}")) {
            for delivered in queue.deliveries(&record) {
                feed.push(delivered.output);
            }
            entries.push(record.entry.whoami);
        }
    }
    assert_eq!(entries, vec!["0", "1", "2", "3", "4"]);
    assert_eq!(feed, vec!["raw 2", "raw 3", "raw 4"]);
}

#[test]
fn requests_print_one_after_the_other() {
    let mut queue = PrintQueue::new();
    let mut begun = Vec::new();
    let mut queued = vec![3, 0, 2, 1];
    while !queued.is_empty() {
        let free: Vec<u64> = queued
            .iter()
            .copied()
            .filter(|seq| !queue.must_wait(*seq))
            .collect();
        assert_eq!(free.len(), 1);
        begun.push(free[0]);
        queued.retain(|seq| *seq != free[0]);
        queue.release();
    }
    assert_eq!(begun, vec![0, 1, 2, 3]);
    assert_eq!(queue.next, 4);
}

#[test]
fn followers_get_what_they_asked_for() {
    let mut queue: TranscriptQueue<&str> = TranscriptQueue::new();
    queue.subscribe(false, "plain");
    queue.subscribe(true, "raw");
    queue.subscribe(false, "gone");
    let record = TranscriptRecord { entry: entry("a"), raw_output: "\x1b[1mraw".into() };
    let outputs: Vec<String> = queue
        .deliveries(&record)
        .into_iter()
        .map(|entry| entry.output)
        .collect();
    assert_eq!(outputs, vec!["plain", "\x1b[1mraw", "plain"]);
    assert_eq!(delivery(&record, true).whoami, "a");
    queue.retain_delivered(&vec![true, true, false]);
    let senders: Vec<&str> = queue.subscribers().iter().map(|s| s.sender).collect();
    assert_eq!(senders, vec!["plain", "raw"]);
    queue.close_subscriptions();
    assert!(queue.subscribers().is_empty());
}

#[test]
fn stale_sockets_alone_are_taken_over() {
    assert!(matches!(bind_step(BindEvent::Bound), BindStep::Listen));
    assert!(matches!(bind_step(BindEvent::InUse), BindStep::AskOwner));
    assert!(matches!(bind_step(BindEvent::Stale), BindStep::TakeOver));
    assert!(matches!(bind_step(BindEvent::Owned { verified: true }),
        BindStep::GiveUp(m) if m == "another rexec host is already running"));
    assert!(matches!(bind_step(BindEvent::Owned { verified: false }),
        BindStep::GiveUp(m)
            if m == "another listener owns the rexec socket but did not confirm pong"));
    assert!(matches!(bind_step(BindEvent::Failed("denied".into())),
        BindStep::GiveUp(m) if m == "denied"));
}

#[test]
fn host_serves_until_it_is_told_to_end() {
    let ready = |connection: bool, woken: bool| PollEvent::Ready { connection, woken };
    assert!(matches!(poll_step(ready(true, false), false), ServeStep::Accept));
    assert!(matches!(poll_step(ready(false, false), false), ServeStep::Poll));
    assert!(matches!(poll_step(ready(true, true), false), ServeStep::Stop { diagnostic: None }));
    assert!(matches!(poll_step(ready(true, false), true), ServeStep::Stop { diagnostic: None }));
    assert!(matches!(poll_step(PollEvent::Interrupted, false), ServeStep::Poll));
    assert!(matches!(
        poll_step(PollEvent::Interrupted, true),
        ServeStep::Stop { diagnostic: None }
    ));
    match poll_step(PollEvent::Failed("EBADF".into()), false) {
        ServeStep::Stop { diagnostic } => {
            assert_eq!(diagnostic.unwrap(), "rexec host: poll error: EBADF")
        }
        other => panic!("{other:?}"),
    }
    assert_eq!(accept_failure("EMFILE", false).unwrap(), "rexec host: accept error: EMFILE");
    assert!(accept_failure("EMFILE", true).is_none());
}

#[test]
fn silent_hosts_give_no_notice() {
    assert_eq!(
        start_notice(false, "/tmp/.rexec-1000", "2026-05-21-09:42:18").unwrap(),
        "rexec host listening on /tmp/.rexec-1000\n\
         rexec transcript: ~/.rexec/2026-05-21-09:42:18.jsonl\n"
    );
    assert_eq!(stop_notice(false).unwrap(), "rexec host: shutdown\n");
    assert!(start_notice(true, "/tmp/x", "y").is_none());
    assert!(stop_notice(true).is_none());
    assert_eq!(transcript_failure("s", "exists"), "failed to open transcript s: exists");
}

#[test]
fn attached_clients_are_fed() {
    match feed_step(FeedEvent::Entry(entry("a"))) {
        FeedStep::Send(HostEvent::Transcript { entry }) => assert_eq!(entry.whoami, "a"),
        other => panic!("{other:?}"),
    }
    assert!(matches!(feed_step(FeedEvent::Quiet(Peek::Empty)), FeedStep::Wait));
    assert!(matches!(feed_step(FeedEvent::Quiet(Peek::Eof)), FeedStep::Close));
    assert!(matches!(feed_step(FeedEvent::Closed), FeedStep::Close));
}

#[test]
fn commands_are_numbered_as_they_arrive() {
    let mut arrivals = Arrivals::new();
    assert_eq!(arrivals.number(), 0);
    assert_eq!(arrivals.number(), 1);
    assert_eq!(arrivals.count, 2);
}
