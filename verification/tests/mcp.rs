use rexec::environment::Environment;
use rexec::mcp::{
    check_host_result, command_step, exec_request, exec_result, failed_result, refused_result,
    CheckHostTool, CommandAction, CommandEvent, ExecTool,
};
use rexec::pool::{
    budget, AcquireAction, AcquireEvent, ConnectionLease, ConnectionState, WorkerAction,
    WorkerEvent, RECONNECT_INTERVAL, TOOL_CONNECT_TIMEOUT,
};
use rexec::protocol::Response;

const MILLI: u128 = 1_000_000;

fn tool() -> ExecTool {
    let mut env = Environment::new();
    env.insert("PATH".into(), "/custom/bin".into());
    ExecTool {
        dir: "/tmp".into(),
        argv: vec!["true".into()],
        env,
        clear_env: true,
        stdin: None,
        timeout: 4,
    }
}

fn leased<C>(action: AcquireAction<C>) -> C {
    match action {
        AcquireAction::Lease(connection) => connection,
        _ => panic!("no connection"),
    }
}

#[test]
fn times_are_as_documented() {
    assert_eq!(RECONNECT_INTERVAL, 1000 * MILLI);
    assert_eq!(TOOL_CONNECT_TIMEOUT, 15_000 * MILLI);
}

#[test]
fn budgets_end_at_the_deadline() {
    assert_eq!(budget(0, 100, 30), Some(30));
    assert_eq!(budget(80, 100, 30), Some(20));
    assert_eq!(budget(100, 100, 30), None);
    assert_eq!(budget(200, 100, 30), None);
}

#[test]
fn connector_retries_until_the_host_appears() {
    let mut pool: ConnectionState<u32> = ConnectionState::new();
    let (interval, deadline) = (25 * MILLI, 600 * MILLI);
    let no_idle = || WorkerEvent::Probed { connected: Vec::new() };
    assert_eq!(pool.worker_step(no_idle()), WorkerAction::Connect);
    assert_eq!(pool.worker_step(WorkerEvent::ConnectFailed), WorkerAction::Sleep);
    assert!(matches!(
        pool.acquire_step(AcquireEvent::Look, 0, deadline, interval),
        AcquireAction::Connect { timeout } if timeout == interval
    ));
    assert!(matches!(
        pool.acquire_step(AcquireEvent::ConnectFailed, 25 * MILLI, deadline, interval),
        AcquireAction::Wait { timeout } if timeout == interval
    ));
    assert!(matches!(
        pool.acquire_step(AcquireEvent::Look, 60 * MILLI, deadline, interval),
        AcquireAction::Connect { .. }
    ));
    let connection =
        leased(pool.acquire_step(AcquireEvent::Connected(1), 61 * MILLI, deadline, interval));
    assert_eq!(connection, 1);
    assert_eq!(pool.active, 1);
    pool.release(Some(connection));
    assert_eq!((pool.active, pool.idle.len()), (0, 1));
    assert!(pool.attempts >= 1);
}

#[test]
fn connector_bounds_a_tool_wait_but_keeps_retrying() {
    let mut pool: ConnectionState<u32> = ConnectionState::new();
    let (interval, deadline) = (10 * MILLI, 65 * MILLI);
    let mut now = 0;
    let mut event = AcquireEvent::Look;
    loop {
        match pool.acquire_step(event, now, deadline, interval) {
            AcquireAction::Connect { timeout } => {
                now += timeout;
                event = AcquireEvent::ConnectFailed;
            }
            AcquireAction::Wait { timeout } => {
                now += timeout;
                event = AcquireEvent::Look;
            }
            AcquireAction::Refuse => break,
            other => panic!("{other:?}"),
        }
    }
    assert_eq!(now, deadline);
    assert_eq!(refused_result().text, "HOST NOT FOUND");
    let attempts_at_timeout = pool.attempts;
    assert_eq!(
        pool.worker_step(WorkerEvent::Probed { connected: Vec::new() }),
        WorkerAction::Connect
    );
    assert_eq!(pool.worker_step(WorkerEvent::ConnectFailed), WorkerAction::Sleep);
    assert!(pool.attempts > attempts_at_timeout);
}

#[test]
fn long_running_command_does_not_trigger_reconnection() {
    let mut pool: ConnectionState<u32> = ConnectionState::new();
    leased(pool.acquire_step(AcquireEvent::Connected(1), 0, 500 * MILLI, 20 * MILLI));
    let attempts_while_acquired = pool.attempts;
    for _ in 0..5 {
        assert_eq!(
            pool.worker_step(WorkerEvent::Probed { connected: Vec::new() }),
            WorkerAction::Wait
        );
    }
    assert_eq!(pool.attempts, attempts_while_acquired);
}

#[test]
fn overlapping_calls_acquire_independent_connections() {
    let mut pool: ConnectionState<u32> = ConnectionState::new();
    let (deadline, interval) = (500 * MILLI, 20 * MILLI);
    let first = leased(pool.acquire_step(AcquireEvent::Connected(1), 0, deadline, interval));
    assert!(matches!(
        pool.acquire_step(AcquireEvent::Look, 0, deadline, interval),
        AcquireAction::Connect { .. }
    ));
    let second = leased(pool.acquire_step(AcquireEvent::Connected(2), 0, deadline, interval));
    assert_ne!(first, second);
    assert_eq!(pool.active, 2);
    let attempts_while_active = pool.attempts;
    for _ in 0..4 {
        assert_eq!(
            pool.worker_step(WorkerEvent::Probed { connected: Vec::new() }),
            WorkerAction::Wait
        );
    }
    assert_eq!(pool.attempts, attempts_while_active);
    pool.release(Some(first));
    pool.release(Some(second));
    assert_eq!(pool.idle, vec![1, 2]);
}

#[test]
fn waiting_call_reuses_a_connection_returned_during_retry() {
    let mut pool: ConnectionState<u32> = ConnectionState::new();
    let (deadline, interval) = (500 * MILLI, 100 * MILLI);
    let first = leased(pool.acquire_step(AcquireEvent::Connected(1), 0, deadline, interval));
    assert!(matches!(
        pool.acquire_step(AcquireEvent::Look, 0, deadline, interval),
        AcquireAction::Connect { .. }
    ));
    pool.release(Some(first));
    match pool.acquire_step(AcquireEvent::ConnectFailed, 30 * MILLI, deadline, interval) {
        AcquireAction::Probe(connection) => {
            let event = AcquireEvent::Probed { connection, disconnected: false };
            assert_eq!(leased(pool.acquire_step(event, 30 * MILLI, deadline, interval)), 1);
        }
        other => panic!("{other:?}"),
    }
}

#[test]
fn repeated_request_disconnects_always_recover() {
    let mut pool: ConnectionState<u32> = ConnectionState::new();
    let (deadline, interval) = (500 * MILLI, 20 * MILLI);
    for number in 0..4 {
        assert_eq!(
            command_step(CommandEvent::Began, 0, deadline, interval),
            CommandAction::Acquire { timeout: deadline }
        );
        assert!(matches!(
            pool.acquire_step(AcquireEvent::Look, 0, deadline, interval),
            AcquireAction::Connect { .. }
        ));
        let connection =
            leased(pool.acquire_step(AcquireEvent::Connected(number), 0, deadline, interval));
        let mut lease = ConnectionLease::new();
        assert_eq!(
            command_step(CommandEvent::Acquired, 0, deadline, interval),
            CommandAction::Ping { timeout: interval }
        );
        lease.begin_exchange();
        lease.end_exchange(true);
        assert_eq!(
            command_step(CommandEvent::Ponged, 0, deadline, interval),
            CommandAction::Execute
        );
        lease.begin_exchange();
        lease.end_exchange(false);
        assert_eq!(
            command_step(CommandEvent::ExchangeFailed, 0, deadline, interval),
            CommandAction::Report
        );
        pool.release(lease.returned(connection));
        assert_eq!((pool.active, pool.idle.len()), (0, 0));
    }
}

#[test]
fn disconnected_idle_connections_are_dropped() {
    let mut pool: ConnectionState<u32> = ConnectionState::new();
    for connection in [1, 2, 3] {
        assert_eq!(pool.worker_step(WorkerEvent::Connected(connection)), WorkerAction::Probe);
    }
    assert_eq!(pool.attempts, 3);
    assert_eq!(
        pool.worker_step(WorkerEvent::Probed { connected: vec![true, false, true] }),
        WorkerAction::Wait
    );
    assert_eq!(pool.idle, vec![1, 3]);
    assert!(matches!(
        pool.acquire_step(AcquireEvent::Look, 0, 10, 5),
        AcquireAction::Probe(3)
    ));
    assert!(matches!(
        pool.acquire_step(
            AcquireEvent::Probed { connection: 3, disconnected: true },
            0,
            10,
            5
        ),
        AcquireAction::Probe(1)
    ));
    assert!(matches!(
        pool.acquire_step(
            AcquireEvent::Probed { connection: 1, disconnected: true },
            20,
            10,
            5
        ),
        AcquireAction::Refuse
    ));
}

#[test]
fn attempts_start_again_behind_the_largest() {
    let mut pool: ConnectionState<u32> = ConnectionState::new();
    pool.attempts = u64::MAX;
    pool.worker_step(WorkerEvent::ConnectFailed);
    assert_eq!(pool.attempts, 0);
}

#[test]
fn failed_pings_are_retried_until_the_deadline() {
    let (deadline, interval) = (100, 10);
    assert_eq!(
        command_step(CommandEvent::PingFailed, 40, deadline, interval),
        CommandAction::Acquire { timeout: 60 }
    );
    assert_eq!(
        command_step(CommandEvent::PingFailed, 100, deadline, interval),
        CommandAction::Refuse
    );
    assert_eq!(
        command_step(CommandEvent::Acquired, 100, deadline, interval),
        CommandAction::Refuse
    );
    assert_eq!(
        command_step(CommandEvent::NotAcquired, 0, deadline, interval),
        CommandAction::Refuse
    );
    assert_eq!(
        command_step(CommandEvent::Ponged, 5000, deadline, interval),
        CommandAction::Execute
    );
    assert_eq!(
        command_step(CommandEvent::Answered, 5000, deadline, interval),
        CommandAction::Report
    );
}

#[test]
fn leases_are_reusable_between_exchanges() {
    let mut lease = ConnectionLease::new();
    assert_eq!(lease.returned(7), Some(7));
    lease.begin_exchange();
    assert_eq!(lease.returned(7), None);
    lease.end_exchange(false);
    assert_eq!(lease.returned(7), None);
    lease.end_exchange(true);
    assert_eq!(lease.returned(7), Some(7));
}

#[test]
fn tool_calls_become_requests() {
    let request = exec_request("agent", tool()).unwrap();
    assert_eq!(request.whoami, "agent");
    assert_eq!(request.dir, "/tmp");
    assert_eq!(request.argv, vec!["true"]);
    assert!(request.clear_env);
    assert_eq!(request.timeout, 4);
    assert_eq!(
        *request.envs.entries(),
        vec![("PATH".to_string(), "/custom/bin".to_string())]
    );
    let mut empty = tool();
    empty.argv.clear();
    assert_eq!(exec_request("agent", empty).unwrap_err(), "argv must be non-empty");
}

#[test]
fn results_are_json_objects() {
    let good = exec_result(&Response { exit: 0, output: "a \"b\"\n".into(), error: None });
    assert_eq!(good.text, "{\"exit\":0,\"output\":\"a \\\"b\\\"\\n\"}");
    assert!(!good.is_error);
    let late = exec_result(&Response {
        exit: 124,
        output: String::new(),
        error: Some("timeout".into()),
    });
    assert_eq!(late.text, "{\"error\":\"timeout\",\"exit\":124,\"output\":\"\"}");
    assert!(late.is_error);
    let missing = exec_result(&Response {
        exit: 0,
        output: String::new(),
        error: Some("not_found".into()),
    });
    assert!(missing.is_error);
    let aborted = exec_result(&Response {
        exit: 0,
        output: String::new(),
        error: Some("aborted".into()),
    });
    assert!(!aborted.is_error);
}

#[test]
fn other_results_are_plain() {
    let failed = failed_result("connection reset");
    assert_eq!(failed.text, "connection reset");
    assert!(failed.is_error);
    assert!(refused_result().is_error);
    let _ = CheckHostTool::default();
    assert_eq!(check_host_result(true).text, "HOST RUNNING");
    assert_eq!(check_host_result(false).text, "HOST NOT FOUND");
    assert!(!check_host_result(false).is_error);
}
