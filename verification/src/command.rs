//! The life of one command on the host: its timeout, its abort, and the
//! response and transcript entry that it ends in.

use std::sync::mpsc::{Receiver, RecvTimeoutError};
use std::time::Duration;

use vstd::prelude::*;
use vstd::utf8::{decode_utf8, valid_utf8};

use crate::encoding::{lossy_text, utf8_lossy_text};
use crate::filter::{filtered, law_output_is_clean, State, ESC};
use crate::output::PtyBuffer;
use crate::protocol::{
    message_of_line, ClientAction, EntryView, Request, RequestView, Response, ResponseView,
    TranscriptEntry, ERROR_ABORTED, ERROR_NOT_FOUND, ERROR_SPAWN_FAILED, ERROR_TIMEOUT,
};
use crate::pty_exec::{
    spawn_error_message, stage_of, ChildFailure, ChildStepView, FailureStage, SpawnError,
    SpawnErrorView,
};
use crate::text::{
    law_blank_text_is_trimmed_away, law_texts_are_those_of_the_list, texts, trimmed_end, white_space,
};

verus! {

/// How long a killed command may take to end by itself, in milliseconds.
pub const KILL_GRACE_MILLIS: u64 = 200;

/// A step of killing a command.
#[derive(Clone, Copy, Debug, PartialEq, Eq, Structural)]
pub enum KillStep {
    /// Ask its process group to end.
    Terminate,
    /// Wait for this many milliseconds.
    Wait { millis: u64 },
    /// End its process group.
    Kill,
}

/// How a command is killed: it is asked to end, and is ended after a grace.
pub fn kill_plan() -> (r: [KillStep; 3])
    ensures
        r@ == seq![
            KillStep::Terminate,
            KillStep::Wait { millis: KILL_GRACE_MILLIS },
            KillStep::Kill,
        ],
{
    let plan: [KillStep; 3] = [
        KillStep::Terminate,
        KillStep::Wait { millis: KILL_GRACE_MILLIS },
        KillStep::Kill,
    ];
    assert(plan@ =~= seq![
        KillStep::Terminate,
        KillStep::Wait { millis: KILL_GRACE_MILLIS },
        KillStep::Kill,
    ]);
    plan
}

/// The receiving end of a channel of the standard library.
#[verifier::external_type_specification]
#[verifier::external_body]
#[verifier::reject_recursive_types(T)]
pub struct ExReceiver<T>(Receiver<T>);

/// How a wait for the end of a command ended.
#[derive(Clone, Copy, Debug, PartialEq, Eq, Structural)]
pub enum CancelWait {
    /// The command ended first.
    Cancelled,
    /// The time was up first.
    TimedOut,
    /// Nobody was left to say that the command ended.
    Disconnected,
}

/// `Receiver::recv_timeout`: waits for a value, for at most the given time. What
/// comes of it depends on the other end of the channel and on the clock, so nothing
/// is said of it.
#[verifier::external_body]
pub fn wait_for_cancel(cancel: &Receiver<()>, timeout: Duration) -> (r: CancelWait) {
    match cancel.recv_timeout(timeout) {
        Ok(()) => CancelWait::Cancelled,
        Err(RecvTimeoutError::Timeout) => CancelWait::TimedOut,
        Err(RecvTimeoutError::Disconnected) => CancelWait::Disconnected,
    }
}

/// Whether a wait ended because the time was up.
pub fn is_expiration(wait: CancelWait) -> (r: bool)
    ensures
        r == (wait is TimedOut),
{
    match wait {
        CancelWait::TimedOut => true,
        CancelWait::Cancelled | CancelWait::Disconnected => false,
    }
}

/// Waits until the timer is cancelled, or for at most `timeout`. Returns whether
/// the time was up. Which of the two happens first is up to the clock.
pub fn timeout_expired(cancel: &Receiver<()>, timeout: Duration) -> (r: bool)
    ensures
        exists|wait: CancelWait| #[trigger]
            call_ensures(wait_for_cancel, (cancel, timeout), wait) && r == (wait is TimedOut),
{
    is_expiration(wait_for_cancel(cancel, timeout))
}

/// The seconds after which a command is killed, if it is to be killed at all.
pub fn time_limit(timeout: u64) -> (r: Option<u64>)
    ensures
        r == if timeout == 0 {
            None
        } else {
            Some(timeout)
        },
{
    if timeout == 0 {
        None
    } else {
        Some(timeout)
    }
}

/// What came of watching a client while a command runs.
#[derive(Debug)]
pub enum WatchRead {
    /// The command ended.
    Finished,
    /// The client closed its end.
    Eof,
    /// A line, its line feed included.
    Line(String),
    /// No line has come yet.
    Quiet,
    /// Reading failed.
    Failed,
}

/// What to do next while a command runs.
#[derive(Debug)]
pub enum WatchStep {
    /// Stop watching: the command ended by itself.
    Done,
    /// Kill the command: its client has gone.
    Abort,
    /// Look again.
    Continue,
    /// Parse this message and hand it to [`watch_message`].
    Parse(String),
}

/// Looks at what came of watching a client while a command runs.
pub fn watch_line(read: WatchRead) -> (r: WatchStep)
    ensures
        match read {
            WatchRead::Finished => r is Done,
            WatchRead::Eof | WatchRead::Failed => r is Abort,
            WatchRead::Quiet => r is Continue,
            WatchRead::Line(line) => if trimmed_end(line@).len() == 0 {
                r is Continue
            } else {
                r matches WatchStep::Parse(message) && message@ == trimmed_end(line@)
            },
        },
{
    match read {
        WatchRead::Finished => WatchStep::Done,
        WatchRead::Eof | WatchRead::Failed => WatchStep::Abort,
        WatchRead::Quiet => WatchStep::Continue,
        WatchRead::Line(line) => {
            let message = message_of_line(line.as_str());
            if message.as_str().is_empty() {
                WatchStep::Continue
            } else {
                WatchStep::Parse(message)
            }
        },
    }
}

/// Whether a message that came while a command runs asks for its abort. Anything
/// else means nothing there.
pub fn watch_message(action: Option<ClientAction>) -> (r: bool)
    ensures
        r == (action == Some(ClientAction::Abort)),
{
    match action {
        Some(ClientAction::Abort) => true,
        _ => false,
    }
}

/// What the operating system says of a child.
#[derive(Clone, Copy, Debug)]
pub enum ChildStatus {
    /// It ended with this exit code.
    Exited(i32),
    /// This signal killed it.
    Signaled(u8),
    /// It has not ended, or the call was interrupted.
    Running,
    /// It cannot be waited for.
    Unknown,
}

/// The exit code of a child that has ended: its own, 128 and the signal that
/// killed it, or 127 if it cannot be told.
pub fn exit_code(status: ChildStatus) -> (r: Option<i32>)
    ensures
        r == match status {
            ChildStatus::Exited(code) => Some(code),
            ChildStatus::Signaled(signal) => Some((128 + signal) as i32),
            ChildStatus::Running => None,
            ChildStatus::Unknown => Some(127),
        },
{
    match status {
        ChildStatus::Exited(code) => Some(code),
        ChildStatus::Signaled(signal) => Some(128 + signal as i32),
        ChildStatus::Running => None,
        ChildStatus::Unknown => Some(127),
    }
}

/// How a started command ended.
#[derive(Clone, Copy, Debug)]
pub struct Ending {
    /// Why its program was not reached, if it was not.
    pub failure: Option<ChildFailure>,
    /// Whether it was killed for its timeout.
    pub timed_out: bool,
    /// Whether it was killed for its client.
    pub aborted: bool,
    /// Its exit code.
    pub exit_code: i32,
}

/// How far the run of a command has come.
#[derive(Clone, Copy, Debug)]
pub enum RunPhase {
    /// The command is being started.
    Starting,
    /// It runs: its terminal is read, its timer runs and its client is watched.
    Running,
    /// Its terminal is closed, and its timer may still kill it.
    Timing,
    /// Its timer is over, and it may still be killed for its client.
    Watching { timed_out: bool },
    /// Nothing is left that could kill it.
    Reaping { timed_out: bool, aborted: bool },
    /// The run is over.
    Over,
}

/// What happened to the run of a command.
#[derive(Debug)]
pub enum RunEvent {
    /// It could not be started.
    NotStarted(SpawnError),
    /// It was started.
    Started,
    /// Its terminal was closed.
    TerminalClosed,
    /// Its timer is over. `expired` says whether it killed the command.
    TimerOver { expired: bool },
    /// Nobody watches its client any more. `aborted` says whether the command was
    /// killed for it.
    WatcherOver { aborted: bool },
    /// Nobody watches its client any more, as the watcher failed. The client cannot
    /// be heard from then on.
    WatcherLost,
    /// It has ended.
    Reaped { exit_code: i32, failure: Option<ChildFailure> },
}

/// What to do for the run of a command.
#[derive(Debug)]
pub enum RunAction {
    /// Read its terminal, start its timer, watch its client and let it print.
    Accompany,
    /// Cancel its timer, and wait until it is over.
    StopTimer,
    /// Stop watching its client, and wait until that is over.
    StopWatcher,
    /// Wait for the command to end.
    Reap,
    /// Answer its client and add it to the transcript, as it was not started.
    ConcludeUnstarted(SpawnError),
    /// Answer its client and add it to the transcript.
    Conclude(Ending),
    /// Nothing.
    Nothing,
}

/// What to do about an event, and how far the run has come by it.
pub open spec fn run_step(phase: RunPhase, event: RunEvent) -> (RunPhase, RunAction) {
    match (phase, event) {
        (RunPhase::Starting, RunEvent::NotStarted(error)) => (
            RunPhase::Over,
            RunAction::ConcludeUnstarted(error),
        ),
        (RunPhase::Starting, RunEvent::Started) => (RunPhase::Running, RunAction::Accompany),
        (RunPhase::Running, RunEvent::TerminalClosed) => (RunPhase::Timing, RunAction::StopTimer),
        (RunPhase::Timing, RunEvent::TimerOver { expired }) => (
            RunPhase::Watching { timed_out: expired },
            RunAction::StopWatcher,
        ),
        (RunPhase::Watching { timed_out }, RunEvent::WatcherOver { aborted }) => (
            RunPhase::Reaping { timed_out, aborted },
            RunAction::Reap,
        ),
        (RunPhase::Watching { timed_out }, RunEvent::WatcherLost) => (
            RunPhase::Reaping { timed_out, aborted: false },
            RunAction::Reap,
        ),
        (RunPhase::Reaping { timed_out, aborted }, RunEvent::Reaped { exit_code, failure }) => (
            RunPhase::Over,
            RunAction::Conclude(Ending { failure, timed_out, aborted, exit_code }),
        ),
        _ => (phase, RunAction::Nothing),
    }
}

/// The run of a command.
#[derive(Debug)]
pub struct CommandRun {
    pub phase: RunPhase,
}

impl CommandRun {
    /// The run of a command that is being started.
    pub fn new() -> (r: Self)
        ensures
            r.phase is Starting,
    {
        CommandRun { phase: RunPhase::Starting }
    }

    /// Takes the run one step further.
    pub fn advance(&mut self, event: RunEvent) -> (r: RunAction)
        ensures
            (final(self).phase, r) == run_step(old(self).phase, event),
    {
        match (self.phase, event) {
            (RunPhase::Starting, RunEvent::NotStarted(error)) => {
                self.phase = RunPhase::Over;
                RunAction::ConcludeUnstarted(error)
            },
            (RunPhase::Starting, RunEvent::Started) => {
                self.phase = RunPhase::Running;
                RunAction::Accompany
            },
            (RunPhase::Running, RunEvent::TerminalClosed) => {
                self.phase = RunPhase::Timing;
                RunAction::StopTimer
            },
            (RunPhase::Timing, RunEvent::TimerOver { expired }) => {
                self.phase = RunPhase::Watching { timed_out: expired };
                RunAction::StopWatcher
            },
            (RunPhase::Watching { timed_out }, RunEvent::WatcherOver { aborted }) => {
                self.phase = RunPhase::Reaping { timed_out, aborted };
                RunAction::Reap
            },
            (RunPhase::Watching { timed_out }, RunEvent::WatcherLost) => {
                self.phase = RunPhase::Reaping { timed_out, aborted: false };
                RunAction::Reap
            },
            (RunPhase::Reaping { timed_out, aborted }, RunEvent::Reaped { exit_code, failure }) => {
                self.phase = RunPhase::Over;
                RunAction::Conclude(Ending { failure, timed_out, aborted, exit_code })
            },
            _ => RunAction::Nothing,
        }
    }
}

/// The phase behind some events.
pub open spec fn run_phase(events: Seq<RunEvent>) -> RunPhase
    decreases events.len(),
{
    if events.len() == 0 {
        RunPhase::Starting
    } else {
        run_step(run_phase(events.drop_last()), events.last()).0
    }
}

/// What is done about the event number `i`.
pub open spec fn run_action(events: Seq<RunEvent>, i: int) -> RunAction {
    run_step(run_phase(events.take(i)), events[i]).1
}

/// Whether an action answers a command and adds it to the transcript.
pub open spec fn concludes(action: RunAction) -> bool {
    action is ConcludeUnstarted || action is Conclude
}

/// A child is waited for only when its timer and its watcher are over, so neither
/// can signal a process that has taken over its number.
pub proof fn law_nothing_kills_a_reaped_child(events: Seq<RunEvent>, i: int)
    requires
        0 <= i < events.len(),
        run_action(events, i) is Reap,
    ensures
        events[i] is WatcherOver || events[i] is WatcherLost,
        exists|k: int| 0 <= k < i && (#[trigger] events[k]) is TimerOver,
{
    lemma_run_phase(events.take(i));
    let k = choose|k: int| 0 <= k < i && (#[trigger] events.take(i)[k]) is TimerOver;
    assert(events.take(i)[k] == events[k]);
}

/// A run that is over was concluded, and one that is not was not: its command is
/// answered and added to the transcript exactly once.
pub proof fn law_command_is_concluded_once(events: Seq<RunEvent>)
    ensures
        run_phase(events) is Over <==> exists|i: int|
            0 <= i < events.len() && concludes(#[trigger] run_action(events, i)),
        forall|i: int, j: int|
            0 <= i < events.len() && 0 <= j < events.len() && concludes(
                #[trigger] run_action(events, i),
            ) && concludes(#[trigger] run_action(events, j)) ==> i == j,
    decreases events.len(),
{
    if events.len() > 0 {
        let head = events.drop_last();
        let last = events.len() - 1;
        law_command_is_concluded_once(head);
        assert(events.take(last) =~= head);
        assert forall|i: int| 0 <= i < last implies #[trigger] run_action(events, i) == run_action(
            head,
            i,
        ) by {
            assert(events.take(i) =~= head.take(i));
        }
        if run_phase(events) is Over {
            if run_phase(head) is Over {
                let i = choose|i: int|
                    0 <= i < head.len() && concludes(#[trigger] run_action(head, i));
                assert(concludes(run_action(events, i)));
            } else {
                assert(concludes(run_action(events, last)));
            }
        }
        assert forall|i: int| 0 <= i < events.len() && concludes(
            #[trigger] run_action(events, i),
        ) implies run_phase(events) is Over by {
            if i < last {
                assert(concludes(run_action(head, i)));
            }
        }
    }
}

/// What a command's client is told of its end is what happened to it: it timed out
/// if its timer killed it, and was aborted if it was killed for its client.
pub proof fn law_ending_tells_what_happened(events: Seq<RunEvent>, i: int, ending: Ending)
    requires
        0 <= i < events.len(),
        run_action(events, i) == RunAction::Conclude(ending),
    ensures
        events[i] == (RunEvent::Reaped { exit_code: ending.exit_code, failure: ending.failure }),
        events.contains(RunEvent::TimerOver { expired: ending.timed_out }),
        events.contains(RunEvent::WatcherOver { aborted: ending.aborted }) || (!ending.aborted
            && events.contains(RunEvent::WatcherLost)),
{
    let before = events.take(i);
    lemma_run_phase(before);
    let timer = choose|k: int|
        0 <= k < before.len() && #[trigger] before[k] == (RunEvent::TimerOver {
            expired: ending.timed_out,
        });
    assert(events[timer] == before[timer]);
    let watcher = choose|k: int|
        0 <= k < before.len() && ends_watch(#[trigger] before[k], ending.aborted);
    assert(events[watcher] == before[watcher]);
}

/// Whether an event says that nobody watches the client any more, and that the
/// command was killed for it or not.
spec fn ends_watch(event: RunEvent, aborted: bool) -> bool {
    event == (RunEvent::WatcherOver { aborted }) || (!aborted && event == RunEvent::WatcherLost)
}

proof fn lemma_run_phase(events: Seq<RunEvent>)
    ensures
        run_phase(events) matches RunPhase::Watching { timed_out } ==> exists|k: int|
            0 <= k < events.len() && #[trigger] events[k] == (RunEvent::TimerOver {
                expired: timed_out,
            }),
        run_phase(events) matches RunPhase::Reaping { timed_out, aborted } ==> {
            &&& exists|k: int|
                0 <= k < events.len() && #[trigger] events[k] == (RunEvent::TimerOver {
                    expired: timed_out,
                })
            &&& exists|k: int|
                0 <= k < events.len() && ends_watch(#[trigger] events[k], aborted)
        },
    decreases events.len(),
{
    if events.len() > 0 {
        let head = events.drop_last();
        lemma_run_phase(head);
        let last = events.len() - 1;
        match run_phase(events) {
            RunPhase::Watching { timed_out } => {
                if run_phase(head) is Watching {
                    let k = choose|k: int|
                        0 <= k < head.len() && #[trigger] head[k] == (RunEvent::TimerOver {
                            expired: timed_out,
                        });
                    assert(events[k] == head[k]);
                } else {
                    assert(events[last] == (RunEvent::TimerOver { expired: timed_out }));
                }
            },
            RunPhase::Reaping { timed_out, aborted } => {
                let k = choose|k: int|
                    0 <= k < head.len() && #[trigger] head[k] == (RunEvent::TimerOver {
                        expired: timed_out,
                    });
                assert(events[k] == head[k]);
                if run_phase(head) is Reaping {
                    let w = choose|w: int|
                        0 <= w < head.len() && ends_watch(#[trigger] head[w], aborted);
                    assert(events[w] == head[w]);
                } else {
                    assert(ends_watch(events[last], aborted));
                }
            },
            _ => {},
        }
    }
}

/// The exit code that the client gets.
pub open spec fn reported_exit(ending: Ending) -> i32 {
    if ending.failure is Some {
        127
    } else if ending.timed_out {
        124
    } else {
        ending.exit_code
    }
}

/// The error that the client gets.
pub open spec fn reported_error(ending: Ending) -> Option<Seq<char>> {
    match ending.failure {
        Some(failure) => match failure.stage {
            FailureStage::Setup => Some(ERROR_SPAWN_FAILED@),
            FailureStage::Exec => Some(ERROR_NOT_FOUND@),
        },
        None => if ending.timed_out {
            Some(ERROR_TIMEOUT@)
        } else if ending.aborted {
            Some(ERROR_ABORTED@)
        } else {
            None
        },
    }
}

/// The transcript entry of a request with the given response.
pub open spec fn entry_of(
    request: RequestView,
    time: Seq<char>,
    response: ResponseView,
) -> EntryView {
    EntryView {
        whoami: request.whoami,
        dir: request.dir,
        envs: request.envs,
        argv: request.argv,
        timeout: request.timeout,
        exit: response.exit,
        output: response.output,
        error: response.error,
        time: Some(time),
    }
}

/// What a command leaves behind.
#[derive(Debug)]
pub struct Completed {
    /// For the client.
    pub response: Response,
    /// For the transcript.
    pub entry: TranscriptEntry,
    /// The output for attached clients that want control sequences.
    pub raw_output: String,
}

fn error_of(ending: &Ending) -> (r: Option<String>)
    ensures
        crate::protocol::optional_text(r) == reported_error(*ending),
{
    match ending.failure {
        Some(failure) => match failure.stage {
            FailureStage::Setup => Some(ERROR_SPAWN_FAILED.to_owned()),
            FailureStage::Exec => Some(ERROR_NOT_FOUND.to_owned()),
        },
        None => if ending.timed_out {
            Some(ERROR_TIMEOUT.to_owned())
        } else if ending.aborted {
            Some(ERROR_ABORTED.to_owned())
        } else {
            None
        },
    }
}

fn complete(
    request: Request,
    time: String,
    exit: i32,
    output: String,
    error: Option<String>,
    raw_output: String,
) -> (r: Completed)
    ensures
        r.response@ == (ResponseView {
            exit,
            output: output@,
            error: crate::protocol::optional_text(error),
        }),
        r.entry@ == entry_of(request@, time@, r.response@),
        r.raw_output == raw_output,
{
    Completed {
        response: Response { exit, output: output.clone(), error: error.clone() },
        entry: TranscriptEntry {
            whoami: request.whoami,
            dir: request.dir,
            envs: request.envs,
            argv: request.argv,
            timeout: request.timeout,
            exit,
            output,
            error,
            time: Some(time),
        },
        raw_output,
    }
}

/// The response to a command that was started, ended in the given way and put out
/// the given bytes.
pub open spec fn started_response(ending: Ending, raw: Seq<u8>) -> ResponseView {
    ResponseView {
        exit: reported_exit(ending),
        output: lossy_text(filtered(raw)),
        error: reported_error(ending),
    }
}

/// What a command that was started leaves behind. The client and the transcript
/// get its output without control sequences. No ESC and no carriage return is
/// among it.
pub fn finish(request: Request, time: String, ending: Ending, buffer: &PtyBuffer) -> (r: Completed)
    ensures
        r.response@ == started_response(ending, buffer.raw()),
        r.entry@ == entry_of(request@, time@, r.response@),
        r.raw_output@ == lossy_text(buffer.raw()),
        valid_utf8(filtered(buffer.raw())) ==> r.response.output@ == decode_utf8(
            filtered(buffer.raw()),
        ),
        valid_utf8(buffer.raw()) ==> r.raw_output@ == decode_utf8(buffer.raw()),
        !r.response@.output.contains('\x1b'),
        !r.response@.output.contains('\r'),
{
    let exit = if ending.failure.is_some() {
        127
    } else if ending.timed_out {
        124
    } else {
        ending.exit_code
    };
    let output = utf8_lossy_text(buffer.filtered_bytes().as_slice());
    let raw_output = utf8_lossy_text(buffer.raw_bytes().as_slice());
    proof {
        law_output_is_clean(State::Normal, buffer.raw());
        let bytes = filtered(buffer.raw());
        if output@.contains('\x1b') {
            let i = choose|i: int| 0 <= i < output@.len() && output@[i] == '\x1b';
            assert((output@[i] as u32) < 0x80);
            assert(bytes.contains(ESC));
        }
        if output@.contains('\r') {
            let i = choose|i: int| 0 <= i < output@.len() && output@[i] == '\r';
            assert((output@[i] as u32) < 0x80);
            assert(bytes.contains(0x0d));
        }
    }
    let error = error_of(&ending);
    complete(request, time, exit, output, error, raw_output)
}

/// The client learns how its command ended, and the transcript says the same. The exit
/// code is that of the command, whatever it is, unless the command timed out or its
/// program was not reached. The error is there exactly if the command did not end by
/// itself.
pub proof fn law_client_learns_the_end(
    request: Request,
    time: String,
    ending: Ending,
    buffer: PtyBuffer,
    done: Completed,
)
    requires
        call_ensures(finish, (request, time, ending, &buffer), done),
    ensures
        ending.failure is None && !ending.timed_out ==> done.response.exit == ending.exit_code,
        ending.failure is None && ending.timed_out ==> done.response.exit == 124,
        ending.failure is Some ==> done.response.exit == 127,
        done.response.error is None <==> ending.failure is None && !ending.timed_out
            && !ending.aborted,
        ending.failure is None && ending.timed_out ==> done.response.error->0@ == "timeout"@,
        ending.failure is None && !ending.timed_out && ending.aborted
            ==> done.response.error->0@ == "aborted"@,
        ending.failure is Some ==> done.response.error->0@ == if ending.failure->0.stage is Exec {
            "not_found"@
        } else {
            "spawn_failed"@
        },
        valid_utf8(filtered(buffer.raw())) ==> done.response.output@ == decode_utf8(
            filtered(buffer.raw()),
        ),
        is_entry_for(done.entry, request, time, done.response),
{
    law_texts_are_those_of_the_list(done.entry.argv@);
    law_texts_are_those_of_the_list(request.argv@);
    assert forall|i: int| 0 <= i < done.entry.argv@.len() implies (
    #[trigger] done.entry.argv@[i])@ == request.argv@[i]@ by {
        assert(done.entry.argv@[i]@ == texts(done.entry.argv@)[i]);
        assert(request.argv@[i]@ == texts(request.argv@)[i]);
    }
}

/// Whether an entry tells of a request, the time at which it came, and its response.
pub open spec fn is_entry_for(
    entry: TranscriptEntry,
    request: Request,
    time: String,
    response: Response,
) -> bool {
    &&& entry.whoami@ == request.whoami@
    &&& entry.dir@ == request.dir@
    &&& entry.envs@ == request.envs@
    &&& entry.argv@.len() == request.argv@.len()
    &&& forall|i: int|
        0 <= i < entry.argv@.len() ==> (#[trigger] entry.argv@[i])@ == request.argv@[i]@
    &&& entry.timeout == request.timeout
    &&& entry.time is Some && entry.time->0@ == time@
    &&& entry.exit == response.exit
    &&& entry.output@ == response.output@
    &&& entry.error is Some <==> response.error is Some
    &&& entry.error is Some ==> entry.error->0@ == response.error->0@
}

/// The output of a command that was not started.
pub open spec fn spawn_failure_output(error: SpawnErrorView) -> Seq<char> {
    "rexec: failed to spawn command: "@ + spawn_error_message(error) + "\n"@
}

/// The response to a command that was not started.
pub open spec fn unstarted_response(error: SpawnErrorView) -> ResponseView {
    ResponseView {
        exit: 127,
        output: spawn_failure_output(error),
        error: Some(ERROR_SPAWN_FAILED@),
    }
}

/// What a command that was not started leaves behind.
pub fn finish_unstarted(request: Request, time: String, error: &SpawnError) -> (r: Completed)
    ensures
        r.response@ == unstarted_response(error@),
        r.entry@ == entry_of(request@, time@, r.response@),
        r.raw_output@ == spawn_failure_output(error@),
{
    let mut output = "rexec: failed to spawn command: ".to_owned();
    output.append(error.message().as_str());
    output.append("\n");
    let raw_output = output.clone();
    complete(request, time, 127, output, Some(ERROR_SPAWN_FAILED.to_owned()), raw_output)
}

/// A command that stopped on its way to the program is not found exactly where
/// the program itself could not be executed. Where its directory or environment
/// could not be set up, it is not started. The exit code is 127 in both cases.
pub proof fn law_only_the_program_is_not_found(step: ChildStepView, errno: i32, ending: Ending)
    requires
        ending.failure == Some(ChildFailure { stage: stage_of(step), errno }),
    ensures
        reported_exit(ending) == 127,
        reported_error(ending) == Some(
            if step is Execute {
                ERROR_NOT_FOUND@
            } else {
                ERROR_SPAWN_FAILED@
            },
        ),
{
}

/// A run: its request, when it came, what happened to it and what it put out.
pub struct RunHistory {
    pub request: RequestView,
    pub time: Seq<char>,
    pub events: Seq<RunEvent>,
    pub raw: Seq<u8>,
}

impl RunHistory {
    /// The entry that an action adds to the transcript, if it adds one.
    pub open spec fn entry_by(self, action: RunAction) -> Option<EntryView> {
        match action {
            RunAction::ConcludeUnstarted(error) => Some(
                entry_of(self.request, self.time, unstarted_response(error@)),
            ),
            RunAction::Conclude(ending) => Some(
                entry_of(self.request, self.time, started_response(ending, self.raw)),
            ),
            _ => None,
        }
    }

    /// The entries that the actions of the run add to the transcript.
    pub open spec fn entries(self) -> Seq<EntryView>
        decreases self.events.len(),
    {
        if self.events.len() == 0 {
            Seq::empty()
        } else {
            let before = RunHistory { events: self.events.drop_last(), ..self };
            match self.entry_by(run_step(run_phase(before.events), self.events.last()).1) {
                Some(entry) => before.entries().push(entry),
                None => before.entries(),
            }
        }
    }

    /// The entry of a run that is over.
    pub open spec fn entry(self) -> EntryView {
        self.entries()[0]
    }
}

/// Every run has one entry, whether or not its command could be started and however
/// it ended: none before it is over, and exactly one when it is. The entry carries
/// what was requested.
pub proof fn law_every_run_has_one_entry(run: RunHistory)
    ensures
        run.entries().len() == if run_phase(run.events) is Over {
            1nat
        } else {
            0nat
        },
        run_phase(run.events) is Over ==> {
            &&& run.entry().whoami == run.request.whoami
            &&& run.entry().dir == run.request.dir
            &&& run.entry().envs == run.request.envs
            &&& run.entry().argv == run.request.argv
            &&& run.entry().timeout == run.request.timeout
            &&& run.entry().time == Some(run.time)
        },
    decreases run.events.len(),
{
    if run.events.len() > 0 {
        law_every_run_has_one_entry(RunHistory { events: run.events.drop_last(), ..run });
    }
}

/// A run takes its course: its companions start, its terminal is closed, its timer and
/// its watcher are stopped, and it is reaped. What it then concludes with is what each of
/// them said. A watcher that was lost has killed nothing.
pub proof fn law_run_takes_its_course(
    expired: bool,
    watched: Option<bool>,
    exit_code: i32,
    failure: Option<ChildFailure>,
)
    ensures
        ({
            let events = seq![
                RunEvent::Started,
                RunEvent::TerminalClosed,
                RunEvent::TimerOver { expired },
                match watched {
                    Some(aborted) => RunEvent::WatcherOver { aborted },
                    None => RunEvent::WatcherLost,
                },
                RunEvent::Reaped { exit_code, failure },
            ];
            &&& run_action(events, 0) is Accompany
            &&& run_action(events, 1) is StopTimer
            &&& run_action(events, 2) is StopWatcher
            &&& run_action(events, 3) is Reap
            &&& run_action(events, 4) matches RunAction::Conclude(ending)
            &&& ending.exit_code == exit_code
            &&& ending.failure == failure
            &&& ending.timed_out == expired
            &&& ending.aborted <==> watched == Some(true)
        }),
{
    let events = seq![
        RunEvent::Started,
        RunEvent::TerminalClosed,
        RunEvent::TimerOver { expired },
        match watched {
            Some(aborted) => RunEvent::WatcherOver { aborted },
            None => RunEvent::WatcherLost,
        },
        RunEvent::Reaped { exit_code, failure },
    ];
    assert(events.take(0) =~= Seq::empty());
    assert(run_phase(events.take(0)) is Starting);
    assert(events.take(1).drop_last() =~= events.take(0));
    assert(run_phase(events.take(1)) is Running);
    assert(events.take(2).drop_last() =~= events.take(1));
    assert(run_phase(events.take(2)) is Timing);
    assert(events.take(3).drop_last() =~= events.take(2));
    assert(run_phase(events.take(3)) == (RunPhase::Watching { timed_out: expired }));
    assert(events.take(4).drop_last() =~= events.take(3));
    assert(run_phase(events.take(4)) is Reaping);
}

/// A command that could not be started is concluded at once, with the reason.
pub proof fn law_unstarted_run_is_concluded(error: SpawnError)
    ensures
        run_action(seq![RunEvent::NotStarted(error)], 0) == RunAction::ConcludeUnstarted(error),
        run_phase(seq![RunEvent::NotStarted(error)]) is Over,
{
    let events = seq![RunEvent::NotStarted(error)];
    assert(events.take(0) =~= Seq::empty());
    assert(events.drop_last() =~= Seq::empty());
    assert(run_phase(Seq::empty()) is Starting);
}

/// Only the event that a run waits for moves it. Any other leaves it where it is, and
/// nothing is done about it.
pub proof fn law_only_the_awaited_event_moves_a_run(phase: RunPhase, event: RunEvent)
    ensures
        ({
            let awaited = {
                ||| phase is Starting && (event is Started || event is NotStarted)
                ||| phase is Running && event is TerminalClosed
                ||| phase is Timing && event is TimerOver
                ||| phase is Watching && (event is WatcherOver || event is WatcherLost)
                ||| phase is Reaping && event is Reaped
            };
            &&& awaited <==> !(run_step(phase, event).1 is Nothing)
            &&& !awaited ==> run_step(phase, event).0 == phase
        }),
{
}

/// A run concludes exactly when its child is reaped, or could not be started, and then
/// with what was told of that.
pub proof fn law_run_concludes_with_what_it_was_told(
    run: &mut CommandRun,
    event: RunEvent,
    action: RunAction,
)
    requires
        call_ensures(CommandRun::advance, (run, event), action),
    ensures
        action is Conclude <==> old(run).phase is Reaping && event is Reaped,
        action is ConcludeUnstarted <==> old(run).phase is Starting && event is NotStarted,
        action matches RunAction::Conclude(ending) ==> {
            &&& event == (RunEvent::Reaped {
                exit_code: ending.exit_code,
                failure: ending.failure,
            })
            &&& old(run).phase == (RunPhase::Reaping {
                timed_out: ending.timed_out,
                aborted: ending.aborted,
            })
        },
        action matches RunAction::ConcludeUnstarted(error) ==> event == RunEvent::NotStarted(error),
        action is Conclude || action is ConcludeUnstarted ==> final(run).phase is Over,
{
}

/// A child's exit code is its own if it ended by itself, above 128 by the signal that
/// killed it if one did, and 127 if it cannot be told. A child that runs has none.
pub proof fn law_exit_code_of_a_child(status: ChildStatus, r: Option<i32>)
    requires
        call_ensures(exit_code, (status,), r),
    ensures
        r is None <==> status is Running,
        status matches ChildStatus::Exited(code) ==> r == Some(code),
        status matches ChildStatus::Signaled(signal) ==> r is Some && r->0 - signal == 128,
        status is Unknown ==> r == Some(127i32),
{
}

/// A command that could not be started is answered with the reason, on a line behind the
/// words that say so, and the transcript says the same. Its exit code is 127.
pub proof fn law_client_learns_why_nothing_started(
    request: Request,
    time: String,
    error: SpawnError,
    done: Completed,
    reason: String,
)
    requires
        call_ensures(finish_unstarted, (request, time, &error), done),
        call_ensures(SpawnError::message, (&error,), reason),
    ensures
        done.response.exit == 127,
        done.response.error is Some && done.response.error->0@ == "spawn_failed"@,
        done.response.output@ == "rexec: failed to spawn command: "@ + reason@ + "\n"@,
        done.raw_output@ == done.response.output@,
        is_entry_for(done.entry, request, time, done.response),
{
    law_texts_are_those_of_the_list(done.entry.argv@);
    law_texts_are_those_of_the_list(request.argv@);
    assert forall|i: int| 0 <= i < done.entry.argv@.len() implies (
    #[trigger] done.entry.argv@[i])@ == request.argv@[i]@ by {
        assert(done.entry.argv@[i]@ == texts(done.entry.argv@)[i]);
        assert(request.argv@[i]@ == texts(request.argv@)[i]);
    }
}

/// A command is killed for its timeout exactly if it has one that is not zero, and after
/// that many seconds. Only a wait that lasted until then counts.
pub proof fn law_zero_is_no_timeout(timeout: u64, limit: Option<u64>, wait: CancelWait, up: bool)
    requires
        call_ensures(time_limit, (timeout,), limit),
        call_ensures(is_expiration, (wait,), up),
    ensures
        limit is None <==> timeout == 0,
        limit is Some ==> limit->0 == timeout,
        up <==> !(wait is Cancelled) && !(wait is Disconnected),
{
}

/// While a command runs, its client is listened to: the command is killed if the client
/// goes or asks for it, and for nothing else that the client does.
pub proof fn law_client_can_abort(
    read: WatchRead,
    step: WatchStep,
    action: Option<ClientAction>,
    abort: bool,
)
    requires
        call_ensures(watch_line, (read,), step),
        call_ensures(watch_message, (action,), abort),
    ensures
        step is Abort <==> read is Eof || read is Failed,
        step is Done <==> read is Finished,
        read is Quiet ==> step is Continue,
        read matches WatchRead::Line(line) ==> {
            &&& step is Parse || step is Continue
            &&& step is Continue <==> forall|i: int|
                0 <= i < line@.len() ==> white_space(#[trigger] line@[i])
            &&& step matches WatchStep::Parse(message) ==> message@ == trimmed_end(line@)
        },
        abort <==> action is Some && action->0 is Abort,
{
    if let WatchRead::Line(line) = read {
        law_blank_text_is_trimmed_away(line@);
    }
}

/// A command is killed in earnest, and only after it had 200 milliseconds to end when it
/// was asked to.
pub proof fn law_killing_leaves_a_grace(plan: [KillStep; 3])
    requires
        call_ensures(kill_plan, (), plan),
    ensures
        plan@[0] is Terminate,
        plan@[1] == (KillStep::Wait { millis: 200 }),
        plan@[2] is Kill,
{
}

} // verus!
