//! The command-line client: what it asks of the host, what it prints and how it
//! exits.

use vstd::prelude::*;
use vstd::utf8::{decode_utf8, valid_utf8};

use crate::cli::{ColorChoice, RunArgs};
use crate::encoding::utf8_text;
use crate::environment::{
    law_last_value_holds, law_names_are_those_given, overlaid, pair_texts, Environment,
};
use crate::mcp::{HOST_NOT_FOUND, HOST_RUNNING};
use crate::protocol::{
    optional_text, ClientAction, Request, RequestView, Response, ResponseView, TranscriptEntry,
    ERROR_NOT_FOUND,
};
use crate::render::{render_entry, rendered_text};
use crate::session::{SessionEvent, SessionPhase};
use crate::text::{law_texts_are_those_of_the_list, same_text, texts};

verus! {

/// How long a follower of a transcript waits before it looks again, in
/// milliseconds.
pub const FOLLOW_INTERVAL_MILLIS: u64 = 250;

/// How long a client waits for a pong, in milliseconds.
pub const PONG_TIMEOUT_MILLIS: u64 = 2000;

/// How a client ends: what it prints, line by line, and its exit code.
#[derive(Debug)]
pub struct Report {
    /// For standard output, as it is.
    pub stdout: String,
    /// A line for standard error.
    pub stderr: Option<String>,
    pub exit: i32,
}

/// What a [`Report`] says.
#[verifier::ext_equal]
pub struct ReportView {
    pub stdout: Seq<char>,
    pub stderr: Option<Seq<char>>,
    pub exit: i32,
}

impl View for Report {
    type V = ReportView;

    open spec fn view(&self) -> ReportView {
        ReportView {
            stdout: self.stdout@,
            stderr: optional_text(self.stderr),
            exit: self.exit,
        }
    }
}

/// The report of a client that could not do its work.
pub open spec fn failure_report(message: Seq<char>) -> ReportView {
    ReportView { stdout: Seq::empty(), stderr: Some(message), exit: 127 }
}

fn failed(message: &str) -> (r: Report)
    ensures
        r@ == failure_report(message@),
{
    Report { stdout: String::new(), stderr: Some(message.to_owned()), exit: 127 }
}

fn failed_for(message: &str, reason: &str) -> (r: Report)
    ensures
        r@ == failure_report(message@ + reason@),
{
    let mut line = message.to_owned();
    line.append(reason);
    Report { stdout: String::new(), stderr: Some(line), exit: 127 }
}

/// The directory of a command as text.
pub fn run_dir(dir: &[u8]) -> (r: Result<String, Report>)
    ensures
        r is Ok <==> valid_utf8(dir@),
        r matches Ok(text) ==> text@ == decode_utf8(dir@),
        r matches Err(report) ==> report@ == failure_report(
            "rexec: --dir contains invalid UTF-8"@,
        ),
{
    match utf8_text(dir) {
        Some(text) => Ok(text.to_owned()),
        None => Err(failed("rexec: --dir contains invalid UTF-8")),
    }
}

/// What standard input held, as text.
pub fn stdin_text(bytes: &[u8]) -> (r: Result<String, Report>)
    ensures
        r is Ok <==> valid_utf8(bytes@),
        r matches Ok(text) ==> text@ == decode_utf8(bytes@),
        r matches Err(report) ==> report@ == failure_report(
            "rexec: failed to read stdin: stdin is not valid UTF-8"@,
        ),
{
    match utf8_text(bytes) {
        Some(text) => Ok(text.to_owned()),
        None => Err(failed("rexec: failed to read stdin: stdin is not valid UTF-8")),
    }
}

/// The report of a client that could not read its standard input.
pub fn stdin_failure(reason: &str) -> (r: Report)
    ensures
        r@ == failure_report("rexec: failed to read stdin: "@ + reason@),
{
    failed_for("rexec: failed to read stdin: ", reason)
}

/// The request for a command: of two values for one variable the later one holds,
/// and the host's environment is kept.
pub fn run_request(args: RunArgs, dir: String, stdin: Option<String>) -> (r: Request)
    ensures
        r@ == (RequestView {
            whoami: args.whoami@,
            dir: dir@,
            envs: overlaid(pair_texts(args.envs@)),
            clear_env: false,
            argv: texts(args.argv@),
            stdin: optional_text(stdin),
            timeout: args.timeout,
        }),
{
    Request {
        whoami: args.whoami,
        dir,
        envs: Environment::from_pairs(args.envs),
        clear_env: false,
        argv: args.argv,
        stdin,
        timeout: args.timeout,
    }
}

/// The first of a command's words, or nothing.
pub open spec fn program(argv: Seq<Seq<char>>) -> Seq<char> {
    if argv.len() > 0 {
        argv[0]
    } else {
        Seq::empty()
    }
}

/// What a client reports of the response to a command.
pub open spec fn response_report(argv: Seq<Seq<char>>, response: ResponseView) -> ReportView {
    if response.error == Some(ERROR_NOT_FOUND@) {
        ReportView {
            stdout: Seq::empty(),
            stderr: Some(program(argv) + ": not found"@),
            exit: response.exit,
        }
    } else {
        ReportView {
            stdout: response.output,
            stderr: match response.error {
                Some(error) => Some("rexec: host reported error: "@ + error),
                None => None,
            },
            exit: response.exit,
        }
    }
}

/// Reports the response to a command.
pub fn report_response(argv: &Vec<String>, response: Response) -> (r: Report)
    ensures
        r@ == response_report(texts(argv@), response@),
{
    match response.error {
        Some(error) => {
            if same_text(error.as_str(), ERROR_NOT_FOUND) {
                let mut line = String::new();
                if argv.len() > 0 {
                    line.append(argv[0].as_str());
                }
                line.append(": not found");
                proof {
                    assert(line@ =~= program(texts(argv@)) + ": not found"@);
                }
                Report { stdout: String::new(), stderr: Some(line), exit: response.exit }
            } else {
                let mut line = "rexec: host reported error: ".to_owned();
                line.append(error.as_str());
                Report { stdout: response.output, stderr: Some(line), exit: response.exit }
            }
        },
        None => Report { stdout: response.output, stderr: None, exit: response.exit },
    }
}

/// What a client reports when its connection broke in the given phase: that there
/// is no host unless it answered the opening ping, and otherwise which half of the
/// exchange failed, and why.
pub open spec fn broken_report(phase: SessionPhase, reason: Seq<char>) -> ReportView {
    failure_report(
        match phase {
            SessionPhase::Fresh => HOST_NOT_FOUND@,
            SessionPhase::Waiting => "rexec: failed to read response: "@ + reason,
            _ => "rexec: failed to send request: "@ + reason,
        },
    )
}

/// Reports a connection that broke in the given phase.
pub fn report_broken(phase: SessionPhase, reason: &str) -> (r: Report)
    ensures
        r@ == broken_report(phase, reason@),
{
    match phase {
        SessionPhase::Fresh => failed(HOST_NOT_FOUND),
        SessionPhase::Waiting => failed_for("rexec: failed to read response: ", reason),
        _ => failed_for("rexec: failed to send request: ", reason),
    }
}

/// Why a request got no response.
pub open spec fn exec_failure(phase: SessionPhase, reason: Seq<char>) -> Seq<char> {
    match phase {
        SessionPhase::Fresh => HOST_NOT_FOUND@,
        SessionPhase::Waiting => "read: "@ + reason,
        _ => "send: "@ + reason,
    }
}

/// Why a request got no response on a connection that broke in the given phase.
pub fn exec_error(phase: SessionPhase, reason: &str) -> (r: String)
    ensures
        r@ == exec_failure(phase, reason@),
{
    match phase {
        SessionPhase::Fresh => HOST_NOT_FOUND.to_owned(),
        SessionPhase::Waiting => {
            let mut message = "read: ".to_owned();
            message.append(reason);
            message
        },
        _ => {
            let mut message = "send: ".to_owned();
            message.append(reason);
            message
        },
    }
}

/// What a check of the host reports: that it runs only where it answered the ping.
pub fn report_check(phase: SessionPhase) -> (r: Report)
    ensures
        r@ == if phase is Verified {
            ReportView { stdout: HOST_RUNNING@ + "\n"@, stderr: None, exit: 0 }
        } else {
            ReportView { stdout: HOST_NOT_FOUND@ + "\n"@, stderr: None, exit: 127 }
        },
{
    let verified = match phase {
        SessionPhase::Verified => true,
        _ => false,
    };
    let mut stdout = if verified {
        HOST_RUNNING.to_owned()
    } else {
        HOST_NOT_FOUND.to_owned()
    };
    stdout.append("\n");
    Report {
        stdout,
        stderr: None,
        exit: if verified {
            0
        } else {
            127
        },
    }
}

/// Whether attached output is coloured.
pub fn wants_ansi(color: ColorChoice, is_terminal: bool) -> (r: bool)
    ensures
        r == match color {
            ColorChoice::Auto => is_terminal,
            ColorChoice::Never => false,
            ColorChoice::Always => true,
        },
{
    match color {
        ColorChoice::Auto => is_terminal,
        ColorChoice::Never => false,
        ColorChoice::Always => true,
    }
}

/// What a client sends to attach, once its opening ping was answered or was not:
/// nothing before the host is confirmed.
pub fn attach_opening(event: SessionEvent, ansi: bool) -> (r: Option<ClientAction>)
    ensures
        r == if event is Pong {
            Some(ClientAction::Attach { ansi })
        } else {
            None
        },
{
    match event {
        SessionEvent::Pong => Some(ClientAction::Attach { ansi }),
        _ => None,
    }
}

/// What happened to an attached client.
#[derive(Debug)]
pub enum AttachEvent {
    /// No host answered the opening ping.
    NoHost,
    /// The host could not be asked to attach.
    NotAttached,
    /// The host closed its end.
    Eof,
    /// An entry came.
    Entry(TranscriptEntry),
    /// Something else came.
    Invalid(String),
    /// Reading failed.
    ReadFailed(String),
}

/// What an attached client does next.
#[derive(Debug)]
pub enum AttachStep {
    /// Print this, and read on.
    Print(String),
    /// End with this report.
    Exit(Report),
}

/// Takes an attached client one step further.
pub fn attach_step(event: AttachEvent, ansi: bool) -> (r: AttachStep)
    ensures
        match event {
            AttachEvent::NoHost => r matches AttachStep::Exit(report) && report@
                == failure_report(HOST_NOT_FOUND@),
            AttachEvent::NotAttached => r matches AttachStep::Exit(report) && report@
                == failure_report("rexec: failed to attach to host"@),
            AttachEvent::Eof => r matches AttachStep::Exit(report) && report@ == (ReportView {
                stdout: Seq::empty(),
                stderr: None,
                exit: 0,
            }),
            AttachEvent::Entry(entry) => r matches AttachStep::Print(text) && text@ == rendered_text(
                entry@,
                ansi,
            ),
            AttachEvent::Invalid(reason) => r matches AttachStep::Exit(report) && report@
                == failure_report("rexec: invalid attach response: "@ + reason@),
            AttachEvent::ReadFailed(reason) => r matches AttachStep::Exit(report) && report@
                == failure_report("rexec: error reading attached host: "@ + reason@),
        },
{
    match event {
        AttachEvent::NoHost => AttachStep::Exit(failed(HOST_NOT_FOUND)),
        AttachEvent::NotAttached => AttachStep::Exit(failed("rexec: failed to attach to host")),
        AttachEvent::Eof => AttachStep::Exit(
            Report { stdout: String::new(), stderr: None, exit: 0 },
        ),
        AttachEvent::Entry(entry) => AttachStep::Print(render_entry(&entry, ansi)),
        AttachEvent::Invalid(reason) => AttachStep::Exit(
            failed_for("rexec: invalid attach response: ", reason.as_str()),
        ),
        AttachEvent::ReadFailed(reason) => AttachStep::Exit(
            failed_for("rexec: error reading attached host: ", reason.as_str()),
        ),
    }
}

/// What happened to a client that prints a transcript.
#[derive(Debug)]
pub enum PrintEvent {
    /// There is no directory to look for it in.
    NoPath(String),
    /// It does not exist at this path.
    Missing(String),
    /// All that it holds was printed.
    Printed,
    /// It could not be read.
    ReadFailed(String),
    /// It could not be read again.
    FollowFailed(String),
}

/// What a client that prints a transcript does about an event: the report that it
/// ends with, or none if it waits and reads on.
pub open spec fn print_transition(event: PrintEvent, follow: bool) -> Option<ReportView> {
    match event {
        PrintEvent::NoPath(reason) => Some(
            failure_report("rexec: cannot resolve transcript path: "@ + reason@),
        ),
        PrintEvent::Missing(path) => Some(
            failure_report("rexec: transcript not found: "@ + path@),
        ),
        PrintEvent::Printed => if follow {
            None
        } else {
            Some(ReportView { stdout: Seq::empty(), stderr: None, exit: 0 })
        },
        PrintEvent::ReadFailed(reason) => Some(
            failure_report("rexec: error reading transcript: "@ + reason@),
        ),
        PrintEvent::FollowFailed(reason) => Some(
            failure_report("rexec: error following transcript: "@ + reason@),
        ),
    }
}

/// Takes a client that prints a transcript one step further: it ends with a report,
/// or waits and reads on.
pub fn print_step(event: PrintEvent, follow: bool) -> (r: Option<Report>)
    ensures
        match r {
            Some(report) => print_transition(event, follow) == Some(report@),
            None => print_transition(event, follow) is None,
        },
{
    match event {
        PrintEvent::NoPath(reason) => Some(
            failed_for("rexec: cannot resolve transcript path: ", reason.as_str()),
        ),
        PrintEvent::Missing(path) => Some(
            failed_for("rexec: transcript not found: ", path.as_str()),
        ),
        PrintEvent::Printed => if follow {
            None
        } else {
            Some(Report { stdout: String::new(), stderr: None, exit: 0 })
        },
        PrintEvent::ReadFailed(reason) => Some(
            failed_for("rexec: error reading transcript: ", reason.as_str()),
        ),
        PrintEvent::FollowFailed(reason) => Some(
            failed_for("rexec: error following transcript: ", reason.as_str()),
        ),
    }
}

/// The report of a client that could not list the transcripts.
pub fn list_failure(reason: &str) -> (r: Report)
    ensures
        r@ == failure_report("rexec: failed to list transcripts: "@ + reason@),
{
    failed_for("rexec: failed to list transcripts: ", reason)
}

/// Who gets the abort line when a client goes before its response has come.
#[derive(Debug)]
pub struct AbortGuard {
    pub fd: i32,
    pub armed: bool,
}

impl AbortGuard {
    /// From now on the host on `fd` is told when the client goes.
    pub fn arm(fd: i32) -> (r: Self)
        ensures
            r == (AbortGuard { fd, armed: true }),
    {
        AbortGuard { fd, armed: true }
    }

    /// From now on nobody is told.
    pub fn disarm(&mut self)
        ensures
            *final(self) == (AbortGuard { fd: old(self).fd, armed: false }),
    {
        self.armed = false;
    }

    /// Whom to send the abort line if the client goes now.
    pub fn target(&self) -> (r: Option<i32>)
        ensures
            r == if self.armed {
                Some(self.fd)
            } else {
                None
            },
    {
        if self.armed {
            Some(self.fd)
        } else {
            None
        }
    }
}

/// A client exits like its command, and shows its output as it is. Only of a command that
/// was not found it shows the name in place of any output. An error of the host is told,
/// and nothing is told without one.
pub proof fn law_client_exits_like_its_command(
    argv: Vec<String>,
    response: Response,
    report: Report,
)
    requires
        call_ensures(report_response, (&argv, response), report),
    ensures
        report.exit == response.exit,
        report.stderr is Some <==> response.error is Some,
        response.error is Some && response.error->0@ == "not_found"@ ==> {
            &&& report.stdout@.len() == 0
            &&& argv@.len() > 0 ==> report.stderr->0@ == argv@[0]@ + ": not found"@
            &&& argv@.len() == 0 ==> report.stderr->0@ == ": not found"@
        },
        !(response.error is Some && response.error->0@ == "not_found"@) ==> {
            &&& report.stdout@ == response.output@
            &&& response.error is Some ==> report.stderr->0@ == "rexec: host reported error: "@
                + response.error->0@
        },
{
    law_texts_are_those_of_the_list(argv@);
    if argv@.len() == 0 {
        assert(Seq::<char>::empty() + ": not found"@ =~= ": not found"@);
    } else {
        assert(texts(argv@)[0] == argv@[0]@);
    }
}

/// A client whose connection broke fails, prints nothing and says why: that there is no
/// host before the opening pong, that its response could not be read once its request was
/// sent, and in between that its request could not be sent.
pub proof fn law_broken_connection_is_reported(
    phase: SessionPhase,
    reason: &str,
    report: Report,
    error: String,
)
    requires
        call_ensures(report_broken, (phase, reason), report),
        call_ensures(exec_error, (phase, reason), error),
    ensures
        report.exit == 127,
        report.stdout@.len() == 0,
        report.stderr is Some,
        phase is Fresh ==> report.stderr->0@ == "HOST NOT FOUND"@ && error@ == "HOST NOT FOUND"@,
        phase is Waiting ==> {
            &&& report.stderr->0@ == "rexec: failed to read response: "@ + reason@
            &&& error@ == "read: "@ + reason@
        },
        !(phase is Fresh) && !(phase is Waiting) ==> {
            &&& report.stderr->0@ == "rexec: failed to send request: "@ + reason@
            &&& error@ == "send: "@ + reason@
        },
{
}

/// A check finds a host exactly if the opening ping was answered, and exits with zero
/// exactly then.
pub proof fn law_check_needs_a_pong(phase: SessionPhase, report: Report)
    requires
        call_ensures(report_check, (phase,), report),
    ensures
        report.exit == 0 || report.exit == 127,
        report.exit == 0 <==> phase is Verified,
        report.exit == 0 ==> report.stdout@ == "HOST RUNNING\n"@,
        report.exit == 127 ==> report.stdout@ == "HOST NOT FOUND\n"@,
        report.stderr is None,
{
    reveal_strlit("HOST RUNNING");
    reveal_strlit("HOST RUNNING\n");
    reveal_strlit("HOST NOT FOUND");
    reveal_strlit("HOST NOT FOUND\n");
    reveal_strlit("\n");
    assert("HOST RUNNING"@ + "\n"@ =~= "HOST RUNNING\n"@);
    assert("HOST NOT FOUND"@ + "\n"@ =~= "HOST NOT FOUND\n"@);
}

/// A request of the command line carries what was given there. Each variable that was
/// given is in it, with the value that was given last, and no other.
pub proof fn law_request_carries_the_command_line(
    args: RunArgs,
    dir: String,
    stdin: Option<String>,
    request: Request,
)
    requires
        call_ensures(run_request, (args, dir, stdin), request),
    ensures
        request.whoami@ == args.whoami@,
        request.dir@ == dir@,
        !request.clear_env,
        request.timeout == args.timeout,
        request.stdin is Some <==> stdin is Some,
        stdin is Some ==> request.stdin->0@ == stdin->0@,
        request.argv@.len() == args.argv@.len(),
        forall|i: int|
            0 <= i < request.argv@.len() ==> (#[trigger] request.argv@[i])@ == args.argv@[i]@,
        forall|name: Seq<char>| #[trigger]
            request.envs@.contains_key(name) <==> exists|i: int|
                0 <= i < args.envs@.len() && (#[trigger] args.envs@[i]).0@ == name,
        forall|at: int|
            0 <= at < args.envs@.len() && (forall|i: int|
                at < i < args.envs@.len() ==> (#[trigger] args.envs@[i]).0@ != args.envs@[at].0@)
                ==> request.envs@[(#[trigger] args.envs@[at]).0@] == args.envs@[at].1@,
{
    law_texts_are_those_of_the_list(request.argv@);
    law_texts_are_those_of_the_list(args.argv@);
    assert forall|i: int| 0 <= i < request.argv@.len() implies (#[trigger] request.argv@[i])@
        == args.argv@[i]@ by {
        assert(request.argv@[i]@ == texts(request.argv@)[i]);
        assert(args.argv@[i]@ == texts(args.argv@)[i]);
    }
    let pairs = pair_texts(args.envs@);
    assert forall|name: Seq<char>| #[trigger]
        request.envs@.contains_key(name) <==> exists|i: int|
            0 <= i < args.envs@.len() && (#[trigger] args.envs@[i]).0@ == name by {
        law_names_are_those_given(pairs, name);
        if request.envs@.contains_key(name) {
            let i = choose|i: int| 0 <= i < pairs.len() && (#[trigger] pairs[i]).0 == name;
            assert(args.envs@[i].0@ == name);
        }
        if exists|i: int| 0 <= i < args.envs@.len() && (#[trigger] args.envs@[i]).0@ == name {
            let i = choose|i: int|
                0 <= i < args.envs@.len() && (#[trigger] args.envs@[i]).0@ == name;
            assert(pairs[i].0 == name);
        }
    }
    assert forall|at: int|
        0 <= at < args.envs@.len() && (forall|i: int|
            at < i < args.envs@.len() ==> (#[trigger] args.envs@[i]).0@ != args.envs@[at].0@)
            implies request.envs@[(#[trigger] args.envs@[at]).0@] == args.envs@[at].1@ by {
        assert forall|i: int| at < i < pairs.len() implies #[trigger] pairs[i].0 != pairs[at].0 by {
            assert(args.envs@[i].0@ != args.envs@[at].0@);
        }
        law_last_value_holds(pairs, at);
    }
}

/// Attached output is coloured exactly if colours are forced, or it goes to a terminal
/// and nothing was said about colours.
pub proof fn law_colours_are_for_terminals(color: ColorChoice, is_terminal: bool, ansi: bool)
    requires
        call_ensures(wants_ansi, (color, is_terminal), ansi),
    ensures
        ansi <==> color is Always || (color is Auto && is_terminal),
{
}

/// An attached client prints every entry and reads on. It ends when the host closes its
/// end, with exit code zero exactly then, and otherwise says why.
pub proof fn law_attached_client_prints_entries(event: AttachEvent, ansi: bool, step: AttachStep)
    requires
        call_ensures(attach_step, (event, ansi), step),
    ensures
        event is Entry <==> step is Print,
        event matches AttachEvent::Entry(entry) ==> step->Print_0@ == rendered_text(entry@, ansi),
        step matches AttachStep::Exit(report) ==> {
            &&& report.stdout@.len() == 0
            &&& event is Eof ==> report.exit == 0 && report.stderr is None
            &&& !(event is Eof) ==> report.exit == 127 && report.stderr is Some
            &&& event is NoHost ==> report.stderr->0@ == "HOST NOT FOUND"@
            &&& event is NotAttached ==> report.stderr->0@ == "rexec: failed to attach to host"@
            &&& event matches AttachEvent::Invalid(reason) ==> report.stderr->0@
                == "rexec: invalid attach response: "@ + reason@
            &&& event matches AttachEvent::ReadFailed(reason) ==> report.stderr->0@
                == "rexec: error reading attached host: "@ + reason@
        },
{
}

/// A client that prints a transcript goes on exactly if it was told to follow it and all
/// of it was printed. Otherwise it ends, with exit code zero exactly if all was printed,
/// and else says why.
pub proof fn law_only_a_follower_goes_on(event: PrintEvent, follow: bool, r: Option<Report>)
    requires
        call_ensures(print_step, (event, follow), r),
    ensures
        r is None <==> event is Printed && follow,
        r matches Some(report) ==> {
            &&& report.stdout@.len() == 0
            &&& event is Printed ==> report.exit == 0 && report.stderr is None
            &&& !(event is Printed) ==> report.exit == 127 && report.stderr is Some
            &&& event matches PrintEvent::NoPath(reason) ==> report.stderr->0@
                == "rexec: cannot resolve transcript path: "@ + reason@
            &&& event matches PrintEvent::Missing(path) ==> report.stderr->0@
                == "rexec: transcript not found: "@ + path@
            &&& event matches PrintEvent::ReadFailed(reason) ==> report.stderr->0@
                == "rexec: error reading transcript: "@ + reason@
            &&& event matches PrintEvent::FollowFailed(reason) ==> report.stderr->0@
                == "rexec: error following transcript: "@ + reason@
        },
{
}

/// What a client cannot read it says, prints nothing, and fails.
pub proof fn law_unreadable_input_is_reported(
    bytes: &[u8],
    reason: &str,
    dir: Result<String, Report>,
    stdin: Result<String, Report>,
    unread: Report,
    unlisted: Report,
)
    requires
        call_ensures(run_dir, (bytes,), dir),
        call_ensures(stdin_text, (bytes,), stdin),
        call_ensures(stdin_failure, (reason,), unread),
        call_ensures(list_failure, (reason,), unlisted),
    ensures
        dir is Ok <==> valid_utf8(bytes@),
        stdin is Ok <==> valid_utf8(bytes@),
        dir is Ok ==> dir->Ok_0@ == decode_utf8(bytes@),
        stdin is Ok ==> stdin->Ok_0@ == decode_utf8(bytes@),
        dir matches Err(report) ==> report.exit == 127 && report.stdout@.len() == 0
            && report.stderr is Some && report.stderr->0@ == "rexec: --dir contains invalid UTF-8"@,
        stdin matches Err(report) ==> report.exit == 127 && report.stdout@.len() == 0
            && report.stderr is Some && report.stderr->0@
            == "rexec: failed to read stdin: stdin is not valid UTF-8"@,
        unread.exit == 127 && unread.stdout@.len() == 0 && unread.stderr is Some
            && unread.stderr->0@ == "rexec: failed to read stdin: "@ + reason@,
        unlisted.exit == 127 && unlisted.stdout@.len() == 0 && unlisted.stderr is Some
            && unlisted.stderr->0@ == "rexec: failed to list transcripts: "@ + reason@,
{
}

/// The host is told to abort as long as the guard is armed, and only there.
pub proof fn law_armed_guard_tells_the_host(fd: i32, guard: AbortGuard, target: Option<i32>)
    requires
        call_ensures(AbortGuard::arm, (fd,), guard),
        call_ensures(AbortGuard::target, (&guard,), target),
    ensures
        guard.armed,
        target == Some(fd),
{
}

/// A disarmed guard tells nobody.
pub proof fn law_disarmed_guard_tells_nobody(guard: &mut AbortGuard, target: Option<i32>)
    requires
        call_ensures(AbortGuard::disarm, (guard,), ()),
        call_ensures(AbortGuard::target, (&*final(guard),), target),
    ensures
        target is None,
        final(guard).fd == old(guard).fd,
{
}

/// A client asks to attach exactly when its opening ping was answered, and for colours
/// exactly if it wants them.
pub proof fn law_attaching_follows_the_pong(
    event: SessionEvent,
    ansi: bool,
    r: Option<ClientAction>,
)
    requires
        call_ensures(attach_opening, (event, ansi), r),
    ensures
        r is Some <==> event is Pong,
        r is Some ==> r->0 == (ClientAction::Attach { ansi }),
{
}

/// A client waits two seconds for a pong, and looks four times a second whether a
/// transcript that it follows has grown.
pub proof fn law_times_of_the_client()
    ensures
        PONG_TIMEOUT_MILLIS == 2 * 1000,
        4 * FOLLOW_INTERVAL_MILLIS == 1000,
{
}

} // verus!
