//! The messages that clients and the host exchange, one JSON object per line.

use vstd::prelude::*;

use crate::environment::Environment;
use crate::text::{
    law_trimming_takes_off_white_space, lemma_trimmed_end_keeps, texts, trimmed_end, white_space,
};

verus! {

/// The text of an optional string.
pub open spec fn optional_text(s: Option<String>) -> Option<Seq<char>> {
    match s {
        Some(t) => Some(t@),
        None => None,
    }
}

/// A command for the host to run.
#[derive(Debug)]
pub struct Request {
    /// Identifier of the calling agent.
    pub whoami: String,
    /// Working directory of the command.
    pub dir: String,
    /// Environment variables added to those of the host.
    pub envs: Environment,
    /// Whether the host's own environment is dropped before `envs` is applied.
    pub clear_env: bool,
    /// The program and its arguments.
    pub argv: Vec<String>,
    /// What the command reads on its standard input. When present, the host
    /// feeds it through a pipe and closes the pipe behind it, so the command
    /// sees end of file. When absent, standard input is `/dev/null`.
    pub stdin: Option<String>,
    /// Maximum runtime in seconds. Zero means no timeout.
    pub timeout: u64,
}

/// What a [`Request`] says.
#[verifier::ext_equal]
pub struct RequestView {
    pub whoami: Seq<char>,
    pub dir: Seq<char>,
    pub envs: Map<Seq<char>, Seq<char>>,
    pub clear_env: bool,
    pub argv: Seq<Seq<char>>,
    pub stdin: Option<Seq<char>>,
    pub timeout: u64,
}

impl View for Request {
    type V = RequestView;

    open spec fn view(&self) -> RequestView {
        RequestView {
            whoami: self.whoami@,
            dir: self.dir@,
            envs: self.envs@,
            clear_env: self.clear_env,
            argv: texts(self.argv@),
            stdin: optional_text(self.stdin),
            timeout: self.timeout,
        }
    }
}

impl Clone for Request {
    fn clone(&self) -> (r: Self)
        ensures
            r@ == self@,
    {
        let r = Request {
            whoami: self.whoami.clone(),
            dir: self.dir.clone(),
            envs: self.envs.clone(),
            clear_env: self.clear_env,
            argv: self.argv.clone(),
            stdin: self.stdin.clone(),
            timeout: self.timeout,
        };
        assert(texts(r.argv@) =~= texts(self.argv@));
        r
    }
}

/// How a command ended.
#[derive(Debug)]
pub struct Response {
    /// The exit code.
    pub exit: i32,
    /// Standard output and standard error together, without control sequences.
    pub output: String,
    /// Why the run did not complete normally, if it did not.
    pub error: Option<String>,
}

/// What a [`Response`] says.
#[verifier::ext_equal]
pub struct ResponseView {
    pub exit: i32,
    pub output: Seq<char>,
    pub error: Option<Seq<char>>,
}

impl View for Response {
    type V = ResponseView;

    open spec fn view(&self) -> ResponseView {
        ResponseView {
            exit: self.exit,
            output: self.output@,
            error: optional_text(self.error),
        }
    }
}

impl Clone for Response {
    fn clone(&self) -> (r: Self)
        ensures
            r@ == self@,
    {
        Response { exit: self.exit, output: self.output.clone(), error: self.error.clone() }
    }
}

/// One executed command in a transcript.
#[derive(Debug)]
pub struct TranscriptEntry {
    pub whoami: String,
    pub dir: String,
    pub envs: Environment,
    pub argv: Vec<String>,
    /// Requested maximum runtime in seconds. Zero means no timeout.
    pub timeout: u64,
    pub exit: i32,
    pub output: String,
    pub error: Option<String>,
    /// When the host received the request.
    pub time: Option<String>,
}

/// What a [`TranscriptEntry`] says.
#[verifier::ext_equal]
pub struct EntryView {
    pub whoami: Seq<char>,
    pub dir: Seq<char>,
    pub envs: Map<Seq<char>, Seq<char>>,
    pub argv: Seq<Seq<char>>,
    pub timeout: u64,
    pub exit: i32,
    pub output: Seq<char>,
    pub error: Option<Seq<char>>,
    pub time: Option<Seq<char>>,
}

impl View for TranscriptEntry {
    type V = EntryView;

    open spec fn view(&self) -> EntryView {
        EntryView {
            whoami: self.whoami@,
            dir: self.dir@,
            envs: self.envs@,
            argv: texts(self.argv@),
            timeout: self.timeout,
            exit: self.exit,
            output: self.output@,
            error: optional_text(self.error),
            time: optional_text(self.time),
        }
    }
}

impl Clone for TranscriptEntry {
    fn clone(&self) -> (r: Self)
        ensures
            r@ == self@,
    {
        let r = TranscriptEntry {
            whoami: self.whoami.clone(),
            dir: self.dir.clone(),
            envs: self.envs.clone(),
            argv: self.argv.clone(),
            timeout: self.timeout,
            exit: self.exit,
            output: self.output.clone(),
            error: self.error.clone(),
            time: self.time.clone(),
        };
        assert(texts(r.argv@) =~= texts(self.argv@));
        r
    }
}

/// The program could not be executed.
pub const ERROR_NOT_FOUND: &'static str = "not_found";

/// The command could not be set up.
pub const ERROR_SPAWN_FAILED: &'static str = "spawn_failed";

/// The host killed the command for its client.
pub const ERROR_ABORTED: &'static str = "aborted";

/// The command exceeded its timeout.
pub const ERROR_TIMEOUT: &'static str = "timeout";

/// Whether a number is zero: a zero timeout is left out of a message.
pub fn is_zero(value: &u64) -> (r: bool)
    ensures
        r == (*value == 0),
{
    *value == 0
}

/// Control messages from a client to the host.
///
/// `Ping` opens every connection and stands directly before every [`Request`];
/// the host replies with [`ControlResponse::Pong`]. `Abort` may appear while a
/// command runs and asks the host to kill it. `Attach` turns the connection
/// into a stream of [`HostEvent`]s.
#[derive(Clone, Copy, Debug, PartialEq, Eq, Structural)]
pub enum ClientAction {
    Ping,
    Abort,
    Attach {
        /// Send raw output, control sequences included, in transcript events.
        ansi: bool,
    },
}

/// What the host sends to an attached client.
#[derive(Debug)]
pub enum HostEvent {
    /// A command completed.
    Transcript { entry: TranscriptEntry },
}

/// The host's reply to a control message.
#[derive(Clone, Copy, Debug, PartialEq, Eq, Structural)]
pub enum ControlResponse {
    Pong,
}

/// The line that carries [`ClientAction::Ping`].
pub const PING_LINE: &'static str = "{\"action\":\"ping\"}\n";

/// The line that carries [`ClientAction::Abort`].
pub const ABORT_LINE: &'static str = "{\"action\":\"abort\"}\n";

/// The line that carries an action.
pub open spec fn action_text(action: ClientAction) -> Seq<char> {
    match action {
        ClientAction::Ping => PING_LINE@,
        ClientAction::Abort => ABORT_LINE@,
        ClientAction::Attach { ansi } => if ansi {
            "{\"action\":\"attach\",\"ansi\":true}\n"@
        } else {
            "{\"action\":\"attach\",\"ansi\":false}\n"@
        },
    }
}

/// The line that carries an action.
pub fn action_line(action: ClientAction) -> (r: &'static str)
    ensures
        r@ == action_text(action),
{
    match action {
        ClientAction::Ping => PING_LINE,
        ClientAction::Abort => ABORT_LINE,
        ClientAction::Attach { ansi } => if ansi {
            "{\"action\":\"attach\",\"ansi\":true}\n"
        } else {
            "{\"action\":\"attach\",\"ansi\":false}\n"
        },
    }
}

/// The line that carries the message `body`: the message and a line feed.
pub fn message_line(body: &str) -> (r: String)
    ensures
        r@ == body@.push('\n'),
{
    let mut line = body.to_owned();
    line.push('\n');
    line
}

/// The message of a line, without the white space behind it.
pub fn message_of_line(line: &str) -> (r: String)
    ensures
        r@ == trimmed_end(line@),
{
    crate::text::trim_end(line)
}

/// A message that does not end in white space survives the trip through its line.
pub proof fn law_message_survives_line(body: Seq<char>)
    requires
        body.len() == 0 || !white_space(body.last()),
    ensures
        trimmed_end(body.push('\n')) == body,
{
    assert(body.push('\n') =~= body + seq!['\n']);
    lemma_trimmed_end_keeps(body, seq!['\n']);
}

/// Every action has a line of its own: one line feed, at its end, and no two lines are the
/// same.
pub proof fn law_actions_have_lines_of_their_own(
    a: ClientAction,
    b: ClientAction,
    line: &str,
    other: &str,
)
    requires
        call_ensures(action_line, (a,), line),
        call_ensures(action_line, (b,), other),
    ensures
        line@ == other@ <==> a == b,
        line@.len() > 0,
        forall|i: int| 0 <= i < line@.len() ==> (#[trigger] line@[i] == '\n' <==> i == line@.len() - 1),
        a is Ping ==> line@ == "{\"action\":\"ping\"}\n"@,
        a is Abort ==> line@ == "{\"action\":\"abort\"}\n"@,
        a == (ClientAction::Attach { ansi: true }) ==> line@
            == "{\"action\":\"attach\",\"ansi\":true}\n"@,
        a == (ClientAction::Attach { ansi: false }) ==> line@
            == "{\"action\":\"attach\",\"ansi\":false}\n"@,
{
    reveal_strlit("{\"action\":\"ping\"}\n");
    reveal_strlit("{\"action\":\"abort\"}\n");
    reveal_strlit("{\"action\":\"attach\",\"ansi\":true}\n");
    reveal_strlit("{\"action\":\"attach\",\"ansi\":false}\n");
    assert("{\"action\":\"ping\"}\n"@.len() == 18);
    assert("{\"action\":\"abort\"}\n"@.len() == 19);
    assert("{\"action\":\"attach\",\"ansi\":true}\n"@.len() == 32);
    assert("{\"action\":\"attach\",\"ansi\":false}\n"@.len() == 33);
}

/// The errors that a response can name.
pub proof fn law_names_of_errors()
    ensures
        ERROR_NOT_FOUND@ == "not_found"@,
        ERROR_SPAWN_FAILED@ == "spawn_failed"@,
        ERROR_ABORTED@ == "aborted"@,
        ERROR_TIMEOUT@ == "timeout"@,
{
}

/// Only a timeout of zero is left out of a message.
pub proof fn law_only_zero_is_left_out(value: u64, r: bool)
    requires
        call_ensures(is_zero, (&value,), r),
    ensures
        r <==> !(value > 0),
{
}

/// A line is its message and one line feed. Reading it takes off the white space at its
/// end, and nothing else.
pub proof fn law_line_and_its_message(
    body: &str,
    line: String,
    text: &str,
    message: String,
)
    requires
        call_ensures(message_line, (body,), line),
        text@ == line@,
        call_ensures(message_of_line, (text,), message),
    ensures
        line@ == body@ + seq!['\n'],
        body@.len() == 0 || !white_space(body@.last()) ==> message@ == body@,
        message@.len() <= body@.len(),
        message@ == body@.take(message@.len() as int),
{
    assert(body@.push('\n') =~= body@ + seq!['\n']);
    law_trimming_takes_off_white_space(line@);
    if body@.len() == 0 || !white_space(body@.last()) {
        law_message_survives_line(body@);
    }
    if message@.len() == line@.len() {
        assert(message@ =~= line@);
        assert(white_space(message@.last()));
    }
    assert(message@ =~= body@.take(message@.len() as int));
}

} // verus!
