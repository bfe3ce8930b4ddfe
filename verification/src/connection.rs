//! What the host does with the lines of one client connection.
//!
//! A connection opens with a ping. After that it carries commands, each directly
//! behind a ping of its own, or turns into a stream of transcript events.

use vstd::prelude::*;

use crate::protocol::{message_of_line, ClientAction, Request, RequestView, Response, ResponseView};
use crate::text::{
    blank, law_blank_text_is_trimmed_away, law_texts_are_those_of_the_list, texts, trimmed_end,
};

verus! {

/// How far a connection has come.
#[derive(Clone, Copy, Debug, PartialEq, Eq, Structural)]
pub enum Phase {
    /// Nothing has been received.
    Opening,
    /// The opening ping was answered. `command_pinged` says whether a ping
    /// authorises the next request.
    Verified { command_pinged: bool },
    /// The connection carries transcript events from now on.
    Attached,
    /// The connection is over.
    Closed,
}

/// What came of reading a line.
#[derive(Debug)]
pub enum LineRead {
    /// The client closed its end.
    Eof,
    /// A line, its line feed included.
    Line(String),
    /// Reading failed, for the given reason.
    Failed(String),
}

/// What to do about a line that was read, or was not.
#[derive(Debug)]
pub enum LineStep {
    /// Close the connection, with a diagnostic if there is one.
    Close { diagnostic: Option<String> },
    /// Read the next line.
    Skip,
    /// Parse this message and hand it to [`Connection::receive`].
    Parse(String),
}

/// A parsed message.
#[derive(Debug)]
pub enum Incoming {
    Action(ClientAction),
    Request(Request),
    /// Neither an action nor a request, for the given reason.
    Malformed(String),
}

/// What an [`Incoming`] says.
#[verifier::ext_equal]
pub enum IncomingView {
    Action(ClientAction),
    Request(RequestView),
    Malformed(Seq<char>),
}

impl View for Incoming {
    type V = IncomingView;

    open spec fn view(&self) -> IncomingView {
        match self {
            Incoming::Action(action) => IncomingView::Action(*action),
            Incoming::Request(request) => IncomingView::Request(request@),
            Incoming::Malformed(reason) => IncomingView::Malformed(reason@),
        }
    }
}

/// What a message is, when it was read as an action and as a request: an action
/// where it reads as one.
pub fn classify(action: Option<ClientAction>, request: Result<Request, String>) -> (r: Incoming)
    ensures
        r@ == match action {
            Some(a) => IncomingView::Action(a),
            None => match request {
                Ok(q) => IncomingView::Request(q@),
                Err(reason) => IncomingView::Malformed(reason@),
            },
        },
{
    match action {
        Some(a) => Incoming::Action(a),
        None => match request {
            Ok(q) => Incoming::Request(q),
            Err(reason) => Incoming::Malformed(reason),
        },
    }
}

/// What to do about a message.
#[derive(Debug)]
pub enum Step {
    /// Print the diagnostic and close the connection.
    Reject { diagnostic: String },
    /// Read the next line.
    Ignore,
    /// Send a pong.
    Pong,
    /// Send transcript events until the connection ends.
    Attach { ansi: bool },
    /// Print the warning, if there is one, and send the response.
    Reply { response: Response, warning: Option<String> },
    /// Run the command and send its response.
    Run(Request),
}

/// What a [`Step`] says.
#[verifier::ext_equal]
pub enum StepView {
    Reject { diagnostic: Seq<char> },
    Ignore,
    Pong,
    Attach { ansi: bool },
    Reply { response: ResponseView, warning: Option<Seq<char>> },
    Run(RequestView),
}

impl View for Step {
    type V = StepView;

    open spec fn view(&self) -> StepView {
        match self {
            Step::Reject { diagnostic } => StepView::Reject { diagnostic: diagnostic@ },
            Step::Ignore => StepView::Ignore,
            Step::Pong => StepView::Pong,
            Step::Attach { ansi } => StepView::Attach { ansi: *ansi },
            Step::Reply { response, warning } => StepView::Reply {
                response: response@,
                warning: crate::protocol::optional_text(*warning),
            },
            Step::Run(request) => StepView::Run(request@),
        }
    }
}

/// The response to a request that was not run.
pub open spec fn refusal(reason: Seq<char>) -> ResponseView {
    ResponseView { exit: 127, output: Seq::empty(), error: Some(reason) }
}

/// What the host does about `message` in `phase`, and the phase behind it.
pub open spec fn step(phase: Phase, message: IncomingView) -> (Phase, StepView) {
    match phase {
        Phase::Opening => if message == IncomingView::Action(ClientAction::Ping) {
            (Phase::Verified { command_pinged: false }, StepView::Pong)
        } else {
            (
                Phase::Closed,
                StepView::Reject { diagnostic: "rexec host: connection did not start with ping"@ },
            )
        },
        Phase::Verified { command_pinged } => match message {
            IncomingView::Action(ClientAction::Ping) => (
                Phase::Verified { command_pinged: true },
                StepView::Pong,
            ),
            IncomingView::Action(ClientAction::Abort) => (phase, StepView::Ignore),
            IncomingView::Action(ClientAction::Attach { ansi }) => (
                Phase::Attached,
                StepView::Attach { ansi },
            ),
            IncomingView::Request(request) => if !command_pinged {
                unauthorised()
            } else if request.argv.len() == 0 {
                (
                    Phase::Verified { command_pinged: false },
                    StepView::Reply { response: refusal("exec is empty"@), warning: None },
                )
            } else {
                (Phase::Verified { command_pinged: false }, StepView::Run(request))
            },
            IncomingView::Malformed(reason) => if !command_pinged {
                unauthorised()
            } else {
                (
                    Phase::Verified { command_pinged: false },
                    StepView::Reply {
                        response: refusal("malformed request: "@ + reason),
                        warning: Some("rexec host: malformed request: "@ + reason),
                    },
                )
            },
        },
        Phase::Attached => (Phase::Attached, StepView::Ignore),
        Phase::Closed => (Phase::Closed, StepView::Ignore),
    }
}

/// What the host does about a request that no ping authorised.
pub open spec fn unauthorised() -> (Phase, StepView) {
    (
        Phase::Closed,
        StepView::Reject { diagnostic: "rexec host: command request was not preceded by ping"@ },
    )
}

/// The host's side of one connection.
#[derive(Debug)]
pub struct Connection {
    pub phase: Phase,
}

impl Connection {
    /// A connection on which nothing has been received.
    pub fn new() -> (r: Self)
        ensures
            r.phase is Opening,
    {
        Connection { phase: Phase::Opening }
    }

    /// Looks at what came of reading a line. Blank lines are skipped, except that
    /// the first line must be a message.
    pub fn line(&mut self, read: LineRead) -> (r: LineStep)
        ensures
            match read {
                LineRead::Eof => r == (LineStep::Close { diagnostic: None })
                    && final(self).phase is Closed,
                LineRead::Failed(reason) => {
                    &&& r matches LineStep::Close { diagnostic: Some(d) }
                    &&& d@ == "rexec host: read request: "@ + reason@
                    &&& final(self).phase is Closed
                },
                LineRead::Line(line) => {
                    &&& final(self).phase == old(self).phase
                    &&& if !(old(self).phase is Opening) && trimmed_end(line@).len() == 0 {
                        r is Skip
                    } else {
                        r matches LineStep::Parse(message) && message@ == trimmed_end(line@)
                    }
                },
            },
    {
        match read {
            LineRead::Eof => {
                self.phase = Phase::Closed;
                LineStep::Close { diagnostic: None }
            },
            LineRead::Failed(reason) => {
                self.phase = Phase::Closed;
                let mut diagnostic = "rexec host: read request: ".to_owned();
                diagnostic.append(reason.as_str());
                LineStep::Close { diagnostic: Some(diagnostic) }
            },
            LineRead::Line(line) => {
                let message = message_of_line(line.as_str());
                if self.phase != Phase::Opening && message.as_str().is_empty() {
                    LineStep::Skip
                } else {
                    LineStep::Parse(message)
                }
            },
        }
    }

    /// Takes a parsed message.
    pub fn receive(&mut self, message: Incoming) -> (r: Step)
        ensures
            (final(self).phase, r@) == step(old(self).phase, message@),
    {
        let command_pinged = match self.phase {
            Phase::Opening => {
                return match message {
                    Incoming::Action(ClientAction::Ping) => {
                        self.phase = Phase::Verified { command_pinged: false };
                        Step::Pong
                    },
                    _ => {
                        self.phase = Phase::Closed;
                        Step::Reject {
                            diagnostic: "rexec host: connection did not start with ping".to_owned(),
                        }
                    },
                };
            },
            Phase::Verified { command_pinged } => command_pinged,
            Phase::Attached | Phase::Closed => {
                return Step::Ignore;
            },
        };
        if let Incoming::Action(action) = message {
            return match action {
                ClientAction::Ping => {
                    self.phase = Phase::Verified { command_pinged: true };
                    Step::Pong
                },
                ClientAction::Abort => Step::Ignore,
                ClientAction::Attach { ansi } => {
                    self.phase = Phase::Attached;
                    Step::Attach { ansi }
                },
            };
        }
        if !command_pinged {
            self.phase = Phase::Closed;
            return Step::Reject {
                diagnostic: "rexec host: command request was not preceded by ping".to_owned(),
            };
        }
        self.phase = Phase::Verified { command_pinged: false };
        match message {
            Incoming::Request(request) => {
                if request.argv.len() == 0 {
                    Step::Reply {
                        response: Response {
                            exit: 127,
                            output: String::new(),
                            error: Some("exec is empty".to_owned()),
                        },
                        warning: None,
                    }
                } else {
                    Step::Run(request)
                }
            },
            Incoming::Malformed(reason) => {
                let mut error = "malformed request: ".to_owned();
                error.append(reason.as_str());
                let mut warning = "rexec host: malformed request: ".to_owned();
                warning.append(reason.as_str());
                Step::Reply {
                    response: Response { exit: 127, output: String::new(), error: Some(error) },
                    warning: Some(warning),
                }
            },
            Incoming::Action(_) => Step::Ignore,
        }
    }

    /// Ends the connection because a reply could not be sent.
    pub fn write_failed(&mut self)
        ensures
            final(self).phase is Closed,
    {
        self.phase = Phase::Closed;
    }
}

/// The phase behind a list of messages.
pub open spec fn phase_after(messages: Seq<IncomingView>) -> Phase
    decreases messages.len(),
{
    if messages.len() == 0 {
        Phase::Opening
    } else {
        step(phase_after(messages.drop_last()), messages.last()).0
    }
}

/// What the host does about the last of a list of messages.
pub open spec fn last_step(messages: Seq<IncomingView>) -> StepView
    recommends
        messages.len() > 0,
{
    step(phase_after(messages.drop_last()), messages.last()).1
}

/// Whether the messages open with a ping, and a later ping stands at `at` with
/// nothing but aborts behind it.
pub open spec fn freshly_pinged(messages: Seq<IncomingView>, at: int) -> bool {
    &&& 1 <= at < messages.len()
    &&& messages[0] == IncomingView::Action(ClientAction::Ping)
    &&& messages[at] == IncomingView::Action(ClientAction::Ping)
    &&& forall|k: int|
        at < k < messages.len() ==> #[trigger] messages[k] == IncomingView::Action(
            ClientAction::Abort,
        )
}

/// A request is run, or answered at all, only where a ping of its own stands
/// directly before it, behind the ping that opened the connection. Aborts in
/// between do nothing, as no command is active.
pub proof fn law_requests_need_a_fresh_ping(messages: Seq<IncomingView>)
    requires
        messages.len() > 0,
        last_step(messages) is Run || last_step(messages) is Reply,
    ensures
        exists|at: int| freshly_pinged(messages.drop_last(), at),
{
    lemma_pinged_phase(messages.drop_last());
}

/// A request without a fresh ping is rejected, and nothing is served on that
/// connection from then on.
pub proof fn law_unauthorised_request_is_rejected(
    messages: Seq<IncomingView>,
    request: IncomingView,
    rest: Seq<IncomingView>,
)
    requires
        !(request is Action),
        !(phase_after(messages) is Attached),
        !(phase_after(messages) is Closed),
        !exists|at: int| freshly_pinged(messages, at),
    ensures
        last_step(messages.push(request)) is Reject,
        phase_after(messages.push(request) + rest) is Closed,
{
    assert(messages.push(request).drop_last() =~= messages);
    lemma_pinged_phase(messages);
    lemma_closed_stays(messages.push(request), rest);
}

/// A connection that does not open with a ping is closed without a reply.
pub proof fn law_connection_must_open_with_ping(first: IncomingView, rest: Seq<IncomingView>)
    requires
        first != IncomingView::Action(ClientAction::Ping),
    ensures
        last_step(seq![first]) is Reject,
        phase_after(seq![first] + rest) is Closed,
{
    assert(seq![first].drop_last() =~= Seq::empty());
    assert(phase_after(Seq::<IncomingView>::empty()) is Opening);
    lemma_closed_stays(seq![first], rest);
}

/// The messages of a client that opens a connection and sends requests, each
/// behind a ping of its own.
pub open spec fn client_messages(requests: Seq<RequestView>) -> Seq<IncomingView>
    decreases requests.len(),
{
    if requests.len() == 0 {
        seq![IncomingView::Action(ClientAction::Ping)]
    } else {
        client_messages(requests.drop_last()).push(IncomingView::Action(ClientAction::Ping)).push(
            IncomingView::Request(requests.last()),
        )
    }
}

/// One connection carries any number of commands: the host runs every request of
/// such a client, answers every ping with a pong, and stays ready for the next.
pub proof fn law_connection_carries_many_commands(requests: Seq<RequestView>)
    requires
        forall|i: int| 0 <= i < requests.len() ==> (#[trigger] requests[i]).argv.len() > 0,
    ensures
        phase_after(client_messages(requests)) == (Phase::Verified { command_pinged: false }),
        forall|n: int|
            #![trigger client_messages(requests.take(n))]
            0 < n <= requests.len() ==> {
                &&& last_step(client_messages(requests.take(n))) == StepView::Run(requests[n - 1])
                &&& last_step(client_messages(requests.take(n)).drop_last()) is Pong
            },
    decreases requests.len(),
{
    if requests.len() == 0 {
        let messages = client_messages(requests);
        assert(messages.drop_last() =~= Seq::empty());
        assert(phase_after(Seq::<IncomingView>::empty()) is Opening);
    } else {
        let head = requests.drop_last();
        assert forall|i: int| 0 <= i < head.len() implies (#[trigger] head[i]).argv.len() > 0 by {
            assert(requests[i].argv.len() > 0);
        }
        law_connection_carries_many_commands(head);
        lemma_one_more_command(requests);
        assert forall|n: int|
            #![trigger client_messages(requests.take(n))]
            0 < n <= requests.len() implies {
            &&& last_step(client_messages(requests.take(n))) == StepView::Run(requests[n - 1])
            &&& last_step(client_messages(requests.take(n)).drop_last()) is Pong
        } by {
            if n < requests.len() {
                assert(requests.take(n) =~= head.take(n));
                assert(head[n - 1] == requests[n - 1]);
                let _ = client_messages(head.take(n));
            } else {
                assert(requests.take(n) =~= requests);
            }
        }
    }
}

proof fn lemma_one_more_command(requests: Seq<RequestView>)
    requires
        requests.len() > 0,
        requests.last().argv.len() > 0,
        phase_after(client_messages(requests.drop_last())) == (Phase::Verified {
            command_pinged: false,
        }),
    ensures
        last_step(client_messages(requests)) == StepView::Run(requests.last()),
        last_step(client_messages(requests).drop_last()) is Pong,
        phase_after(client_messages(requests)) == (Phase::Verified { command_pinged: false }),
{
    let before = client_messages(requests.drop_last());
    let pinged = before.push(IncomingView::Action(ClientAction::Ping));
    let messages = client_messages(requests);
    assert(messages.drop_last() =~= pinged);
    assert(pinged.drop_last() =~= before);
    assert(phase_after(pinged) == (Phase::Verified { command_pinged: true }));
}

proof fn lemma_pinged_phase(messages: Seq<IncomingView>)
    ensures
        phase_after(messages) is Opening <==> messages.len() == 0,
        phase_after(messages) is Verified ==> messages[0] == IncomingView::Action(
            ClientAction::Ping,
        ),
        phase_after(messages) == (Phase::Verified { command_pinged: true }) ==> exists|at: int|
            freshly_pinged(messages, at),
    decreases messages.len(),
{
    if messages.len() > 0 {
        let head = messages.drop_last();
        lemma_pinged_phase(head);
        if phase_after(messages) is Verified && head.len() > 0 {
            assert(head[0] == messages[0]);
        }
        if phase_after(messages) == (Phase::Verified { command_pinged: true }) {
            if messages.last() == IncomingView::Action(ClientAction::Ping) {
                assert(freshly_pinged(messages, messages.len() - 1));
            } else {
                let at = choose|at: int| freshly_pinged(head, at);
                assert forall|k: int| at < k < messages.len() implies #[trigger] messages[k]
                    == IncomingView::Action(ClientAction::Abort) by {
                    if k < head.len() {
                        assert(head[k] == messages[k]);
                    }
                }
                assert(freshly_pinged(messages, at));
            }
        }
    }
}

proof fn lemma_closed_stays(messages: Seq<IncomingView>, rest: Seq<IncomingView>)
    requires
        phase_after(messages) is Closed,
    ensures
        phase_after(messages + rest) is Closed,
    decreases rest.len(),
{
    if rest.len() == 0 {
        assert(messages + rest =~= messages);
    } else {
        lemma_closed_stays(messages, rest.drop_last());
        assert((messages + rest).drop_last() =~= messages + rest.drop_last());
    }
}

/// A message is an action if it can be read as one, a request if only that, and else it
/// is malformed. It says what was read.
pub proof fn law_actions_go_before_requests(
    action: Option<ClientAction>,
    request: Result<Request, String>,
    r: Incoming,
)
    requires
        call_ensures(classify, (action, request), r),
    ensures
        action is Some ==> r@ == IncomingView::Action(action->0),
        action is None && request is Ok ==> r@ == IncomingView::Request(request->Ok_0@),
        action is None && request is Err ==> r@ == IncomingView::Malformed(request->Err_0@),
{
}

/// On an open connection every ping is answered and authorises a request, an abort does
/// nothing, and a client that attaches gets events in the way it asked for. The first
/// ping only opens the connection.
pub proof fn law_actions_are_obeyed(command_pinged: bool, ansi: bool)
    ensures
        step(Phase::Opening, IncomingView::Action(ClientAction::Ping)) == (
            Phase::Verified { command_pinged: false },
            StepView::Pong,
        ),
        ({
            let phase = Phase::Verified { command_pinged };
            let (pinged, answer) = step(phase, IncomingView::Action(ClientAction::Ping));
            let (unmoved, nothing) = step(phase, IncomingView::Action(ClientAction::Abort));
            let (attached, events) = step(
                phase,
                IncomingView::Action(ClientAction::Attach { ansi }),
            );
            &&& pinged == (Phase::Verified { command_pinged: true })
            &&& answer is Pong
            &&& unmoved == phase
            &&& nothing is Ignore
            &&& attached is Attached
            &&& events == (StepView::Attach { ansi })
        }),
{
}

/// An authorised request is run as it came. One without a program, and one that cannot be
/// read, are answered with exit code 127 and with what is wrong. In each case the next
/// request needs a ping of its own.
pub proof fn law_authorised_request_is_answered(request: RequestView, reason: Seq<char>)
    ensures
        ({
            let phase = Phase::Verified { command_pinged: true };
            let (after, run) = step(phase, IncomingView::Request(request));
            let (behind, reply) = step(phase, IncomingView::Malformed(reason));
            &&& after == (Phase::Verified { command_pinged: false })
            &&& behind == after
            &&& request.argv.len() > 0 ==> run == StepView::Run(request)
            &&& request.argv.len() == 0 ==> {
                &&& run matches StepView::Reply { response, warning }
                &&& response.exit == 127
                &&& response.output.len() == 0
                &&& response.error == Some("exec is empty"@)
                &&& warning is None
            }
            &&& reply matches StepView::Reply { response, warning }
            &&& response.exit == 127
            &&& response.output.len() == 0
            &&& response.error == Some("malformed request: "@ + reason)
            &&& warning == Some("rexec host: malformed request: "@ + reason)
        }),
{
}

/// What is rejected is rejected with the reason: a connection that does not open with a
/// ping, and a request that no ping authorised. Attached and closed connections are not
/// listened to.
pub proof fn law_rejections_say_why(message: IncomingView)
    ensures
        message != IncomingView::Action(ClientAction::Ping) ==> step(Phase::Opening, message) == (
            Phase::Closed,
            StepView::Reject { diagnostic: "rexec host: connection did not start with ping"@ },
        ),
        !(message is Action) ==> step(Phase::Verified { command_pinged: false }, message) == (
            Phase::Closed,
            StepView::Reject {
                diagnostic: "rexec host: command request was not preceded by ping"@,
            },
        ),
        step(Phase::Attached, message) == (Phase::Attached, StepView::Ignore),
        step(Phase::Closed, message) == (Phase::Closed, StepView::Ignore),
{
}

/// The host reads on until the client closes its end or cannot be read, and says why in
/// the second case. Blank lines are skipped, except that the first line must be a message.
pub proof fn law_lines_are_read_to_the_end(
    connection: &mut Connection,
    read: LineRead,
    step: LineStep,
)
    requires
        call_ensures(Connection::line, (connection, read), step),
    ensures
        step is Close <==> read is Eof || read is Failed,
        step matches LineStep::Close { diagnostic } ==> {
            &&& final(connection).phase is Closed
            &&& diagnostic is Some <==> read is Failed
            &&& read matches LineRead::Failed(reason) ==> diagnostic->0@
                == "rexec host: read request: "@ + reason@
        },
        read matches LineRead::Line(line) ==> {
            &&& final(connection).phase == old(connection).phase
            &&& step is Skip <==> !(old(connection).phase is Opening) && blank(line@)
            &&& step matches LineStep::Parse(message) ==> message@ == trimmed_end(line@)
        },
{
    if let LineRead::Line(line) = read {
        law_blank_text_is_trimmed_away(line@);
    }
}

/// A request that is run is the one that came, word for word, and only one behind a fresh
/// ping. The host answers a ping with a pong on every open connection.
pub proof fn law_request_is_run_as_it_came(
    connection: &mut Connection,
    message: Incoming,
    step: Step,
)
    requires
        call_ensures(Connection::receive, (connection, message), step),
    ensures
        step matches Step::Run(run) ==> {
            &&& old(connection).phase == (Phase::Verified { command_pinged: true })
            &&& message matches Incoming::Request(request)
            &&& run.whoami@ == request.whoami@
            &&& run.dir@ == request.dir@
            &&& run.envs@ == request.envs@
            &&& run.clear_env == request.clear_env
            &&& run.argv@.len() == request.argv@.len()
            &&& forall|i: int|
                0 <= i < run.argv@.len() ==> (#[trigger] run.argv@[i])@ == request.argv@[i]@
            &&& run.stdin is Some <==> request.stdin is Some
            &&& run.stdin is Some ==> run.stdin->0@ == request.stdin->0@
            &&& run.timeout == request.timeout
        },
        message matches Incoming::Request(request) ==> (step is Run <==> old(connection).phase == (
        Phase::Verified { command_pinged: true }) && request.argv@.len() > 0),
        step matches Step::Reply { response, .. } ==> response.exit == 127 && response.output@.len()
            == 0 && response.error is Some,
        step is Pong <==> message == Incoming::Action(ClientAction::Ping) && (old(
            connection,
        ).phase is Opening || old(connection).phase is Verified),
        step matches Step::Attach { ansi } ==> message == Incoming::Action(
            ClientAction::Attach { ansi },
        ),
{
    if let Incoming::Request(request) = message {
        law_texts_are_those_of_the_list(request.argv@);
        if let Step::Run(run) = step {
            law_texts_are_those_of_the_list(run.argv@);
            assert forall|i: int| 0 <= i < run.argv@.len() implies (#[trigger] run.argv@[i])@
                == request.argv@[i]@ by {
                assert(run.argv@[i]@ == texts(run.argv@)[i]);
                assert(request.argv@[i]@ == texts(request.argv@)[i]);
            }
        }
    }
}

/// A new connection runs nothing before it was pinged, and one to which nothing can be
/// written is closed.
pub proof fn law_connections_begin_and_end(
    connection: Connection,
    lost: &mut Connection,
)
    requires
        call_ensures(Connection::new, (), connection),
        call_ensures(Connection::write_failed, (lost,), ()),
    ensures
        connection.phase is Opening,
        final(lost).phase is Closed,
{
}

} // verus!
