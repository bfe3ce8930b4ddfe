//! The tool server: what its tools take and give back, and how a tool call gets
//! its command to the host.

use vstd::prelude::*;

use crate::environment::Environment;
use crate::json::{
    empty_object, insert_number, insert_text, no_fields, object_text, text_of_object, FieldView,
};
use crate::pool::{attempt_budget, budget};
use crate::protocol::{
    optional_text, Request, RequestView, Response, ResponseView, ERROR_NOT_FOUND,
};
use crate::text::{law_texts_are_those_of_the_list, same_text, texts};

verus! {

/// What a call gets when no host could be reached.
pub const HOST_NOT_FOUND: &'static str = "HOST NOT FOUND";

/// What a check of the host gets when one could be reached.
pub const HOST_RUNNING: &'static str = "HOST RUNNING";

/// The arguments of the tool that runs a command.
#[derive(Debug)]
pub struct ExecTool {
    /// Working directory of the command.
    pub dir: String,
    /// The program and its arguments. Must not be empty.
    pub argv: Vec<String>,
    /// Environment overrides.
    pub env: Environment,
    /// Whether the inherited environment is dropped before the overrides.
    pub clear_env: bool,
    /// What the command reads on its standard input, if anything.
    pub stdin: Option<String>,
    /// Maximum runtime in seconds. Zero means no timeout.
    pub timeout: u64,
}

/// The arguments of the tool that looks for a host: none.
#[derive(Debug, Default)]
pub struct CheckHostTool {}

/// What a tool gives back.
#[derive(Debug)]
pub struct ToolResult {
    pub text: String,
    /// Whether the result counts as an error.
    pub is_error: bool,
}

/// The request of a call to run a command, or what is wrong with the call.
pub fn exec_request(whoami: &str, tool: ExecTool) -> (r: Result<Request, String>)
    ensures
        r is Ok <==> tool.argv@.len() > 0,
        r matches Ok(request) ==> request@ == (RequestView {
            whoami: whoami@,
            dir: tool.dir@,
            envs: tool.env@,
            clear_env: tool.clear_env,
            argv: texts(tool.argv@),
            stdin: optional_text(tool.stdin),
            timeout: tool.timeout,
        }),
        r matches Err(e) ==> e@ == "argv must be non-empty"@,
{
    if tool.argv.len() == 0 {
        return Err("argv must be non-empty".to_owned());
    }
    Ok(
        Request {
            whoami: whoami.to_owned(),
            dir: tool.dir,
            envs: tool.env,
            clear_env: tool.clear_env,
            argv: tool.argv,
            stdin: tool.stdin,
            timeout: tool.timeout,
        },
    )
}

/// The fields that tell of a response: its exit code, its output, and its error
/// if it has one.
pub open spec fn response_fields(response: ResponseView) -> Map<Seq<char>, FieldView> {
    let fields = no_fields().insert("exit"@, FieldView::Number(response.exit as int)).insert(
        "output"@,
        FieldView::Text(response.output),
    );
    match response.error {
        Some(error) => fields.insert("error"@, FieldView::Text(error)),
        None => fields,
    }
}

/// Whether a response counts as an error: a command that failed or that could not
/// be found.
pub open spec fn counts_as_error(response: ResponseView) -> bool {
    response.exit != 0 || response.error == Some(ERROR_NOT_FOUND@)
}

/// What the tool gives back of a response: a JSON object with its fields.
pub fn exec_result(response: &Response) -> (r: ToolResult)
    ensures
        r.text@ == object_text(response_fields(response@)),
        r.is_error == counts_as_error(response@),
{
    let mut body = empty_object();
    insert_number(&mut body, "exit", response.exit);
    insert_text(&mut body, "output", response.output.as_str());
    let mut not_found = false;
    if let Some(error) = &response.error {
        insert_text(&mut body, "error", error.as_str());
        not_found = same_text(error.as_str(), ERROR_NOT_FOUND);
    }
    let text = match text_of_object(&body) {
        Some(text) => text,
        None => "{\"error\":\"serialize_failed\"}".to_owned(),
    };
    ToolResult { text, is_error: response.exit != 0 || not_found }
}

/// What the tool gives back when the command's connection broke, for the given
/// reason.
pub fn failed_result(reason: &str) -> (r: ToolResult)
    ensures
        r.text@ == reason@,
        r.is_error,
{
    ToolResult { text: reason.to_owned(), is_error: true }
}

/// What the tool gives back when no host could be reached.
pub fn refused_result() -> (r: ToolResult)
    ensures
        r.text@ == HOST_NOT_FOUND@,
        r.is_error,
{
    failed_result(HOST_NOT_FOUND)
}

/// What the check of the host gives back. It is never an error.
pub fn check_host_result(found: bool) -> (r: ToolResult)
    ensures
        r.text@ == if found {
            HOST_RUNNING@
        } else {
            HOST_NOT_FOUND@
        },
        !r.is_error,
{
    let text = if found {
        HOST_RUNNING.to_owned()
    } else {
        HOST_NOT_FOUND.to_owned()
    };
    ToolResult { text, is_error: false }
}

/// What has happened to a call that has a request to send.
#[derive(Clone, Copy, Debug, PartialEq, Eq, Structural)]
pub enum CommandEvent {
    /// It began.
    Began,
    /// It holds a connection.
    Acquired,
    /// It could not get a connection.
    NotAcquired,
    /// The host answered the ping.
    Ponged,
    /// The host did not answer the ping.
    PingFailed,
    /// The host sent the response.
    Answered,
    /// The request or its response was lost.
    ExchangeFailed,
}

/// What a call that has a request to send does next.
#[derive(Clone, Copy, Debug, PartialEq, Eq, Structural)]
pub enum CommandAction {
    /// Let go of the connection it holds, if any, and get one within this time.
    Acquire { timeout: u128 },
    /// Ping the host, within this time.
    Ping { timeout: u128 },
    /// Send the request and wait for its response, for as long as it takes.
    Execute,
    /// Let go of the connection it holds, if any, and report that there is no host.
    Refuse,
    /// Report the response, or that it was lost.
    Report,
}

/// What a call does about an event.
pub open spec fn command_transition(
    event: CommandEvent,
    now: u128,
    deadline: u128,
    interval: u128,
) -> CommandAction {
    match event {
        CommandEvent::Began | CommandEvent::PingFailed => if now < deadline {
            CommandAction::Acquire { timeout: (deadline - now) as u128 }
        } else {
            CommandAction::Refuse
        },
        CommandEvent::Acquired => match attempt_budget(now, deadline, interval) {
            Some(timeout) => CommandAction::Ping { timeout },
            None => CommandAction::Refuse,
        },
        CommandEvent::NotAcquired => CommandAction::Refuse,
        CommandEvent::Ponged => CommandAction::Execute,
        CommandEvent::Answered | CommandEvent::ExchangeFailed => CommandAction::Report,
    }
}

/// Takes a call that has a request to send one step further.
pub fn command_step(event: CommandEvent, now: u128, deadline: u128, interval: u128) -> (r:
    CommandAction)
    ensures
        r == command_transition(event, now, deadline, interval),
{
    match event {
        CommandEvent::Began | CommandEvent::PingFailed => if now < deadline {
            CommandAction::Acquire { timeout: deadline - now }
        } else {
            CommandAction::Refuse
        },
        CommandEvent::Acquired => match budget(now, deadline, interval) {
            Some(timeout) => CommandAction::Ping { timeout },
            None => CommandAction::Refuse,
        },
        CommandEvent::NotAcquired => CommandAction::Refuse,
        CommandEvent::Ponged => CommandAction::Execute,
        CommandEvent::Answered | CommandEvent::ExchangeFailed => CommandAction::Report,
    }
}

/// Whether an event can come of an action.
pub open spec fn comes_of(event: CommandEvent, action: CommandAction) -> bool {
    match action {
        CommandAction::Acquire { .. } => event is Acquired || event is NotAcquired,
        CommandAction::Ping { .. } => event is Ponged || event is PingFailed,
        CommandAction::Execute => event is Answered || event is ExchangeFailed,
        CommandAction::Refuse | CommandAction::Report => false,
    }
}

/// The history of a call: its events and their times.
pub struct CallHistory {
    pub events: Seq<(CommandEvent, u128)>,
    pub deadline: u128,
    pub interval: u128,
}

impl CallHistory {
    /// What the call does about its event number `i`.
    pub open spec fn action(self, i: int) -> CommandAction {
        command_transition(self.events[i].0, self.events[i].1, self.deadline, self.interval)
    }

    /// Whether every event came of what the call did before.
    pub open spec fn possible(self) -> bool {
        &&& self.events.len() > 0 ==> self.events[0].0 is Began
        &&& forall|i: int|
            0 < i < self.events.len() ==> comes_of((#[trigger] self.events[i]).0, self.action(i - 1))
    }
}

/// A request is sent at most once: whatever becomes of it, it is not sent again.
pub proof fn law_request_is_sent_at_most_once(history: CallHistory, i: int, j: int)
    requires
        history.possible(),
        0 <= i < history.events.len(),
        0 <= j < history.events.len(),
        history.action(i) is Execute,
        history.action(j) is Execute,
    ensures
        i == j,
{
    if i < j {
        lemma_nothing_after_execute(history, i, j);
    } else if j < i {
        lemma_nothing_after_execute(history, j, i);
    }
}

proof fn lemma_nothing_after_execute(history: CallHistory, i: int, j: int)
    requires
        history.possible(),
        0 <= i < j < history.events.len(),
        history.action(i) is Execute,
    ensures
        history.action(j) is Report,
    decreases j - i,
{
    assert(comes_of(history.events[i + 1].0, history.action(i)));
    assert(history.action(i + 1) is Report);
    if j > i + 1 {
        assert(comes_of(history.events[i + 2].0, history.action(i + 1)));
    }
}

/// A request is sent only when the host has just answered a ping on the same
/// connection.
pub proof fn law_request_directly_follows_pong(history: CallHistory, i: int)
    requires
        history.possible(),
        0 <= i < history.events.len(),
        history.action(i) is Execute,
    ensures
        i >= 2,
        history.events[i].0 is Ponged,
        history.action(i - 1) is Ping,
        history.events[i - 1].0 is Acquired,
{
    assert(comes_of(history.events[i].0, history.action(i - 1)));
    assert(i - 1 > 0);
}

/// A call whose ping failed gets another connection, as long as its deadline has
/// not come: nothing was sent that could be repeated.
pub proof fn law_failed_ping_is_retried(history: CallHistory, i: int)
    requires
        history.possible(),
        0 <= i < history.events.len(),
        history.events[i].0 is PingFailed,
        history.events[i].1 < history.deadline,
    ensures
        history.action(i) == (CommandAction::Acquire {
            timeout: (history.deadline - history.events[i].1) as u128,
        }),
        forall|k: int| 0 <= k <= i ==> !(#[trigger] history.action(k) is Execute),
{
    assert forall|k: int| 0 <= k <= i implies !(#[trigger] history.action(k) is Execute) by {
        if history.action(k) is Execute && k < i {
            lemma_nothing_after_execute(history, k, i);
        }
    }
}

/// A call reports that there is no host only where it could not get a connection
/// or its deadline has come, and in either case without having sent the request.
pub proof fn law_refused_before_sending(history: CallHistory, i: int)
    requires
        history.possible(),
        0 <= i < history.events.len(),
        history.action(i) is Refuse,
    ensures
        history.events[i].0 is NotAcquired || history.events[i].1 >= history.deadline,
        forall|k: int| 0 <= k <= i ==> !(#[trigger] history.action(k) is Execute),
{
    assert forall|k: int| 0 <= k <= i implies !(#[trigger] history.action(k) is Execute) by {
        if history.action(k) is Execute && k < i {
            lemma_nothing_after_execute(history, k, i);
        }
    }
}

/// The deadline is for the connection alone: once the host has answered the ping,
/// the request is sent, and what becomes of it is reported, at whatever time.
pub proof fn law_deadline_spares_the_command(
    event: CommandEvent,
    now: u128,
    deadline: u128,
    interval: u128,
)
    ensures
        event is Ponged ==> command_transition(event, now, deadline, interval) is Execute,
        event is Answered || event is ExchangeFailed ==> command_transition(
            event,
            now,
            deadline,
            interval,
        ) is Report,
{
}

/// A command that failed is an error, whatever else its response says. One that
/// succeeded is an error only if its program was not found.
pub proof fn law_failed_command_is_an_error(response: Response, result: ToolResult)
    requires
        call_ensures(exec_result, (&response,), result),
    ensures
        response.exit != 0 ==> result.is_error,
        response.exit == 0 ==> (result.is_error <==> response.error is Some
            && response.error->0@ == "not_found"@),
{
}

/// A result holds the exit code and the output of its response, its error exactly if
/// there is one, and nothing else.
pub proof fn law_result_holds_the_response(response: Response, result: ToolResult)
    requires
        call_ensures(exec_result, (&response,), result),
    ensures
        exists|fields: Map<Seq<char>, FieldView>|
            {
                &&& result.text@ == #[trigger] object_text(fields)
                &&& fields.contains_key("exit"@)
                &&& fields["exit"@] == FieldView::Number(response.exit as int)
                &&& fields.contains_key("output"@)
                &&& fields["output"@] == FieldView::Text(response.output@)
                &&& fields.contains_key("error"@) <==> response.error is Some
                &&& response.error is Some ==> fields["error"@] == FieldView::Text(
                    response.error->0@,
                )
                &&& forall|name: Seq<char>| #[trigger]
                    fields.contains_key(name) ==> name == "exit"@ || name == "output"@ || name
                        == "error"@
            },
{
    reveal_strlit("exit");
    reveal_strlit("output");
    reveal_strlit("error");
    assert("exit"@ != "output"@ && "exit"@ != "error"@ && "output"@ != "error"@) by {
        assert("exit"@.len() == 4);
        assert("output"@.len() == 6);
        assert("error"@.len() == 5);
    }
    assert(result.text@ == object_text(response_fields(response@)));
}

/// A call to run a command asks for what it was given, in the name of its agent. Only a
/// call without a command is refused.
pub proof fn law_call_asks_for_what_it_was_given(
    whoami: &str,
    tool: ExecTool,
    r: Result<Request, String>,
)
    requires
        call_ensures(exec_request, (whoami, tool), r),
    ensures
        r is Err <==> tool.argv@.len() == 0,
        r matches Ok(request) ==> {
            &&& request.whoami@ == whoami@
            &&& request.dir@ == tool.dir@
            &&& request.envs@ == tool.env@
            &&& request.clear_env == tool.clear_env
            &&& request.argv@.len() == tool.argv@.len()
            &&& forall|i: int|
                0 <= i < request.argv@.len() ==> (#[trigger] request.argv@[i])@ == tool.argv@[i]@
            &&& request.stdin is Some <==> tool.stdin is Some
            &&& request.stdin is Some ==> request.stdin->0@ == tool.stdin->0@
            &&& request.timeout == tool.timeout
        },
{
    if let Ok(request) = r {
        law_texts_are_those_of_the_list(request.argv@);
        law_texts_are_those_of_the_list(tool.argv@);
        assert forall|i: int| 0 <= i < request.argv@.len() implies (#[trigger] request.argv@[i])@
            == tool.argv@[i]@ by {
            assert(request.argv@[i]@ == texts(request.argv@)[i]);
            assert(tool.argv@[i]@ == texts(tool.argv@)[i]);
        }
    }
}

/// What the tools say without a response: that no host was found is an error of a call
/// to run a command, and an answer to a check.
pub proof fn law_missing_host_is_reported(found: bool, refused: ToolResult, checked: ToolResult)
    requires
        call_ensures(refused_result, (), refused),
        call_ensures(check_host_result, (found,), checked),
    ensures
        refused.is_error,
        refused.text@ == "HOST NOT FOUND"@,
        !checked.is_error,
        found ==> checked.text@ == "HOST RUNNING"@,
        !found ==> checked.text@ == refused.text@,
{
}

/// Up to its deadline a call goes on. It has all the time that is left to get a
/// connection, and a ping on it has what is left up to an interval. At the deadline it is
/// refused, unless the host has answered the ping.
pub proof fn law_call_goes_on_until_its_deadline(
    event: CommandEvent,
    now: u128,
    deadline: u128,
    interval: u128,
    action: CommandAction,
)
    requires
        call_ensures(command_step, (event, now, deadline, interval), action),
    ensures
        event is Began || event is PingFailed ==> if now < deadline {
            action matches CommandAction::Acquire { timeout } && now + timeout == deadline
        } else {
            action is Refuse
        },
        event is Acquired ==> if now < deadline {
            &&& action matches CommandAction::Ping { timeout }
            &&& timeout <= interval
            &&& now + timeout <= deadline
            &&& timeout == interval || now + timeout == deadline
        } else {
            action is Refuse
        },
        event is NotAcquired ==> action is Refuse,
        event is Ponged ==> action is Execute,
        event is Answered || event is ExchangeFailed ==> action is Report,
{
}

/// A lost exchange is an error that tells its reason.
pub proof fn law_lost_exchange_is_an_error(reason: &str, result: ToolResult)
    requires
        call_ensures(failed_result, (reason,), result),
    ensures
        result.is_error,
        result.text@ == reason@,
{
}

} // verus!
