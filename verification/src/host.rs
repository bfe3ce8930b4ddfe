//! The host: taking over its socket, accepting connections, numbering commands
//! and feeding attached clients.

use vstd::prelude::*;

use crate::protocol::{optional_text, HostEvent, TranscriptEntry};

verus! {

/// How long the host waits for the first line of a connection, in milliseconds.
pub const OPENING_TIMEOUT_MILLIS: u64 = 60_000;

/// How long the host waits for a line of the client while a command runs, in
/// milliseconds, before it looks whether the command has ended.
pub const WATCH_INTERVAL_MILLIS: u64 = 100;

/// How long the host waits for an entry for an attached client, in milliseconds,
/// before it looks whether the client is still there.
pub const FEED_INTERVAL_MILLIS: u64 = 250;

/// What came of an attempt to listen on the socket.
#[derive(Debug)]
pub enum BindEvent {
    /// The host listens.
    Bound,
    /// The socket exists.
    InUse,
    /// Something listens on the socket. `verified` says whether it answered a ping.
    Owned { verified: bool },
    /// Nothing listens on the socket.
    Stale,
    /// The socket cannot be used, for the given reason.
    Failed(String),
}

/// What to do about the socket next.
#[derive(Debug)]
pub enum BindStep {
    /// Accept connections.
    Listen,
    /// Connect to the socket, and ping what listens there.
    AskOwner,
    /// Remove the socket, and listen.
    TakeOver,
    /// Give up, for the given reason.
    GiveUp(String),
}

/// Takes the host one step further towards its socket. It takes over a socket that
/// nothing listens on, and no other.
pub fn bind_step(event: BindEvent) -> (r: BindStep)
    ensures
        match event {
            BindEvent::Bound => r is Listen,
            BindEvent::InUse => r is AskOwner,
            BindEvent::Owned { verified: true } => r matches BindStep::GiveUp(reason) && reason@
                == "another rexec host is already running"@,
            BindEvent::Owned { verified: false } => r matches BindStep::GiveUp(reason) && reason@
                == "another listener owns the rexec socket but did not confirm pong"@,
            BindEvent::Stale => r is TakeOver,
            BindEvent::Failed(e) => r matches BindStep::GiveUp(reason) && reason@ == e@,
        },
{
    match event {
        BindEvent::Bound => BindStep::Listen,
        BindEvent::InUse => BindStep::AskOwner,
        BindEvent::Owned { verified } => if verified {
            BindStep::GiveUp("another rexec host is already running".to_owned())
        } else {
            BindStep::GiveUp(
                "another listener owns the rexec socket but did not confirm pong".to_owned(),
            )
        },
        BindEvent::Stale => BindStep::TakeOver,
        BindEvent::Failed(e) => BindStep::GiveUp(e),
    }
}

/// Why the host does not start without its transcript.
pub fn transcript_failure(session: &str, reason: &str) -> (r: String)
    ensures
        r@ == "failed to open transcript "@ + session@ + ": "@ + reason@,
{
    let mut message = "failed to open transcript ".to_owned();
    message.append(session);
    message.append(": ");
    message.append(reason);
    message
}

/// What the host says when it starts: where it listens and what its transcript is.
/// A silent host says nothing.
pub fn start_notice(silent: bool, socket: &str, session: &str) -> (r: Option<String>)
    ensures
        optional_text(r) == if silent {
            None
        } else {
            Some(
                "rexec host listening on "@ + socket@ + "\nrexec transcript: ~/.rexec/"@ + session@
                    + ".jsonl\n"@,
            )
        },
{
    if silent {
        return None;
    }
    let mut notice = "rexec host listening on ".to_owned();
    notice.append(socket);
    notice.append("\nrexec transcript: ~/.rexec/");
    notice.append(session);
    notice.append(".jsonl\n");
    Some(notice)
}

/// What the host says when it ends. A silent host says nothing.
pub fn stop_notice(silent: bool) -> (r: Option<String>)
    ensures
        optional_text(r) == if silent {
            None
        } else {
            Some("rexec host: shutdown\n"@)
        },
{
    if silent {
        None
    } else {
        Some("rexec host: shutdown\n".to_owned())
    }
}

/// What came of waiting for a connection or for the end of the host.
#[derive(Debug)]
pub enum PollEvent {
    /// The wait was interrupted.
    Interrupted,
    /// The wait failed, for the given reason.
    Failed(String),
    /// Something happened: a connection waits, or the host was woken to end.
    Ready { connection: bool, woken: bool },
}

/// What the host does next.
#[derive(Debug)]
pub enum ServeStep {
    /// Wait again.
    Poll,
    /// Accept a connection.
    Accept,
    /// End, with a diagnostic if there is one.
    Stop { diagnostic: Option<String> },
}

/// What the host does after a wait. `shutdown` says whether it was told to end.
pub fn poll_step(event: PollEvent, shutdown: bool) -> (r: ServeStep)
    ensures
        match event {
            PollEvent::Interrupted => if shutdown {
                r == (ServeStep::Stop { diagnostic: None })
            } else {
                r is Poll
            },
            PollEvent::Failed(reason) => r matches ServeStep::Stop { diagnostic: Some(d) } && d@
                == "rexec host: poll error: "@ + reason@,
            PollEvent::Ready { connection, woken } => if shutdown || woken {
                r == (ServeStep::Stop { diagnostic: None })
            } else if connection {
                r is Accept
            } else {
                r is Poll
            },
        },
{
    match event {
        PollEvent::Interrupted => if shutdown {
            ServeStep::Stop { diagnostic: None }
        } else {
            ServeStep::Poll
        },
        PollEvent::Failed(reason) => {
            let mut diagnostic = "rexec host: poll error: ".to_owned();
            diagnostic.append(reason.as_str());
            ServeStep::Stop { diagnostic: Some(diagnostic) }
        },
        PollEvent::Ready { connection, woken } => if shutdown || woken {
            ServeStep::Stop { diagnostic: None }
        } else if connection {
            ServeStep::Accept
        } else {
            ServeStep::Poll
        },
    }
}

/// What the host does about a connection that could not be accepted: it ends
/// without a word if it was told to, and otherwise says so and goes on.
pub fn accept_failure(reason: &str, shutdown: bool) -> (r: Option<String>)
    ensures
        optional_text(r) == if shutdown {
            None
        } else {
            Some("rexec host: accept error: "@ + reason@)
        },
{
    if shutdown {
        return None;
    }
    let mut diagnostic = "rexec host: accept error: ".to_owned();
    diagnostic.append(reason);
    Some(diagnostic)
}

/// The numbers of commands, in the order of their arrival.
#[derive(Debug)]
pub struct Arrivals {
    /// How many commands have arrived.
    pub count: u64,
}

impl Arrivals {
    /// No command has arrived.
    pub fn new() -> (r: Self)
        ensures
            r.count == 0,
    {
        Arrivals { count: 0 }
    }

    /// Numbers a command that arrives: the first is zero, and each gets the number
    /// behind that of the one before.
    pub fn number(&mut self) -> (r: u64)
        requires
            old(self).count < u64::MAX,
        ensures
            r == old(self).count,
            final(self).count == old(self).count + 1,
    {
        let number: u64 = self.count;
        self.count = self.count + 1;
        number
    }
}

/// What a look at the other end of a connection shows, without taking anything
/// from it.
#[derive(Clone, Copy, Debug, PartialEq, Eq, Structural)]
pub enum Peek {
    /// The other end was closed.
    Eof,
    /// Something waits to be read.
    Data,
    /// Nothing waits to be read.
    Empty,
    /// The look was interrupted.
    Interrupted,
    /// The look failed.
    Failed,
}

/// Whether the other end of a connection is gone.
pub fn attachment_disconnected(peek: Peek) -> (r: bool)
    ensures
        r == (peek is Eof || peek is Failed),
{
    match peek {
        Peek::Eof | Peek::Failed => true,
        Peek::Data | Peek::Empty | Peek::Interrupted => false,
    }
}

/// What came of waiting for an entry for an attached client.
#[derive(Debug)]
pub enum FeedEvent {
    /// A command completed.
    Entry(TranscriptEntry),
    /// None did, and the client's end looks like this.
    Quiet(Peek),
    /// The transcript takes no more entries.
    Closed,
}

/// What to do for an attached client next.
#[derive(Debug)]
pub enum FeedStep {
    /// Send this event, and wait for the next entry.
    Send(HostEvent),
    /// Wait for the next entry.
    Wait,
    /// Close the connection.
    Close,
}

/// Takes the feed of an attached client one step further.
pub fn feed_step(event: FeedEvent) -> (r: FeedStep)
    ensures
        match event {
            FeedEvent::Entry(entry) => r == FeedStep::Send(HostEvent::Transcript { entry }),
            FeedEvent::Quiet(peek) => if peek is Eof || peek is Failed {
                r is Close
            } else {
                r is Wait
            },
            FeedEvent::Closed => r is Close,
        },
{
    match event {
        FeedEvent::Entry(entry) => FeedStep::Send(HostEvent::Transcript { entry }),
        FeedEvent::Quiet(peek) => if attachment_disconnected(peek) {
            FeedStep::Close
        } else {
            FeedStep::Wait
        },
        FeedEvent::Closed => FeedStep::Close,
    }
}

/// A host takes over a socket exactly if nothing listens on it, accepts connections only
/// when it listens itself, and gives up with the reason.
pub proof fn law_only_a_stale_socket_is_taken_over(event: BindEvent, step: BindStep)
    requires
        call_ensures(bind_step, (event,), step),
    ensures
        step is TakeOver <==> event is Stale,
        step is Listen <==> event is Bound,
        step is AskOwner <==> event is InUse,
        event matches BindEvent::Failed(reason) ==> step->GiveUp_0@ == reason@,
        event matches BindEvent::Owned { verified } ==> step->GiveUp_0@ == if verified {
            "another rexec host is already running"@
        } else {
            "another listener owns the rexec socket but did not confirm pong"@
        },
{
}

/// A host that was told to end, or woken for it, accepts nothing more and says nothing.
/// One that was not goes on, unless it cannot wait any more, and accepts what waits.
pub proof fn law_host_serves_until_told_to_end(event: PollEvent, shutdown: bool, step: ServeStep)
    requires
        call_ensures(poll_step, (event, shutdown), step),
    ensures
        step is Accept <==> !shutdown && event == (PollEvent::Ready {
            connection: true,
            woken: false,
        }),
        step is Stop <==> shutdown || event is Failed || (event is Ready && event->woken),
        step matches ServeStep::Stop { diagnostic } ==> {
            &&& diagnostic is Some <==> event is Failed
            &&& event matches PollEvent::Failed(reason) ==> diagnostic->0@
                == "rexec host: poll error: "@ + reason@
        },
{
}

/// A silent host says nothing of its start and its end. Another says where it listens and
/// what its transcript is.
pub proof fn law_silent_host_says_nothing(
    silent: bool,
    socket: &str,
    session: &str,
    start: Option<String>,
    stop: Option<String>,
)
    requires
        call_ensures(start_notice, (silent, socket, session), start),
        call_ensures(stop_notice, (silent,), stop),
    ensures
        start is None <==> silent,
        stop is None <==> silent,
        !silent ==> start->0@ == "rexec host listening on "@ + socket@
            + "\nrexec transcript: ~/.rexec/"@ + session@ + ".jsonl\n"@,
        !silent ==> stop->0@ == "rexec host: shutdown\n"@,
{
}

/// Failures are told with their reasons. A host that ends does not tell of connections
/// that it could not accept.
pub proof fn law_host_tells_what_failed(
    session: &str,
    reason: &str,
    shutdown: bool,
    unopened: String,
    unaccepted: Option<String>,
)
    requires
        call_ensures(transcript_failure, (session, reason), unopened),
        call_ensures(accept_failure, (reason, shutdown), unaccepted),
    ensures
        unopened@ == "failed to open transcript "@ + session@ + ": "@ + reason@,
        unaccepted is None <==> shutdown,
        unaccepted is Some ==> unaccepted->0@ == "rexec host: accept error: "@ + reason@,
{
}

/// An attached client gets every entry as it is. It is let go exactly if its end is gone
/// or the transcript is closed.
pub proof fn law_attached_client_is_fed(event: FeedEvent, step: FeedStep, peek: Peek, gone: bool)
    requires
        call_ensures(feed_step, (event,), step),
        call_ensures(attachment_disconnected, (peek,), gone),
    ensures
        event matches FeedEvent::Entry(entry) ==> step == FeedStep::Send(
            HostEvent::Transcript { entry },
        ),
        step is Send <==> event is Entry,
        step is Close <==> event is Closed || (event is Quiet && (event->Quiet_0 is Eof
            || event->Quiet_0 is Failed)),
        gone <==> !(peek is Data) && !(peek is Empty) && !(peek is Interrupted),
{
}

/// Commands are numbered from zero on, each by one more than the one before.
pub proof fn law_commands_are_numbered_in_order(
    arrivals: &mut Arrivals,
    later: &mut Arrivals,
    number: u64,
    next: u64,
)
    requires
        call_ensures(Arrivals::number, (arrivals,), number),
        call_ensures(Arrivals::number, (later,), next),
        *old(later) == *final(arrivals),
    ensures
        call_ensures(Arrivals::new, (), *old(arrivals)) ==> number == 0,
        next == number + 1,
        final(arrivals).count == old(arrivals).count + 1,
{
}

/// The host waits a minute for the first line of a connection, and looks ten times a
/// second whether a command has ended and four times whether an attached client is there.
pub proof fn law_times_of_the_host()
    ensures
        OPENING_TIMEOUT_MILLIS == 60 * 1000,
        10 * WATCH_INTERVAL_MILLIS == 1000,
        4 * FEED_INTERVAL_MILLIS == 1000,
{
}

} // verus!
