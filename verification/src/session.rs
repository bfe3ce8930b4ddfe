//! The client's side of one connection to the host.

use vstd::prelude::*;

use crate::connection::{step, IncomingView, LineRead, Phase, StepView};
use crate::protocol::{message_of_line, ClientAction, ControlResponse, RequestView};
use crate::text::trimmed_end;

verus! {

/// How far a connection has come.
#[derive(Clone, Copy, Debug, PartialEq, Eq, Structural)]
pub enum SessionPhase {
    /// Nothing has been confirmed.
    Fresh,
    /// The host answered the opening ping.
    Verified,
    /// The host answered a further ping: a request may follow.
    Authorised,
    /// A request was sent, and its response has not come.
    Waiting,
    /// The connection cannot be used any more.
    Broken,
}

/// What happened on a connection.
#[derive(Clone, Copy, Debug, PartialEq, Eq, Structural)]
pub enum SessionEvent {
    /// A ping was sent, and the host answered it.
    Pong,
    /// A ping was not sent or not answered.
    NoPong,
    /// A request was sent.
    RequestSent,
    /// The response came.
    Response,
    /// The request was not sent, or its response did not come.
    NoResponse,
}

/// The phase behind an event.
pub open spec fn session_step(phase: SessionPhase, event: SessionEvent) -> SessionPhase {
    match event {
        SessionEvent::Pong => match phase {
            SessionPhase::Fresh => SessionPhase::Verified,
            SessionPhase::Verified | SessionPhase::Authorised => SessionPhase::Authorised,
            SessionPhase::Waiting | SessionPhase::Broken => SessionPhase::Broken,
        },
        SessionEvent::RequestSent => match phase {
            SessionPhase::Authorised => SessionPhase::Waiting,
            _ => SessionPhase::Broken,
        },
        SessionEvent::Response => match phase {
            SessionPhase::Waiting => SessionPhase::Verified,
            _ => SessionPhase::Broken,
        },
        SessionEvent::NoPong | SessionEvent::NoResponse => SessionPhase::Broken,
    }
}

/// A connection to the host.
#[derive(Debug)]
pub struct HostConnection {
    pub phase: SessionPhase,
}

impl HostConnection {
    /// A connection on which nothing was sent.
    pub fn new() -> (r: Self)
        ensures
            r.phase is Fresh,
    {
        HostConnection { phase: SessionPhase::Fresh }
    }

    /// Notes what happened.
    pub fn advance(&mut self, event: SessionEvent)
        ensures
            final(self).phase == session_step(old(self).phase, event),
    {
        self.phase = match event {
            SessionEvent::Pong => match self.phase {
                SessionPhase::Fresh => SessionPhase::Verified,
                SessionPhase::Verified | SessionPhase::Authorised => SessionPhase::Authorised,
                SessionPhase::Waiting | SessionPhase::Broken => SessionPhase::Broken,
            },
            SessionEvent::RequestSent => match self.phase {
                SessionPhase::Authorised => SessionPhase::Waiting,
                _ => SessionPhase::Broken,
            },
            SessionEvent::Response => match self.phase {
                SessionPhase::Waiting => SessionPhase::Verified,
                _ => SessionPhase::Broken,
            },
            SessionEvent::NoPong | SessionEvent::NoResponse => SessionPhase::Broken,
        };
    }

    /// Whether the host has been confirmed and the next exchange can begin.
    pub fn is_verified(&self) -> (r: bool)
        ensures
            r == (self.phase is Verified || self.phase is Authorised),
    {
        match self.phase {
            SessionPhase::Verified | SessionPhase::Authorised => true,
            _ => false,
        }
    }

    /// Whether a request may be sent: only directly behind a further pong.
    pub fn may_send_request(&self) -> (r: bool)
        ensures
            r == (self.phase is Authorised),
    {
        match self.phase {
            SessionPhase::Authorised => true,
            _ => false,
        }
    }
}

/// The message of a reply line. A host that closed its end sent the empty one.
pub fn reply_message(read: LineRead) -> (r: Result<String, String>)
    ensures
        match read {
            LineRead::Eof => r matches Ok(message) && message@ == Seq::<char>::empty(),
            LineRead::Line(line) => r matches Ok(message) && message@ == trimmed_end(line@),
            LineRead::Failed(reason) => r matches Err(e) && e@ == reason@,
        },
{
    match read {
        LineRead::Eof => Ok(String::new()),
        LineRead::Line(line) => Ok(message_of_line(line.as_str())),
        LineRead::Failed(reason) => Err(reason),
    }
}

/// What a reply to a ping amounts to: only a pong confirms the host.
pub fn ping_outcome(reply: Option<ControlResponse>) -> (r: SessionEvent)
    ensures
        r == match reply {
            Some(ControlResponse::Pong) => SessionEvent::Pong,
            None => SessionEvent::NoPong,
        },
{
    match reply {
        Some(ControlResponse::Pong) => SessionEvent::Pong,
        None => SessionEvent::NoPong,
    }
}

/// Whether the two ends of a connection agree on how far it has come.
pub open spec fn in_step(client: SessionPhase, host: Phase) -> bool {
    match client {
        SessionPhase::Fresh => host is Opening,
        SessionPhase::Verified | SessionPhase::Waiting => host == (Phase::Verified {
            command_pinged: false,
        }),
        SessionPhase::Authorised => host == (Phase::Verified { command_pinged: true }),
        SessionPhase::Broken => true,
    }
}

/// The two ends of a connection stay in step. The host answers every ping that a
/// client sends between exchanges, and runs every request that is sent behind a
/// further ping. When the response has come, the next exchange can begin.
pub proof fn law_client_and_host_stay_in_step(
    client: SessionPhase,
    host: Phase,
    request: RequestView,
)
    requires
        in_step(client, host),
        request.argv.len() > 0,
    ensures
        in_step(SessionPhase::Fresh, Phase::Opening),
        client is Fresh || client is Verified || client is Authorised ==> {
            let (after, action) = step(host, IncomingView::Action(ClientAction::Ping));
            action is Pong && in_step(session_step(client, SessionEvent::Pong), after)
        },
        client is Authorised ==> {
            let (after, action) = step(host, IncomingView::Request(request));
            action == StepView::Run(request) && in_step(
                session_step(client, SessionEvent::RequestSent),
                after,
            )
        },
        client is Waiting ==> in_step(session_step(client, SessionEvent::Response), host),
{
}

/// A client that leaves out the ping before a request gets no response: the host
/// closes the connection.
pub proof fn law_request_without_ping_is_lost(client: SessionPhase, host: Phase, request: RequestView)
    requires
        in_step(client, host),
        client is Fresh || client is Verified,
    ensures
        step(host, IncomingView::Request(request)).0 is Closed,
        step(host, IncomingView::Request(request)).1 is Reject,
{
}

/// The phase behind some events.
pub open spec fn session_after(events: Seq<SessionEvent>) -> SessionPhase
    decreases events.len(),
{
    if events.len() == 0 {
        SessionPhase::Fresh
    } else {
        session_step(session_after(events.drop_last()), events.last())
    }
}

/// A client waits for a response only directly behind a request that was sent
/// directly behind a pong, on a connection whose opening ping was answered too.
pub proof fn law_requests_follow_a_further_pong(events: Seq<SessionEvent>)
    requires
        session_after(events) is Waiting,
    ensures
        events.len() >= 3,
        events[0] is Pong,
        events[events.len() - 2] is Pong,
        events[events.len() - 1] is RequestSent,
{
    let before = events.drop_last();
    assert(session_after(before) is Authorised);
    lemma_session(before);
    assert(before[before.len() - 1] == events[events.len() - 2]);
    assert(before[0] == events[0]);
}

proof fn lemma_session(events: Seq<SessionEvent>)
    ensures
        session_after(events) is Fresh <==> events.len() == 0,
        session_after(events) is Verified || session_after(events) is Waiting || session_after(
            events,
        ) is Authorised ==> events.len() >= 1 && events[0] is Pong,
        session_after(events) is Authorised ==> events.len() >= 2 && events.last() is Pong,
    decreases events.len(),
{
    if events.len() > 0 {
        let before = events.drop_last();
        lemma_session(before);
        if before.len() > 0 {
            assert(before[0] == events[0]);
        }
    }
}

/// A client whose opening ping was answered may attach, and the host then sends it
/// events in the way it asked for.
pub proof fn law_attach_follows_the_opening(host: Phase, ansi: bool)
    requires
        in_step(SessionPhase::Fresh, host),
    ensures
        ({
            let (opened, answer) = step(host, IncomingView::Action(ClientAction::Ping));
            let (after, action) = step(opened, IncomingView::Action(ClientAction::Attach { ansi }));
            &&& answer is Pong
            &&& action == (StepView::Attach { ansi })
            &&& after is Attached
        }),
{
}

/// A session takes its course: the opening pong confirms the host, a further one
/// authorises a request, and when its response has come the session is ready for the
/// next. Further pongs change nothing before the request is sent.
pub proof fn law_session_takes_its_course()
    ensures
        session_step(SessionPhase::Fresh, SessionEvent::Pong) is Verified,
        session_step(SessionPhase::Verified, SessionEvent::Pong) is Authorised,
        session_step(SessionPhase::Authorised, SessionEvent::Pong) is Authorised,
        session_step(SessionPhase::Authorised, SessionEvent::RequestSent) is Waiting,
        session_step(SessionPhase::Waiting, SessionEvent::Response) is Verified,
{
}

/// Anything else that happens breaks a session, and a broken one stays broken.
pub proof fn law_broken_session_stays_broken(
    phase: SessionPhase,
    event: SessionEvent,
    later: SessionEvent,
)
    ensures
        event is NoPong || event is NoResponse ==> session_step(phase, event) is Broken,
        phase is Waiting && !(event is Response) ==> session_step(phase, event) is Broken,
        event is Response && !(phase is Waiting) ==> session_step(phase, event) is Broken,
        event is RequestSent && !(phase is Authorised) ==> session_step(phase, event) is Broken,
        session_step(SessionPhase::Broken, later) is Broken,
{
}

/// A session can be used exactly between exchanges, and a request may be sent exactly
/// behind a further pong. Only a pong answers a ping.
pub proof fn law_session_knows_what_may_follow(
    session: HostConnection,
    verified: bool,
    allowed: bool,
    reply: Option<ControlResponse>,
    event: SessionEvent,
)
    requires
        call_ensures(HostConnection::is_verified, (&session,), verified),
        call_ensures(HostConnection::may_send_request, (&session,), allowed),
        call_ensures(ping_outcome, (reply,), event),
    ensures
        allowed ==> verified,
        verified <==> session_step(session.phase, SessionEvent::Pong) is Authorised,
        allowed <==> session_step(session.phase, SessionEvent::RequestSent) is Waiting,
        reply is Some <==> event is Pong,
        reply is None <==> event is NoPong,
{
}

/// A session that noted what happened is where that leads.
pub proof fn law_session_follows_events(
    session: &mut HostConnection,
    event: SessionEvent,
    allowed: bool,
)
    requires
        call_ensures(HostConnection::advance, (session, event), ()),
        call_ensures(HostConnection::may_send_request, (&*final(session),), allowed),
    ensures
        allowed ==> event is Pong && (old(session).phase is Verified || old(
            session,
        ).phase is Authorised),
        event is Pong && (old(session).phase is Verified || old(session).phase is Authorised)
            ==> allowed,
        final(session).phase is Waiting <==> event is RequestSent && old(session).phase is Authorised,
        old(session).phase is Broken ==> final(session).phase is Broken,
{
}

/// A reply is the message of its line. A host that closed its end replied with nothing,
/// and what could not be read is told.
pub proof fn law_reply_is_the_message_of_its_line(read: LineRead, r: Result<String, String>)
    requires
        call_ensures(reply_message, (read,), r),
    ensures
        r is Err <==> read is Failed,
        read matches LineRead::Failed(reason) ==> r->Err_0@ == reason@,
        read is Eof ==> r->Ok_0@.len() == 0,
        read matches LineRead::Line(line) ==> r->Ok_0@ == trimmed_end(line@),
{
}

/// A session begins with nothing confirmed, and no request may be sent on it.
pub proof fn law_new_session_is_fresh(session: HostConnection, verified: bool, allowed: bool)
    requires
        call_ensures(HostConnection::new, (), session),
        call_ensures(HostConnection::is_verified, (&session,), verified),
        call_ensures(HostConnection::may_send_request, (&session,), allowed),
    ensures
        session.phase is Fresh,
        !verified,
        !allowed,
{
}

} // verus!
