//! A pool of verified connections to the host.
//!
//! Calls reuse idle connections and open further ones when all are busy. A worker
//! in the background opens one when the pool has neither. Times are in
//! nanoseconds.

use vstd::prelude::*;

use crate::lists::{
    keep, kept, law_marked_items_keep_their_places, lemma_kept_differ, lemma_push_new,
};

verus! {

/// How long to wait between attempts to connect, in nanoseconds.
pub const RECONNECT_INTERVAL: u128 = 1_000_000_000;

/// How long a tool call may take to get a connection, in nanoseconds.
pub const TOOL_CONNECT_TIMEOUT: u128 = 15_000_000_000;

/// The time for one attempt: what is left until the deadline, up to an interval.
/// None at the deadline.
pub open spec fn attempt_budget(now: u128, deadline: u128, interval: u128) -> Option<u128> {
    if now >= deadline {
        None
    } else if deadline - now <= interval {
        Some((deadline - now) as u128)
    } else {
        Some(interval)
    }
}

/// The time for one attempt, if any is left.
pub fn budget(now: u128, deadline: u128, interval: u128) -> (r: Option<u128>)
    ensures
        r == attempt_budget(now, deadline, interval),
{
    if now >= deadline {
        None
    } else if deadline - now <= interval {
        Some(deadline - now)
    } else {
        Some(interval)
    }
}

/// The connections of a pool.
#[derive(Debug)]
pub struct ConnectionState<C> {
    /// Those that nobody uses.
    pub idle: Vec<C>,
    /// How many are in use.
    pub active: usize,
    /// How often the worker has tried to connect.
    pub attempts: u64,
}

/// What a [`ConnectionState`] says.
#[verifier::ext_equal]
pub struct PoolView<C> {
    pub idle: Seq<C>,
    pub active: nat,
    pub attempts: nat,
}

impl<C> View for ConnectionState<C> {
    type V = PoolView<C>;

    open spec fn view(&self) -> PoolView<C> {
        PoolView {
            idle: self.idle@,
            active: self.active as nat,
            attempts: self.attempts as nat,
        }
    }
}

impl<C> PoolView<C> {
    /// One more connection is in use.
    pub open spec fn leased(self) -> PoolView<C> {
        PoolView { active: self.active + 1, ..self }
    }

    /// A connection is no longer in use. It is idle if it comes back.
    pub open spec fn released(self, returned: Option<C>) -> PoolView<C> {
        PoolView { active: (self.active - 1) as nat, ..self }.put_back(returned)
    }

    /// A connection is idle, if there is one.
    pub open spec fn put_back(self, connection: Option<C>) -> PoolView<C> {
        match connection {
            Some(c) => PoolView { idle: self.idle.push(c), ..self },
            None => self,
        }
    }

    /// The worker has tried to connect once more. The count starts again behind
    /// its largest value.
    pub open spec fn attempted(self, connection: Option<C>) -> PoolView<C> {
        PoolView {
            attempts: if self.attempts == u64::MAX {
                0
            } else {
                self.attempts + 1
            },
            ..self
        }.put_back(connection)
    }

    /// Of the idle connections, only those whose other end is still there.
    pub open spec fn pruned(self, connected: Seq<bool>) -> PoolView<C> {
        PoolView { idle: kept(self.idle, connected), ..self }
    }
}

/// What has happened to a call that wants a connection.
#[derive(Debug)]
pub enum AcquireEvent<C> {
    /// It began, or was woken.
    Look,
    /// An idle connection was taken out of the pool, and its other end looked at.
    Probed { connection: C, disconnected: bool },
    /// A connection was opened and verified.
    Connected(C),
    /// No connection could be opened.
    ConnectFailed,
}

/// What a call that wants a connection does next.
#[derive(Debug)]
pub enum AcquireAction<C> {
    /// Look whether the other end of this connection is still there.
    Probe(C),
    /// Open and verify a connection, within this time.
    Connect { timeout: u128 },
    /// Wait until the pool changes, for at most this time.
    Wait { timeout: u128 },
    /// Use this connection.
    Lease(C),
    /// Give up.
    Refuse,
}

/// What a call does about the pool as it is: it takes the idle connection that
/// came back last, or opens one.
pub open spec fn look_at_pool<C>(
    pool: PoolView<C>,
    now: u128,
    deadline: u128,
    interval: u128,
) -> (PoolView<C>, AcquireAction<C>) {
    if pool.idle.len() > 0 {
        (
            PoolView { idle: pool.idle.drop_last(), ..pool },
            AcquireAction::Probe(pool.idle.last()),
        )
    } else {
        match attempt_budget(now, deadline, interval) {
            Some(timeout) => (pool, AcquireAction::Connect { timeout }),
            None => (pool, AcquireAction::Refuse),
        }
    }
}

/// What a call does about an event, and what becomes of the pool.
pub open spec fn acquire_transition<C>(
    pool: PoolView<C>,
    event: AcquireEvent<C>,
    now: u128,
    deadline: u128,
    interval: u128,
) -> (PoolView<C>, AcquireAction<C>) {
    match event {
        AcquireEvent::Look => look_at_pool(pool, now, deadline, interval),
        AcquireEvent::Probed { connection, disconnected } => if disconnected {
            look_at_pool(pool, now, deadline, interval)
        } else {
            (pool.leased(), AcquireAction::Lease(connection))
        },
        AcquireEvent::Connected(connection) => (pool.leased(), AcquireAction::Lease(connection)),
        AcquireEvent::ConnectFailed => if pool.idle.len() > 0 {
            look_at_pool(pool, now, deadline, interval)
        } else {
            match attempt_budget(now, deadline, interval) {
                Some(timeout) => (pool, AcquireAction::Wait { timeout }),
                None => (pool, AcquireAction::Refuse),
            }
        },
    }
}

/// What the worker has found or done.
#[derive(Debug)]
pub enum WorkerEvent<C> {
    /// It looked whether the other end of every idle connection is still there, in
    /// order.
    Probed { connected: Vec<bool> },
    /// It opened and verified a connection.
    Connected(C),
    /// It could not open one.
    ConnectFailed,
}

/// What the worker does next.
#[derive(Clone, Copy, Debug, PartialEq, Eq, Structural)]
pub enum WorkerAction {
    /// Wait until the pool changes, for at most an interval, and probe again.
    Wait,
    /// Open and verify a connection, within an interval.
    Connect,
    /// Sleep for an interval, and probe again.
    Sleep,
    /// Probe again.
    Probe,
}

/// What the worker does about an event, and what becomes of the pool.
pub open spec fn worker_transition<C>(pool: PoolView<C>, event: WorkerEvent<C>) -> (
    PoolView<C>,
    WorkerAction,
) {
    match event {
        WorkerEvent::Probed { connected } => {
            let rest = pool.pruned(connected@);
            if rest.idle.len() > 0 || rest.active > 0 {
                (rest, WorkerAction::Wait)
            } else {
                (rest, WorkerAction::Connect)
            }
        },
        WorkerEvent::Connected(connection) => (
            pool.attempted(Some(connection)),
            WorkerAction::Probe,
        ),
        WorkerEvent::ConnectFailed => (pool.attempted(None), WorkerAction::Sleep),
    }
}

impl<C> ConnectionState<C> {
    /// A pool without connections.
    pub fn new() -> (r: Self)
        ensures
            r@ == (PoolView { idle: Seq::<C>::empty(), active: 0, attempts: 0 }),
    {
        ConnectionState { idle: Vec::new(), active: 0, attempts: 0 }
    }

    fn look(&mut self, now: u128, deadline: u128, interval: u128) -> (r: AcquireAction<C>)
        ensures
            (final(self)@, r) == look_at_pool(old(self)@, now, deadline, interval),
    {
        match self.idle.pop() {
            Some(connection) => AcquireAction::Probe(connection),
            None => match budget(now, deadline, interval) {
                Some(timeout) => AcquireAction::Connect { timeout },
                None => AcquireAction::Refuse,
            },
        }
    }

    /// Takes a call that wants a connection one step further.
    pub fn acquire_step(
        &mut self,
        event: AcquireEvent<C>,
        now: u128,
        deadline: u128,
        interval: u128,
    ) -> (r: AcquireAction<C>)
        requires
            old(self).active < usize::MAX,
        ensures
            (final(self)@, r) == acquire_transition(old(self)@, event, now, deadline, interval),
    {
        match event {
            AcquireEvent::Look => self.look(now, deadline, interval),
            AcquireEvent::Probed { connection, disconnected } => {
                if disconnected {
                    self.look(now, deadline, interval)
                } else {
                    self.active = self.active + 1;
                    AcquireAction::Lease(connection)
                }
            },
            AcquireEvent::Connected(connection) => {
                self.active = self.active + 1;
                AcquireAction::Lease(connection)
            },
            AcquireEvent::ConnectFailed => {
                if self.idle.len() > 0 {
                    self.look(now, deadline, interval)
                } else {
                    match budget(now, deadline, interval) {
                        Some(timeout) => AcquireAction::Wait { timeout },
                        None => AcquireAction::Refuse,
                    }
                }
            },
        }
    }

    /// Ends the use of a connection, which comes back if it may be used again.
    pub fn release(&mut self, returned: Option<C>)
        requires
            old(self).active > 0,
        ensures
            final(self)@ == old(self)@.released(returned),
    {
        self.active = self.active - 1;
        if let Some(connection) = returned {
            self.idle.push(connection);
        }
    }

    fn record_attempt(&mut self, connection: Option<C>)
        ensures
            final(self)@ == old(self)@.attempted(connection),
    {
        self.attempts = self.attempts.wrapping_add(1);
        if let Some(c) = connection {
            self.idle.push(c);
        }
    }

    fn prune(&mut self, connected: &Vec<bool>)
        requires
            connected@.len() == old(self).idle@.len(),
        ensures
            final(self)@ == old(self)@.pruned(connected@),
    {
        let mut idle: Vec<C> = Vec::new();
        std::mem::swap(&mut self.idle, &mut idle);
        self.idle = keep(idle, connected);
    }

    /// Takes the worker one step further.
    pub fn worker_step(&mut self, event: WorkerEvent<C>) -> (r: WorkerAction)
        requires
            event matches WorkerEvent::Probed { connected } ==> connected@.len() == old(
                self,
            ).idle@.len(),
        ensures
            (final(self)@, r) == worker_transition(old(self)@, event),
    {
        match event {
            WorkerEvent::Probed { connected } => {
                self.prune(&connected);
                if self.idle.len() > 0 || self.active > 0 {
                    WorkerAction::Wait
                } else {
                    WorkerAction::Connect
                }
            },
            WorkerEvent::Connected(connection) => {
                self.record_attempt(Some(connection));
                WorkerAction::Probe
            },
            WorkerEvent::ConnectFailed => {
                self.record_attempt(None);
                WorkerAction::Sleep
            },
        }
    }
}

/// A connection in use, and whether it may be used again.
#[derive(Clone, Copy, Debug)]
pub struct ConnectionLease {
    pub reusable: bool,
}

impl ConnectionLease {
    /// A connection that nothing was sent on yet.
    pub fn new() -> (r: Self)
        ensures
            r.reusable,
    {
        ConnectionLease { reusable: true }
    }

    /// An exchange with the host begins. Until it has succeeded, nobody knows what
    /// the next line on the connection will be.
    pub fn begin_exchange(&mut self)
        ensures
            !final(self).reusable,
    {
        self.reusable = false;
    }

    /// An exchange with the host ended.
    pub fn end_exchange(&mut self, succeeded: bool)
        ensures
            final(self).reusable == (old(self).reusable || succeeded),
    {
        if succeeded {
            self.reusable = true;
        }
    }

    /// What the pool gets back: the connection, if it may be used again.
    pub fn returned<C>(&self, connection: C) -> (r: Option<C>)
        ensures
            r == if self.reusable {
                Some(connection)
            } else {
                None::<C>
            },
    {
        if self.reusable {
            Some(connection)
        } else {
            None
        }
    }
}

/// A call gives up only at its deadline, and only when no connection is at hand.
pub proof fn law_refused_only_at_deadline<C>(
    pool: PoolView<C>,
    event: AcquireEvent<C>,
    now: u128,
    deadline: u128,
    interval: u128,
)
    requires
        acquire_transition(pool, event, now, deadline, interval).1 is Refuse,
    ensures
        now >= deadline,
        pool.idle.len() == 0,
        acquire_transition(pool, event, now, deadline, interval).0 == pool,
        !(event is Connected),
        event matches AcquireEvent::Probed { disconnected, .. } ==> disconnected,
{
}

/// No attempt and no wait lasts longer than an interval or beyond the deadline,
/// and none is empty.
pub proof fn law_attempts_are_bounded<C>(
    pool: PoolView<C>,
    event: AcquireEvent<C>,
    now: u128,
    deadline: u128,
    interval: u128,
    timeout: u128,
)
    requires
        interval > 0,
        ({
            let action = acquire_transition(pool, event, now, deadline, interval).1;
            action == AcquireAction::<C>::Connect { timeout } || action == AcquireAction::<C>::Wait {
                timeout,
            }
        }),
    ensures
        0 < timeout <= interval,
        now + timeout <= deadline,
{
}

/// Idle connections are reused: a call that finds one looks at the one that came
/// back last, and uses it if its other end is still there. A call opens a
/// connection only when none is idle.
pub proof fn law_idle_connections_are_reused<C>(
    pool: PoolView<C>,
    event: AcquireEvent<C>,
    now: u128,
    deadline: u128,
    interval: u128,
)
    ensures
        pool.idle.len() > 0 ==> acquire_transition(
            pool,
            AcquireEvent::Look,
            now,
            deadline,
            interval,
        ).1 == AcquireAction::Probe(pool.idle.last()),
        event matches AcquireEvent::Probed { connection, disconnected: false }
            ==> acquire_transition(pool, event, now, deadline, interval).1
            == AcquireAction::Lease(connection),
        acquire_transition(pool, event, now, deadline, interval).1 is Connect ==> pool.idle.len()
            == 0,
{
}

/// A call does not depend on the worker: before its deadline it opens a connection
/// itself when none is idle, however many are busy, and uses what it opened.
pub proof fn law_call_opens_its_own_connection<C>(
    pool: PoolView<C>,
    connection: C,
    now: u128,
    deadline: u128,
    interval: u128,
)
    requires
        pool.idle.len() == 0,
        now < deadline,
    ensures
        acquire_transition(pool, AcquireEvent::<C>::Look, now, deadline, interval).1 is Connect,
        acquire_transition(
            pool,
            AcquireEvent::Connected(connection),
            now,
            deadline,
            interval,
        ).1 == AcquireAction::Lease(connection),
{
}

/// While a connection is in use, however long, the worker opens none. When none is
/// in use and none is left idle, it opens one, and it tries again after a failure.
pub proof fn law_worker_keeps_to_an_empty_pool<C>(pool: PoolView<C>, event: WorkerEvent<C>)
    ensures
        pool.active > 0 ==> !(worker_transition(pool, event).1 is Connect),
        event matches WorkerEvent::Probed { connected } && pool.active == 0 && pool.pruned(
            connected@,
        ).idle.len() == 0 ==> worker_transition(pool, event).1 is Connect,
        event is ConnectFailed ==> worker_transition(pool, event).1 is Sleep,
{
}

/// The pool counts the connections in use: one more for every lease, one less for
/// every release, and nothing else changes the count.
pub proof fn law_active_counts_leases<C>(
    pool: PoolView<C>,
    event: AcquireEvent<C>,
    work: WorkerEvent<C>,
    returned: Option<C>,
    now: u128,
    deadline: u128,
    interval: u128,
)
    ensures
        ({
            let (after, action) = acquire_transition(pool, event, now, deadline, interval);
            after.active == if action is Lease {
                pool.active + 1
            } else {
                pool.active
            }
        }),
        worker_transition(pool, work).0.active == pool.active,
        pool.active > 0 ==> pool.released(returned).active == pool.active - 1,
{
}

/// A connection that comes back is the next one taken. One that does not come back
/// leaves the idle connections as they were.
pub proof fn law_returned_connection_is_next<C>(
    pool: PoolView<C>,
    connection: C,
    now: u128,
    deadline: u128,
    interval: u128,
)
    ensures
        acquire_transition(
            pool.released(Some(connection)),
            AcquireEvent::Look,
            now,
            deadline,
            interval,
        ).1 == AcquireAction::Probe(connection),
        pool.released(None::<C>).idle == pool.idle,
{
}

/// Whether an event can come of what a call did before.
pub open spec fn follows_from<C>(event: AcquireEvent<C>, action: AcquireAction<C>) -> bool {
    match action {
        AcquireAction::Probe(c) => event matches AcquireEvent::Probed { connection, .. }
            && connection == c,
        AcquireAction::Connect { .. } => event is Connected || event is ConnectFailed,
        AcquireAction::Wait { .. } => event is Look,
        AcquireAction::Lease(_) | AcquireAction::Refuse => false,
    }
}

/// A step of a call that wants a connection: the pool as it found it, what happened,
/// and the time since the call began.
pub struct AcquireStep<C> {
    pub pool: PoolView<C>,
    pub event: AcquireEvent<C>,
    pub now: u128,
}

/// A whole call that wants a connection. Others may use the pool between its steps.
pub struct AcquireHistory<C> {
    pub steps: Seq<AcquireStep<C>>,
    pub deadline: u128,
    pub interval: u128,
}

impl<C> AcquireHistory<C> {
    /// What the call does in step `i`.
    pub open spec fn action(self, i: int) -> AcquireAction<C> {
        let step = self.steps[i];
        acquire_transition(step.pool, step.event, step.now, self.deadline, self.interval).1
    }

    /// The pool behind step `i`.
    pub open spec fn after(self, i: int) -> PoolView<C> {
        let step = self.steps[i];
        acquire_transition(step.pool, step.event, step.now, self.deadline, self.interval).0
    }

    /// Whether the call began by looking at the pool, and every later event came of
    /// what it did before.
    pub open spec fn possible(self) -> bool {
        &&& self.steps.len() > 0
        &&& self.steps[0].event is Look
        &&& forall|i: int|
            0 < i < self.steps.len() ==> follows_from(
                (#[trigger] self.steps[i]).event,
                self.action(i - 1),
            )
    }

    /// The number of the last step.
    pub open spec fn last(self) -> int {
        self.steps.len() - 1
    }
}

/// A call that is refused has waited until its deadline, has got no connection, and
/// leaves the count of connections in use as it was.
pub proof fn law_refused_call<C>(call: AcquireHistory<C>)
    requires
        call.possible(),
        call.action(call.last()) is Refuse,
    ensures
        call.steps[call.last()].now >= call.deadline,
        forall|i: int|
            0 <= i < call.steps.len() ==> {
                &&& !(#[trigger] call.action(i) is Lease)
                &&& call.after(i).active == call.steps[i].pool.active
                &&& !(call.steps[i].event is Connected)
                &&& call.steps[i].event matches AcquireEvent::Probed { disconnected, .. }
                    ==> disconnected
            },
{
    assert forall|i: int| 0 <= i < call.steps.len() implies !(#[trigger] call.action(
        i,
    ) is Lease) by {
        if i < call.last() {
            assert(follows_from(call.steps[i + 1].event, call.action(i)));
        }
    }
}

/// A call that gets a connection counts it once, in its last step. The connection is
/// an idle one whose other end is still there, or one that the call opened and
/// verified itself when none was idle.
pub proof fn law_leased_call<C>(call: AcquireHistory<C>, connection: C)
    requires
        call.possible(),
        call.action(call.last()) == AcquireAction::Lease(connection),
    ensures
        call.last() >= 1,
        call.after(call.last()).active == call.steps[call.last()].pool.active + 1,
        forall|i: int|
            0 <= i < call.last() ==> {
                &&& !(#[trigger] call.action(i) is Lease)
                &&& call.after(i).active == call.steps[i].pool.active
            },
        ({
            let before = call.steps[call.last() - 1].pool;
            ||| {
                &&& call.steps[call.last()].event == (AcquireEvent::Probed {
                    connection,
                    disconnected: false,
                })
                &&& before.idle.len() > 0
                &&& before.idle.last() == connection
            }
            ||| {
                &&& call.steps[call.last()].event == AcquireEvent::Connected(connection)
                &&& call.action(call.last() - 1) is Connect
                &&& before.idle.len() == 0
            }
        }),
{
    assert forall|i: int| 0 <= i < call.last() implies !(#[trigger] call.action(i) is Lease) by {
        assert(follows_from(call.steps[i + 1].event, call.action(i)));
    }
    if call.last() >= 1 {
        assert(follows_from(call.steps[call.last()].event, call.action(call.last() - 1)));
    }
}

/// A pool and who holds its connections: calls that look at one, and leases.
#[verifier::reject_recursive_types(C)]
pub struct PoolWorld<C> {
    pub pool: PoolView<C>,
    pub probed: Set<C>,
    pub leased: Set<C>,
}

/// What can happen to a pool.
pub enum PoolMove<C> {
    /// A call takes a step.
    Acquire { event: AcquireEvent<C>, now: u128, deadline: u128, interval: u128 },
    /// A lease ends.
    Release { connection: C, reusable: bool },
    /// The worker takes a step.
    Work(WorkerEvent<C>),
}

impl<C> PoolWorld<C> {
    /// Whether nobody holds this connection.
    pub open spec fn is_new(self, c: C) -> bool {
        !self.pool.idle.contains(c) && !self.probed.contains(c) && !self.leased.contains(c)
    }

    /// Whether every connection has one holder, and the pool counts the leases.
    pub open spec fn sound(self) -> bool {
        &&& self.pool.idle.no_duplicates()
        &&& forall|c: C| #[trigger]
            self.pool.idle.contains(c) ==> !self.probed.contains(c) && !self.leased.contains(c)
        &&& forall|c: C| #[trigger] self.probed.contains(c) ==> !self.leased.contains(c)
        &&& self.leased.finite()
        &&& self.leased.len() == self.pool.active
    }

    /// Whether a move can happen: a call that looked at a connection holds it, one
    /// that was opened is new, and a lease that ends is one.
    pub open spec fn can(self, m: PoolMove<C>) -> bool {
        match m {
            PoolMove::Acquire { event, .. } => match event {
                AcquireEvent::Probed { connection, .. } => self.probed.contains(connection),
                AcquireEvent::Connected(connection) => self.is_new(connection),
                AcquireEvent::Look | AcquireEvent::ConnectFailed => true,
            },
            PoolMove::Release { connection, .. } => self.leased.contains(connection),
            PoolMove::Work(event) => match event {
                WorkerEvent::Probed { connected } => connected@.len()
                    == self.pool.idle.len(),
                WorkerEvent::Connected(connection) => self.is_new(connection),
                WorkerEvent::ConnectFailed => true,
            },
        }
    }

    /// What a call does in a step.
    pub open spec fn call_action(self, m: PoolMove<C>) -> AcquireAction<C> {
        acquire_transition(self.pool, m->event, m->now, m->deadline, m->interval).1
    }

    /// The pool and its holders behind a move.
    pub open spec fn after(self, m: PoolMove<C>) -> PoolWorld<C> {
        match m {
            PoolMove::Acquire { event, now, deadline, interval } => {
                let (pool, action) = acquire_transition(self.pool, event, now, deadline, interval);
                let rest = match event {
                    AcquireEvent::Probed { connection, .. } => self.probed.remove(connection),
                    _ => self.probed,
                };
                PoolWorld {
                    pool,
                    probed: match action {
                        AcquireAction::Probe(c) => rest.insert(c),
                        _ => rest,
                    },
                    leased: match action {
                        AcquireAction::Lease(c) => self.leased.insert(c),
                        _ => self.leased,
                    },
                }
            },
            PoolMove::Release { connection, reusable } => PoolWorld {
                pool: self.pool.released(
                    if reusable {
                        Some(connection)
                    } else {
                        None
                    },
                ),
                leased: self.leased.remove(connection),
                ..self
            },
            PoolMove::Work(event) => PoolWorld {
                pool: worker_transition(self.pool, event).0,
                ..self
            },
        }
    }
}

/// Whatever happens to a pool, every connection has one holder: it is idle, or one call
/// looks at it, or one lease uses it. The pool counts the leases. So it is at the
/// start, and so it stays.
pub proof fn law_every_connection_has_one_holder<C>(world: PoolWorld<C>, m: PoolMove<C>)
    requires
        world.sound(),
        world.can(m),
    ensures
        (PoolWorld {
            pool: PoolView { idle: Seq::<C>::empty(), active: 0, attempts: 0 },
            probed: Set::empty(),
            leased: Set::empty(),
        }).sound(),
        world.after(m).sound(),
{
    let after = world.after(m);
    let idle = world.pool.idle;
    match m {
        PoolMove::Acquire { event, now, deadline, interval } => {
            let action = acquire_transition(world.pool, event, now, deadline, interval).1;
            if action is Probe {
                let c = idle.last();
                assert(idle[idle.len() - 1] == c);
                assert(after.pool.idle == idle.drop_last());
                assert forall|d: C| #[trigger] after.pool.idle.contains(d) implies idle.contains(d)
                    && d != c by {
                    let k = choose|k: int| 0 <= k < idle.len() - 1 && idle.drop_last()[k] == d;
                    assert(idle[k] == d);
                }
                assert(idle.contains(c));
            } else {
                assert(after.pool.idle == idle);
            }
        },
        PoolMove::Release { connection, .. } => {
            assert(!idle.contains(connection));
            lemma_push_new(idle, connection);
        },
        PoolMove::Work(event) => match event {
            WorkerEvent::Probed { connected } => {
                lemma_kept_differ(idle, connected@);
            },
            WorkerEvent::Connected(connection) => {
                lemma_push_new(idle, connection);
            },
            WorkerEvent::ConnectFailed => {},
        },
    }
}

/// A connection that a call gets belongs to no other lease, is looked at by no other
/// call, and is not idle.
pub proof fn law_lease_is_exclusive<C>(world: PoolWorld<C>, m: PoolMove<C>, connection: C)
    requires
        world.sound(),
        m is Acquire,
        world.can(m),
        world.call_action(m) == AcquireAction::Lease(connection),
    ensures
        !world.leased.contains(connection),
        world.after(m).leased == world.leased.insert(connection),
        !world.after(m).pool.idle.contains(connection),
        !world.after(m).probed.contains(connection),
        world.after(m).pool.active == world.pool.active + 1,
{
}

/// An attempt has what is left until the deadline, up to an interval, and there is none
/// exactly at the deadline.
pub proof fn law_attempt_has_the_time_left(
    now: u128,
    deadline: u128,
    interval: u128,
    r: Option<u128>,
)
    requires
        call_ensures(budget, (now, deadline, interval), r),
    ensures
        r is None <==> now >= deadline,
        r matches Some(timeout) ==> {
            &&& timeout <= interval
            &&& now + timeout <= deadline
            &&& timeout == interval || now + timeout == deadline
        },
{
}

/// What a call does when it finds a pool as it is: it looks at the idle connection that
/// came back last and takes that one alone from the pool. Without one it opens a
/// connection, and behind a failure waits, with the time that is left up to an interval.
/// At its deadline it gives up.
pub proof fn law_call_takes_one_connection<C>(
    pool: PoolView<C>,
    event: AcquireEvent<C>,
    now: u128,
    deadline: u128,
    interval: u128,
)
    ensures
        ({
            let (after, action) = acquire_transition(pool, event, now, deadline, interval);
            let looks = event is Look || event is ConnectFailed || (event matches AcquireEvent::Probed {
                disconnected,
                ..
            } && disconnected);
            &&& after.attempts == pool.attempts
            &&& looks && pool.idle.len() > 0 ==> {
                &&& action == AcquireAction::Probe(pool.idle[pool.idle.len() - 1])
                &&& after.idle + seq![pool.idle[pool.idle.len() - 1]] == pool.idle
                &&& after.active == pool.active
            }
            &&& !(looks && pool.idle.len() > 0) ==> after.idle == pool.idle
            &&& looks && pool.idle.len() == 0 ==> {
                &&& after.active == pool.active
                &&& now >= deadline <==> action is Refuse
                &&& now < deadline && !(event is ConnectFailed) ==> {
                    &&& action matches AcquireAction::Connect { timeout }
                    &&& timeout <= interval
                    &&& timeout == interval || now + timeout == deadline
                }
                &&& now < deadline && event is ConnectFailed ==> {
                    &&& action matches AcquireAction::Wait { timeout }
                    &&& timeout <= interval
                    &&& timeout == interval || now + timeout == deadline
                }
            }
            &&& !looks ==> action is Lease && after.active == pool.active + 1
        }),
{
    if pool.idle.len() > 0 {
        assert(pool.idle.drop_last() + seq![pool.idle[pool.idle.len() - 1]] =~= pool.idle);
    }
}

/// What comes back to a pool is idle behind all others, and nothing else changes but the
/// count. What the worker opens is idle too, and each of its attempts counts.
pub proof fn law_pool_keeps_what_it_gets<C>(pool: PoolView<C>, connection: C)
    requires
        pool.active > 0,
        pool.attempts <= u64::MAX,
    ensures
        ({
            let back = pool.released(Some(connection));
            &&& back.idle == pool.idle + seq![connection]
            &&& back.active == pool.active - 1
            &&& back.attempts == pool.attempts
        }),
        ({
            let gone = pool.released(None::<C>);
            &&& gone.idle == pool.idle
            &&& gone.active == pool.active - 1
            &&& gone.attempts == pool.attempts
        }),
        ({
            let (opened, next) = worker_transition(pool, WorkerEvent::Connected(connection));
            let (failed, later) = worker_transition(pool, WorkerEvent::<C>::ConnectFailed);
            &&& opened.idle == pool.idle + seq![connection]
            &&& failed.idle == pool.idle
            &&& next is Probe
            &&& later is Sleep
            &&& pool.attempts < u64::MAX ==> opened.attempts == pool.attempts + 1
                && failed.attempts == pool.attempts + 1
            &&& pool.attempts == u64::MAX ==> opened.attempts == 0 && failed.attempts == 0
            &&& opened.active == pool.active
            &&& failed.active == pool.active
        }),
{
    assert(pool.idle.push(connection) =~= pool.idle + seq![connection]);
}

/// The worker keeps exactly the idle connections whose other end is still there, in their
/// order. It opens one exactly if none is left and none is in use.
pub proof fn law_worker_keeps_the_connected<C>(pool: PoolView<C>, connected: Vec<bool>)
    requires
        connected@.len() == pool.idle.len(),
    ensures
        ({
            let (after, action) = worker_transition(pool, WorkerEvent::Probed { connected });
            &&& after.idle.len() == connected@.filter(|mark: bool| mark).len()
            &&& forall|i: int|
                0 <= i < pool.idle.len() && #[trigger] connected@[i] ==> {
                    let before = connected@.take(i).filter(|mark: bool| mark).len() as int;
                    0 <= before < after.idle.len() && after.idle[before] == pool.idle[i]
                }
            &&& after.active == pool.active
            &&& after.attempts == pool.attempts
            &&& action is Connect <==> after.idle.len() == 0 && pool.active == 0
            &&& action is Wait <==> !(action is Connect)
        }),
{
    law_marked_items_keep_their_places(pool.idle, connected@);
}

/// A connection goes back to the pool exactly if its last exchange succeeded, or if there
/// was none.
pub proof fn law_only_sound_connections_come_back<C>(
    fresh: ConnectionLease,
    lease: ConnectionLease,
    connection: C,
    returned: Option<C>,
)
    requires
        call_ensures(ConnectionLease::new, (), fresh),
        call_ensures(ConnectionLease::returned::<C>, (&lease, connection), returned),
    ensures
        fresh.reusable,
        returned is Some <==> lease.reusable,
        returned is Some ==> returned->0 == connection,
{
}

/// The worker tries once a second, and a call has fifteen seconds to get a connection.
pub proof fn law_seconds_of_the_pool()
    ensures
        RECONNECT_INTERVAL == 1_000_000_000,
        TOOL_CONNECT_TIMEOUT == 15 * RECONNECT_INTERVAL,
{
}

/// A connection on which an exchange was begun comes back only if that exchange, or a
/// later one, succeeded.
pub proof fn law_exchange_must_succeed(
    lease: &mut ConnectionLease,
    later: &mut ConnectionLease,
    succeeded: bool,
)
    requires
        call_ensures(ConnectionLease::begin_exchange, (lease,), ()),
        call_ensures(ConnectionLease::end_exchange, (later, succeeded), ()),
        *old(later) == *final(lease),
    ensures
        !final(lease).reusable,
        final(later).reusable <==> succeeded,
{
}

/// A connection that comes back to the pool is the one that the next call looks at.
pub proof fn law_next_call_gets_what_came_back<C>(
    pool: &mut ConnectionState<C>,
    later: &mut ConnectionState<C>,
    connection: C,
    now: u128,
    deadline: u128,
    interval: u128,
    action: AcquireAction<C>,
)
    requires
        old(pool).active > 0,
        call_ensures(ConnectionState::<C>::release, (pool, Some(connection)), ()),
        call_ensures(
            ConnectionState::<C>::acquire_step,
            (later, AcquireEvent::Look, now, deadline, interval),
            action,
        ),
        *old(later) == *final(pool),
        old(later).active < usize::MAX,
    ensures
        action == AcquireAction::Probe(connection),
        final(later).idle@ == old(pool).idle@,
        final(later).active == old(pool).active - 1,
{
    law_pool_keeps_what_it_gets(old(pool)@, connection);
    law_call_takes_one_connection(
        old(later)@,
        AcquireEvent::Look,
        now,
        deadline,
        interval,
    );
    assert(final(later).idle@ =~= old(pool).idle@);
}

} // verus!
