//! The per-core connection front end: how it is sized, what the acceptor and
//! worker loops decide on each turn, and how permits track queue slots and
//! open connections.
//!
//! The loops themselves block on sockets and timers and therefore run in the
//! embedding program. They call into this module for every decision.

use vstd::prelude::*;

verus! {

/// Connections that one core may hold open at a time.
pub const MAX_CONNS_PER_CORE: usize = 65536;

/// Accepted connections per core that may wait for a worker.
pub const MAX_ACCEPT_QUEUE_PER_CORE: usize = 64;

/// A worker yields after this many consecutive connections.
pub const YIELD_EVERY: usize = 16;

/// A worker sleeps after this many consecutive empty polls.
pub const SLEEP_EVERY: usize = 64;

/// How long an idle worker sleeps, in milliseconds.
pub const IDLE_SLEEP_MILLIS: u64 = 100;

/// How long an acceptor waits after a failed accept, in milliseconds.
pub const ACCEPT_BACKOFF_MILLIS: u64 = 15;

/// The loopback port the listener binds.
pub const LISTEN_PORT: u16 = 43316;

/// The two process-wide limits derived from the number of cores.
#[derive(Clone, Copy, Debug, PartialEq, Eq, Structural)]
pub struct Limits {
    /// Permits of the connection semaphore.
    pub max_conns: usize,
    /// Capacity of the hand-off queue, and permits of its semaphore.
    pub accept_queue: usize,
}

/// Sizes the front end for `cores` cores, or `None` when the connection
/// limit does not fit the machine word.
pub fn limits(cores: usize) -> (r: Option<Limits>)
    ensures
        r is Some <==> cores * MAX_CONNS_PER_CORE <= usize::MAX,
        r matches Some(l) ==> l.max_conns == cores * MAX_CONNS_PER_CORE && l.accept_queue == cores
            * MAX_ACCEPT_QUEUE_PER_CORE,
{
    match cores.checked_mul(MAX_CONNS_PER_CORE) {
        Some(max_conns) => {
            assert(cores * MAX_ACCEPT_QUEUE_PER_CORE <= cores * MAX_CONNS_PER_CORE)
                by (nonlinear_arith);
            Some(Limits { max_conns, accept_queue: cores * MAX_ACCEPT_QUEUE_PER_CORE })
        },
        None => None,
    }
}

/// What a non-blocking receive on the hand-off queue came back with.
#[derive(Clone, Copy, Debug, PartialEq, Eq, Structural)]
pub enum Received {
    /// A connection was dequeued.
    Connection,
    /// The queue is empty for now.
    Empty,
    /// Every sender is gone.
    Disconnected,
}

/// The run lengths a worker keeps between turns of its loop.
#[derive(Clone, Copy, Debug, PartialEq, Eq, Structural)]
pub struct WorkerState {
    pub consecutive_empties: usize,
    pub consecutive_present: usize,
}

/// What the worker does after one receive.
#[derive(Clone, Copy, Debug, PartialEq, Eq, Structural)]
pub enum WorkerAction {
    /// Hand one accept-queue permit back, spawn the connection's task, and
    /// yield to the runtime if `yield_now`.
    Serve { yield_now: bool },
    /// Yield to the runtime and poll again.
    Yield,
    /// Sleep for `millis` and poll again.
    Sleep { millis: u64 },
    /// Leave the loop.
    Stop,
}

/// `n + 1`, wrapping to zero at the top of the range.
pub open spec fn bump(n: usize) -> usize {
    if n == usize::MAX {
        0
    } else {
        (n + 1) as usize
    }
}

/// The worker loop as a function of its state and the receive outcome.
pub open spec fn worker_next(state: WorkerState, received: Received) -> (WorkerState, WorkerAction) {
    match received {
        Received::Connection => {
            let present = bump(state.consecutive_present);
            (
                WorkerState { consecutive_empties: 0, consecutive_present: present },
                WorkerAction::Serve { yield_now: present % YIELD_EVERY == 0 },
            )
        },
        Received::Empty => {
            let empties = bump(state.consecutive_empties);
            (
                WorkerState { consecutive_empties: empties, consecutive_present: 0 },
                if empties % SLEEP_EVERY == 0 {
                    WorkerAction::Sleep { millis: IDLE_SLEEP_MILLIS }
                } else {
                    WorkerAction::Yield
                },
            )
        },
        Received::Disconnected => (state, WorkerAction::Stop),
    }
}

impl WorkerState {
    /// The state a worker starts in.
    pub fn new() -> (s: WorkerState)
        ensures
            s == (WorkerState { consecutive_empties: 0, consecutive_present: 0 }),
    {
        WorkerState { consecutive_empties: 0, consecutive_present: 0 }
    }
}

/// One turn of the worker loop: the next state and what to do now.
pub fn worker_step(state: WorkerState, received: Received) -> (r: (WorkerState, WorkerAction))
    ensures
        r == worker_next(state, received),
{
    match received {
        Received::Connection => {
            let present = state.consecutive_present.wrapping_add(1);
            (
                WorkerState { consecutive_empties: 0, consecutive_present: present },
                WorkerAction::Serve { yield_now: present % YIELD_EVERY == 0 },
            )
        },
        Received::Empty => {
            let empties = state.consecutive_empties.wrapping_add(1);
            let action = if empties % SLEEP_EVERY == 0 {
                WorkerAction::Sleep { millis: IDLE_SLEEP_MILLIS }
            } else {
                WorkerAction::Yield
            };
            (WorkerState { consecutive_empties: empties, consecutive_present: 0 }, action)
        },
        Received::Disconnected => (state, WorkerAction::Stop),
    }
}

/// What an acceptor does with the permit it holds once `accept` returned.
#[derive(Clone, Copy, Debug, PartialEq, Eq, Structural)]
pub enum AcceptorAction {
    /// Push the socket into the queue and forget the permit: the worker that
    /// dequeues the socket hands the permit back.
    Enqueue,
    /// Drop the permit, then wait `millis` before accepting again.
    Backoff { millis: u64 },
}

/// One turn of the acceptor loop, after `accept` returned.
pub fn acceptor_step(accepted: bool) -> (action: AcceptorAction)
    ensures
        accepted ==> action == AcceptorAction::Enqueue,
        !accepted ==> action == (AcceptorAction::Backoff { millis: ACCEPT_BACKOFF_MILLIS }),
{
    if accepted {
        AcceptorAction::Enqueue
    } else {
        AcceptorAction::Backoff { millis: ACCEPT_BACKOFF_MILLIS }
    }
}

/// The accept-queue semaphore together with the queue it guards.
///
/// Every permit is in exactly one place: free, held by an acceptor that is
/// about to accept, or riding along with a queued connection.
#[derive(Clone, Copy, Debug, PartialEq, Eq)]
pub struct AcceptGate {
    capacity: usize,
    free: usize,
    held: usize,
    queued: usize,
}

impl AcceptGate {
    /// Queue capacity, which is also the number of permits.
    pub closed spec fn capacity(&self) -> nat {
        self.capacity as nat
    }

    /// Permits nobody holds.
    pub closed spec fn free(&self) -> nat {
        self.free as nat
    }

    /// Permits held by acceptors waiting in `accept`.
    pub closed spec fn held(&self) -> nat {
        self.held as nat
    }

    /// Connections in the queue.
    pub closed spec fn queued(&self) -> nat {
        self.queued as nat
    }

    /// Permits are conserved.
    pub open spec fn wf(&self) -> bool {
        self.free() + self.held() + self.queued() == self.capacity()
    }

    /// A gate with every permit free and nothing queued.
    pub fn new(capacity: usize) -> (g: AcceptGate)
        ensures
            g.wf(),
            g.capacity() == capacity,
            g.free() == capacity,
            g.held() == 0,
            g.queued() == 0,
    {
        AcceptGate { capacity, free: capacity, held: 0, queued: 0 }
    }

    /// Number of connections waiting for a worker.
    pub fn queue_len(&self) -> (n: usize)
        ensures
            n == self.queued(),
    {
        self.queued
    }

    /// Number of permits an acceptor could take right now.
    pub fn free_permits(&self) -> (n: usize)
        ensures
            n == self.free(),
    {
        self.free
    }

    /// An acceptor asks for a permit. `false` means it has to wait, and
    /// nothing changed.
    pub fn acquire(&mut self) -> (granted: bool)
        requires
            old(self).wf(),
        ensures
            final(self).wf(),
            final(self).capacity() == old(self).capacity(),
            final(self).queued() == old(self).queued(),
            granted == (old(self).free() > 0),
            granted ==> final(self).free() == old(self).free() - 1 && final(self).held() == old(
                self,
            ).held() + 1,
            !granted ==> final(self).free() == old(self).free() && final(self).held() == old(
                self,
            ).held(),
    {
        if self.free > 0 {
            self.free = self.free - 1;
            self.held = self.held + 1;
            true
        } else {
            false
        }
    }

    /// `accept` succeeded: the socket goes into the queue and takes the
    /// permit with it. `false` means no permit was held, and nothing changed.
    pub fn enqueue(&mut self) -> (done: bool)
        requires
            old(self).wf(),
        ensures
            final(self).wf(),
            final(self).capacity() == old(self).capacity(),
            final(self).free() == old(self).free(),
            done == (old(self).held() > 0),
            done ==> final(self).held() == old(self).held() - 1 && final(self).queued() == old(
                self,
            ).queued() + 1,
            !done ==> final(self).held() == old(self).held() && final(self).queued() == old(
                self,
            ).queued(),
    {
        if self.held > 0 {
            self.held = self.held - 1;
            self.queued = self.queued + 1;
            true
        } else {
            false
        }
    }

    /// `accept` failed: the permit is dropped and becomes free again.
    /// `false` means no permit was held, and nothing changed.
    pub fn release(&mut self) -> (done: bool)
        requires
            old(self).wf(),
        ensures
            final(self).wf(),
            final(self).capacity() == old(self).capacity(),
            final(self).queued() == old(self).queued(),
            done == (old(self).held() > 0),
            done ==> final(self).held() == old(self).held() - 1 && final(self).free() == old(
                self,
            ).free() + 1,
            !done ==> final(self).held() == old(self).held() && final(self).free() == old(
                self,
            ).free(),
    {
        if self.held > 0 {
            self.held = self.held - 1;
            self.free = self.free + 1;
            true
        } else {
            false
        }
    }

    /// A worker took a connection out of the queue and hands its permit
    /// back. `false` means the queue was empty, and nothing changed.
    pub fn dequeue(&mut self) -> (done: bool)
        requires
            old(self).wf(),
        ensures
            final(self).wf(),
            final(self).capacity() == old(self).capacity(),
            final(self).held() == old(self).held(),
            done == (old(self).queued() > 0),
            done ==> final(self).queued() == old(self).queued() - 1 && final(self).free() == old(
                self,
            ).free() + 1,
            !done ==> final(self).queued() == old(self).queued() && final(self).free() == old(
                self,
            ).free(),
    {
        if self.queued > 0 {
            self.queued = self.queued - 1;
            self.free = self.free + 1;
            true
        } else {
            false
        }
    }
}

/// The queue never holds more than its capacity, so a push by an acceptor
/// that holds a permit always finds room.
pub proof fn lemma_queue_has_room(g: AcceptGate)
    requires
        g.wf(),
    ensures
        g.queued() <= g.capacity(),
        g.held() > 0 ==> g.queued() < g.capacity(),
{
}

/// With the queue full no permit is free and none is held: no acceptor is
/// about to accept, and none gets a permit before a worker has dequeued a
/// connection.
pub proof fn lemma_full_queue_blocks_accept(g: AcceptGate)
    requires
        g.wf(),
        g.queued() == g.capacity(),
    ensures
        g.free() == 0,
        g.held() == 0,
{
}

/// The connection semaphore: how many connections are open, and the most
/// that may be.
#[derive(Clone, Copy, Debug, PartialEq, Eq)]
pub struct ConnectionGate {
    limit: usize,
    open: usize,
}

impl ConnectionGate {
    /// The most connections that may be open at once.
    pub closed spec fn limit(&self) -> nat {
        self.limit as nat
    }

    /// Connections open right now.
    pub closed spec fn open(&self) -> nat {
        self.open as nat
    }

    /// The limit is respected.
    pub open spec fn wf(&self) -> bool {
        self.open() <= self.limit()
    }

    /// A gate with no connection open.
    pub fn new(limit: usize) -> (g: ConnectionGate)
        ensures
            g.wf(),
            g.limit() == limit,
            g.open() == 0,
    {
        ConnectionGate { limit, open: 0 }
    }

    /// Connections open right now.
    pub fn open_count(&self) -> (n: usize)
        ensures
            n == self.open(),
    {
        self.open
    }

    /// A new connection asks to be retained. `false` means the limit is
    /// reached, and nothing changed.
    pub fn retain(&mut self) -> (retained: bool)
        requires
            old(self).wf(),
        ensures
            final(self).wf(),
            final(self).limit() == old(self).limit(),
            retained == (old(self).open() < old(self).limit()),
            retained ==> final(self).open() == old(self).open() + 1,
            !retained ==> final(self).open() == old(self).open(),
    {
        if self.open < self.limit {
            self.open = self.open + 1;
            true
        } else {
            false
        }
    }

    /// A connection was fully closed. `false` means none was open, and
    /// nothing changed.
    pub fn close(&mut self) -> (closed: bool)
        requires
            old(self).wf(),
        ensures
            final(self).wf(),
            final(self).limit() == old(self).limit(),
            closed == (old(self).open() > 0),
            closed ==> final(self).open() == old(self).open() - 1,
            !closed ==> final(self).open() == old(self).open(),
    {
        if self.open > 0 {
            self.open = self.open - 1;
            true
        } else {
            false
        }
    }
}

} // verus!
