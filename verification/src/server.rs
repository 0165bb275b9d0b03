//! The server: it owns the registry, tells the caller which I/O a readiness
//! event calls for, and turns the outcome of that I/O into the next state of
//! its connections and into what the caller is to do with the event loop.

use vstd::prelude::*;
use crate::connection::{Attempt, Connection, ReadOutcome, Registration, WriteOutcome};
use crate::registry::{Handles, Registry};
use crate::state::{EventSet, StateView};

verus! {

/// The handle of the listening socket. No connection is ever stored under
/// it.
pub const SERVER: usize = 0;

/// How many connections a server holds at a time unless told otherwise.
pub const CAPACITY: usize = 1024;

/// What a non-blocking accept on the listening socket came to.
#[derive(Clone, Copy, Debug, PartialEq, Eq, Structural)]
pub enum AcceptOutcome {
    /// A client socket was accepted.
    Accepted,
    /// No connection was pending after all.
    WouldBlock,
    /// The accept failed.
    Failed,
}

/// What the caller is to do once the server has taken the outcome of an
/// attempt.
#[derive(Clone, Copy, Debug, PartialEq, Eq, Structural)]
pub enum Action {
    /// Keep the accepted socket under the token and arm it with the event
    /// loop for the first time.
    Register(Registration),
    /// Arm the connection's socket again.
    Reregister(Registration),
    /// The connection under this token is closed and gone from the
    /// registry: drop its socket.
    Close(usize),
    /// No handle is free: drop the accepted socket.
    Refuse,
    /// Nothing to do.
    Idle,
    /// Stop the event loop.
    Shutdown,
}

impl Action {
    /// After this answer to an accept, another connection may be pending:
    /// the caller accepts again until the answer is `Idle` or `Shutdown`.
    pub fn accepts_more(&self) -> (more: bool)
        ensures
            more == (*self is Register || *self is Refuse),
    {
        match self {
            Action::Register(_) => true,
            Action::Refuse => true,
            _ => false,
        }
    }
}

impl Handles {
    /// The invariant of a serving registry: its handles are well formed,
    /// none of them is the listening socket's, and no closed connection
    /// lingers under a live handle.
    pub open spec fn serving(self) -> bool {
        &&& self.wf()
        &&& self.first > SERVER
        &&& forall|t: int| #[trigger]
            self.live.contains_key(t) ==> !(self.live[t] is Closed)
    }

    /// The readiness `events` is one that the server expects for `token`:
    /// readable for the listening socket, and for a live connection what
    /// its state waits for.
    pub open spec fn expects(self, token: int, events: EventSet) -> bool {
        if token == SERVER {
            events.readable
        } else {
            self.live.contains_key(token) && events.contains(self.live[token].interest())
        }
    }

    /// The I/O that an expected readiness event for `token` calls for.
    pub open spec fn attempt(self, token: int) -> Attempt {
        if token == SERVER {
            Attempt::Accept
        } else if self.live[token] is Reading {
            Attempt::Read
        } else {
            Attempt::Write
        }
    }

    /// The registry after an accept came to `outcome`: an accepted
    /// connection takes the next free handle, if there is one.
    pub open spec fn after_accept(self, outcome: AcceptOutcome) -> Handles {
        match outcome {
            AcceptOutcome::Accepted => self.insert(),
            _ => self,
        }
    }

    /// What the caller is told after an accept that came to `outcome`.
    pub open spec fn accept_action(self, outcome: AcceptOutcome) -> Action {
        match outcome {
            AcceptOutcome::Accepted => if self.is_full() {
                Action::Refuse
            } else {
                Action::Register(
                    Registration::new(
                        self.free[0] as usize,
                        EventSet { readable: true, writable: false },
                    ),
                )
            },
            AcceptOutcome::WouldBlock => Action::Idle,
            AcceptOutcome::Failed => Action::Shutdown,
        }
    }

    /// The registry after the connection under `token` has handled an event
    /// and come to the state `next`: a closed connection is removed and its
    /// handle released, any other is kept in its new state.
    pub open spec fn settle(self, token: int, next: StateView) -> Handles {
        if next is Closed {
            self.remove(token)
        } else {
            self.update(token, next)
        }
    }

    /// What the caller is told once the connection under `token` has come to
    /// the state `next`.
    pub open spec fn settle_action(token: usize, next: StateView) -> Action {
        if next is Closed {
            Action::Close(token)
        } else {
            Action::Reregister(Registration::new(token, next.interest()))
        }
    }

    /// The registry after `n` pending connections were accepted one after
    /// the other.
    pub open spec fn accept_many(self, n: nat) -> Handles
        decreases n,
    {
        if n == 0 {
            self
        } else {
            self.accept_many((n - 1) as nat).after_accept(AcceptOutcome::Accepted)
        }
    }

    /// To settle a connection in a state that the registry has on record
    /// for it already comes to the same as to settle it in that state
    /// straight away.
    proof fn lemma_settle_twice(self, token: int, next: StateView)
        ensures
            self.update(token, next).settle(token, next) == self.settle(token, next),
    {
        assert(self.live.insert(token, next).remove(token) =~= self.live.remove(token));
        assert(self.live.insert(token, next).insert(token, next) =~= self.live.insert(token, next));
    }
}

/// A server refuses an accepted connection exactly when it holds as many
/// as it has room for. The refusal changes nothing: the connections it holds
/// go on as before. Below that number the connection is stored under a
/// handle that was not live, in the reading state, and the others stay as
/// they were.
pub proof fn lemma_refuses_at_capacity(handles: Handles)
    requires
        handles.serving(),
    ensures
        handles.after_accept(AcceptOutcome::Accepted).serving(),
        handles.accept_action(AcceptOutcome::Accepted) == Action::Refuse
            <==> handles.live.dom().len() == handles.capacity,
        handles.live.dom().len() == handles.capacity ==> handles.after_accept(
            AcceptOutcome::Accepted,
        ) == handles,
        handles.live.dom().len() != handles.capacity ==> ({
            let token = handles.free[0];
            &&& !handles.live.contains_key(token)
            &&& token != SERVER
            &&& handles.accept_action(AcceptOutcome::Accepted) == Action::Register(
                Registration::new(token as usize, EventSet { readable: true, writable: false }),
            )
            &&& handles.after_accept(AcceptOutcome::Accepted).live == handles.live.insert(
                token,
                StateView::Reading(Seq::empty()),
            )
        }),
{
    handles.lemma_insert_wf();
}

/// Of the connections that are pending on a new server, as many are
/// accepted as it has room for, and the next one is refused, which leaves
/// those that were accepted as they are.
pub proof fn lemma_refuses_beyond_capacity(capacity: nat, n: nat)
    requires
        SERVER + 1 + capacity <= usize::MAX,
        n <= capacity,
    ensures
        ({
            let handles = Handles::fresh(SERVER + 1, capacity as int).accept_many(n);
            &&& handles.serving()
            &&& handles.capacity == capacity
            &&& handles.live.dom().len() == n
            &&& n < capacity ==> handles.accept_action(AcceptOutcome::Accepted) is Register
            &&& n == capacity ==> handles.accept_action(AcceptOutcome::Accepted) == Action::Refuse
            &&& n == capacity ==> handles.after_accept(AcceptOutcome::Accepted) == handles
        }),
    decreases n,
{
    let start = Handles::fresh(SERVER + 1, capacity as int);
    if n == 0 {
        Handles::lemma_fresh_wf(SERVER + 1, capacity as int);
    } else {
        lemma_refuses_beyond_capacity(capacity, (n - 1) as nat);
        let before = start.accept_many((n - 1) as nat);
        before.lemma_insert_wf();
        lemma_refuses_at_capacity(before);
    }
    lemma_refuses_at_capacity(start.accept_many(n));
}

/// When a connection closes, the server takes its handle back: the handle is
/// live no more, the other connections stay as they were, and the next
/// connection that is accepted is stored under that very handle.
pub proof fn lemma_closed_handle_reclaimed(handles: Handles, token: usize)
    requires
        handles.serving(),
        handles.live.contains_key(token as int),
    ensures
        ({
            let after = handles.settle(token as int, StateView::Closed);
            &&& after.serving()
            &&& after.live == handles.live.remove(token as int)
            &&& !after.live.contains_key(token as int)
            &&& Handles::settle_action(token, StateView::Closed) == Action::Close(token)
            &&& after.accept_action(AcceptOutcome::Accepted) == Action::Register(
                Registration::new(token, EventSet { readable: true, writable: false }),
            )
            &&& after.after_accept(AcceptOutcome::Accepted).live.contains_key(token as int)
        }),
{
    handles.lemma_remove_wf(token as int);
}

/// The live handles change only as the actions say: `Register` brings its
/// token in, `Close` takes its token out, and every other action leaves them
/// as they are. A caller that keeps the socket of each registered token and
/// drops it on `Close` thus holds a socket for each live handle and for no
/// other. The server's invariant holds after each event.
pub proof fn lemma_actions_track_handles(
    handles: Handles,
    outcome: AcceptOutcome,
    token: usize,
    next: StateView,
)
    requires
        handles.serving(),
        handles.live.contains_key(token as int),
        next.wf(),
    ensures
        handles.after_accept(outcome).serving(),
        handles.after_accept(outcome).live.dom() == (match handles.accept_action(outcome) {
            Action::Register(registration) => handles.live.dom().insert(registration.token as int),
            _ => handles.live.dom(),
        }),
        handles.settle(token as int, next).serving(),
        handles.settle(token as int, next).live.dom() == (match Handles::settle_action(
            token,
            next,
        ) {
            Action::Close(closed) => handles.live.dom().remove(closed as int),
            _ => handles.live.dom(),
        }),
{
    handles.lemma_insert_wf();
    if next is Closed {
        handles.lemma_remove_wf(token as int);
    } else {
        handles.lemma_update_wf(token as int, next);
    }
}

/// The echo server's state: the connections it serves.
pub struct Pong {
    connections: Registry,
}

impl View for Pong {
    type V = Handles;

    closed spec fn view(&self) -> Handles {
        self.connections@
    }
}

impl Pong {
    /// The server's invariant.
    pub closed spec fn wf(&self) -> bool {
        &&& self.connections.wf()
        &&& self@.serving()
    }

    /// What `wf` says of the handles.
    pub proof fn lemma_wf(&self)
        requires
            self.wf(),
        ensures
            self@.serving(),
    {
    }

    /// A server with room for `CAPACITY` connections, whose handles start
    /// right after the listening socket's.
    pub fn new() -> (pong: Pong)
        ensures
            pong.wf(),
            pong@ == Handles::fresh(SERVER + 1, CAPACITY as int),
    {
        Pong::with_capacity(CAPACITY)
    }

    /// A server with room for `capacity` connections, a number that the
    /// registry can allocate slots for.
    pub fn with_capacity(capacity: usize) -> (pong: Pong)
        requires
            capacity < usize::MAX,
            capacity * 64 <= isize::MAX,
        ensures
            pong.wf(),
            pong@ == Handles::fresh(SERVER + 1, capacity as int),
    {
        let connections = Registry::new(SERVER + 1, capacity);
        proof {
            connections.lemma_wf();
        }
        Pong { connections }
    }

    /// The connection under `token`, if that handle is live.
    pub fn get(&self, token: usize) -> (found: Option<&Connection>)
        requires
            self.wf(),
        ensures
            found is Some <==> self@.live.contains_key(token as int),
            found matches Some(conn) ==> conn.token == token && conn.state@
                == self@.live[token as int] && conn.wf(),
    {
        if self.connections.contains(token) {
            Some(self.connections.get(token))
        } else {
            None
        }
    }

    /// The I/O to attempt now that `events` fired for `token`: an accept for
    /// the listening socket, else a read or a write as the connection's
    /// state has it. The event must be one that the server expects.
    pub fn ready(&self, token: usize, events: EventSet) -> (attempt: Attempt)
        requires
            self.wf(),
            self@.expects(token as int, events),
        ensures
            attempt == self@.attempt(token as int),
    {
        if token == SERVER {
            Attempt::Accept
        } else {
            self.connections.get(token).ready(events)
        }
    }

    /// Takes the outcome of an accept. An accepted connection is stored
    /// under the next free handle and is to be registered for reading; where
    /// no handle is free it is refused and the server goes on as before. An
    /// accept that would block is no event at all. A failed accept shuts the
    /// server down.
    pub fn accept(&mut self, outcome: AcceptOutcome) -> (action: Action)
        requires
            old(self).wf(),
        ensures
            final(self).wf(),
            final(self)@ == old(self)@.after_accept(outcome),
            action == old(self)@.accept_action(outcome),
    {
        match outcome {
            AcceptOutcome::Accepted => {
                let inserted = self.connections.insert();
                proof {
                    self.connections.lemma_wf();
                }
                match inserted {
                    Ok(token) => Action::Register(Registration::new(token, EventSet::readable())),
                    Err(_) => Action::Refuse,
                }
            },
            AcceptOutcome::WouldBlock => Action::Idle,
            AcceptOutcome::Failed => Action::Shutdown,
        }
    }

    /// The bytes to offer to the socket of the writing connection under
    /// `token`.
    pub fn pending(&self, token: usize) -> (out: &[u8])
        requires
            self.wf(),
            self@.live.contains_key(token as int),
            self@.live[token as int] is Writing,
        ensures
            out@ == self@.live[token as int].pending(),
    {
        self.connections.get(token).pending()
    }

    /// Takes the outcome of a read for the reading connection under `token`
    /// and removes the connection if that closed it.
    pub fn read(&mut self, token: usize, outcome: ReadOutcome) -> (action: Action)
        requires
            old(self).wf(),
            old(self)@.live.contains_key(token as int),
            old(self)@.live[token as int] is Reading,
        ensures
            final(self).wf(),
            final(self)@ == old(self)@.settle(
                token as int,
                old(self)@.live[token as int].after_read(outcome),
            ),
            action == Handles::settle_action(
                token,
                old(self)@.live[token as int].after_read(outcome),
            ),
    {
        let rearm = self.connections.get_mut(token).read(outcome);
        proof {
            old(self)@.lemma_settle_twice(
                token as int,
                old(self)@.live[token as int].after_read(outcome),
            );
        }
        self.reap(token, rearm)
    }

    /// Takes the outcome of a write for the writing connection under
    /// `token` and removes the connection if that closed it.
    pub fn write(&mut self, token: usize, outcome: WriteOutcome) -> (action: Action)
        requires
            old(self).wf(),
            old(self)@.live.contains_key(token as int),
            old(self)@.live[token as int] is Writing,
        ensures
            final(self).wf(),
            final(self)@ == old(self)@.settle(
                token as int,
                old(self)@.live[token as int].after_write(outcome),
            ),
            action == Handles::settle_action(
                token,
                old(self)@.live[token as int].after_write(outcome),
            ),
    {
        let rearm = self.connections.get_mut(token).write(outcome);
        proof {
            old(self)@.lemma_settle_twice(
                token as int,
                old(self)@.live[token as int].after_write(outcome),
            );
        }
        self.reap(token, rearm)
    }

    /// Ends the handling of an event for `token`: a connection that is
    /// closed leaves the registry, any other is armed again.
    fn reap(&mut self, token: usize, rearm: Option<Registration>) -> (action: Action)
        requires
            old(self).connections.wf(),
            old(self)@.first > SERVER,
            old(self)@.live.contains_key(token as int),
            forall|t: int| #[trigger]
                old(self)@.live.contains_key(t) && t != token ==> !(old(self)@.live[t] is Closed),
            rearm == (if old(self)@.live[token as int] is Closed {
                None
            } else {
                Some(Registration::new(token, old(self)@.live[token as int].interest()))
            }),
        ensures
            final(self).wf(),
            final(self)@ == old(self)@.settle(token as int, old(self)@.live[token as int]),
            action == Handles::settle_action(token, old(self)@.live[token as int]),
    {
        proof {
            self.connections.lemma_wf();
        }
        match rearm {
            Some(registration) => {
                assert(self@.live =~= self@.live.insert(token as int, self@.live[token as int]));
                Action::Reregister(registration)
            },
            None => {
                let _ = self.connections.remove(token);
                proof {
                    self.connections.lemma_wf();
                }
                Action::Close(token)
            },
        }
    }
}

} // verus!
