//! One client connection: its handle, its buffer state, and what it does
//! with the outcome of each read and write that the caller attempted for it.

use vstd::prelude::*;
use crate::state::{EventSet, State, StateView};

verus! {

/// The buffer that a fresh connection reads into is sized for a line of this
/// many bytes; longer lines make it grow.
pub const MAX_LINE: usize = 128;

/// What a non-blocking read on the connection's socket came to.
#[derive(Debug, PartialEq, Eq)]
pub enum ReadOutcome {
    /// The read returned these bytes. None at all means that the peer has
    /// closed the connection.
    Data(Vec<u8>),
    /// Nothing was there to read after all.
    WouldBlock,
    /// The read failed.
    Failed,
}

/// What a non-blocking write on the connection's socket came to.
#[derive(Clone, Copy, Debug, PartialEq, Eq, Structural)]
pub enum WriteOutcome {
    /// The socket took this many of the bytes offered.
    Wrote(usize),
    /// The socket could take nothing after all.
    WouldBlock,
    /// The write failed.
    Failed,
}

/// The I/O that a readiness event calls for.
#[derive(Clone, Copy, Debug, PartialEq, Eq, Structural)]
pub enum Attempt {
    /// Accept the connections that are pending on the listening socket, one
    /// after the other, until none is left.
    Accept,
    /// Read from the connection's socket.
    Read,
    /// Write the connection's pending bytes to its socket.
    Write,
}

/// How the event loop is to notify: on a change of readiness only (`edge`),
/// and once only until the socket is armed again (`oneshot`).
#[derive(Clone, Copy, Debug, PartialEq, Eq, Structural)]
pub struct PollOpt {
    pub edge: bool,
    pub oneshot: bool,
}

/// A request to arm a socket with the event loop for the given readiness.
#[derive(Clone, Copy, Debug, PartialEq, Eq, Structural)]
pub struct Registration {
    pub token: usize,
    pub interest: EventSet,
    pub opt: PollOpt,
}

impl Registration {
    /// The registration of `token` for `interest`. Every registration is
    /// edge-triggered and one-shot: the loop notifies once, and not again
    /// before the socket is armed anew.
    pub open spec fn spec_new(token: usize, interest: EventSet) -> Registration {
        Registration { token, interest, opt: PollOpt { edge: true, oneshot: true } }
    }

    /// The registration of `token` for `interest`, edge-triggered and
    /// one-shot.
    #[verifier::when_used_as_spec(spec_new)]
    pub fn new(token: usize, interest: EventSet) -> (registration: Registration)
        ensures
            registration == Registration::spec_new(token, interest),
    {
        Registration { token, interest, opt: PollOpt { edge: true, oneshot: true } }
    }
}

impl StateView {
    /// The state after the cursor of a writing connection moved past `cnt`
    /// bytes that were sent, or up to the limit where `cnt` is more.
    pub open spec fn advance(self, cnt: int) -> StateView {
        match self {
            StateView::Writing { bytes, pos, limit } => StateView::Writing {
                bytes,
                pos: pos + vstd::math::min(cnt, limit - pos),
                limit,
            },
            _ => self,
        }
    }

    /// The state of a reading connection after a read came to `outcome`.
    pub open spec fn after_read(self, outcome: ReadOutcome) -> StateView {
        match outcome {
            ReadOutcome::Data(bytes) => if bytes@.len() == 0 {
                StateView::Closed
            } else {
                self.append(bytes@).to_writing()
            },
            ReadOutcome::WouldBlock => self,
            ReadOutcome::Failed => StateView::Closed,
        }
    }

    /// The state of a writing connection after a write came to `outcome`.
    pub open spec fn after_write(self, outcome: WriteOutcome) -> StateView {
        match outcome {
            WriteOutcome::Wrote(cnt) => self.advance(cnt as int).to_reading(),
            WriteOutcome::WouldBlock => self,
            WriteOutcome::Failed => StateView::Closed,
        }
    }

    /// The bytes that a writing connection offers to its socket.
    pub open spec fn pending(self) -> Seq<u8> {
        match self {
            StateView::Writing { bytes, pos, limit } => bytes.subrange(pos, limit),
            _ => Seq::empty(),
        }
    }

    /// The bytes that went out to the peer in a write that came to `outcome`.
    pub open spec fn sent_by(self, outcome: WriteOutcome) -> Seq<u8> {
        match outcome {
            WriteOutcome::Wrote(cnt) => self.pending().take(
                vstd::math::min(cnt as int, self.pending().len() as int),
            ),
            _ => Seq::empty(),
        }
    }
}

/// One accepted client: the handle it is registered under and the state of
/// its buffers. The socket itself stays with the caller, under the same
/// handle.
#[derive(Debug, PartialEq, Eq)]
pub struct Connection {
    pub token: usize,
    pub state: State,
}

impl Connection {
    /// The connection's state is well formed.
    pub open spec fn wf(&self) -> bool {
        self.state.wf()
    }

    /// The registration that arms the connection's socket for what its
    /// state waits for: readable while it reads, writable while it writes,
    /// nothing once it is closed.
    pub open spec fn registration(&self) -> Registration {
        Registration::new(self.token, self.state@.interest())
    }

    /// What the event loop is asked once the connection has handled an
    /// event: nothing where that closed the connection, else to arm its
    /// socket again.
    pub open spec fn rearm(&self) -> Option<Registration> {
        if self.state is Closed {
            None
        } else {
            Some(self.registration())
        }
    }

    /// A connection under the handle `token` that has read nothing yet.
    pub fn new(token: usize) -> (conn: Connection)
        ensures
            conn.token == token,
            conn.state@ == StateView::Reading(Seq::empty()),
            conn.wf(),
    {
        Connection { token, state: State::Reading(Vec::with_capacity(MAX_LINE)) }
    }

    /// The I/O to attempt now that `events` fired for this connection: a read
    /// while it is reading, a write while it is writing. The events must
    /// hold what the connection waits for.
    pub fn ready(&self, events: EventSet) -> (attempt: Attempt)
        requires
            !(self.state is Closed),
            events.contains(self.state@.interest()),
        ensures
            self.state is Reading ==> attempt == Attempt::Read,
            self.state is Writing ==> attempt == Attempt::Write,
    {
        match self.state {
            State::Reading(_) => Attempt::Read,
            State::Writing(_) => Attempt::Write,
            State::Closed => unreached(),
        }
    }

    /// Takes the outcome of a read: no bytes or a failure close the
    /// connection; bytes are appended and a complete line starts to go out;
    /// a read that would block changes nothing. Returns the registration
    /// that arms the socket again, or `None` once the connection is closed.
    pub fn read(&mut self, outcome: ReadOutcome) -> (rearm: Option<Registration>)
        requires
            old(self).state is Reading,
        ensures
            final(self).token == old(self).token,
            final(self).state@ == old(self).state@.after_read(outcome),
            final(self).wf(),
            rearm == final(self).rearm(),
    {
        match outcome {
            ReadOutcome::Data(bytes) => {
                if bytes.len() == 0 {
                    self.state = State::Closed;
                } else {
                    self.state.append_readable(bytes.as_slice());
                    self.state.try_transition_to_writing();
                }
            },
            ReadOutcome::WouldBlock => {},
            ReadOutcome::Failed => {
                self.state = State::Closed;
            },
        }
        if self.is_closed() {
            None
        } else {
            Some(self.reregister())
        }
    }

    /// Takes the outcome of a write of the pending bytes: bytes that went
    /// out move the cursor, and once the line is all out the connection
    /// turns to what is left in its buffer; a write that would block changes
    /// nothing; a failure closes the connection. Returns the registration
    /// that arms the socket again, or `None` once the connection is closed.
    pub fn write(&mut self, outcome: WriteOutcome) -> (rearm: Option<Registration>)
        requires
            old(self).state is Writing,
            old(self).wf(),
        ensures
            final(self).token == old(self).token,
            final(self).state@ == old(self).state@.after_write(outcome),
            final(self).wf(),
            rearm == final(self).rearm(),
    {
        match outcome {
            WriteOutcome::Wrote(cnt) => {
                self.state.mut_write_buf().advance(cnt);
                self.state.try_transition_to_reading();
            },
            WriteOutcome::WouldBlock => {},
            WriteOutcome::Failed => {
                self.state = State::Closed;
            },
        }
        if self.is_closed() {
            None
        } else {
            Some(self.reregister())
        }
    }

    /// The bytes to offer to the socket of a writing connection: what is
    /// left of the line that is going out.
    pub fn pending(&self) -> (out: &[u8])
        requires
            self.state is Writing,
            self.wf(),
        ensures
            out@ == self.state@.pending(),
    {
        self.state.write_buf().bytes()
    }

    /// The one registration that arms the socket again: under the
    /// connection's token, edge-triggered and one-shot, for exactly what the
    /// state waits for, which for a closed connection is nothing. The
    /// connection itself does not change.
    pub fn reregister(&self) -> (registration: Registration)
        ensures
            registration == self.registration(),
    {
        Registration::new(self.token, self.state.event_set())
    }

    /// Whether the connection is closed, and so to be removed.
    pub fn is_closed(&self) -> (closed: bool)
        ensures
            closed == (self.state is Closed),
    {
        match self.state {
            State::Closed => true,
            _ => false,
        }
    }
}

} // verus!
