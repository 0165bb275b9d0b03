//! The buffer state machine of one connection: bytes accumulate until a line
//! is complete, the line is flushed, and what followed it is read on.

use vstd::prelude::*;
use crate::line::{find_newline, first_newline};

verus! {

/// A set of readiness kinds: what a connection waits for, or what fired.
#[derive(Clone, Copy, Debug, PartialEq, Eq, Structural)]
pub struct EventSet {
    pub readable: bool,
    pub writable: bool,
}

impl EventSet {
    /// No readiness at all.
    pub fn none() -> (events: EventSet)
        ensures
            !events.readable,
            !events.writable,
    {
        EventSet { readable: false, writable: false }
    }

    /// Readable readiness alone.
    pub fn readable() -> (events: EventSet)
        ensures
            events.readable,
            !events.writable,
    {
        EventSet { readable: true, writable: false }
    }

    /// Writable readiness alone.
    pub fn writable() -> (events: EventSet)
        ensures
            !events.readable,
            events.writable,
    {
        EventSet { readable: false, writable: true }
    }

    /// Whether readable readiness is in the set.
    pub fn is_readable(&self) -> (yes: bool)
        ensures
            yes == self.readable,
    {
        self.readable
    }

    /// Whether writable readiness is in the set.
    pub fn is_writable(&self) -> (yes: bool)
        ensures
            yes == self.writable,
    {
        self.writable
    }

    /// Every kind in `other` is in `self` too.
    pub open spec fn spec_contains(&self, other: EventSet) -> bool {
        &&& other.readable ==> self.readable
        &&& other.writable ==> self.writable
    }

    /// Whether every kind in `other` is in `self` too.
    #[verifier::when_used_as_spec(spec_contains)]
    pub fn contains(&self, other: EventSet) -> (yes: bool)
        ensures
            yes == self.spec_contains(other),
    {
        (!other.readable || self.readable) && (!other.writable || self.writable)
    }
}

/// A buffer that is being flushed: `buf[pos..limit]` is the part of the
/// current line that is still to be sent, `buf[limit..]` belongs to later
/// lines and is kept back.
#[derive(Debug, PartialEq, Eq)]
pub struct WriteBuf {
    pub buf: Vec<u8>,
    pub pos: usize,
    pub limit: usize,
}

impl WriteBuf {
    /// The cursor has not passed the limit, and the limit lies in the buffer.
    pub open spec fn wf(&self) -> bool {
        self.pos <= self.limit <= self.buf@.len()
    }

    /// The bytes still to be sent.
    pub open spec fn pending(&self) -> Seq<u8> {
        self.buf@.subrange(self.pos as int, self.limit as int)
    }

    /// A buffer whose first `limit` bytes are to be sent, starting at the
    /// first.
    pub fn new(buf: Vec<u8>, limit: usize) -> (w: WriteBuf)
        requires
            limit <= buf@.len(),
        ensures
            w.buf == buf,
            w.pos == 0,
            w.limit == limit,
            w.wf(),
    {
        WriteBuf { buf, pos: 0, limit }
    }

    /// Whether any byte of the line is still to be sent.
    pub fn has_remaining(&self) -> (yes: bool)
        requires
            self.wf(),
        ensures
            yes == (self.pos < self.limit),
    {
        self.pos < self.limit
    }

    /// The bytes still to be sent, for the caller to write out.
    pub fn bytes(&self) -> (out: &[u8])
        requires
            self.wf(),
        ensures
            out@ == self.pending(),
    {
        let whole = self.buf.as_slice();
        &whole[self.pos..self.limit]
    }

    /// Moves the cursor past `cnt` bytes that were sent; it stops at the
    /// limit whatever `cnt` is.
    pub fn advance(&mut self, cnt: usize)
        requires
            old(self).wf(),
        ensures
            final(self).wf(),
            final(self).buf == old(self).buf,
            final(self).limit == old(self).limit,
            final(self).pos == old(self).pos + vstd::math::min(
                cnt as int,
                old(self).limit - old(self).pos,
            ),
    {
        let left = self.limit - self.pos;
        if cnt < left {
            self.pos = self.pos + cnt;
        } else {
            self.pos = self.limit;
        }
    }
}

/// What a connection is doing with its bytes.
#[derive(Debug, PartialEq, Eq)]
pub enum State {
    /// Input that holds no complete line yet.
    Reading(Vec<u8>),
    /// A line that is being sent back, with what was read after it.
    Writing(WriteBuf),
    /// Terminal: no buffer, no more I/O.
    Closed,
}

/// A `State` as plain mathematics.
pub enum StateView {
    Reading(Seq<u8>),
    Writing { bytes: Seq<u8>, pos: int, limit: int },
    Closed,
}

impl StateView {
    /// In `Writing` the cursor has not passed the limit, and the limit lies
    /// in the buffer.
    pub open spec fn wf(self) -> bool {
        match self {
            StateView::Writing { bytes, pos, limit } => 0 <= pos <= limit <= bytes.len(),
            _ => true,
        }
    }

    /// The state that buffered input `bytes` puts a connection in: it sends
    /// the first line where there is one, and reads on where there is none.
    pub open spec fn scan(bytes: Seq<u8>) -> StateView {
        match first_newline(bytes) {
            Some(p) => StateView::Writing { bytes, pos: 0, limit: p + 1 },
            None => StateView::Reading(bytes),
        }
    }

    /// The state after `more` was appended to the input of a reading
    /// connection; other states do not take input.
    pub open spec fn append(self, more: Seq<u8>) -> StateView {
        match self {
            StateView::Reading(bytes) => StateView::Reading(bytes + more),
            _ => self,
        }
    }

    /// The state after a reading connection looked for a complete line.
    pub open spec fn to_writing(self) -> StateView {
        match self {
            StateView::Reading(bytes) => StateView::scan(bytes),
            _ => self,
        }
    }

    /// The state after a writing connection checked whether its line is
    /// sent: if so it drops what was sent and looks at the rest.
    pub open spec fn to_reading(self) -> StateView {
        match self {
            StateView::Writing { bytes, pos, limit } => if pos < limit {
                self
            } else {
                StateView::scan(bytes.skip(pos))
            },
            _ => self,
        }
    }

    /// The readiness that a connection in this state waits for.
    pub open spec fn interest(self) -> EventSet {
        match self {
            StateView::Reading(_) => EventSet { readable: true, writable: false },
            StateView::Writing { .. } => EventSet { readable: false, writable: true },
            StateView::Closed => EventSet { readable: false, writable: false },
        }
    }
}

impl View for State {
    type V = StateView;

    open spec fn view(&self) -> StateView {
        match self {
            State::Reading(buf) => StateView::Reading(buf@),
            State::Writing(w) => StateView::Writing {
                bytes: w.buf@,
                pos: w.pos as int,
                limit: w.limit as int,
            },
            State::Closed => StateView::Closed,
        }
    }
}

impl State {
    /// A writing state's cursor and limit lie where they may.
    pub open spec fn wf(&self) -> bool {
        self@.wf()
    }

    /// The input buffer of a reading connection, to be filled.
    pub fn mut_read_buf(&mut self) -> (buf: &mut Vec<u8>)
        requires
            *old(self) is Reading,
        ensures
            *buf == old(self)->Reading_0,
            *final(self) == State::Reading(*final(buf)),
    {
        match self {
            State::Reading(buf) => buf,
            _ => unreached(),
        }
    }

    /// The input of a reading connection.
    pub fn read_buf(&self) -> (buf: &[u8])
        requires
            self is Reading,
        ensures
            self@ == StateView::Reading(buf@),
    {
        match self {
            State::Reading(buf) => buf.as_slice(),
            _ => unreached(),
        }
    }

    /// The buffer that a writing connection is flushing.
    pub fn write_buf(&self) -> (w: &WriteBuf)
        requires
            self is Writing,
        ensures
            *self == State::Writing(*w),
    {
        match self {
            State::Writing(w) => w,
            _ => unreached(),
        }
    }

    /// The buffer that a writing connection is flushing, to be advanced.
    pub fn mut_write_buf(&mut self) -> (w: &mut WriteBuf)
        requires
            *old(self) is Writing,
        ensures
            *w == old(self)->Writing_0,
            *final(self) == State::Writing(*final(w)),
    {
        match self {
            State::Writing(w) => w,
            _ => unreached(),
        }
    }

    /// Takes the input buffer out of a reading connection's state.
    pub fn unwrap_read_buf(self) -> (buf: Vec<u8>)
        requires
            self is Reading,
        ensures
            self == State::Reading(buf),
    {
        match self {
            State::Reading(buf) => buf,
            _ => unreached(),
        }
    }

    /// Takes the buffer out of a writing connection's state.
    pub fn unwrap_write_buf(self) -> (w: WriteBuf)
        requires
            self is Writing,
        ensures
            self == State::Writing(w),
    {
        match self {
            State::Writing(w) => w,
            _ => unreached(),
        }
    }

    /// Appends bytes that were received to the input of a reading connection.
    pub fn append_readable(&mut self, bytes: &[u8])
        requires
            *old(self) is Reading,
        ensures
            final(self)@ == old(self)@.append(bytes@),
    {
        let buf = self.mut_read_buf();
        let ghost before = buf@;
        let mut i: usize = 0;
        while i < bytes.len()
            invariant
                0 <= i <= bytes.len(),
                buf@ == before + bytes@.take(i as int),
            decreases bytes.len() - i,
        {
            buf.push(bytes[i]);
            i += 1;
        }
        assert(bytes@.take(bytes.len() as int) == bytes@);
    }

    /// Looks for a complete line in the input: where there is one, the
    /// connection starts to send it; where there is none, nothing changes.
    pub fn try_transition_to_writing(&mut self)
        requires
            *old(self) is Reading,
        ensures
            final(self)@ == old(self)@.to_writing(),
            final(self).wf(),
    {
        let found = find_newline(self.read_buf());
        if let Some(pos) = found {
            let mut taken = State::Closed;
            std::mem::swap(self, &mut taken);
            let buf = taken.unwrap_read_buf();
            assert(pos < buf.len());
            *self = State::Writing(WriteBuf::new(buf, pos + 1));
        }
    }

    /// Where the line being sent is all out, drops it from the buffer and
    /// turns to what is left: that is read on, or, if it holds a complete
    /// line already, sent in turn. Where the line is not all out, nothing
    /// changes.
    pub fn try_transition_to_reading(&mut self)
        requires
            *old(self) is Writing,
            old(self).wf(),
        ensures
            final(self)@ == old(self)@.to_reading(),
            final(self).wf(),
    {
        if !self.write_buf().has_remaining() {
            let mut taken = State::Closed;
            std::mem::swap(self, &mut taken);
            let w = taken.unwrap_write_buf();
            let pos = w.pos;
            let mut buf = w.buf;
            drain_to(&mut buf, pos);
            *self = State::Reading(buf);
            self.try_transition_to_writing();
        }
    }

    /// The readiness that a connection in this state waits for: readable
    /// while it reads, writable while it writes, none once it is closed.
    pub fn event_set(&self) -> (events: EventSet)
        ensures
            events == self@.interest(),
    {
        match self {
            State::Reading(_) => EventSet::readable(),
            State::Writing(_) => EventSet::writable(),
            State::Closed => EventSet::none(),
        }
    }
}

/// Drops the first `count` bytes of `vec` and keeps the rest in order.
pub fn drain_to(vec: &mut Vec<u8>, count: usize)
    requires
        count <= old(vec)@.len(),
    ensures
        final(vec)@ == old(vec)@.skip(count as int),
{
    let mut rest = vec.split_off(count);
    std::mem::swap(vec, &mut rest);
}

} // verus!
