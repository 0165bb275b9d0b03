//! The life of one connection as a sequence of events, and what holds of
//! every such life: what the peer gets back is what it sent, line by line.

use vstd::prelude::*;
use crate::connection::{ReadOutcome, WriteOutcome};
use crate::line::{
    complete_lines, count_newlines, first_newline, has_newline, is_first_newline,
    lemma_complete_lines_count, lemma_first_newline, lemma_lines_end_bounds,
    lemma_lines_end_grows, lemma_lines_end_past_newline, lemma_lines_end_rest, lines_end, NEWLINE,
};
use crate::state::StateView;

verus! {

/// One attempt on a connection's socket and what it came to.
pub enum Event {
    Read(ReadOutcome),
    Write(WriteOutcome),
}

/// A connection's state together with everything it has received from its
/// peer and everything it has sent back so far.
pub struct Session {
    pub state: StateView,
    pub received: Seq<u8>,
    pub sent: Seq<u8>,
}

impl Session {
    /// A connection that was just accepted.
    pub open spec fn fresh() -> Session {
        Session { state: StateView::Reading(Seq::empty()), received: Seq::empty(), sent: Seq::empty() }
    }

    /// `event` is an attempt that the connection's state calls for: a read
    /// while it reads, a write while it writes, nothing once it is closed.
    pub open spec fn accepts(self, event: Event) -> bool {
        match event {
            Event::Read(_) => self.state is Reading,
            Event::Write(_) => self.state is Writing,
        }
    }

    /// The bytes that a read brought.
    pub open spec fn brought(outcome: ReadOutcome) -> Seq<u8> {
        match outcome {
            ReadOutcome::Data(bytes) => bytes@,
            _ => Seq::empty(),
        }
    }

    /// The session after `event`.
    pub open spec fn step(self, event: Event) -> Session {
        match event {
            Event::Read(outcome) => Session {
                state: self.state.after_read(outcome),
                received: self.received + Session::brought(outcome),
                sent: self.sent,
            },
            Event::Write(outcome) => Session {
                state: self.state.after_write(outcome),
                received: self.received,
                sent: self.sent + self.state.sent_by(outcome),
            },
        }
    }

    /// The session after all of `events`, in order.
    pub open spec fn run(self, events: Seq<Event>) -> Session
        decreases events.len(),
    {
        if events.len() == 0 {
            self
        } else {
            self.run(events.drop_last()).step(events.last())
        }
    }

    /// Each of `events` is an attempt that the state it meets calls for.
    pub open spec fn admits(self, events: Seq<Event>) -> bool
        decreases events.len(),
    {
        events.len() == 0 || (self.admits(events.drop_last()) && self.run(
            events.drop_last(),
        ).accepts(events.last()))
    }

    /// What holds between the events of a connection's life: nothing was
    /// sent but complete lines that were received, in their order; while it
    /// reads, all of them are sent and its buffer holds the unfinished rest;
    /// while it writes, its buffer holds all that is not sent yet, the line
    /// that is going out ends at the first newline, and some of it is still
    /// to go.
    pub open spec fn inv(self) -> bool {
        &&& self.sent.len() <= lines_end(self.received)
        &&& self.sent == self.received.take(self.sent.len() as int)
        &&& match self.state {
            StateView::Reading(bytes) => {
                &&& self.received == self.sent + bytes
                &&& !has_newline(bytes)
            },
            StateView::Writing { bytes, pos, limit } => {
                &&& self.received == self.sent + bytes.skip(pos)
                &&& 0 <= pos < limit <= bytes.len()
                &&& is_first_newline(bytes, limit - 1)
            },
            StateView::Closed => true,
        }
    }

    /// The state that buffered bytes put a connection in keeps the
    /// invariant, given that nothing beyond the complete lines before the
    /// buffer was sent.
    proof fn lemma_scan_inv(received: Seq<u8>, sent: Seq<u8>, bytes: Seq<u8>)
        requires
            received == sent + bytes,
            sent.len() == 0 || sent.last() == NEWLINE,
        ensures
            (Session { state: StateView::scan(bytes), received, sent }).inv(),
    {
        lemma_lines_end_bounds(sent);
        lemma_lines_end_grows(sent, bytes);
        assert(received.take(sent.len() as int) == sent);
        assert(bytes.skip(0) == bytes);
        lemma_first_newline(bytes, 0);
        if has_newline(bytes) {
            let p = first_newline(bytes).unwrap();
            lemma_first_newline(bytes, p);
        }
    }

    /// Bytes of a reading session that end no line leave what was sent at
    /// a line's end.
    proof fn lemma_sent_ends_line(self)
        requires
            self.inv(),
            self.state is Reading,
        ensures
            self.sent.len() == 0 || self.sent.last() == NEWLINE,
            self.sent.len() == lines_end(self.received),
    {
        let bytes = self.state->Reading_0;
        lemma_lines_end_rest(self.sent, bytes);
        lemma_lines_end_bounds(self.sent);
        lemma_lines_end_bounds(self.received);
    }

    /// An event that the state calls for keeps the invariant.
    pub proof fn lemma_step_inv(self, event: Event)
        requires
            self.inv(),
            self.accepts(event),
        ensures
            self.step(event).inv(),
    {
        let next = self.step(event);
        match event {
            Event::Read(outcome) => {
                let bytes = self.state->Reading_0;
                let more = Session::brought(outcome);
                lemma_lines_end_grows(self.received, more);
                assert(next.received.take(self.sent.len() as int) == self.received.take(
                    self.sent.len() as int,
                ));
                match outcome {
                    ReadOutcome::Data(data) => {
                        if data@.len() > 0 {
                            self.lemma_sent_ends_line();
                            assert(next.received == self.sent + (bytes + more));
                            Session::lemma_scan_inv(next.received, self.sent, bytes + more);
                        }
                    },
                    _ => {},
                }
            },
            Event::Write(outcome) => {
                let bytes = self.state->Writing_bytes;
                let pos = self.state->Writing_pos;
                let limit = self.state->Writing_limit;
                match outcome {
                    WriteOutcome::Wrote(cnt) => {
                        let k = vstd::math::min(cnt as int, limit - pos);
                        let out = bytes.subrange(pos, pos + k);
                        assert(self.state.sent_by(outcome) == out);
                        assert(self.received == (self.sent + out) + bytes.skip(pos + k));
                        assert(self.received.take(next.sent.len() as int) == next.sent);
                        lemma_lines_end_past_newline(
                            self.received,
                            self.sent.len() + limit - 1 - pos,
                        );
                        if pos + k == limit {
                            Session::lemma_scan_inv(self.received, next.sent, bytes.skip(limit));
                        }
                    },
                    _ => {},
                }
            },
        }
    }

    /// Events that the states they meet call for keep the invariant.
    pub proof fn lemma_run_inv(self, events: Seq<Event>)
        requires
            self.inv(),
            self.admits(events),
        ensures
            self.run(events).inv(),
        decreases events.len(),
    {
        if events.len() > 0 {
            self.lemma_run_inv(events.drop_last());
            self.run(events.drop_last()).lemma_step_inv(events.last());
        }
    }
}

/// However the bytes that a connection receives are cut into reads, and
/// however its writes get on, nothing goes back to the peer but the complete
/// lines it sent, in their order; and whenever the connection is back to
/// reading, all of them have gone back: as many lines as newlines were
/// received.
pub proof fn lemma_echoes_complete_lines(events: Seq<Event>)
    requires
        Session::fresh().admits(events),
    ensures
        ({
            let end = Session::fresh().run(events);
            &&& end.sent == complete_lines(end.received).take(end.sent.len() as int)
            &&& end.sent.len() <= complete_lines(end.received).len()
            &&& end.state is Reading ==> end.sent == complete_lines(end.received)
            &&& end.state is Reading ==> count_newlines(end.sent) == count_newlines(end.received)
        }),
{
    let start = Session::fresh();
    assert(start.received.take(0) == start.sent);
    start.lemma_run_inv(events);
    let end = start.run(events);
    lemma_lines_end_bounds(end.received);
    assert(complete_lines(end.received).take(end.sent.len() as int) == end.received.take(
        end.sent.len() as int,
    ));
    if end.state is Reading {
        end.lemma_sent_ends_line();
        lemma_complete_lines_count(end.received);
    }
}

/// A peer that has sent one line and nothing after it has that line back,
/// byte for byte, once the connection is back to reading.
pub proof fn lemma_echoes_single_line(events: Seq<Event>, p: int)
    requires
        Session::fresh().admits(events),
        Session::fresh().run(events).state is Reading,
        is_first_newline(Session::fresh().run(events).received, p),
        p == Session::fresh().run(events).received.len() - 1,
    ensures
        Session::fresh().run(events).sent == Session::fresh().run(events).received,
{
    lemma_echoes_complete_lines(events);
}

/// A connection that is back to reading sends nothing until more bytes have
/// arrived: the only attempt it calls for is a read, no read adds to what
/// was sent, and one that brings no bytes leaves it reading or closes it.
pub proof fn lemma_drained_waits(session: Session, event: Event)
    requires
        session.state is Reading,
        session.accepts(event),
    ensures
        event is Read,
        session.step(event).sent == session.sent,
        Session::brought(event->Read_0).len() == 0 ==> session.step(event).state == session.state
            || session.step(event).state is Closed,
{
}

/// Once the line that is going out is sent to its end and no newline
/// follows it in the buffer, the connection is back to reading, with what
/// followed the line as its input, and waits for the socket to be readable.
pub proof fn lemma_drained_reads(state: StateView, cnt: usize)
    requires
        state is Writing,
        state.wf(),
        state->Writing_pos + cnt >= state->Writing_limit,
        !has_newline(state->Writing_bytes.skip(state->Writing_limit)),
    ensures
        state.after_write(WriteOutcome::Wrote(cnt)) == StateView::Reading(
            state->Writing_bytes.skip(state->Writing_limit),
        ),
        state.after_write(WriteOutcome::Wrote(cnt)).interest().readable,
        !state.after_write(WriteOutcome::Wrote(cnt)).interest().writable,
{
    lemma_first_newline(state->Writing_bytes.skip(state->Writing_limit), 0);
}

/// A peer that has sent no newline has nothing back, however its bytes
/// arrived; and when it then closes its end, which shows as a read of no
/// bytes, the connection is closed with nothing sent.
pub proof fn lemma_partial_line_unanswered(events: Seq<Event>, closing: ReadOutcome)
    requires
        Session::fresh().admits(events),
        !has_newline(Session::fresh().run(events).received),
        closing is Data,
        Session::brought(closing).len() == 0,
    ensures
        Session::fresh().run(events).sent.len() == 0,
        Session::fresh().run(events).state is Reading ==> Session::fresh().run(events).step(
            Event::Read(closing),
        ).state is Closed,
        Session::fresh().run(events).step(Event::Read(closing)).sent.len() == 0,
{
    lemma_echoes_complete_lines(events);
    lemma_lines_end_bounds(Session::fresh().run(events).received);
}

} // verus!
