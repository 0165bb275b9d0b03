use ping_pong::connection::{
    Attempt, Connection, PollOpt, ReadOutcome, Registration, WriteOutcome, MAX_LINE,
};
use ping_pong::state::{EventSet, State, WriteBuf};

fn rearm(token: usize, interest: EventSet) -> Option<Registration> {
    Some(Registration::new(token, interest))
}

#[test]
fn registrations_are_edge_triggered_and_one_shot() {
    let registration = Registration::new(9, EventSet::writable());
    assert_eq!(
        registration,
        Registration {
            token: 9,
            interest: EventSet { readable: false, writable: true },
            opt: PollOpt { edge: true, oneshot: true },
        }
    );
    let mut conn = Connection::new(2);
    assert_eq!(conn.reregister().opt, PollOpt { edge: true, oneshot: true });
    let rearmed = conn.read(ReadOutcome::Data(b"line\n".to_vec())).unwrap();
    assert_eq!(rearmed.opt, PollOpt { edge: true, oneshot: true });
    assert_eq!(rearmed.interest, EventSet::writable());
    assert_eq!(rearmed.token, 2);
}

#[test]
fn new_connection_reads_into_an_empty_buffer() {
    assert_eq!(MAX_LINE, 128);
    let conn = Connection::new(7);
    assert_eq!(conn.token, 7);
    assert_eq!(conn.state, State::Reading(vec![]));
    match &conn.state {
        State::Reading(buf) => assert!(buf.capacity() >= MAX_LINE),
        other => panic!("unexpected state: {:?}", other),
    }
    assert!(!conn.is_closed());
    assert_eq!(conn.reregister(), Registration::new(7, EventSet::readable()));
}

#[test]
fn connection_attempts_what_its_state_waits_for() {
    let mut conn = Connection::new(1);
    assert_eq!(conn.ready(EventSet::readable()), Attempt::Read);
    assert_eq!(conn.ready(EventSet { readable: true, writable: true }), Attempt::Read);
    conn.read(ReadOutcome::Data(b"line\n".to_vec()));
    assert_eq!(conn.ready(EventSet::writable()), Attempt::Write);
    assert_eq!(conn.ready(EventSet { readable: true, writable: true }), Attempt::Write);
}

#[test]
fn read_of_a_partial_line_keeps_reading() {
    let mut conn = Connection::new(3);
    assert_eq!(conn.read(ReadOutcome::Data(b"pi".to_vec())), rearm(3, EventSet::readable()));
    assert_eq!(conn.state, State::Reading(b"pi".to_vec()));
    assert_eq!(conn.read(ReadOutcome::Data(b"ng".to_vec())), rearm(3, EventSet::readable()));
    assert_eq!(conn.state, State::Reading(b"ping".to_vec()));
    assert_eq!(conn.token, 3);
}

#[test]
fn read_that_completes_a_line_starts_to_write() {
    let mut conn = Connection::new(3);
    conn.read(ReadOutcome::Data(b"pi".to_vec()));
    assert_eq!(conn.read(ReadOutcome::Data(b"ng\npo".to_vec())), rearm(3, EventSet::writable()));
    assert_eq!(
        conn.state,
        State::Writing(WriteBuf { buf: b"ping\npo".to_vec(), pos: 0, limit: 5 })
    );
    assert_eq!(conn.pending(), b"ping\n");
}

#[test]
fn read_of_no_bytes_closes() {
    let mut conn = Connection::new(4);
    conn.read(ReadOutcome::Data(b"unfinished".to_vec()));
    assert_eq!(conn.read(ReadOutcome::Data(vec![])), None);
    assert_eq!(conn.state, State::Closed);
    assert!(conn.is_closed());
    assert_eq!(conn.reregister(), Registration::new(4, EventSet::none()));
    assert_eq!(conn.state.event_set(), EventSet::none());
}

#[test]
fn read_failure_closes() {
    let mut conn = Connection::new(4);
    assert_eq!(conn.read(ReadOutcome::Failed), None);
    assert!(conn.is_closed());
}

#[test]
fn read_that_would_block_changes_nothing() {
    let mut conn = Connection::new(5);
    conn.read(ReadOutcome::Data(b"abc".to_vec()));
    assert_eq!(conn.read(ReadOutcome::WouldBlock), rearm(5, EventSet::readable()));
    assert_eq!(conn.state, State::Reading(b"abc".to_vec()));
}

#[test]
fn write_moves_the_cursor_until_the_line_is_out() {
    let mut conn = Connection::new(6);
    conn.read(ReadOutcome::Data(b"hello\n".to_vec()));
    assert_eq!(conn.write(WriteOutcome::Wrote(1)), rearm(6, EventSet::writable()));
    assert_eq!(
        conn.state,
        State::Writing(WriteBuf { buf: b"hello\n".to_vec(), pos: 1, limit: 6 })
    );
    assert_eq!(conn.pending(), b"ello\n");
    assert_eq!(conn.write(WriteOutcome::Wrote(4)), rearm(6, EventSet::writable()));
    assert_eq!(conn.pending(), b"\n");
    assert_eq!(conn.write(WriteOutcome::Wrote(1)), rearm(6, EventSet::readable()));
    assert_eq!(conn.state, State::Reading(vec![]));
    assert_eq!(conn.token, 6);
}

#[test]
fn write_goes_on_to_the_next_buffered_line() {
    let mut conn = Connection::new(6);
    conn.read(ReadOutcome::Data(b"a\nbb\nc".to_vec()));
    assert_eq!(conn.pending(), b"a\n");
    assert_eq!(conn.write(WriteOutcome::Wrote(2)), rearm(6, EventSet::writable()));
    assert_eq!(
        conn.state,
        State::Writing(WriteBuf { buf: b"bb\nc".to_vec(), pos: 0, limit: 3 })
    );
    assert_eq!(conn.write(WriteOutcome::Wrote(3)), rearm(6, EventSet::readable()));
    assert_eq!(conn.state, State::Reading(b"c".to_vec()));
}

#[test]
fn write_that_would_block_changes_nothing() {
    let mut conn = Connection::new(8);
    conn.read(ReadOutcome::Data(b"line\n".to_vec()));
    conn.write(WriteOutcome::Wrote(2));
    let before = Connection {
        token: 8,
        state: State::Writing(WriteBuf { buf: b"line\n".to_vec(), pos: 2, limit: 5 }),
    };
    assert_eq!(conn, before);
    assert_eq!(conn.write(WriteOutcome::WouldBlock), rearm(8, EventSet::writable()));
    assert_eq!(conn, before);
    assert_eq!(conn.write(WriteOutcome::Wrote(0)), rearm(8, EventSet::writable()));
    assert_eq!(conn, before);
}

#[test]
fn write_failure_closes() {
    let mut conn = Connection::new(9);
    conn.read(ReadOutcome::Data(b"line\n".to_vec()));
    assert_eq!(conn.write(WriteOutcome::Failed), None);
    assert_eq!(conn.state, State::Closed);
    assert!(conn.is_closed());
}

#[test]
fn reregister_asks_for_the_interest_of_every_state() {
    let mut conn = Connection::new(11);
    assert_eq!(conn.reregister(), Registration::new(11, EventSet::readable()));
    conn.read(ReadOutcome::Data(b"line\n".to_vec()));
    let before = Connection {
        token: 11,
        state: State::Writing(WriteBuf { buf: b"line\n".to_vec(), pos: 0, limit: 5 }),
    };
    assert_eq!(conn.reregister(), Registration::new(11, EventSet::writable()));
    assert_eq!(conn, before);
    assert_eq!(conn.write(WriteOutcome::Failed), None);
    assert_eq!(
        conn.reregister(),
        Registration {
            token: 11,
            interest: EventSet { readable: false, writable: false },
            opt: PollOpt { edge: true, oneshot: true },
        }
    );
    assert_eq!(conn.state, State::Closed);
    assert_eq!(conn.token, 11);
}
