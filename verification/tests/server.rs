use ping_pong::connection::{Attempt, ReadOutcome, Registration, WriteOutcome};
use ping_pong::server::{AcceptOutcome, Action, Pong, CAPACITY, SERVER};
use ping_pong::state::{EventSet, State};

fn accept(pong: &mut Pong) -> Action {
    pong.accept(AcceptOutcome::Accepted)
}

fn registered(token: usize) -> Action {
    Action::Register(Registration::new(token, EventSet::readable()))
}

#[test]
fn handles_start_after_the_listening_socket() {
    assert_eq!(SERVER, 0);
    let mut pong = Pong::new();
    assert!(pong.get(SERVER).is_none());
    assert!(pong.get(1).is_none());
    assert_eq!(accept(&mut pong), registered(1));
    assert_eq!(accept(&mut pong), registered(2));
    assert_eq!(accept(&mut pong), registered(3));
    assert!(pong.get(SERVER).is_none());
    let conn = pong.get(2).unwrap();
    assert_eq!(conn.token, 2);
    assert_eq!(conn.state, State::Reading(vec![]));
    assert!(pong.get(4).is_none());
    assert!(pong.get(usize::MAX).is_none());
}

#[test]
fn connection_beyond_capacity_is_refused() {
    let mut pong = Pong::with_capacity(2);
    assert_eq!(accept(&mut pong), registered(1));
    assert_eq!(accept(&mut pong), registered(2));
    pong.read(1, ReadOutcome::Data(b"kept".to_vec()));
    assert_eq!(accept(&mut pong), Action::Refuse);
    assert_eq!(accept(&mut pong), Action::Refuse);
    // Those that were accepted go on as before.
    assert_eq!(pong.get(1).unwrap().state, State::Reading(b"kept".to_vec()));
    assert_eq!(pong.get(2).unwrap().state, State::Reading(vec![]));
    assert!(pong.get(3).is_none());
    let action = pong.read(1, ReadOutcome::Data(b"\n".to_vec()));
    assert_eq!(
        action,
        Action::Reregister(Registration::new(1, EventSet::writable()))
    );
    assert_eq!(pong.pending(1), b"kept\n");
}

#[test]
fn server_without_room_refuses_every_connection() {
    let mut pong = Pong::with_capacity(0);
    assert_eq!(accept(&mut pong), Action::Refuse);
    assert!(pong.get(1).is_none());
}

#[test]
fn default_capacity_is_1024() {
    assert_eq!(CAPACITY, 1024);
    let mut pong = Pong::new();
    for token in 1..=1024 {
        assert_eq!(accept(&mut pong), registered(token));
    }
    assert_eq!(accept(&mut pong), Action::Refuse);
    assert!(pong.get(1024).is_some());
    assert!(pong.get(1025).is_none());
}

#[test]
fn closed_connection_releases_its_handle() {
    let mut pong = Pong::with_capacity(3);
    assert_eq!(accept(&mut pong), registered(1));
    assert_eq!(accept(&mut pong), registered(2));
    assert_eq!(accept(&mut pong), registered(3));
    assert_eq!(accept(&mut pong), Action::Refuse);
    pong.read(2, ReadOutcome::Data(b"partial".to_vec()));
    assert_eq!(pong.read(2, ReadOutcome::Data(vec![])), Action::Close(2));
    assert!(pong.get(2).is_none());
    assert!(pong.get(1).is_some());
    assert!(pong.get(3).is_some());
    // The handle is given out again, to a connection that starts afresh.
    assert_eq!(accept(&mut pong), registered(2));
    assert_eq!(pong.get(2).unwrap().state, State::Reading(vec![]));
    assert_eq!(accept(&mut pong), Action::Refuse);
}

#[test]
fn handle_released_last_is_given_out_first() {
    let mut pong = Pong::with_capacity(4);
    for token in 1..=3 {
        assert_eq!(accept(&mut pong), registered(token));
    }
    assert_eq!(pong.read(1, ReadOutcome::Failed), Action::Close(1));
    assert_eq!(pong.read(3, ReadOutcome::Data(vec![])), Action::Close(3));
    assert_eq!(accept(&mut pong), registered(3));
    assert_eq!(accept(&mut pong), registered(1));
    assert_eq!(accept(&mut pong), registered(4));
    assert_eq!(accept(&mut pong), Action::Refuse);
}

#[test]
fn accept_that_would_block_is_no_event() {
    let mut pong = Pong::with_capacity(1);
    assert_eq!(pong.accept(AcceptOutcome::WouldBlock), Action::Idle);
    assert!(pong.get(1).is_none());
    assert_eq!(accept(&mut pong), registered(1));
}

#[test]
fn failed_accept_shuts_the_server_down() {
    let mut pong = Pong::new();
    assert_eq!(accept(&mut pong), registered(1));
    assert_eq!(pong.accept(AcceptOutcome::Failed), Action::Shutdown);
    assert!(pong.get(1).is_some());
    assert!(pong.get(2).is_none());
}

#[test]
fn only_an_accepted_or_refused_connection_calls_for_another_accept() {
    assert!(registered(1).accepts_more());
    assert!(Action::Refuse.accepts_more());
    assert!(!Action::Idle.accepts_more());
    assert!(!Action::Shutdown.accepts_more());
    assert!(!Action::Close(1).accepts_more());
    let rearm = Registration::new(1, EventSet::readable());
    assert!(!Action::Reregister(rearm).accepts_more());
}

#[test]
fn ready_names_the_attempt_for_each_handle() {
    let mut pong = Pong::new();
    assert_eq!(pong.ready(SERVER, EventSet::readable()), Attempt::Accept);
    assert_eq!(accept(&mut pong), registered(1));
    assert_eq!(accept(&mut pong), registered(2));
    pong.read(2, ReadOutcome::Data(b"line\n".to_vec()));
    assert_eq!(pong.ready(1, EventSet::readable()), Attempt::Read);
    assert_eq!(pong.ready(2, EventSet::writable()), Attempt::Write);
    let both = EventSet { readable: true, writable: true };
    assert_eq!(pong.ready(SERVER, both), Attempt::Accept);
    assert_eq!(pong.ready(1, both), Attempt::Read);
    assert_eq!(pong.ready(2, both), Attempt::Write);
}

#[test]
fn failed_read_closes_the_connection_only() {
    let mut pong = Pong::new();
    assert_eq!(accept(&mut pong), registered(1));
    assert_eq!(accept(&mut pong), registered(2));
    pong.read(1, ReadOutcome::Data(b"lost".to_vec()));
    assert_eq!(pong.read(1, ReadOutcome::Failed), Action::Close(1));
    assert!(pong.get(1).is_none());
    assert_eq!(pong.get(2).unwrap().state, State::Reading(vec![]));
}

#[test]
fn failed_write_closes_the_connection_only() {
    let mut pong = Pong::new();
    assert_eq!(accept(&mut pong), registered(1));
    assert_eq!(accept(&mut pong), registered(2));
    pong.read(1, ReadOutcome::Data(b"line\n".to_vec()));
    pong.read(2, ReadOutcome::Data(b"other\n".to_vec()));
    assert_eq!(pong.write(1, WriteOutcome::Failed), Action::Close(1));
    assert!(pong.get(1).is_none());
    assert_eq!(pong.pending(2), b"other\n");
}

#[test]
fn read_that_would_block_arms_the_socket_again() {
    let mut pong = Pong::new();
    assert_eq!(accept(&mut pong), registered(1));
    pong.read(1, ReadOutcome::Data(b"half".to_vec()));
    let action = pong.read(1, ReadOutcome::WouldBlock);
    assert_eq!(
        action,
        Action::Reregister(Registration::new(1, EventSet::readable()))
    );
    assert_eq!(pong.get(1).unwrap().state, State::Reading(b"half".to_vec()));
}
