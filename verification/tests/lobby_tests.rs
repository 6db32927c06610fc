use lobby::directory::{Directory, QUEUE_CAPACITY};
use lobby::dispatcher::handle_event;
use lobby::errors::{RegistryError, SessionError};
use lobby::events::{ClientEvent, ServerEvent};
use lobby::player::{Color, Player};
use lobby::registry::Registry;
use lobby::session::{Inbound, Session, SessionPhase};

fn join(reg: &mut Registry, id: u128, name: &str) -> Option<Vec<Player>> {
    match handle_event(reg, id, &ClientEvent::NewPlayer { name: name.to_string() }) {
        Ok(snapshot) => snapshot,
        Err(e) => panic!("join rejected: {:?}", e),
    }
}

fn roster_triples(players: &[Player]) -> Vec<(String, Color, bool)> {
    players.iter().map(|p| (p.name.clone(), p.color, p.ready)).collect()
}

#[test]
fn first_four_joins_get_distinct_colors_in_order() {
    let mut reg = Registry::new();
    let snap = join(&mut reg, 1, "a");
    assert_eq!(snap.unwrap()[0].color, Color::Red);
    let snap = join(&mut reg, 2, "b");
    assert_eq!(snap.unwrap()[1].color, Color::Blue);
    let snap = join(&mut reg, 3, "c");
    assert_eq!(snap.unwrap()[2].color, Color::Green);
    let snap = join(&mut reg, 4, "d");
    let snap = snap.unwrap();
    assert_eq!(snap[3].color, Color::Yellow);
    for i in 0..4 {
        for j in 0..4 {
            if i != j {
                assert_ne!(snap[i].color, snap[j].color);
                assert_ne!(snap[i].id, snap[j].id);
            }
        }
    }
}

#[test]
fn fifth_join_fails_lobby_full_and_registry_unchanged() {
    let mut reg = Registry::new();
    for id in 1..=4u128 {
        join(&mut reg, id, "p");
    }
    let before = roster_triples(&reg.snapshot());
    let r = handle_event(&mut reg, 5, &ClientEvent::NewPlayer { name: "late".to_string() });
    assert_eq!(r.unwrap_err(), SessionError::LobbyFull);
    assert_eq!(roster_triples(&reg.snapshot()), before);
    assert_eq!(reg.len(), 4);
}

#[test]
fn assign_color_reports_exhaustion() {
    let mut reg = Registry::new();
    assert_eq!(reg.assign_color().unwrap(), Color::Red);
    for id in 1..=4u128 {
        reg.add_player(id, format!("p{}", id)).unwrap();
    }
    assert_eq!(reg.assign_color().unwrap_err(), RegistryError::ColorsExhausted);
}

#[test]
fn toggle_twice_returns_to_original() {
    let mut reg = Registry::new();
    join(&mut reg, 1, "a");
    assert!(!reg.snapshot()[0].ready);
    reg.toggle_ready(1);
    assert!(reg.snapshot()[0].ready);
    reg.toggle_ready(1);
    assert!(!reg.snapshot()[0].ready);
}

#[test]
fn toggle_unregistered_id_has_no_effect() {
    let mut reg = Registry::new();
    join(&mut reg, 1, "a");
    let before = roster_triples(&reg.snapshot());
    reg.toggle_ready(42);
    assert_eq!(roster_triples(&reg.snapshot()), before);
}

#[test]
fn duplicate_join_same_id_is_protocol_violation() {
    let mut reg = Registry::new();
    join(&mut reg, 1, "a");
    let r = handle_event(&mut reg, 1, &ClientEvent::NewPlayer { name: "again".to_string() });
    assert_eq!(r.unwrap_err(), SessionError::ProtocolViolation);
    assert_eq!(reg.len(), 1);
}

#[test]
fn departed_color_is_assignable_again() {
    let mut reg = Registry::new();
    for id in 1..=4u128 {
        join(&mut reg, id, "p");
    }
    reg.remove_player(2);
    assert_eq!(reg.len(), 3);
    assert_eq!(reg.assign_color().unwrap(), Color::Blue);
    let snap = join(&mut reg, 9, "new").unwrap();
    assert_eq!(snap[3].color, Color::Blue);
}

#[test]
fn remove_absent_player_is_noop() {
    let mut reg = Registry::new();
    join(&mut reg, 1, "a");
    let before = roster_triples(&reg.snapshot());
    reg.remove_player(99);
    assert_eq!(roster_triples(&reg.snapshot()), before);
}

#[test]
fn scenario_alice_bob() {
    let mut reg = Registry::new();
    let snap = join(&mut reg, 10, "Alice").unwrap();
    assert_eq!(roster_triples(&snap), vec![("Alice".to_string(), Color::Red, false)]);

    let snap = join(&mut reg, 20, "Bob").unwrap();
    assert_eq!(
        roster_triples(&snap),
        vec![("Alice".to_string(), Color::Red, false), ("Bob".to_string(), Color::Blue, false)],
    );

    let snap = handle_event(&mut reg, 10, &ClientEvent::ToggleReady).unwrap().unwrap();
    assert_eq!(
        roster_triples(&snap),
        vec![("Alice".to_string(), Color::Red, true), ("Bob".to_string(), Color::Blue, false)],
    );

    reg.remove_player(10);
    assert_eq!(roster_triples(&reg.snapshot()), vec![("Bob".to_string(), Color::Blue, false)]);
    assert_eq!(reg.assign_color().unwrap(), Color::Red);
}

fn pop_roster(dir: &mut Directory, id: u128) -> Vec<Player> {
    match dir.pop_next(id) {
        Some(ServerEvent::PlayersInLobby { players }) => players,
        other => panic!("expected a roster payload, got {:?}", other.is_some()),
    }
}

#[test]
fn broadcast_reaches_every_session_exactly_once() {
    let mut dir = Directory::new();
    dir.register(1, "c1".to_string());
    dir.register(2, "c2".to_string());
    let payload = ServerEvent::YourId { id: 7 };
    dir.broadcast(&payload);
    for id in [1u128, 2u128] {
        match dir.pop_next(id) {
            Some(ServerEvent::YourId { id: got }) => assert_eq!(got, 7),
            _ => panic!("missing broadcast for session {}", id),
        }
        assert!(dir.pop_next(id).is_none());
    }
}

#[test]
fn queue_delivers_in_fifo_order() {
    let mut dir = Directory::new();
    dir.register(1, "c1".to_string());
    dir.broadcast(&ServerEvent::YourId { id: 100 });
    dir.broadcast(&ServerEvent::YourId { id: 200 });
    match dir.pop_next(1) {
        Some(ServerEvent::YourId { id }) => assert_eq!(id, 100),
        _ => panic!("first payload missing"),
    }
    match dir.pop_next(1) {
        Some(ServerEvent::YourId { id }) => assert_eq!(id, 200),
        _ => panic!("second payload missing"),
    }
    assert!(dir.pop_next(1).is_none());
}

#[test]
fn full_queue_drops_newest_without_blocking_others() {
    let mut dir = Directory::new();
    dir.register(1, "slow".to_string());
    dir.register(2, "quick".to_string());
    for i in 0..QUEUE_CAPACITY {
        dir.broadcast(&ServerEvent::YourId { id: i as u128 });
    }
    // Session 2 drains its queue; session 1 stays full.
    for i in 0..QUEUE_CAPACITY {
        match dir.pop_next(2) {
            Some(ServerEvent::YourId { id }) => assert_eq!(id, i as u128),
            _ => panic!("payload {} missing", i),
        }
    }
    dir.broadcast(&ServerEvent::YourId { id: 999 });
    // The quick session still receives the new payload.
    match dir.pop_next(2) {
        Some(ServerEvent::YourId { id }) => assert_eq!(id, 999),
        _ => panic!("payload after drain missing"),
    }
    // The slow session's queue kept its old payloads; the newest was dropped.
    for i in 0..QUEUE_CAPACITY {
        match dir.pop_next(1) {
            Some(ServerEvent::YourId { id }) => assert_eq!(id, i as u128),
            _ => panic!("old payload {} missing", i),
        }
    }
    assert!(dir.pop_next(1).is_none());
}

#[test]
fn unregister_is_safe_for_unknown_session() {
    let mut dir = Directory::new();
    dir.unregister(5);
    assert_eq!(dir.len(), 0);
    dir.register(1, "c1".to_string());
    dir.unregister(5);
    assert_eq!(dir.len(), 1);
    dir.unregister(1);
    assert_eq!(dir.len(), 0);
    assert!(!dir.contains(1));
}

#[test]
fn pop_next_for_unknown_session_is_none() {
    let mut dir = Directory::new();
    assert!(dir.pop_next(3).is_none());
}

#[test]
fn open_with_id_succeeds_iff_identifier_is_free() {
    let reg = Registry::new();
    let mut dir = Directory::new();
    let (s, msgs) = Session::open_with_id(&reg, &mut dir, "c1".to_string(), 77)
        .expect("a free identifier must be admitted");
    assert_eq!(s.id, 77);
    assert_eq!(s.phase, SessionPhase::Connecting);
    assert!(dir.contains(77));
    assert_eq!(msgs.len(), 2);
    // The same identifier collides while that session is live...
    assert!(Session::open_with_id(&reg, &mut dir, "c2".to_string(), 77).is_none());
    assert_eq!(dir.len(), 1);
    // ...and is admitted again once it is gone.
    dir.unregister(77);
    assert!(Session::open_with_id(&reg, &mut dir, "c3".to_string(), 77).is_some());
}

fn open_session(reg: &Registry, dir: &mut Directory, addr: &str) -> (Session, Vec<ServerEvent>) {
    Session::open(reg, dir, addr.to_string()).expect("a fresh identifier collided")
}

#[test]
fn open_sends_roster_then_identity_to_new_connection_only() {
    let mut reg = Registry::new();
    join(&mut reg, 1, "a");
    let mut dir = Directory::new();
    let (session, msgs) = open_session(&reg, &mut dir, "c1");
    assert_eq!(session.phase, SessionPhase::Connecting);
    assert_eq!(msgs.len(), 2);
    match &msgs[0] {
        ServerEvent::PlayersInLobby { players } => {
            assert_eq!(roster_triples(players), vec![("a".to_string(), Color::Red, false)]);
        },
        _ => panic!("first baseline message is not the roster"),
    }
    match &msgs[1] {
        ServerEvent::YourId { id } => assert_eq!(*id, session.id),
        _ => panic!("second baseline message is not the identity"),
    }
    // Baseline messages go to the new connection directly, not through the queue.
    assert!(dir.pop_next(session.id).is_none());
}

#[test]
fn join_is_broadcast_to_all_sessions_including_sender() {
    let reg0 = Registry::new();
    let mut reg = Registry::new();
    let mut dir = Directory::new();
    let (mut s1, _) = open_session(&reg0, &mut dir, "c1");
    let (mut s2, _) = open_session(&reg0, &mut dir, "c2");
    s1.activate();
    s2.activate();
    let r = s1.on_inbound(
        &mut reg,
        &mut dir,
        Inbound::Received(ClientEvent::NewPlayer { name: "Alice".to_string() }),
    );
    assert!(r.is_ok());
    assert_eq!(s1.phase, SessionPhase::Active);
    for id in [s1.id, s2.id] {
        let roster = pop_roster(&mut dir, id);
        assert_eq!(roster_triples(&roster), vec![("Alice".to_string(), Color::Red, false)]);
    }
}

#[test]
fn close_request_then_finish_cleans_up_exactly_once() {
    let reg0 = Registry::new();
    let mut reg = Registry::new();
    let mut dir = Directory::new();
    let (mut s1, _) = open_session(&reg0, &mut dir, "c1");
    let (mut s2, _) = open_session(&reg0, &mut dir, "c2");
    s1.activate();
    s2.activate();
    s1.on_inbound(
        &mut reg,
        &mut dir,
        Inbound::Received(ClientEvent::NewPlayer { name: "Alice".to_string() }),
    )
    .unwrap();
    // Drain the join broadcast so the farewell roster is next.
    pop_roster(&mut dir, s1.id);
    pop_roster(&mut dir, s2.id);

    let r = s1.on_inbound(&mut reg, &mut dir, Inbound::CloseRequest);
    assert!(r.is_ok());
    assert_eq!(s1.phase, SessionPhase::Closing);
    s1.finish(&mut reg, &mut dir);
    assert_eq!(s1.phase, SessionPhase::Closed);
    assert_eq!(reg.len(), 0);
    assert!(!dir.contains(s1.id));
    // The remaining session sees the refreshed (now empty) roster.
    let roster = pop_roster(&mut dir, s2.id);
    assert!(roster.is_empty());
    // Alice's color is assignable again.
    assert_eq!(reg.assign_color().unwrap(), Color::Red);
}

#[test]
fn malformed_message_is_a_protocol_violation() {
    let reg0 = Registry::new();
    let mut reg = Registry::new();
    let mut dir = Directory::new();
    let (mut s, _) = open_session(&reg0, &mut dir, "c1");
    s.activate();
    let r = s.on_inbound(&mut reg, &mut dir, Inbound::Malformed);
    assert_eq!(r.unwrap_err(), SessionError::ProtocolViolation);
    assert_eq!(s.phase, SessionPhase::Closing);
}

#[test]
fn transport_failure_closes_the_session() {
    let reg0 = Registry::new();
    let mut reg = Registry::new();
    let mut dir = Directory::new();
    let (mut s, _) = open_session(&reg0, &mut dir, "c1");
    s.activate();
    s.on_transport_failure();
    assert_eq!(s.phase, SessionPhase::Closing);
    s.finish(&mut reg, &mut dir);
    assert_eq!(s.phase, SessionPhase::Closed);
    assert!(!dir.contains(s.id));
}

#[test]
fn finish_for_never_registered_player_broadcasts_nothing() {
    let reg0 = Registry::new();
    let mut reg = Registry::new();
    let mut dir = Directory::new();
    let (mut s1, _) = open_session(&reg0, &mut dir, "c1");
    let (mut s2, _) = open_session(&reg0, &mut dir, "c2");
    s1.activate();
    s2.activate();
    s1.on_inbound(&mut reg, &mut dir, Inbound::CloseRequest).unwrap();
    s1.finish(&mut reg, &mut dir);
    // No player was registered for session 1, so no farewell broadcast.
    assert!(dir.pop_next(s2.id).is_none());
}

#[test]
fn lobby_full_join_closes_session_without_registry_change() {
    let reg0 = Registry::new();
    let mut reg = Registry::new();
    let mut dir = Directory::new();
    for id in 1..=4u128 {
        join(&mut reg, id, "p");
    }
    let (mut s, _) = open_session(&reg0, &mut dir, "c5");
    s.activate();
    let r = s.on_inbound(
        &mut reg,
        &mut dir,
        Inbound::Received(ClientEvent::NewPlayer { name: "late".to_string() }),
    );
    assert_eq!(r.unwrap_err(), SessionError::LobbyFull);
    assert_eq!(s.phase, SessionPhase::Closing);
    assert_eq!(reg.len(), 4);
    // The rejected join was not broadcast.
    assert!(dir.pop_next(s.id).is_none());
}

#[test]
fn error_descriptions_are_stable() {
    assert_eq!(SessionError::ProtocolViolation.describe(), "protocol violation");
    assert_eq!(SessionError::LobbyFull.describe(), "lobby full");
    assert_eq!(SessionError::TransportFailure.describe(), "transport failure");
}
