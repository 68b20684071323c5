use session_relay::player::Player;
use session_relay::registry::{Connections, RelayError, MAX_PLAYERS};

fn player(id: &str, nick: &str) -> Player {
    Player::new(
        "127.0.0.1".to_string(),
        30813,
        nick.to_string(),
        id.to_string(),
        "0".to_string(),
    )
}

#[test]
fn new_registry_is_empty() {
    let c = Connections::new();
    assert_eq!(c.len(), 0);
    assert!(c.get_list_of_players().is_empty());
}

#[test]
fn add_and_list_players() {
    let mut c = Connections::new();
    c.add_player(player("a", "Alice"), 1);
    c.add_player(player("b", "Bob"), 2);
    assert_eq!(c.len(), 2);
    let list = c.get_list_of_players();
    assert_eq!(list.len(), 2);
    assert_eq!(list[0].nickname, "Alice");
    assert_eq!(list[0].id, "a");
    assert_eq!(list[0].remote_address, "127.0.0.1");
    assert_eq!(list[0].remote_port, 30813);
    assert_eq!(list[0].current_veh_id, "0");
    assert_eq!(list[1].nickname, "Bob");
}

#[test]
fn add_player_with_taken_id_has_no_effect() {
    let mut c = Connections::new();
    c.add_player(player("a", "Alice"), 1);
    c.add_player(player("a", "Impostor"), 9);
    assert_eq!(c.len(), 1);
    let list = c.get_list_of_players();
    assert_eq!(list[0].nickname, "Alice");
}

#[test]
fn remove_player_goes_by_id_alone() {
    let mut c = Connections::new();
    c.add_player(player("a", "Alice"), 1);
    c.add_player(player("b", "Bob"), 2);
    // Same id, every other field different: still the same session.
    let other_record = Player::new(
        "10.0.0.9".to_string(),
        1234,
        "Someone".to_string(),
        "a".to_string(),
        "77".to_string(),
    );
    c.remove_player(&other_record);
    assert_eq!(c.len(), 1);
    assert_eq!(c.get_list_of_players()[0].id, "b");
}

#[test]
fn remove_absent_player_is_a_noop() {
    let mut c = Connections::new();
    c.add_player(player("a", "Alice"), 1);
    c.remove_player(&player("zzz", "Nobody"));
    assert_eq!(c.len(), 1);
}

#[test]
fn player_identity_ignores_other_fields() {
    let p = player("a", "Alice");
    let q = Player::new(
        "10.9.8.7".to_string(),
        1,
        "NotAlice".to_string(),
        "a".to_string(),
        "42".to_string(),
    );
    assert!(Player::eq(&p, &q));
    assert!(!Player::eq(&p, &player("b", "Alice")));
}

#[test]
fn player_copy_duplicates_every_field() {
    let p = player("a", "Alice");
    let q = Player::copy(&p);
    assert_eq!(q.remote_address, p.remote_address);
    assert_eq!(q.remote_port, p.remote_port);
    assert_eq!(q.nickname, p.nickname);
    assert_eq!(q.id, p.id);
    assert_eq!(q.current_veh_id, p.current_veh_id);
}

#[test]
fn broadcast_delivers_to_every_sink() {
    let mut c = Connections::new();
    c.add_player(player("a", "Alice"), 1);
    c.add_player(player("b", "Bob"), 2);
    c.add_player(player("c", "Carol"), 3);
    let ds = c.broadcast("hello".to_string());
    assert_eq!(ds.len(), 3);
    let sinks: Vec<u64> = ds.iter().map(|d| d.sink).collect();
    assert_eq!(sinks, vec![1, 2, 3]);
    assert!(ds.iter().all(|d| d.message == "hello"));
}

#[test]
fn broadcast_except_sender_skips_exactly_that_sink() {
    let mut c = Connections::new();
    c.add_player(player("a", "Alice"), 1);
    c.add_player(player("b", "Bob"), 2);
    c.add_player(player("c", "Carol"), 3);
    let ds = c.broadcast_to_everyone_else("update".to_string(), &player("b", "whatever"));
    let sinks: Vec<u64> = ds.iter().map(|d| d.sink).collect();
    assert_eq!(sinks, vec![1, 3]);
    assert!(ds.iter().all(|d| d.message == "update"));
}

#[test]
fn send_private_reaches_exactly_one_sink() {
    let mut c = Connections::new();
    c.add_player(player("a", "Alice"), 1);
    c.add_player(player("b", "Bob"), 2);
    let d = c.send_private("PONG".to_string(), &player("b", "x")).unwrap();
    assert_eq!(d.sink, 2);
    assert_eq!(d.message, "PONG");
}

#[test]
fn send_private_to_unknown_id_fails_without_mutation() {
    let mut c = Connections::new();
    c.add_player(player("a", "Alice"), 1);
    let r = c.send_private("PONG".to_string(), &player("ghost", "x"));
    assert_eq!(r.unwrap_err(), RelayError::PeerNotFound);
    // Nothing changed and nobody else was affected.
    assert_eq!(c.len(), 1);
    let list = c.get_list_of_players();
    assert_eq!(list[0].id, "a");
    assert_eq!(list[0].nickname, "Alice");
}

#[test]
fn capacity_limit_is_eight() {
    assert_eq!(MAX_PLAYERS, 8);
    let mut c = Connections::new();
    let ids = ["a", "b", "c", "d", "e", "f", "g", "h"];
    for (i, id) in ids.iter().enumerate() {
        if c.len() < MAX_PLAYERS {
            c.add_player(player(id, "P"), i as u64);
        }
    }
    assert_eq!(c.len(), 8);
}
