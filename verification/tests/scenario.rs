//! The full two-client session: connect, identify, chat, quit.

use session_relay::dispatch::{handle_client_msg, update_players_list_and_send};
use session_relay::handshake::{Handshake, HandshakeStep};
use session_relay::player::Player;
use session_relay::registry::{Connections, Delivery};

fn roster_of(delivery: &Delivery) -> Vec<serde_json::Value> {
    assert!(delivery.message.starts_with("PLST"));
    let parsed: serde_json::Value = serde_json::from_str(&delivery.message[4..]).unwrap();
    parsed.as_array().unwrap().clone()
}

fn identify(hs: &mut Handshake, nickname: &str, port: u16) -> Player {
    let line = format!("USER{{\"nickname\":\"{}\"}}", nickname);
    match hs.on_line(&line, "127.0.0.1", port) {
        HandshakeStep::Admit(p) => p,
        _ => panic!("handshake should have admitted {}", nickname),
    }
}

#[test]
fn two_clients_join_and_one_quits() {
    let mut connections = Connections::new();
    let mut map = String::new();

    // Client A connects: greeting, then identification as Alice.
    let (mut hs_a, frames_a) = Handshake::begin(&map);
    assert_eq!(frames_a[0], format!("HOLA{}", hs_a.id));
    assert_eq!(frames_a[1], "MAPS");
    assert_eq!(frames_a[2], "VCHK0.0.3");
    let mut alice = identify(&mut hs_a, "Alice", 50001);
    let alice_id = alice.id.clone();

    let ds = update_players_list_and_send(&alice, &mut connections, Some(1), true);
    assert_eq!(ds.len(), 1);
    assert_eq!(ds[0].sink, 1);
    let roster = roster_of(&ds[0]);
    assert_eq!(roster.len(), 1);
    assert_eq!(roster[0]["nickname"].as_str().unwrap(), "Alice");
    assert_eq!(roster[0]["id"].as_str().unwrap(), alice_id);

    // Client B connects and identifies as Bob: both clients get the
    // two-entry roster.
    let (mut hs_b, frames_b) = Handshake::begin(&map);
    assert_eq!(frames_b[1], "MAPS");
    let bob = identify(&mut hs_b, "Bob", 50002);
    let ds = update_players_list_and_send(&bob, &mut connections, Some(2), true);
    let sinks: Vec<u64> = ds.iter().map(|d| d.sink).collect();
    assert_eq!(sinks, vec![1, 2]);
    assert_eq!(roster_of(&ds[0]).len(), 2);
    assert_eq!(roster_of(&ds[1]).len(), 2);

    // A quits: B receives a one-entry roster without A's id.
    let r = handle_client_msg("QUIT", &mut connections, &mut alice, &mut map);
    assert!(!r.online);
    assert_eq!(r.deliveries.len(), 1);
    assert_eq!(r.deliveries[0].sink, 2);
    let roster = roster_of(&r.deliveries[0]);
    assert_eq!(roster.len(), 1);
    assert!(roster.iter().all(|p| p["id"].as_str().unwrap() != alice_id));
    assert_eq!(roster[0]["nickname"].as_str().unwrap(), "Bob");
}
