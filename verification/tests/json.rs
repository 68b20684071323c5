use session_relay::json::{player_json, roster_json, u16_decimal};
use session_relay::player::Player;

#[test]
fn decimal_writing_is_exact() {
    assert_eq!(u16_decimal(0), "0");
    assert_eq!(u16_decimal(7), "7");
    assert_eq!(u16_decimal(10), "10");
    assert_eq!(u16_decimal(30813), "30813");
    assert_eq!(u16_decimal(65535), "65535");
}

#[test]
fn player_object_has_the_wire_keys_in_order() {
    let p = Player::new(
        "127.0.0.1".to_string(),
        30813,
        "Alice".to_string(),
        "abc".to_string(),
        "0".to_string(),
    );
    assert_eq!(
        player_json(&p),
        "{\"remoteAddress\":\"127.0.0.1\",\"remotePort\":30813,\"nickname\":\"Alice\",\"id\":\"abc\",\"currentVehID\":\"0\"}"
    );
}

#[test]
fn player_object_escapes_through_the_serializer() {
    let p = Player::new(
        "::1".to_string(),
        1,
        "A\"B\\C".to_string(),
        "id-1".to_string(),
        "0".to_string(),
    );
    let text = player_json(&p);
    // Parse it back: the nickname must round-trip exactly.
    let v: serde_json::Value = serde_json::from_str(&text).unwrap();
    assert_eq!(v["nickname"].as_str().unwrap(), "A\"B\\C");
    assert_eq!(v["remoteAddress"].as_str().unwrap(), "::1");
}

#[test]
fn empty_roster_is_an_empty_array() {
    assert_eq!(roster_json(&Vec::new()), "[]");
}

#[test]
fn roster_array_lists_players_in_order() {
    let a = Player::new(
        "127.0.0.1".to_string(),
        1,
        "Alice".to_string(),
        "a".to_string(),
        "0".to_string(),
    );
    let b = Player::new(
        "127.0.0.1".to_string(),
        2,
        "Bob".to_string(),
        "b".to_string(),
        "3".to_string(),
    );
    let text = roster_json(&vec![a, b]);
    let v: serde_json::Value = serde_json::from_str(&text).unwrap();
    let arr = v.as_array().unwrap();
    assert_eq!(arr.len(), 2);
    assert_eq!(arr[0]["nickname"].as_str().unwrap(), "Alice");
    assert_eq!(arr[1]["nickname"].as_str().unwrap(), "Bob");
    assert_eq!(arr[1]["currentVehID"].as_str().unwrap(), "3");
}
