use bsv_messagebox_client::client::room_id;
use bsv_messagebox_client::collections::TextSet;
use bsv_messagebox_client::encryption::DecryptOutcome;
use bsv_messagebox_client::types::ServerPeerMessage;
use bsv_messagebox_client::websocket::{
    ack_key, event_key, event_status, live_message, split_room_id, Dispatch, MessageBoxWebSocket,
};
use bsv_messagebox_client::MessageBoxClient;

#[test]
fn room_id_format() {
    let my_key = "03abc";
    let recipient = "03def";
    let message_box = "payment_inbox";
    let listen_room = room_id(my_key, message_box);
    let send_room = room_id(recipient, message_box);
    assert_eq!(listen_room, "03abc-payment_inbox");
    assert_eq!(send_room, "03def-payment_inbox");
    assert_ne!(listen_room, send_room);
}

#[test]
fn split_room_id_hex_key() {
    let key = "a".repeat(66);
    let mb = "my_inbox";
    let room_id = format!("{key}-{mb}");
    let (got_key, got_mb) = split_room_id(&room_id);
    assert_eq!(got_key, key);
    assert_eq!(got_mb, mb);
}

#[test]
fn split_room_id_mb_with_hyphen() {
    let key = "b".repeat(66);
    let mb = "payment-inbox-v2";
    let room_id = format!("{key}-{mb}");
    let (got_key, got_mb) = split_room_id(&room_id);
    assert_eq!(got_key, key);
    assert_eq!(got_mb, mb);
}

#[test]
fn rooms_without_a_key_are_split_at_the_first_hyphen() {
    assert_eq!(split_room_id("03abc-a-b"), ("03abc".to_string(), "a-b".to_string()));
    assert_eq!(split_room_id("no hyphen"), ("no hyphen".to_string(), String::new()));
    assert_eq!(split_room_id("-x"), (String::new(), "x".to_string()));
    assert_eq!(split_room_id(""), (String::new(), String::new()));
    let wide = format!("{}-m", "é".repeat(33));
    assert_eq!(split_room_id(&wide), ("é".repeat(33), "m".to_string()));
    let key = format!("a-{}", "b".repeat(64));
    assert_eq!(split_room_id(&format!("{key}-m")), (key, "m".to_string()));
}

#[test]
fn rooms_tell_their_owner_again() {
    let key = "02".repeat(33);
    assert_eq!(
        split_room_id(&room_id(&key, "a-b-c")),
        (key, "a-b-c".to_string())
    );
}

#[test]
fn join_room_idempotency_uses_hashset() {
    let mut rooms = TextSet::new();
    let room_id = "03abc-payment_inbox";
    let first = rooms.insert(room_id);
    let second = rooms.insert(room_id);
    assert!(first, "first insert returns true");
    assert!(!second, "second insert returns false (already present)");
    assert_eq!(rooms.len(), 1, "only one entry in set");
}

#[test]
fn text_sets_keep_the_order_of_their_texts() {
    let mut s = TextSet::new();
    for t in ["b", "a", "c", "a"] {
        let _ = s.insert(t);
    }
    assert_eq!(s.items(), vec!["b", "a", "c"]);
    s.remove("a");
    assert!(!s.contains("a"));
    assert!(s.contains("c"));
    assert_eq!(s.len(), 2);
    s.clear();
    assert_eq!(s.len(), 0);
}

fn resolved(d: Dispatch) -> Option<(u64, bool)> {
    match d {
        Dispatch::Resolve(w, ok) => Some((w, ok)),
        _ => None,
    }
}

#[test]
fn fifo_acks_resolve_concurrent_same_room_sends_in_order() {
    let mut ws = MessageBoxWebSocket::new();
    let key = "sendMessageAck-03abc-inbox";
    ws.emit_send_message(key, 1);
    ws.emit_send_message(key, 2);
    assert_eq!(
        resolved(ws.dispatch(key, Some("success"))),
        Some((1, true)),
        "first send resolved by first ack"
    );
    assert_eq!(
        resolved(ws.dispatch(key, Some("error"))),
        Some((2, false)),
        "second send resolved by second ack"
    );
    assert_eq!(resolved(ws.dispatch(key, Some("success"))), None, "nobody waits any more");
}

#[test]
fn the_status_is_read_out_of_the_data() {
    let value = |text: &str| serde_json::from_str::<serde_json::Value>(text).expect("JSON");
    assert_eq!(event_status(&value(r#"{"status":"success"}"#)), Some("success"));
    assert_eq!(event_status(&value(r#"{"status":1}"#)), None);
    assert_eq!(event_status(&value("[]")), None);
}

#[test]
fn remove_pending_ack_pops_oldest_and_clears_empty_key() {
    let mut ws = MessageBoxWebSocket::new();
    let key = "sendMessageAck-03abc-inbox";
    ws.emit_send_message(key, 7);
    assert_eq!(ws.remove_pending_ack(key), Some(7));
    assert_eq!(ws.remove_pending_ack(key), None);
    assert!(ws.disconnect().is_empty(), "no leaked ack entries");
}

#[test]
fn acks_are_per_room_independent() {
    let mut ws = MessageBoxWebSocket::new();
    let key_a = "sendMessageAck-03aaa-inbox";
    let key_b = "sendMessageAck-03bbb-inbox";
    ws.emit_send_message(key_a, 1);
    ws.emit_send_message(key_b, 2);
    assert_eq!(
        resolved(ws.dispatch(key_a, Some("success"))),
        Some((1, true)),
        "room A resolved"
    );
    assert_eq!(ws.disconnect(), vec![2], "room B still pending");
}

#[test]
fn a_failed_send_takes_its_own_waiter_back() {
    let mut ws = MessageBoxWebSocket::new();
    let a = ack_key("a");
    let b = ack_key("b");
    ws.emit_send_message(&a, 1);
    ws.emit_send_message(&a, 2);
    ws.emit_send_message(&b, 3);
    assert_eq!(ws.emit_failed(&a), Some(2));
    assert_eq!(ws.emit_failed(&ack_key("c")), None);
    assert_eq!(ws.remove_pending_ack(&a), Some(1));
    assert_eq!(ws.disconnect(), vec![3]);
}

#[test]
fn messages_go_to_the_subscriber_of_their_room() {
    let mut ws = MessageBoxWebSocket::new();
    let event = event_key("03abc-inbox");
    assert_eq!(event, "sendMessage-03abc-inbox");
    assert!(matches!(ws.dispatch(&event, None), Dispatch::Ignore));
    ws.subscribe(&event);
    match ws.dispatch(&event, None) {
        Dispatch::Deliver(room) => assert_eq!(room, "03abc-inbox"),
        _ => panic!("not delivered"),
    }
    assert!(ws.must_join("03abc-inbox"));
    ws.join_room("03abc-inbox");
    assert!(!ws.must_join("03abc-inbox"));
    ws.leave_room("03abc-inbox");
    assert!(ws.must_join("03abc-inbox"));
    assert!(matches!(ws.dispatch(&event, None), Dispatch::Ignore));
    assert!(matches!(ws.dispatch("authenticationSuccess", Some("success")), Dispatch::Ignore));
}

#[test]
fn messages_are_handed_on_once_and_in_their_order() {
    let mut ws = MessageBoxWebSocket::new();
    ws.subscribe(&event_key("a"));
    ws.subscribe(&event_key("c"));
    ws.emit_send_message(&ack_key("a"), 5);
    let events = [event_key("a"), event_key("b"), ack_key("a"), event_key("c"), event_key("a"), ack_key("b")];
    let mut rooms = vec![];
    let mut resolved_waiters = vec![];
    for e in &events {
        match ws.dispatch(e, Some("success")) {
            Dispatch::Deliver(room) => rooms.push(room),
            Dispatch::Resolve(w, success) => resolved_waiters.push((w, success)),
            Dispatch::Ignore => {}
        }
    }
    assert_eq!(rooms, vec!["a", "c", "a"]);
    assert_eq!(resolved_waiters, vec![(5, true)]);
}

#[test]
fn live_messages_tell_whether_they_were_authenticated() {
    let key = "03".repeat(33);
    let room = room_id(&key, "inbox");
    let message = ServerPeerMessage {
        message_id: "m".to_string(),
        body: "cipher".to_string(),
        sender: "02s".to_string(),
        created_at: String::new(),
        updated_at: String::new(),
        acknowledged: None,
    };
    let m = live_message(message.clone(), &room, DecryptOutcome::Decrypted("clear".to_string()));
    assert!(m.authenticated_decrypt);
    assert_eq!(m.body, "clear");
    assert_eq!(m.recipient, key);
    assert_eq!(m.message_box, "inbox");
    assert_eq!(m.message_id, "m");
    assert_eq!(m.sender, "02s");
    let m = live_message(message, &room, DecryptOutcome::Plaintext("cipher".to_string()));
    assert!(!m.authenticated_decrypt);
    assert_eq!(m.body, "cipher");
}

#[test]
fn parity_04_get_joined_rooms_empty() {
    let client = MessageBoxClient::new("https://example.com", None);
    assert!(
        client.get_joined_rooms().is_empty(),
        "get_joined_rooms() must return an empty set before any joins"
    );
}

#[test]
fn joined_rooms_are_remembered_once() {
    let mut client = MessageBoxClient::new("https://example.com", None);
    client.join_room("a");
    client.join_room("b");
    client.join_room("a");
    assert_eq!(client.get_joined_rooms(), vec!["a", "b"]);
    assert!(client.is_in_room("b"));
    client.leave_room("a");
    assert!(!client.is_in_room("a"));
    assert_eq!(client.get_joined_rooms(), vec!["b"]);
}
