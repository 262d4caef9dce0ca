use bsv::primitives::private_key::PrivateKey;
use bsv_messagebox_client::adapter::{map_server_message, map_server_messages};
use bsv_messagebox_client::client::HttpReply;
use bsv_messagebox_client::listing::{
    acknowledge_message_on_host, acknowledge_post, dedup_messages, fan_out, list_post, FanOut,
};
use bsv_messagebox_client::types::{AdvertisementToken, PeerMessage, ServerPeerMessage};
use bsv_messagebox_client::{MessageBoxClient, MessageBoxError};

fn a_client() -> MessageBoxClient {
    MessageBoxClient::new("https://example.com", None)
}

fn server_message(id: &str, sender: &str, body: &str) -> ServerPeerMessage {
    ServerPeerMessage {
        message_id: id.to_string(),
        body: body.to_string(),
        sender: sender.to_string(),
        created_at: "2024-01-01T00:00:00Z".to_string(),
        updated_at: "2024-01-01T00:01:00Z".to_string(),
        acknowledged: None,
    }
}

fn message(id: &str, body: &str) -> PeerMessage {
    map_server_message(server_message(id, "03sender", body), "03me", "inbox")
}

#[test]
fn map_server_message_all_five_fields() {
    let peer_msg = map_server_message(
        server_message("msg-001", "03senderkey", "hello body"),
        "03myidentitykey",
        "payment_inbox",
    );
    assert_eq!(peer_msg.message_id, "msg-001");
    assert_eq!(peer_msg.sender, "03senderkey");
    assert_eq!(peer_msg.recipient, "03myidentitykey", "recipient from identity key");
    assert_eq!(peer_msg.message_box, "payment_inbox", "message_box from parameter");
    assert_eq!(peer_msg.body, "hello body");
}

#[test]
fn recipient_from_identity_key() {
    let key = PrivateKey::from_random().expect("random key");
    let mut client = MessageBoxClient::new("https://example.com", None);
    let identity_key = client
        .get_identity_key(Ok(key.to_public_key().to_der_hex()))
        .expect("get_identity_key");
    assert!(!identity_key.is_empty(), "identity key must not be empty");
    let peer_msg = map_server_message(server_message("x", "03other", "body"), &identity_key, "inbox");
    assert_eq!(peer_msg.recipient, identity_key);
    assert_ne!(peer_msg.recipient, "", "recipient must not be empty string");
}

#[test]
fn acknowledge_message_accepts_slice() {
    let ids: &[String] = &["id1".to_string(), "id2".to_string()];
    let post = acknowledge_post("https://h", ids);
    assert_eq!(post.body, r#"{"messageIds":["id1","id2"]}"#);
}

#[test]
fn test_acknowledge_accepts_slice_and_converts() {
    let ids: &[String] = &[
        "msg-001".to_string(),
        "msg-002".to_string(),
        "msg-003".to_string(),
    ];
    let post = acknowledge_post("https://h", ids);
    let v: serde_json::Value = serde_json::from_str(&post.body).unwrap();
    let converted = v["messageIds"].as_array().unwrap();
    assert_eq!(converted.len(), 3, "all IDs preserved");
    assert_eq!(converted[0], "msg-001");
    assert_eq!(converted[1], "msg-002");
    assert_eq!(converted[2], "msg-003");
}

#[test]
fn messages_are_mapped_in_order() {
    let ms = map_server_messages(
        vec![server_message("1", "a", "x"), server_message("2", "b", "y")],
        "me",
        "box",
    );
    assert_eq!(ms.len(), 2);
    assert_eq!(ms[0].message_id, "1");
    assert_eq!(ms[1].sender, "b");
    assert!(ms.iter().all(|m| m.recipient == "me" && m.message_box == "box"));
}

#[test]
fn test_list_messages_dedup_by_id() {
    let results = vec![
        vec![message("id-1", "first"), message("id-2", "second")],
        vec![message("id-1", "duplicate")],
    ];
    let deduped = dedup_messages(results);
    assert_eq!(deduped.len(), 2, "must deduplicate to 2 unique messages");
    let first = deduped.iter().find(|m| m.message_id == "id-1").unwrap();
    assert_eq!(first.body, "first", "first-seen must win on deduplication");
}

#[test]
fn deduplicating_twice_changes_nothing() {
    let once = dedup_messages(vec![vec![message("1", "a"), message("1", "b"), message("2", "c")]]);
    let twice = dedup_messages(vec![once.clone()]);
    let bodies = |v: &Vec<PeerMessage>| v.iter().map(|m| m.body.clone()).collect::<Vec<_>>();
    assert_eq!(bodies(&once), vec!["a", "c"]);
    assert_eq!(bodies(&once), bodies(&twice));
}

fn ad(host: &str) -> AdvertisementToken {
    AdvertisementToken {
        host: host.to_string(),
        txid: "t".to_string(),
        output_index: 0,
        locking_script: "00".to_string(),
        beef: vec![],
    }
}

fn hosts_of(f: FanOut) -> Vec<String> {
    match f {
        FanOut::One(h) => vec![h],
        FanOut::Hosts(hs) => hs,
    }
}

#[test]
fn every_advertised_host_is_asked_once() {
    let own = "https://own";
    assert!(matches!(fan_out(&vec![], own), FanOut::One(h) if h == own));
    let hs = hosts_of(fan_out(&vec![ad("https://a"), ad("https://b"), ad("https://a")], own));
    assert_eq!(hs.iter().filter(|h| *h == "https://a").count(), 1);
    assert!(hs.contains(&"https://b".to_string()));
    let c = MessageBoxClient::new(own, None);
    assert_eq!(
        hosts_of(c.message_hosts(Some("https://o"), &vec![ad("https://a")])),
        vec!["https://o"]
    );
}

#[test]
fn listing_and_acknowledging_are_posts() {
    let p = list_post("https://h", "inbox");
    assert_eq!(p.url, "https://h/listMessages");
    assert_eq!(p.body, r#"{"messageBox":"inbox"}"#);
    let p = acknowledge_post("https://h", &[]);
    assert_eq!(p.url, "https://h/acknowledgeMessage");
    assert_eq!(p.body, r#"{"messageIds":[]}"#);
}

#[test]
fn acknowledgements_fail_as_the_server_says() {
    let reply = |status: u16, body: &str| {
        Ok(HttpReply {
            status,
            body: body.as_bytes().to_vec(),
        })
    };
    assert!(acknowledge_message_on_host("u", reply(200, r#"{"status":"success"}"#)).is_ok());
    assert!(matches!(
        acknowledge_message_on_host("u", reply(401, "")),
        Err(MessageBoxError::Http(401, _))
    ));
    assert!(acknowledge_message_on_host("u", reply(200, r#"{"status":"error","description":"d"}"#))
        .is_err());
}

#[test]
fn one_answering_host_is_enough() {
    let failed = || Err(MessageBoxError::Overlay("down".to_string()));
    let ms = a_client().list_messages(vec![
        failed(),
        Ok(vec![message("1", "a")]),
        Ok(vec![message("1", "b"), message("2", "c")]),
    ])
    .expect("one host answered");
    assert_eq!(ms.len(), 2);
    assert_eq!(ms[0].body, "a");
    assert!(a_client().list_messages(vec![failed(), failed()]).is_err());
    assert!(a_client().acknowledge_message(&vec![
        Err(MessageBoxError::NotInitialized),
        Ok(())
    ])
    .is_ok());
    assert!(a_client().acknowledge_message(&vec![Err(MessageBoxError::NotInitialized)]).is_err());
}

fn identified() -> String {
    let key = PrivateKey::from_random().expect("random key");
    let mut client = MessageBoxClient::new("https://example.com", None);
    client
        .get_identity_key(Ok(key.to_public_key().to_der_hex()))
        .expect("identity key")
}

#[test]
fn test_send_list_ack_cycle() {
    let identity_key = identified();
    assert!(!identity_key.is_empty(), "identity key must not be empty");
    let message_id = "test-msg-001".to_string();
    let mut listed = map_server_messages(
        vec![server_message(&message_id, "03abc123def456", "hello")],
        &identity_key,
        "inbox",
    );
    let peer_msg = listed.pop().expect("one message");
    assert_eq!(peer_msg.message_id, "test-msg-001", "message_id from server");
    assert_eq!(peer_msg.sender, "03abc123def456", "sender from server");
    assert_eq!(
        peer_msg.recipient, identity_key,
        "recipient from identity key, not server"
    );
    assert_eq!(peer_msg.message_box, "inbox", "message_box from parameter");
    assert_eq!(peer_msg.body, "hello", "body from server");
    assert_ne!(peer_msg.recipient, "", "recipient must not be empty string");
    assert_ne!(peer_msg.message_box, "", "message_box must not be empty");
    let ids_to_ack: &[String] = std::slice::from_ref(&message_id);
    assert_eq!(
        acknowledge_post("https://example.com", ids_to_ack).body,
        r#"{"messageIds":["test-msg-001"]}"#,
        "ack IDs convert correctly"
    );
}

#[test]
fn test_list_messages_recipient_populated_from_identity_key() {
    let identity_key = identified();
    let peer_msgs = map_server_messages(
        vec![
            server_message("msg-a", "03sender1", "body a"),
            server_message("msg-b", "03sender2", "body b"),
        ],
        &identity_key,
        "payment_inbox",
    );
    assert_eq!(peer_msgs.len(), 2, "both messages present");
    for pm in &peer_msgs {
        assert_eq!(pm.recipient, identity_key, "recipient from identity key");
        assert_ne!(pm.recipient, "", "recipient never empty");
        assert_eq!(pm.message_box, "payment_inbox", "message_box from parameter");
    }
    assert_eq!(peer_msgs[0].message_id, "msg-a");
    assert_eq!(peer_msgs[1].message_id, "msg-b");
    assert_eq!(peer_msgs[0].sender, "03sender1");
    assert_eq!(peer_msgs[1].sender, "03sender2");
}
