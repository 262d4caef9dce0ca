use bsv::primitives::private_key::PrivateKey;
use bsv_messagebox_client::live::{
    mailed, Acknowledgement, LiveFeed, LiveStep, Subscriptions, MAX_POLL_SKIPS, POLL_INTERVAL_MS,
};
use bsv_messagebox_client::sending::MessageOrder;
use bsv_messagebox_client::types::{PaymentCustomInstructions, PaymentToken};
use bsv_messagebox_client::{DeliveryMode, MessageBoxClient, MessageBoxError};

fn client() -> MessageBoxClient {
    MessageBoxClient::new("https://own", None)
}

fn order(recipient: &str) -> MessageOrder {
    MessageOrder {
        recipient: recipient.to_string(),
        message_box: "inbox".to_string(),
        body: "hi".to_string(),
        skip_encryption: false,
        check_permissions: true,
        message_id: None,
        host: None,
    }
}

fn key() -> String {
    PrivateKey::from_random().unwrap().to_public_key().to_der_hex()
}

#[test]
fn live_messages_are_acknowledged() {
    let to = key();
    let s = match client().send_live_message(order(&to)) {
        LiveStep::Resolve(s) => s,
        _ => panic!("resolve"),
    };
    let s = match s.resolved(Ok("https://own".to_string())) {
        LiveStep::Connect(s, host) => {
            assert_eq!(host, "https://own");
            s
        }
        _ => panic!("connect"),
    };
    let s = match s.connected(Ok(())) {
        LiveStep::Identify(s) => s,
        _ => panic!("identify"),
    };
    let s = match s.identified(Ok("03me".to_string())) {
        Ok(LiveStep::Join(s, room)) => {
            assert_eq!(room, "03me-inbox");
            s
        }
        _ => panic!("join"),
    };
    let s = match s.joined(Ok(())) {
        Ok(LiveStep::Encrypt(s, q)) => {
            assert_eq!(q.plaintext, b"hi");
            s
        }
        _ => panic!("encrypt"),
    };
    let b = match s.encrypted(Ok(vec![1, 2, 3])) {
        Ok(LiveStep::Name(b, q)) => {
            assert_eq!(q.data, b"\"hi\"");
            b
        }
        _ => panic!("name"),
    };
    let (e, data, event) = match b.named(Ok(vec![1; 32])) {
        Ok(LiveStep::Emit(e, data, event)) => (e, data, event),
        _ => panic!("emit"),
    };
    assert_eq!(event, format!("sendMessageAck-{to}-inbox"));
    let v: serde_json::Value = serde_json::from_str(&data).unwrap();
    assert_eq!(v["roomId"], format!("{to}-inbox").as_str());
    assert_eq!(v["message"]["messageId"], "01".repeat(32).as_str());
    assert_eq!(v["message"]["recipient"], to.as_str());
    assert_eq!(v["message"]["body"], r#"{"encryptedMessage":"AQID"}"#);
    let e = match e.emitted(Ok(())) {
        Ok(LiveStep::Await(e)) => e,
        _ => panic!("await"),
    };
    match e.acknowledged(Acknowledgement::Accepted) {
        LiveStep::Done(d) => {
            assert!(d.is_live());
            assert_eq!(d.message_id(), "01".repeat(32));
        }
        _ => panic!("done"),
    }
}

fn with_host() -> MessageOrder {
    let mut o = order(&key());
    o.host = Some("https://o".to_string());
    o.message_id = Some("m".to_string());
    o.skip_encryption = true;
    o
}

fn connecting() -> bsv_messagebox_client::live::LiveSend {
    match client().send_live_message(with_host()) {
        LiveStep::Connect(s, host) => {
            assert_eq!(host, "https://o");
            s
        }
        _ => panic!("connect"),
    }
}

fn identified() -> bsv_messagebox_client::live::LiveSend {
    match connecting().connected(Ok(())) {
        LiveStep::Identify(s) => match s.identified(Ok("me".to_string())) {
            Ok(LiveStep::Join(s, _)) => s,
            _ => panic!("join"),
        },
        _ => panic!("identify"),
    }
}

#[test]
fn messages_go_by_mail_when_they_cannot_go_live() {
    let down = || Err(MessageBoxError::WebSocket("down".to_string()));
    assert!(matches!(
        connecting().connected(down()),
        LiveStep::Mail(o, None) if o.message_id.as_deref() == Some("m")
    ));
    assert!(matches!(identified().joined(down()), Ok(LiveStep::Mail(_, None))));
    let waiting = || match identified().joined(Ok(())) {
        Ok(LiveStep::Emit(e, _, _)) => match e.emitted(Ok(())) {
            Ok(LiveStep::Await(e)) => e,
            _ => panic!("await"),
        },
        _ => panic!("emit"),
    };
    assert!(matches!(
        waiting().acknowledged(Acknowledgement::Refused),
        LiveStep::Mail(o, None) if o.message_id.as_deref() == Some("m")
    ));
    match waiting().acknowledged(Acknowledgement::OutOfTime) {
        LiveStep::Mail(o, Some(event)) => {
            assert_eq!(o.message_id.as_deref(), Some("m"));
            assert!(o.check_permissions);
            assert_eq!(event, format!("sendMessageAck-{}-inbox", o.recipient));
        }
        _ => panic!("mail"),
    }
    let elsewhere = match client().send_live_message(order("r")) {
        LiveStep::Resolve(s) => s.resolved(Ok("https://elsewhere".to_string())),
        _ => panic!("resolve"),
    };
    assert!(matches!(elsewhere, LiveStep::Mail(_, None)));
    let unknown = match client().send_live_message(order("r")) {
        LiveStep::Resolve(s) => s.resolved(Err(MessageBoxError::NotInitialized)),
        _ => panic!("resolve"),
    };
    assert!(matches!(unknown, LiveStep::Connect(_, _)));
    match mailed(Ok("id".to_string())) {
        Ok(d) => {
            assert!(matches!(&d, DeliveryMode::Persisted { .. }));
            assert_eq!(d.message_id(), "id");
        }
        Err(_) => panic!("mailed"),
    }
    assert!(mailed(Err(MessageBoxError::NotInitialized)).is_err());
}

#[test]
fn live_messages_fail_with_their_wallet() {
    assert!(connecting().identified(Err(MessageBoxError::NotInitialized)).is_err());
    assert!(matches!(
        identified().encrypted(Err("w".to_string())),
        Err(MessageBoxError::Wallet(_))
    ));
    let e = match identified().joined(Ok(())) {
        Ok(LiveStep::Emit(e, _, _)) => e,
        _ => panic!("emit"),
    };
    assert!(e.emitted(Err(MessageBoxError::WebSocket("x".to_string()))).is_err());
}

#[test]
fn standing_connections_are_kept() {
    let c = client();
    assert_eq!(c.connection_host(Some(true), None), None);
    assert_eq!(c.connection_host(None, None), Some("https://own".to_string()));
    assert_eq!(
        c.connection_host(Some(false), Some("https://o")),
        Some("https://o".to_string())
    );
}

#[test]
fn messages_are_handed_on_once() {
    let mut f = LiveFeed::new();
    assert!(f.push("1"));
    assert!(!f.poll("1"));
    assert!(f.poll("2"));
    assert!(!f.push("2"));
    assert!(!f.push("1"));
}

#[test]
fn the_mailbox_is_looked_into_within_sixteen_seconds() {
    let mut f = LiveFeed::new();
    assert!(f.tick(), "nothing was pushed");
    let mut skipped: u64 = 0;
    for i in 0..100 {
        f.push(&format!("{i}"));
        if f.tick() {
            assert_eq!(skipped, MAX_POLL_SKIPS as u64);
            skipped = 0;
        } else {
            skipped += 1;
            assert!((skipped + 1) * POLL_INTERVAL_MS <= 16_000);
        }
    }
    f.push("again");
    let _ = f.tick();
    assert!(f.tick(), "nothing was pushed since the last look");
}

#[test]
fn subscriptions_are_replayed_until_they_are_removed() {
    let mut s = Subscriptions::new();
    s.add("a-inbox");
    s.add("b-inbox");
    s.add("a-inbox");
    let rooms: Vec<(String, String)> =
        s.replay().into_iter().map(|r| (r.room_id, r.event_key)).collect();
    assert_eq!(
        rooms,
        vec![
            ("a-inbox".to_string(), "sendMessage-a-inbox".to_string()),
            ("b-inbox".to_string(), "sendMessage-b-inbox".to_string())
        ]
    );
    s.remove("a-inbox");
    assert_eq!(s.replay().len(), 1);
    assert_eq!(s.replay()[0].room_id, "b-inbox");
}

#[test]
fn payments_go_live_to_the_payment_inbox() {
    let token = PaymentToken {
        custom_instructions: PaymentCustomInstructions {
            derivation_prefix: "p".to_string(),
            derivation_suffix: "s".to_string(),
            payee: None,
        },
        transaction: vec![1],
        amount: 7,
        output_index: None,
    };
    let step = match client().send_live_payment("03r", &token) {
        LiveStep::Resolve(s) => s.resolved(Ok("https://elsewhere".to_string())),
        _ => panic!("resolve"),
    };
    match step {
        LiveStep::Mail(o, None) => {
            assert_eq!(o.recipient, "03r");
            assert_eq!(o.message_box, "payment_inbox");
            assert!(o.body.contains("\"amount\":7"));
        }
        _ => panic!("mail"),
    }
}
