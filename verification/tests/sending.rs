use bsv::primitives::private_key::PrivateKey;
use bsv_messagebox_client::client::HttpReply;
use bsv_messagebox_client::send_list::SendListStep;
use bsv_messagebox_client::sending::{send_message_to_host, MessageOrder, MessageStep, SendStep};
use bsv_messagebox_client::types::{
    MessageBoxMultiQuote, MessageBoxQuote, MessagePayment, RecipientQuote, SendListParams,
    SendListTotals,
};
use bsv_messagebox_client::{MessageBoxClient, MessageBoxError};

fn a_client() -> MessageBoxClient {
    MessageBoxClient::new("https://example.com", None)
}

fn key() -> String {
    PrivateKey::from_random().unwrap().to_public_key().to_der_hex()
}

fn order(recipient: &str) -> MessageOrder {
    MessageOrder {
        recipient: recipient.to_string(),
        message_box: "inbox".to_string(),
        body: "hi".to_string(),
        skip_encryption: false,
        check_permissions: false,
        message_id: None,
        host: None,
    }
}

fn value(text: &str) -> serde_json::Value {
    serde_json::from_str(text).expect("JSON")
}

#[test]
fn messages_are_encrypted_named_and_posted() {
    let to = key();
    let order = match a_client().send_message(order(&to)) {
        Ok(MessageStep::Resolve(o)) => o,
        _ => panic!("resolve"),
    };
    let (s, q) = match order.routed(Ok("https://h".to_string())) {
        Ok(SendStep::Encrypt(s, q)) => (s, q),
        _ => panic!("encrypt"),
    };
    assert_eq!(q.plaintext, b"hi");
    assert_eq!(q.protocol.name, "messagebox");
    assert_eq!(q.protocol.security_level, 1);
    assert_eq!(q.key_id, "1");
    let (s, q) = match s.encrypted(Ok(vec![1, 2, 3])) {
        Ok(SendStep::Identify(s, q)) => (s, q),
        _ => panic!("identify"),
    };
    assert_eq!(q.data, b"\"hi\"");
    let (p, post) = match s.identified(Ok(vec![0xab; 32])) {
        Ok(SendStep::Post(p, post)) => (p, post),
        _ => panic!("post"),
    };
    assert_eq!(post.url, "https://h/sendMessage");
    let v = value(&post.body);
    assert_eq!(v["message"]["recipient"], to.as_str());
    assert_eq!(v["message"]["messageBox"], "inbox");
    assert_eq!(v["message"]["messageId"], "ab".repeat(32).as_str());
    assert_eq!(v["message"]["body"], r#"{"encryptedMessage":"AQID"}"#);
    assert!(v.get("payment").is_none());
    let body = p
        .posted(Ok(HttpReply {
            status: 200,
            body: br#"{"status":"success"}"#.to_vec(),
        }))
        .unwrap();
    assert_eq!(body, br#"{"status":"success"}"#.to_vec());
    assert_eq!(p.sent(None), "ab".repeat(32));
}

#[test]
fn the_server_may_rename_a_message() {
    let step = send_message_to_host("https://h", "r", "b", "x", true, false, Some("mine"), None);
    match step {
        Ok(SendStep::Post(p, post)) => {
            assert_eq!(value(&post.body)["message"]["body"], "x");
            assert!(p
                .posted(Ok(HttpReply {
                    status: 500,
                    body: vec![]
                }))
                .is_err());
            assert_eq!(p.sent(Some("theirs".to_string())), "theirs");
        }
        _ => panic!("post"),
    }
}

#[test]
fn fees_are_asked_for_and_paid() {
    let start = || match send_message_to_host("https://h", "r", "b", "x", true, true, Some("m"), None) {
        Ok(SendStep::Quote(s)) => s,
        _ => panic!("quote"),
    };
    assert_eq!(start().recipient(), "r");
    assert_eq!(start().message_box(), "b");
    let quote = |d: i64, r: i64| MessageBoxQuote {
        delivery_fee: d,
        recipient_fee: r,
        delivery_agent_identity_key: "k".to_string(),
    };
    assert!(matches!(start().quoted(Ok(quote(0, 0))), Ok(SendStep::Post(_, _))));
    assert!(start().quoted(Err(MessageBoxError::NotInitialized)).is_err());
    match start().quoted(Ok(quote(0, 2))) {
        Ok(SendStep::Pay(s, q)) => {
            assert_eq!(q.recipient_fee, 2);
            let payment = MessagePayment {
                tx: vec![5],
                outputs: vec![],
            };
            match s.paid(Ok(payment)) {
                Ok(SendStep::Post(_, post)) => {
                    assert_eq!(value(&post.body)["payment"]["tx"][0], 5);
                }
                _ => panic!("post"),
            }
        }
        _ => panic!("pay"),
    }
    match start().quoted(Ok(quote(1, 0))) {
        Ok(SendStep::Pay(s, _)) => assert!(s.paid(Err(MessageBoxError::NotInitialized)).is_err()),
        _ => panic!("pay"),
    }
}

#[test]
fn orders_with_a_host_need_no_resolution() {
    let mut o = order(&key());
    o.host = Some("https://o".to_string());
    assert!(matches!(a_client().send_message(o), Ok(MessageStep::Send(SendStep::Encrypt(_, _)))));
    let mut o = order("not a key");
    o.host = Some("https://o".to_string());
    assert!(a_client().send_message(o).is_err());
    assert!(order(&key()).routed(Err(MessageBoxError::NotInitialized)).is_err());
}

fn recipient_quote(recipient: &str, d: i64, r: i64) -> RecipientQuote {
    RecipientQuote {
        recipient: recipient.to_string(),
        message_box: "inbox".to_string(),
        delivery_fee: d,
        recipient_fee: r,
        status: if r < 0 { "blocked" } else { "always_allow" }.to_string(),
    }
}

fn multi_quote(quotes: Vec<RecipientQuote>) -> MessageBoxMultiQuote {
    let blocked = quotes.iter().filter(|q| q.recipient_fee < 0).map(|q| q.recipient.clone()).collect();
    MessageBoxMultiQuote {
        quotes_by_recipient: quotes,
        totals: Some(SendListTotals {
            delivery_fees: 1,
            recipient_fees: 2,
            total_for_payable_recipients: 3,
        }),
        blocked_recipients: blocked,
        delivery_agent_identity_key_by_host: vec![("https://h1".to_string(), "agent1".to_string())],
    }
}

fn params() -> SendListParams {
    SendListParams {
        recipients: vec!["a".to_string(), "b".to_string(), "c".to_string()],
        message_box: "inbox".to_string(),
        body: "hi".to_string(),
        skip_encryption: None,
    }
}

#[test]
fn lists_are_sent_to_all_but_the_blocked() {
    let c = MessageBoxClient::new("https://own", None);
    let quote = multi_quote(vec![
        recipient_quote("a", 0, 0),
        recipient_quote("b", 0, -1),
        recipient_quote("c", 0, 0),
    ]);
    let mut step = c.send_message_to_recipients(&params(), quote, None);
    let mut asked = vec![];
    let mut sent = vec![];
    let result = loop {
        step = match step {
            SendListStep::Resolve(s, r) => {
                let host = if r == "a" {
                    Ok("https://h1".to_string())
                } else {
                    Err(MessageBoxError::NotInitialized)
                };
                asked.push(r);
                s.resolved(host)
            }
            SendListStep::Pay(_, _) => panic!("no fees are due"),
            SendListStep::Send(s, o) => {
                sent.push((o.recipient.clone(), o.host.clone()));
                if o.recipient == "a" {
                    s.sent_to(Ok("id-a".to_string()))
                } else {
                    s.sent_to(Err(MessageBoxError::Http(500, "u".to_string())))
                }
            }
            SendListStep::Done(r) => break r,
        };
    };
    assert_eq!(asked, vec!["a", "c"]);
    assert_eq!(
        sent,
        vec![
            ("a".to_string(), "https://h1".to_string()),
            ("c".to_string(), "https://own".to_string())
        ]
    );
    assert_eq!(result.status, "success");
    assert_eq!(result.description, "Sent to 1 recipients");
    assert_eq!(result.blocked, vec!["b"]);
    assert_eq!(result.sent.len(), 1);
    assert_eq!(result.sent[0].recipient, "a");
    assert_eq!(result.sent[0].message_id, "id-a");
    assert_eq!(result.failed.len(), 1);
    assert_eq!(result.failed[0].recipient, "c");
    assert_eq!(result.failed[0].error, "HTTP error: status 500 from u");
    assert_eq!(result.totals.unwrap().total_for_payable_recipients, 3);
}

#[test]
fn lists_are_paid_for_together() {
    let c = MessageBoxClient::new("https://own", None);
    let quote = || multi_quote(vec![recipient_quote("a", 3, 0), recipient_quote("c", 0, 4)]);
    let pay = || match c.send_message_to_recipients(&params(), quote(), Some("https://h1")) {
        SendListStep::Pay(s, tuples) => (s, tuples),
        _ => panic!("pay"),
    };
    let (s, tuples) = pay();
    assert_eq!(tuples.len(), 2);
    assert_eq!(tuples[0].recipient, "a");
    assert_eq!(tuples[0].delivery_fee, 3);
    assert_eq!(tuples[0].agent_key, "agent1");
    assert_eq!(tuples[1].recipient_fee, 4);
    let payment = MessagePayment {
        tx: vec![1],
        outputs: vec![],
    };
    match s.paid(Ok(payment)) {
        SendListStep::Send(_, o) => {
            assert_eq!(o.host, "https://h1");
            assert_eq!(o.payment.unwrap().tx, vec![1]);
            assert!(!o.skip_encryption);
        }
        _ => panic!("send"),
    }
    match pay().0.paid(Err(MessageBoxError::Wallet("poor".to_string()))) {
        SendListStep::Done(r) => {
            assert_eq!(r.status, "error");
            assert_eq!(r.description, "Batch payment creation failed");
            assert!(r.sent.is_empty());
            assert_eq!(r.failed.len(), 2);
            assert_eq!(r.failed[1].error, "wallet error: poor");
            assert!(r.totals.is_none());
        }
        _ => panic!("done"),
    }
}
