use bsv::primitives::private_key::PrivateKey;
use bsv_messagebox_client::adapter::map_server_messages;
use bsv_messagebox_client::client::HttpReply;
use bsv_messagebox_client::codec::{hex_encode, random_bytes};
use bsv_messagebox_client::delivery_fee::{
    MessageMember, ServerPayment, ServerPaymentOutput, WrappedMessageBody,
};
use bsv_messagebox_client::inbox::{
    list_messages_from_host, poll_list_messages, InboxStep, ListedMessage,
};
use bsv_messagebox_client::text::{
    contains, decimal, same_text, signed_decimal, strip_prefix, trim,
};
use bsv_messagebox_client::types::ServerPeerMessage;
use bsv_messagebox_client::{MessageBoxClient, MessageBoxError};

fn a_client() -> MessageBoxClient {
    MessageBoxClient::new("https://example.com", None)
}

fn key() -> String {
    PrivateKey::from_random().unwrap().to_public_key().to_der_hex()
}

fn message(id: &str, sender: &str, body: &str) -> ServerPeerMessage {
    ServerPeerMessage {
        message_id: id.to_string(),
        body: body.to_string(),
        sender: sender.to_string(),
        created_at: "c".to_string(),
        updated_at: "u".to_string(),
        acknowledged: None,
    }
}

fn done(step: InboxStep) -> Vec<ServerPeerMessage> {
    match step {
        InboxStep::Done(ms) => ms,
        _ => panic!("done"),
    }
}

fn reply(status: u16, body: &str) -> Result<HttpReply, String> {
    Ok(HttpReply {
        status,
        body: body.as_bytes().to_vec(),
    })
}

#[test]
fn failed_polls_give_no_messages() {
    let listed = || Ok(vec![message("1", "s", "x")]);
    let poll = |r, l| {
        let (step, failure) = poll_list_messages("u", r, l);
        (done(step).len(), failure)
    };
    assert!(matches!(poll(reply(200, "{}"), listed()), (1, None)));
    assert!(matches!(poll(reply(299, r#"{"status":"success"}"#), listed()), (1, None)));
    assert!(matches!(
        poll(Err("no route".to_string()), listed()),
        (0, Some(MessageBoxError::Auth(m))) if m == "no route"
    ));
    for status in [199, 300, 500] {
        assert!(matches!(
            poll(reply(status, "{}"), listed()),
            (0, Some(MessageBoxError::Http(s, u))) if s == status && u == "u"
        ));
    }
    assert!(matches!(
        poll(reply(200, r#"{"status":"error","description":"d"}"#), listed()),
        (0, Some(_))
    ));
    assert!(matches!(
        poll(reply(200, "[]"), Err("no list".to_string())),
        (0, Some(MessageBoxError::Json(m))) if m == "no list"
    ));
}

#[test]
fn plain_messages_are_read_at_once() {
    let ms = done(a_client().list_messages_lite(vec![message("1", "s", "plain"), message("2", "t", "{}")]));
    assert_eq!(ms.len(), 2);
    assert_eq!(ms[0].body, "plain");
    assert_eq!(ms[1].sender, "t");
    assert_eq!(ms[1].created_at, "c");
    assert!(done(a_client().list_messages_lite(vec![])).is_empty());
}

#[test]
fn encrypted_messages_wait_for_the_wallet() {
    let sender = key();
    let body = r#"{"encryptedMessage":"AQID"}"#;
    let wrapped = format!(r#"{{"message":{body},"payment":null}}"#);
    for step in [
        a_client().list_messages_lite(vec![message("1", &sender, body), message("2", "s", "x")]),
        poll_list_messages(
            "u",
            reply(200, "{}"),
            Ok(vec![message("1", &sender, &wrapped), message("2", "s", "x")]),
        )
        .0,
    ] {
        match step {
            InboxStep::Decrypt(p, q) => {
                assert_eq!(q.ciphertext, vec![1, 2, 3]);
                let ms = done(p.decrypted(Ok(b"clear".to_vec())));
                assert_eq!(ms[0].body, "clear");
                assert_eq!(ms[0].message_id, "1");
                assert_eq!(ms[1].body, "x");
            }
            _ => panic!("decrypt"),
        }
    }
    match a_client().list_messages_lite(vec![message("1", &sender, body)]) {
        InboxStep::Decrypt(p, _) => {
            assert_eq!(done(p.decrypted(Err("no".to_string())))[0].body, body);
        }
        _ => panic!("decrypt"),
    }
}

#[test]
fn fees_are_taken_in_before_bodies_are_read() {
    let payer = key();
    let listed = || ListedMessage {
        message: message("1", "s", "wrapped"),
        wrapped: Some(WrappedMessageBody {
            message: Some(MessageMember {
                string: Some("inner".to_string()),
                printed: "\"inner\"".to_string(),
            }),
            payment: Some(ServerPayment {
                tx: Some(vec![6]),
                outputs: Some(vec![ServerPaymentOutput {
                    output_index: Some(1),
                    protocol: Some("wallet payment".to_string()),
                    derivation_prefix: Some(vec![1]),
                    derivation_suffix: Some(vec![2]),
                    sender_identity_key: Some(payer.clone()),
                }]),
                description: Some("d".to_string()),
            }),
        }),
    };
    match list_messages_from_host(vec![listed()], true) {
        InboxStep::Internalize(r, q) => {
            assert_eq!(q.tx, vec![6]);
            assert_eq!(q.outputs[0].output_index, 1);
            let ms = done(r.internalized());
            assert_eq!(ms[0].body, "inner");
        }
        _ => panic!("internalize"),
    }
    let ms = done(list_messages_from_host(vec![listed()], false));
    assert_eq!(ms[0].body, "inner");
    assert_eq!(ms[0].message_id, "1");
}

#[test]
fn lists_are_the_same_with_and_without_fees() {
    let sender = key();
    let fee = || ServerPayment {
        tx: Some(vec![6]),
        outputs: Some(vec![ServerPaymentOutput {
            output_index: Some(0),
            protocol: Some("wallet payment".to_string()),
            derivation_prefix: Some(vec![1]),
            derivation_suffix: Some(vec![2]),
            sender_identity_key: Some(sender.clone()),
        }]),
        description: None,
    };
    let wrapped = |inner: &str| WrappedMessageBody {
        message: Some(MessageMember {
            string: Some(inner.to_string()),
            printed: format!("\"{inner}\""),
        }),
        payment: Some(fee()),
    };
    let cipher = r#"{"encryptedMessage":"AQID"}"#;
    let sent = || {
        vec![
            ListedMessage { message: message("1", &sender, "w"), wrapped: Some(wrapped(cipher)) },
            ListedMessage { message: message("2", &sender, "bare"), wrapped: None },
            ListedMessage { message: message("3", &sender, "w"), wrapped: Some(wrapped("inner")) },
            ListedMessage { message: message("4", &sender, "w"), wrapped: Some(wrapped(cipher)) },
        ]
    };
    let read = |accept_payments: bool| {
        let mut fees = 0;
        let mut asked = 0;
        let mut step = list_messages_from_host(sent(), accept_payments);
        loop {
            step = match step {
                InboxStep::Internalize(r, q) => {
                    assert_eq!(q.tx, vec![6]);
                    fees += 1;
                    r.internalized()
                }
                InboxStep::Decrypt(p, q) => {
                    assert_eq!(q.ciphertext, vec![1, 2, 3]);
                    asked += 1;
                    p.decrypted(if asked == 1 { Ok(b"clear".to_vec()) } else { Err("no".to_string()) })
                }
                InboxStep::Done(ms) => return (fees, map_server_messages(ms, "me", "box")),
            };
        }
    };
    let (fees, paid) = read(true);
    assert_eq!(fees, 3);
    let (fees, unpaid) = read(false);
    assert_eq!(fees, 0);
    for ms in [paid, unpaid] {
        let bodies: Vec<&str> = ms.iter().map(|m| m.body.as_str()).collect();
        assert_eq!(bodies, vec!["clear", "bare", "inner", cipher]);
        let ids: Vec<&str> = ms.iter().map(|m| m.message_id.as_str()).collect();
        assert_eq!(ids, vec!["1", "2", "3", "4"]);
        assert!(ms.iter().all(|m| m.sender == sender && m.recipient == "me" && m.message_box == "box"));
    }
}

#[test]
fn texts_are_compared_and_cut() {
    assert!(same_text("é", "é"));
    assert!(!same_text("a", "ab"));
    assert_eq!(trim(" \t\n x y \u{a0}\u{2003}"), "x y");
    assert_eq!(trim(""), "");
    assert!(contains("abcabd", "abd"));
    assert!(contains("", ""));
    assert!(!contains("ab", "abc"));
    assert_eq!(strip_prefix("sendMessage-x", "sendMessage-"), Some("x".to_string()));
    assert_eq!(strip_prefix("send", "sendMessage-"), None);
}

#[test]
fn numbers_are_written_in_decimal() {
    assert_eq!(decimal(0), "0");
    assert_eq!(decimal(u64::MAX), "18446744073709551615");
    assert_eq!(signed_decimal(-7), "-7");
    assert_eq!(signed_decimal(i64::MIN), "-9223372036854775808");
    assert_eq!(signed_decimal(i64::MAX), "9223372036854775807");
}

#[test]
fn bytes_are_written_in_hex() {
    assert_eq!(hex_encode(&[]), "");
    assert_eq!(hex_encode(&[0, 15, 255]), "000fff");
    assert_eq!(random_bytes().len(), 32);
    assert_ne!(random_bytes(), random_bytes());
}
