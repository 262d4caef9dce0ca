use base64::engine::general_purpose::STANDARD;
use base64::Engine;
use bsv::primitives::private_key::PrivateKey;
use bsv::primitives::public_key::PublicKey;
use bsv::wallet::proto_wallet::ProtoWallet;
use bsv::wallet::types::{Counterparty, CounterpartyType, Protocol};
use bsv_messagebox_client::chain::payment_script;
use bsv_messagebox_client::codec::hex_encode;
use bsv_messagebox_client::delivery_fee::{
    collect_wallet_payments, listed_fee_request, unwrap_listed_body, wallet_payment, MessageMember,
    ServerPayment, ServerPaymentOutput, WrappedMessageBody,
};
use bsv_messagebox_client::message_payment::{
    create_message_payment, create_message_payment_batch, draw_nonces, key_id,
    start_message_payment, BatchStep, FeeNonces, FeeStep, FeeTuple,
};
use bsv_messagebox_client::peer_pay::{
    accept_payment_with, incoming_payment, is_401_error, payment_internalized, PaymentMessage,
    RejectStep, TokenStep,
};
use bsv_messagebox_client::types::{
    IncomingPayment, MessageBoxQuote, PaymentCustomInstructions, PaymentToken, PeerMessage,
};
use bsv_messagebox_client::wallet::{ActionReply, KeyRequest, Party, SignableTransaction};
use bsv_messagebox_client::{MessageBoxClient, MessageBoxError};

fn a_client() -> MessageBoxClient {
    MessageBoxClient::new("https://example.com", None)
}

const KEY_ONE: &str = "0279be667ef9dcbbac55a06295ce870b07029bfcdb2dce28d959f2815b16f81798";

fn make_wallet() -> ProtoWallet {
    ProtoWallet::new(PrivateKey::from_random().expect("random key"))
}

fn identity_hex(w: &ProtoWallet) -> String {
    let none = Protocol {
        security_level: 0,
        protocol: String::new(),
    };
    w.get_public_key_sync(&none, "", &Counterparty::default(), false, true)
        .expect("identity key")
        .to_der_hex()
}

fn derive(w: &ProtoWallet, q: &KeyRequest) -> Result<String, String> {
    let p = q.protocol.as_ref().expect("protocol");
    let counterparty = match q.counterparty.as_ref().expect("counterparty") {
        Party::Anyone => Counterparty {
            counterparty_type: CounterpartyType::Anyone,
            public_key: None,
        },
        Party::Other(key) => Counterparty {
            counterparty_type: CounterpartyType::Other,
            public_key: key.as_ref().map(|k| PublicKey::from_string(k).expect("key")),
        },
    };
    w.get_public_key_sync(
        &Protocol {
            security_level: p.security_level,
            protocol: p.name.clone(),
        },
        q.key_id.as_deref().expect("key id"),
        &counterparty,
        false,
        false,
    )
    .map(|k| k.to_der_hex())
    .map_err(|e| e.to_string())
}

fn token(amount: u64) -> PaymentToken {
    PaymentToken {
        custom_instructions: PaymentCustomInstructions {
            derivation_prefix: "dGVzdC1wcmVmaXg=".to_string(),
            derivation_suffix: "dGVzdC1zdWZmaXg=".to_string(),
            payee: None,
        },
        transaction: vec![1, 2, 3],
        amount,
        output_index: None,
    }
}

fn payment(amount: u64) -> IncomingPayment {
    IncomingPayment {
        token: token(amount),
        sender: KEY_ONE.to_string(),
        message_id: "m1".to_string(),
    }
}

fn token_of(body: &str) -> Option<PaymentToken> {
    let v: serde_json::Value = serde_json::from_str(body).ok()?;
    let ci = v.get("customInstructions")?;
    Some(PaymentToken {
        custom_instructions: PaymentCustomInstructions {
            derivation_prefix: ci.get("derivationPrefix")?.as_str()?.to_string(),
            derivation_suffix: ci.get("derivationSuffix")?.as_str()?.to_string(),
            payee: None,
        },
        transaction: v
            .get("transaction")?
            .as_array()?
            .iter()
            .map(|b| b.as_u64().map(|n| n as u8))
            .collect::<Option<Vec<u8>>>()?,
        amount: v.get("amount")?.as_u64()?,
        output_index: None,
    })
}

fn message(id: &str, sender: &str, body: &str) -> PaymentMessage {
    PaymentMessage {
        token: token_of(body),
        message: PeerMessage {
            message_id: id.to_string(),
            sender: sender.to_string(),
            recipient: "03recipient".to_string(),
            message_box: "payment_inbox".to_string(),
            body: body.to_string(),
        },
    }
}

#[test]
fn create_payment_token_uses_create_nonce() {
    let sender = make_wallet();
    let recipient_pk = identity_hex(&make_wallet());
    let step = a_client().create_payment_token(&recipient_pk, 1000);
    let start = match step {
        TokenStep::Nonce(s) => s,
        _ => panic!("the first part of the key identifier comes first"),
    };
    let start = match start.nonce_given(Ok("cHJlZml4".to_string())).expect("no failure at nonce step") {
        TokenStep::Nonce(s) => s,
        _ => panic!("the second part of the key identifier comes second"),
    };
    let (draft, q) = match start.nonce_given(Ok("c3VmZml4".to_string())).expect("nonces") {
        TokenStep::Derive(d, q) => (d, q),
        _ => panic!("the key comes next"),
    };
    let p = q.protocol.as_ref().unwrap();
    assert_eq!(p.security_level, 2);
    assert_eq!(p.name, "3241645161d8");
    assert_eq!(q.key_id.as_deref(), Some("cHJlZml4 c3VmZml4"));
    let key = derive(&sender, &q).expect("derived key");
    let script = payment_script(&key).expect("script");
    let (draft, action) = match draft.derived(Ok(key)).expect("key") {
        TokenStep::Create(d, a) => (d, a),
        _ => panic!("the transaction comes next"),
    };
    assert_eq!(action.description, "PeerPay payment");
    assert_eq!(action.labels, vec!["peerpay"]);
    assert_eq!(action.outputs.len(), 1);
    assert_eq!(action.outputs[0].satoshis, 1000);
    assert_eq!(action.outputs[0].locking_script, script);
    assert_eq!(action.randomize_outputs, Some(false));
    let msg = match draft.created(Err("no funds".to_string())) {
        Err(e) => e.to_text(),
        Ok(_) => panic!("the wallet has no funds"),
    };
    assert!(!msg.contains("create_nonce prefix:"), "should not fail at nonce step");
    assert_eq!(msg, "wallet error: no funds");
}

fn draft_of(recipient: &str, amount: u64) -> bsv_messagebox_client::peer_pay::TokenDraft {
    let start = match a_client().create_payment_token(recipient, amount) {
        TokenStep::Nonce(s) => s,
        _ => panic!("nonce"),
    };
    let start = match start.nonce_given(Ok("p".to_string())) {
        Ok(TokenStep::Nonce(s)) => s,
        _ => panic!("nonce"),
    };
    match start.nonce_given(Ok("s".to_string())) {
        Ok(TokenStep::Derive(d, _)) => d,
        _ => panic!("derive"),
    }
}

#[test]
fn tokens_are_completed_by_the_wallet() {
    let d = draft_of(KEY_ONE, 5);
    let reply = ActionReply {
        tx: Some(vec![9]),
        signable: None,
    };
    match d.created(Ok(reply)) {
        Ok(TokenStep::Done(t)) => {
            assert_eq!(t.transaction, vec![9]);
            assert_eq!(t.amount, 5);
            assert_eq!(t.custom_instructions.derivation_prefix, "p");
            assert_eq!(t.custom_instructions.derivation_suffix, "s");
            assert_eq!(t.custom_instructions.payee.as_deref(), Some(KEY_ONE));
            assert_eq!(t.output_index, None);
        }
        _ => panic!("done"),
    }
    let reply = ActionReply {
        tx: None,
        signable: Some(SignableTransaction {
            tx: vec![1],
            reference: vec![7, 8],
        }),
    };
    match draft_of(KEY_ONE, 5).created(Ok(reply)) {
        Ok(TokenStep::Sign(d, q)) => {
            assert_eq!(q.reference, vec![7, 8]);
            assert!(q.spends.is_empty());
            assert_eq!(d.signed(Ok(Some(vec![4]))).unwrap().transaction, vec![4]);
        }
        _ => panic!("sign"),
    }
    let nothing = ActionReply {
        tx: None,
        signable: None,
    };
    assert!(matches!(
        draft_of(KEY_ONE, 5).created(Ok(nothing)),
        Err(MessageBoxError::Wallet(m)) if m == "create_action returned neither tx nor signable_transaction"
    ));
    assert!(matches!(
        draft_of(KEY_ONE, 5).signed(Ok(None)),
        Err(MessageBoxError::Wallet(m)) if m == "sign_action returned no tx"
    ));
    assert!(matches!(
        draft_of(KEY_ONE, 5).derived_for(Ok(Err("x".to_string()))),
        Err(MessageBoxError::Wallet(m)) if m == "P2PKH lock error: x"
    ));
    assert!(draft_of(KEY_ONE, 5).derived(Ok("zz".to_string())).is_err());
}

#[test]
fn failing_nonces_say_which() {
    let start = || match a_client().create_payment_token(KEY_ONE, 1) {
        TokenStep::Nonce(s) => s,
        _ => panic!("nonce"),
    };
    assert!(matches!(
        start().nonce_given(Err("e".to_string())),
        Err(MessageBoxError::Auth(m)) if m == "create_nonce prefix: e"
    ));
    let second = match start().nonce_given(Ok("p".to_string())) {
        Ok(TokenStep::Nonce(s)) => s,
        _ => panic!("nonce"),
    };
    assert!(matches!(
        second.nonce_given(Err("e".to_string())),
        Err(MessageBoxError::Auth(m)) if m == "create_nonce suffix: e"
    ));
    let second = match start().nonce_given(Ok("p".to_string())) {
        Ok(TokenStep::Nonce(s)) => s,
        _ => panic!("nonce"),
    };
    assert!(matches!(
        second.nonce_given_for(Ok("s".to_string()), Err("bad key".to_string())),
        Err(MessageBoxError::Wallet(m)) if m == "bad key"
    ));
}

#[test]
fn payments_are_sent_to_the_payment_inbox() {
    let o = a_client().send_payment("03r", &token(7));
    assert_eq!(o.recipient, "03r");
    assert_eq!(o.message_box, "payment_inbox");
    assert_eq!(token_of(&o.body).unwrap().amount, 7);
}

#[test]
fn reject_payment_threshold_below_2000() {
    assert!(
        matches!(a_client().reject_payment(&payment(1999)), RejectStep::Acknowledge(_, ids) if ids == vec!["m1"]),
        "below threshold: only ack path"
    );
    assert!(
        matches!(a_client().reject_payment(&payment(2000)), RejectStep::Accept(_)),
        "at threshold: accept + refund path"
    );
    match a_client().reject_payment(&payment(3000)) {
        RejectStep::Accept(r) => match r.accepted(Ok(())) {
            Ok(RejectStep::Refund(_, to, refund)) => {
                assert_eq!(to, KEY_ONE);
                assert_eq!(refund, 2000, "refund is amount minus 1000 sat fee");
            }
            _ => panic!("refund"),
        },
        _ => panic!("accept"),
    }
}

fn refunding() -> bsv_messagebox_client::peer_pay::Refunding {
    match a_client().reject_payment(&payment(5000)) {
        RejectStep::Accept(r) => match r.accepted(Ok(())) {
            Ok(RejectStep::Refund(f, _, _)) => f,
            _ => panic!("refund"),
        },
        _ => panic!("accept"),
    }
}

#[test]
fn rejections_put_up_with_unknown_senders() {
    let unknown = || MessageBoxError::Http(401, "u".to_string());
    assert!(is_401_error(&unknown()));
    assert!(is_401_error(&MessageBoxError::Auth("HTTP 401".to_string())));
    assert!(!is_401_error(&MessageBoxError::Http(500, "401".to_string())));
    assert!(!is_401_error(&MessageBoxError::Wallet("401".to_string())));
    assert!(matches!(refunding().refunded(Err(unknown())), Ok(RejectStep::Done)));
    assert!(matches!(
        refunding().refunded(Err(MessageBoxError::NotInitialized)),
        Err(MessageBoxError::NotInitialized)
    ));
    match refunding().refunded(Ok("m".to_string())) {
        Ok(RejectStep::Acknowledge(a, ids)) => {
            assert_eq!(ids, vec!["m1"]);
            assert!(a.acknowledged(Err(unknown())).is_ok());
        }
        _ => panic!("acknowledge"),
    }
    match a_client().reject_payment(&payment(1)) {
        RejectStep::Acknowledge(a, _) => assert!(a.acknowledged(Err(unknown())).is_ok()),
        _ => panic!("acknowledge"),
    }
    match a_client().reject_payment(&payment(1)) {
        RejectStep::Acknowledge(a, _) => assert!(matches!(
            a.acknowledged(Err(MessageBoxError::NotInitialized)),
            Err(MessageBoxError::NotInitialized)
        )),
        _ => panic!("acknowledge"),
    }
    let accepting = || match a_client().reject_payment(&payment(5000)) {
        RejectStep::Accept(r) => r,
        _ => panic!("accept"),
    };
    assert!(matches!(accepting().accepted(Err(unknown())), Ok(RejectStep::Done)));
    assert!(matches!(
        accepting().accepted(Err(MessageBoxError::NotInitialized)),
        Err(MessageBoxError::NotInitialized)
    ));
}

#[test]
fn list_incoming_payments_skips_unparseable() {
    let messages = vec![
        message("msg1", "03sender1", "not valid json"),
        message(
            "msg2",
            "03sender2",
            r#"{"customInstructions":{"derivationPrefix":"p","derivationSuffix":"s"},"transaction":[1,2,3],"amount":1000}"#,
        ),
        message("msg3", "03sender3", r#"{"foo":"bar"}"#),
    ];
    let payments = a_client().list_incoming_payments(messages);
    assert_eq!(payments.len(), 1, "only valid payment token should be included");
    assert_eq!(payments[0].message_id, "msg2");
    assert_eq!(payments[0].sender, "03sender2");
    assert_eq!(payments[0].token.amount, 1000);
}

#[test]
fn accept_payment_base64_round_trip() {
    let prefix = "dGVzdC1wcmVmaXg=";
    let suffix = "dGVzdC1zdWZmaXg=";
    let mut p = payment(1);
    p.token.custom_instructions.derivation_prefix = prefix.to_string();
    p.token.custom_instructions.derivation_suffix = suffix.to_string();
    let q = a_client().accept_payment(&p).expect("accept");
    assert_eq!(q.outputs[0].derivation_prefix, b"test-prefix");
    assert_eq!(q.outputs[0].derivation_suffix, b"test-suffix");
    let re_encoded = STANDARD.encode(&q.outputs[0].derivation_prefix);
    assert_eq!(re_encoded, prefix, "round-trip must produce original base64");
}

#[test]
fn payments_are_taken_in_as_they_came() {
    let mut p = payment(1);
    let q = a_client().accept_payment(&p).unwrap();
    assert_eq!(q.tx, vec![1, 2, 3]);
    assert_eq!(q.description, "PeerPay Payment");
    assert_eq!(q.labels, vec!["peerpay"]);
    assert_eq!(q.outputs.len(), 1);
    assert_eq!(q.outputs[0].output_index, 0);
    assert_eq!(q.outputs[0].sender_identity_key, KEY_ONE);
    p.token.output_index = Some(3);
    assert_eq!(a_client().accept_payment(&p).unwrap().outputs[0].output_index, 3);
    p.sender = "not a key".to_string();
    assert!(matches!(
        a_client().accept_payment(&p),
        Err(MessageBoxError::Wallet(m)) if m.starts_with("invalid sender key: ")
    ));
    let mut p = payment(1);
    p.token.custom_instructions.derivation_prefix = "a-b".to_string();
    assert!(matches!(
        a_client().accept_payment(&p),
        Err(MessageBoxError::Wallet(m)) if m.starts_with("base64 decode prefix: ")
    ));
    assert!(matches!(
        accept_payment_with(&p, Ok(String::new()), Ok(vec![]), Err("e".to_string())),
        Err(MessageBoxError::Wallet(m)) if m == "base64 decode suffix: e"
    ));
    assert_eq!(payment_internalized(&p, Ok(())).unwrap(), vec!["m1"]);
    assert!(payment_internalized(&p, Err("no".to_string())).is_err());
}

#[test]
fn listen_for_live_payments_callback_parses_token() {
    let m = message(
        "msg-live-1",
        "03sender",
        r#"{"customInstructions":{"derivationPrefix":"p","derivationSuffix":"s"},"transaction":[1,2],"amount":500}"#,
    );
    let payments: Vec<IncomingPayment> = incoming_payment(m).into_iter().collect();
    assert_eq!(payments.len(), 1, "one valid payment should be parsed");
    assert_eq!(payments[0].token.amount, 500);
    assert_eq!(payments[0].sender, "03sender");
    assert_eq!(payments[0].message_id, "msg-live-1");
}

#[test]
fn listen_for_live_payments_callback_skips_non_payment() {
    let m = message("msg-bad-1", "03sender", r#"{"not":"a payment token"}"#);
    let payments: Vec<IncomingPayment> = incoming_payment(m).into_iter().collect();
    assert_eq!(payments.len(), 0, "non-payment message must be silently skipped");
}

#[test]
fn payment_scripts_pay_to_key_hashes() {
    assert_eq!(
        hex_encode(&payment_script(KEY_ONE).unwrap()),
        "76a914751e76e8199196d454941c45d1b3a323f1433bd688ac"
    );
    assert!(payment_script("00").is_err());
}

fn quote(delivery_fee: i64, recipient_fee: i64, agent: &str) -> MessageBoxQuote {
    MessageBoxQuote {
        delivery_fee,
        recipient_fee,
        delivery_agent_identity_key: agent.to_string(),
    }
}

fn nonces() -> FeeNonces {
    FeeNonces {
        delivery_prefix: "dp".to_string(),
        delivery_suffix: "ds".to_string(),
        recipient_prefix: "rp".to_string(),
        recipient_suffix: "rs".to_string(),
    }
}

#[test]
fn both_fees_of_a_message_are_paid() {
    let sender = make_wallet();
    let recipient = make_wallet();
    let agent = identity_hex(&make_wallet());
    let me = identity_hex(&sender);
    let step = start_message_payment(&identity_hex(&recipient), &quote(10, 5, &agent), None, &me, nonces());
    let (p, q) = match step {
        Ok(FeeStep::Derive(p, q)) => (p, q),
        _ => panic!("derive"),
    };
    assert_eq!(q.protocol.as_ref().unwrap().name, "3241645161d8");
    assert_eq!(q.key_id.as_deref(), Some("dp ds"));
    let key = derive(&sender, &q).unwrap();
    let delivery_script = payment_script(&key).unwrap();
    let (receipt, action) = match p.derived(Ok(key)) {
        Ok(FeeStep::Create(r, a)) => (r, a),
        _ => panic!("create"),
    };
    assert_eq!(action.description, "MessageBox delivery fee");
    assert_eq!(action.outputs.len(), 2);
    assert_eq!(action.outputs[0].satoshis, 10);
    assert_eq!(action.outputs[0].locking_script, delivery_script);
    assert_eq!(action.outputs[1].satoshis, 5);
    let expected = recipient
        .get_public_key_sync(
            &Protocol {
                security_level: 2,
                protocol: "3241645161d8".to_string(),
            },
            "rp rs",
            &Counterparty {
                counterparty_type: CounterpartyType::Anyone,
                public_key: None,
            },
            true,
            false,
        )
        .unwrap()
        .to_der_hex();
    assert_eq!(action.outputs[1].locking_script, payment_script(&expected).unwrap());
    let paid = receipt
        .finish(Ok(ActionReply {
            tx: Some(vec![3]),
            signable: None,
        }))
        .unwrap();
    assert_eq!(paid.tx, vec![3]);
    assert_eq!(paid.outputs[0].output_index, 0);
    assert_eq!(paid.outputs[0].derivation_prefix, b"dp");
    assert_eq!(paid.outputs[0].sender_identity_key, me);
    assert_eq!(paid.outputs[1].output_index, 1);
    assert_eq!(paid.outputs[1].derivation_suffix, b"rs");
    assert_eq!(paid.outputs[1].sender_identity_key, KEY_ONE);
}

#[test]
fn fees_of_nothing_are_not_paid() {
    let recipient = identity_hex(&make_wallet());
    match create_message_payment(&recipient, &quote(0, 3, "unused"), Some("why"), "me") {
        Ok(FeeStep::Create(r, a)) => {
            assert_eq!(a.description, "why");
            assert_eq!(a.outputs.len(), 1);
            assert_eq!(a.outputs[0].satoshis, 3);
            assert!(r
                .finish(Ok(ActionReply {
                    tx: None,
                    signable: None
                }))
                .is_err());
        }
        _ => panic!("create"),
    }
    assert!(matches!(
        create_message_payment(&recipient, &quote(1, 0, "bad"), None, "me"),
        Err(MessageBoxError::Wallet(m)) if m.starts_with("agent key: ")
    ));
    assert!(matches!(
        create_message_payment("bad", &quote(0, 1, "bad"), None, "me"),
        Err(MessageBoxError::Wallet(m)) if m.starts_with("recipient key: ")
    ));
}

#[test]
fn drawn_nonces_are_base64_of_thirty_two_bytes() {
    let a = draw_nonces();
    let b = draw_nonces();
    for n in [&a.delivery_prefix, &a.delivery_suffix, &a.recipient_prefix, &a.recipient_suffix] {
        assert_eq!(STANDARD.decode(n).expect("base64").len(), 32);
    }
    assert_ne!(a.delivery_prefix, b.delivery_prefix);
    assert_eq!(key_id("a", "b"), "a b");
}

#[test]
fn batches_pay_every_fee() {
    let sender = make_wallet();
    let r1 = identity_hex(&make_wallet());
    let r2 = identity_hex(&make_wallet());
    let agent = identity_hex(&make_wallet());
    let tuple = |r: &str, d: i64, f: i64| FeeTuple {
        recipient: r.to_string(),
        delivery_fee: d,
        recipient_fee: f,
        agent_key: agent.clone(),
    };
    let mut step =
        create_message_payment_batch(vec![tuple(&r1, 10, 0), tuple(&r2, 0, 0), tuple(&r2, 1, 4)], None);
    let mut asked = 0;
    let mut counterparties: Vec<String> = vec![];
    let (receipt, action) = loop {
        match step {
            Ok(BatchStep::Nonce(b)) => {
                asked += 1;
                step = b.nonce_given(Ok(format!("n{asked}")));
            }
            Ok(BatchStep::Derive(b, q)) => {
                assert_eq!(q.protocol.as_ref().unwrap().name, "messagebox");
                assert_eq!(q.protocol.as_ref().unwrap().security_level, 1);
                if let Some(Party::Other(Some(k))) = &q.counterparty {
                    counterparties.push(k.clone());
                }
                step = b.derived(derive(&sender, &q));
            }
            Ok(BatchStep::Create(r, a)) => break (r, a),
            _ => panic!("unexpected"),
        }
    };
    assert_eq!(asked, 6);
    assert_eq!(counterparties, vec![agent.clone(), agent.clone(), r2.clone()]);
    let amounts: Vec<u64> = action.outputs.iter().map(|o| o.satoshis).collect();
    assert_eq!(amounts, vec![10, 1, 4]);
    assert_eq!(action.description, "MessageBox batch delivery fee");
    let paid = receipt
        .finish(Ok(ActionReply {
            tx: Some(vec![1]),
            signable: None,
        }))
        .unwrap();
    let payees: Vec<&str> = paid.outputs.iter().map(|o| o.sender_identity_key.as_str()).collect();
    assert_eq!(payees, vec![agent.as_str(), agent.as_str(), r2.as_str()]);
}

#[test]
fn batches_without_fees_need_no_transaction() {
    match create_message_payment_batch(vec![], None) {
        Ok(BatchStep::Done(p)) => assert!(p.tx.is_empty() && p.outputs.is_empty()),
        _ => panic!("done"),
    }
    let t = FeeTuple {
        recipient: "r".to_string(),
        delivery_fee: 1,
        recipient_fee: 0,
        agent_key: "bad".to_string(),
    };
    match create_message_payment_batch(vec![t], None) {
        Ok(BatchStep::Nonce(b)) => assert!(matches!(
            b.nonce_given(Err("e".to_string())),
            Err(MessageBoxError::Auth(m)) if m == "create_nonce: e"
        )),
        _ => panic!("nonce"),
    }
}

fn fee_output(protocol: &str, key: Option<&str>) -> ServerPaymentOutput {
    ServerPaymentOutput {
        output_index: Some(2),
        protocol: Some(protocol.to_string()),
        derivation_prefix: Some(vec![1]),
        derivation_suffix: Some(vec![2]),
        sender_identity_key: key.map(|k| k.to_string()),
    }
}

fn wrapped(outputs: Vec<ServerPaymentOutput>) -> Option<WrappedMessageBody> {
    Some(WrappedMessageBody {
        message: Some(MessageMember {
            string: Some("hello world".to_string()),
            printed: "\"hello world\"".to_string(),
        }),
        payment: Some(ServerPayment {
            tx: Some(vec![5]),
            outputs: Some(outputs),
            description: None,
        }),
    })
}

#[test]
fn only_wallet_payments_are_taken_in() {
    let outputs = vec![
        fee_output("wallet payment", Some(KEY_ONE)),
        fee_output("basket insertion", Some(KEY_ONE)),
        fee_output("wallet payment", Some("no key")),
        fee_output("wallet payment", None),
    ];
    let mut untold = fee_output("wallet payment", Some(KEY_ONE));
    untold.protocol = None;
    assert!(collect_wallet_payments(&vec![untold]).is_empty(), "the protocol is not told");
    let taken = collect_wallet_payments(&outputs);
    assert!(taken.iter().any(|p| p.sender_identity_key == KEY_ONE && p.output_index == 2));
    assert!(wallet_payment(&fee_output("basket insertion", Some(KEY_ONE)), Some(Ok(KEY_ONE.to_string())))
        .is_none());
    let q = a_client().acknowledge_notification(&wrapped(outputs)).expect("a fee to take in");
    assert_eq!(q.tx, vec![5]);
    assert!(a_client().acknowledge_notification(&wrapped(vec![])).is_none());
    assert!(a_client().acknowledge_notification(&None).is_none());
}

#[test]
fn listed_fees_are_taken_in_when_wanted() {
    let w = wrapped(vec![fee_output("wallet payment", Some(KEY_ONE))]);
    assert!(listed_fee_request(&w, false).is_none());
    assert_eq!(listed_fee_request(&w, true).expect("a fee").tx, vec![5]);
    assert!(listed_fee_request(&None, true).is_none());
}

#[test]
fn listed_bodies_are_unwrapped() {
    assert_eq!(unwrap_listed_body("raw", wrapped(vec![])), "hello world");
    assert_eq!(unwrap_listed_body("raw", None), "raw");
    let w = Some(WrappedMessageBody {
        message: Some(MessageMember {
            string: None,
            printed: "{\"a\":1}".to_string(),
        }),
        payment: None,
    });
    assert_eq!(unwrap_listed_body("raw", w), "{\"a\":1}");
    let w = Some(WrappedMessageBody {
        message: None,
        payment: None,
    });
    assert_eq!(unwrap_listed_body("raw", w), "raw");
}
