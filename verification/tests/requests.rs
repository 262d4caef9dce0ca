use bsv::primitives::private_key::PrivateKey;
use bsv::primitives::public_key::PublicKey;
use bsv::wallet::proto_wallet::ProtoWallet;
use bsv::wallet::types::{Counterparty, CounterpartyType, Protocol};
use bsv_messagebox_client::codec::hex_encode;
use bsv_messagebox_client::payment_requests::{
    is_valid_payment_request, live_payment_request, AnswerStep, RequestMessage, RequestSent,
    RequestStep,
};
use bsv_messagebox_client::request_review::{proof_check, RequestListing, ReviewStep};
use bsv_messagebox_client::types::{
    IncomingPaymentRequest, MessageBoxPermission, PaymentRequestLimits, PaymentRequestMessage,
    PaymentRequestResponse, PeerMessage,
};
use bsv_messagebox_client::wallet::{HmacCheck, HmacRequest, Party, ProtocolId};
use bsv_messagebox_client::{MessageBoxClient, MessageBoxError};

fn a_client() -> MessageBoxClient {
    MessageBoxClient::new("https://example.com", None)
}

fn make_wallet() -> ProtoWallet {
    ProtoWallet::new(PrivateKey::from_random().expect("random key"))
}

fn identity_hex(w: &ProtoWallet) -> String {
    let none = Protocol {
        security_level: 0,
        protocol: String::new(),
    };
    w.get_public_key_sync(&none, "", &Counterparty::default(), false, true)
        .expect("identity key")
        .to_der_hex()
}

fn protocol_of(p: &ProtocolId) -> Protocol {
    Protocol {
        security_level: p.security_level,
        protocol: p.name.clone(),
    }
}

fn counterparty_of(p: &Party) -> Counterparty {
    match p {
        Party::Other(Some(k)) => Counterparty {
            counterparty_type: CounterpartyType::Other,
            public_key: Some(PublicKey::from_string(k).expect("key")),
        },
        _ => panic!("another party"),
    }
}

fn prove(w: &ProtoWallet, q: &HmacRequest) -> Vec<u8> {
    w.create_hmac_sync(&q.data, &protocol_of(&q.protocol), &q.key_id, &counterparty_of(&q.counterparty))
        .expect("hmac")
}

fn verify(w: &ProtoWallet, q: &HmacCheck) -> Result<bool, String> {
    w.verify_hmac_sync(
        &q.data,
        &q.hmac,
        &protocol_of(&q.protocol),
        &q.key_id,
        &counterparty_of(&q.counterparty),
    )
    .map_err(|e| e.to_string())
}

fn valid() -> PaymentRequestMessage {
    PaymentRequestMessage {
        request_id: "r1".to_string(),
        sender_identity_key: "03abc".to_string(),
        request_proof: "proof".to_string(),
        amount: Some(1000),
        description: Some("test".to_string()),
        expires_at: Some(999999),
        cancelled: None,
    }
}

#[test]
fn is_valid_payment_request_validates_correctly() {
    assert!(is_valid_payment_request(&valid()));

    let cancel = PaymentRequestMessage {
        request_id: "r2".to_string(),
        sender_identity_key: "03def".to_string(),
        request_proof: "proof".to_string(),
        amount: None,
        description: None,
        expires_at: None,
        cancelled: Some(true),
    };
    assert!(is_valid_payment_request(&cancel));

    let bad = PaymentRequestMessage {
        request_id: "".to_string(),
        sender_identity_key: "03abc".to_string(),
        request_proof: "proof".to_string(),
        amount: Some(1000),
        description: Some("test".to_string()),
        expires_at: Some(999999),
        cancelled: None,
    };
    assert!(!is_valid_payment_request(&bad));

    let bad2 = PaymentRequestMessage {
        request_id: "r3".to_string(),
        sender_identity_key: "03abc".to_string(),
        request_proof: "proof".to_string(),
        amount: None,
        description: Some("test".to_string()),
        expires_at: Some(999999),
        cancelled: None,
    };
    assert!(!is_valid_payment_request(&bad2));
}

/// Asks a recipient for a payment and gives the body of the message.
fn ask(w: &ProtoWallet, recipient: &str, id: &str, amount: u64, expires_at: u64) -> (RequestSent, String) {
    let start = match a_client().request_payment(recipient, amount, "lunch", expires_at) {
        Ok(RequestStep::Nonce(s)) => s,
        _ => panic!("nonce"),
    };
    let named = match start.nonce_given(Ok(id.to_string())) {
        Ok(RequestStep::Identify(n)) => n,
        _ => panic!("identify"),
    };
    let (draft, q) = match named.identified(Ok(identity_hex(w))) {
        Ok(RequestStep::Prove(d, q)) => (d, q),
        _ => panic!("prove"),
    };
    assert_eq!(q.protocol.security_level, 2);
    assert_eq!(q.protocol.name, "payment request auth");
    assert_eq!(q.key_id, id);
    match draft.proven(Ok(prove(w, &q))) {
        Ok(RequestStep::Send(s, o)) => {
            assert_eq!(o.recipient, recipient);
            assert_eq!(o.message_box, "payment_requests");
            (s, o.body)
        }
        _ => panic!("send"),
    }
}

fn request_of(body: &str) -> PaymentRequestMessage {
    let v: serde_json::Value = serde_json::from_str(body).expect("JSON");
    PaymentRequestMessage {
        request_id: v["requestId"].as_str().expect("requestId").to_string(),
        sender_identity_key: v["senderIdentityKey"].as_str().expect("sender").to_string(),
        request_proof: v["requestProof"].as_str().expect("proof").to_string(),
        amount: v["amount"].as_u64(),
        description: v["description"].as_str().map(|s| s.to_string()),
        expires_at: v["expiresAt"].as_u64(),
        cancelled: v["cancelled"].as_bool(),
    }
}

fn message(id: &str, sender: &str, request: Option<PaymentRequestMessage>) -> RequestMessage {
    RequestMessage {
        message: PeerMessage {
            message_id: id.to_string(),
            sender: sender.to_string(),
            recipient: "me".to_string(),
            message_box: "payment_requests".to_string(),
            body: String::new(),
        },
        request,
    }
}

fn review(w: &ProtoWallet, messages: Vec<RequestMessage>, now: u64) -> RequestListing {
    let mut step = a_client().list_incoming_payment_requests(messages, &identity_hex(w), None);
    loop {
        step = match step {
            ReviewStep::Verify(r, q) => {
                let answer = verify(w, &q);
                r.verified(answer)
            }
            ReviewStep::Clock(r) => r.clocked(now),
            ReviewStep::Done(l) => return l,
        };
    }
}

#[test]
fn requests_are_listed_when_they_stand() {
    let asker = make_wallet();
    let me = make_wallet();
    let from = identity_hex(&asker);
    let (sent, body) = ask(&asker, &identity_hex(&me), "req-1", 5000, 1000);
    let l = review(&me, vec![message("m1", &from, Some(request_of(&body)))], 999);
    assert_eq!(l.requests.len(), 1);
    assert_eq!(l.requests[0].message_id, "m1");
    assert_eq!(l.requests[0].sender, from);
    assert_eq!(l.requests[0].request_id, "req-1");
    assert_eq!(l.requests[0].amount, 5000);
    assert_eq!(l.requests[0].description, "lunch");
    assert!(l.acknowledge.is_empty());
    let done = sent.sent(Ok("id".to_string())).unwrap();
    assert_eq!(done.request_id, "req-1");
    assert_eq!(done.request_proof, request_of(&body).request_proof);
}

#[test]
fn requests_that_do_not_stand_are_acknowledged() {
    let asker = make_wallet();
    let me = make_wallet();
    let from = identity_hex(&asker);
    let key = identity_hex(&me);
    let ask_for = |id: &str, amount: u64, expires: u64| request_of(&ask(&asker, &key, id, amount, expires).1);
    let mut forged = ask_for("forged", 5000, 1000);
    forged.request_proof = hex_encode(&[0; 32]);
    let mut unreadable_proof = ask_for("odd", 5000, 1000);
    unreadable_proof.request_proof = "xyz".to_string();
    let messages = vec![
        message("unreadable", &from, None),
        message("expired", &from, Some(ask_for("e", 5000, 998))),
        message("small", &from, Some(ask_for("s", 999, 1000))),
        message("large", &from, Some(ask_for("l", 10_000_001, 1000))),
        message("forged", &from, Some(forged)),
        message("odd", &from, Some(unreadable_proof)),
        message("least", &from, Some(ask_for("least", 1000, 999))),
        message("most", &from, Some(ask_for("most", 10_000_000, 1000))),
    ];
    let l = review(&me, messages, 999);
    let listed: Vec<&str> = l.requests.iter().map(|r| r.message_id.as_str()).collect();
    assert_eq!(listed, vec!["least", "most"]);
    let mut acked = l.acknowledge.clone();
    acked.sort();
    assert_eq!(acked, vec!["expired", "forged", "large", "odd", "small", "unreadable"]);
}

#[test]
fn only_the_asker_cancels_a_request() {
    let asker = make_wallet();
    let me = make_wallet();
    let from = identity_hex(&asker);
    let key = identity_hex(&me);
    let (_, body) = ask(&asker, &key, "req", 5000, 1000);
    let request = request_of(&body);
    let order = a_client().cancel_payment_request(&from, &key, "req", &request.request_proof, None);
    assert_eq!(order.recipient, key);
    assert_eq!(order.message_box, "payment_requests");
    let cancellation = request_of(&order.body);
    assert_eq!(cancellation.cancelled, Some(true));
    let l = review(
        &me,
        vec![
            message("m1", &from, Some(request.clone())),
            message("m2", &from, Some(cancellation.clone())),
        ],
        0,
    );
    assert!(l.requests.is_empty());
    assert_eq!(l.acknowledge.len(), 2);
    let other = identity_hex(&make_wallet());
    let l = review(
        &me,
        vec![
            message("m1", &from, Some(request)),
            message("m2", &other, Some(cancellation)),
        ],
        0,
    );
    assert_eq!(l.requests.len(), 1, "a cancellation of somebody else counts for nothing");
    assert_eq!(l.acknowledge, vec!["m2"]);
}

#[test]
fn cancelled_requests_stay_cancelled() {
    let alice = make_wallet();
    let bob = make_wallet();
    let me = make_wallet();
    let key = identity_hex(&me);
    let cancelled_by = |w: &ProtoWallet| {
        let from = identity_hex(w);
        let proof = request_of(&ask(w, &key, "req", 5000, 1000).1).request_proof;
        let order = a_client().cancel_payment_request(&from, &key, "req", &proof, None);
        message("cancellation", &from, Some(request_of(&order.body)))
    };
    let request = |w: &ProtoWallet| {
        let body = ask(w, &key, "req", 5000, 1000).1;
        message("request", &identity_hex(w), Some(request_of(&body)))
    };
    let l = review(&me, vec![request(&alice), cancelled_by(&alice), cancelled_by(&bob)], 0);
    assert!(l.requests.is_empty(), "the asker took it back");
    let l = review(&me, vec![cancelled_by(&bob), cancelled_by(&alice), request(&alice)], 0);
    assert!(l.requests.is_empty(), "the order makes no difference");
    let l = review(&me, vec![request(&alice), cancelled_by(&bob)], 0);
    assert_eq!(l.requests.len(), 1);
    let l = review(&me, vec![request(&alice), request(&bob), cancelled_by(&bob)], 0);
    assert_eq!(l.requests.len(), 1);
    assert_eq!(l.requests[0].sender, identity_hex(&alice));
}

#[test]
fn limits_can_be_chosen() {
    let limits = PaymentRequestLimits {
        min_amount: 1,
        max_amount: 2,
    };
    let mut r = valid();
    r.amount = Some(3);
    match a_client().list_incoming_payment_requests(vec![message("m", "s", Some(r))], "me", Some(limits)) {
        ReviewStep::Clock(review) => match review.clocked(0) {
            ReviewStep::Done(l) => assert_eq!(l.acknowledge, vec!["m"]),
            _ => panic!("done"),
        },
        _ => panic!("clock"),
    }
}

#[test]
fn proofs_are_checked_over_name_and_recipient() {
    let mut r = valid();
    r.request_proof = "00ff".to_string();
    let q = proof_check(&r, "me", Ok("k".to_string())).unwrap();
    assert_eq!(q.data, b"r1me");
    assert_eq!(q.hmac, vec![0, 255]);
    assert_eq!(q.key_id, "r1");
    assert!(matches!(q.counterparty, Party::Other(Some(k)) if k == "k"));
    let q = proof_check(&r, "me", Err("bad".to_string())).unwrap();
    assert!(matches!(q.counterparty, Party::Other(None)));
    r.request_proof = "0".to_string();
    assert!(proof_check(&r, "me", Ok("k".to_string())).is_none());
}

#[test]
fn asking_fails_step_by_step() {
    assert!(matches!(
        a_client().request_payment("r", 0, "d", 1),
        Err(MessageBoxError::Validation(m)) if m == "Payment request amount must be greater than 0"
    ));
    let start = || match a_client().request_payment("not a key", 1, "d", 1) {
        Ok(RequestStep::Nonce(s)) => s,
        _ => panic!("nonce"),
    };
    assert!(matches!(
        start().nonce_given(Err("e".to_string())),
        Err(MessageBoxError::Auth(m)) if m == "create_nonce request_id: e"
    ));
    let named = || match start().nonce_given(Ok("n".to_string())) {
        Ok(RequestStep::Identify(n)) => n,
        _ => panic!("identify"),
    };
    assert!(matches!(
        named().identified(Err(MessageBoxError::NotInitialized)),
        Err(MessageBoxError::NotInitialized)
    ));
    assert!(matches!(
        named().identified(Ok("me".to_string())),
        Err(MessageBoxError::Auth(m)) if m.starts_with("invalid recipient key: ")
    ));
    let draft = match named().identified_for(Ok("me".to_string()), Ok("key".to_string())) {
        Ok(RequestStep::Prove(d, q)) => {
            assert_eq!(q.data, b"nnot a key");
            d
        }
        _ => panic!("prove"),
    };
    assert!(matches!(draft.proven(Err("w".to_string())), Err(MessageBoxError::Wallet(_))));
}

#[test]
fn blocked_askers_are_told() {
    let w = make_wallet();
    let to = identity_hex(&make_wallet());
    let (sent, _) = ask(&w, &to, "n", 1, 1);
    assert!(matches!(
        sent.sent(Err(MessageBoxError::Http(403, "u".to_string()))),
        Err(MessageBoxError::Validation(m))
            if m == "Payment request blocked — you are not on the recipient's whitelist."
    ));
    let (sent, _) = ask(&w, &to, "n", 1, 1);
    assert!(matches!(
        sent.sent(Err(MessageBoxError::Http(500, "u".to_string()))),
        Err(MessageBoxError::Http(500, _))
    ));
}

#[test]
fn live_requests_are_whole_and_not_cancelled() {
    let r = live_payment_request(message("m", "s", Some(valid()))).expect("a request");
    assert_eq!(r.request_id, "r1");
    assert_eq!(r.amount, 1000);
    let mut cancelled = valid();
    cancelled.cancelled = Some(true);
    assert!(live_payment_request(message("m", "s", Some(cancelled))).is_none());
    assert!(live_payment_request(message("m", "s", None)).is_none());
}

fn incoming() -> IncomingPaymentRequest {
    IncomingPaymentRequest {
        message_id: "m".to_string(),
        sender: "asker".to_string(),
        request_id: "r".to_string(),
        amount: 700,
        description: "d".to_string(),
        expires_at: 9,
    }
}

#[test]
fn fulfilling_pays_answers_and_acknowledges() {
    let (answer, to, amount) = match a_client().fulfill_payment_request(&incoming(), Some("thanks"), Some("h")) {
        AnswerStep::Pay(a, to, amount) => (a, to, amount),
        _ => panic!("pay"),
    };
    assert_eq!(to, "asker");
    assert_eq!(amount, 700);
    let (answer, order) = match answer.paid(Ok("id".to_string())) {
        Ok(AnswerStep::Respond(a, o)) => (a, o),
        _ => panic!("respond"),
    };
    assert_eq!(order.recipient, "asker");
    assert_eq!(order.message_box, "payment_request_responses");
    let v: serde_json::Value = serde_json::from_str(&order.body).unwrap();
    assert_eq!(v["status"], "paid");
    assert_eq!(v["amountPaid"], 700);
    assert_eq!(v["note"], "thanks");
    match answer.responded(Ok("id".to_string())) {
        Ok(AnswerStep::Acknowledge(ids, host)) => {
            assert_eq!(ids, vec!["m"]);
            assert_eq!(host.as_deref(), Some("h"));
        }
        _ => panic!("acknowledge"),
    }
    match a_client().fulfill_payment_request(&incoming(), None, None) {
        AnswerStep::Pay(a, _, _) => assert!(a.paid(Err(MessageBoxError::NotInitialized)).is_err()),
        _ => panic!("pay"),
    }
}

#[test]
fn declining_pays_nothing() {
    match a_client().decline_payment_request(&incoming(), None, None) {
        AnswerStep::Respond(a, o) => {
            let v: serde_json::Value = serde_json::from_str(&o.body).unwrap();
            assert_eq!(v["status"], "declined");
            assert_eq!(v["requestId"], "r");
            assert!(v.get("amountPaid").is_none());
            assert!(a.responded(Err(MessageBoxError::NotInitialized)).is_err());
        }
        _ => panic!("respond"),
    }
}

#[test]
fn unreadable_responses_are_left_out() {
    let r = PaymentRequestResponse {
        request_id: "r".to_string(),
        status: "paid".to_string(),
        note: None,
        amount_paid: None,
    };
    let rs = a_client().list_payment_request_responses(vec![None, Some(r), None]);
    assert_eq!(rs.len(), 1);
    assert_eq!(rs[0].request_id, "r");
}

#[test]
fn askers_are_allowed_and_blocked_by_fee() {
    let allowed = a_client().allow_payment_requests_from("k");
    let blocked = a_client().block_payment_requests_from("k");
    assert_eq!(allowed.recipient_fee, 0);
    assert_eq!(blocked.recipient_fee, -1);
    assert_eq!(allowed.message_box, "payment_requests");
    assert_eq!(blocked.sender.as_deref(), Some("k"));
    let permission = |sender: Option<&str>, fee: i64| MessageBoxPermission {
        sender: sender.map(|s| s.to_string()),
        message_box: "payment_requests".to_string(),
        recipient_fee: fee,
        created_at: String::new(),
        updated_at: String::new(),
    };
    let listed = a_client().list_payment_request_permissions(vec![
        permission(Some("a"), 0),
        permission(None, 0),
        permission(Some("b"), -1),
        permission(Some("c"), 5),
    ]);
    assert_eq!(
        listed,
        vec![
            ("a".to_string(), true),
            ("b".to_string(), false),
            ("c".to_string(), true)
        ]
    );
}
