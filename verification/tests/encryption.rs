use base64::engine::general_purpose::STANDARD;
use base64::Engine;
use bsv::primitives::private_key::PrivateKey;
use bsv::primitives::public_key::PublicKey;
use bsv::wallet::proto_wallet::ProtoWallet;
use bsv::wallet::types::{Counterparty, CounterpartyType, Protocol};
use bsv_messagebox_client::encryption::{
    decrypt_body_request, decrypt_body, decrypt_request_for, encrypt_body,
    encrypt_body_request, encrypt_request_for, encrypted_field, extract_plain_body,
    generate_message_id, has_encrypted_message, message_id_request, message_id_request_for,
    open_body, read_string_member, text_of_member, try_decrypt_message, try_decrypt_message_typed,
    try_decrypt_plan, unwrap_body, DecryptOutcome, DecryptPlan,
};
use bsv_messagebox_client::wallet::{Party, ProtocolId};
use bsv_messagebox_client::MessageBoxError;

fn make_wallet() -> ProtoWallet {
    ProtoWallet::new(PrivateKey::from_random().expect("random key"))
}

fn identity_hex(w: &ProtoWallet) -> String {
    w.get_public_key_sync(&none(), "", &Counterparty::default(), false, true)
        .expect("identity key")
        .to_der_hex()
}

fn none() -> Protocol {
    Protocol {
        security_level: 0,
        protocol: String::new(),
    }
}

fn protocol_of(p: &ProtocolId) -> Protocol {
    Protocol {
        security_level: p.security_level,
        protocol: p.name.clone(),
    }
}

fn counterparty_of(p: &Party) -> Counterparty {
    match p {
        Party::Anyone => Counterparty {
            counterparty_type: CounterpartyType::Anyone,
            public_key: None,
        },
        Party::Other(key) => Counterparty {
            counterparty_type: CounterpartyType::Other,
            public_key: key.as_ref().map(|k| PublicKey::from_string(k).expect("key")),
        },
    }
}

fn encrypted_by(w: &ProtoWallet, body: &str, recipient: &str) -> Result<String, MessageBoxError> {
    let q = encrypt_body_request(body, recipient)?;
    let c = w
        .encrypt_sync(
            &q.plaintext,
            &protocol_of(&q.protocol),
            &q.key_id,
            &counterparty_of(&q.counterparty),
        )
        .map_err(|e| MessageBoxError::Wallet(e.to_string()))?;
    Ok(encrypt_body(&c))
}

fn decrypted_by(w: &ProtoWallet, envelope: &str, sender: &str) -> Result<String, MessageBoxError> {
    let q = decrypt_body_request(envelope, sender)?;
    decrypt_body(
        w.decrypt_sync(
            &q.ciphertext,
            &protocol_of(&q.protocol),
            &q.key_id,
            &counterparty_of(&q.counterparty),
        )
        .map_err(|e| e.to_string()),
    )
}

fn typed(w: &ProtoWallet, body: &str, sender: &str) -> DecryptOutcome {
    match try_decrypt_plan(body, sender) {
        DecryptPlan::Passthrough(raw) => DecryptOutcome::Plaintext(raw),
        DecryptPlan::Decrypt { raw, request } => try_decrypt_message_typed(
            raw,
            w.decrypt_sync(
                &request.ciphertext,
                &protocol_of(&request.protocol),
                &request.key_id,
                &counterparty_of(&request.counterparty),
            )
            .map_err(|e| e.to_string()),
        ),
    }
}

fn untyped(w: &ProtoWallet, body: &str, sender: &str) -> String {
    match try_decrypt_plan(body, sender) {
        DecryptPlan::Passthrough(raw) => raw,
        DecryptPlan::Decrypt { raw, request } => try_decrypt_message(
            raw,
            w.decrypt_sync(
                &request.ciphertext,
                &protocol_of(&request.protocol),
                &request.key_id,
                &counterparty_of(&request.counterparty),
            )
            .map_err(|e| e.to_string()),
        ),
    }
}

fn message_id(w: &ProtoWallet, body: &str, recipient: &str) -> Result<String, MessageBoxError> {
    let q = message_id_request(body, recipient)?;
    generate_message_id(
        w.create_hmac_sync(
            &q.data,
            &protocol_of(&q.protocol),
            &q.key_id,
            &counterparty_of(&q.counterparty),
        )
        .map_err(|e| e.to_string()),
    )
}

fn wrapped(message: &str) -> String {
    let mut payment = serde_json::Map::new();
    payment.insert("txid".to_string(), serde_json::Value::from("abc123"));
    let mut outer = serde_json::Map::new();
    outer.insert("message".to_string(), serde_json::Value::from(message));
    outer.insert("payment".to_string(), serde_json::Value::Object(payment));
    serde_json::Value::Object(outer).to_string()
}

#[test]
fn encrypt_body_produces_valid_json_with_base64() {
    let sender = make_wallet();
    let receiver_pk = identity_hex(&make_wallet());
    let encrypted = encrypted_by(&sender, "hello world", &receiver_pk).expect("encrypt_body");
    let v: serde_json::Value = serde_json::from_str(&encrypted).expect("valid json");
    let b64 = v["encryptedMessage"].as_str().expect("encryptedMessage field");
    STANDARD.decode(b64).expect("valid STANDARD base64");
}

#[test]
fn encrypt_decrypt_round_trip() {
    let sender = make_wallet();
    let receiver = make_wallet();
    let message = "The quick brown fox jumps over the lazy dog — unicode: 日本語 🦊";
    let encrypted = encrypted_by(&sender, message, &identity_hex(&receiver)).expect("encrypt");
    let decrypted = decrypted_by(&receiver, &encrypted, &identity_hex(&sender)).expect("decrypt");
    assert_eq!(decrypted, message);
}

#[test]
fn try_decrypt_plaintext_passthrough() {
    let wallet = make_wallet();
    let other_pk = identity_hex(&make_wallet());
    assert_eq!(untyped(&wallet, "plain text body", &other_pk), "plain text body");
}

#[test]
fn try_decrypt_json_without_encrypted_message_passthrough() {
    let wallet = make_wallet();
    let other_pk = identity_hex(&make_wallet());
    let input = r#"{"foo":"bar","baz":42}"#;
    assert_eq!(untyped(&wallet, input, &other_pk), input);
}

#[test]
fn try_decrypt_with_encrypted_body_decrypts() {
    let sender = make_wallet();
    let receiver = make_wallet();
    let message = "secret message content";
    let encrypted = encrypted_by(&sender, message, &identity_hex(&receiver)).expect("encrypt");
    assert_eq!(untyped(&receiver, &encrypted, &identity_hex(&sender)), message);
}

#[test]
fn try_decrypt_unwraps_payment_envelope_and_decrypts() {
    let sender = make_wallet();
    let receiver = make_wallet();
    let message = "payment wrapped message";
    let encrypted = encrypted_by(&sender, message, &identity_hex(&receiver)).expect("encrypt");
    let envelope = wrapped(&encrypted);
    assert_eq!(untyped(&receiver, &envelope, &identity_hex(&sender)), message);
}

#[test]
fn typed_decrypt_plaintext_body_is_plaintext_outcome() {
    let wallet = make_wallet();
    let other_pk = identity_hex(&make_wallet());
    let body = r#"{"sender":0,"is_broadcast":true,"msg":{"round":1}}"#;
    let outcome = typed(&wallet, body, &other_pk);
    assert_eq!(outcome, DecryptOutcome::Plaintext(body.to_string()));
    assert!(!outcome.is_authenticated());
    assert_eq!(outcome.into_body(), body);
}

#[test]
fn typed_decrypt_non_json_plaintext_is_plaintext_outcome() {
    let wallet = make_wallet();
    let other_pk = identity_hex(&make_wallet());
    assert!(!typed(&wallet, "plain text", &other_pk).is_authenticated());
}

#[test]
fn typed_decrypt_failed_aead_fails_open_to_plaintext_outcome() {
    let wallet = make_wallet();
    let other_pk = identity_hex(&make_wallet());
    let body = r#"{"encryptedMessage":"AAAAbase64ciphertext=="}"#;
    let outcome = typed(&wallet, body, &other_pk);
    assert!(!outcome.is_authenticated(), "garbage ciphertext must not authenticate");
    let legacy = untyped(&wallet, body, &other_pk);
    assert_eq!(outcome.into_body(), legacy);
}

#[test]
fn typed_decrypt_round_trip_is_decrypted_outcome() {
    let sender = make_wallet();
    let receiver = make_wallet();
    let message = "secret authenticated content";
    let encrypted = encrypted_by(&sender, message, &identity_hex(&receiver)).expect("encrypt");
    let outcome = typed(&receiver, &encrypted, &identity_hex(&sender));
    assert_eq!(outcome, DecryptOutcome::Decrypted(message.to_string()));
    assert!(outcome.is_authenticated());
}

#[test]
fn typed_decrypt_payment_envelope_round_trip_is_decrypted() {
    let sender = make_wallet();
    let receiver = make_wallet();
    let message = "wrapped authenticated content";
    let encrypted = encrypted_by(&sender, message, &identity_hex(&receiver)).expect("encrypt");
    let outcome = typed(&receiver, &wrapped(&encrypted), &identity_hex(&sender));
    assert_eq!(outcome, DecryptOutcome::Decrypted(message.to_string()));
}

#[test]
fn generate_message_id_returns_64_char_hex() {
    let wallet = make_wallet();
    let other_pk = identity_hex(&make_wallet());
    let id = message_id(&wallet, "test body", &other_pk).expect("generate_message_id");
    assert_eq!(id.len(), 64, "HMAC hex should be 64 chars (32 bytes)");
    assert!(id.chars().all(|c| c.is_ascii_hexdigit()), "all hex chars");
    assert!(id.chars().all(|c| !c.is_uppercase()), "lowercase hex");
}

#[test]
fn generate_message_id_is_deterministic() {
    let wallet = make_wallet();
    let other_pk = identity_hex(&make_wallet());
    let id1 = message_id(&wallet, "same body", &other_pk).expect("first call");
    let id2 = message_id(&wallet, "same body", &other_pk).expect("second call");
    assert_eq!(id1, id2, "same inputs must produce same HMAC");
}

#[test]
fn test_message_id_is_64_hex_chars() {
    let wallet = make_wallet();
    let other_pk = identity_hex(&make_wallet());
    let id = message_id(&wallet, "test body", &other_pk).expect("generate_message_id");
    assert_eq!(id.len(), 64, "HMAC hex must be 64 chars (32 bytes)");
    assert!(id.chars().all(|c| c.is_ascii_hexdigit()), "all characters must be hex");
    assert!(id.chars().all(|c| !c.is_uppercase()), "hex must be lowercase");
}

#[test]
fn test_message_id_deterministic() {
    let wallet = make_wallet();
    let other_pk = identity_hex(&make_wallet());
    let id1 = message_id(&wallet, "same body", &other_pk).expect("first call");
    let id2 = message_id(&wallet, "same body", &other_pk).expect("second call");
    assert_eq!(id1, id2, "same inputs must produce the same HMAC");
}

#[test]
fn message_ids_hash_the_quoted_body() {
    let other_pk = identity_hex(&make_wallet());
    let q = message_id_request("a \"b\"\n\u{1}", &other_pk).expect("request");
    assert_eq!(q.data, br#""a \"b\"\n\u0001""#.to_vec());
    assert_eq!(q.key_id, "1");
    assert_eq!(q.protocol.security_level, 1);
    assert_eq!(q.protocol.name, "messagebox");
    assert_eq!(
        generate_message_id(Ok(vec![0x00, 0x0f, 0xa5, 0xff])).expect("id"),
        "000fa5ff"
    );
}

#[test]
fn envelopes_hold_standard_base64() {
    assert_eq!(
        encrypt_body(&vec![0xfb, 0xff, 0xfe, 0x01]),
        r#"{"encryptedMessage":"+//+AQ=="}"#
    );
}

#[test]
fn bad_keys_are_encryption_errors() {
    let e = encrypt_body_request("x", "not a key").expect_err("bad key");
    assert!(matches!(e, MessageBoxError::Encryption(_)));
    let e = message_id_request("x", "not a key").expect_err("bad key");
    assert!(matches!(e, MessageBoxError::Encryption(_)));
    let e = encrypt_body_request("x", "schlüssel").expect_err("bad key");
    assert_eq!(
        e.to_text(),
        "encryption error: invalid hex: invalid hex char at position 0: invalid digit found in string"
    );
    let e = encrypt_body_request("x", "0ü0").expect_err("bad key");
    assert_eq!(e.to_text(), "encryption error: invalid hex: not ASCII");
    let e = encrypt_request_for("x", Err("no".to_string())).expect_err("bad key");
    assert_eq!(e.to_text(), "encryption error: no");
    let e = message_id_request_for("x", Err("no".to_string())).expect_err("bad key");
    assert_eq!(e.to_text(), "encryption error: no");
}

#[test]
fn wallet_errors_come_through() {
    let e = decrypt_body(Err("locked".to_string())).expect_err("error");
    assert_eq!(e.to_text(), "wallet error: locked");
    let e = generate_message_id(Err("locked".to_string())).expect_err("error");
    assert_eq!(e.to_text(), "wallet error: locked");
}

#[test]
fn plaintext_that_is_no_text_is_an_encryption_error() {
    let e = decrypt_body(Ok(vec![0xff, 0xfe])).expect_err("error");
    assert!(matches!(e, MessageBoxError::Encryption(_)));
    assert_eq!(
        try_decrypt_message_typed("raw".to_string(), Ok(vec![0xff, 0xfe])),
        DecryptOutcome::Plaintext("raw".to_string())
    );
    assert_eq!(
        try_decrypt_message_typed("raw".to_string(), Ok(b"text".to_vec())),
        DecryptOutcome::Decrypted("text".to_string())
    );
}

#[test]
fn envelopes_without_the_field_are_encryption_errors() {
    let key = identity_hex(&make_wallet());
    let e = decrypt_body_request(r#"{"other":"x"}"#, &key).expect_err("no field");
    assert!(matches!(e, MessageBoxError::Encryption(_)));
    let e = decrypt_body_request("not json", &key).expect_err("no json");
    assert!(matches!(e, MessageBoxError::Json(_)));
    assert!(encrypted_field(Ok(Some("abc".to_string()))).is_ok());
    assert!(encrypted_field(Ok(None)).is_err());
    assert!(decrypt_request_for(Err("bad base64".to_string()), Ok(key)).is_err());
}

#[test]
fn members_are_read_as_strings() {
    assert_eq!(
        read_string_member(r#"{"a":"x","b":1}"#, "a").expect("json"),
        Some("x".to_string())
    );
    assert_eq!(read_string_member(r#"{"a":"x","b":1}"#, "b").expect("json"), None);
    assert_eq!(read_string_member(r#"{"a":"x","b":1}"#, "c").expect("json"), None);
    assert!(read_string_member("{", "c").is_err());
}

#[test]
fn wrapped_bodies_are_opened() {
    assert_eq!(unwrap_body(r#"{"message":"x"}"#), Some("x".to_string()));
    assert_eq!(unwrap_body(r#"{"message":{"a": 1}}"#), Some(r#"{"a":1}"#.to_string()));
    assert_eq!(unwrap_body("x"), None);
    assert_eq!(extract_plain_body(r#"{"message":"{\"message\":\"x\"}"}"#), r#"{"message":"x"}"#);
    assert_eq!(extract_plain_body("plain"), "plain");
    assert_eq!(open_body(r#"{"message":"{\"message\":\"x\"}"}"#), "x");
    assert_eq!(open_body("plain"), "plain");
    assert_eq!(text_of_member(Some("s".to_string()), "\"s\"".to_string()), "s");
    assert_eq!(text_of_member(None, "1".to_string()), "1");
    assert!(has_encrypted_message(r#"{"encryptedMessage":"x"}"#));
    assert!(!has_encrypted_message(r#"{"message":"x"}"#));
}

#[test]
fn parity_02_encryption_round_trip() {
    let sender_wallet = make_wallet();
    let recipient_wallet = make_wallet();
    let sender_pk = identity_hex(&sender_wallet);
    let recipient_pk = identity_hex(&recipient_wallet);
    let plaintext = "Hello from Rust — BRC-78 parity test 🔐";

    let encrypted_json =
        encrypted_by(&sender_wallet, plaintext, &recipient_pk).expect("encrypt_body must succeed");
    let v: serde_json::Value =
        serde_json::from_str(&encrypted_json).expect("encrypted output must be valid JSON");
    let b64 = v
        .get("encryptedMessage")
        .and_then(|f| f.as_str())
        .expect("must have encryptedMessage field");
    let ciphertext_bytes = STANDARD.decode(b64).expect("must be valid STANDARD base64");
    assert!(!ciphertext_bytes.is_empty(), "ciphertext must not be empty");
    assert!(
        !encrypted_json.contains(plaintext),
        "encrypted JSON must not contain plaintext body"
    );

    let decrypted =
        decrypted_by(&recipient_wallet, &encrypted_json, &sender_pk).expect("decrypt_body must succeed");
    assert_eq!(decrypted, plaintext, "decrypt must recover original plaintext exactly");
    let try_decrypted = untyped(&recipient_wallet, &encrypted_json, &sender_pk);
    assert_eq!(
        try_decrypted, plaintext,
        "try_decrypt_message must also recover plaintext from encrypted format"
    );
    let passthrough = untyped(&recipient_wallet, "plain text body", &sender_pk);
    assert_eq!(passthrough, "plain text body", "plaintext must pass through unchanged");
}

#[test]
fn test_send_message_returns_non_empty_id() {
    let id = message_id(&make_wallet(), "hello", &identity_hex(&make_wallet())).expect("message id");
    assert_eq!(id.len(), 64, "message ID is 64 chars");
    assert!(!id.is_empty(), "message ID is non-empty");
}
