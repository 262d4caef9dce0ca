use bsv::primitives::private_key::PrivateKey;
use bsv::wallet::proto_wallet::ProtoWallet;
use bsv::wallet::types::{Counterparty, Protocol};
use bsv_messagebox_client::client::{
    accept_body, check_status_error, status_outcome, take_body, HttpReply, InitStep,
};
use bsv_messagebox_client::types::AdvertisementToken;
use bsv_messagebox_client::{DeliveryMode, MessageBoxClient, MessageBoxError};

fn wallet_key(w: &ProtoWallet) -> Result<String, String> {
    let none = Protocol {
        security_level: 0,
        protocol: String::new(),
    };
    w.get_public_key_sync(&none, "", &Counterparty::default(), false, true)
        .map(|k| k.to_der_hex())
        .map_err(|e| e.to_string())
}

fn make_wallet() -> ProtoWallet {
    ProtoWallet::new(PrivateKey::from_random().expect("random key"))
}

#[test]
fn new_trims_host_url() {
    let client = MessageBoxClient::new("https://example.com ", None);
    assert_eq!(client.host(), "https://example.com");
}

#[test]
fn get_identity_key_returns_non_empty_hex() {
    let mut client = MessageBoxClient::new("https://example.com", None);
    let request = client.identity_key_request();
    assert!(request.identity_key);
    let key = client
        .get_identity_key(wallet_key(&make_wallet()))
        .expect("get_identity_key");
    assert!(!key.is_empty(), "identity key must be non-empty");
    assert!(
        key.chars().all(|c| c.is_ascii_hexdigit()),
        "identity key must be hex"
    );
}

#[test]
fn check_status_error_passes_success_body() {
    let body = br#"{"status":"success","data":{}}"#;
    assert!(check_status_error(body).is_ok());
}

#[test]
fn check_status_error_returns_err_for_error_body() {
    let body = br#"{"status":"error","description":"permission denied"}"#;
    let err = check_status_error(body).unwrap_err();
    assert!(matches!(err, MessageBoxError::Auth(_)));
    assert_eq!(err.to_text(), "auth error: permission denied");
}

#[test]
fn get_identity_key_caches_result() {
    let mut client = MessageBoxClient::new("https://example.com", None);
    let wallet = make_wallet();
    let key1 = client.get_identity_key(wallet_key(&wallet)).expect("first call");
    let key2 = client
        .get_identity_key(wallet_key(&make_wallet()))
        .expect("second call");
    assert_eq!(key1, key2, "the first key stays");
    assert_eq!(client.identity_key(), Some(key1));
}

#[test]
fn a_failed_identity_is_asked_for_again() {
    let mut client = MessageBoxClient::new("https://example.com", Some("app".to_string()));
    assert_eq!(client.originator(), Some("app"));
    let e = client.get_identity_key(Err("locked".to_string())).unwrap_err();
    assert!(matches!(e, MessageBoxError::Wallet(m) if m == "locked"));
    assert_eq!(client.identity_key(), None);
    assert_eq!(client.get_identity_key(Ok("03a".to_string())).unwrap(), "03a");
}

#[test]
fn test_init_compiles() {
    let client = MessageBoxClient::new("https://example.com", None);
    assert!(!client.is_initialized());
    let _step = client.init(None, "03me");
}

fn ad(host: &str) -> AdvertisementToken {
    AdvertisementToken {
        host: host.to_string(),
        txid: "t".to_string(),
        output_index: 0,
        locking_script: "00".to_string(),
        beef: vec![],
    }
}

#[test]
fn initialising_anoints_a_host_once() {
    let mut client = MessageBoxClient::new("https://example.com", None);
    match client.init(None, "03me") {
        InitStep::Query { identity_key, host } => {
            assert_eq!(identity_key, "03me");
            assert_eq!(host, "https://example.com");
        }
        _ => panic!("expected a query"),
    }
    match client.init(Some("https://other"), "03me") {
        InitStep::Anoint { host } => assert_eq!(host, "https://other"),
        _ => panic!("expected an anointing"),
    }
    match client.after_query(&vec![]) {
        InitStep::Anoint { host } => assert_eq!(host, "https://example.com"),
        _ => panic!("expected an anointing"),
    }
    assert!(matches!(
        client.after_query(&vec![ad("https://elsewhere")]),
        InitStep::Anoint { .. }
    ));
    assert!(matches!(
        client.after_query(&vec![ad("https://elsewhere"), ad(" https://example.com")]),
        InitStep::Ready
    ));
    client.finish_init();
    assert!(client.is_initialized());
    assert!(matches!(client.init(None, "03me"), InitStep::Ready));
}

#[test]
fn an_override_host_replaces_the_own_one() {
    let client = MessageBoxClient::new("https://example.com", None);
    assert_eq!(client.host_or_own(None), "https://example.com");
    assert_eq!(client.host_or_own(Some("https://o")), "https://o");
}

fn reply(status: u16, body: &str) -> Result<HttpReply, String> {
    Ok(HttpReply {
        status,
        body: body.as_bytes().to_vec(),
    })
}

#[test]
fn bodies_are_taken_from_good_answers_only() {
    assert_eq!(take_body("u", reply(200, "x")).unwrap(), b"x".to_vec());
    assert_eq!(take_body("u", reply(299, "x")).unwrap(), b"x".to_vec());
    for status in [199, 300, 404, 500] {
        assert!(
            matches!(take_body("u", reply(status, "x")), Err(MessageBoxError::Http(s, u)) if s == status && u == "u")
        );
    }
    assert!(matches!(
        take_body("u", Err("refused".to_string())),
        Err(MessageBoxError::Auth(m)) if m == "refused"
    ));
    assert!(accept_body("u", reply(200, r#"{"status":"error"}"#)).is_err());
    assert_eq!(
        accept_body("u", reply(200, r#"{"status":"ok"}"#)).unwrap(),
        br#"{"status":"ok"}"#.to_vec()
    );
    assert!(accept_body("u", reply(200, "not json")).is_ok());
}

#[test]
fn a_reported_error_without_words_is_unknown() {
    let e = status_outcome(Some("error"), None).unwrap_err();
    assert_eq!(e.to_text(), "auth error: unknown error");
    assert!(status_outcome(Some("success"), Some("error")).is_ok());
    assert!(status_outcome(None, Some("x")).is_ok());
}

#[test]
fn every_error_has_its_text() {
    let all = vec![
        (MessageBoxError::Wallet("w".to_string()), "wallet error: w"),
        (MessageBoxError::Auth("a".to_string()), "auth error: a"),
        (MessageBoxError::Http(404, "u".to_string()), "HTTP error: status 404 from u"),
        (MessageBoxError::Encryption("e".to_string()), "encryption error: e"),
        (MessageBoxError::Json("j".to_string()), "JSON parse error: j"),
        (MessageBoxError::MissingHeader("h".to_string()), "missing header: h"),
        (MessageBoxError::NotInitialized, "not initialized"),
        (MessageBoxError::Overlay("o".to_string()), "overlay error: o"),
        (MessageBoxError::WebSocket("s".to_string()), "websocket error: s"),
        (MessageBoxError::Validation("v".to_string()), "validation error: v"),
    ];
    for (e, text) in all {
        assert_eq!(e.to_text(), text);
    }
}

#[test]
fn delivery_modes_tell_their_message() {
    let live = DeliveryMode::Live {
        message_id: "m".to_string(),
    };
    assert!(live.is_live());
    assert_eq!(live.message_id(), "m");
    let stored = DeliveryMode::Persisted {
        message_id: "n".to_string(),
    };
    assert!(!stored.is_live());
    assert_eq!(stored.message_id(), "n");
}
