use bsv::primitives::private_key::PrivateKey;
use bsv::transaction::transaction::Transaction;
use bsv_messagebox_client::beef::{
    has_beef, reach_of_beef, read_fields, read_script, read_spending_data, read_transaction, Reach,
};
use bsv_messagebox_client::chain::{
    advertisement_script, make_data_push, public_key, read_hex, whole_script, HexReading,
};
use bsv_messagebox_client::client::HttpReply;
use bsv_messagebox_client::codec::hex_encode;
use bsv_messagebox_client::host_resolution::{
    advertisement_query, advertisement_with, device_registered, devices_listed, host_anointed,
    host_revoked, read_advertisement, AdvertisementStep, LookupOutput, RevocationDraft,
};
use bsv_messagebox_client::types::{
    AdvertisementToken, ListDevicesResponse, RegisterDeviceResponse, RegisteredDevice,
};
use bsv_messagebox_client::wallet::{ActionReply, Party, SignableTransaction};
use bsv_messagebox_client::{MessageBoxClient, MessageBoxError};

fn a_client() -> MessageBoxClient {
    MessageBoxClient::new("https://example.com", None)
}

const KEY_ONE: &str = "0279be667ef9dcbbac55a06295ce870b07029bfcdb2dce28d959f2815b16f81798";

fn bytes_of(hex: &str) -> Vec<u8> {
    (0..hex.len() / 2)
        .map(|i| u8::from_str_radix(&hex[2 * i..2 * i + 2], 16).expect("hex"))
        .collect()
}

/// A transaction with one input and one output, which holds one satoshi.
fn transaction(script: &[u8]) -> Vec<u8> {
    let mut tx = vec![1, 0, 0, 0, 1];
    tx.extend_from_slice(&[7; 32]);
    tx.extend_from_slice(&[0, 0, 0, 0, 0, 0xff, 0xff, 0xff, 0xff, 1]);
    tx.extend_from_slice(&[1, 0, 0, 0, 0, 0, 0, 0]);
    if script.len() < 0xfd {
        tx.push(script.len() as u8);
    } else {
        tx.extend_from_slice(&[0xfd, script.len() as u8, (script.len() >> 8) as u8]);
    }
    tx.extend_from_slice(script);
    tx.extend_from_slice(&[0, 0, 0, 0]);
    tx
}

fn beef(script: &[u8]) -> Vec<u8> {
    let mut b = vec![1, 0, 0xbe, 0xef, 0, 1];
    b.extend_from_slice(&transaction(script));
    b.push(0);
    b
}

fn ad(host: &str) -> AdvertisementToken {
    AdvertisementToken {
        host: host.to_string(),
        txid: "t".to_string(),
        output_index: 0,
        locking_script: "00".to_string(),
        beef: vec![],
    }
}

#[test]
fn test_resolve_host_falls_back_to_default() {
    let client = MessageBoxClient::new("https://example.com", None);
    let ads = a_client().query_advertisements(Err(MessageBoxError::Overlay("unreachable".to_string())));
    let host = client.resolve_host_for_recipient(&ads);
    assert_eq!(host, "https://example.com", "must fall back to self.host");
}

#[test]
fn the_first_advertised_host_is_used() {
    let client = MessageBoxClient::new("https://example.com", None);
    assert_eq!(
        client.resolve_host_for_recipient(&vec![ad("https://a"), ad("https://b")]),
        "https://a"
    );
}

#[test]
fn test_revoke_host_args_correct() {
    let mut token = ad("https://a");
    token.txid = "abcdef1234567890abcdef1234567890abcdef1234567890abcdef1234567890ab".to_string();
    match a_client().revoke_host_advertisement(&token) {
        AdvertisementStep::Spend(_, q) => {
            assert_eq!(
                q.inputs[0].outpoint,
                "abcdef1234567890abcdef1234567890abcdef1234567890abcdef1234567890ab.0"
            );
            assert_eq!(q.inputs[0].unlocking_script_length, 73);
            assert_eq!(q.input_beef, Some(vec![]));
            assert!(q.outputs.is_empty());
        }
        _ => panic!("spend"),
    }
}

#[test]
fn queries_name_the_identity_key() {
    let identity_key = "03abcdef1234567890";
    assert_eq!(
        advertisement_query(identity_key, None),
        r#"{"identityKey":"03abcdef1234567890"}"#
    );
}

#[test]
fn queries_name_a_host_unless_it_is_blank() {
    assert_eq!(
        advertisement_query("k", Some(" https://h ")),
        r#"{"host":"https://h","identityKey":"k"}"#
    );
    assert_eq!(advertisement_query("k", Some("  ")), r#"{"identityKey":"k"}"#);
}

#[test]
fn beef_is_told_from_other_bytes() {
    let b = beef(&[0x51]);
    assert!(has_beef(&b));
    for cut in 0..b.len() {
        assert!(!has_beef(&b[..cut].to_vec()), "cut at {cut}");
    }
    assert!(!has_beef(&transaction(&[0x51])));
}

#[test]
fn bytes_that_end_too_early_are_refused_by_the_reader() {
    let b = beef(&[0x51; 9]);
    for cut in 0..b.len() {
        let short = b[..cut].to_vec();
        assert!(matches!(reach_of_beef(&short), Reach::Ends), "cut at {cut}");
        let told = Transaction::from_beef(&hex_encode(&short)).expect_err("short").to_string();
        assert!(matches!(read_transaction(&short), Err(m) if m == told), "cut at {cut}");
    }
    let mut other = b;
    other[0] = 7;
    let told = Transaction::from_beef(&hex_encode(&other)).expect_err("no version").to_string();
    assert!(matches!(read_transaction(&other), Err(m) if m == told));
}

#[test]
fn bytes_that_the_reader_cannot_take_are_kept_from_it() {
    let head = |rest: &[u8]| [&[1, 0, 0xbe, 0xef], rest].concat();
    let entry = [transaction(&[0x51]), vec![1, 0xff, 0, 0, 0, 0, 1, 0, 0, 0]].concat();
    for b in [
        head(&[1, 0, 0]),
        head(&[1, 0, 65]),
        head(&[0xff, 0, 0, 0, 0, 1, 0, 0, 0]),
        head(&[0, 1, 1, 0, 0, 0, 0xfd, 0xff, 0xff]),
        [head(&[0, 1]), entry].concat(),
        beef(&[0x51, 0x4c]),
        beef(&[0x4e, 0xff, 0xff, 0xff, 0xff]),
    ] {
        assert!(matches!(reach_of_beef(&b), Reach::Stops), "{b:?}");
        assert!(matches!(read_transaction(&b), Err(m) if m == "malformed BEEF"), "{b:?}");
    }
}

#[test]
fn proofs_with_a_node_in_no_legal_place_are_refused() {
    let node = |place: u8| [vec![place, 0], vec![3; 32]].concat();
    let b = [
        vec![1, 0, 0xbe, 0xef, 1, 0, 2, 2],
        node(0),
        node(4),
        vec![1],
        node(7),
        vec![0],
    ]
    .concat();
    assert!(has_beef(&b));
    assert!(matches!(read_transaction(&b), Err(m) if m.contains("Invalid offset: 7, at height: 1")));
}

#[test]
fn transactions_are_read_out_of_beef() {
    let script = bytes_of("76a914751e76e8199196d454941c45d1b3a323f1433bd688ac");
    let t = read_transaction(&beef(&script)).expect("a transaction");
    assert_eq!(t.scripts, vec![script.clone()]);
    let expected = Transaction::from_hex(&hex_encode(&transaction(&script))).unwrap().id().unwrap();
    assert_eq!(t.id.unwrap(), expected);
}

#[test]
fn scripts_are_read_from_hex() {
    assert_eq!(read_script("51").unwrap(), vec![0x51]);
    assert_eq!(read_script("0201ff").unwrap(), vec![2, 1, 255]);
    assert!(read_script("zz").is_err());
    assert!(read_script("514c").is_err(), "a push without its length");
    assert_eq!(read_script("+051").unwrap(), vec![0, 0x51], "a plus sign stands before a digit");
    assert!(matches!(read_script("5ü"), Err(m) if m == "invalid format: hex string has odd length"));
    assert!(matches!(read_script("üü"), Err(m) if m == "invalid format: invalid hex at position 0"));
    assert!(matches!(read_script("5ü1"), Err(m) if m == "malformed script"));
    assert!(whole_script(&vec![2, 1, 255]));
    assert!(whole_script(&vec![1, 0x4c]));
    assert!(whole_script(&vec![0x4e, 0xff, 0xff, 0xff, 0x7f]));
    assert!(!whole_script(&vec![0x4e, 0xff, 0xff, 0xff, 0xff]), "the push ends beyond every position");
    assert!(!whole_script(&vec![0x51, 0x4c]));
}

#[test]
fn data_pushes_are_as_short_as_they_can_be() {
    assert_eq!(make_data_push(&[]), vec![0]);
    assert_eq!(make_data_push(&[7]), vec![1, 7]);
    assert_eq!(make_data_push(&[1; 75])[0], 75);
    assert_eq!(make_data_push(&[1; 76])[..2], [0x4c, 76]);
    assert_eq!(make_data_push(&[1; 255])[..2], [0x4c, 255]);
    assert_eq!(make_data_push(&[1; 256])[..3], [0x4d, 0, 1]);
    assert_eq!(make_data_push(&[1; 256]).len(), 259);
}

#[test]
fn keys_are_read_in_compressed_notation() {
    assert_eq!(public_key(KEY_ONE).unwrap(), KEY_ONE);
    assert_eq!(public_key(&KEY_ONE.to_uppercase()).unwrap(), KEY_ONE);
    assert!(public_key("02").is_err());
    let uncompressed = format!(
        "04{}483ada7726a3c4655da4fbfc0e1108a8fd17b448a68554199c47d08ffb10d4b8",
        &KEY_ONE[2..]
    );
    assert_eq!(public_key(&uncompressed).unwrap(), KEY_ONE);
    assert_eq!(public_key(&format!("+{}", &KEY_ONE[1..])).unwrap(), KEY_ONE);
    assert_eq!(public_key("ü0").unwrap_err(), "invalid hex: odd length hex string");
    assert_eq!(public_key("0ü0").unwrap_err(), "invalid hex: not ASCII");
}

#[test]
fn hexadecimal_texts_are_read_in_pairs() {
    assert!(matches!(read_hex(""), HexReading::Bytes(b) if b.is_empty()));
    assert!(matches!(read_hex("00fFA9"), HexReading::Bytes(b) if b == vec![0, 255, 0xa9]));
    assert!(matches!(read_hex("+f"), HexReading::Bytes(b) if b == vec![15]));
    for refused in ["0", "f+", "++", "-1", "g0", "ü", "00ü", "zz0ü0"] {
        assert!(matches!(read_hex(refused), HexReading::Refused), "{refused}");
    }
    for cut in ["0ü0", "000ü0", "€0"] {
        assert!(matches!(read_hex(cut), HexReading::Cut), "{cut}");
    }
}

#[test]
fn advertisements_are_made_and_read_back() {
    let me = PrivateKey::from_random().unwrap().to_public_key().to_der_hex();
    let (a, q) = match a_client().anoint_host(&me, "https://mine.example") {
        AdvertisementStep::Derive(a, q) => (a, q),
        _ => panic!("derive"),
    };
    assert_eq!(q.protocol.as_ref().unwrap().name, "messagebox advertisement");
    assert_eq!(q.protocol.as_ref().unwrap().security_level, 1);
    assert_eq!(q.key_id.as_deref(), Some("1"));
    assert!(matches!(q.counterparty, Some(Party::Anyone)));
    assert_eq!(q.for_self, Some(true));
    let (s, q) = match a.derived(Ok(bytes_of(KEY_ONE))) {
        Ok(AdvertisementStep::SignFields(s, q)) => (s, q),
        _ => panic!("sign fields"),
    };
    let mut signed = bytes_of(&me);
    signed.extend_from_slice(b"https://mine.example");
    assert_eq!(q.data, signed);
    let action = match s.signed(Ok(vec![0x30, 0x44, 9])) {
        Ok(AdvertisementStep::Create(q)) => q,
        _ => panic!("create"),
    };
    assert_eq!(action.outputs.len(), 1);
    assert_eq!(action.outputs[0].satoshis, 1);
    assert_eq!(action.outputs[0].basket.as_deref(), Some("overlay advertisements"));
    let script = action.outputs[0].locking_script.clone();
    assert!(whole_script(&script));
    assert_eq!(
        read_fields(&script).unwrap(),
        vec![bytes_of(&me), b"https://mine.example".to_vec(), vec![0x30, 0x44, 9]]
    );
    let b = beef(&script);
    let output = LookupOutput {
        beef: b.clone(),
        output_index: 0,
    };
    let found = read_advertisement(output.clone()).expect("an advertisement");
    assert_eq!(found.host, "https://mine.example");
    assert_eq!(found.locking_script, hex_encode(&script));
    assert_eq!(found.beef, b);
    assert_eq!(found.output_index, 0);
    let outside = LookupOutput {
        beef: b.clone(),
        output_index: 1,
    };
    let broken = LookupOutput {
        beef: vec![1],
        output_index: 0,
    };
    assert!(read_advertisement(outside.clone()).is_none());
    let all = a_client().query_advertisements(Ok(vec![broken, output, outside]));
    assert_eq!(all.len(), 1);
    assert_eq!(all[0].host, "https://mine.example");
}

#[test]
fn advertisements_need_two_fields_and_a_text() {
    let output = || LookupOutput {
        beef: vec![],
        output_index: 4,
    };
    let id = || Ok("id".to_string());
    let script = vec![0x51];
    let good = advertisement_with(output(), Ok(vec![vec![1], b"h".to_vec()]), id(), &script).unwrap();
    assert_eq!(good.host, "h");
    assert_eq!(good.txid, "id");
    assert_eq!(good.output_index, 4);
    assert_eq!(good.locking_script, "51");
    assert!(advertisement_with(output(), Ok(vec![vec![1]]), id(), &script).is_none());
    assert!(advertisement_with(output(), Ok(vec![vec![], vec![0xff]]), id(), &script).is_none());
    assert!(advertisement_with(output(), Err("e".to_string()), id(), &script).is_none());
    assert!(advertisement_with(
        output(),
        Ok(vec![vec![1], b"h".to_vec()]),
        Err("e".to_string()),
        &script
    )
    .is_none());
}

#[test]
fn anointing_fails_as_its_parts_do() {
    let derive = |key: &str| match a_client().anoint_host(key, "h") {
        AdvertisementStep::Derive(a, _) => a,
        _ => panic!("derive"),
    };
    assert!(matches!(derive("00").derived(Err("w".to_string())), Err(MessageBoxError::Wallet(_))));
    assert!(matches!(
        derive("0").derived(Ok(bytes_of(KEY_ONE))),
        Err(MessageBoxError::Overlay(m)) if m.starts_with("hex decode identity key: ")
    ));
    assert!(matches!(
        derive("00").derived(Ok(vec![4; 65])),
        Err(MessageBoxError::Wallet(m)) if m == "the key is not in compressed notation"
    ));
    match derive("00").derived(Ok(bytes_of(KEY_ONE))) {
        Ok(AdvertisementStep::SignFields(s, _)) => assert!(matches!(
            s.signed(Err("x".to_string())),
            Err(MessageBoxError::Overlay(m)) if m == "sign fields: x"
        )),
        _ => panic!("sign fields"),
    }
}

#[test]
fn transactions_are_broadcast_under_their_identifier() {
    let b = beef(&[0x51]);
    let expected = Transaction::from_hex(&hex_encode(&transaction(&[0x51]))).unwrap().id().unwrap();
    let reply = ActionReply {
        tx: Some(b.clone()),
        signable: None,
    };
    match host_anointed(Ok(reply)) {
        Ok(AdvertisementStep::Broadcast(s, tx)) => {
            assert_eq!(tx, b);
            assert_eq!(s.broadcast(Ok(())).unwrap(), expected);
        }
        _ => panic!("broadcast"),
    }
    match host_revoked(Ok(Some(b))) {
        Ok(AdvertisementStep::Broadcast(s, _)) => assert!(matches!(
            s.broadcast(Err("refused".to_string())),
            Err(MessageBoxError::Overlay(m)) if m == "refused"
        )),
        _ => panic!("broadcast"),
    }
    assert!(matches!(
        host_anointed(Ok(ActionReply { tx: Some(vec![]), signable: None })),
        Err(MessageBoxError::Overlay(m)) if m.starts_with("parse BEEF: ")
    ));
    assert!(matches!(
        host_anointed(Ok(ActionReply { tx: None, signable: None })),
        Err(MessageBoxError::Overlay(m)) if m == "create_action returned no tx"
    ));
    assert!(matches!(
        host_revoked(Ok(None)),
        Err(MessageBoxError::Overlay(m)) if m == "sign_action returned no tx"
    ));
    assert!(matches!(host_revoked(Err("w".to_string())), Err(MessageBoxError::Wallet(_))));
}

fn revocation(script: &[u8], signable: Option<Vec<u8>>) -> Result<AdvertisementStep, MessageBoxError> {
    let mut token = ad("h");
    token.locking_script = hex_encode(script);
    let r = match a_client().revoke_host_advertisement(&token) {
        AdvertisementStep::Spend(r, _) => r,
        _ => panic!("spend"),
    };
    r.created(Ok(ActionReply {
        tx: None,
        signable: signable.map(|tx| SignableTransaction {
            tx,
            reference: vec![8],
        }),
    }))
}

fn draft() -> RevocationDraft {
    match revocation(&[0x51], Some(beef(&[0x52]))) {
        Ok(AdvertisementStep::SignTransaction(d, _)) => d,
        _ => panic!("sign"),
    }
}

#[test]
fn revocations_sign_what_the_transaction_spends() {
    let script = advertisement_script(&bytes_of(KEY_ONE), vec![vec![1], vec![2]]).unwrap();
    let signing = beef(&[0x52]);
    let data = match revocation(&script, Some(signing.clone())) {
        Ok(AdvertisementStep::SignTransaction(_, q)) => q.data,
        _ => panic!("sign"),
    };
    assert_eq!(data, read_spending_data(&signing, 0x41, 1, &script).unwrap());
    assert_ne!(data, read_spending_data(&signing, 0x41, 2, &script).unwrap());
    assert_ne!(data, read_spending_data(&signing, 0x41, 1, &vec![0x51]).unwrap());
    assert!(read_spending_data(&vec![], 0x41, 1, &script).is_err());
    let mut unlocked = vec![4, 1, 2, 3];
    unlocked.push(0x41);
    match draft().signed(Ok(vec![1, 2, 3])) {
        Ok(AdvertisementStep::Complete(q)) => {
            assert_eq!(q.reference, vec![8]);
            assert_eq!(q.spends.len(), 1);
            assert_eq!(q.spends[0].input, 0);
            assert_eq!(q.spends[0].unlocking_script, unlocked);
        }
        _ => panic!("complete"),
    }
    assert!(matches!(draft().signed(Err("w".to_string())), Err(MessageBoxError::Wallet(_))));
}

#[test]
fn revocations_fail_as_their_parts_do() {
    assert!(matches!(
        revocation(&[0x51], None),
        Err(MessageBoxError::Overlay(m)) if m == "create_action returned no signable_transaction"
    ));
    assert!(matches!(
        revocation(&[0x51], Some(vec![])),
        Err(MessageBoxError::Overlay(m))
            if m == format!("parse signable tx: {}", Transaction::from_beef("").unwrap_err())
    ));
    assert!(matches!(
        revocation(&[0x51], Some(vec![1, 0, 0xbe, 0xef, 1, 0, 0])),
        Err(MessageBoxError::Overlay(m)) if m == "parse signable tx: malformed BEEF"
    ));
    assert!(matches!(
        revocation(&[0x51, 0x4c], Some(beef(&[0x52]))),
        Err(MessageBoxError::Overlay(m)) if m.starts_with("parse locking script hex: ")
    ));
    let r = match a_client().revoke_host_advertisement(&ad("h")) {
        AdvertisementStep::Spend(r, _) => r,
        _ => panic!("spend"),
    };
    assert!(matches!(r.created(Err("w".to_string())), Err(MessageBoxError::Wallet(_))));
    let r = match a_client().revoke_host_advertisement(&ad("h")) {
        AdvertisementStep::Spend(r, _) => r,
        _ => panic!("spend"),
    };
    let reply = ActionReply {
        tx: None,
        signable: Some(SignableTransaction {
            tx: vec![],
            reference: vec![],
        }),
    };
    assert!(matches!(
        r.created_with(Ok(reply), Ok(()), Ok(vec![]), Err("e".to_string())),
        Err(MessageBoxError::Overlay(m)) if m == "sighash_preimage: e"
    ));
}

#[test]
fn devices_are_registered_and_listed() {
    let c = MessageBoxClient::new("https://h", None);
    let p = c.register_device("tok", Some("d"), None, None);
    assert_eq!(p.url, "https://h/registerDevice");
    assert_eq!(p.body, r#"{"fcmToken":"tok","deviceId":"d"}"#);
    assert_eq!(c.list_registered_devices(Some("https://o")), "https://o/devices");
    let reply = |body: &str| {
        Ok(HttpReply {
            status: 200,
            body: body.as_bytes().to_vec(),
        })
    };
    let registered = RegisterDeviceResponse {
        status: "success".to_string(),
        message: None,
        device_id: Some(42),
    };
    let r = device_registered("u", reply(r#"{"status":"success"}"#), Ok(registered)).unwrap();
    assert_eq!(r.device_id, Some(42));
    let listed = ListDevicesResponse {
        status: "success".to_string(),
        devices: vec![RegisteredDevice {
            id: Some(1),
            device_id: None,
            fcm_token: "tok".to_string(),
            platform: None,
            active: None,
            created_at: None,
            updated_at: None,
            last_used: None,
        }],
    };
    let ds = devices_listed("u", reply(r#"{"status":"success"}"#), Ok(listed)).unwrap();
    assert_eq!(ds.len(), 1);
    assert_eq!(ds[0].fcm_token, "tok");
    assert!(matches!(
        devices_listed("u", reply("{}"), Err("bad".to_string())),
        Err(MessageBoxError::Overlay(_))
    ));
    assert!(matches!(
        device_registered("u", Err("down".to_string()), Err("bad".to_string())),
        Err(MessageBoxError::Auth(m)) if m == "down"
    ));
}
