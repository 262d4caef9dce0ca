use bsv_messagebox_client::json::ToJson;
use bsv_messagebox_client::types::{
    AcknowledgeMessageParams, FailedRecipient, IncomingPayment, InsertionRemittanceInfo,
    ListMessagesParams, MessageBoxMultiQuote, MessageBoxPermission, MessagePayment,
    MessagePaymentOutput, Payment, PaymentCustomInstructions, PaymentOutput, PaymentRemittanceInfo,
    PaymentRequestMessage, PaymentRequestResponse, PaymentToken, RecipientQuote,
    RegisterDeviceRequest, SendListParams, SendListResult, SendListTotals, SendMessageParams,
    SendMessageRequest, SentRecipient, ServerPeerMessage, SetPermissionParams, WsSendMessageData,
    WsSendMessagePayload,
};

fn value(text: &str) -> serde_json::Value {
    serde_json::from_str(text).expect("JSON")
}

fn bytes_of(v: &serde_json::Value) -> Vec<u64> {
    v.as_array()
        .expect("array")
        .iter()
        .map(|b| b.as_u64().expect("number"))
        .collect()
}

#[test]
fn set_permission_params_serializes_camel_case() {
    let p = SetPermissionParams {
        message_box: "payment_inbox".to_string(),
        sender: None,
        recipient_fee: 100,
    };
    let json = p.to_json();
    assert!(json.contains("\"messageBox\""), "messageBox field name");
    assert!(json.contains("\"recipientFee\""), "recipientFee field name");
    assert!(!json.contains("message_box"), "no snake_case leakage");
    assert!(!json.contains("recipient_fee"), "no snake_case leakage");
    assert!(!json.contains("sender"), "sender absent when None");
    assert_eq!(json, r#"{"messageBox":"payment_inbox","recipientFee":100}"#);
}

#[test]
fn set_permission_params_includes_sender_when_some() {
    let p = SetPermissionParams {
        message_box: "inbox".to_string(),
        sender: Some("03abc".to_string()),
        recipient_fee: 0,
    };
    let json = p.to_json();
    assert!(json.contains("\"sender\""), "sender present when Some");
    assert!(json.contains("\"03abc\""), "sender value correct");
}

#[test]
fn set_permission_post_body_is_camel_case() {
    let params = SetPermissionParams {
        message_box: "payment_inbox".to_string(),
        sender: Some("03abc".to_string()),
        recipient_fee: 100,
    };
    let json = params.to_json();
    assert!(json.contains("\"messageBox\""), "messageBox must be camelCase");
    assert!(json.contains("\"recipientFee\""), "recipientFee must be camelCase");
    assert!(json.contains("\"sender\""), "sender must be present when Some");
    assert!(!json.contains("message_box"), "no snake_case leakage");
    assert!(!json.contains("recipient_fee"), "no snake_case leakage");
}

#[test]
fn payment_custom_instructions_round_trip() {
    let ci = PaymentCustomInstructions {
        derivation_prefix: "pfx123".to_string(),
        derivation_suffix: "sfx456".to_string(),
        payee: Some("03abc".to_string()),
    };
    let back = value(&ci.to_json());
    assert_eq!(back["derivationPrefix"], "pfx123");
    assert_eq!(back["derivationSuffix"], "sfx456");
    assert_eq!(back["payee"], "03abc");
}

#[test]
fn payment_token_serializes_camel_case() {
    let token = PaymentToken {
        custom_instructions: PaymentCustomInstructions {
            derivation_prefix: "pfx".to_string(),
            derivation_suffix: "sfx".to_string(),
            payee: Some("03recipient".to_string()),
        },
        transaction: vec![1, 2, 3],
        amount: 1000,
        output_index: Some(0),
    };
    let json = token.to_json();
    assert!(json.contains("\"customInstructions\""), "customInstructions field name");
    assert!(json.contains("\"derivationPrefix\""), "derivationPrefix field name");
    assert!(json.contains("\"derivationSuffix\""), "derivationSuffix field name");
    assert!(json.contains("\"payee\""), "payee present when Some");
    assert!(json.contains("\"outputIndex\""), "outputIndex present when Some");
    assert!(!json.contains("custom_instructions"), "no snake_case leakage");
    assert!(!json.contains("derivation_prefix"), "no snake_case leakage");
    assert!(!json.contains("output_index"), "no snake_case leakage");
}

#[test]
fn payment_token_no_output_index_by_default() {
    let token = PaymentToken {
        custom_instructions: PaymentCustomInstructions {
            derivation_prefix: "pfx".to_string(),
            derivation_suffix: "sfx".to_string(),
            payee: None,
        },
        transaction: vec![0xab, 0xcd],
        amount: 500,
        output_index: None,
    };
    let json = token.to_json();
    assert!(!json.contains("outputIndex"), "outputIndex absent when None");
    assert!(!json.contains("payee"), "payee absent when None");
}

#[test]
fn register_device_request_camel_case() {
    let req = RegisterDeviceRequest {
        fcm_token: "tok123".to_string(),
        device_id: Some("dev-abc".to_string()),
        platform: Some("android".to_string()),
    };
    let json = req.to_json();
    assert!(json.contains("\"fcmToken\""), "fcmToken field name");
    assert!(json.contains("\"deviceId\""), "deviceId field name");
    assert!(json.contains("\"platform\""), "platform field name");
    assert!(!json.contains("fcm_token"), "no snake_case leakage");
    assert!(!json.contains("device_id"), "no snake_case leakage");
}

#[test]
fn register_device_request_omits_optional_fields_when_none() {
    let req = RegisterDeviceRequest {
        fcm_token: "tok456".to_string(),
        device_id: None,
        platform: None,
    };
    let json = req.to_json();
    assert!(json.contains("\"fcmToken\""), "fcmToken present");
    assert!(!json.contains("deviceId"), "deviceId absent when None");
    assert!(!json.contains("platform"), "platform absent when None");
}

#[test]
fn test_register_device_request_serializes_camelcase() {
    let req = RegisterDeviceRequest {
        fcm_token: "abc".to_string(),
        device_id: Some("d1".to_string()),
        platform: None,
    };
    let json = req.to_json();
    assert!(json.contains("\"fcmToken\":\"abc\""), "fcmToken must be camelCase: {json}");
    assert!(json.contains("\"deviceId\":\"d1\""), "deviceId must be camelCase: {json}");
    assert!(!json.contains("platform"), "platform absent when None: {json}");
    assert!(!json.contains("fcm_token"), "no snake_case leakage: {json}");
    assert!(!json.contains("device_id"), "no snake_case leakage: {json}");
}

#[test]
fn send_message_params_serializes_camel_case() {
    let p = SendMessageParams {
        recipient: "03abc".to_string(),
        message_box: "inbox".to_string(),
        body: "hello".to_string(),
        message_id: "deadbeef".to_string(),
    };
    let json = p.to_json();
    assert!(json.contains("\"messageBox\""), "messageBox field name");
    assert!(json.contains("\"messageId\""), "messageId field name");
    assert!(!json.contains("message_box"), "no snake_case leakage");
    assert!(!json.contains("message_id"), "no snake_case leakage");
}

#[test]
fn acknowledge_params_serializes_camel_case() {
    let p = AcknowledgeMessageParams {
        message_ids: vec!["id1".to_string(), "id2".to_string()],
    };
    let json = p.to_json();
    assert!(json.contains("\"messageIds\""), "messageIds field name");
    assert!(!json.contains("message_ids"), "no snake_case leakage");
}

#[test]
fn test_send_message_request_format() {
    let req = SendMessageRequest {
        message: SendMessageParams {
            recipient: "03abc123".to_string(),
            message_box: "payment_inbox".to_string(),
            body: r#"{"encryptedMessage":"abc=="}"#.to_string(),
            message_id: "deadbeef01234567".to_string(),
        },
        payment: None,
    };
    let json = req.to_json();
    assert!(json.starts_with(r#"{"message":"#), "must have message wrapper");
    assert!(json.contains("\"recipient\""), "camelCase recipient");
    assert!(json.contains("\"messageBox\""), "camelCase messageBox");
    assert!(json.contains("\"messageId\""), "camelCase messageId");
    assert!(json.contains("\"payment_inbox\""), "messageBox value preserved");
    assert!(!json.contains("message_box"), "no snake_case leakage");
    assert!(!json.contains("message_id"), "no snake_case leakage");
}

#[test]
fn test_acknowledge_request_format() {
    let params = AcknowledgeMessageParams {
        message_ids: vec!["id1".to_string(), "id2".to_string()],
    };
    assert_eq!(params.to_json(), r#"{"messageIds":["id1","id2"]}"#);
}

#[test]
fn payment_request_message_serializes_camel_case() {
    let msg = PaymentRequestMessage {
        request_id: "req-123".to_string(),
        sender_identity_key: "03abc".to_string(),
        request_proof: "deadbeef".to_string(),
        amount: Some(5000),
        description: Some("test payment".to_string()),
        expires_at: Some(1700000000000),
        cancelled: None,
    };
    let json = msg.to_json();
    assert!(json.contains("\"requestId\""));
    assert!(json.contains("\"senderIdentityKey\""));
    assert!(json.contains("\"requestProof\""));
    assert!(json.contains("\"expiresAt\""));
    assert!(!json.contains("request_id"));
    assert!(!json.contains("sender_identity_key"));
    assert!(!json.contains("cancelled"));
}

#[test]
fn cancellation_message_serializes_correctly() {
    let msg = PaymentRequestMessage {
        request_id: "req-456".to_string(),
        sender_identity_key: "03def".to_string(),
        request_proof: "cafebabe".to_string(),
        amount: None,
        description: None,
        expires_at: None,
        cancelled: Some(true),
    };
    let json = msg.to_json();
    assert!(json.contains("\"cancelled\":true"));
    assert!(!json.contains("amount"));
    assert!(!json.contains("description"));
    assert!(!json.contains("expiresAt"));
}

#[test]
fn payment_request_response_round_trip() {
    let resp = PaymentRequestResponse {
        request_id: "req-789".to_string(),
        status: "paid".to_string(),
        note: Some("done".to_string()),
        amount_paid: Some(5000),
    };
    let back = value(&resp.to_json());
    assert_eq!(back["requestId"], "req-789");
    assert_eq!(back["status"], "paid");
    assert_eq!(back["amountPaid"], 5000);
    assert_eq!(back["note"], "done");
}

#[test]
fn declined_response_omits_amount_paid() {
    let resp = PaymentRequestResponse {
        request_id: "req-abc".to_string(),
        status: "declined".to_string(),
        note: None,
        amount_paid: None,
    };
    let json = resp.to_json();
    assert!(!json.contains("amountPaid"));
    assert!(!json.contains("note"));
}

#[test]
fn send_message_data_serializes_camel_case() {
    let data = WsSendMessageData {
        room_id: "03abc-payment_inbox".to_string(),
        message: WsSendMessagePayload {
            message_id: "deadbeef".to_string(),
            recipient: "03abc".to_string(),
            body: "encrypted".to_string(),
        },
    };
    let json = data.to_json();
    assert!(json.contains("\"roomId\""), "roomId field name");
    assert!(json.contains("\"messageId\""), "messageId field name");
    assert!(!json.contains("room_id"), "no snake_case leakage");
    assert!(!json.contains("message_id"), "no snake_case leakage");
}

#[test]
fn send_message_payload_round_trip() {
    let payload = WsSendMessagePayload {
        message_id: "abc123".to_string(),
        recipient: "03def456".to_string(),
        body: r#"{"encryptedMessage":"abc=="}"#.to_string(),
    };
    let back = value(&payload.to_json());
    assert_eq!(back["messageId"], "abc123");
    assert_eq!(back["recipient"], "03def456");
    assert_eq!(back["body"], r#"{"encryptedMessage":"abc=="}"#);
}

#[test]
fn test_payment_token_camel_case_wire_format() {
    let token = PaymentToken {
        custom_instructions: PaymentCustomInstructions {
            derivation_prefix: "prefix123".to_string(),
            derivation_suffix: "suffix456".to_string(),
            payee: Some("03abcdef".to_string()),
        },
        transaction: vec![1u8, 2, 3],
        amount: 1500,
        output_index: None,
    };
    let json = token.to_json();
    assert!(json.contains("\"customInstructions\""), "customInstructions camelCase");
    assert!(json.contains("\"derivationPrefix\""), "derivationPrefix camelCase");
    assert!(json.contains("\"derivationSuffix\""), "derivationSuffix camelCase");
    assert!(json.contains("\"transaction\""), "transaction present");
    assert!(json.contains("\"amount\""), "amount present");
    assert!(json.contains("\"payee\""), "payee present when Some");
    assert!(json.contains("[1,2,3]"), "transaction as number array");
    assert!(!json.contains("outputIndex"), "outputIndex absent when None");
    assert!(!json.contains("output_index"), "no snake_case leakage");
    assert!(json.contains("\"03abcdef\""), "payee value correct");

    let token_no_payee = PaymentToken {
        custom_instructions: PaymentCustomInstructions {
            derivation_prefix: "p".to_string(),
            derivation_suffix: "s".to_string(),
            payee: None,
        },
        transaction: vec![0xab],
        amount: 100,
        output_index: None,
    };
    assert!(!token_no_payee.to_json().contains("payee"), "payee absent when None");
}

#[test]
fn test_incoming_payment_from_payment_token() {
    let token = PaymentToken {
        custom_instructions: PaymentCustomInstructions {
            derivation_prefix: "pfx".to_string(),
            derivation_suffix: "sfx".to_string(),
            payee: None,
        },
        transaction: vec![0xde, 0xad, 0xbe, 0xef],
        amount: 2500,
        output_index: None,
    };
    let incoming = IncomingPayment {
        token: token.clone(),
        sender: "03sender_pubkey".to_string(),
        message_id: "msg-abc-123".to_string(),
    };
    assert_eq!(incoming.sender, "03sender_pubkey", "sender preserved");
    assert_eq!(incoming.message_id, "msg-abc-123", "message_id preserved");
    assert_eq!(incoming.token.amount, 2500, "token amount preserved");
    assert_eq!(
        incoming.token.transaction,
        vec![0xde, 0xad, 0xbe, 0xef],
        "transaction preserved"
    );
    assert_eq!(incoming.token.custom_instructions.derivation_prefix, "pfx");
    assert_eq!(incoming.token.custom_instructions.derivation_suffix, "sfx");
}

#[test]
fn incoming_payment_round_trip() {
    let token = PaymentToken {
        custom_instructions: PaymentCustomInstructions {
            derivation_prefix: "pfx".to_string(),
            derivation_suffix: "sfx".to_string(),
            payee: Some("03recipient".to_string()),
        },
        transaction: vec![0xde, 0xad, 0xbe, 0xef],
        amount: 5000,
        output_index: None,
    };
    let incoming = IncomingPayment {
        token: token.clone(),
        sender: "03sender_key".to_string(),
        message_id: "abc123".to_string(),
    };
    assert_eq!(incoming.sender, "03sender_key");
    assert_eq!(incoming.message_id, "abc123");
    assert_eq!(incoming.token.amount, 5000);
    assert_eq!(incoming.token.transaction, vec![0xde, 0xad, 0xbe, 0xef]);
    assert_eq!(incoming.token.custom_instructions.derivation_prefix, "pfx");
    assert_eq!(incoming.token.custom_instructions.derivation_suffix, "sfx");
    assert_eq!(incoming.token.output_index, None);
}

#[test]
fn test_payment_token_round_trip_serialization() {
    let original = PaymentToken {
        custom_instructions: PaymentCustomInstructions {
            derivation_prefix: "round-trip-prefix".to_string(),
            derivation_suffix: "round-trip-suffix".to_string(),
            payee: Some("03roundtrip".to_string()),
        },
        transaction: vec![0x01, 0x02, 0x03, 0xff, 0xfe],
        amount: 9999,
        output_index: Some(2),
    };
    let restored = value(&original.to_json());
    assert_eq!(restored["amount"], 9999, "amount round-trips");
    assert_eq!(
        bytes_of(&restored["transaction"]),
        vec![0x01, 0x02, 0x03, 0xff, 0xfe],
        "transaction round-trips"
    );
    assert_eq!(restored["outputIndex"], 2, "output_index round-trips");
    let ci = &restored["customInstructions"];
    assert_eq!(ci["derivationPrefix"], "round-trip-prefix", "derivation_prefix round-trips");
    assert_eq!(ci["derivationSuffix"], "round-trip-suffix", "derivation_suffix round-trips");
    assert_eq!(ci["payee"], "03roundtrip", "payee round-trips");
}

#[test]
fn parity_03_payment_token_json_shape() {
    let token = PaymentToken {
        custom_instructions: PaymentCustomInstructions {
            derivation_prefix: "test-prefix-abc".to_string(),
            derivation_suffix: "test-suffix-xyz".to_string(),
            payee: Some("03abcdef1234567890".to_string()),
        },
        transaction: vec![0xde, 0xad, 0xbe, 0xef, 0x01],
        amount: 2500,
        output_index: Some(1),
    };
    let json = value(&token.to_json());
    assert!(json.get("customInstructions").is_some(), "must have customInstructions (camelCase)");
    assert!(json.get("transaction").is_some(), "must have transaction");
    assert!(json.get("amount").is_some(), "must have amount");
    assert!(json.get("outputIndex").is_some(), "must have outputIndex when Some");
    assert!(json.get("custom_instructions").is_none(), "no snake_case: custom_instructions");
    assert!(json.get("output_index").is_none(), "no snake_case: output_index");

    let ci = json.get("customInstructions").unwrap();
    assert!(ci.get("derivationPrefix").is_some(), "must have derivationPrefix (camelCase)");
    assert!(ci.get("derivationSuffix").is_some(), "must have derivationSuffix (camelCase)");
    assert!(ci.get("payee").is_some(), "must have payee when Some");
    assert!(ci.get("derivation_prefix").is_none(), "no snake_case: derivation_prefix");
    assert!(ci.get("derivation_suffix").is_none(), "no snake_case: derivation_suffix");
    assert_eq!(ci.get("derivationPrefix").unwrap().as_str(), Some("test-prefix-abc"));
    assert_eq!(ci.get("derivationSuffix").unwrap().as_str(), Some("test-suffix-xyz"));
    assert_eq!(ci.get("payee").unwrap().as_str(), Some("03abcdef1234567890"));
    assert_eq!(json.get("amount").unwrap().as_u64(), Some(2500));
    assert_eq!(json.get("outputIndex").unwrap().as_u64(), Some(1));
    let tx_arr = json.get("transaction").unwrap().as_array().expect("transaction must be array");
    assert_eq!(tx_arr.len(), 5, "transaction array must have all bytes");
    assert_eq!(tx_arr[0].as_u64(), Some(0xde));
    assert_eq!(tx_arr[3].as_u64(), Some(0xef));
    assert_eq!(bytes_of(&json["transaction"]), vec![0xde, 0xad, 0xbe, 0xef, 0x01]);

    let token_none = PaymentToken {
        custom_instructions: PaymentCustomInstructions {
            derivation_prefix: "pfx".to_string(),
            derivation_suffix: "sfx".to_string(),
            payee: None,
        },
        transaction: vec![0x01, 0x02],
        amount: 100,
        output_index: None,
    };
    let json_none = value(&token_none.to_json());
    assert!(json_none.get("outputIndex").is_none(), "outputIndex must be absent when None");
    assert!(
        json_none.get("customInstructions").unwrap().get("payee").is_none(),
        "payee must be absent when None"
    );
}

#[test]
fn every_record_is_written_as_the_wire_wants_it() {
    let params = SendMessageParams {
        recipient: "03abc".to_string(),
        message_box: "inbox".to_string(),
        body: "hello".to_string(),
        message_id: "id1".to_string(),
    };
    let json = value(&params.to_json());
    assert!(json.get("messageBox").is_some());
    assert!(json.get("messageId").is_some());
    assert!(json.get("recipient").is_some());
    assert!(json.get("body").is_some());
    assert!(json.get("message_box").is_none());
    assert!(json.get("message_id").is_none());

    let ack = AcknowledgeMessageParams {
        message_ids: vec!["msg-a".to_string(), "msg-b".to_string()],
    };
    let json = value(&ack.to_json());
    assert!(json.get("message_ids").is_none());
    assert_eq!(json.get("messageIds").unwrap().as_array().unwrap().len(), 2);

    let slp = SendListParams {
        recipients: vec!["03abc".to_string(), "03def".to_string()],
        message_box: "inbox".to_string(),
        body: "hi".to_string(),
        skip_encryption: None,
    };
    let json = value(&slp.to_json());
    assert!(json.get("messageBox").is_some());
    assert!(json.get("recipients").is_some());
    assert!(json.get("skipEncryption").is_none());
    assert!(json.get("message_box").is_none());
    let slp_with_enc = SendListParams {
        recipients: vec!["03abc".to_string()],
        message_box: "inbox".to_string(),
        body: "hi".to_string(),
        skip_encryption: Some(true),
    };
    let json = value(&slp_with_enc.to_json());
    assert_eq!(json.get("skipEncryption").unwrap().as_bool(), Some(true));

    let slr = SendListResult {
        status: "success".to_string(),
        description: "delivered".to_string(),
        sent: vec![SentRecipient {
            recipient: "03abc".to_string(),
            message_id: "msg-001".to_string(),
        }],
        blocked: vec![],
        failed: vec![FailedRecipient {
            recipient: "03def".to_string(),
            error: "blocked".to_string(),
        }],
        totals: None,
    };
    let json = value(&slr.to_json());
    assert!(json.get("status").is_some());
    assert!(json.get("description").is_some());
    assert!(json.get("blocked").is_some());
    assert!(json.get("failed").is_some());
    assert!(json.get("totals").is_none());
    let first_sent = &json.get("sent").unwrap().as_array().unwrap()[0];
    assert!(first_sent.get("messageId").is_some());
    assert!(first_sent.get("message_id").is_none());
    let slr_with_totals = SendListResult {
        status: "ok".to_string(),
        description: "ok".to_string(),
        sent: vec![],
        blocked: vec![],
        failed: vec![],
        totals: Some(SendListTotals {
            delivery_fees: 10,
            recipient_fees: 5,
            total_for_payable_recipients: 15,
        }),
    };
    let json = value(&slr_with_totals.to_json());
    let totals = json.get("totals").unwrap();
    assert_eq!(totals.get("deliveryFees").unwrap().as_i64(), Some(10));
    assert_eq!(totals.get("recipientFees").unwrap().as_i64(), Some(5));
    assert_eq!(totals.get("totalForPayableRecipients").unwrap().as_i64(), Some(15));
    assert!(totals.get("delivery_fees").is_none());

    let mq = MessageBoxMultiQuote {
        quotes_by_recipient: vec![RecipientQuote {
            recipient: "03abc".to_string(),
            message_box: "inbox".to_string(),
            delivery_fee: 10,
            recipient_fee: 5,
            status: "allowed".to_string(),
        }],
        totals: None,
        blocked_recipients: vec!["03xyz".to_string()],
        delivery_agent_identity_key_by_host: vec![(
            "https://host.example.com".to_string(),
            "03agent".to_string(),
        )],
    };
    let json = value(&mq.to_json());
    assert!(json.get("blockedRecipients").is_some());
    assert_eq!(
        json["deliveryAgentIdentityKeyByHost"]["https://host.example.com"],
        "03agent"
    );
    assert!(json.get("totals").is_none());
    assert!(json.get("quotes_by_recipient").is_none());
    let rq = &json.get("quotesByRecipient").unwrap().as_array().unwrap()[0];
    assert!(rq.get("messageBox").is_some());
    assert!(rq.get("deliveryFee").is_some());
    assert!(rq.get("recipientFee").is_some());

    let perm = MessageBoxPermission {
        sender: Some("03sender".to_string()),
        message_box: "inbox".to_string(),
        recipient_fee: 100,
        created_at: "2024-01-01T00:00:00Z".to_string(),
        updated_at: "2024-01-02T00:00:00Z".to_string(),
    };
    let json = value(&perm.to_json());
    assert!(json.get("sender").is_some());
    assert!(json.get("message_box").is_some());
    assert!(json.get("recipient_fee").is_some());
}

#[test]
fn message_payments_are_written_with_byte_arrays() {
    let req = SendMessageRequest {
        message: SendMessageParams {
            recipient: "r".to_string(),
            message_box: "b".to_string(),
            body: "x".to_string(),
            message_id: "i".to_string(),
        },
        payment: Some(MessagePayment {
            tx: vec![1, 255],
            outputs: vec![MessagePaymentOutput {
                output_index: 3,
                derivation_prefix: vec![0],
                derivation_suffix: vec![],
                sender_identity_key: "k".to_string(),
            }],
        }),
    };
    let json = value(&req.to_json());
    assert_eq!(bytes_of(&json["payment"]["tx"]), vec![1, 255]);
    let o = &json["payment"]["outputs"][0];
    assert_eq!(o["outputIndex"], 3);
    assert_eq!(o["senderIdentityKey"], "k");
    assert_eq!(bytes_of(&o["derivationPrefix"]), vec![0]);
}

#[test]
fn remittance_records_leave_absent_parts_out() {
    let p = Payment {
        tx: vec![7],
        outputs: vec![
            PaymentOutput {
                output_index: 0,
                protocol: "wallet payment".to_string(),
                payment_remittance: Some(PaymentRemittanceInfo {
                    derivation_prefix: "p".to_string(),
                    derivation_suffix: "s".to_string(),
                    sender_identity_key: "k".to_string(),
                }),
                insertion_remittance: None,
            },
            PaymentOutput {
                output_index: 1,
                protocol: "basket insertion".to_string(),
                payment_remittance: None,
                insertion_remittance: Some(InsertionRemittanceInfo {
                    basket: "b".to_string(),
                    custom_instructions: None,
                    tags: Some(vec!["t".to_string()]),
                }),
            },
        ],
        description: "d".to_string(),
        labels: None,
        seek_permission: Some(false),
    };
    let json = value(&p.to_json());
    assert!(json.get("labels").is_none());
    assert_eq!(json["seekPermission"], false);
    assert!(json["outputs"][0].get("insertionRemittance").is_none());
    assert_eq!(json["outputs"][1]["insertionRemittance"]["tags"][0], "t");
}

#[test]
fn texts_are_escaped() {
    let p = ListMessagesParams {
        message_box: "a\"\\\u{8}\u{c}\n\r\t\u{1f}é".to_string(),
    };
    let json = p.to_json();
    assert_eq!(json, "{\"messageBox\":\"a\\\"\\\\\\b\\f\\n\\r\\t\\u001fé\"}");
    assert_eq!(value(&json)["messageBox"], "a\"\\\u{8}\u{c}\n\r\t\u{1f}é");
}

#[test]
fn negative_fees_are_written() {
    let p = SetPermissionParams {
        message_box: "b".to_string(),
        sender: None,
        recipient_fee: i64::MIN,
    };
    assert_eq!(value(&p.to_json())["recipientFee"].as_i64(), Some(i64::MIN));
}

#[test]
fn server_messages_are_written_back() {
    let m = ServerPeerMessage {
        message_id: "abc123".to_string(),
        body: "hello".to_string(),
        sender: "03xyz".to_string(),
        created_at: "2024-01-01T00:00:00Z".to_string(),
        updated_at: "2024-01-01T00:00:00Z".to_string(),
        acknowledged: Some(false),
    };
    let json = value(&m.to_json());
    assert_eq!(json["messageId"], "abc123");
    assert_eq!(json["created_at"], "2024-01-01T00:00:00Z");
    assert_eq!(json["acknowledged"], false);
}
