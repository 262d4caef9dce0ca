use bsv_messagebox_client::delivery::DeliveryMode;
use bsv_messagebox_client::types::{
    IncomingPayment, MessageBoxPermission, MessageBoxQuote, PaymentCustomInstructions,
    PaymentRequestLimits, PaymentToken,
};

#[test]
fn delivery_mode_message_id_both_variants() {
    let live = DeliveryMode::Live {
        message_id: "live-msg-001".to_string(),
    };
    assert_eq!(live.message_id(), "live-msg-001", "Live variant message_id");
    assert!(live.is_live(), "Live variant is_live() must be true");

    let persisted = DeliveryMode::Persisted {
        message_id: "http-msg-002".to_string(),
    };
    assert_eq!(
        persisted.message_id(),
        "http-msg-002",
        "Persisted variant message_id"
    );
    assert!(!persisted.is_live(), "Persisted variant is_live() must be false");
}

#[test]
fn delivery_mode_clone() {
    let live = DeliveryMode::Live {
        message_id: "abc".to_string(),
    };
    let cloned = live.clone();
    assert_eq!(live.message_id(), cloned.message_id());

    let persisted = DeliveryMode::Persisted {
        message_id: "xyz".to_string(),
    };
    let cloned_p = persisted.clone();
    assert_eq!(persisted.message_id(), cloned_p.message_id());
}

#[test]
fn delivery_mode_debug() {
    let live = DeliveryMode::Live {
        message_id: "dbg-live".to_string(),
    };
    let s = format!("{live:?}");
    assert!(s.contains("Live"), "Debug output must mention variant");

    let persisted = DeliveryMode::Persisted {
        message_id: "dbg-persisted".to_string(),
    };
    let s2 = format!("{persisted:?}");
    assert!(s2.contains("Persisted"), "Debug output must mention variant");
}

#[test]
fn payment_request_limits_default() {
    let limits = PaymentRequestLimits::default();
    assert_eq!(limits.min_amount, 1000);
    assert_eq!(limits.max_amount, 10_000_000);
}

#[test]
fn message_box_permission_status_computes_correctly() {
    let make = |fee: i64| MessageBoxPermission {
        sender: None,
        message_box: "inbox".to_string(),
        recipient_fee: fee,
        created_at: "2024-01-01".to_string(),
        updated_at: "2024-01-01".to_string(),
    };
    assert_eq!(make(-1).status(), "blocked");
    assert_eq!(make(0).status(), "always_allow");
    assert_eq!(make(100).status(), "payment_required");
    assert_eq!(make(1).status(), "payment_required");
}

#[test]
fn message_box_quote_can_be_constructed() {
    let quote = MessageBoxQuote {
        delivery_fee: 10,
        recipient_fee: 50,
        delivery_agent_identity_key: "03deadbeef".to_string(),
    };
    assert_eq!(quote.delivery_fee, 10);
    assert_eq!(quote.recipient_fee, 50);
    assert_eq!(quote.delivery_agent_identity_key, "03deadbeef");
}

#[test]
fn incoming_payment_can_be_constructed() {
    let token = PaymentToken {
        custom_instructions: PaymentCustomInstructions {
            derivation_prefix: "p".to_string(),
            derivation_suffix: "s".to_string(),
            payee: None,
        },
        transaction: vec![0x01],
        amount: 2000,
        output_index: None,
    };
    let incoming = IncomingPayment {
        token: token.clone(),
        sender: "03sender".to_string(),
        message_id: "msg001".to_string(),
    };
    assert_eq!(incoming.sender, "03sender");
    assert_eq!(incoming.message_id, "msg001");
    assert_eq!(incoming.token.amount, 2000);
}
