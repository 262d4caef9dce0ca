use bsv_messagebox_client::client::HttpReply;
use bsv_messagebox_client::permissions::{
    get_message_box_quote_multi, message_box_quote, permission_set, HostQuote, QuoteFees,
};
use bsv_messagebox_client::types::{MessageBoxPermission, MessageBoxQuote, SetPermissionParams};
use bsv_messagebox_client::{MessageBoxClient, MessageBoxError};

fn a_client() -> MessageBoxClient {
    MessageBoxClient::new("https://example.com", None)
}

fn make_client(host: &str) -> MessageBoxClient {
    MessageBoxClient::new(host, None)
}

fn fees() -> Result<QuoteFees, String> {
    Ok(QuoteFees {
        recipient_fee: 50,
        delivery_fee: 10,
    })
}

fn headers(key: &str) -> Vec<(String, String)> {
    vec![("x-bsv-auth-identity-key".to_string(), key.to_string())]
}

#[test]
fn get_permission_url_uses_camel_case_query_params() {
    let url = make_client("https://example.com").get_message_box_permission(
        "03recipient",
        "inbox",
        Some("03sender"),
        None,
    );
    assert!(url.contains("messageBox=inbox"), "must use camelCase messageBox");
    assert!(!url.contains("message_box"), "must not use snake_case");
    assert!(url.contains("recipient=03recipient"), "recipient param present");
    assert!(url.contains("sender=03sender"), "sender param present when Some");
}

#[test]
fn get_permission_url_omits_sender_when_none() {
    let url = make_client("https://example.com").get_message_box_permission(
        "03recipient",
        "inbox",
        None,
        None,
    );
    assert!(!url.contains("sender"), "sender param absent when None");
    assert!(url.contains("messageBox=inbox"), "messageBox present");
}

#[test]
fn list_permissions_url_uses_snake_case_message_box_param() {
    let url = make_client("https://example.com").list_message_box_permissions(
        Some("notifications"),
        None,
        None,
        None,
    );
    assert!(
        url.contains("message_box=notifications"),
        "must use snake_case message_box key: {}",
        url
    );
    assert!(
        !url.contains("messageBox"),
        "must NOT use camelCase messageBox in list endpoint: {}",
        url
    );
}

#[test]
fn quote_url_uses_camel_case_message_box_param() {
    let url = make_client("https://example.com").get_message_box_quote("03r", "inbox", None);
    assert!(url.contains("messageBox=inbox"), "quote endpoint uses camelCase");
    assert!(!url.contains("message_box"), "not snake_case");
}

#[test]
fn missing_header_produces_missing_header_error() {
    let result = message_box_quote(Ok(()), &vec![], fees());
    assert!(result.is_err(), "must error when header absent");
    assert!(
        matches!(result.unwrap_err(), MessageBoxError::MissingHeader(_)),
        "error must be MissingHeader variant"
    );
}

#[test]
fn present_header_is_extracted_correctly() {
    let result = message_box_quote(Ok(()), &headers("03deadbeef"), fees());
    assert!(result.is_ok());
    assert_eq!(result.unwrap().delivery_agent_identity_key, "03deadbeef");
}

#[test]
fn allow_notifications_params_uses_notifications_box() {
    let params = a_client().allow_notifications_from_peer("03peer", 0);
    assert_eq!(params.message_box, "notifications");
    assert_eq!(params.sender, Some("03peer".to_string()));
    assert_eq!(params.recipient_fee, 0);
}

#[test]
fn deny_notifications_params_uses_negative_one_fee() {
    let params = a_client().deny_notifications_from_peer("03peer");
    assert_eq!(params.recipient_fee, -1);
    assert_eq!(params.message_box, "notifications");
}

#[test]
fn deny_fee_produces_blocked_status() {
    let perm = MessageBoxPermission {
        sender: Some("03peer".to_string()),
        message_box: "notifications".to_string(),
        recipient_fee: -1,
        created_at: "2024-01-01".to_string(),
        updated_at: "2024-01-01".to_string(),
    };
    assert_eq!(perm.status(), "blocked");
}

#[test]
fn quote_constructed_from_header_and_body() {
    let quote = message_box_quote(Ok(()), &headers("03agent"), fees()).unwrap();
    assert_eq!(quote.delivery_fee, 10);
    assert_eq!(quote.recipient_fee, 50);
    assert_eq!(quote.delivery_agent_identity_key, "03agent");
}

#[test]
fn client_with_permissions_compiles() {
    let _client = make_client("https://example.com");
}

#[test]
fn permission_urls_are_exact() {
    let c = make_client("https://h");
    assert_eq!(
        c.get_message_box_permission("r", "b", Some("s"), Some("https://o")),
        "https://o/permissions/get?recipient=r&messageBox=b&sender=s"
    );
    assert_eq!(
        c.list_message_box_permissions(None, None, None, None),
        "https://h/permissions/list"
    );
    assert_eq!(
        c.list_message_box_permissions(None, Some(20), Some(0), None),
        "https://h/permissions/list?limit=20&offset=0"
    );
    assert_eq!(
        c.list_message_box_permissions(Some("b"), Some(4294967295), Some(7), None),
        "https://h/permissions/list?message_box=b&limit=4294967295&offset=7"
    );
    assert_eq!(
        c.get_message_box_quote("r", "b", None),
        "https://h/permissions/quote?recipient=r&messageBox=b"
    );
    assert_eq!(
        c.check_peer_notification_status("me", "peer", None),
        "https://h/permissions/get?recipient=me&messageBox=notifications&sender=peer"
    );
    assert_eq!(
        c.list_peer_notifications(None),
        "https://h/permissions/list?message_box=notifications"
    );
    let post = c.set_message_box_permission(
        &SetPermissionParams {
            message_box: "b".to_string(),
            sender: None,
            recipient_fee: 5,
        },
        None,
    );
    assert_eq!(post.url, "https://h/permissions/set");
    assert_eq!(post.body, r#"{"messageBox":"b","recipientFee":5}"#);
}

#[test]
fn setting_a_permission_fails_as_the_server_says() {
    let reply = |status: u16, body: &str| {
        Ok(HttpReply {
            status,
            body: body.as_bytes().to_vec(),
        })
    };
    assert!(permission_set("u", reply(200, r#"{"status":"success"}"#)).is_ok());
    assert!(matches!(
        permission_set("u", reply(500, "")),
        Err(MessageBoxError::Http(500, _))
    ));
    assert!(matches!(
        permission_set("u", reply(200, r#"{"status":"error","description":"no"}"#)),
        Err(MessageBoxError::Auth(_))
    ));
    assert!(permission_set("u", Err("down".to_string())).is_err());
}

#[test]
fn quotes_fail_in_order() {
    let e = message_box_quote(Err(MessageBoxError::NotInitialized), &vec![], fees());
    assert!(matches!(e, Err(MessageBoxError::NotInitialized)));
    let e = message_box_quote(Ok(()), &headers("k"), Err("bad".to_string()));
    assert!(matches!(e, Err(MessageBoxError::Json(m)) if m == "bad"));
}

fn quote(recipient: &str, host: &str, delivery_fee: i64, recipient_fee: i64, agent: &str) -> HostQuote {
    HostQuote {
        recipient: recipient.to_string(),
        host: host.to_string(),
        quote: MessageBoxQuote {
            delivery_fee,
            recipient_fee,
            delivery_agent_identity_key: agent.to_string(),
        },
    }
}

#[test]
fn quotes_of_several_recipients_are_summed() {
    let q = get_message_box_quote_multi(
        vec![
            quote("a", "h1", 10, 5, "k1"),
            quote("b", "h2", 7, -1, "k2"),
            quote("c", "h1", 1, 0, "k3"),
        ],
        "inbox",
    );
    let statuses: Vec<&str> = q.quotes_by_recipient.iter().map(|r| r.status.as_str()).collect();
    assert_eq!(statuses, vec!["payment_required", "blocked", "always_allow"]);
    assert!(q.quotes_by_recipient.iter().all(|r| r.message_box == "inbox"));
    assert_eq!(q.blocked_recipients, vec!["b"]);
    let t = q.totals.expect("totals");
    assert_eq!(t.delivery_fees, 11);
    assert_eq!(t.recipient_fees, 5);
    assert_eq!(t.total_for_payable_recipients, 16);
    assert_eq!(
        q.delivery_agent_identity_key_by_host,
        vec![
            ("h1".to_string(), "k3".to_string()),
            ("h2".to_string(), "k2".to_string())
        ]
    );
}

#[test]
fn totals_that_cannot_be_told_are_left_out() {
    let q = get_message_box_quote_multi(
        vec![quote("a", "h", i64::MAX, 0, "k"), quote("b", "h", 1, 0, "k")],
        "inbox",
    );
    assert!(q.totals.is_none());
    assert_eq!(q.quotes_by_recipient.len(), 2);
}

#[test]
fn notifications_are_messages_to_the_notification_box() {
    let o = a_client().send_notification("r", "hi", Some("https://o"));
    assert_eq!(o.recipient, "r");
    assert_eq!(o.message_box, "notifications");
    assert_eq!(o.body, "hi");
    assert!(o.check_permissions);
    assert_eq!(o.host.as_deref(), Some("https://o"));
    let l = a_client().send_notification_to_recipients(&vec!["a".to_string(), "b".to_string()], "hi");
    assert_eq!(l.recipients, vec!["a", "b"]);
    assert_eq!(l.message_box, "notifications");
    assert_eq!(l.body, "hi");
}
