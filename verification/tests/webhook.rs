use globalchat::model::Webhook;
use globalchat::webhook::{get_webhook, WebhookPlan};

fn webhook(id: u64, name: Option<&str>, token: Option<&str>) -> Webhook {
    Webhook {
        id,
        channel_id: 50,
        name: name.map(|n| n.to_string()),
        token: token.map(|t| t.to_string()),
    }
}

#[test]
fn an_empty_listing_asks_for_a_webhook_of_the_reserved_name() {
    assert_eq!(
        get_webhook(50, Vec::new()),
        WebhookPlan::Create { channel_id: 50, name: "globalchat-rs".to_string() }
    );
}

#[test]
fn a_listing_without_the_reserved_name_asks_for_a_webhook() {
    let listed = vec![
        webhook(1, Some("news"), Some("a")),
        webhook(2, None, None),
        webhook(3, Some("globalchat-rs-old"), Some("c")),
    ];
    assert_eq!(
        get_webhook(77, listed),
        WebhookPlan::Create { channel_id: 77, name: "globalchat-rs".to_string() }
    );
}

#[test]
fn an_existing_relay_webhook_is_used_as_it_is() {
    let listed = vec![
        webhook(1, Some("news"), Some("a")),
        webhook(2, Some("globalchat-rs"), Some("secret")),
        webhook(3, Some("other"), None),
    ];
    assert_eq!(
        get_webhook(50, listed),
        WebhookPlan::Use { webhook: webhook(2, Some("globalchat-rs"), Some("secret")) }
    );
}

#[test]
fn of_several_relay_webhooks_the_first_is_used() {
    let listed = vec![
        webhook(1, Some("news"), Some("a")),
        webhook(8, Some("globalchat-rs"), Some("first")),
        webhook(9, Some("globalchat-rs"), Some("second")),
    ];
    assert_eq!(
        get_webhook(50, listed),
        WebhookPlan::Use { webhook: webhook(8, Some("globalchat-rs"), Some("first")) }
    );
    let only = vec![webhook(4, Some("globalchat-rs"), None)];
    assert_eq!(
        get_webhook(50, only),
        WebhookPlan::Use { webhook: webhook(4, Some("globalchat-rs"), None) }
    );
}

#[test]
fn the_posting_token_is_the_webhooks_own_or_empty() {
    assert_eq!(webhook(1, None, Some("tok")).posting_token(), "tok");
    assert_eq!(webhook(1, None, None).posting_token(), "");
}

#[test]
fn a_webhook_is_a_relay_webhook_by_exact_name() {
    assert!(webhook(1, Some("globalchat-rs"), None).is_relay());
    assert!(!webhook(1, Some("Globalchat-rs"), None).is_relay());
    assert!(!webhook(1, None, None).is_relay());
}
