use jetfeed::connect::{
    connect_request, subscribe_url, subscription_update, ConnectError, SubscriberSourcedMessage,
};
use jetfeed::decimal::decimal_from_i64;

#[test]
fn url_without_cursor() {
    assert_eq!(
        subscribe_url("jetstream1.us-east.bsky.network", true, None),
        "wss://jetstream1.us-east.bsky.network/subscribe?compress=true&requireHello=true"
    );
}

#[test]
fn url_with_cursor() {
    assert_eq!(
        subscribe_url("localhost:6008", false, Some(1725911162329308)),
        "wss://localhost:6008/subscribe?compress=false&requireHello=true&cursor=1725911162329308"
    );
}

#[test]
fn url_fixes_cursor() {
    assert_ne!(subscribe_url("h", true, Some(1)), subscribe_url("h", true, Some(11)));
    assert_ne!(subscribe_url("h", true, Some(1)), subscribe_url("h", true, Some(-1)));
    assert_ne!(subscribe_url("h", true, Some(0)), subscribe_url("h", true, None));
}

#[test]
fn decimal_notation() {
    assert_eq!(decimal_from_i64(0), "0");
    assert_eq!(decimal_from_i64(7), "7");
    assert_eq!(decimal_from_i64(10), "10");
    assert_eq!(decimal_from_i64(-305), "-305");
    assert_eq!(decimal_from_i64(i64::MAX), "9223372036854775807");
    assert_eq!(decimal_from_i64(i64::MIN), "-9223372036854775808");
}

#[test]
fn request_holds_url_and_agent() {
    let request = connect_request("example.com", true, "agent/1.0", Some(5)).unwrap();
    assert_eq!(
        request.url,
        "wss://example.com/subscribe?compress=true&requireHello=true&cursor=5"
    );
    assert_eq!(request.user_agent, b"agent/1.0".to_vec());
}

#[test]
fn invalid_host_is_refused_first() {
    assert!(matches!(
        connect_request("exa mple.com", true, "agent\n", None),
        Err(ConnectError::InvalidUrl(_))
    ));
}

#[test]
fn invalid_agent_is_refused() {
    assert!(matches!(
        connect_request("example.com", true, "agent\n", None),
        Err(ConnectError::InvalidUserAgent(_))
    ));
    assert!(matches!(
        connect_request("example.com", true, "agent\u{7f}", None),
        Err(ConnectError::InvalidUserAgent(_))
    ));
}

#[test]
fn tab_and_wide_characters_are_sent() {
    let request = connect_request("example.com", false, "a\tb\u{e9}", None).unwrap();
    assert_eq!(request.user_agent, vec![0x61, 0x09, 0x62, 0xc3, 0xa9]);
}

#[test]
fn update_asks_for_the_collections() {
    let collections = vec!["app.bsky.feed.post".to_string(), "app.bsky.feed.like".to_string()];
    assert_eq!(
        subscription_update(&collections),
        SubscriberSourcedMessage::Update {
            wanted_collections: vec![
                "app.bsky.feed.post".to_string(),
                "app.bsky.feed.like".to_string(),
            ],
            wanted_dids: vec![],
            max_message_size_bytes: 25000,
            cursor: None,
        }
    );
}
