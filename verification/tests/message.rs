use rudderanalytics::message::{BatchMessage, Track};

#[test]
fn test_macro_return_self_match_blocks_for_message_types() {
    let test_message = BatchMessage::Track(Track {
        user_id: Some("user_id".to_string()),
        anonymous_id: None,
        event: "event".to_string(),
        properties: None,
        original_timestamp: None,
        context: None,
        integrations: None,
    });
    let f = match test_message {
        BatchMessage::Track(msg) => msg.user_id.unwrap(),
        BatchMessage::Identify(msg) => msg.user_id.unwrap(),
        _ => "none".to_string(),
    };
    assert_eq!(f, "user_id".to_string());
    assert_ne!(f, "wrong_id".to_string());
}
