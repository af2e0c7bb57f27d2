use rudderanalytics::batcher::Batcher;
use rudderanalytics::document::Doc;
use rudderanalytics::message::{BatchMessage, Track};

fn kv(pairs: &[(&str, &str)]) -> Doc {
    let mut d = Doc::empty_object();
    for (k, v) in pairs {
        d = d.set(k, Doc::Str((*v).to_string()));
    }
    d
}

#[test]
fn test_updated_message_containing_no_context_with_common_context() {
    let common_context = kv(&[("id", "some_id"), ("name", "some_name")]);
    // msg with no context
    let inner_track_message_with_no_context = Track {
        user_id: Some("user_id".to_string()),
        anonymous_id: None,
        event: "toto".to_string(),
        properties: None,
        original_timestamp: None,
        context: None,
        integrations: None,
    };
    let failing_track_for_assertion = Track {
        user_id: Some("user_id".to_string()),
        anonymous_id: None,
        event: "toto".to_string(),
        properties: None,
        original_timestamp: None,
        context: None,
        integrations: None,
    };
    let inner_track_msg_for_assertion = Track {
        user_id: Some("user_id".to_string()),
        anonymous_id: None,
        event: "toto".to_string(),
        properties: None,
        original_timestamp: None,
        context: Some(common_context.deep_clone()),
        integrations: None,
    };
    let track_msg_with_no_context = BatchMessage::Track(inner_track_message_with_no_context);

    let updated_track_msg = Batcher::updated_message_with_common_context(
        &Some(common_context),
        &track_msg_with_no_context,
    );
    match updated_track_msg {
        BatchMessage::Track(track) => {
            assert_ne!(track, failing_track_for_assertion);
            assert_eq!(track, inner_track_msg_for_assertion);
        }
        _ => {
            assert!(false);
        }
    }
}

#[test]
fn test_updated_message_containing_context_with_common_context() {
    let common_context = kv(&[("id", "some_id"), ("name", "some_name")]);
    let own_context = kv(&[("some_property", "some_value")]).set(
        "some_nested_property",
        kv(&[("some_nested_property", "some_value")]),
    );
    let inner_track_message_with_default_context = Track {
        user_id: Some("user_id".to_string()),
        anonymous_id: None,
        event: "toto".to_string(),
        properties: None,
        original_timestamp: None,
        context: Some(own_context.deep_clone()),
        integrations: None,
    };
    let failing_track_for_assertion = Track {
        user_id: Some("user_id".to_string()),
        anonymous_id: None,
        event: "toto".to_string(),
        properties: None,
        original_timestamp: None,
        context: Some(own_context.deep_clone()),
        integrations: None,
    };
    let merged_context = kv(&[
        ("some_property", "some_value"),
        ("id", "some_id"),
        ("name", "some_name"),
    ])
    .set(
        "some_nested_property",
        kv(&[("some_nested_property", "some_value")]),
    );
    let inner_track_msg_for_assertion = Track {
        user_id: Some("user_id".to_string()),
        anonymous_id: None,
        event: "toto".to_string(),
        properties: None,
        original_timestamp: None,
        context: Some(merged_context),
        integrations: None,
    };
    let track_msg_with_default_context =
        BatchMessage::Track(inner_track_message_with_default_context);

    let updated_track_msg = Batcher::updated_message_with_common_context(
        &Some(common_context),
        &track_msg_with_default_context,
    );
    match updated_track_msg {
        BatchMessage::Track(track) => {
            assert_ne!(track, failing_track_for_assertion);
            assert_eq!(track, inner_track_msg_for_assertion);
        }
        _ => {
            assert!(false);
        }
    }
}
