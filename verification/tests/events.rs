use rudderanalytics::batcher::Batcher;
use rudderanalytics::document::Doc;
use rudderanalytics::errors::Error as AnalyticsError;
use rudderanalytics::message::{
    Alias, Batch, BatchMessage, Group, Identify, Message, Page, Screen, Track,
};
use rudderanalytics::ruddermessage::Ruddermessage;
use rudderanalytics::timestamp::Timestamp;

fn kv(pairs: &[(&str, &str)]) -> Doc {
    let mut d = Doc::empty_object();
    for (k, v) in pairs {
        d = d.set(k, Doc::Str((*v).to_string()));
    }
    d
}

fn json_string(m: &Message) -> String {
    String::from_utf8(m.to_json()).unwrap()
}

fn now() -> Timestamp {
    Timestamp::from_millis(1700000000000)
}

#[test]
fn serialize() {
    assert_eq!(
        json_string(&Message::Identify(Identify {
            user_id: Some("foo".to_string()),
            anonymous_id: None,
            traits: Some(kv(&[("foo", "bar"), ("baz", "quux")])),
            original_timestamp: None,
            context: None,
            integrations: None,
        })),
        r#"{"userId":"foo","traits":{"baz":"quux","foo":"bar"}}"#.to_owned(),
    );

    assert_eq!(
        json_string(&Message::Track(Track {
            user_id: None,
            anonymous_id: Some("foo".to_string()),
            event: "Foo".to_owned(),
            properties: Some(kv(&[("foo", "bar"), ("baz", "quux")])),
            original_timestamp: None,
            context: None,
            integrations: None,
        })),
        r#"{"anonymousId":"foo","event":"Foo","properties":{"baz":"quux","foo":"bar"}}"#
            .to_owned(),
    );

    assert_eq!(
        json_string(&Message::Page(Page {
            user_id: Some("foo".to_string()),
            anonymous_id: None,
            name: "Foo".to_owned(),
            properties: Some(kv(&[("foo", "bar"), ("baz", "quux")])),
            original_timestamp: None,
            context: None,
            integrations: None,
        })),
        r#"{"userId":"foo","name":"Foo","properties":{"baz":"quux","foo":"bar"}}"#.to_owned(),
    );

    assert_eq!(
        json_string(&Message::Screen(Screen {
            user_id: Some("foo".to_string()),
            anonymous_id: None,
            name: "Foo".to_owned(),
            properties: Some(kv(&[("foo", "bar"), ("baz", "quux")])),
            original_timestamp: None,
            context: None,
            integrations: None,
        })),
        r#"{"userId":"foo","name":"Foo","properties":{"baz":"quux","foo":"bar"}}"#.to_owned(),
    );

    assert_eq!(
        json_string(&Message::Group(Group {
            user_id: Some("foo".to_string()),
            anonymous_id: None,
            group_id: "bar".to_owned(),
            traits: Some(kv(&[("foo", "bar"), ("baz", "quux")])),
            original_timestamp: None,
            context: None,
            integrations: None,
        })),
        r#"{"userId":"foo","groupId":"bar","traits":{"baz":"quux","foo":"bar"}}"#.to_owned(),
    );

    assert_eq!(
        json_string(&Message::Alias(Alias {
            user_id: "foo".to_owned(),
            previous_id: "bar".to_owned(),
            traits: None,
            original_timestamp: None,
            context: None,
            integrations: None,
        })),
        r#"{"userId":"foo","previousId":"bar"}"#.to_owned(),
    );

    assert_eq!(
        json_string(&Message::Batch(Batch {
            batch: vec![
                BatchMessage::Track(Track {
                    user_id: Some("foo".to_string()),
                    anonymous_id: None,
                    event: "Foo".to_owned(),
                    properties: Some(Doc::empty_object()),
                    original_timestamp: None,
                    context: None,
                    integrations: None,
                }),
                BatchMessage::Track(Track {
                    user_id: Some("bar".to_string()),
                    anonymous_id: None,
                    event: "Bar".to_owned(),
                    properties: Some(Doc::empty_object()),
                    original_timestamp: None,
                    context: None,
                    integrations: None,
                }),
                BatchMessage::Track(Track {
                    user_id: Some("baz".to_string()),
                    anonymous_id: None,
                    event: "Baz".to_owned(),
                    properties: Some(Doc::empty_object()),
                    original_timestamp: None,
                    context: None,
                    integrations: None,
                }),
            ],
            context: Some(kv(&[("foo", "bar")])),
            integrations: None,
            original_timestamp: None,
        })),
        r#"{"batch":[{"type":"track","userId":"foo","event":"Foo","properties":{}},{"type":"track","userId":"bar","event":"Bar","properties":{}},{"type":"track","userId":"baz","event":"Baz","properties":{}}],"context":{"foo":"bar"}}"#
            .to_owned(),
    );
}

#[test]
fn test_push_and_into() {
    let batch_msg = BatchMessage::Track(Track {
        user_id: None,
        anonymous_id: None,
        event: String::new(),
        properties: None,
        original_timestamp: None,
        context: None,
        integrations: None,
    });

    let context = kv(&[("foo", "bar")]);

    let mut batcher = Batcher::new(Some(context.deep_clone()));
    // The event carries neither a user id nor an anonymous id, so the
    // validator rejects it and the buffer stays empty.
    let result = batcher.push(batch_msg, now());
    assert!(matches!(result, Err(AnalyticsError::InvalidRequest(_))));

    let batch = batcher.into_message(now());
    let inner_batch = match batch {
        Ruddermessage::Batch(b) => b,
        _ => panic!("invalid message type"),
    };
    assert_eq!(context, inner_batch.context.unwrap());
    assert_eq!(0, inner_batch.batch.len());
}

#[test]
fn test_bad_message_size() {
    let batch_msg = BatchMessage::Track(Track {
        user_id: Some(String::from_utf8(vec![b'a'; 1024 * 33]).unwrap()),
        anonymous_id: None,
        event: String::new(),
        properties: None,
        original_timestamp: None,
        context: None,
        integrations: None,
    });

    let mut batcher = Batcher::new(None);
    let result = batcher.push(batch_msg, now());

    let err = result.err().unwrap();
    match err {
        AnalyticsError::MessageTooLarge(_str) => {}
        AnalyticsError::InvalidRequest(_str) => {}
    }
    assert_eq!(0, batcher.buf.len());
}

fn thirty_kib_track() -> BatchMessage {
    BatchMessage::Track(Track {
        user_id: Some(String::from_utf8(vec![b'a'; 1024 * 30]).unwrap()),
        anonymous_id: None,
        event: String::new(),
        properties: None,
        original_timestamp: None,
        context: None,
        integrations: None,
    })
}

#[test]
fn test_max_buffer() {
    let mut batcher = Batcher::new(None);
    let mut result = Ok(None);
    let mut accepted: usize = 0;
    for _i in 0..20 {
        result = batcher.push(thirty_kib_track(), now());
        if result.is_ok() && result.as_ref().ok().unwrap().is_some() {
            break;
        }
        accepted += 1;
    }

    let msg = result.ok().unwrap();
    assert_eq!(thirty_kib_track(), msg.unwrap());
    // the buffer keeps exactly the previously accepted events
    assert_eq!(accepted, batcher.buf.len());
}
