use rudderanalytics::batcher::Batcher;
use rudderanalytics::config::Config;
use rudderanalytics::document::{merge, Doc};
use rudderanalytics::errors::Error;
use rudderanalytics::json::doc_to_json;
use rudderanalytics::message::{BatchMessage, Identify, Message, Track};
use rudderanalytics::ruddermessage::Ruddermessage;
use rudderanalytics::timestamp::Timestamp;
use rudderanalytics::utils::{get_default_context, parse_track};

fn kv(pairs: &[(&str, &str)]) -> Doc {
    let mut d = Doc::empty_object();
    for (k, v) in pairs {
        d = d.set(k, Doc::Str((*v).to_string()));
    }
    d
}

fn now() -> Timestamp {
    Timestamp::from_millis(946684800000)
}

fn track(user: &str) -> Track {
    Track {
        user_id: Some(user.to_string()),
        anonymous_id: None,
        event: "Example".to_string(),
        properties: None,
        original_timestamp: None,
        context: None,
        integrations: None,
    }
}

#[test]
fn merge_overlay_wins_and_base_is_preserved() {
    let base = kv(&[("a", "1")])
        .set("b", kv(&[("x", "keep"), ("y", "old")]))
        .set("d", Doc::Int(7));
    let overlay = kv(&[("c", "3")]).set("b", kv(&[("y", "new"), ("z", "add")]));
    let merged = merge(&base, &overlay);
    let expected = kv(&[("a", "1"), ("c", "3")])
        .set("b", kv(&[("x", "keep"), ("y", "new"), ("z", "add")]))
        .set("d", Doc::Int(7));
    assert_eq!(merged, expected);
}

#[test]
fn merge_non_object_overlay_replaces() {
    let base = kv(&[("a", "1")]);
    let overlay = Doc::Int(5);
    assert_eq!(merge(&base, &overlay), Doc::Int(5));
}

#[test]
fn validation_is_idempotent() {
    let msg = Message::Identify(Identify {
        user_id: None,
        anonymous_id: None,
        traits: None,
        original_timestamp: None,
        context: None,
        integrations: None,
    });
    let first = msg.assert_valid_user_id_or_anonymous_id();
    let second = msg.assert_valid_user_id_or_anonymous_id();
    assert_eq!(first.is_ok(), second.is_ok());
    assert!(first.is_err());

    let ok_msg = Message::Track(track("u"));
    assert!(ok_msg.assert_valid_user_id_or_anonymous_id().is_ok());
    assert!(ok_msg.assert_valid_user_id_or_anonymous_id().is_ok());
}

#[test]
fn scenario_accept_track_stamps_wire_form() {
    let mut batcher = Batcher::new(None);
    let result = batcher.push(BatchMessage::Track(track("u1")), now());
    assert!(matches!(result, Ok(None)));
    assert_eq!(1, batcher.buf.len());
    let member = &batcher.buf[0];
    match member {
        rudderanalytics::ruddermessage::BatchMessage::Track(t) => {
            assert_eq!(t.type_, "track");
            assert_eq!(t.channel, "server");
            assert_eq!(t.user_id, Some("u1".to_string()));
            assert_eq!(t.sent_at, Some(now()));
            assert_eq!(t.original_timestamp, Some(now()));
            let ctx = t.context.as_ref().unwrap();
            assert!(ctx.has_key("library"));
        }
        _ => panic!("wrong member kind"),
    }
    // the byte count equals the member's rendered size plus one separator
    let size = Batcher::get_size_of_message(&batcher.buf[0]);
    assert_eq!(batcher.byte_count, size + 1);
}

#[test]
fn scenario_missing_identity_is_rejected() {
    let mut batcher = Batcher::new(None);
    let result = batcher.push(
        BatchMessage::Identify(Identify {
            user_id: None,
            anonymous_id: None,
            traits: None,
            original_timestamp: None,
            context: None,
            integrations: None,
        }),
        now(),
    );
    match result {
        Err(Error::InvalidRequest(m)) => {
            assert_eq!(m, "Either of user_id or anonymous_id is required");
        }
        _ => panic!("expected a validation failure"),
    }
    assert_eq!(0, batcher.buf.len());
    assert_eq!(0, batcher.byte_count);
}

#[test]
fn scenario_oversized_message_is_refused() {
    let mut batcher = Batcher::new(None);
    let mut big = track("u1");
    big.properties = Some(kv(&[("blob", &"a".repeat(1024 * 33))]));
    let result = batcher.push(BatchMessage::Track(big), now());
    assert!(matches!(result, Err(Error::MessageTooLarge(_))));
    assert_eq!(0, batcher.buf.len());
    assert_eq!(0, batcher.byte_count);
}

#[test]
fn scenario_overflow_returns_event_and_keeps_buffer() {
    let mut batcher = Batcher::new(None);
    let mut big = track("filler");
    big.properties = Some(kv(&[("blob", &"a".repeat(1024 * 30))]));
    let mut accepted: usize = 0;
    let mut came_back = None;
    for _ in 0..40 {
        let mut again = track("filler");
        again.properties = Some(kv(&[("blob", &"a".repeat(1024 * 30))]));
        match batcher.push(BatchMessage::Track(again), now()) {
            Ok(None) => accepted += 1,
            Ok(Some(msg)) => {
                came_back = Some(msg);
                break;
            }
            Err(e) => panic!("unexpected error: {:?}", e),
        }
    }
    let mut expected = track("filler");
    expected.properties = Some(kv(&[("blob", &"a".repeat(1024 * 30))]));
    assert_eq!(came_back.unwrap(), BatchMessage::Track(expected));
    assert!(accepted > 0);
    assert_eq!(accepted, batcher.buf.len());
    assert!(batcher.byte_count <= 1024 * 512);
}

#[test]
fn scenario_reserved_keyword_conflicts() {
    let bad_context = Doc::empty_object().set("library", kv(&[("name", "mine")]));
    // on the event's own context, whatever the kind
    let mut batcher = Batcher::new(None);
    let mut msg = track("u1");
    msg.context = Some(bad_context.deep_clone());
    match batcher.push(BatchMessage::Track(msg), now()) {
        Err(Error::InvalidRequest(m)) => {
            assert_eq!(m, "Reserve keyword present in context");
        }
        _ => panic!("expected a reserved-keyword failure"),
    }
    let id = Identify {
        user_id: Some("u1".to_string()),
        anonymous_id: None,
        traits: None,
        original_timestamp: None,
        context: Some(bad_context.deep_clone()),
        integrations: None,
    };
    match batcher.push(BatchMessage::Identify(id), now()) {
        Err(Error::InvalidRequest(_)) => {}
        _ => panic!("expected a reserved-keyword failure"),
    }
    // on the shared context too
    let mut shared = Batcher::new(Some(bad_context));
    match shared.push(BatchMessage::Track(track("u1")), now()) {
        Err(Error::InvalidRequest(m)) => {
            assert_eq!(m, "Reserve keyword present in context");
        }
        _ => panic!("expected a reserved-keyword failure"),
    }
}

#[test]
fn round_trip_preserves_pass_through_fields() {
    let mut msg = track("foo");
    msg.properties = Some(kv(&[("k", "v")]));
    let wire = parse_track(&msg, now());
    let bytes = wire.to_json();
    let parsed: serde_json::Value = serde_json::from_slice(&bytes).unwrap();
    assert_eq!(parsed["userId"], "foo");
    assert_eq!(parsed["event"], "Example");
    assert_eq!(parsed["properties"]["k"], "v");
    assert_eq!(parsed["type"], "track");
    assert_eq!(parsed["channel"], "server");
    assert_eq!(parsed["context"]["library"]["name"], "RudderStack Rust SDK");
    assert_eq!(parsed["context"]["library"]["version"], "1.1.3");
    assert_eq!(parsed["sentAt"], "2000-01-01T00:00:00Z");
    assert_eq!(parsed["originalTimestamp"], "2000-01-01T00:00:00Z");
}

#[test]
fn message_round_trip_through_generic_parser() {
    let msg = Message::Track(Track {
        user_id: Some("foo".to_string()),
        anonymous_id: None,
        event: "Foo".to_string(),
        properties: Some(kv(&[("a", "1"), ("b", "2")])),
        original_timestamp: None,
        context: None,
        integrations: None,
    });
    let bytes = msg.to_json();
    let parsed: serde_json::Value = serde_json::from_slice(&bytes).unwrap();
    assert_eq!(parsed["userId"], "foo");
    assert_eq!(parsed["event"], "Foo");
    assert_eq!(parsed["properties"]["a"], "1");
    assert_eq!(parsed["properties"]["b"], "2");
}

#[test]
fn fractional_and_large_numbers_are_carried_verbatim() {
    // a fractional payload value, as an endpoint would see it
    let price = Doc::number("19.99".to_string()).unwrap();
    let mut msg = track("u1");
    msg.properties = Some(Doc::empty_object().set("revenue", price));
    let wire = parse_track(&msg, now());
    let bytes = wire.to_json();
    let parsed: serde_json::Value = serde_json::from_slice(&bytes).unwrap();
    assert_eq!(parsed["properties"]["revenue"], 19.99);

    // numbers beyond i64, exponents, and agreement with serde_json's rendering
    let big = serde_json::Value::Number(serde_json::Number::from(18446744073709551615u64));
    assert_eq!(
        doc_to_json(&Doc::number(big.to_string()).unwrap()),
        serde_json::to_vec(&big).unwrap()
    );
    assert_eq!(
        doc_to_json(&Doc::number("1.5e-7".to_string()).unwrap()),
        b"1.5e-7".to_vec()
    );

    // the batcher accepts such an event
    let mut batcher = Batcher::new(None);
    let mut with_num = track("u1");
    with_num.properties = Some(
        Doc::empty_object().set("revenue", Doc::number("19.99".to_string()).unwrap()),
    );
    assert!(matches!(batcher.push(BatchMessage::Track(with_num), now()), Ok(None)));
    assert_eq!(1, batcher.buf.len());

    // serde_json's own float renderings satisfy the literal grammar
    for v in [0.1f64, 19.99, 1e300, -2.5e-9, 123456.789] {
        let text = serde_json::Number::from_f64(v).unwrap().to_string();
        assert!(Doc::number(text).is_some());
    }

    // only well-formed JSON number literals are accepted
    assert!(Doc::number("01".to_string()).is_none());
    assert!(Doc::number("1.".to_string()).is_none());
    assert!(Doc::number("-".to_string()).is_none());
    assert!(Doc::number("1e".to_string()).is_none());
    assert!(Doc::number("+5".to_string()).is_none());
    assert!(Doc::number("-0.5E+10".to_string()).is_some());
}

#[test]
fn json_renders_numbers_booleans_and_escapes() {
    assert_eq!(doc_to_json(&Doc::Int(-42)), b"-42".to_vec());
    assert_eq!(doc_to_json(&Doc::Int(0)), b"0".to_vec());
    assert_eq!(doc_to_json(&Doc::Int(1234567890123)), b"1234567890123".to_vec());
    assert_eq!(
        doc_to_json(&Doc::Arr(vec![Doc::Null, Doc::Bool(true), Doc::Bool(false)])),
        b"[null,true,false]".to_vec()
    );
    assert_eq!(
        doc_to_json(&Doc::Str("a\"b\\c\nd\u{1}".to_string())),
        br#""a\"b\\c\nd\u0001""#.to_vec()
    );
    // serde_json agrees with the canonical rendering
    let ours = doc_to_json(&Doc::Str("a\"b\\c\nd\u{1}".to_string()));
    let theirs = serde_json::to_vec(&serde_json::Value::String("a\"b\\c\nd\u{1}".to_string()))
        .unwrap();
    assert_eq!(ours, theirs);
}

#[test]
fn default_context_names_the_library() {
    let ctx = get_default_context();
    assert_eq!(
        String::from_utf8(doc_to_json(&ctx)).unwrap(),
        r#"{"library":{"name":"RudderStack Rust SDK","version":"1.1.3"}}"#
    );
}

#[test]
fn timestamps_render_as_rfc3339() {
    let wire = parse_track(&track("u"), Timestamp::from_millis(0));
    let bytes = match wire {
        Ruddermessage::Track(t) => {
            assert_eq!(t.sent_at, Some(Timestamp::from_millis(0)));
            Ruddermessage::Track(t).to_json()
        }
        _ => panic!("wrong kind"),
    };
    let parsed: serde_json::Value = serde_json::from_slice(&bytes).unwrap();
    assert_eq!(parsed["sentAt"], "1970-01-01T00:00:00Z");

    // instants before the epoch render too
    let early = parse_track(&track("u"), Timestamp::from_millis(-1000)).to_json();
    let parsed: serde_json::Value = serde_json::from_slice(&early).unwrap();
    assert_eq!(parsed["sentAt"], "1969-12-31T23:59:59Z");
}

#[test]
fn config_defaults() {
    let c = Config::default();
    assert_eq!(c.max_flush_interval, 10000);
    assert_eq!(c.max_flush_size, 10);
    assert!(c.gzip);
}
