use gateway::{
    Closure, ClosureType, Declare, DecodeError, Heartbeat, Hello, Terminate, TrackFields,
};

fn text(s: &str) -> Option<String> {
    Some(s.to_string())
}

#[test]
fn declare_scenario_survives_encoding() {
    let declare = Declare::new("abc123", Some(TrackFields::new(text("Windows 10"), None)));
    let back = Declare::decode(&declare.encode()).unwrap();
    assert_eq!(back.token, "abc123");
    let tracker = back.tracker.unwrap();
    assert_eq!(tracker.os, text("Windows 10"));
    assert_eq!(tracker.app, None);
}

#[test]
fn terminate_scenario_survives_encoding() {
    let terminate = Terminate::new(
        Closure::new(4000, None, ClosureType::Gateway),
        None,
        "evt-42".to_string(),
    );
    let back = Terminate::decode(&terminate.encode()).unwrap();
    assert_eq!(back.closure.code, 4000);
    assert_eq!(back.closure.message, text("Unknown."));
    assert_eq!(back.closure.fault, ClosureType::Gateway);
    assert!(back.healthy);
    assert_eq!(back.iuid, "evt-42");
}

#[test]
fn declare_is_encoded_member_by_member() {
    let declare = Declare::new("abc123", Some(TrackFields::new(text("Windows 10"), None)));
    assert_eq!(
        declare.encode(),
        r#"{"op":"Declare","token":"abc123","tracker":{"os":"Windows 10"}}"#
    );
    assert_eq!(Declare::new("t", None).encode(), r#"{"op":"Declare","token":"t"}"#);
    let both = Declare::new("t", Some(TrackFields::new(text("a"), text("b"))));
    assert_eq!(both.encode(), r#"{"op":"Declare","token":"t","tracker":{"os":"a","app":"b"}}"#);
    let neither = Declare::new("t", Some(TrackFields::new(None, None)));
    assert_eq!(neither.encode(), r#"{"op":"Declare","token":"t","tracker":{}}"#);
}

#[test]
fn terminate_is_encoded_member_by_member() {
    let terminate = Terminate::new(
        Closure::new(4000, None, ClosureType::Gateway),
        None,
        "evt-42".to_string(),
    );
    assert_eq!(
        terminate.encode(),
        r#"{"op":"Terminate","closure":{"code":4000,"message":"Unknown.","fault":"Gateway"},"healthy":true,"iuid":"evt-42"}"#
    );
    let terminate = Terminate::new(
        Closure::new(0, text("late"), ClosureType::Client),
        Some(false),
        String::new(),
    );
    assert_eq!(
        terminate.encode(),
        r#"{"op":"Terminate","closure":{"code":0,"message":"late","fault":"Client"},"healthy":false,"iuid":""}"#
    );
}

#[test]
fn hello_is_encoded_member_by_member() {
    assert_eq!(
        Hello::with_interval(45).encode(),
        r#"{"op":"Hello","heartbeat_interval":45,"version":"v1"}"#
    );
    assert_eq!(
        Hello::with_interval(0).encode(),
        r#"{"op":"Hello","heartbeat_interval":0,"version":"v1"}"#
    );
    assert_eq!(
        Hello::with_interval(255).encode(),
        r#"{"op":"Hello","heartbeat_interval":255,"version":"v1"}"#
    );
}

#[test]
fn heartbeat_is_encoded_member_by_member() {
    assert_eq!(Heartbeat::new(None).encode(), r#"{"op":"Heartbeat"}"#);
    assert_eq!(Heartbeat::new(text("tok")).encode(), r#"{"op":"Heartbeat","token":"tok"}"#);
    assert_eq!(Heartbeat::new(text("")).encode(), r#"{"op":"Heartbeat","token":""}"#);
}

#[test]
fn absent_members_are_left_out_of_the_text() {
    assert!(!Heartbeat::new(None).encode().contains("token"));
    assert!(!Declare::new("t", None).encode().contains("tracker"));
    let declare = Declare::new("t", Some(TrackFields::new(None, text("x"))));
    assert!(!declare.encode().contains("os"));
    assert!(!declare.encode().contains("null"));
}

#[test]
fn hello_survives_encoding() {
    for interval in 0..=255u8 {
        let hello = Hello::with_interval(interval);
        assert_eq!(Hello::decode(&hello.encode()), Ok(hello));
    }
    let hello = Hello { heartbeat_interval: 33, version: "v2-\"beta\"".to_string() };
    assert_eq!(Hello::decode(&hello.encode()), Ok(hello));
    let hello = Hello::default();
    assert_eq!(Hello::decode(&hello.encode()), Ok(hello));
}

#[test]
fn heartbeat_survives_encoding() {
    for token in [None, text(""), text("tok"), text("null"), text("a\"b\\c")] {
        let heartbeat = Heartbeat::new(token);
        assert_eq!(Heartbeat::decode(&heartbeat.encode()), Ok(heartbeat));
    }
}

#[test]
fn declare_survives_encoding_with_every_mix_of_absent_fields() {
    let values = [None, text(""), text("Windows 10")];
    for os in values.iter() {
        for app in values.iter() {
            let tracker = TrackFields::new(os.clone(), app.clone());
            let declare = Declare::new("abc123", Some(tracker));
            assert_eq!(Declare::decode(&declare.encode()), Ok(declare));
        }
    }
    let declare = Declare::new("", None);
    assert_eq!(Declare::decode(&declare.encode()), Ok(declare));
}

#[test]
fn terminate_survives_encoding_with_every_mix_of_fields() {
    for code in [0u16, 1, 255, 256, 4000, u16::MAX] {
        for message in [None, text(""), text("Unknown."), text("line\nbreak")] {
            for fault in [ClosureType::Gateway, ClosureType::Client] {
                for healthy in [true, false] {
                    let closure = Closure { code, message: message.clone(), fault };
                    let terminate = Terminate { closure, healthy, iuid: "evt-42".to_string() };
                    assert_eq!(Terminate::decode(&terminate.encode()), Ok(terminate));
                }
            }
        }
    }
}

#[test]
fn texts_of_every_kind_survive_encoding() {
    let texts = [
        "",
        " ",
        "plain",
        "with \"quotes\"",
        "back\\slash",
        "tab\there",
        "line\nfeed\r\n",
        "\u{0}\u{1}\u{1f}",
        "\u{7f}\u{80}",
        "caf\u{e9}",
        "\u{4e2d}\u{6587}",
        "\u{1F600} smile",
        "{\"op\":\"Hello\"}",
        "\\u0041",
        "/slash/",
        "\u{d7ff}\u{e000}\u{ffff}\u{10000}\u{10ffff}",
    ];
    for t in texts {
        let declare = Declare::new(t, Some(TrackFields::new(text(t), text(t))));
        assert_eq!(Declare::decode(&declare.encode()), Ok(declare));
        let heartbeat = Heartbeat::new(text(t));
        assert_eq!(Heartbeat::decode(&heartbeat.encode()), Ok(heartbeat));
    }
}

#[test]
fn control_characters_are_written_as_escapes() {
    assert_eq!(
        Heartbeat::new(text("a\nb")).encode(),
        r#"{"op":"Heartbeat","token":"a\u000ab"}"#
    );
    assert_eq!(
        Heartbeat::new(text("\u{0}\u{1f}\t")).encode(),
        r#"{"op":"Heartbeat","token":"\u0000\u001f\u0009"}"#
    );
    assert_eq!(
        Heartbeat::new(text("q\"b\\")).encode(),
        r#"{"op":"Heartbeat","token":"q\"b\\"}"#
    );
    assert_eq!(
        Heartbeat::new(text("\u{20}\u{7f}\u{e9}")).encode(),
        "{\"op\":\"Heartbeat\",\"token\":\" \u{7f}\u{e9}\"}"
    );
}

#[test]
fn one_payload_is_not_decoded_as_another() {
    let hello = Hello::with_interval(40).encode();
    let heartbeat = Heartbeat::new(None).encode();
    let declare = Declare::new("t", None).encode();
    let terminate =
        Terminate::new(Closure::new(1, None, ClosureType::Client), None, "i".to_string()).encode();
    assert_eq!(Heartbeat::decode(&hello), Err(DecodeError::UnexpectedOp));
    assert_eq!(Declare::decode(&hello), Err(DecodeError::UnexpectedOp));
    assert_eq!(Terminate::decode(&hello), Err(DecodeError::UnexpectedOp));
    assert_eq!(Hello::decode(&heartbeat), Err(DecodeError::UnexpectedOp));
    assert_eq!(Hello::decode(&declare), Err(DecodeError::UnexpectedOp));
    assert_eq!(Heartbeat::decode(&declare), Err(DecodeError::UnexpectedOp));
    assert_eq!(Hello::decode(&terminate), Err(DecodeError::UnexpectedOp));
    assert_eq!(Declare::decode(&terminate), Err(DecodeError::UnexpectedOp));
}
