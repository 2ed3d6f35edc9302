use gateway::{Closure, ClosureType, Declare, Heartbeat, Hello, Terminate, TrackFields};

fn text(s: &str) -> Option<String> {
    Some(s.to_string())
}

#[test]
fn encoded_declare_is_json() {
    let declare = Declare::new("abc\"123", Some(TrackFields::new(text("Windows\n10"), None)));
    let json: serde_json::Value = serde_json::from_str(&declare.encode()).unwrap();
    assert_eq!(json["op"].as_str(), Some("Declare"));
    assert_eq!(json["token"].as_str(), Some("abc\"123"));
    assert_eq!(json["tracker"]["os"].as_str(), Some("Windows\n10"));
    assert!(json["tracker"].get("app").is_none());
    assert_eq!(json.as_object().unwrap().len(), 3);
}

#[test]
fn encoded_terminate_is_json() {
    let terminate = Terminate::new(
        Closure::new(4000, None, ClosureType::Gateway),
        None,
        "evt-42".to_string(),
    );
    let json: serde_json::Value = serde_json::from_str(&terminate.encode()).unwrap();
    assert_eq!(json["op"].as_str(), Some("Terminate"));
    assert_eq!(json["closure"]["code"].as_u64(), Some(4000));
    assert_eq!(json["closure"]["message"].as_str(), Some("Unknown."));
    assert_eq!(json["closure"]["fault"].as_str(), Some("Gateway"));
    assert_eq!(json["healthy"].as_bool(), Some(true));
    assert_eq!(json["iuid"].as_str(), Some("evt-42"));
}

#[test]
fn encoded_hello_and_heartbeat_are_json() {
    let json: serde_json::Value = serde_json::from_str(&Hello::with_interval(59).encode()).unwrap();
    assert_eq!(json["op"].as_str(), Some("Hello"));
    assert_eq!(json["heartbeat_interval"].as_u64(), Some(59));
    assert_eq!(json["version"].as_str(), Some("v1"));
    let json: serde_json::Value =
        serde_json::from_str(&Heartbeat::new(text("\u{0}\u{1F600}\\")).encode()).unwrap();
    assert_eq!(json["op"].as_str(), Some("Heartbeat"));
    assert_eq!(json["token"].as_str(), Some("\u{0}\u{1F600}\\"));
}

#[test]
fn json_written_elsewhere_is_decoded() {
    let mut tracker = serde_json::Map::new();
    tracker.insert("os".to_string(), serde_json::Value::String("Windows\t10 \u{1F600}".to_string()));
    tracker.insert("app".to_string(), serde_json::Value::Null);
    let mut object = serde_json::Map::new();
    object.insert("op".to_string(), serde_json::Value::String("Declare".to_string()));
    object.insert("token".to_string(), serde_json::Value::String("a\"b\\c\u{7f}".to_string()));
    object.insert("tracker".to_string(), serde_json::Value::Object(tracker));
    let value = serde_json::Value::Object(object);
    let expected =
        Declare::new("a\"b\\c\u{7f}", Some(TrackFields::new(text("Windows\t10 \u{1F600}"), None)));
    assert_eq!(Declare::decode(&serde_json::to_string(&value).unwrap()), Ok(expected.clone()));
    assert_eq!(Declare::decode(&serde_json::to_string_pretty(&value).unwrap()), Ok(expected));
}

#[test]
fn json_numbers_written_elsewhere_are_decoded() {
    let mut closure = serde_json::Map::new();
    closure.insert("code".to_string(), serde_json::Value::from(4000u64));
    closure.insert("fault".to_string(), serde_json::Value::String("Client".to_string()));
    let mut object = serde_json::Map::new();
    object.insert("op".to_string(), serde_json::Value::String("Terminate".to_string()));
    object.insert("closure".to_string(), serde_json::Value::Object(closure));
    object.insert("healthy".to_string(), serde_json::Value::Bool(false));
    object.insert("iuid".to_string(), serde_json::Value::String("evt-42".to_string()));
    let input = serde_json::to_string(&serde_json::Value::Object(object)).unwrap();
    let terminate = Terminate::decode(&input).unwrap();
    assert_eq!(terminate.closure.code, 4000);
    assert_eq!(terminate.closure.message, None);
    assert_eq!(terminate.closure.fault, ClosureType::Client);
    assert!(!terminate.healthy);
    assert_eq!(terminate.iuid, "evt-42");
}

#[test]
fn json_with_numbers_of_every_kind_is_read() {
    let mut object = serde_json::Map::new();
    object.insert("op".to_string(), serde_json::Value::String("Heartbeat".to_string()));
    object.insert("a".to_string(), serde_json::Value::from(-7i64));
    object.insert("b".to_string(), serde_json::Value::from(42.5f64));
    object.insert("c".to_string(), serde_json::Value::from(1.0e-12f64));
    object.insert("d".to_string(), serde_json::Value::from(1.0e300f64));
    object.insert("e".to_string(), serde_json::Value::from(u64::MAX));
    let input = serde_json::to_string(&serde_json::Value::Object(object)).unwrap();
    assert_eq!(Heartbeat::decode(&input), Ok(Heartbeat::new(None)));
}
