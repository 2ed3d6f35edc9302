use gateway::chars::{chars_of, same_text};
use gateway::text::grammar::MAX_DEPTH;
use gateway::value::{find, get_bool, get_number, get_optional, get_required, get_text, put};
use gateway::{Closure, ClosureType, Declare, DecodeError, Heartbeat, Hello, OpCode, Terminate, Value};

fn object(members: Vec<(&str, Value)>) -> Value {
    Value::Object(members.into_iter().map(|(name, value)| (name.to_string(), value)).collect())
}

fn nested(levels: usize) -> String {
    let mut out = String::new();
    for _ in 1..levels {
        out.push_str("{\"a\":");
    }
    out.push_str("{}");
    for _ in 1..levels {
        out.push('}');
    }
    out
}

#[test]
fn values_are_written_without_blanks() {
    assert_eq!(Value::Null.to_text(), "null");
    assert_eq!(Value::Bool(true).to_text(), "true");
    assert_eq!(Value::Bool(false).to_text(), "false");
    assert_eq!(Value::Number(0).to_text(), "0");
    assert_eq!(Value::Number(7).to_text(), "7");
    assert_eq!(Value::Number(10).to_text(), "10");
    assert_eq!(Value::Number(4000).to_text(), "4000");
    assert_eq!(Value::Number(u64::MAX).to_text(), "18446744073709551615");
    assert_eq!(Value::Text(String::new()).to_text(), "\"\"");
    assert_eq!(Value::Text("a b".to_string()).to_text(), "\"a b\"");
    assert_eq!(object(vec![]).to_text(), "{}");
    assert_eq!(
        object(vec![("a", Value::Number(1)), ("b", object(vec![("c", Value::Null)]))]).to_text(),
        r#"{"a":1,"b":{"c":null}}"#
    );
}

#[test]
fn values_are_read_from_text() {
    assert_eq!(Value::from_text("null"), Ok(Value::Null));
    assert_eq!(Value::from_text(" true "), Ok(Value::Bool(true)));
    assert_eq!(Value::from_text("false"), Ok(Value::Bool(false)));
    assert_eq!(Value::from_text("0"), Ok(Value::Number(0)));
    assert_eq!(Value::from_text("18446744073709551615"), Ok(Value::Number(u64::MAX)));
    assert_eq!(
        Value::from_text("18446744073709551616"),
        Ok(Value::Decimal("18446744073709551616".to_string()))
    );
    assert_eq!(Value::from_text("-0"), Ok(Value::Decimal("-0".to_string())));
    assert_eq!(Value::from_text("-12"), Ok(Value::Decimal("-12".to_string())));
    assert_eq!(Value::from_text("1.0"), Ok(Value::Decimal("1.0".to_string())));
    assert_eq!(Value::from_text(" 42.5 "), Ok(Value::Decimal("42.5".to_string())));
    assert_eq!(Value::from_text("0.18"), Ok(Value::Decimal("0.18".to_string())));
    assert_eq!(Value::from_text("1e3"), Ok(Value::Decimal("1e3".to_string())));
    assert_eq!(Value::from_text("-1.25E-7"), Ok(Value::Decimal("-1.25E-7".to_string())));
    assert_eq!(Value::from_text("0e+0"), Ok(Value::Decimal("0e+0".to_string())));
    assert_eq!(Value::from_text("\"x\""), Ok(Value::Text("x".to_string())));
    assert_eq!(Value::from_text("{}"), Ok(object(vec![])));
    assert_eq!(Value::from_text("{ }"), Ok(object(vec![])));
    assert_eq!(
        Value::from_text(r#"{"a":1,"a":2,"b":{"c":[]}}"#),
        Err(DecodeError::Malformed)
    );
    assert_eq!(
        Value::from_text(r#"{"a":1,"a":2,"b":{"c":null}}"#),
        Ok(object(vec![
            ("a", Value::Number(1)),
            ("a", Value::Number(2)),
            ("b", object(vec![("c", Value::Null)])),
        ]))
    );
}

#[test]
fn texts_that_are_no_value_are_malformed() {
    let inputs = [
        "", " ", "nul", "nulll", "truefalse", "True", "00", "01", "-", "-a", "+1", "1 2", ".5",
        "1.", "0.", "-.5", "01.5", "1e", "1e+", "1.5e", "1.5e-", "1..5", "1ee5", "- 1", "\"",
        "\"a", "a\"", "{\"a\"}", "{\"a\":1,}", "{\"a\":1 \"b\":2}", "{1:2}", "{null:1}", "[]",
        "{} {}", "\u{a0}null", "\"\u{1f}\"",
    ];
    for input in inputs {
        assert_eq!(Value::from_text(input), Err(DecodeError::Malformed), "{:?}", input);
    }
}

#[test]
fn values_survive_their_text() {
    let values = vec![
        Value::Null,
        Value::Bool(true),
        Value::Bool(false),
        Value::Number(0),
        Value::Number(9),
        Value::Number(10),
        Value::Number(109),
        Value::Number(u64::MAX),
        Value::Decimal("18446744073709551616".to_string()),
        Value::Decimal("-1".to_string()),
        Value::Decimal("-0".to_string()),
        Value::Decimal("42.5".to_string()),
        Value::Decimal("1e3".to_string()),
        Value::Decimal("-0.5E+10".to_string()),
        Value::Text(String::new()),
        Value::Text("\"\\\u{0}\u{1f} \u{e9}\u{1F600}".to_string()),
        object(vec![]),
        object(vec![("", Value::Null)]),
        object(vec![("a", Value::Number(1)), ("a", Value::Number(2))]),
        object(vec![("a", Value::Decimal("1.5".to_string())), ("b", Value::Number(2))]),
        object(vec![("a", Value::Number(1)), ("b", Value::Decimal("-2e2".to_string()))]),
        object(vec![("o", object(vec![("o", object(vec![("o", Value::Text("x".to_string()))]))]))]),
    ];
    for value in values {
        assert_eq!(Value::from_text(&value.to_text()), Ok(value));
    }
}

#[test]
fn objects_are_read_no_deeper_than_the_limit() {
    assert_eq!(MAX_DEPTH, 32);
    assert!(Value::from_text(&nested(1)).is_ok());
    assert!(Value::from_text(&nested(MAX_DEPTH)).is_ok());
    assert_eq!(Value::from_text(&nested(MAX_DEPTH + 1)), Err(DecodeError::Malformed));
    assert_eq!(Value::from_text(&nested(5000)), Err(DecodeError::Malformed));
}

#[test]
fn values_at_the_limit_survive_their_text() {
    let value = Value::from_text(&nested(MAX_DEPTH)).unwrap();
    assert_eq!(value.to_text(), nested(MAX_DEPTH));
    assert_eq!(Value::from_text(&value.to_text()), Ok(value));
}

#[test]
fn members_are_found_by_name() {
    let mut fields: Vec<(String, Value)> = Vec::new();
    put(&mut fields, "a", Value::Number(1));
    put(&mut fields, "b", Value::Null);
    put(&mut fields, "c", Value::Text("t".to_string()));
    put(&mut fields, "d", Value::Bool(true));
    put(&mut fields, "c", Value::Text("u".to_string()));
    assert_eq!(fields.len(), 5);
    assert_eq!(find(&fields, "a"), Ok(Some(&Value::Number(1))));
    assert_eq!(find(&fields, "b"), Ok(Some(&Value::Null)));
    assert_eq!(find(&fields, "z"), Ok(None));
    assert_eq!(find(&fields, "A"), Ok(None));
    assert_eq!(find(&fields, "c"), Err(DecodeError::Malformed));
    assert_eq!(get_required(&fields, "z"), Err(DecodeError::MissingField));
    assert_eq!(get_required(&fields, "b"), Ok(&Value::Null));
    assert_eq!(get_optional(&fields, "b"), Ok(None));
    assert_eq!(get_optional(&fields, "z"), Ok(None));
    assert_eq!(get_optional(&fields, "a"), Ok(Some(&Value::Number(1))));
    assert_eq!(get_number(&fields, "a", 1), Ok(1));
    assert_eq!(get_number(&fields, "a", 0), Err(DecodeError::Malformed));
    assert_eq!(get_number(&fields, "d", 9), Err(DecodeError::Malformed));
    assert_eq!(get_bool(&fields, "d"), Ok(true));
    assert_eq!(get_bool(&fields, "a"), Err(DecodeError::Malformed));
    assert_eq!(get_text(&fields, "a"), Err(DecodeError::Malformed));
    assert_eq!(get_text(&fields, "c"), Err(DecodeError::Malformed));
    assert_eq!(get_text(&fields, "z"), Err(DecodeError::MissingField));
}

#[test]
fn values_tell_what_kind_they_are() {
    assert_eq!(Value::Text("t".to_string()).as_text(), Ok(&"t".to_string()));
    assert_eq!(Value::Null.as_text(), Err(DecodeError::Malformed));
    assert_eq!(Value::Bool(false).as_bool(), Ok(false));
    assert_eq!(Value::Number(0).as_bool(), Err(DecodeError::Malformed));
    assert_eq!(Value::Number(256).as_number(256), Ok(256));
    assert_eq!(Value::Number(256).as_number(255), Err(DecodeError::Malformed));
    assert_eq!(Value::Text("1".to_string()).as_number(9), Err(DecodeError::Malformed));
    assert_eq!(object(vec![]).as_object(), Ok(&Vec::new()));
    assert_eq!(Value::Null.as_object(), Err(DecodeError::Malformed));
    assert_eq!(Value::object(Vec::new()), object(vec![]));
}

#[test]
fn tags_are_read_from_members() {
    let tagged = OpCode::Declare.tagged();
    assert_eq!(tagged, vec![("op".to_string(), Value::Text("Declare".to_string()))]);
    assert_eq!(OpCode::read_tag(&tagged), Ok(OpCode::Declare));
    assert_eq!(OpCode::Declare.check_tag(&tagged), Ok(()));
    assert_eq!(OpCode::Hello.check_tag(&tagged), Err(DecodeError::UnexpectedOp));
    assert_eq!(OpCode::read_tag(&Vec::new()), Err(DecodeError::MissingField));
    let bogus = vec![("op".to_string(), Value::Text("Bogus".to_string()))];
    assert_eq!(OpCode::read_tag(&bogus), Err(DecodeError::UnknownDiscriminant));
    assert_eq!(OpCode::Hello.check_tag(&bogus), Err(DecodeError::UnknownDiscriminant));
    let number = vec![("op".to_string(), Value::Number(1))];
    assert_eq!(OpCode::read_tag(&number), Err(DecodeError::Malformed));
    let acknowledged = OpCode::HeartbeatAck.tagged();
    assert_eq!(OpCode::read_tag(&acknowledged), Ok(OpCode::HeartbeatAck));
}

#[test]
fn texts_are_compared_character_by_character() {
    assert!(same_text("", ""));
    assert!(same_text("abc", "abc"));
    assert!(same_text("\u{e9}\u{1F600}", "\u{e9}\u{1F600}"));
    assert!(!same_text("abc", "abd"));
    assert!(!same_text("abc", "ab"));
    assert!(!same_text("", "a"));
    assert!(!same_text("e\u{301}", "\u{e9}"));
    assert_eq!(chars_of("a\u{e9}\u{1F600}"), vec!['a', '\u{e9}', '\u{1F600}']);
    assert_eq!(chars_of(""), Vec::<char>::new());
}

#[test]
fn a_copy_of_a_value_holds_what_the_value_holds() {
    let value = object(vec![
        ("a", Value::Number(1)),
        ("b", object(vec![("c", Value::Null), ("d", Value::Text("t".to_string()))])),
        ("e", Value::Bool(true)),
        ("f", object(vec![])),
    ]);
    let copy = value.clone();
    assert_eq!(copy, value);
    assert_eq!(copy.to_text(), value.to_text());
    assert_eq!(Value::Null.clone(), Value::Null);
}

#[test]
fn numbers_are_made_from_their_characters() {
    assert_eq!(Value::from_number_text("0"), Some(Value::Number(0)));
    assert_eq!(Value::from_number_text("4000"), Some(Value::Number(4000)));
    assert_eq!(Value::from_number_text("18446744073709551615"), Some(Value::Number(u64::MAX)));
    assert_eq!(
        Value::from_number_text("18446744073709551616"),
        Some(Value::Decimal("18446744073709551616".to_string()))
    );
    assert_eq!(Value::from_number_text("42.5"), Some(Value::Decimal("42.5".to_string())));
    assert_eq!(Value::from_number_text("-0"), Some(Value::Decimal("-0".to_string())));
    assert_eq!(Value::from_number_text("1e-7"), Some(Value::Decimal("1e-7".to_string())));
    for text in ["", " 1", "1 ", "01", "1.", ".1", "-", "1e", "NaN", "inf", "-inf", "1,5", "0x1"] {
        assert_eq!(Value::from_number_text(text), None, "{:?}", text);
    }
}

#[test]
fn numbers_give_the_characters_they_are_written_with() {
    assert_eq!(Value::Number(0).number_text(), Some("0".to_string()));
    assert_eq!(Value::Number(4000).number_text(), Some("4000".to_string()));
    assert_eq!(Value::Decimal("42.5".to_string()).number_text(), Some("42.5".to_string()));
    assert_eq!(Value::Text("1".to_string()).number_text(), None);
    assert_eq!(Value::Null.number_text(), None);
    assert_eq!(Value::Bool(true).number_text(), None);
    assert_eq!(object(vec![]).number_text(), None);
    for text in ["0", "7", "42.5", "-1", "1e3"] {
        let value = Value::from_number_text(text).unwrap();
        assert_eq!(value.number_text(), Some(text.to_string()));
    }
}

#[test]
fn peek_tells_which_payload_a_text_holds() {
    assert_eq!(OpCode::peek(&Hello::with_interval(30).encode()), Ok(OpCode::Hello));
    assert_eq!(OpCode::peek(&Heartbeat::new(None).encode()), Ok(OpCode::Heartbeat));
    assert_eq!(OpCode::peek(&Declare::new("t", None).encode()), Ok(OpCode::Declare));
    let closure = Closure::new(1, None, ClosureType::Client);
    assert_eq!(
        OpCode::peek(&Terminate::new(closure, None, "i".to_string()).encode()),
        Ok(OpCode::Terminate)
    );
    assert_eq!(
        OpCode::peek(r#"{"last_call":42.5,"latency":0.18,"op":"HeartbeatAck"}"#),
        Ok(OpCode::HeartbeatAck)
    );
    assert_eq!(OpCode::peek(r#"{"op":"Bogus"}"#), Err(DecodeError::UnknownDiscriminant));
    assert_eq!(OpCode::peek(r#"{"op":1}"#), Err(DecodeError::Malformed));
    assert_eq!(OpCode::peek(r#"{"op":"Hello","op":"Hello"}"#), Err(DecodeError::Malformed));
    assert_eq!(OpCode::peek("{}"), Err(DecodeError::MissingField));
    assert_eq!(OpCode::peek("\"Hello\""), Err(DecodeError::Malformed));
    assert_eq!(OpCode::peek("{"), Err(DecodeError::Malformed));
}
