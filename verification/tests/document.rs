use serde_json::Value;
use sing_box_config_api::config::{load_runtime_config, AppConfig};
use sing_box_config_api::document::{
    frame_config, get_config, serialize_config, show_config, UpdateConfigRequest,
};
use sing_box_config_api::io::IoFailure;
use sing_box_config_api::json::is_read_back;
use sing_box_config_api::path::UnixPath;

fn settings() -> AppConfig {
    load_runtime_config(None).settings
}

fn sample() -> Value {
    let mut log = serde_json::Map::new();
    log.insert("level".to_string(), Value::String("info".to_string()));
    let mut config = serde_json::Map::new();
    config.insert("log".to_string(), Value::Object(log));
    Value::Object(config)
}

#[test]
fn a_config_is_written_with_a_line_end() {
    let contents = serialize_config(&UpdateConfigRequest { config: sample() }).expect("contents");
    assert_eq!(contents, b"{\n  \"log\": {\n    \"level\": \"info\"\n  }\n}\n".to_vec());
}

#[test]
fn a_written_config_is_shown_as_it_was_given() {
    let contents = serialize_config(&UpdateConfigRequest { config: sample() }).expect("contents");
    let raw = String::from_utf8(contents).expect("text");
    let shown = get_config(&settings(), Ok(raw.clone())).expect("config");
    assert_eq!(shown.path, "/etc/sing-box/config.json");
    assert_eq!(shown.raw, raw);
    assert_eq!(shown.json, Some(sample()));
    assert_eq!(shown.parse_error, None);
}

#[test]
fn a_config_that_is_no_json_is_shown_with_the_reason() {
    let shown = get_config(&settings(), Ok("{".to_string())).expect("config");
    assert_eq!(shown.raw, "{");
    assert_eq!(shown.json, None);
    assert_eq!(
        shown.parse_error.as_deref(),
        Some("EOF while parsing an object at line 1 column 1")
    );
}

#[test]
fn a_missing_config_is_not_found() {
    let failure = IoFailure { not_found: true, message: "gone".to_string() };
    let error = get_config(&settings(), Err(failure)).expect_err("missing");
    assert_eq!(error.status.code(), 404);
    assert_eq!(error.message, "sing-box config not found: /etc/sing-box/config.json");
}

#[test]
fn a_config_that_cannot_be_read_is_an_error() {
    let failure = IoFailure { not_found: false, message: "denied".to_string() };
    let error = get_config(&settings(), Err(failure)).expect_err("failure");
    assert_eq!(error.status.code(), 500);
    assert_eq!(
        error.message,
        "failed to read sing-box config /etc/sing-box/config.json: denied"
    );
}

#[test]
fn a_config_that_cannot_be_printed_is_refused() {
    let error = frame_config(Err("why".to_string())).expect_err("refused");
    assert_eq!(error.status.code(), 400);
    assert_eq!(error.message, "failed to serialize config payload: why");
    assert_eq!(frame_config(Ok("{}".to_string())).expect("contents"), b"{}\n".to_vec());
}

#[test]
fn what_was_parsed_is_shown() {
    let path = UnixPath::new("/c");
    let shown = show_config(&path, "raw".to_string(), Ok(Value::Bool(true)));
    assert_eq!((shown.json, shown.parse_error), (Some(Value::Bool(true)), None));
    let shown = show_config(&path, "raw".to_string(), Err("bad".to_string()));
    assert_eq!((shown.json, shown.parse_error.as_deref()), (None, Some("bad")));
    assert_eq!(shown.path, "/c");
}

fn shown_again(config: Value) -> Option<Value> {
    let contents = serialize_config(&UpdateConfigRequest { config }).expect("contents");
    let raw = String::from_utf8(contents).expect("text");
    get_config(&settings(), Ok(raw)).expect("config").json
}

fn object(entries: &[(&str, Value)]) -> Value {
    let mut map = serde_json::Map::new();
    for (key, value) in entries {
        map.insert(key.to_string(), value.clone());
    }
    Value::Object(map)
}

fn nested(depth: usize) -> Value {
    let mut value = Value::Null;
    for level in 0..depth {
        value = if level % 2 == 0 {
            Value::Array(vec![value])
        } else {
            object(&[("k", value)])
        };
    }
    value
}

#[test]
fn values_are_read_back() {
    let text = "\u{0}\u{1f}\u{7f}\"\\/\u{8}\u{c}\n\r\té\u{2028}\u{10ffff}";
    let values = vec![
        Value::Null,
        Value::Bool(false),
        Value::from(0u64),
        Value::from(u64::MAX),
        Value::from(i64::MIN),
        Value::from(-1),
        Value::from(text),
        Value::Array(vec![]),
        object(&[]),
        object(&[("", Value::from(1)), (text, Value::Array(vec![Value::from(2), Value::Null]))]),
        object(&[(" ", Value::Null), ("$serde_json::private::RawValue", Value::from("1"))]),
        object(&[("$serde_json::private::Number", Value::from("1"))]),
        sample(),
        nested(127),
    ];
    for value in values {
        assert!(is_read_back(&value), "{value}");
        assert_eq!(shown_again(value.clone()), Some(value));
    }
}

#[test]
fn some_values_are_not_read_back() {
    assert!(!is_read_back(&nested(128)));
    assert_eq!(shown_again(nested(128)), None);
    let reserved = object(&[("$serde_json::private::RawValue", Value::from("[1]"))]);
    assert!(!is_read_back(&reserved));
    assert_eq!(shown_again(reserved.clone()), Some(Value::Array(vec![Value::from(1)])));
    assert!(!is_read_back(&Value::Array(vec![reserved])));
    assert!(!is_read_back(&Value::from(0.5)));
    assert!(!is_read_back(&object(&[("a", Value::Array(vec![Value::from(1.0)]))])));
}
