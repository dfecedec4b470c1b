use axum::http::{HeaderMap, HeaderValue};
use sing_box_config_api::auth::{choose_secret, extract_secret, require_secret};
use sing_box_config_api::config::{load_runtime_config, AppConfig, RawAppConfig};
use sing_box_config_api::path::UnixPath;

fn settings(secret: &str) -> AppConfig {
    let raw = RawAppConfig { secret: Some(secret.to_string()), ..RawAppConfig::default() };
    load_runtime_config(Some((UnixPath::new("/config.toml"), raw))).settings
}

fn headers(pairs: &[(&'static str, &'static str)]) -> HeaderMap {
    let mut map = HeaderMap::new();
    for (name, value) in pairs {
        map.append(*name, HeaderValue::from_static(value));
    }
    map
}

#[test]
fn either_header_presents_the_secret() {
    let own = headers(&[("x-api-secret", "s3cret")]);
    assert_eq!(extract_secret(&own).as_deref(), Some("s3cret"));
    assert!(require_secret(&own, &settings("s3cret")).is_ok());
    let bearer = headers(&[("authorization", "Bearer s3cret")]);
    assert_eq!(extract_secret(&bearer).as_deref(), Some("s3cret"));
    assert!(require_secret(&bearer, &settings("s3cret")).is_ok());
}

#[test]
fn other_requests_are_refused() {
    let cases = vec![
        headers(&[]),
        headers(&[("x-api-secret", "S3cret")]),
        headers(&[("x-api-secret", "s3cret ")]),
        headers(&[("authorization", "s3cret")]),
        headers(&[("authorization", "bearer s3cret")]),
        headers(&[("authorization", "Bearer  s3cret")]),
        headers(&[("x-api-secret", "wrong"), ("authorization", "Bearer s3cret")]),
    ];
    for case in cases {
        let error = require_secret(&case, &settings("s3cret")).expect_err("refused");
        assert_eq!(error.status.code(), 401);
        assert_eq!(error.message, "unauthorized: provide a valid x-api-secret or Bearer token");
    }
}

#[test]
fn the_first_value_of_a_header_counts() {
    let case = headers(&[("x-api-secret", "one"), ("x-api-secret", "two")]);
    assert_eq!(extract_secret(&case).as_deref(), Some("one"));
}

#[test]
fn a_header_that_is_no_text_is_passed_over() {
    let mut case = headers(&[("authorization", "Bearer s3cret")]);
    case.insert("x-api-secret", HeaderValue::from_bytes(&[b's', 0xe9]).expect("value"));
    assert_eq!(extract_secret(&case).as_deref(), Some("s3cret"));
}

#[test]
fn header_values_are_text_where_the_crate_says_so() {
    let mut byte: u16 = 0;
    while byte < 256 {
        if let Ok(value) = HeaderValue::from_bytes(&[b'a', byte as u8]) {
            let known = value.to_str().ok().map(str::to_string);
            let mut case = HeaderMap::new();
            case.insert("x-api-secret", value);
            assert_eq!(extract_secret(&case), known);
        }
        byte += 1;
    }
}

#[test]
fn the_own_header_goes_before_the_token() {
    let own = Some("a".to_string());
    let bearer = Some("Bearer b".to_string());
    assert_eq!(choose_secret(own, bearer.clone()).as_deref(), Some("a"));
    assert_eq!(choose_secret(None, bearer).as_deref(), Some("b"));
    assert_eq!(choose_secret(None, Some("Bearer".to_string())), None);
    assert_eq!(choose_secret(None, Some("Bearer ".to_string())).as_deref(), Some(""));
    assert_eq!(choose_secret(None, None), None);
}
