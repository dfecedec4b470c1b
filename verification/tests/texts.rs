use sing_box_config_api::error::{ApiError, HttpStatus};
use sing_box_config_api::io::{describe_failure, report_unexpected, IoFailure};
use sing_box_config_api::text::{
    char_is_white_space, concat3, contains, decimal_text, ends_with, replace, strip_prefix, trim,
};

#[test]
fn white_space_is_that_of_unicode() {
    let mut code: u32 = 0;
    while code <= 0x10ffff {
        if let Some(c) = char::from_u32(code) {
            assert_eq!(char_is_white_space(c), c.is_whitespace(), "{code}");
        }
        code += 1;
    }
}

#[test]
fn trimming_takes_white_space_off_both_ends() {
    let cases = ["", " ", "a", " a ", "\u{3000}a b\t\n", "\u{200b}a", "a\u{a0}", "é\u{2003}ü "];
    for case in cases {
        assert_eq!(trim(case), case.trim());
    }
}

#[test]
fn prefixes_and_suffixes_are_those_of_characters() {
    assert_eq!(strip_prefix("Bearer x", "Bearer "), Some("x"));
    assert_eq!(strip_prefix("bearer x", "Bearer "), None);
    assert_eq!(strip_prefix("Bear", "Bearer "), None);
    assert_eq!(strip_prefix("éa", "é"), Some("a"));
    assert!(ends_with("é.srs", ".srs"));
    assert!(!ends_with("srs", ".srs"));
    assert!(ends_with("x", ""));
}

#[test]
fn replacing_goes_from_left_to_right() {
    let cases = [("aaa", "aa", "b"), ("abab", "ab", "ba"), ("", "x", "y"), ("xéx", "x", "")];
    for (text, pattern, with) in cases {
        assert_eq!(replace(text, pattern, with), text.replace(pattern, with));
        assert_eq!(contains(text, pattern), text.contains(pattern));
    }
    assert_eq!(replace("plain", "{config_path}", "p"), "plain");
    assert!(contains("x", ""));
}

#[test]
fn numbers_are_written_in_decimal() {
    for n in [0u128, 7, 10, 101, 1_700_000_000_123_456_789, u128::MAX] {
        assert_eq!(decimal_text(n), n.to_string());
    }
    assert_eq!(concat3("a", "b", "c"), "abc");
}

#[test]
fn statuses_are_shown_with_their_phrase() {
    assert_eq!(HttpStatus::new(404).expect("status").text(), "404 Not Found");
    assert_eq!(HttpStatus::new(200).expect("status").text(), "200 OK");
    assert_eq!(HttpStatus::new(999).expect("status").text(), "999 <unknown status code>");
    assert!(HttpStatus::new(99).is_none());
    assert!(HttpStatus::new(1000).is_none());
    let mut code: u16 = 100;
    while code <= 999 {
        let status = HttpStatus::new(code).expect("status");
        let known = axum::http::StatusCode::from_u16(code).expect("status");
        assert_eq!(status.is_success(), known.is_success());
        assert_eq!(status.text(), known.to_string());
        code += 1;
    }
}

#[test]
fn errors_become_a_status_and_a_body() {
    let (status, body) = ApiError::not_found("gone".to_string()).into_response();
    assert_eq!(status, 404);
    assert_eq!(body.error, "gone");
    assert_eq!(ApiError::internal(String::new()).into_response().0, 500);
    assert_eq!(ApiError::bad_request(String::new()).into_response().0, 400);
    assert_eq!(ApiError::unauthorized(String::new()).into_response().0, 401);
    let status = HttpStatus::new(418).expect("status");
    assert_eq!(ApiError::new(status, String::new()).into_response().0, 418);
}

#[test]
fn failures_are_described() {
    let failure = IoFailure { not_found: false, message: "denied".to_string() };
    assert_eq!(describe_failure("failed to read ", "/x", &failure), "failed to read /x: denied");
    assert_eq!(report_unexpected().message, "unexpected answer");
}
