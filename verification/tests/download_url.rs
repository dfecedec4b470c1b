use sing_box_config_api::download_url::{check_srs_url, parse_srs_download_url, ParsedUrl};

#[test]
fn accepts_github_srs_download_url() {
    let (_, file_name) = parse_srs_download_url(
        "https://github.com/KaringX/karing-ruleset/raw/refs/heads/sing/russia/antizapret/antizapret.srs",
    )
    .expect("download url");

    assert_eq!(file_name, "antizapret.srs");
}

#[test]
fn rejects_non_github_srs_download_url() {
    assert!(parse_srs_download_url("https://example.com/file.srs").is_err());
    assert!(parse_srs_download_url("http://github.com/file.srs").is_err());
}

#[test]
fn reads_the_parts_of_a_url() {
    let (url, name) =
        parse_srs_download_url("HTTPS://RAW.githubusercontent.com/a/../b/rules.srs?x=1#y")
            .expect("url");
    assert_eq!(url.text, "https://raw.githubusercontent.com/b/rules.srs?x=1#y");
    assert_eq!(url.scheme, "https");
    assert_eq!(url.host.as_deref(), Some("raw.githubusercontent.com"));
    assert_eq!(url.segments, Some(vec!["b".to_string(), "rules.srs".to_string()]));
    assert_eq!(name, "rules.srs");
}

fn refusal(raw: &str) -> (u16, String) {
    let error = parse_srs_download_url(raw).expect_err("refused");
    (error.status.code(), error.message)
}

#[test]
fn tells_why_addresses_are_refused() {
    assert_eq!(
        refusal("no url"),
        (400, "invalid srs url: relative URL without a base".to_string())
    );
    assert_eq!(
        refusal("http://github.com/file.srs"),
        (400, "srs url must use https".to_string())
    );
    assert_eq!(
        refusal("https://example.com/file.srs"),
        (400, "only github.com and raw.githubusercontent.com are allowed".to_string())
    );
    assert_eq!(
        refusal("https://github.com/"),
        (400, "srs url must end with a file name".to_string())
    );
    assert_eq!(
        refusal("https://github.com/dir/"),
        (400, "srs url must end with a file name".to_string())
    );
    assert_eq!(
        refusal("https://github.com/file.txt"),
        (400, "only .srs files are allowed".to_string())
    );
}

fn parsed(scheme: &str, host: Option<&str>, segments: Option<Vec<&str>>) -> ParsedUrl {
    ParsedUrl {
        text: "text".to_string(),
        scheme: scheme.to_string(),
        host: host.map(str::to_string),
        segments: segments.map(|parts| parts.into_iter().map(str::to_string).collect()),
    }
}

#[test]
fn refuses_urls_without_host_or_segments() {
    let error = check_srs_url(Ok(parsed("https", None, None))).expect_err("host");
    assert_eq!(error.message, "srs url host is missing");
    let error = check_srs_url(Ok(parsed("https", Some("github.com"), None))).expect_err("segments");
    assert_eq!(error.message, "srs url must end with a file name");
    let error =
        check_srs_url(Ok(parsed("https", Some("github.com"), Some(vec![])))).expect_err("empty");
    assert_eq!(error.message, "srs url must end with a file name");
    let error = check_srs_url(Err("why".to_string())).expect_err("error");
    assert_eq!(error.message, "invalid srs url: why");
    let (url, name) =
        check_srs_url(Ok(parsed("https", Some("github.com"), Some(vec!["a", "b.srs"]))))
            .expect("url");
    assert_eq!(url.text, "text");
    assert_eq!(name, "b.srs");
}
