//! Addresses from which `.srs` files may be downloaded.
use crate::error::{bad_request, ApiError, ApiErrorView};
use crate::names::{
    is_plain_name, law_refused_names_are_explained, law_srs_names_are_plain, sanitize_srs_name,
    srs_name,
};
use crate::text::{concat2, text_eq};
use vstd::prelude::*;

verus! {

/// The parts of a URL that decide whether it is used.
#[derive(Debug)]
pub struct ParsedUrl {
    /// The whole URL in its normal form.
    pub text: String,
    pub scheme: String,
    pub host: Option<String>,
    /// What stands between the slashes of the path, where the path starts with a slash.
    pub segments: Option<Vec<String>>,
}

/// The parts of a URL, as a value of the model.
pub struct UrlView {
    pub text: Seq<char>,
    pub scheme: Seq<char>,
    pub host: Option<Seq<char>>,
    pub segments: Option<Seq<Seq<char>>>,
}

impl View for ParsedUrl {
    type V = UrlView;

    open spec fn view(&self) -> UrlView {
        UrlView {
            text: self.text@,
            scheme: self.scheme@,
            host: self.host.deep_view(),
            segments: self.segments.deep_view(),
        }
    }
}

/// What `reqwest::Url` makes of a text: the parts of the URL, or why the text is none.
pub uninterp spec fn url_parse(raw: Seq<char>) -> Result<UrlView, Seq<char>>;

/// Calls `reqwest::Url::parse`, and reads the parts of the result. The contract names what the
/// text is taken for: a URL with these parts, or the text of the error.
#[verifier::external_body]
fn parse_url(raw: &str) -> (r: Result<ParsedUrl, String>)
    ensures
        url_result(r) == url_parse(raw@),
{
    let url = reqwest::Url::parse(raw).map_err(|error| error.to_string())?;
    Ok(
        ParsedUrl {
            text: url.to_string(),
            scheme: url.scheme().to_string(),
            host: url.host_str().map(str::to_string),
            segments: url.path_segments().map(|parts| parts.map(str::to_string).collect()),
        },
    )
}

/// The value of the model that a parsed URL stands for.
pub open spec fn url_result(r: Result<ParsedUrl, String>) -> Result<UrlView, Seq<char>> {
    match r {
        Ok(url) => Ok(url@),
        Err(error) => Err(error@),
    }
}

/// The value of the model that an accepted address stands for.
pub open spec fn source_result(r: Result<(ParsedUrl, String), ApiError>) -> Result<
    (UrlView, Seq<char>),
    ApiErrorView,
> {
    match r {
        Ok((url, name)) => Ok((url@, name@)),
        Err(error) => Err(error@),
    }
}

/// Whether files are downloaded from a host.
pub open spec fn is_allowed_host(host: Seq<char>) -> bool {
    host == "github.com"@ || host == "raw.githubusercontent.com"@
}

/// The last segment of the path of a URL, if it is not empty.
pub open spec fn last_segment(url: UrlView) -> Option<Seq<char>> {
    match url.segments {
        Some(parts) => if parts.len() > 0 && parts.last().len() > 0 {
            Some(parts.last())
        } else {
            None
        },
        None => None,
    }
}

/// The URL to download from and the name of the file, or why the address is refused.
pub open spec fn srs_source(parsed: Result<UrlView, Seq<char>>) -> Result<
    (UrlView, Seq<char>),
    ApiErrorView,
> {
    match parsed {
        Err(error) => Err(bad_request("invalid srs url: "@ + error)),
        Ok(url) => if url.scheme != "https"@ {
            Err(bad_request("srs url must use https"@))
        } else if url.host is None {
            Err(bad_request("srs url host is missing"@))
        } else if !is_allowed_host(url.host->0) {
            Err(bad_request("only github.com and raw.githubusercontent.com are allowed"@))
        } else {
            match last_segment(url) {
                None => Err(bad_request("srs url must end with a file name"@)),
                Some(segment) => match srs_name(segment) {
                    Ok(name) => Ok((url, name)),
                    Err(error) => Err(error),
                },
            }
        },
    }
}

/// The last segment of the path of a URL, if it is not empty.
fn last_segment_of(url: &ParsedUrl) -> (r: Option<&String>)
    ensures
        r is Some <==> last_segment(url@) is Some,
        r matches Some(segment) ==> last_segment(url@) == Some(segment@),
{
    match &url.segments {
        Some(parts) => {
            let n: usize = parts.len();
            if n > 0 && !parts[n - 1].as_str().is_empty() {
                Some(&parts[n - 1])
            } else {
                None
            }
        },
        None => None,
    }
}

/// Accepts a URL that names an `.srs` file on one of the allowed hosts.
pub fn check_srs_url(parsed: Result<ParsedUrl, String>) -> (r: Result<
    (ParsedUrl, String),
    ApiError,
>)
    ensures
        source_result(r) == srs_source(url_result(parsed)),
{
    let url = match parsed {
        Ok(url) => url,
        Err(error) => {
            return Err(ApiError::bad_request(concat2("invalid srs url: ", error.as_str())));
        },
    };
    if !text_eq(url.scheme.as_str(), "https") {
        return Err(ApiError::bad_request("srs url must use https".to_owned()));
    }
    match &url.host {
        Some(host) => {
            if !text_eq(host.as_str(), "github.com") && !text_eq(
                host.as_str(),
                "raw.githubusercontent.com",
            ) {
                return Err(
                    ApiError::bad_request(
                        "only github.com and raw.githubusercontent.com are allowed".to_owned(),
                    ),
                );
            }
        },
        None => {
            return Err(ApiError::bad_request("srs url host is missing".to_owned()));
        },
    }
    let checked = match last_segment_of(&url) {
        Some(segment) => sanitize_srs_name(segment.as_str()),
        None => {
            return Err(ApiError::bad_request("srs url must end with a file name".to_owned()));
        },
    };
    match checked {
        Ok(name) => Ok((url, name)),
        Err(error) => Err(error),
    }
}

/// Accepts the address of an `.srs` file on one of the allowed hosts.
pub fn parse_srs_download_url(raw_url: &str) -> (r: Result<(ParsedUrl, String), ApiError>)
    ensures
        source_result(r) == srs_source(url_parse(raw_url@)),
{
    check_srs_url(parse_url(raw_url))
}

/// Whatever is downloaded comes over HTTPS from an allowed host, and is stored under a plain
/// name that ends in `.srs`.
pub proof fn law_downloads_are_confined(raw: Result<UrlView, Seq<char>>)
    ensures
        srs_source(raw) matches Ok((url, name)) ==> {
            &&& url.scheme == "https"@
            &&& url.host is Some && is_allowed_host(url.host->0)
            &&& last_segment(url) == Some(name)
            &&& is_plain_name(name)
            &&& ".srs"@.is_suffix_of(name)
        },
{
    if let Ok(url) = raw {
        if let Some(segment) = last_segment(url) {
            law_srs_names_are_plain(segment);
        }
    }
}

/// An address is accepted if it is a URL over HTTPS, on one of the two hosts of GitHub, whose last
/// path segment is a plain name that ends in `.srs`, however many segments come before. Then it is
/// that URL that is used, and that name.
pub proof fn law_good_addresses_are_accepted(url: UrlView, host: Seq<char>, parts: Seq<Seq<char>>)
    requires
        url.scheme == "https"@,
        url.host == Some(host),
        host == "github.com"@ || host == "raw.githubusercontent.com"@,
        url.segments == Some(parts),
        parts.len() > 0,
        is_plain_name(parts.last()),
        ".srs"@.is_suffix_of(parts.last()),
    ensures
        srs_source(Ok(url)) == Ok::<(UrlView, Seq<char>), ApiErrorView>((url, parts.last())),
{
    law_srs_names_are_plain(parts.last());
}

/// Only such addresses are accepted, and the URL and the name are those of the address.
pub proof fn law_only_good_addresses_are_accepted(parsed: Result<UrlView, Seq<char>>)
    requires
        srs_source(parsed) is Ok,
    ensures
        ({
            let (url, name) = srs_source(parsed)->Ok_0;
            &&& parsed == Ok::<UrlView, Seq<char>>(url)
            &&& url.scheme == "https"@
            &&& url.host == Some("github.com"@) || url.host == Some("raw.githubusercontent.com"@)
            &&& url.segments is Some
            &&& url.segments->0.len() > 0
            &&& name == url.segments->0.last()
            &&& is_plain_name(name)
            &&& ".srs"@.is_suffix_of(name)
        }),
{
    law_downloads_are_confined(parsed);
}

/// A refused address is an error of the request, and the report names the first thing that is wrong
/// with it.
pub proof fn law_refused_addresses_are_explained(parsed: Result<UrlView, Seq<char>>)
    requires
        srs_source(parsed) is Err,
    ensures
        srs_source(parsed)->Err_0.status == 400,
        parsed matches Err(reason) ==> srs_source(parsed)->Err_0.message == "invalid srs url: "@
            + reason,
        parsed matches Ok(url) ==> {
            let message = srs_source(parsed)->Err_0.message;
            let is_https = url.scheme == "https"@;
            let is_github = url.host == Some("github.com"@) || url.host == Some(
                "raw.githubusercontent.com"@,
            );
            let has_name = url.segments is Some && url.segments->0.len() > 0
                && url.segments->0.last().len() > 0;
            &&& !is_https ==> message == "srs url must use https"@
            &&& is_https && url.host is None ==> message == "srs url host is missing"@
            &&& is_https && url.host is Some && !is_github ==> message
                == "only github.com and raw.githubusercontent.com are allowed"@
            &&& is_https && is_github && !has_name ==> message
                == "srs url must end with a file name"@
            &&& is_https && is_github && has_name ==> {
                &&& !(is_plain_name(url.segments->0.last()) && ".srs"@.is_suffix_of(
                    url.segments->0.last(),
                ))
                &&& srs_name(url.segments->0.last()) is Err
                &&& message == srs_name(url.segments->0.last())->Err_0.message
            }
        },
{
    if let Ok(url) = parsed {
        if let Some(segment) = last_segment(url) {
            law_srs_names_are_plain(segment);
            law_refused_names_are_explained(segment);
        }
    }
}

} // verus!
