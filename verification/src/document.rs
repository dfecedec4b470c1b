//! The `sing-box` configuration as a document.
use crate::config::{source_text, AppConfig, RuntimeConfig};
use crate::error::{bad_request, internal, not_found, ApiError, ApiErrorView};
use crate::io::{describe_failure, failure_text, IoFailure, IoFailureView};
use crate::json::{
    is_line_of, json_parse, json_pretty, json_result, parse_json, print_json, printed_result,
    reads_back, MAX_DEPTH,
};
use crate::path::UnixPath;
use crate::text::concat2;
use crate::utf8::{lemma_encoding_is_injective, lossy_text};
use vstd::prelude::*;
use vstd::string::{StrSliceExecFns, StringExecFns};
use vstd::utf8::encode_utf8;

verus! {

/// A configuration that a client hands in.
#[derive(Debug)]
pub struct UpdateConfigRequest {
    pub config: serde_json::Value,
}

/// The configuration file as it is shown to clients.
#[derive(Debug)]
pub struct ConfigFileResponse {
    pub path: String,
    pub raw: String,
    pub json: Option<serde_json::Value>,
    pub parse_error: Option<String>,
}

/// The configuration file as it is shown to clients, as a value of the model.
pub struct ConfigFileResponseView {
    pub path: Seq<char>,
    pub raw: Seq<char>,
    pub json: Option<serde_json::Value>,
    pub parse_error: Option<Seq<char>>,
}

impl View for ConfigFileResponse {
    type V = ConfigFileResponseView;

    open spec fn view(&self) -> ConfigFileResponseView {
        ConfigFileResponseView {
            path: self.path@,
            raw: self.raw@,
            json: self.json,
            parse_error: self.parse_error.deep_view(),
        }
    }
}

/// The answer to a request for the configuration file at `path` that holds `raw`, which is
/// `parsed` as JSON.
pub open spec fn shown_config(
    path: Seq<u8>,
    raw: Seq<char>,
    parsed: Result<serde_json::Value, Seq<char>>,
) -> ConfigFileResponseView {
    ConfigFileResponseView {
        path: lossy_text(path),
        raw,
        json: match parsed {
            Ok(value) => Some(value),
            Err(error) => None,
        },
        parse_error: match parsed {
            Ok(value) => None,
            Err(error) => Some(error),
        },
    }
}

/// The answer to a request for the configuration file at `path`, of which `read` was read.
pub open spec fn config_answer(path: Seq<u8>, read: Result<Seq<char>, IoFailureView>) -> Result<
    ConfigFileResponseView,
    ApiErrorView,
> {
    match read {
        Ok(raw) => Ok(shown_config(path, raw, json_parse(raw))),
        Err(failure) => if failure.not_found {
            Err(not_found("sing-box config not found: "@ + lossy_text(path)))
        } else {
            Err(
                internal(
                    failure_text("failed to read sing-box config "@, lossy_text(path), failure),
                ),
            )
        },
    }
}

/// The value of the model that a text, or the failure to read it, stands for.
pub open spec fn read_result(r: Result<String, IoFailure>) -> Result<Seq<char>, IoFailureView> {
    match r {
        Ok(raw) => Ok(raw@),
        Err(failure) => Err(failure@),
    }
}

/// The value of the model that the answer to a request for the configuration stands for.
pub open spec fn answer_result(r: Result<ConfigFileResponse, ApiError>) -> Result<
    ConfigFileResponseView,
    ApiErrorView,
> {
    match r {
        Ok(response) => Ok(response@),
        Err(error) => Err(error@),
    }
}

/// Shows a configuration file. A file that is no JSON is shown as well.
pub fn show_config(
    path: &UnixPath,
    raw: String,
    parsed: Result<serde_json::Value, String>,
) -> (r: ConfigFileResponse)
    ensures
        r@ == shown_config(path@, raw@, json_result(parsed)),
        r.path@ == lossy_text(path@),
        r.raw@ == raw@,
        parsed matches Ok(value) ==> r.json == Some(value) && r.parse_error is None,
        parsed matches Err(error) ==> r.json is None && (r.parse_error matches Some(reason)
            && reason@ == error@),
{
    let (json, parse_error) = match parsed {
        Ok(value) => (Some(value), None),
        Err(error) => (None, Some(error)),
    };
    ConfigFileResponse { path: path.display(), raw, json, parse_error }
}

/// Whether `raw` is the text of the file that is written for a configuration.
pub open spec fn is_file_of(config: serde_json::Value, raw: Seq<char>) -> bool {
    file_contents(json_pretty(config)) == Ok::<Seq<u8>, ApiErrorView>(encode_utf8(raw))
}

/// Answers a request for the configuration file, once it was read. The file that was written for
/// a configuration shows that configuration again, unless JSON does not read it back.
pub fn get_config(settings: &AppConfig, read: Result<String, IoFailure>) -> (r: Result<
    ConfigFileResponse,
    ApiError,
>)
    ensures
        answer_result(r) == config_answer(settings@.sing_box_config_path, read_result(read)),
        read matches Ok(raw) ==> forall|config: serde_json::Value|
            #[trigger] is_file_of(config, raw@) && reads_back(config, MAX_DEPTH as nat)
                ==> answer_result(r) == Ok::<ConfigFileResponseView, ApiErrorView>(
                shown_config(settings@.sing_box_config_path, raw@, Ok(config)),
            ),
        r is Ok <==> read is Ok,
        r matches Ok(shown) ==> {
            &&& shown.path@ == lossy_text(settings.sing_box_config_path@)
            &&& shown.raw@ == read->Ok_0@
            &&& json_parse(read->Ok_0@) matches Ok(value) ==> shown.json == Some(value)
                && shown.parse_error is None
            &&& json_parse(read->Ok_0@) matches Err(error) ==> shown.json is None && (
            shown.parse_error matches Some(reason) && reason@ == error)
        },
{
    let path = &settings.sing_box_config_path;
    match read {
        Ok(raw) => {
            let parsed = parse_json(raw.as_str());
            proof {
                assert forall|config: serde_json::Value|
                    #[trigger] is_file_of(config, raw@) implies is_line_of(config, raw@) by {
                    lemma_encoding_is_injective(raw@, json_pretty(config)->Ok_0 + "\n"@);
                }
            }
            Ok(show_config(path, raw, parsed))
        },
        Err(failure) => if failure.not_found {
            Err(
                ApiError::not_found(
                    concat2("sing-box config not found: ", path.display().as_str()),
                ),
            )
        } else {
            Err(
                ApiError::internal(
                    describe_failure(
                        "failed to read sing-box config ",
                        path.display().as_str(),
                        &failure,
                    ),
                ),
            )
        },
    }
}

/// What is written into a file for a printed configuration, or why nothing is.
pub open spec fn file_contents(printed: Result<Seq<char>, Seq<char>>) -> Result<
    Seq<u8>,
    ApiErrorView,
> {
    match printed {
        Ok(text) => Ok(encode_utf8(text + "\n"@)),
        Err(error) => Err(bad_request("failed to serialize config payload: "@ + error)),
    }
}

/// The value of the model that the contents of a file stand for.
pub open spec fn contents_result(r: Result<Vec<u8>, ApiError>) -> Result<Seq<u8>, ApiErrorView> {
    match r {
        Ok(contents) => Ok(contents@),
        Err(error) => Err(error@),
    }
}

/// The contents of the file for a printed configuration.
pub fn frame_config(printed: Result<String, String>) -> (r: Result<Vec<u8>, ApiError>)
    ensures
        contents_result(r) == file_contents(printed_result(printed)),
{
    match printed {
        Ok(text) => {
            let mut text = text;
            text.append("\n");
            Ok(text.as_str().as_bytes_vec())
        },
        Err(error) => Err(
            ApiError::bad_request(
                concat2("failed to serialize config payload: ", error.as_str()),
            ),
        ),
    }
}

/// The contents of the file for a configuration that a client hands in. There always are some.
pub fn serialize_config(request: &UpdateConfigRequest) -> (r: Result<Vec<u8>, ApiError>)
    ensures
        contents_result(r) == file_contents(json_pretty(request.config)),
        r is Ok,
{
    frame_config(print_json(&request.config))
}

/// How the service is set up.
#[derive(Debug)]
pub struct HealthResponse {
    pub status: &'static str,
    pub listen_addr: String,
    pub config_source: String,
    pub sing_box_config_path: String,
    pub backups_dir: String,
    pub srs_dir: String,
}

/// Shows how the service is set up.
pub fn health(runtime_config: &RuntimeConfig) -> (r: HealthResponse)
    ensures
        r.status@ == "ok"@,
        r.listen_addr@ == runtime_config.settings@.listen_addr,
        r.config_source@ == source_text(runtime_config.config_source.deep_view()),
        r.sing_box_config_path@ == lossy_text(runtime_config.settings@.sing_box_config_path),
        r.backups_dir@ == lossy_text(runtime_config.settings@.backups_dir),
        r.srs_dir@ == lossy_text(runtime_config.settings@.srs_dir),
{
    let settings = &runtime_config.settings;
    HealthResponse {
        status: "ok",
        listen_addr: settings.listen_addr.clone(),
        config_source: crate::config::describe_config_source(
            runtime_config.config_source.as_ref(),
        ),
        sing_box_config_path: settings.sing_box_config_path.display(),
        backups_dir: settings.backups_dir.display(),
        srs_dir: settings.srs_dir.display(),
    }
}

/// The file that is written for a configuration is read back as the printed configuration and a
/// line end.
pub proof fn law_written_config_is_read_back(printed: Seq<char>)
    ensures
        vstd::utf8::valid_utf8(file_contents(Ok(printed))->Ok_0),
        vstd::utf8::decode_utf8(file_contents(Ok(printed))->Ok_0) == printed + "\n"@,
{
    vstd::utf8::encode_utf8_valid_utf8(printed + "\n"@);
    vstd::utf8::encode_utf8_decode_utf8(printed + "\n"@);
}

/// Whatever was parsed is shown: a JSON value as it is, or else the reason, and never both. The
/// text and the path are shown as they are.
pub proof fn law_parsed_config_is_shown(
    path: Seq<u8>,
    raw: Seq<char>,
    parsed: Result<serde_json::Value, Seq<char>>,
)
    ensures
        shown_config(path, raw, parsed).path == lossy_text(path),
        shown_config(path, raw, parsed).raw == raw,
        parsed matches Ok(value) ==> shown_config(path, raw, parsed).json == Some(value)
            && shown_config(path, raw, parsed).parse_error is None,
        parsed matches Err(error) ==> shown_config(path, raw, parsed).json is None && shown_config(
            path,
            raw,
            parsed,
        ).parse_error == Some(error),
{
}

/// A configuration file that could be read is always shown: its text as it is, and the JSON value
/// that the text is parsed to, or else the reason why it is none.
pub proof fn law_config_is_shown_as_it_is(path: Seq<u8>, raw: Seq<char>)
    ensures
        ({
            let shown = config_answer(path, Ok(raw))->Ok_0;
            &&& config_answer(path, Ok(raw)) is Ok
            &&& shown.path == lossy_text(path)
            &&& shown.raw == raw
            &&& json_parse(raw) matches Ok(value) ==> shown.json == Some(value)
                && shown.parse_error is None
            &&& json_parse(raw) matches Err(error) ==> shown.json is None && shown.parse_error
                == Some(error)
        }),
{
}

/// A configuration file that is missing is told as missing; any other failure to read it is an
/// error of the server that names the reason.
pub proof fn law_unreadable_config_is_reported(path: Seq<u8>, failure: IoFailureView)
    ensures
        ({
            let error = config_answer(path, Err(failure))->Err_0;
            &&& config_answer(path, Err(failure)) is Err
            &&& error.status == if failure.not_found {
                404
            } else {
                500int
            }
            &&& failure.not_found ==> error.message == "sing-box config not found: "@ + lossy_text(
                path,
            )
            &&& !failure.not_found ==> error.message == "failed to read sing-box config "@
                + lossy_text(path) + ": "@ + failure.message
        }),
{
}

/// A configuration is written exactly if it can be printed; else the client is told why.
pub proof fn law_unprintable_config_is_refused(printed: Result<Seq<char>, Seq<char>>)
    ensures
        file_contents(printed) is Ok <==> printed is Ok,
        printed matches Err(error) ==> {
            &&& file_contents(printed)->Err_0.status == 400
            &&& file_contents(printed)->Err_0.message == "failed to serialize config payload: "@
                + error
        },
{
}

} // verus!
