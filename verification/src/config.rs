//! The configuration of the service.
use crate::path::{is_absolute, join, law_joining, meaning, parent, UnixPath};
use crate::text::{concat2, is_core, law_trimming_leaves_the_core, text_eq, trim, trimmed};
use crate::utf8::lossy_text;
use vstd::prelude::*;
use vstd::string::StringExecFns;
use vstd::utf8::{decode_utf8, encode_utf8, valid_utf8};

verus! {

/// The name of the configuration file.
pub const CONFIG_FILE_NAME: &'static str = "config.toml";

/// The secret that is set where none is configured. The service does not start with it.
pub const DEFAULT_SECRET: &'static str = "changeme";

/// The address to listen on where none is configured.
pub const DEFAULT_LISTEN_ADDR: &'static str = "0.0.0.0:17118";

/// The `sing-box` configuration that is managed where none is configured.
pub const DEFAULT_SING_BOX_CONFIG_PATH: &'static str = "/etc/sing-box/config.json";

/// The directory of the backups where none is configured.
pub const DEFAULT_BACKUPS_DIR: &'static str = "/etc/sing-box/backups";

/// The directory of the `.srs` files where none is configured.
pub const DEFAULT_SRS_DIR: &'static str = "/etc/sing-box/srs";

/// The command that shows the state of `sing-box` where none is configured.
pub const DEFAULT_STATUS_COMMAND: &'static str = "systemctl status sing-box --no-pager";

/// The command that checks a configuration where none is configured.
pub const DEFAULT_CHECK_COMMAND: &'static str = "sing-box check -c {config_path}";

/// The command that restarts `sing-box` where none is configured.
pub const DEFAULT_RESTART_COMMAND: &'static str = "systemctl restart sing-box";

/// Why the service cannot be configured.
#[derive(Debug)]
pub struct ConfigError {
    pub message: String,
}

/// The settings of the service and where they come from.
#[derive(Clone, Debug)]
pub struct RuntimeConfig {
    pub settings: AppConfig,
    pub config_source: Option<UnixPath>,
}

/// The settings of the service.
#[derive(Clone, Debug)]
pub struct AppConfig {
    pub secret: String,
    pub listen_addr: String,
    pub sing_box_config_path: UnixPath,
    pub backups_dir: UnixPath,
    pub srs_dir: UnixPath,
    pub status_command: String,
    pub check_command: String,
    pub restart_command: String,
}

/// The settings that a configuration file holds.
#[derive(Debug)]
pub struct RawAppConfig {
    pub secret: Option<String>,
    pub listen_addr: Option<String>,
    pub sing_box_config_path: Option<UnixPath>,
    pub backups_dir: Option<UnixPath>,
    pub srs_dir: Option<UnixPath>,
    pub status_command: Option<String>,
    pub check_command: Option<String>,
    pub restart_command: Option<String>,
}

/// The settings of the service, as a value of the model.
pub struct AppConfigView {
    pub secret: Seq<char>,
    pub listen_addr: Seq<char>,
    pub sing_box_config_path: Seq<u8>,
    pub backups_dir: Seq<u8>,
    pub srs_dir: Seq<u8>,
    pub status_command: Seq<char>,
    pub check_command: Seq<char>,
    pub restart_command: Seq<char>,
}

/// The settings that a configuration file holds, as a value of the model.
pub struct RawAppConfigView {
    pub secret: Option<Seq<char>>,
    pub listen_addr: Option<Seq<char>>,
    pub sing_box_config_path: Option<Seq<u8>>,
    pub backups_dir: Option<Seq<u8>>,
    pub srs_dir: Option<Seq<u8>>,
    pub status_command: Option<Seq<char>>,
    pub check_command: Option<Seq<char>>,
    pub restart_command: Option<Seq<char>>,
}

impl View for AppConfig {
    type V = AppConfigView;

    open spec fn view(&self) -> AppConfigView {
        AppConfigView {
            secret: self.secret@,
            listen_addr: self.listen_addr@,
            sing_box_config_path: self.sing_box_config_path@,
            backups_dir: self.backups_dir@,
            srs_dir: self.srs_dir@,
            status_command: self.status_command@,
            check_command: self.check_command@,
            restart_command: self.restart_command@,
        }
    }
}

impl View for RawAppConfig {
    type V = RawAppConfigView;

    open spec fn view(&self) -> RawAppConfigView {
        RawAppConfigView {
            secret: self.secret.deep_view(),
            listen_addr: self.listen_addr.deep_view(),
            sing_box_config_path: self.sing_box_config_path.deep_view(),
            backups_dir: self.backups_dir.deep_view(),
            srs_dir: self.srs_dir.deep_view(),
            status_command: self.status_command.deep_view(),
            check_command: self.check_command.deep_view(),
            restart_command: self.restart_command.deep_view(),
        }
    }
}

/// A configuration file that sets nothing.
pub open spec fn nothing_set() -> RawAppConfigView {
    RawAppConfigView {
        secret: None,
        listen_addr: None,
        sing_box_config_path: None,
        backups_dir: None,
        srs_dir: None,
        status_command: None,
        check_command: None,
        restart_command: None,
    }
}

/// A configured text, or else its default.
pub open spec fn text_or(set: Option<Seq<char>>, default: Seq<char>) -> Seq<char> {
    match set {
        Some(value) => value,
        None => default,
    }
}

/// A path taken relative to the directory of the configuration file, where there is one.
pub open spec fn resolved(path: Seq<u8>, config_dir: Option<Seq<u8>>) -> Seq<u8> {
    match config_dir {
        Some(dir) => join(dir, path),
        None => path,
    }
}

/// A configured path, or else its default, taken relative to the configuration file.
pub open spec fn path_or(
    set: Option<Seq<u8>>,
    default: Seq<char>,
    config_dir: Option<Seq<u8>>,
) -> Seq<u8> {
    resolved(
        match set {
            Some(path) => path,
            None => encode_utf8(default),
        },
        config_dir,
    )
}

/// The settings that follow from a configuration file in the directory `config_dir`.
pub open spec fn finalized(
    raw: RawAppConfigView,
    config_dir: Option<Seq<u8>>,
) -> AppConfigView {
    AppConfigView {
        secret: text_or(raw.secret, DEFAULT_SECRET@),
        listen_addr: text_or(raw.listen_addr, DEFAULT_LISTEN_ADDR@),
        sing_box_config_path: path_or(
            raw.sing_box_config_path,
            DEFAULT_SING_BOX_CONFIG_PATH@,
            config_dir,
        ),
        backups_dir: path_or(raw.backups_dir, DEFAULT_BACKUPS_DIR@, config_dir),
        srs_dir: path_or(raw.srs_dir, DEFAULT_SRS_DIR@, config_dir),
        status_command: text_or(raw.status_command, DEFAULT_STATUS_COMMAND@),
        check_command: text_or(raw.check_command, DEFAULT_CHECK_COMMAND@),
        restart_command: text_or(raw.restart_command, DEFAULT_RESTART_COMMAND@),
    }
}

/// How the origin of the settings is shown.
pub open spec fn source_text(source: Option<Seq<u8>>) -> Seq<char> {
    match source {
        Some(path) => lossy_text(path),
        None => "defaults (create "@ + CONFIG_FILE_NAME@ + " next to the binary)"@,
    }
}

/// Whether a secret keeps out those who do not know it: it is neither blank nor the default.
pub open spec fn is_secure(secret: Seq<char>) -> bool {
    trimmed(secret).len() > 0 && trimmed(secret) != DEFAULT_SECRET@
}

impl Default for RawAppConfig {
    fn default() -> (r: RawAppConfig)
        ensures
            r@ == nothing_set(),
    {
        RawAppConfig {
            secret: None,
            listen_addr: None,
            sing_box_config_path: None,
            backups_dir: None,
            srs_dir: None,
            status_command: None,
            check_command: None,
            restart_command: None,
        }
    }
}

/// A configured text, or else its default.
fn text_or_default(set: Option<String>, default: &str) -> (r: String)
    ensures
        r@ == text_or(set.deep_view(), default@),
{
    match set {
        Some(value) => value,
        None => default.to_owned(),
    }
}

/// A configured path, or else its default, taken relative to the configuration file.
fn path_or_default(
    set: Option<UnixPath>,
    default: &str,
    config_dir: Option<&UnixPath>,
) -> (r: UnixPath)
    ensures
        r@ == path_or(set.deep_view(), default@, config_dir.deep_view()),
{
    let path = match set {
        Some(path) => path,
        None => UnixPath::new(default),
    };
    resolve_path(path, config_dir)
}

/// Takes a path relative to the directory of the configuration file, where there is one.
pub fn resolve_path(path: UnixPath, config_dir: Option<&UnixPath>) -> (r: UnixPath)
    ensures
        r@ == resolved(path@, config_dir.deep_view()),
{
    if path.is_absolute() {
        path
    } else if let Some(base) = config_dir {
        base.join(&path)
    } else {
        path
    }
}

impl RawAppConfig {
    /// The settings that follow from this configuration file, which stands in `config_dir`.
    pub fn finalize(self, config_dir: Option<&UnixPath>) -> (r: AppConfig)
        ensures
            r@ == finalized(self@, config_dir.deep_view()),
    {
        AppConfig {
            secret: text_or_default(self.secret, DEFAULT_SECRET),
            listen_addr: text_or_default(self.listen_addr, DEFAULT_LISTEN_ADDR),
            sing_box_config_path: path_or_default(
                self.sing_box_config_path,
                DEFAULT_SING_BOX_CONFIG_PATH,
                config_dir,
            ),
            backups_dir: path_or_default(self.backups_dir, DEFAULT_BACKUPS_DIR, config_dir),
            srs_dir: path_or_default(self.srs_dir, DEFAULT_SRS_DIR, config_dir),
            status_command: text_or_default(self.status_command, DEFAULT_STATUS_COMMAND),
            check_command: text_or_default(self.check_command, DEFAULT_CHECK_COMMAND),
            restart_command: text_or_default(self.restart_command, DEFAULT_RESTART_COMMAND),
        }
    }
}

/// The settings of the service that follow from what was read: a configuration file and the
/// settings it holds, or nothing.
pub fn load_runtime_config(read: Option<(UnixPath, RawAppConfig)>) -> (r: RuntimeConfig)
    ensures
        read matches Some((path, raw)) ==> {
            &&& r.settings@ == finalized(raw@, parent(path@))
            &&& r.config_source.deep_view() == Some(path@)
        },
        read is None ==> {
            &&& r.settings@ == finalized(nothing_set(), None)
            &&& r.config_source is None
        },
{
    match read {
        Some((path, raw)) => {
            let dir = path.parent();
            let settings = match &dir {
                Some(dir) => raw.finalize(Some(dir)),
                None => raw.finalize(None),
            };
            RuntimeConfig { settings, config_source: Some(path) }
        },
        None => RuntimeConfig {
            settings: RawAppConfig::default().finalize(None),
            config_source: None,
        },
    }
}

/// Refuses settings whose secret is blank or the default one.
pub fn ensure_secure_secret(runtime_config: &RuntimeConfig) -> (r: Result<(), ConfigError>)
    ensures
        r is Ok <==> is_secure(runtime_config.settings.secret@),
        r matches Err(error) ==> error.message@
            == "refusing to start with insecure secret. Set a strong 'secret' in "@ + source_text(
            runtime_config.config_source.deep_view(),
        ),
{
    let secret = trim(runtime_config.settings.secret.as_str());
    if secret.is_empty() || text_eq(secret, DEFAULT_SECRET) {
        let source = describe_config_source(runtime_config.config_source.as_ref());
        return Err(
            ConfigError {
                message: concat2(
                    "refusing to start with insecure secret. Set a strong 'secret' in ",
                    source.as_str(),
                ),
            },
        );
    }
    Ok(())
}

/// Shows where the settings come from.
pub fn describe_config_source(source: Option<&UnixPath>) -> (r: String)
    ensures
        r@ == source_text(source.deep_view()),
        source matches Some(path) ==> (valid_utf8(path@) ==> r@ == decode_utf8(path@)),
{
    match source {
        Some(path) => path.display(),
        None => {
            let mut text = concat2("defaults (create ", CONFIG_FILE_NAME);
            text.append(" next to the binary)");
            text
        },
    }
}

/// Where a configuration file may stand, in the order in which the places are looked at: next
/// to the program, then in the working directory unless that is the same place.
pub open spec fn candidates(exe_dir: Seq<u8>, cwd: Seq<u8>) -> Seq<Seq<u8>> {
    let name = encode_utf8(CONFIG_FILE_NAME@);
    if meaning(join(cwd, name)) == meaning(join(exe_dir, name)) {
        seq![join(exe_dir, name)]
    } else {
        seq![join(exe_dir, name), join(cwd, name)]
    }
}

/// The directory of the program `exe`.
pub fn executable_dir(exe: &UnixPath) -> (r: Result<UnixPath, ConfigError>)
    ensures
        r is Ok <==> parent(exe@) is Some,
        r matches Ok(dir) ==> parent(exe@) == Some(dir@),
        r matches Err(error) ==> error.message@ == "failed to determine executable directory"@,
{
    match exe.parent() {
        Some(dir) => Ok(dir),
        None => Err(
            ConfigError { message: "failed to determine executable directory".to_owned() },
        ),
    }
}

/// Where the configuration file of a program in `exe_dir` may stand.
pub fn config_candidates(exe_dir: &UnixPath, cwd: &UnixPath) -> (r: Vec<UnixPath>)
    ensures
        r.deep_view() == candidates(exe_dir@, cwd@),
{
    let name = UnixPath::new(CONFIG_FILE_NAME);
    let first = exe_dir.join(&name);
    let second = cwd.join(&name);
    let same = second.same_as(&first);
    let mut paths: Vec<UnixPath> = Vec::new();
    paths.push(first);
    if !same {
        paths.push(second);
    }
    assert(paths.deep_view() =~= candidates(exe_dir@, cwd@));
    paths
}

/// Whether the candidate at `i` is the first one that is there.
pub open spec fn is_first_present(present: Seq<bool>, i: int) -> bool {
    0 <= i < present.len() && present[i] && forall|k: int| 0 <= k < i ==> !present[k]
}

/// Picks the first candidate that is there. `present` tells of each candidate, in order,
/// whether it is; a candidate of which nothing is told is not.
pub fn locate_config_file(paths: &Vec<UnixPath>, present: &Vec<bool>) -> (r: Option<UnixPath>)
    ensures
        r is None <==> forall|k: int| 0 <= k < paths.len() && k < present.len() ==> !present[k],
        r matches Some(path) ==> exists|i: int|
            0 <= i < paths.len() && #[trigger] is_first_present(present@, i) && path@ == paths[i]@,
        r matches Some(path) ==> exists|i: int|
            {
                &&& 0 <= i < paths.len() && i < present.len()
                &&& #[trigger] present[i]
                &&& path@ == paths[i]@
                &&& forall|k: int| 0 <= k < i ==> !present[k]
            },
{
    let mut i: usize = 0;
    while i < paths.len() && i < present.len()
        invariant
            i <= paths.len(),
            i <= present.len(),
            forall|k: int| 0 <= k < i ==> !present[k],
        decreases paths.len() - i,
    {
        if present[i] {
            assert(is_first_present(present@, i as int));
            return Some(paths[i].copy());
        }
        i = i + 1;
    }
    None
}

/// Without a configuration file the service does not start.
pub proof fn law_defaults_are_refused()
    ensures
        !is_secure(finalized(nothing_set(), None).secret),
{
    reveal_strlit("changeme");
    assert(trimmed(DEFAULT_SECRET@) == DEFAULT_SECRET@) by {
        reveal_with_fuel(trimmed, 2);
    }
}

/// The settings of a configuration file in an absolute directory hold absolute paths only.
pub proof fn law_settings_hold_absolute_paths(raw: RawAppConfigView, config_dir: Seq<u8>)
    requires
        is_absolute(config_dir),
    ensures
        is_absolute(finalized(raw, Some(config_dir)).sing_box_config_path),
        is_absolute(finalized(raw, Some(config_dir)).backups_dir),
        is_absolute(finalized(raw, Some(config_dir)).srs_dir),
{
}

/// An absolute path is kept as it is, wherever the configuration file stands.
pub proof fn law_absolute_paths_are_kept(path: Seq<u8>, config_dir: Option<Seq<u8>>)
    requires
        is_absolute(path),
    ensures
        resolved(path, config_dir) == path,
{
}

/// A text that the configuration file sets is used as it is; else there is a default.
pub proof fn law_set_texts_are_used(raw: RawAppConfigView, config_dir: Option<Seq<u8>>)
    ensures
        ({
            let settings = finalized(raw, config_dir);
            &&& raw.secret matches Some(text) ==> settings.secret == text
            &&& raw.listen_addr matches Some(text) ==> settings.listen_addr == text
            &&& raw.status_command matches Some(text) ==> settings.status_command == text
            &&& raw.check_command matches Some(text) ==> settings.check_command == text
            &&& raw.restart_command matches Some(text) ==> settings.restart_command == text
            &&& raw.secret is None ==> settings.secret == "changeme"@
            &&& raw.listen_addr is None ==> settings.listen_addr == "0.0.0.0:17118"@
            &&& raw.status_command is None ==> settings.status_command
                == "systemctl status sing-box --no-pager"@
            &&& raw.check_command is None ==> settings.check_command
                == "sing-box check -c {config_path}"@
            &&& raw.restart_command is None ==> settings.restart_command
                == "systemctl restart sing-box"@
        }),
{
}

/// Whether `path` is what `given` leads to from the directory `config_dir`: `given` itself where it
/// starts with a separator or there is no such directory, and else the directory, a separator where
/// it does not end in one, and `given`.
pub open spec fn leads_to(given: Seq<u8>, config_dir: Option<Seq<u8>>, path: Seq<u8>) -> bool {
    match config_dir {
        Some(dir) if !(given.len() > 0 && given[0] == 47u8) => if dir.len() == 0 || dir.last()
            == 47u8 {
            path == dir + given
        } else {
            path == dir + seq![47u8] + given
        },
        _ => path == given,
    }
}

/// A path that the configuration file sets is taken relative to the directory of the file; else
/// there is a default.
pub proof fn law_set_paths_follow_the_file(raw: RawAppConfigView, config_dir: Option<Seq<u8>>)
    ensures
        ({
            let settings = finalized(raw, config_dir);
            &&& raw.sing_box_config_path matches Some(given) ==> leads_to(
                given,
                config_dir,
                settings.sing_box_config_path,
            )
            &&& raw.backups_dir matches Some(given) ==> leads_to(
                given,
                config_dir,
                settings.backups_dir,
            )
            &&& raw.srs_dir matches Some(given) ==> leads_to(given, config_dir, settings.srs_dir)
            &&& raw.sing_box_config_path is None ==> settings.sing_box_config_path == encode_utf8(
                "/etc/sing-box/config.json"@,
            )
            &&& raw.backups_dir is None ==> settings.backups_dir == encode_utf8(
                "/etc/sing-box/backups"@,
            )
            &&& raw.srs_dir is None ==> settings.srs_dir == encode_utf8("/etc/sing-box/srs"@)
        }),
{
    if let Some(dir) = config_dir {
        if let Some(given) = raw.sing_box_config_path {
            law_joining(dir, given);
        }
        if let Some(given) = raw.backups_dir {
            law_joining(dir, given);
        }
        if let Some(given) = raw.srs_dir {
            law_joining(dir, given);
        }
        reveal_strlit("/etc/sing-box/config.json");
        reveal_strlit("/etc/sing-box/backups");
        reveal_strlit("/etc/sing-box/srs");
        lemma_starts_with_separator("/etc/sing-box/config.json"@);
        lemma_starts_with_separator("/etc/sing-box/backups"@);
        lemma_starts_with_separator("/etc/sing-box/srs"@);
    }
}

/// A text that starts with a slash is an absolute path.
proof fn lemma_starts_with_separator(text: Seq<char>)
    requires
        text.len() > 0,
        text[0] == '/',
    ensures
        is_absolute(encode_utf8(text)),
{
    vstd::utf8::encode_utf8_first_scalar(text);
    let head = vstd::utf8::encode_scalar('/' as u32);
    vstd::utf8::is_ascii_chars_encode_utf8(seq!['/']);
    assert(seq!['/'].drop_first() =~= Seq::empty());
    assert(seq!['/'][0] == '/');
    assert(encode_utf8(seq!['/']) =~= head);
    assert(encode_utf8(text) == head + encode_utf8(text.drop_first()));
}

/// A secret is refused exactly if nothing but white space is left of it, or, without the white
/// space at its ends, it is the default one.
pub proof fn law_blank_and_default_secrets_are_refused(secret: Seq<char>, from: int, to: int)
    requires
        is_core(secret, from, to),
    ensures
        is_secure(secret) <==> from < to && secret.subrange(from, to) != "changeme"@,
{
    law_trimming_leaves_the_core(secret, from, to);
}

/// Where the settings come from is told by the path of the file, or that there is none.
pub proof fn law_source_is_told(path: Seq<u8>)
    ensures
        source_text(Some(path)) == lossy_text(path),
        source_text(None) == "defaults (create config.toml next to the binary)"@,
{
    reveal_strlit("defaults (create ");
    reveal_strlit("config.toml");
    reveal_strlit(" next to the binary)");
    reveal_strlit("defaults (create config.toml next to the binary)");
    assert(source_text(None) =~= "defaults (create config.toml next to the binary)"@);
}

/// The configuration file is looked for next to the program first, and then in the working
/// directory, unless that is the same place.
pub proof fn law_program_directory_comes_first(exe_dir: Seq<u8>, cwd: Seq<u8>)
    ensures
        ({
            let places = candidates(exe_dir, cwd);
            let name = encode_utf8("config.toml"@);
            &&& places.len() == 1 || places.len() == 2
            &&& leads_to(name, Some(exe_dir), places[0])
            &&& places.len() == 2 ==> leads_to(name, Some(cwd), places[1]) && meaning(places[1])
                != meaning(places[0])
            &&& places.len() == 1 ==> meaning(join(cwd, name)) == meaning(places[0])
        }),
{
    let name = encode_utf8("config.toml"@);
    reveal_strlit("config.toml");
    vstd::utf8::is_ascii_chars_encode_utf8("config.toml"@);
    assert("config.toml"@[0] == 'c');
    assert(name[0] == 99u8);
    law_joining(exe_dir, name);
    law_joining(cwd, name);
}

} // verus!
