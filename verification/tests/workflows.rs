use sing_box_config_api::check::{build_temp_check_path, Check};
use sing_box_config_api::clock::Timestamp;
use sing_box_config_api::config::{load_runtime_config, AppConfig, RawAppConfig};
use sing_box_config_api::document::{get_config, UpdateConfigRequest};
use sing_box_config_api::download::{Download, DownloadSrsRequest};
use sing_box_config_api::error::{ApiError, HttpStatus};
use sing_box_config_api::io::{Action, CommandOutput, Event, FileMetadata, IoFailure, Step};
use sing_box_config_api::listing::{
    candidate_from_path, into_entries, place, Candidate, FileEntry, FileList, ListFiles, ListKind,
};
use sing_box_config_api::path::UnixPath;
use sing_box_config_api::restore::{Restore, RestoreBackupResponse};
use sing_box_config_api::service::ServiceCommand;
use sing_box_config_api::snapshot::Snapshot;
use sing_box_config_api::update::{Update, UpdateConfigResponse};
use std::collections::{BTreeMap, BTreeSet};

const BACKUP: &str = "config-20260415-185504-710.json";

struct Memory {
    files: BTreeMap<String, (Vec<u8>, Option<(i64, u32)>)>,
    dirs: BTreeSet<String>,
    now: (i64, u32),
    open: Vec<UnixPath>,
    upstream: (u16, Vec<u8>),
    log: Vec<String>,
    failing: &'static str,
}

fn failure() -> IoFailure {
    IoFailure { not_found: false, message: "disk error".to_string() }
}

fn missing() -> IoFailure {
    IoFailure { not_found: true, message: "not there".to_string() }
}

impl Memory {
    fn new() -> Memory {
        let mut memory = Memory {
            files: BTreeMap::new(),
            dirs: BTreeSet::new(),
            now: (1_776_300_000, 5_000_000),
            open: Vec::new(),
            upstream: (200, b"srs-bytes".to_vec()),
            log: Vec::new(),
            failing: "",
        };
        memory.dirs.insert("/root/backups".to_string());
        memory.dirs.insert("/root/srs".to_string());
        memory.put("/root/config.json", "{\"before\":true}\n", 10);
        memory.put(&format!("/root/backups/{BACKUP}"), "{\"restored\":true}\n", 20);
        memory.put("/root/srs/ruleset.srs", "srs-bytes", 30);
        memory.put("/root/srs/ignore.txt", "ignore", 40);
        memory
    }

    fn put(&mut self, path: &str, contents: &str, secs: i64) {
        self.files.insert(path.to_string(), (contents.as_bytes().to_vec(), Some((secs, 0))));
    }

    fn text(&self, path: &str) -> Option<String> {
        self.files.get(path).map(|(bytes, _)| String::from_utf8(bytes.clone()).expect("text"))
    }

    fn holds(&self, path: &str) -> bool {
        self.files.contains_key(path) || self.dirs.contains(path)
    }

    fn perform(&mut self, action: Action) -> Event {
        let entry = match &action {
            Action::CheckExists { path } => format!("exists {}", path.display()),
            Action::CreateDirs { path } => format!("mkdir {}", path.display()),
            Action::ReadClock => "clock".to_string(),
            Action::CopyFile { from, to } => format!("copy {} {}", from.display(), to.display()),
            Action::ReadFile { path } => format!("read {}", path.display()),
            Action::WriteFile { path, .. } => format!("write {}", path.display()),
            Action::RemoveFile { path } => format!("remove {}", path.display()),
            Action::ReadMetadata { path } => format!("metadata {}", path.display()),
            Action::OpenDir { path } => format!("open {}", path.display()),
            Action::NextEntry => "next".to_string(),
            Action::CheckIsFile { path } => format!("is-file {}", path.display()),
            Action::RunProgram { program, args } => format!("run {} {}", program, args.join(" ")),
            Action::Fetch { url } => format!("fetch {url}"),
            Action::ReadBody => "body".to_string(),
        };
        let fails = !self.failing.is_empty() && entry.starts_with(self.failing);
        self.log.push(entry);
        match action {
            Action::CheckExists { path } => Event::Found(if fails {
                Err(failure())
            } else {
                Ok(self.holds(&path.display()))
            }),
            Action::CreateDirs { path } => Event::Done(if fails {
                Err(failure())
            } else {
                self.dirs.insert(path.display());
                Ok(())
            }),
            Action::ReadClock => {
                Event::Time(Timestamp::new(self.now.0, self.now.1).expect("time"))
            }
            Action::CopyFile { from, to } => {
                Event::Done(match self.files.get(&from.display()).cloned() {
                    Some(file) if !fails => {
                        self.files.insert(to.display(), (file.0, Some(self.now)));
                        Ok(())
                    }
                    _ => Err(failure()),
                })
            }
            Action::ReadFile { path } => {
                Event::Contents(match self.files.get(&path.display()) {
                    Some(file) if !fails => Ok(file.0.clone()),
                    _ => Err(failure()),
                })
            }
            Action::WriteFile { path, contents } => Event::Done(if fails {
                Err(failure())
            } else {
                self.files.insert(path.display(), (contents, Some(self.now)));
                Ok(())
            }),
            Action::RemoveFile { path } => {
                Event::Done(if fails || self.files.remove(&path.display()).is_none() {
                    Err(failure())
                } else {
                    Ok(())
                })
            }
            Action::ReadMetadata { path } => {
                Event::Metadata(match self.files.get(&path.display()) {
                    Some(file) if !fails => Ok(FileMetadata {
                        len: file.0.len() as u64,
                        modified: file.1.map(|t| Timestamp::new(t.0, t.1).expect("time")),
                    }),
                    _ => Err(failure()),
                })
            }
            Action::OpenDir { path } => Event::Done(if fails {
                Err(failure())
            } else {
                let inside = format!("{}/", path.display());
                let mut open: Vec<UnixPath> = Vec::new();
                for name in self.files.keys() {
                    if name.starts_with(&inside) {
                        open.push(UnixPath::new(name));
                    }
                }
                for name in &self.dirs {
                    if name.starts_with(&inside) {
                        open.push(UnixPath::new(name));
                    }
                }
                self.open = open;
                Ok(())
            }),
            Action::NextEntry => Event::Entry(if fails {
                Err(failure())
            } else if self.open.is_empty() {
                Ok(None)
            } else {
                Ok(Some(self.open.remove(0)))
            }),
            Action::CheckIsFile { path } => Event::Found(if fails {
                Err(failure())
            } else {
                Ok(self.files.contains_key(&path.display()))
            }),
            Action::RunProgram { args, .. } => Event::Output(if fails {
                Err(missing())
            } else {
                let seen = args.last().and_then(|path| self.text(path));
                Ok(CommandOutput {
                    success: true,
                    exit_code: Some(0),
                    stdout: seen.unwrap_or_default().into_bytes(),
                    stderr: Vec::new(),
                })
            }),
            Action::Fetch { .. } => Event::Status(if fails {
                Err(failure())
            } else {
                Ok(HttpStatus::new(self.upstream.0).expect("status"))
            }),
            Action::ReadBody => Event::Contents(if fails {
                Err(failure())
            } else {
                Ok(self.upstream.1.clone())
            }),
        }
    }

    fn run<S, R>(
        &mut self,
        first: Step<Action, S, R, ApiError>,
        next: impl Fn(S, Event) -> Step<Action, S, R, ApiError>,
    ) -> Result<R, ApiError> {
        let mut step = first;
        loop {
            match step {
                Step::Perform { action, state } => {
                    let event = self.perform(action);
                    step = next(state, event);
                }
                Step::Finish { response } => return Ok(response),
                Step::Fail { error } => return Err(error),
            }
        }
    }
}

fn settings() -> AppConfig {
    let raw = RawAppConfig {
        secret: Some("secret".to_string()),
        listen_addr: Some("127.0.0.1:17118".to_string()),
        sing_box_config_path: Some(UnixPath::new("/root/config.json")),
        backups_dir: Some(UnixPath::new("/root/backups")),
        srs_dir: Some(UnixPath::new("/root/srs")),
        status_command: Some("true".to_string()),
        check_command: Some("true".to_string()),
        restart_command: Some("true".to_string()),
    };
    load_runtime_config(Some((UnixPath::new("/root/config.toml"), raw))).settings
}

fn request() -> UpdateConfigRequest {
    UpdateConfigRequest { config: serde_json::Value::Bool(true) }
}

fn backup(memory: &mut Memory) -> Result<FileEntry, ApiError> {
    let settings = settings();
    memory.run(Snapshot::start(&settings), |state, event| state.next(&settings, event))
}

fn update(memory: &mut Memory) -> Result<UpdateConfigResponse, ApiError> {
    let settings = settings();
    memory.run(Update::start(&settings), |state, event| state.next(&settings, &request(), event))
}

fn restore(memory: &mut Memory, name: &str) -> Result<RestoreBackupResponse, ApiError> {
    let settings = settings();
    memory.run(Restore::start(&settings, name), |state, event| state.next(&settings, event))
}

fn list(memory: &mut Memory, kind: ListKind) -> Result<FileList, ApiError> {
    let settings = settings();
    memory.run(ListFiles::start(&kind, &settings), |state, event| {
        state.next(&kind, &settings, event)
    })
}

fn names(list: &FileList) -> Vec<&str> {
    list.entries.iter().map(|entry| entry.name.as_str()).collect()
}

const STAMPED: &str = "config-20260416-004000-005.json";

#[test]
fn restore_accepts_dot_json_backup_names() {
    let mut memory = Memory::new();
    let response = restore(&mut memory, BACKUP).expect("restored");
    assert_eq!(response.restored_from.name, BACKUP);
    assert_eq!(response.restored_from.path, format!("/root/backups/{BACKUP}"));
    assert_eq!(response.restored_from.size_bytes, 18);
    assert_eq!(response.restored_from.modified_at, "1970-01-01T00:00:20+00:00");
    let previous = response.previous_config_backup.expect("previous");
    assert_eq!(previous.name, STAMPED);
    assert_eq!(memory.text("/root/config.json").as_deref(), Some("{\"restored\":true}\n"));
    assert_eq!(
        memory.text(&format!("/root/backups/{STAMPED}")).as_deref(),
        Some("{\"before\":true}\n")
    );
}

#[test]
fn restore_of_a_missing_backup_is_not_found() {
    let mut memory = Memory::new();
    let error = restore(&mut memory, "missing.json").expect_err("missing");
    let (status, body) = error.into_response();
    assert_eq!(status, 404);
    assert_eq!(body.error, "backup not found: /root/backups/missing.json");
    assert_eq!(memory.log, vec!["exists /root/backups/missing.json"]);
}

#[test]
fn restore_refuses_other_paths_at_once() {
    let mut memory = Memory::new();
    let error = restore(&mut memory, "../config.json").expect_err("refused");
    assert_eq!(error.status.code(), 400);
    assert_eq!(error.message, "backup name must not contain path separators");
    assert!(memory.log.is_empty());
}

#[test]
fn restore_goes_step_by_step() {
    let mut memory = Memory::new();
    restore(&mut memory, BACKUP).expect("restored");
    assert_eq!(
        memory.log,
        vec![
            format!("exists /root/backups/{BACKUP}"),
            "exists /root/config.json".to_string(),
            "exists /root/config.json".to_string(),
            "mkdir /root/backups".to_string(),
            "clock".to_string(),
            format!("copy /root/config.json /root/backups/{STAMPED}"),
            format!("metadata /root/backups/{STAMPED}"),
            "mkdir /root".to_string(),
            format!("read /root/backups/{BACKUP}"),
            "write /root/config.json".to_string(),
            format!("metadata /root/backups/{BACKUP}"),
        ]
    );
}

#[test]
fn restore_without_a_config_makes_no_backup() {
    let mut memory = Memory::new();
    memory.files.remove("/root/config.json");
    let response = restore(&mut memory, BACKUP).expect("restored");
    assert!(response.previous_config_backup.is_none());
    assert_eq!(memory.text("/root/config.json").as_deref(), Some("{\"restored\":true}\n"));
}

#[test]
fn restore_reports_each_failure() {
    let cases = [
        ("exists /root/backups", format!("failed to check backup presence /root/backups/{BACKUP}")),
        ("exists /root/config", "failed to check current config presence /root/config.json".to_string()),
        ("mkdir /root/backups", "failed to create backups directory /root/backups".to_string()),
        ("copy", format!("failed to create backup /root/backups/{STAMPED}")),
        ("metadata", format!("failed to read metadata for /root/backups/{STAMPED}")),
        ("read", format!("failed to read backup /root/backups/{BACKUP}")),
        (
            "write",
            format!("failed to restore backup /root/backups/{BACKUP} to /root/config.json"),
        ),
    ];
    for (failing, message) in cases {
        let mut memory = Memory::new();
        memory.failing = failing;
        let error = restore(&mut memory, BACKUP).expect_err(failing);
        assert_eq!(error.status.code(), 500);
        assert_eq!(error.message, format!("{message}: disk error"));
        assert_eq!(memory.text("/root/config.json").as_deref(), Some("{\"before\":true}\n"));
    }
    let mut memory = Memory::new();
    memory.files.remove("/root/config.json");
    memory.failing = "mkdir /root";
    let error = restore(&mut memory, BACKUP).expect_err("mkdir");
    assert_eq!(error.message, "failed to create config directory /root: disk error");
}

#[test]
fn update_backs_up_and_writes() {
    let mut memory = Memory::new();
    let response = update(&mut memory).expect("updated");
    assert_eq!(response.path, "/root/config.json");
    let entry = response.backup.expect("backup");
    assert_eq!(entry.name, STAMPED);
    assert_eq!(entry.path, format!("/root/backups/{STAMPED}"));
    assert_eq!(entry.size_bytes, 16);
    assert_eq!(entry.modified_at, "2026-04-16T00:40:00.005+00:00");
    assert_eq!(memory.text("/root/config.json").as_deref(), Some("true\n"));
    assert_eq!(memory.text(&entry.path).as_deref(), Some("{\"before\":true}\n"));
    assert_eq!(memory.log.len(), 8);
}

#[test]
fn update_is_shown_afterwards() {
    let mut memory = Memory::new();
    update(&mut memory).expect("updated");
    let raw = memory.text("/root/config.json").expect("config");
    let shown = get_config(&settings(), Ok(raw)).expect("shown");
    assert_eq!(shown.raw, "true\n");
    assert_eq!(shown.json, Some(serde_json::Value::Bool(true)));
}

#[test]
fn restore_undoes_update() {
    let mut memory = Memory::new();
    let entry = update(&mut memory).expect("updated").backup.expect("backup");
    memory.now.0 += 1;
    restore(&mut memory, &entry.name).expect("restored");
    assert_eq!(memory.text("/root/config.json").as_deref(), Some("{\"before\":true}\n"));
}

#[test]
fn restore_brings_an_old_backup_back() {
    let mut memory = Memory::new();
    let entry = backup(&mut memory).expect("backup");
    for _ in 0..3 {
        memory.now.0 += 1;
        update(&mut memory).expect("updated");
    }
    memory.now.0 += 1;
    restore(&mut memory, BACKUP).expect("restored");
    memory.now.0 += 1;
    let response = restore(&mut memory, &entry.name).expect("restored");
    assert_eq!(response.restored_from.size_bytes, 16);
    assert_eq!(memory.text("/root/config.json").as_deref(), Some("{\"before\":true}\n"));
    assert_eq!(memory.text(&entry.path).as_deref(), Some("{\"before\":true}\n"));
    assert!(memory.dirs.contains("/root") && memory.dirs.contains("/root/backups"));
}

#[test]
fn backups_that_were_made_are_listed() {
    let mut memory = Memory::new();
    let entry = backup(&mut memory).expect("backup");
    memory.now.0 += 1;
    update(&mut memory).expect("updated");
    let files = list(&mut memory, ListKind::Backups).expect("list");
    assert_eq!(files.entries.len(), 3);
    assert_eq!(files.entries[1].name, entry.name);
    assert_eq!(files.entries[1].path, entry.path);
    assert_eq!(files.entries[1].size_bytes, entry.size_bytes);
    assert_eq!(files.entries[2].name, BACKUP);
}

#[test]
fn a_failed_backup_leaves_the_config_in_place() {
    for failing in ["mkdir /root/backups", "copy", "metadata"] {
        let mut memory = Memory::new();
        memory.failing = failing;
        let before = memory.files.clone();
        update(&mut memory).expect_err(failing);
        assert!(restore(&mut memory, BACKUP).is_err());
        for (path, file) in before {
            assert_eq!(memory.files.get(&path), Some(&file));
        }
    }
}

#[test]
fn lists_only_read() {
    let mut memory = Memory::new();
    let before = memory.files.clone();
    list(&mut memory, ListKind::Backups).expect("list");
    list(&mut memory, ListKind::Srs).expect("list");
    assert_eq!(memory.files, before);
    for entry in &memory.log {
        let reads = ["exists", "open", "next", "is-file", "metadata"];
        assert!(reads.iter().any(|word| entry.starts_with(word)), "{entry}");
    }
}

#[test]
fn update_without_a_config_makes_no_backup() {
    let mut memory = Memory::new();
    memory.files.remove("/root/config.json");
    let response = update(&mut memory).expect("updated");
    assert!(response.backup.is_none());
    assert_eq!(
        memory.log,
        vec!["mkdir /root", "exists /root/config.json", "write /root/config.json"]
    );
}

#[test]
fn update_reports_each_failure_and_keeps_the_config() {
    let cases = [
        ("mkdir /root", "failed to create config directory /root"),
        ("exists", "failed to check config presence /root/config.json"),
        ("mkdir /root/backups", "failed to create backups directory /root/backups"),
        ("copy", "failed to create backup /root/backups/config-20260416-004000-005.json"),
        ("metadata", "failed to read metadata for /root/backups/config-20260416-004000-005.json"),
        ("write", "failed to write sing-box config /root/config.json"),
    ];
    for (failing, message) in cases {
        let mut memory = Memory::new();
        memory.failing = failing;
        let error = update(&mut memory).expect_err(failing);
        assert_eq!(error.status.code(), 500);
        assert_eq!(error.message, format!("{message}: disk error"));
        assert_eq!(memory.text("/root/config.json").as_deref(), Some("{\"before\":true}\n"));
    }
}

#[test]
fn update_that_cannot_be_written_down_is_refused() {
    let refused = ApiError::bad_request("no".to_string());
    match Update::write_config(&settings(), Err(refused), None) {
        Step::Fail { error } => assert_eq!(error.message, "no"),
        _ => panic!("not refused"),
    }
}

#[test]
fn backup_copies_the_config() {
    let mut memory = Memory::new();
    let entry = backup(&mut memory).expect("backup");
    assert_eq!(entry.name, STAMPED);
    assert_eq!(memory.text(&entry.path).as_deref(), Some("{\"before\":true}\n"));
    assert_eq!(memory.log.len(), 5);
}

#[test]
fn backup_without_a_config_is_not_found() {
    let mut memory = Memory::new();
    memory.files.remove("/root/config.json");
    let error = backup(&mut memory).expect_err("missing");
    assert_eq!(error.status.code(), 404);
    assert_eq!(error.message, "sing-box config not found: /root/config.json");
}

#[test]
fn srs_list_only_holds_srs_files() {
    let mut memory = Memory::new();
    memory.dirs.insert("/root/srs/dir.srs".to_string());
    memory.put("/root/srs/.srs", "hidden", 1);
    let files = list(&mut memory, ListKind::Srs).expect("list");
    assert_eq!(names(&files), vec!["ruleset.srs"]);
    assert_eq!(files.entries[0].path, "/root/srs/ruleset.srs");
    assert_eq!(files.entries[0].size_bytes, 9);
    assert_eq!(files.entries[0].modified_at, "1970-01-01T00:00:30+00:00");
}

#[test]
fn backups_are_listed_newest_first() {
    let mut memory = Memory::new();
    memory.put("/root/backups/a", "1", 20);
    memory.put("/root/backups/b", "1", 90);
    memory.put("/root/backups/z", "1", 20);
    memory.files.insert("/root/backups/u".to_string(), (Vec::new(), None));
    memory.files.insert("/root/backups/y".to_string(), (Vec::new(), Some((-5, 0))));
    let files = list(&mut memory, ListKind::Backups).expect("list");
    assert_eq!(names(&files), vec!["b", "a", BACKUP, "z", "u", "y"]);
    assert_eq!(files.entries[4].modified_at, "1970-01-01T00:00:00+00:00");
    assert_eq!(files.entries[5].modified_at, "1969-12-31T23:59:55+00:00");
}

#[test]
fn missing_directories_have_empty_lists() {
    let mut memory = Memory::new();
    memory.dirs.clear();
    assert!(list(&mut memory, ListKind::Backups).expect("list").entries.is_empty());
    assert!(list(&mut memory, ListKind::Srs).expect("list").entries.is_empty());
}

#[test]
fn lists_report_each_failure() {
    let cases = [
        ("exists", "failed to check backups directory /root/backups".to_string()),
        ("open", "failed to read backups directory /root/backups".to_string()),
        ("next", "failed to iterate backups directory /root/backups".to_string()),
        ("is-file", format!("failed to inspect backup entry /root/backups/{BACKUP}")),
        ("metadata", format!("failed to read metadata for /root/backups/{BACKUP}")),
    ];
    for (failing, message) in cases {
        let mut memory = Memory::new();
        memory.failing = failing;
        let error = list(&mut memory, ListKind::Backups).expect_err(failing);
        assert_eq!(error.status.code(), 500);
        assert_eq!(error.message, format!("{message}: disk error"));
    }
    let mut memory = Memory::new();
    memory.failing = "is-file";
    let error = list(&mut memory, ListKind::Srs).expect_err("srs");
    assert_eq!(
        error.message,
        "failed to inspect srs entry /root/srs/ignore.txt: disk error"
    );
}

#[test]
fn names_that_are_no_text_are_reported() {
    let path = UnixPath { bytes: vec![b'/', b'd', b'/', 0xff] };
    let metadata = FileMetadata { len: 1, modified: None };
    let error = candidate_from_path(&ListKind::Backups, &path, &metadata).expect_err("name");
    assert_eq!(error.status.code(), 500);
    assert_eq!(error.message, "invalid backup filename: /d/\u{fffd}");
    let error = candidate_from_path(&ListKind::Srs, &path, &metadata).expect_err("name");
    assert_eq!(error.message, "invalid srs filename: /d/\u{fffd}");
    let found = candidate_from_path(&ListKind::Srs, &UnixPath::new("/d/x.srs"), &metadata)
        .expect("candidate");
    assert_eq!((found.entry.name.as_str(), found.sort_key), ("x.srs", 0));
}

fn keyed(name: &str, sort_key: u128) -> Candidate {
    let entry = FileEntry {
        name: name.to_string(),
        path: String::new(),
        size_bytes: 0,
        modified_at: String::new(),
    };
    Candidate { entry, sort_key }
}

#[test]
fn files_of_the_same_age_keep_their_order() {
    let given = [("a", 2), ("b", 3), ("c", 2), ("d", 1), ("e", 3), ("f", 2)];
    let mut found: Vec<Candidate> = Vec::new();
    for (name, key) in given {
        place(&mut found, keyed(name, key));
    }
    let mut known = given.to_vec();
    known.sort_by(|left, right| right.1.cmp(&left.1));
    let sorted: Vec<String> = into_entries(found).into_iter().map(|entry| entry.name).collect();
    let expected: Vec<String> = known.iter().map(|(name, _)| name.to_string()).collect();
    assert_eq!(sorted, expected);
    assert_eq!(sorted, vec!["b", "e", "a", "c", "f", "d"]);
}

#[test]
fn files_are_listed_by_their_ending() {
    for (path, listed) in [
        ("/d/a.srs", true),
        ("/d/a.b.srs", true),
        ("/d/.srs", false),
        ("/d/a.srs.txt", false),
        ("/d/a.SRS", false),
        ("/d/srs", false),
        ("/d/a.srs/", true),
    ] {
        assert_eq!(ListKind::Srs.is_listed(&UnixPath::new(path)), listed, "{path}");
        assert!(ListKind::Backups.is_listed(&UnixPath::new(path)));
    }
}

fn check(memory: &mut Memory, settings: &AppConfig) -> Result<(String, String), ApiError> {
    let now = Timestamp::new(7, 9).expect("time");
    let temp = build_temp_check_path(&UnixPath::new("/tmp"), &now);
    memory
        .run(Check::start(temp, &request()), |state, event| state.next(settings, event))
        .map(|response| (response.command, response.stdout))
}

const TEMP: &str = "/tmp/sing-box-config-api-check-7000000009.json";

#[test]
fn check_runs_on_a_temporary_file() {
    let mut memory = Memory::new();
    let (command, stdout) = check(&mut memory, &settings()).expect("checked");
    assert_eq!(command, format!("true {TEMP}"));
    assert_eq!(stdout, "true\n");
    assert_eq!(
        memory.log,
        vec![format!("write {TEMP}"), format!("run true {TEMP}"), format!("remove {TEMP}")]
    );
    assert_eq!(memory.text(TEMP), None);
    assert_eq!(memory.text("/root/config.json").as_deref(), Some("{\"before\":true}\n"));
}

#[test]
fn check_cleans_up_after_a_command_that_does_not_start() {
    let mut memory = Memory::new();
    memory.failing = "run";
    let error = check(&mut memory, &settings()).expect_err("failure");
    assert_eq!(error.status.code(), 500);
    assert_eq!(error.message, format!("failed to execute command 'true {TEMP}': not there"));
    assert_eq!(memory.text(TEMP), None);
}

#[test]
fn check_reports_what_it_cannot_do() {
    let mut memory = Memory::new();
    memory.failing = "write";
    let error = check(&mut memory, &settings()).expect_err("failure");
    assert_eq!(error.message, format!("failed to write temporary config {TEMP}: disk error"));
    let mut memory = Memory::new();
    let mut other = settings();
    other.check_command = "'".to_string();
    let error = check(&mut memory, &other).expect_err("failure");
    assert_eq!(error.message, "failed to parse command ''': missing closing quote");
    assert_eq!(memory.log, vec![format!("write {TEMP}")]);
}

#[test]
fn check_does_not_mind_a_file_that_cannot_be_deleted() {
    let mut memory = Memory::new();
    memory.failing = "remove";
    assert!(check(&mut memory, &settings()).is_ok());
}

#[test]
fn check_refuses_what_cannot_be_written_down() {
    let refused = ApiError::bad_request("no".to_string());
    match Check::start_with(UnixPath::new("/t"), Err(refused)) {
        Step::Fail { error } => assert_eq!(error.message, "no"),
        _ => panic!("not refused"),
    }
    match Check::run_parts(UnixPath::new("/t"), Ok(Vec::new())) {
        Step::Perform { action: Action::RemoveFile { path }, .. } => {
            assert_eq!(path.display(), "/t")
        }
        _ => panic!("not removed"),
    }
}

const URL: &str = "https://github.com/a/b/rules.srs";

fn download(memory: &mut Memory, url: &str) -> Result<(String, FileEntry), ApiError> {
    let settings = settings();
    let request = DownloadSrsRequest { url: url.to_string() };
    memory
        .run(Download::start(request), |state, event| state.next(&settings, event))
        .map(|response| (response.source_url, response.file))
}

#[test]
fn download_stores_the_file() {
    let mut memory = Memory::new();
    memory.upstream = (206, b"rules".to_vec());
    let (source, file) = download(&mut memory, "https://GitHub.com/a/b/rules.srs").expect("file");
    assert_eq!(source, "https://GitHub.com/a/b/rules.srs");
    assert_eq!(file.name, "rules.srs");
    assert_eq!(file.path, "/root/srs/rules.srs");
    assert_eq!(file.size_bytes, 5);
    assert_eq!(memory.text("/root/srs/rules.srs").as_deref(), Some("rules"));
    assert_eq!(
        memory.log,
        vec![
            "fetch https://github.com/a/b/rules.srs",
            "body",
            "mkdir /root/srs",
            "write /root/srs/rules.srs",
            "metadata /root/srs/rules.srs",
        ]
    );
    let files = list(&mut memory, ListKind::Srs).expect("list");
    assert_eq!(names(&files), vec!["rules.srs", "ruleset.srs"]);
}

#[test]
fn download_reports_each_failure() {
    let cases = [
        ("fetch", format!("failed to download srs file from {URL}")),
        ("body", format!("failed to read downloaded srs content from {URL}")),
        ("mkdir", "failed to create srs directory /root/srs".to_string()),
        ("write", "failed to store downloaded srs file /root/srs/rules.srs".to_string()),
        ("metadata", "failed to read metadata for /root/srs/rules.srs".to_string()),
    ];
    for (failing, message) in cases {
        let mut memory = Memory::new();
        memory.failing = failing;
        let error = download(&mut memory, URL).expect_err(failing);
        assert_eq!(error.status.code(), 500);
        assert_eq!(error.message, format!("{message}: disk error"));
    }
}

#[test]
fn download_needs_success_upstream() {
    let mut memory = Memory::new();
    memory.upstream.0 = 404;
    let error = download(&mut memory, URL).expect_err("status");
    assert_eq!(error.status.code(), 500);
    assert_eq!(
        error.message,
        format!("failed to download srs file from {URL}: upstream returned 404 Not Found")
    );
    assert_eq!(memory.log, vec![format!("fetch {URL}")]);
}

#[test]
fn download_refuses_other_addresses_at_once() {
    let mut memory = Memory::new();
    let error = download(&mut memory, "https://example.com/rules.srs").expect_err("refused");
    assert_eq!(error.status.code(), 400);
    assert!(memory.log.is_empty());
    let refused = ApiError::bad_request("no".to_string());
    match Download::start_from(String::new(), Err(refused)) {
        Step::Fail { error } => assert_eq!(error.message, "no"),
        _ => panic!("not refused"),
    }
}

fn service(memory: &mut Memory, command_line: &str) -> Result<(String, bool), ApiError> {
    memory
        .run(ServiceCommand::start(command_line), |command, event| command.next(event))
        .map(|response| (response.command, response.success))
}

#[test]
fn service_commands_are_run_as_they_say() {
    let mut memory = Memory::new();
    let told = service(&mut memory, "systemctl  status 'sing box'").expect("run");
    assert_eq!(told, ("systemctl status 'sing box'".to_string(), true));
    assert_eq!(memory.log, vec!["run systemctl status sing box"]);
}

#[test]
fn status_and_restart_run_their_own_commands() {
    let mut settings = settings();
    settings.status_command = "box status".to_string();
    settings.restart_command = "box restart".to_string();
    let mut memory = Memory::new();
    memory
        .run(ServiceCommand::start_status(&settings), |command, event| command.next(event))
        .expect("status");
    memory
        .run(ServiceCommand::start_restart(&settings), |command, event| command.next(event))
        .expect("restart");
    assert_eq!(memory.log, vec!["run box status", "run box restart"]);
}

#[test]
fn service_commands_that_cannot_be_run_are_reported() {
    let mut memory = Memory::new();
    let error = service(&mut memory, " ").expect_err("empty");
    assert_eq!(error.message, "configured command is empty");
    let error = service(&mut memory, "'").expect_err("quote");
    assert_eq!(error.message, "failed to parse command ''': missing closing quote");
    assert!(memory.log.is_empty());
    memory.failing = "run";
    let error = service(&mut memory, "x").expect_err("start");
    assert_eq!(error.message, "failed to execute command 'x': not there");
}

#[test]
fn answers_that_do_not_belong_are_reported() {
    let settings = settings();
    if let Step::Perform { state, .. } = Update::start(&settings) {
        match state.next(&settings, &request(), Event::Found(Ok(true))) {
            Step::Fail { error } => assert_eq!(error.message, "unexpected answer"),
            _ => panic!("not reported"),
        }
    } else {
        panic!("not started");
    }
}
