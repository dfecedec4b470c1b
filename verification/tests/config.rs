use sing_box_config_api::config::{
    config_candidates, describe_config_source, ensure_secure_secret, executable_dir,
    load_runtime_config, locate_config_file, resolve_path, RawAppConfig, RuntimeConfig,
};
use sing_box_config_api::document::health;
use sing_box_config_api::path::UnixPath;

fn with_secret(secret: &str) -> RuntimeConfig {
    let raw = RawAppConfig { secret: Some(secret.to_string()), ..RawAppConfig::default() };
    load_runtime_config(Some((UnixPath::new("/opt/api/config.toml"), raw)))
}

#[test]
fn defaults_are_used_without_a_file() {
    let config = load_runtime_config(None);
    assert_eq!(config.settings.secret, "changeme");
    assert_eq!(config.settings.listen_addr, "0.0.0.0:17118");
    assert_eq!(config.settings.sing_box_config_path.display(), "/etc/sing-box/config.json");
    assert_eq!(config.settings.backups_dir.display(), "/etc/sing-box/backups");
    assert_eq!(config.settings.srs_dir.display(), "/etc/sing-box/srs");
    assert_eq!(config.settings.status_command, "systemctl status sing-box --no-pager");
    assert_eq!(config.settings.check_command, "sing-box check -c {config_path}");
    assert_eq!(config.settings.restart_command, "systemctl restart sing-box");
    assert!(config.config_source.is_none());
}

#[test]
fn a_file_overrides_the_defaults() {
    let raw = RawAppConfig {
        secret: Some("s".to_string()),
        listen_addr: Some("127.0.0.1:1".to_string()),
        sing_box_config_path: Some(UnixPath::new("box.json")),
        backups_dir: Some(UnixPath::new("/var/backups")),
        srs_dir: None,
        status_command: Some("st".to_string()),
        check_command: Some("ch".to_string()),
        restart_command: Some("re".to_string()),
    };
    let config = load_runtime_config(Some((UnixPath::new("/opt/api/config.toml"), raw)));
    assert_eq!(config.settings.secret, "s");
    assert_eq!(config.settings.listen_addr, "127.0.0.1:1");
    assert_eq!(config.settings.sing_box_config_path.display(), "/opt/api/box.json");
    assert_eq!(config.settings.backups_dir.display(), "/var/backups");
    assert_eq!(config.settings.srs_dir.display(), "/etc/sing-box/srs");
    assert_eq!(config.settings.status_command, "st");
    assert_eq!(config.settings.check_command, "ch");
    assert_eq!(config.settings.restart_command, "re");
    assert_eq!(describe_config_source(config.config_source.as_ref()), "/opt/api/config.toml");
}

#[test]
fn relative_paths_follow_the_file() {
    let base = UnixPath::new("/opt/api");
    assert_eq!(resolve_path(UnixPath::new("srs"), Some(&base)).display(), "/opt/api/srs");
    assert_eq!(resolve_path(UnixPath::new("/srs"), Some(&base)).display(), "/srs");
    assert_eq!(resolve_path(UnixPath::new("srs"), None).display(), "srs");
}

#[test]
fn insecure_secrets_are_refused() {
    for secret in ["changeme", "", "  ", " changeme\n", "\u{3000}"] {
        let error = ensure_secure_secret(&with_secret(secret)).expect_err("insecure");
        assert_eq!(
            error.message,
            "refusing to start with insecure secret. Set a strong 'secret' in /opt/api/config.toml"
        );
    }
    let error = ensure_secure_secret(&load_runtime_config(None)).expect_err("defaults");
    assert_eq!(
        error.message,
        "refusing to start with insecure secret. Set a strong 'secret' in defaults (create \
         config.toml next to the binary)"
    );
}

#[test]
fn other_secrets_are_accepted() {
    for secret in ["strong", "Changeme", "change me", " x "] {
        assert!(ensure_secure_secret(&with_secret(secret)).is_ok());
    }
}

#[test]
fn the_file_next_to_the_program_comes_first() {
    let exe_dir = executable_dir(&UnixPath::new("/opt/api/bin")).expect("directory");
    let paths = config_candidates(&exe_dir, &UnixPath::new("/home"));
    let shown: Vec<String> = paths.iter().map(|path| path.display()).collect();
    assert_eq!(shown, vec!["/opt/api/config.toml", "/home/config.toml"]);
    let found = locate_config_file(&paths, &vec![true, true]).expect("found");
    assert_eq!(found.display(), "/opt/api/config.toml");
    let found = locate_config_file(&paths, &vec![false, true]).expect("found");
    assert_eq!(found.display(), "/home/config.toml");
    assert!(locate_config_file(&paths, &vec![false, false]).is_none());
}

#[test]
fn the_same_place_is_looked_at_once() {
    let exe_dir = executable_dir(&UnixPath::new("/opt/api/bin")).expect("directory");
    let paths = config_candidates(&exe_dir, &UnixPath::new("/opt//api/."));
    assert_eq!(paths.len(), 1);
    let error = executable_dir(&UnixPath::new("/")).expect_err("root");
    assert_eq!(error.message, "failed to determine executable directory");
}

#[test]
fn health_shows_the_settings() {
    let shown = health(&with_secret("strong"));
    assert_eq!(shown.status, "ok");
    assert_eq!(shown.listen_addr, "0.0.0.0:17118");
    assert_eq!(shown.config_source, "/opt/api/config.toml");
    assert_eq!(shown.sing_box_config_path, "/etc/sing-box/config.json");
    assert_eq!(shown.backups_dir, "/etc/sing-box/backups");
    assert_eq!(shown.srs_dir, "/etc/sing-box/srs");
}
