use sing_box_config_api::names::{sanitize_backup_name, sanitize_srs_name};

#[test]
fn rejects_backup_path_traversal() {
    assert!(sanitize_backup_name("../config.json").is_err());
}

#[test]
fn rejects_non_srs_download_names() {
    assert!(sanitize_srs_name("ruleset.txt").is_err());
    assert!(sanitize_srs_name("../ruleset.srs").is_err());
}

#[test]
fn keeps_plain_backup_names() {
    for name in ["config-20260415-185504-710.json", "a", "...", ".hidden", "naïve.json", "a b"] {
        assert_eq!(sanitize_backup_name(name).expect("name"), name);
    }
}

#[test]
fn tells_why_backup_names_are_refused() {
    let invalid = ["", ".", "..", "/", "a/..", "//"];
    for name in invalid {
        let error = sanitize_backup_name(name).expect_err("invalid");
        assert_eq!(error.status.code(), 400);
        assert_eq!(error.message, "backup name is invalid");
    }
    let separated = ["../a", "a/b", "/a", "a/", "./a", "a/."];
    for name in separated {
        let error = sanitize_backup_name(name).expect_err("separated");
        assert_eq!(error.status.code(), 400);
        assert_eq!(error.message, "backup name must not contain path separators");
    }
}

#[test]
fn tells_why_srs_names_are_refused() {
    let error = sanitize_srs_name("..").expect_err("invalid");
    assert_eq!(error.message, "srs file name is invalid");
    let error = sanitize_srs_name("../ruleset.srs").expect_err("separated");
    assert_eq!(error.message, "srs file name must not contain path separators");
    let error = sanitize_srs_name("ruleset.txt").expect_err("ending");
    assert_eq!(error.message, "only .srs files are allowed");
    assert_eq!(error.status.code(), 400);
}

#[test]
fn keeps_plain_srs_names() {
    assert_eq!(sanitize_srs_name("antizapret.srs").expect("name"), "antizapret.srs");
    assert_eq!(sanitize_srs_name(".srs").expect("name"), ".srs");
}
