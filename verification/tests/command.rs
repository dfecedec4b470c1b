use sing_box_config_api::command::{
    build_check_command_parts, prepare_command, put_config_path, report_command, run_command,
    split_command,
};
use sing_box_config_api::io::{CommandOutput, IoFailure};
use sing_box_config_api::path::UnixPath;

#[test]
fn check_command_replaces_config_placeholder() {
    let parts = build_check_command_parts(
        "sudo -n /usr/local/libexec/sing-box-config-api/check {config_path}",
        &UnixPath::new("/tmp/check.json"),
    )
    .expect("command parts");

    assert_eq!(
        parts,
        vec![
            "sudo",
            "-n",
            "/usr/local/libexec/sing-box-config-api/check",
            "/tmp/check.json"
        ]
    );
}

#[test]
fn check_command_appends_path_when_placeholder_missing() {
    let parts = build_check_command_parts(
        "sudo -n /usr/local/libexec/sing-box-config-api/check",
        &UnixPath::new("/tmp/check.json"),
    )
    .expect("command parts");

    assert_eq!(
        parts,
        vec![
            "sudo",
            "-n",
            "/usr/local/libexec/sing-box-config-api/check",
            "/tmp/check.json"
        ]
    );
}

#[test]
fn every_placeholder_is_replaced() {
    let parts = build_check_command_parts(
        "a={config_path}:{config_path} b '{config_path} c' {config_path",
        &UnixPath::new("/t x"),
    )
    .expect("command parts");
    assert_eq!(parts, vec!["a=/t x:/t x", "b", "/t x c", "{config_path"]);
}

#[test]
fn a_path_that_holds_the_placeholder_is_put_in_once() {
    let words = vec!["{config_path}".to_string()];
    assert_eq!(put_config_path(words, "/{config_path}"), vec!["/{config_path}"]);
    assert_eq!(put_config_path(Vec::new(), "/p"), vec!["/p"]);
}

#[test]
fn command_lines_are_split_as_a_shell_does() {
    let words = split_command("run 'two words' \"a b\" c\\ d").expect("words");
    assert_eq!(words, vec!["run", "two words", "a b", "c d"]);
    assert!(split_command("").expect("words").is_empty());
}

#[test]
fn an_open_quote_is_reported() {
    let error = split_command("run 'x").expect_err("quote");
    assert_eq!(error.status.code(), 500);
    assert_eq!(error.message, "failed to parse command 'run 'x': missing closing quote");
    assert!(build_check_command_parts("\"", &UnixPath::new("/t")).is_err());
    assert!(run_command("\"").is_err());
}

#[test]
fn the_display_splits_into_the_same_words() {
    let cases = vec![
        vec!["true"],
        vec!["run", "", " ", "a b"],
        vec!["it's", "\"q\"", "\\", "\n", "$HOME", "*", "#", "é"],
        vec!["a'b'c", "''", "\\\n", "\t"],
    ];
    for case in cases {
        let words: Vec<String> = case.iter().map(|word| word.to_string()).collect();
        let command = prepare_command(words.clone()).expect("command");
        assert_eq!(split_command(&command.display).expect("words"), words);
        assert_eq!(command.program, words[0]);
        assert_eq!(command.args, words[1..].to_vec());
    }
}

#[test]
fn the_display_quotes_where_needed() {
    let command = run_command("systemctl   status 'sing box'").expect("command");
    assert_eq!(command.display, "systemctl status 'sing box'");
    assert_eq!(command.program, "systemctl");
    assert_eq!(command.args, vec!["status", "sing box"]);
}

#[test]
fn an_empty_command_is_reported() {
    let error = run_command("  ").expect_err("empty");
    assert_eq!(error.status.code(), 500);
    assert_eq!(error.message, "configured command is empty");
    assert!(prepare_command(Vec::new()).is_err());
}

#[test]
fn the_output_of_a_command_is_told() {
    let output = CommandOutput {
        success: false,
        exit_code: Some(3),
        stdout: b"out".to_vec(),
        stderr: vec![b'e', 0xff, b'r'],
    };
    let response = report_command("run it".to_string(), Ok(output)).expect("report");
    assert_eq!(response.command, "run it");
    assert!(!response.success);
    assert_eq!(response.exit_code, Some(3));
    assert_eq!(response.stdout, "out");
    assert_eq!(response.stderr, "e\u{fffd}r");
}

#[test]
fn a_command_that_does_not_start_is_reported() {
    let failure = IoFailure { not_found: true, message: "No such file".to_string() };
    let error = report_command("run".to_string(), Err(failure)).expect_err("failure");
    assert_eq!(error.status.code(), 500);
    assert_eq!(error.message, "failed to execute command 'run': No such file");
}
