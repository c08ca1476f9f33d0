use ches_console::cmd::{Command, CommandError};
use ches_console::console::{ConsoleLogDescription, ConsoleLogKind, ConsoleLogLimit};

fn args(tokens: &[&str]) -> Vec<String> {
    tokens.iter().map(|t| t.to_string()).collect()
}

#[test]
fn parse_build_scenario() {
    let argv = args(&["prog", "build", "-out", "a.bin", "-v"]);
    let cmd = Command::get_cmd_data(&argv, "run").unwrap();
    assert_eq!(cmd.subcmd_name, "build");
    assert_eq!(cmd.subcmd_options.len(), 2);
    assert_eq!(cmd.subcmd_options[0].name, "-out");
    assert_eq!(cmd.subcmd_options[0].values, vec!["a.bin".to_string()]);
    assert_eq!(cmd.subcmd_options[1].name, "-v");
    assert!(cmd.subcmd_options[1].values.is_empty());
    assert_eq!(cmd.cmd_line_args, argv);
}

#[test]
fn parse_only_program_path() {
    let argv = args(&["prog"]);
    let cmd = Command::get_cmd_data(&argv, "run").unwrap();
    assert_eq!(cmd.subcmd_name, "run");
    assert!(cmd.subcmd_options.is_empty());
}

#[test]
fn parse_subcommand_only() {
    let argv = args(&["prog", "check"]);
    let cmd = Command::get_cmd_data(&argv, "run").unwrap();
    assert_eq!(cmd.subcmd_name, "check");
    assert!(cmd.subcmd_options.is_empty());
}

#[test]
fn parse_duplicate_marker_fails() {
    let argv = args(&["prog", "-a", "-a"]);
    let err = Command::get_cmd_data(&argv, "run").unwrap_err();
    assert_eq!(err, CommandError::DuplicatedOptionName("-a".to_string()));
}

#[test]
fn parse_duplicate_after_subcommand_fails() {
    let argv = args(&["prog", "build", "-v", "1", "-v"]);
    let err = Command::get_cmd_data(&argv, "run").unwrap_err();
    assert_eq!(err, CommandError::DuplicatedOptionName("-v".to_string()));
}

#[test]
fn parse_value_before_marker_fails() {
    let argv = args(&["prog", "build", "val", "-a"]);
    let err = Command::get_cmd_data(&argv, "run").unwrap_err();
    assert_eq!(err, CommandError::OptionValueBeforeOptionName("val".to_string()));
}

#[test]
fn parse_values_attach_to_last_marker() {
    let argv = args(&["prog", "-a", "1", "2", "-b", "3"]);
    let cmd = Command::get_cmd_data(&argv, "run").unwrap();
    assert_eq!(cmd.subcmd_name, "run");
    assert_eq!(cmd.subcmd_options.len(), 2);
    assert_eq!(cmd.subcmd_options[0].name, "-a");
    assert_eq!(cmd.subcmd_options[0].values, vec!["1".to_string(), "2".to_string()]);
    assert_eq!(cmd.subcmd_options[1].name, "-b");
    assert_eq!(cmd.subcmd_options[1].values, vec!["3".to_string()]);
}

#[test]
fn option_marker_test() {
    assert!(Command::is_cmd_arg_option("-x".to_string()));
    assert!(Command::is_cmd_arg_option("-".to_string()));
    assert!(!Command::is_cmd_arg_option("x".to_string()));
    assert!(!Command::is_cmd_arg_option("".to_string()));
}

#[test]
fn command_new_keeps_parts() {
    let argv = args(&["prog"]);
    let cmd = Command::new(argv.clone(), "run".to_string(), Vec::new());
    assert_eq!(cmd.cmd_line_args, argv);
    assert_eq!(cmd.subcmd_name, "run");
    assert!(cmd.subcmd_options.is_empty());
}

#[test]
fn duplicated_option_log_data() {
    let log = CommandError::DuplicatedOptionName("-a".to_string()).get_log_data();
    assert_eq!(log.kind, ConsoleLogKind::Error);
    assert_eq!(log.title, "{^cmd.err.1943}");
    assert_eq!(log.descs.len(), 2);
    assert_eq!(
        log.descs[0],
        ConsoleLogDescription::Normal("{^cmd.option_name}: -a".to_string())
    );
    assert_eq!(
        log.descs[1],
        ConsoleLogDescription::Optional(
            "{^console.spec_link}: https://ches.gant.work/en/spec/console/command/error/1943/index.html"
                .to_string()
        )
    );
}

#[test]
fn other_command_error_log_titles() {
    assert_eq!(
        CommandError::InternalLoadFailure("x".to_string()).get_log_data().title,
        "{^cmd.err.6389}"
    );
    assert_eq!(
        CommandError::NoMatchingSubcmdName("x".to_string()).get_log_data().title,
        "{^cmd.err.3485}"
    );
    assert_eq!(
        CommandError::OptionValueBeforeOptionName("x".to_string()).get_log_data().title,
        "{^cmd.err.9534}"
    );
}

#[test]
fn reporter_config_defaults() {
    let argv = args(&["prog"]);
    let cmd = Command::get_cmd_data(&argv, "run").unwrap();
    let (details, limit) = cmd.get_reporter_config().unwrap();
    assert!(!details);
    assert_eq!(limit, ConsoleLogLimit::NoLimit);
}

#[test]
fn reporter_config_details_flag() {
    let argv = args(&["prog", "-det"]);
    let cmd = Command::get_cmd_data(&argv, "run").unwrap();
    let (details, limit) = cmd.get_reporter_config().unwrap();
    assert!(details);
    assert_eq!(limit, ConsoleLogLimit::NoLimit);
}

#[test]
fn reporter_config_limit_number() {
    let argv = args(&["prog", "-lim", "3"]);
    let cmd = Command::get_cmd_data(&argv, "run").unwrap();
    let (details, limit) = cmd.get_reporter_config().unwrap();
    assert!(!details);
    assert_eq!(limit, ConsoleLogLimit::Limited(3));
}

#[test]
fn reporter_config_limit_word_no() {
    let argv = args(&["prog", "-lim", "no"]);
    let cmd = Command::get_cmd_data(&argv, "run").unwrap();
    let (_, limit) = cmd.get_reporter_config().unwrap();
    assert_eq!(limit, ConsoleLogLimit::NoLimit);
}

#[test]
fn reporter_config_limit_without_value_fails() {
    let argv = args(&["prog", "-lim"]);
    let cmd = Command::get_cmd_data(&argv, "run").unwrap();
    let log = cmd.get_reporter_config().unwrap_err();
    assert_eq!(log.kind, ConsoleLogKind::Error);
    assert_eq!(log.title, "{^cmd.err.7095}");
    assert!(log.descs.is_empty());
}

#[test]
fn reporter_config_limit_two_values_fails() {
    let argv = args(&["prog", "-lim", "1", "2"]);
    let cmd = Command::get_cmd_data(&argv, "run").unwrap();
    let log = cmd.get_reporter_config().unwrap_err();
    assert_eq!(log.title, "{^cmd.err.7095}");
    assert!(log.descs.is_empty());
}

#[test]
fn reporter_config_bad_limit_value_fails() {
    let argv = args(&["prog", "-lim", "many"]);
    let cmd = Command::get_cmd_data(&argv, "run").unwrap();
    let log = cmd.get_reporter_config().unwrap_err();
    assert_eq!(log.title, "{^cmd.err.7095}");
    assert_eq!(
        log.descs,
        vec![ConsoleLogDescription::Normal("{^cmd.option_value}: many".to_string())]
    );
}

#[test]
fn reporter_config_huge_limit_value_fails() {
    let argv = args(&["prog", "-lim", "99999999999999999999999"]);
    let cmd = Command::get_cmd_data(&argv, "run").unwrap();
    let log = cmd.get_reporter_config().unwrap_err();
    assert_eq!(log.title, "{^cmd.err.7095}");
}
