use minigrep::Config;

fn args_of(tokens: &[&str]) -> Vec<String> {
    tokens.iter().map(|t| t.to_string()).collect()
}

#[test]
fn too_few_arguments_is_rejected() {
    let args = args_of(&["prog", "foo"]);
    let result = Config::build(&args, false, false);
    assert_eq!(result.unwrap_err(), "Not enough arguments provided");
}

#[test]
fn unrecognized_flag_is_rejected() {
    let args = args_of(&["prog", "foo", "file.txt", "--bogus"]);
    let result = Config::build(&args, false, false);
    assert_eq!(result.unwrap_err(), "Invalid commandline argument provided");
}

#[test]
fn missing_file_path_is_rejected() {
    let args = args_of(&["prog", "--ignore-case", "foo"]);
    let result = Config::build(&args, false, false);
    assert_eq!(result.unwrap_err(), "Query and the file path must be provided");
}

#[test]
fn positionals_become_query_and_file_path() {
    let args = args_of(&["prog", "foo", "file.txt"]);
    let config = Config::build(&args, false, false).unwrap();
    assert_eq!(config.query, "foo");
    assert_eq!(config.file_path, "file.txt");
    assert!(!config.ignore_case);
}

#[test]
fn ignore_case_environment_signal_sets_the_default() {
    let args = args_of(&["prog", "foo", "file.txt"]);
    let config = Config::build(&args, false, true).unwrap();
    assert!(config.ignore_case);
}

#[test]
fn case_sensitive_signal_outweighs_ignore_case_signal() {
    let args = args_of(&["prog", "foo", "file.txt"]);
    let config = Config::build(&args, true, true).unwrap();
    assert!(!config.ignore_case);
}

#[test]
fn flags_override_environment_defaults() {
    let args = args_of(&["prog", "foo", "file.txt", "--ignore-case"]);
    let config = Config::build(&args, true, false).unwrap();
    assert!(config.ignore_case);

    let args = args_of(&["prog", "foo", "file.txt", "--case-sensitive"]);
    let config = Config::build(&args, false, true).unwrap();
    assert!(!config.ignore_case);
}

#[test]
fn last_case_flag_wins() {
    let args = args_of(&["prog", "foo", "file.txt", "--case-sensitive", "--ignore-case"]);
    let config = Config::build(&args, false, false).unwrap();
    assert!(config.ignore_case);

    let args = args_of(&["prog", "foo", "file.txt", "--ignore-case", "--case-sensitive"]);
    let config = Config::build(&args, false, false).unwrap();
    assert!(!config.ignore_case);
}

#[test]
fn flags_may_appear_before_positionals() {
    let args = args_of(&["prog", "--ignore-case", "foo", "file.txt"]);
    let config = Config::build(&args, false, false).unwrap();
    assert_eq!(config.query, "foo");
    assert_eq!(config.file_path, "file.txt");
    assert!(config.ignore_case);
}

#[test]
fn empty_query_argument_is_rejected() {
    let args = args_of(&["prog", "", "file.txt"]);
    let result = Config::build(&args, false, false);
    assert_eq!(result.unwrap_err(), "Query and the file path must be provided");
}
