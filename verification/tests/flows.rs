use llogin::cli::parse_args;
use llogin::cli::gate_required;
use llogin::cli::Command;
use llogin::login::login_request_body;
use llogin::login::login_succeeded;
use llogin::shell::append_source_line;
use llogin::shell::credential_source_line;
use llogin::shell::needs_source_line;
use llogin::shell::shell_config_rel_path;
use llogin::strutil::match_at;
use llogin::strutil::str_contains;
use llogin::strutil::str_eq;
use llogin::strutil::str_starts_with;
use llogin::wifi::output_shows_target;

fn args_of(parts: &[&str]) -> Vec<String> {
    parts.iter().map(|p| String::from(*p)).collect()
}

#[test]
fn wifi_no_target_line_means_disconnected() {
    assert!(!output_shows_target(""));
    assert!(!output_shows_target("no:LPU\nyes:Other"));
    assert!(!output_shows_target("no:LPU-Wifi"));
    assert!(!output_shows_target("x yes:LPU\nsomething"));
}

#[test]
fn wifi_target_line_means_connected() {
    assert!(output_shows_target("yes:LPU"));
    assert!(output_shows_target("yes:LPU-Campus\nno:Other"));
    assert!(output_shows_target("no:Other\nyes:LPUWIFI"));
    assert!(output_shows_target("no:Other\nyes:LPU"));
}

#[test]
fn wifi_marker_only_counts_at_line_start() {
    assert!(!output_shows_target("no:Other yes:LPU"));
    assert!(output_shows_target("no:Other\nyes:LPU rest"));
}

#[test]
fn login_response_with_marker_succeeds() {
    assert!(login_succeeded("<html>To start surfing, open a browser</html>"));
    assert!(login_succeeded("To start surfing"));
}

#[test]
fn login_response_without_marker_fails() {
    assert!(!login_succeeded(""));
    assert!(!login_succeeded("Invalid username or password"));
    assert!(!login_succeeded("To start surfin"));
}

#[test]
fn login_body_has_exact_shape() {
    let b = login_request_body("user1", "pw1");
    assert_eq!(b, "mode=191&username=user1%40lpu.com&password=pw1");
}

#[test]
fn shell_detection_picks_startup_file() {
    assert_eq!(shell_config_rel_path("/bin/bash").unwrap(), ".bashrc");
    assert_eq!(shell_config_rel_path("/usr/bin/zsh").unwrap(), ".zshrc");
    assert_eq!(
        shell_config_rel_path("/usr/bin/fish").unwrap(),
        ".config/fish/config.fish"
    );
    assert!(shell_config_rel_path("/bin/tcsh").is_none());
    assert!(shell_config_rel_path("").is_none());
}

#[test]
fn source_line_appended_at_most_once() {
    let mut lines: Vec<String> = vec![String::from("# comment"), String::from("export PATH=x")];
    assert!(needs_source_line(&lines));
    append_source_line(&mut lines);
    append_source_line(&mut lines);
    let source = credential_source_line();
    let occurrences = lines.iter().filter(|l| **l == source).count();
    assert_eq!(occurrences, 1);
    assert_eq!(lines.len(), 3);
    assert!(!needs_source_line(&lines));
}

#[test]
fn source_line_already_present_is_kept() {
    let mut lines: Vec<String> = vec![String::from("source ~/.lpu_creds")];
    assert!(!needs_source_line(&lines));
    append_source_line(&mut lines);
    assert_eq!(lines.len(), 1);
}

#[test]
fn parse_args_fixed_commands() {
    assert!(matches!(parse_args(&args_of(&["llogin", "--help"])), Command::Help));
    assert!(matches!(parse_args(&args_of(&["llogin", "-h"])), Command::Help));
    assert!(matches!(parse_args(&args_of(&["llogin", "--version"])), Command::Version));
    assert!(matches!(parse_args(&args_of(&["llogin", "-v"])), Command::Version));
    assert!(matches!(parse_args(&args_of(&["llogin", "--list"])), Command::List));
    assert!(matches!(parse_args(&args_of(&["llogin", "-l"])), Command::List));
}

#[test]
fn parse_args_account_paths() {
    match parse_args(&args_of(&["llogin", "--account", "alice"])) {
        Command::Login { account_id } => assert_eq!(account_id, "alice"),
        _ => panic!("expected a login command"),
    }
    match parse_args(&args_of(&["llogin", "-a", "bob"])) {
        Command::Login { account_id } => assert_eq!(account_id, "bob"),
        _ => panic!("expected a login command"),
    }
    assert!(matches!(
        parse_args(&args_of(&["llogin", "--account"])),
        Command::MissingAccountId
    ));
    assert!(matches!(
        parse_args(&args_of(&["llogin", "-a", "x", "y"])),
        Command::MissingAccountId
    ));
}

#[test]
fn parse_args_interactive_and_unknown() {
    assert!(matches!(parse_args(&args_of(&["llogin"])), Command::Interactive));
    assert!(matches!(parse_args(&args_of(&["llogin", "--frob"])), Command::Unknown));
    assert!(matches!(parse_args(&args_of(&["llogin", "list"])), Command::Unknown));
}

#[test]
fn gate_skipped_only_for_help_and_version() {
    assert!(!gate_required(&Command::Help));
    assert!(!gate_required(&Command::Version));
    assert!(gate_required(&Command::List));
    assert!(gate_required(&Command::Interactive));
    assert!(gate_required(&Command::Unknown));
    assert!(gate_required(&Command::Login { account_id: String::from("x") }));
    assert!(gate_required(&Command::MissingAccountId));
}

#[test]
fn string_helpers_edge_cases() {
    assert!(str_eq("", ""));
    assert!(!str_eq("a", ""));
    assert!(str_eq("abc", "abc"));
    assert!(!str_eq("abc", "abd"));
    assert!(str_starts_with("LPU_USERNAME_x", "LPU_USERNAME_"));
    assert!(!str_starts_with("LPU_", "LPU_USERNAME_"));
    assert!(str_contains("abc", ""));
    assert!(str_contains("abc", "bc"));
    assert!(!str_contains("abc", "cb"));
    assert!(match_at("hello", "ell", 1));
    assert!(!match_at("hello", "ell", 2));
}
