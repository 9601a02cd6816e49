use volt::config::VoltConfig;
use volt::errors::VoltError;
use volt::git::{get_git_config, git_config_path, git_config_query};

const FILE: &str = "[user]\n\tname = Jane Doe\n\temail = jane@example.org\n[remote \"origin\"]\n\turl = https://example.org/repo.git\n";

#[test]
fn supported_keys() {
    assert_eq!(get_git_config("user.name", Some(FILE)).unwrap().as_deref(), Some("Jane Doe"));
    assert_eq!(get_git_config("user.email", Some(FILE)).unwrap().as_deref(), Some("jane@example.org"));
    assert_eq!(
        get_git_config("repository.url", Some(FILE)).unwrap().as_deref(),
        Some("https://example.org/repo.git")
    );
}

#[test]
fn other_keys_and_missing_values() {
    // the key `init` asks for the repository with is not one of the supported keys
    assert_eq!(get_git_config("remote.origin.url", Some(FILE)).unwrap(), None);
    assert!(git_config_query("core.editor").is_none());
    assert_eq!(get_git_config("user.name", None).unwrap(), None);
    assert_eq!(get_git_config("user.name", Some("[core]\n\tbare = false\n")).unwrap(), None);
}

#[test]
fn parse_errors() {
    match get_git_config("user.name", Some("[user\nname = x\n")) {
        Err(VoltError::GitConfigParseError { error_text }) => assert!(!error_text.is_empty()),
        other => panic!("unexpected {:?}", other),
    }
}

fn parse_error_text(key: &str, data: &str) -> String {
    match get_git_config(key, Some(data)) {
        Err(VoltError::GitConfigParseError { error_text }) => error_text,
        other => panic!("unexpected {:?}", other),
    }
}

#[test]
fn parse_error_messages() {
    assert_eq!(
        parse_error_text("user.name", "[user\nname = x\n"),
        "Got an unexpected token on line 1 while trying to parse a section header: '[user\nname' ... (5 characters omitted)"
    );
    assert_eq!(
        parse_error_text("user.email", "[x"),
        "Got an unexpected token on line 1 while trying to parse a section header: '[x'"
    );
    // ten bytes would cut the last character in two: the text stops before it
    assert_eq!(
        parse_error_text("user.name", "a\u{e9}\u{e9}\u{e9}\u{e9}\u{e9}"),
        "Got an unexpected token on line 1 while trying to parse a section header: 'a\u{e9}\u{e9}\u{e9}\u{e9}' ... (1 characters omitted)"
    );
    assert_eq!(
        parse_error_text("user.name", "\n\n[user]\n\tname = x\n]]"),
        "Got an unexpected token on line 5 while trying to parse a config name: ']]'"
    );
}

#[test]
fn config_file_place() {
    let c = VoltConfig::initialize(Ok("/w".to_string()), Some("/home/u".to_string()), "linux".to_string()).unwrap();
    assert_eq!(git_config_path(&c), "/home/u/.gitconfig");
}
