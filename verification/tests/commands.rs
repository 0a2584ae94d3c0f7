use solvedbot::command::{resolve, Command, CommandKind};
use solvedbot::error::BotError;

#[test]
fn parse_label_and_arguments() {
    let mut cmd = Command::new("/problem 1000 abc").unwrap();
    assert_eq!(cmd.label(), "problem");
    assert_eq!(cmd.rest(), "1000 abc");
    assert_eq!(cmd.next_token(), Some("1000"));
    assert_eq!(cmd.next_token(), Some("abc"));
    assert_eq!(cmd.next_token(), None);
}

#[test]
fn parse_bare_command() {
    let mut cmd = Command::new("/user").unwrap();
    assert_eq!(cmd.label(), "user");
    assert_eq!(cmd.rest(), "");
    assert_eq!(cmd.next_token(), None);
}

#[test]
fn parse_rejects_text_without_sigil() {
    let r = Command::new("hello");
    assert!(matches!(r, Err(BotError::NotACommand(ref t)) if t == "hello"));
}

#[test]
fn parse_rejects_empty_text() {
    assert!(matches!(Command::new(""), Err(BotError::NotACommand(_))));
}

#[test]
fn parse_trims_whitespace_runs() {
    let mut cmd = Command::new("/problem   a  b").unwrap();
    assert_eq!(cmd.label(), "problem");
    assert_eq!(cmd.rest(), "a  b");
    assert_eq!(cmd.next_token(), Some("a"));
    assert_eq!(cmd.rest(), "b");
    assert_eq!(cmd.next_token(), Some("b"));
    assert_eq!(cmd.next_token(), None);
}

#[test]
fn parse_restarts_token_stream() {
    let mut first = Command::new("/problem 1 2").unwrap();
    assert_eq!(first.next_token(), Some("1"));
    let mut again = Command::new("/problem 1 2").unwrap();
    assert_eq!(again.next_token(), Some("1"));
    assert_eq!(again.next_token(), Some("2"));
    assert_eq!(again.next_token(), None);
}

#[test]
fn resolve_full_words() {
    assert_eq!(resolve("problem"), Some(CommandKind::Problem));
    assert_eq!(resolve("user"), Some(CommandKind::User));
}

#[test]
fn resolve_abbreviations() {
    assert_eq!(resolve("p"), Some(CommandKind::Problem));
    assert_eq!(resolve("pr"), Some(CommandKind::Problem));
    assert_eq!(resolve("u"), Some(CommandKind::User));
    assert_eq!(resolve("us"), Some(CommandKind::User));
}

#[test]
fn resolve_subsequences() {
    // The policy is a subsequence match, so non-contiguous abbreviations
    // resolve too.
    assert_eq!(resolve("pm"), Some(CommandKind::Problem));
    assert_eq!(resolve("plm"), Some(CommandKind::Problem));
    assert_eq!(resolve("ur"), Some(CommandKind::User));
}

#[test]
fn resolve_unknown_labels_to_nothing() {
    assert_eq!(resolve("xyz"), None);
    assert_eq!(resolve("problems"), None);
    assert_eq!(resolve("problemuser"), None);
}

#[test]
fn resolve_prefers_problem_on_ambiguity() {
    // "e" is a subsequence of both words; the fixed order tries "problem"
    // first. The empty label matches everything the same way.
    assert_eq!(resolve("e"), Some(CommandKind::Problem));
    assert_eq!(resolve(""), Some(CommandKind::Problem));
}
