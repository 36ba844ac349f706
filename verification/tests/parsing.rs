use scripty::command::parse_run_command;
use scripty::errors::ExecError;
use scripty::script_service::parse_command;
use scripty::tasks::RawTask;

#[test]
fn parse_command_correct() {
    let correct = "~run ```python\ntest\n```";
    let raw = parse_command(correct).unwrap();
    assert_eq!(raw.language, "python");
    assert_eq!(raw.code, "test");
}

#[test]
fn parse_command_incorrect() {
    let incorrect = "~run ```\ntest\n";
    let err = parse_command(incorrect).unwrap_err();
    assert_eq!(err.message(), "RegEx is not match");
}

#[test]
fn raw_task_from() {
    let correct = "~run ```python\ntest\n```";
    let incorrect = "~run ```\ntest\n";

    let task = RawTask::from_command(correct).unwrap();
    assert_eq!(task.code, "test");
    assert_eq!(task.lang_str, "python");

    RawTask::from_command(incorrect).unwrap_err();
}

#[test]
fn parse_allows_spaces_before_fence() {
    let cmd = "~run   ```python\nx\n```";
    let (lang, code) = parse_run_command(cmd).unwrap();
    assert_eq!(lang, "python");
    assert_eq!(code, "x");
}

#[test]
fn parse_empty_language_tag() {
    let cmd = "~run ```\ntest\n```";
    let (lang, code) = parse_run_command(cmd).unwrap();
    assert_eq!(lang, "");
    assert_eq!(code, "test");
}

#[test]
fn parse_code_extends_to_last_fence() {
    let cmd = "~run ```python\na\n```\n```";
    let (lang, code) = parse_run_command(cmd).unwrap();
    assert_eq!(lang, "python");
    assert_eq!(code, "a\n```");
}

#[test]
fn parse_ignores_text_after_closing_fence() {
    let cmd = "~run ```python\ntest\n``` trailing words";
    let (lang, code) = parse_run_command(cmd).unwrap();
    assert_eq!(lang, "python");
    assert_eq!(code, "test");
}

#[test]
fn parse_multiline_code() {
    let cmd = "~run ```rust\nfn main() {\n    println!(\"hi\");\n}\n```";
    let (lang, code) = parse_run_command(cmd).unwrap();
    assert_eq!(lang, "rust");
    assert_eq!(code, "fn main() {\n    println!(\"hi\");\n}");
}

#[test]
fn parse_rejects_missing_prefix() {
    assert!(parse_run_command("run ```python\ntest\n```").is_none());
}

#[test]
fn parse_rejects_uppercase_tag() {
    assert!(parse_run_command("~run ```Python\ntest\n```").is_none());
}

#[test]
fn parse_rejects_single_newline_block() {
    assert!(parse_run_command("~run ```python\n```").is_none());
}

#[test]
fn parse_error_is_invalid_command() {
    let err = scripty::languages::parse("nonsense").unwrap_err();
    assert_eq!(err, ExecError::InvalidCommand);
}

#[test]
fn languages_parse_returns_pair() {
    let (lang, code) = scripty::languages::parse("~run ```python\nprint('hi')\n```").unwrap();
    assert_eq!(lang, "python");
    assert_eq!(code, "print('hi')");
}
