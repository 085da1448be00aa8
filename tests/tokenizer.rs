use minishell::builtins::{not_found, Builtin};
use minishell::shell::{prompt_path, Pending, Shell};

fn shell_with_home(home: &str) -> Shell {
    let mut shell = Shell::new();
    shell.set_home(home.to_string());
    shell
}

fn tokenize(line: &str) -> Vec<String> {
    let mut shell = shell_with_home("/home/user");
    assert_eq!(shell.parse_input(line), Pending::Nothing);
    shell.args.clone()
}

#[test]
fn quoted_space_stays_in_one_word() {
    assert_eq!(tokenize("echo \"a b\" c"), vec!["echo", "a b", "c"]);
}

#[test]
fn adjacent_quoted_and_plain_text_concatenate() {
    assert_eq!(tokenize("echo \"ab\"cd"), vec!["echo", "abcd"]);
}

#[test]
fn backslash_before_dollar_in_double_quotes_is_dropped() {
    assert_eq!(tokenize("echo \"a\\$b\""), vec!["echo", "a$b"]);
}

#[test]
fn backslash_before_ordinary_char_in_double_quotes_is_kept() {
    assert_eq!(tokenize("echo \"a\\nb\""), vec!["echo", "a\\nb"]);
}

#[test]
fn backslash_outside_quotes_escapes_the_next_char() {
    assert_eq!(tokenize("echo a\\ b"), vec!["echo", "a b"]);
    assert_eq!(tokenize("echo a\\nb"), vec!["echo", "anb"]);
}

#[test]
fn backslash_is_literal_inside_single_quotes() {
    assert_eq!(tokenize("echo 'a\\b'"), vec!["echo", "a\\b"]);
}

#[test]
fn unterminated_quote_continues_on_next_line() {
    let mut shell = shell_with_home("/home/user");
    assert_eq!(shell.parse_input("echo \"a"), Pending::DoubleQuote);
    assert_eq!(Pending::DoubleQuote.prompt(), Some("dquote>"));
    assert_eq!(shell.continue_input("b\""), Pending::Nothing);
    assert_eq!(shell.args, vec!["echo", "a\nb"]);
}

#[test]
fn unterminated_single_quote_asks_with_quote_prompt() {
    let mut shell = shell_with_home("/home/user");
    assert_eq!(shell.parse_input("echo 'x"), Pending::SingleQuote);
    assert_eq!(Pending::SingleQuote.prompt(), Some("quote>"));
    assert_eq!(Pending::Nothing.prompt(), None);
}

#[test]
fn trailing_backslash_continues_the_line() {
    let mut shell = shell_with_home("/home/user");
    assert_eq!(shell.parse_input("echo a\\"), Pending::Escape);
    assert_eq!(Pending::Escape.prompt(), Some(">"));
    assert_eq!(shell.continue_input("b"), Pending::Nothing);
    assert_eq!(shell.args, vec!["echo", "a\nb"]);
}

#[test]
fn end_of_input_inside_quote_is_a_syntax_error() {
    let mut shell = shell_with_home("/home/user");
    assert_eq!(shell.parse_input("echo \"abc"), Pending::DoubleQuote);
    let err = shell.end_of_input().unwrap_err();
    assert_eq!(
        err,
        "\nunexpected EOF while looking for matching `\"'\nsyntax error: unexpected end of file"
    );
    assert!(shell.args.is_empty());
}

#[test]
fn end_of_input_after_escape_completes_the_line() {
    let mut shell = shell_with_home("/home/user");
    assert_eq!(shell.parse_input("ls a\\"), Pending::Escape);
    assert_eq!(shell.end_of_input(), Ok(()));
    assert_eq!(shell.args, vec!["ls", "a"]);
}

#[test]
fn tilde_becomes_home() {
    assert_eq!(tokenize("cd ~"), vec!["cd", "/home/user"]);
}

#[test]
fn tilde_slash_prefix_becomes_home_prefix() {
    assert_eq!(tokenize("ls ~/x"), vec!["ls", "/home/user/x"]);
    assert_eq!(tokenize("ls ~x"), vec!["ls", "~x"]);
    assert_eq!(tokenize("ls a~/x"), vec!["ls", "a~/x"]);
}

#[test]
fn quoted_tilde_is_not_substituted() {
    assert_eq!(tokenize("ls \"~\""), vec!["ls", "~"]);
}

#[test]
fn repeated_spaces_make_no_empty_words() {
    assert_eq!(tokenize("   ls    -l   "), vec!["ls", "-l"]);
    assert!(tokenize("").is_empty());
    assert!(tokenize("\"\"").is_empty());
}

#[test]
fn add_arg_trims_and_substitutes() {
    let mut shell = shell_with_home("/h");
    shell.set_arg("\t~/d ".to_string());
    shell.add_arg();
    assert_eq!(shell.args, vec!["/h/d"]);
    shell.set_arg("\t ".to_string());
    shell.add_arg();
    assert_eq!(shell.args, vec!["/h/d"]);
}

#[test]
fn add_arg_with_quotes_keeps_spaces() {
    let mut shell = Shell::new();
    shell.add_arg_with_quotes(" a ".to_string());
    shell.add_arg_with_quotes(String::new());
    assert_eq!(shell.args, vec![" a "]);
}

#[test]
fn set_current_path_ignores_empty() {
    let mut shell = Shell::new();
    shell.set_current_path("/tmp".to_string());
    shell.set_current_path(String::new());
    assert_eq!(shell.current_path, "/tmp");
}

#[test]
fn command_line_splits_command_and_arguments() {
    let mut shell = shell_with_home("/h");
    shell.parse_input("ls -l /tmp");
    let (cmd, args) = shell.command_line().unwrap();
    assert_eq!(cmd, "ls");
    assert_eq!(args, vec!["-l", "/tmp"]);
    shell.set_args(vec![]);
    assert!(shell.command_line().is_none());
}

#[test]
fn builtin_table_is_case_sensitive() {
    assert_eq!(Builtin::from_name("ls"), Some(Builtin::Ls));
    assert_eq!(Builtin::from_name("touch"), Some(Builtin::Touch));
    assert_eq!(Builtin::from_name("clear"), Some(Builtin::Clear));
    assert_eq!(Builtin::from_name("LS"), None);
    assert_eq!(Builtin::from_name("grep"), None);
    assert_eq!(not_found("grep"), "Command grep not found");
}

#[test]
fn prompt_abbreviates_home() {
    assert_eq!(prompt_path("/home/user/src$", "/home/user"), "~/src$");
    assert_eq!(prompt_path("/tmp$", "/home/user"), "/tmp$");
}
