use minishell::parsing::Parsing;

#[test]
fn parse_cmd_takes_the_first_word() {
    let mut p = Parsing::new();
    assert_eq!(p.parse_cmd("ls -l"), Ok(()));
    assert_eq!(p.get_cmd(), "ls");
}

#[test]
fn parse_cmd_rejects_unknown_commands() {
    let mut p = Parsing::new();
    assert_eq!(p.parse_cmd("grep x"), Err("Command grep not found".to_string()));
    assert_eq!(p.parse_cmd("LS"), Err("Command LS not found".to_string()));
    assert_eq!(p.get_cmd(), "");
}

#[test]
fn parse_cmd_accepts_the_whole_builtin_table() {
    let mut p = Parsing::new();
    for name in ["cat", "cd", "cp", "echo", "exit", "ls", "mkdir", "mv", "pwd", "rm", "touch", "clear"] {
        assert_eq!(p.parse_cmd(&format!("{} x", name)), Ok(()));
        assert_eq!(p.get_cmd(), name);
    }
}

#[test]
fn parse_args_splits_on_spaces_and_quotes() {
    let mut p = Parsing::new();
    assert!(!p.parse_args("a  'b c' d"));
    assert_eq!(p.get_args(), vec!["a", "b c", "d"]);
}

#[test]
fn parse_args_continues_an_open_quote() {
    let mut p = Parsing::new();
    assert!(p.parse_args("\"a"));
    assert!(!p.continue_args("b\""));
    assert_eq!(p.get_args(), vec!["a\nb"]);
}

#[test]
fn parsing_setters() {
    let mut p = Parsing::new();
    p.set_cmd("cd".to_string());
    p.set_args(vec!["x".to_string()]);
    p.add_arg(String::new());
    p.add_arg("y".to_string());
    assert_eq!(p.get_cmd(), "cd");
    assert_eq!(p.get_args(), vec!["x", "y"]);
    p.set_arg("z".to_string());
    p.parse_args("");
    assert_eq!(p.get_args(), vec!["x", "y", "z"]);
}
