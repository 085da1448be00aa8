use minishell::cd::get_logical_path;

#[test]
fn dot_dot_removes_the_previous_component() {
    assert_eq!(get_logical_path("/a/b/../c"), "/a/c");
    assert_eq!(get_logical_path("/a/b/../../c"), "/c");
}

#[test]
fn dot_dot_never_removes_the_first_component() {
    assert_eq!(get_logical_path("a/../b"), "a/b");
    assert_eq!(get_logical_path("/../x"), "/x");
    assert_eq!(get_logical_path("../x"), "x");
}

#[test]
fn paths_without_dot_dot_are_unchanged() {
    assert_eq!(get_logical_path("/home/user"), "/home/user");
    assert_eq!(get_logical_path(""), "");
    assert_eq!(get_logical_path("a//b/"), "a//b/");
}
