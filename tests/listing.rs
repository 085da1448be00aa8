use minishell::cp::Cp;
use minishell::ls::{
    access_error, format_modified_time, get_file_type, get_file_type_symbols, get_modified_time, get_permissions,
    major_minor, Entity, EntityType, Flags, List, LsConfig, Stat, Target,
};
use minishell::paths::{file_name, get_parent, join_path};

fn stat(mode: u32) -> Stat {
    Stat { mode, nlink: 1, uid: 1000, gid: 1000, size: 42, mtime: 0, blocks: 8, rdev: 0 }
}

fn entity(name: &str, mode: u32) -> Entity {
    Entity::named(name.to_string(), format!("/d/{}", name), stat(mode))
}

fn target(name: &str, mode: u32) -> Target {
    Target(name.to_string(), entity(name, mode))
}

fn args(v: &[&str]) -> Vec<String> {
    v.iter().map(|s| s.to_string()).collect()
}

const FILE: u32 = 0o100644;
const DIR: u32 = 0o040755;

#[test]
fn regular_file_permissions_round_trip() {
    let (symbol, _) = get_file_type_symbols(get_file_type(0o100644));
    assert_eq!(format!("{}{}", symbol, get_permissions(0o100644, false)), "-rw-r--r--");
}

#[test]
fn special_bits_in_permissions() {
    assert_eq!(get_permissions(0o4755, false), "rwsr-xr-x");
    assert_eq!(get_permissions(0o4644, false), "rwSr--r--");
    assert_eq!(get_permissions(0o2755, false), "rwxr-sr-x");
    assert_eq!(get_permissions(0o2745, false), "rwxr-Sr-x");
    assert_eq!(get_permissions(0o1777, false), "rwxrwxrwt");
    assert_eq!(get_permissions(0o1776, false), "rwxrwxrwT");
    assert_eq!(get_permissions(0o640, true), "rw-r-----+");
}

#[test]
fn file_types_from_mode() {
    assert_eq!(get_file_type(0o100644), EntityType::File);
    assert_eq!(get_file_type(0o100744), EntityType::Executable);
    assert_eq!(get_file_type(0o040755), EntityType::Dir);
    assert_eq!(get_file_type(0o120777), EntityType::SymLink);
    assert_eq!(get_file_type(0o020620), EntityType::CharacterDevice);
    assert_eq!(get_file_type(0o060660), EntityType::BlockDevice);
    assert_eq!(get_file_type(0o010644), EntityType::Fifo);
    assert_eq!(get_file_type(0o140755), EntityType::Socket);
    assert_eq!(get_file_type(0o644), EntityType::Unknown);
    assert_eq!(get_file_type_symbols(EntityType::Dir), ("d", "/"));
    assert_eq!(get_file_type_symbols(EntityType::Executable), ("-", "*"));
    assert_eq!(get_file_type_symbols(EntityType::Fifo), ("p", "|"));
    assert_eq!(get_file_type_symbols(EntityType::Socket), ("s", "="));
    assert_eq!(get_file_type_symbols(EntityType::SymLink), ("l", "@"));
}

#[test]
fn device_numbers() {
    assert_eq!(major_minor(EntityType::BlockDevice, (8 << 8) | 1), Some((8, 1)));
    assert_eq!(major_minor(EntityType::CharacterDevice, (4 << 8) | 0x40 | (0x12 << 20)), Some((4, 0x1240)));
    assert_eq!(major_minor(EntityType::File, 2049), None);
}

#[test]
fn targets_sort_files_before_directories() {
    let mut ls = LsConfig::new(args(&["b", "A", "c", "a"]), "/d".to_string()).unwrap();
    ls.parse_targets(vec![
        target("b", DIR),
        target("A", DIR),
        target("c", FILE),
        target("a", FILE),
        target("B", FILE),
    ]);
    let names: Vec<&str> = ls.targets.iter().map(|t| t.0.as_str()).collect();
    assert_eq!(names, vec!["B", "a", "c", "A", "b"]);
}

#[test]
fn dotfiles_interleave_with_other_entries() {
    let mut list = List::new(".".to_string());
    list.get_items(vec![entity(".c", FILE), entity("b", FILE), entity(".a", FILE)]);
    let names: Vec<&str> = list.items.iter().map(|e| e.name.as_str()).collect();
    assert_eq!(names, vec![".a", "b", ".c"]);
    assert_eq!(list.total, 12);
}

#[test]
fn entries_sort_case_sensitively() {
    let mut list = List::new(".".to_string());
    list.get_items(vec![entity("b", FILE), entity("B", FILE), entity("..", DIR), entity(".", DIR)]);
    let names: Vec<&str> = list.items.iter().map(|e| e.name.as_str()).collect();
    assert_eq!(names, vec![".", "..", "B", "b"]);
}

#[test]
fn missing_target_is_reported_and_others_still_render() {
    let msg = access_error("nope", "No such file or directory (os error 2)", Some(2));
    assert_eq!(msg, Some("ls: cannot access 'nope': No such file or directory".to_string()));
    let mut ls = LsConfig::new(args(&["nope", "f"]), "/d".to_string()).unwrap();
    ls.parse_targets(vec![target("f", FILE)]);
    assert_eq!(ls.targets.len(), 1);
    let t = &ls.targets[0];
    let mut list = List::new(t.0.clone());
    list.get_items(vec![t.1.clone()]);
    assert_eq!(ls.render_section(0, t, &list, 0), "f\n");
}

#[test]
fn access_error_without_code_is_silent() {
    assert_eq!(access_error("x", "other", None), None);
    assert_eq!(
        access_error("x", "Not a directory (os error 20)", Some(20)),
        Some("ls: cannot access 'x': Not a directory".to_string())
    );
    assert_eq!(
        access_error("x", "odd text", Some(5)),
        Some("ls: cannot access 'x': odd text".to_string())
    );
}

#[test]
fn invalid_flag_aborts() {
    match LsConfig::new(args(&["-z"]), "/d".to_string()) {
        Err(e) => assert_eq!(e, "ls: invalid option -- 'z'"),
        Ok(_) => panic!("accepted an invalid option"),
    }
    match LsConfig::new(args(&["-lz", "x"]), "/d".to_string()) {
        Err(e) => assert_eq!(e, "ls: invalid option -- 'z'"),
        Ok(_) => panic!("accepted an invalid option"),
    }
}

#[test]
fn flags_combine_and_double_dash_ends_them() {
    let ls = LsConfig::new(args(&["-la", "-F", "x", "--", "-l", "--"]), "/d".to_string()).unwrap();
    assert_eq!(ls.flags, Flags { long: true, all: true, classify: true });
    assert_eq!(ls.target_args, vec!["x", "-l", "--"]);
    assert_eq!(ls.targets_len, 3);
    let ls = LsConfig::new(args(&["-a"]), "/d".to_string()).unwrap();
    assert_eq!(ls.flags, Flags { long: false, all: true, classify: false });
}

#[test]
fn targets_resolve_against_current_directory() {
    let ls = LsConfig::new(args(&["x", "/abs"]), "/cur".to_string()).unwrap();
    assert_eq!(ls.absolute_path("y".to_string()), "/cur/y");
    assert_eq!(
        ls.target_requests(),
        vec![("x".to_string(), "/cur/x".to_string()), ("/abs".to_string(), "/abs".to_string())]
    );
    let ls = LsConfig::new(vec![], "/cur".to_string()).unwrap();
    assert_eq!(ls.target_requests(), vec![(".".to_string(), "/cur/.".to_string())]);
}

#[test]
fn entry_requests_filter_dotfiles() {
    let children = args(&[".hidden", "b", "a"]);
    let plain = Flags { long: false, all: false, classify: false };
    assert_eq!(
        List::entry_requests("/d", &children, plain),
        vec![("b".to_string(), "/d/b".to_string()), ("a".to_string(), "/d/a".to_string())]
    );
    let all = Flags { long: false, all: true, classify: false };
    assert_eq!(
        List::entry_requests("/d/", &children, all),
        vec![
            (".".to_string(), "/d/".to_string()),
            ("..".to_string(), "/".to_string()),
            (".hidden".to_string(), "/d/.hidden".to_string()),
            ("b".to_string(), "/d/b".to_string()),
            ("a".to_string(), "/d/a".to_string()),
        ]
    );
}

#[test]
fn symlink_targets_expand_only_when_asked() {
    let plain = Flags { long: false, all: false, classify: false };
    let long = Flags { long: true, all: false, classify: false };
    let mut link = target("l/", 0o120777);
    link.1.link_mode = Some(DIR);
    assert!(!List::expands(&link, plain));
    assert!(List::expands(&link, long));
    link.0 = "l".to_string();
    assert!(!List::expands(&link, long));
    assert!(List::expands(&target("d", DIR), plain));
    assert!(!List::expands(&target("f", FILE), long));
}

#[test]
fn short_rows_with_classification() {
    let mut exe = entity("run", 0o100755);
    assert_eq!(exe.render(false, true, 0), "run*\n");
    assert_eq!(exe.render(false, false, 0), "run\n");
    exe = entity("d", DIR);
    assert_eq!(exe.render(false, true, 0), "d/\n");
    let mut link = entity("l", 0o120777);
    link.link_target = Some("d".to_string());
    link.link_mode = Some(DIR);
    assert_eq!(link.render(false, true, 0), "l@\n");
    link.link_mode = None;
    assert_eq!(link.render(false, true, 0), "l\n");
}

#[test]
fn long_row_layout() {
    let mut e = entity("notes.txt", FILE);
    e.owner = Some("alice".to_string());
    assert_eq!(
        e.render(true, false, 1_700_000_000),
        "-rw-r--r--    1 alice    1000           42 Jan  1  1970 notes.txt\n"
    );
}

#[test]
fn long_row_of_link_and_device() {
    let mut link = entity("l", 0o120777);
    link.link_target = Some("/etc".to_string());
    link.link_mode = Some(DIR);
    link.owner = Some("root".to_string());
    link.group = Some("root".to_string());
    link.stat.size = 4;
    assert_eq!(
        link.render(true, true, 0),
        "lrwxrwxrwx    1 root     root            4 Jan  1  1970 l -> /etc/\n"
    );
    let mut dev = entity("sda1", 0o060660);
    dev.stat.rdev = (8 << 8) | 1;
    dev.owner = Some("root".to_string());
    dev.group = Some("disk".to_string());
    assert_eq!(
        dev.render(true, false, 0),
        "brw-rw----    1 root     disk         8, 1 Jan  1  1970 sda1\n"
    );
}

#[test]
fn modified_time_recent_and_old() {
    let now = 1_700_000_000;
    assert_eq!(get_modified_time(now - 60, now), "Nov 14 23:12");
    assert_eq!(get_modified_time(0, now), "Jan  1  1970");
    assert_eq!(get_modified_time(now + 3600, now), "Nov 15  2023");
    assert_eq!(get_modified_time(9_000_000_000_000, now), "9000000000000");
}

#[test]
fn section_headers_and_total() {
    let mut ls = LsConfig::new(args(&["-l", "d", "e"]), "/".to_string()).unwrap();
    ls.parse_targets(vec![target("d", DIR), target("e", DIR)]);
    let mut list = List::new("e".to_string());
    list.get_items(vec![]);
    assert_eq!(ls.render_section(1, &ls.targets[1], &list, 0), "\ne:\ntotal 0\n");
    let ls = LsConfig::new(args(&["d"]), "/".to_string()).unwrap();
    let t = target("d", DIR);
    let mut list = List::new("d".to_string());
    list.get_items(vec![entity("x", FILE)]);
    assert_eq!(ls.render_section(0, &t, &list, 0), "x\n");
}

#[test]
fn path_helpers() {
    assert_eq!(get_parent("/a/b"), "/a");
    assert_eq!(get_parent("/"), "/");
    assert_eq!(file_name("/a/b.txt"), "b.txt");
    assert_eq!(file_name("/"), "");
    assert_eq!(join_path("/a", "b"), "/a/b");
    assert_eq!(join_path("/a/", "b"), "/a/b");
    assert_eq!(Entity::new("/x/y".to_string(), stat(FILE)).name, "y");
}

#[test]
fn cp_starts_empty() {
    let cp = Cp::new();
    assert!(cp.options.is_empty());
    assert!(cp.target.is_empty());
}

#[test]
fn time_column_from_calendar_fields() {
    let now = 1_000_000_000;
    assert_eq!(format_modified_time(Some((2001, 9, 9, 2, 5)), now - 10, now), "Sep  9 02:05");
    assert_eq!(format_modified_time(Some((1999, 12, 31, 23, 59)), 900_000_000, now), "Dec 31  1999");
    assert_eq!(format_modified_time(Some((12345, 1, 10, 0, 0)), now + 1, now), "Jan 10  +12345");
    assert_eq!(format_modified_time(Some((-7, 2, 3, 0, 0)), -1, now), "Feb  3  -0007");
    assert_eq!(format_modified_time(Some((42, 3, 4, 0, 0)), -1, now), "Mar  4  0042");
    assert_eq!(format_modified_time(None, -12, now), "-12");
}

#[test]
fn get_items_adds_to_what_the_list_holds() {
    let mut list = List::new(".".to_string());
    list.get_items(vec![entity("b", FILE)]);
    list.get_items(vec![entity("a", FILE), entity(".c", FILE)]);
    let names: Vec<&str> = list.items.iter().map(|e| e.name.as_str()).collect();
    assert_eq!(names, vec!["a", "b", ".c"]);
    assert_eq!(list.total, 12);
    list.get_items(vec![]);
    assert_eq!(list.items.len(), 3);
    assert_eq!(list.total, 12);
}

#[test]
fn a_single_row_leaves_total_unchanged() {
    let mut list = List::new("f".to_string());
    list.add_item(entity("f", FILE));
    assert_eq!(list.items.len(), 1);
    assert_eq!(list.total, 0);
    let mut link = entity("l", 0o120777);
    link.link_mode = Some(DIR);
    list.add_item(link);
    let names: Vec<&str> = list.items.iter().map(|e| e.name.as_str()).collect();
    assert_eq!(names, vec!["f", "l"]);
    assert_eq!(list.total, 0);
}

#[test]
fn parse_targets_keeps_earlier_targets() {
    let mut ls = LsConfig::new(args(&["a", "b"]), "/d".to_string()).unwrap();
    ls.parse_targets(vec![target("b", DIR)]);
    ls.parse_targets(vec![target("a", FILE)]);
    let names: Vec<&str> = ls.targets.iter().map(|t| t.0.as_str()).collect();
    assert_eq!(names, vec!["a", "b"]);
    ls.parse_targets(vec![]);
    assert_eq!(ls.targets.len(), 2);
}
