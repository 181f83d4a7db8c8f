use capscan_leaderboard::crate_list::parse_crate_list;

#[test]
fn names_are_read_one_per_line() {
    assert_eq!(parse_crate_list("serde\nanyhow\n"), vec!["serde", "anyhow"]);
    assert_eq!(parse_crate_list("serde\r\nanyhow"), vec!["serde", "anyhow"]);
}

#[test]
fn comments_and_blank_lines_do_not_count() {
    let content = "# popular crates\n\n  serde  \n   # indented\n\t\nlibc # not a comment\n#\n";
    assert_eq!(parse_crate_list(content), vec!["serde", "libc # not a comment"]);
}

#[test]
fn an_empty_list_names_nothing() {
    assert!(parse_crate_list("").is_empty());
    assert!(parse_crate_list("\n\n").is_empty());
}

#[test]
fn a_line_behind_a_complete_list_adds_its_name() {
    let content = "b\n#x\na\n";
    let mut names = parse_crate_list(content);
    names.push("c".to_string());
    assert_eq!(parse_crate_list(&format!("{content}c\n")), names);
    assert_eq!(parse_crate_list(&format!("{content}c\n# c\n \n")), names);
}

#[test]
fn a_crate_listed_twice_is_read_twice() {
    assert_eq!(parse_crate_list("a\nb\na\n"), vec!["a", "b", "a"]);
}
