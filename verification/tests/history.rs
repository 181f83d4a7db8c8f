use capscan_leaderboard::history::{append_records, history_lines};

#[test]
fn no_records_leave_the_file_alone() {
    let none: Vec<String> = vec![];
    assert_eq!(append_records(Some("x\n".to_string()), &none), None);
    assert_eq!(append_records(None, &none), None);
}

#[test]
fn records_are_added_at_the_end() {
    let records = vec!["{\"a\":1}".to_string(), "{\"b\":2}".to_string()];
    assert_eq!(
        append_records(None, &records),
        Some("{\"a\":1}\n{\"b\":2}\n".to_string())
    );
    assert_eq!(
        append_records(Some("{\"c\":3}\n".to_string()), &records),
        Some("{\"c\":3}\n{\"a\":1}\n{\"b\":2}\n".to_string())
    );
}

#[test]
fn blank_lines_hold_no_record() {
    assert_eq!(history_lines("a\n\n  \nb\r\n\t"), vec!["a", "b"]);
    assert!(history_lines("").is_empty());
    assert_eq!(history_lines("  a \n"), vec!["  a "]);
}

#[test]
fn appended_records_are_read_back_behind_the_old_ones() {
    let old = "one\n\ntwo\n";
    let records = vec!["three".to_string(), "four".to_string()];
    let content = append_records(Some(old.to_string()), &records).unwrap();
    assert!(content.starts_with(old));
    assert_eq!(history_lines(&content), vec!["one", "two", "three", "four"]);
    let again = append_records(Some(content), &vec!["five".to_string()]).unwrap();
    assert_eq!(history_lines(&again).len(), 5);
}

#[test]
fn records_behind_an_unfinished_line_join_it() {
    let content = append_records(Some("one".to_string()), &vec!["two".to_string()]).unwrap();
    assert_eq!(history_lines(&content), vec!["onetwo"]);
}
