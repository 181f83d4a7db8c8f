use capscan_leaderboard::history::{history_lines, HistoryEntry};
use capscan_leaderboard::json::{push_json_list, push_json_option, push_json_string};
use capscan_leaderboard::record::{append_entries, write_record};

fn history_entry(name: &str, severity: Option<&str>) -> HistoryEntry {
    HistoryEntry {
        name: name.to_string(),
        old_version: "1.0.0".to_string(),
        new_version: "2.0.0".to_string(),
        checked_at: "2026-01-01T00:00:00+00:00".to_string(),
        worst_severity: severity.map(str::to_string),
        added_signals: 3,
        removed_signals: 1,
        added_dependencies: vec!["new-dep".to_string()],
        removed_dependencies: vec![],
    }
}

fn awkward_text() -> String {
    let mut text = String::new();
    for code in 0..0x100 {
        if let Some(c) = char::from_u32(code) {
            text.push(c);
        }
    }
    text.push_str("\u{2028}\u{1f6e1}\r\n");
    text
}

fn texts(value: &serde_json::Value) -> Vec<String> {
    value.as_array().unwrap().iter().map(|v| v.as_str().unwrap().to_string()).collect()
}

fn assert_records(record: &str, entry: &HistoryEntry) {
    let value: serde_json::Value = serde_json::from_str(record).unwrap();
    assert_eq!(value.as_object().unwrap().len(), 9);
    assert_eq!(value["name"], entry.name.as_str());
    assert_eq!(value["old_version"], entry.old_version.as_str());
    assert_eq!(value["new_version"], entry.new_version.as_str());
    assert_eq!(value["checked_at"], entry.checked_at.as_str());
    assert_eq!(value["worst_severity"].as_str(), entry.worst_severity.as_deref());
    assert_eq!(value["worst_severity"].is_null(), entry.worst_severity.is_none());
    assert_eq!(value["added_signals"].as_u64(), Some(entry.added_signals as u64));
    assert_eq!(value["removed_signals"].as_u64(), Some(entry.removed_signals as u64));
    assert_eq!(texts(&value["added_dependencies"]), entry.added_dependencies);
    assert_eq!(texts(&value["removed_dependencies"]), entry.removed_dependencies);
}

#[test]
fn a_record_is_written_exactly() {
    assert_eq!(
        write_record(&history_entry("a\"b", Some("high"))),
        "{\"name\":\"a\\\"b\",\"old_version\":\"1.0.0\",\"new_version\":\"2.0.0\",\"checked_at\":\"2026-01-01T00:00:00+00:00\",\"worst_severity\":\"high\",\"added_signals\":3,\"removed_signals\":1,\"added_dependencies\":[\"new-dep\"],\"removed_dependencies\":[]}"
    );
    let mut entry = history_entry("a", None);
    entry.removed_dependencies = vec!["x".to_string(), "y".to_string()];
    assert!(write_record(&entry).contains("\"worst_severity\":null,\"added_signals\":3,"));
    assert!(write_record(&entry).ends_with(",\"removed_dependencies\":[\"x\",\"y\"]}"));
}

#[test]
fn json_values_are_written_as_the_serializer_writes_them() {
    let lists: Vec<Vec<String>> = vec![
        vec![],
        vec!["".to_string()],
        vec!["a".to_string(), awkward_text(), "b".to_string()],
    ];
    for list in lists {
        let mut out = "=".to_string();
        push_json_list(&mut out, &list);
        assert_eq!(out, format!("={}", serde_json::to_string(&list).unwrap()));
    }
    for text in [None, Some("".to_string()), Some("null".to_string()), Some(awkward_text())] {
        let mut out = String::new();
        push_json_option(&mut out, &text);
        assert_eq!(out, serde_json::to_string(&text).unwrap());
    }
    let mut out = String::new();
    push_json_string(&mut out, "\u{1}\u{1f}\u{7f}/");
    assert_eq!(out, "\"\\u0001\\u001f\u{7f}/\"");
}

#[test]
fn a_record_stands_on_one_line() {
    let mut entry = history_entry(&awkward_text(), Some(&awkward_text()));
    entry.added_dependencies = vec![awkward_text(), "\n".to_string()];
    let record = write_record(&entry);
    assert_eq!(record.lines().count(), 1);
    assert!(!record.chars().any(|c| c < ' '));
    assert_records(&record, &entry);
}

#[test]
fn appended_entries_are_read_back_in_order() {
    let mut odd = history_entry(&awkward_text(), None);
    odd.added_signals = usize::MAX;
    odd.removed_signals = 0;
    let first = [history_entry("a", Some("high")), odd];
    let second = [history_entry("c", Some("low"))];
    let content = append_entries(None, &first).unwrap();
    let content = append_entries(Some(content), &second).unwrap();
    assert!(content.ends_with('\n'));
    let records = history_lines(&content);
    assert_eq!(records.len(), 3);
    assert_records(&records[0], &first[0]);
    assert_records(&records[1], &first[1]);
    assert_records(&records[2], &second[0]);
}

#[test]
fn other_records_stay_before_the_new_ones() {
    let old = "{ \"name\": \"spaced\" }\n\n";
    let content = append_entries(Some(old.to_string()), &[history_entry("a", None)]).unwrap();
    assert!(content.starts_with(old));
    let records = history_lines(&content);
    assert_eq!(records.len(), 2);
    assert_eq!(records[0], "{ \"name\": \"spaced\" }");
    assert_records(&records[1], &history_entry("a", None));
}

#[test]
fn no_entries_leave_the_file_alone() {
    assert_eq!(append_entries(Some("x\n".to_string()), &[]), None);
    assert_eq!(append_entries(None, &[]), None);
    assert!(history_lines("").is_empty());
}

#[test]
fn different_entries_have_different_records() {
    let entry = history_entry("a", None);
    let mut others = vec![history_entry("b", None), history_entry("a", Some("null"))];
    let mut other = history_entry("a", None);
    other.added_dependencies = vec!["new".to_string(), "dep".to_string()];
    others.push(other);
    let mut other = history_entry("a", None);
    other.added_signals = 31;
    others.push(other);
    for other in others {
        assert_ne!(write_record(&entry), write_record(&other));
    }
}
