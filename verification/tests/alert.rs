use capscan_leaderboard::alert::{
    failure_warning, format_alert_message, high_severity_entries, pending_alerts, post_arguments,
    webhook_body,
};
use capscan_leaderboard::history::HistoryEntry;

fn history_entry(name: &str, severity: Option<&str>) -> HistoryEntry {
    HistoryEntry {
        name: name.to_string(),
        old_version: "1.0.0".to_string(),
        new_version: "2.0.0".to_string(),
        checked_at: "2026-01-01T00:00:00+00:00".to_string(),
        worst_severity: severity.map(str::to_string),
        added_signals: 3,
        removed_signals: 1,
        added_dependencies: vec!["new-dep".to_string()],
        removed_dependencies: vec![],
    }
}

#[test]
fn high_severity_entries_filters_by_severity() {
    let entries = vec![
        history_entry("a", Some("high")),
        history_entry("b", Some("medium")),
        history_entry("c", None),
        history_entry("d", Some("high")),
    ];
    let high = high_severity_entries(&entries);
    let names: Vec<&str> = high.iter().map(|e| e.name.as_str()).collect();
    assert_eq!(names, vec!["a", "d"]);
}

#[test]
fn alert_message_includes_key_details() {
    let entry = history_entry("anyhow", Some("high"));
    let message = format_alert_message(&entry);
    assert!(message.contains("anyhow"));
    assert!(message.contains("1.0.0"));
    assert!(message.contains("2.0.0"));
    assert!(message.contains("HIGH"));
    assert!(message.contains("+3 signal"));
    assert!(message.contains("capscan-leaderboard"));
}

#[test]
fn the_alert_message_is_written_exactly() {
    assert_eq!(
        format_alert_message(&history_entry("anyhow", Some("high"))),
        "capscan leaderboard: anyhow 1.0.0 -> 2.0.0 introduced a HIGH severity capability (+3 signal(s), -1 signal(s)). https://poglesbyg.github.io/capscan-leaderboard/#anyhow"
    );
}

#[test]
fn send_alerts_is_a_noop_without_webhook_url_env_set() {
    let entries = [history_entry("x", Some("high"))];
    assert!(pending_alerts(None, &entries).is_empty());
    assert!(pending_alerts(Some(""), &entries).is_empty());
    assert!(pending_alerts(Some(" \t\n"), &entries).is_empty());
}

#[test]
fn one_alert_is_sent_for_each_high_severity_change() {
    let entries = [
        history_entry("a", Some("high")),
        history_entry("b", Some("High")),
        history_entry("c", Some("high")),
        history_entry("d", None),
    ];
    let alerts = pending_alerts(Some("http://127.0.0.1/hook"), &entries);
    assert_eq!(alerts.len(), 2);
    assert_eq!(alerts[0].name, "a");
    assert_eq!(alerts[1].name, "c");
    assert_eq!(alerts[1].message, format_alert_message(&entries[2]));
}

#[test]
fn the_body_carries_the_message_under_both_names() {
    assert_eq!(
        webhook_body("hello from a real test"),
        "{\"content\":\"hello from a real test\",\"text\":\"hello from a real test\"}"
    );
}

#[test]
fn the_body_is_json_whatever_the_message_holds() {
    let mut message = String::new();
    for code in 0..0x100 {
        if let Some(c) = char::from_u32(code) {
            message.push(c);
        }
    }
    message.push_str("\u{2028}\u{1f6e1}");
    let body = webhook_body(&message);
    let value: serde_json::Value = serde_json::from_str(&body).unwrap();
    assert_eq!(value["text"], message.as_str());
    assert_eq!(value["content"], message.as_str());
    assert!(!body.contains('\n'));
}

#[test]
fn special_characters_are_escaped_in_the_body() {
    let body = webhook_body("\"\\\u{8}\u{c}\n\r\t\u{0}\u{1f}\u{7f}/<\u{e9}");
    let quoted = "\"\\\"\\\\\\b\\f\\n\\r\\t\\u0000\\u001f\u{7f}/<\u{e9}\"";
    assert_eq!(body, format!("{{\"content\":{quoted},\"text\":{quoted}}}"));
}

#[test]
fn different_messages_have_different_bodies() {
    assert_ne!(webhook_body("\n"), webhook_body("\\n"));
    assert_ne!(webhook_body("a"), webhook_body("b"));
}

#[test]
fn the_command_posts_the_body_to_the_address() {
    assert_eq!(
        post_arguments("http://127.0.0.1/", "{}"),
        vec![
            "-sS",
            "-X",
            "POST",
            "-H",
            "Content-Type: application/json",
            "-d",
            "{}",
            "http://127.0.0.1/",
        ]
    );
}

#[test]
fn a_failed_alert_is_warned_about() {
    assert_eq!(
        failure_warning("anyhow", "curl exited with 7"),
        "warning: failed to send webhook alert for anyhow: curl exited with 7"
    );
}
