use capscan_leaderboard::feed::{render_atom_feed, render_atom_feed_at, FEED_ENTRY_LIMIT};
use capscan_leaderboard::history::HistoryEntry;

fn history_entry(name: &str, severity: Option<&str>) -> HistoryEntry {
    HistoryEntry {
        name: name.to_string(),
        old_version: "1.0.0".to_string(),
        new_version: "2.0.0".to_string(),
        checked_at: "2026-01-01T00:00:00+00:00".to_string(),
        worst_severity: severity.map(str::to_string),
        added_signals: 3,
        removed_signals: 1,
        added_dependencies: vec!["new-dep".to_string()],
        removed_dependencies: vec![],
    }
}

#[test]
fn atom_feed_contains_entry_details_and_is_escaped() {
    let entry = history_entry("weird<>&name", Some("high"));
    let feed = render_atom_feed(&[entry]);

    assert!(feed.starts_with("<?xml version=\"1.0\" encoding=\"utf-8\"?>"));
    assert!(feed.contains("<feed xmlns=\"http://www.w3.org/2005/Atom\">"));
    assert!(feed.contains("weird&lt;&gt;&amp;name"));
    assert!(!feed.contains("weird<>&name")); // must not appear unescaped
    assert!(feed.contains("1.0.0 -&gt; 2.0.0"));
    assert!(feed.contains("high severity"));
    assert!(feed.contains("New dependencies: new-dep."));
}

#[test]
fn atom_feed_handles_empty_history() {
    let feed = render_atom_feed(&[]);
    assert!(feed.contains("<feed"));
    assert!(feed.contains("</feed>"));
}

#[test]
fn atom_feed_respects_entry_limit() {
    let entries: Vec<HistoryEntry> = (0..(FEED_ENTRY_LIMIT + 10))
        .map(|i| history_entry(&format!("crate-{i}"), None))
        .collect();
    let feed = render_atom_feed(&entries);
    assert_eq!(feed.matches("<entry>").count(), FEED_ENTRY_LIMIT);
}

#[test]
fn the_limit_is_fifty() {
    assert_eq!(FEED_ENTRY_LIMIT, 50);
}

#[test]
fn the_feed_is_written_exactly() {
    let mut entry = history_entry("a&b", Some("high"));
    entry.added_dependencies = vec!["x".to_string(), "y<z".to_string()];
    let feed = render_atom_feed_at(&[entry], "NOW");
    let expected = concat_lines(&[
        "<?xml version=\"1.0\" encoding=\"utf-8\"?>",
        "<feed xmlns=\"http://www.w3.org/2005/Atom\">",
        "  <title>capscan leaderboard</title>",
        "  <link href=\"https://poglesbyg.github.io/capscan-leaderboard/\"/>",
        "  <link href=\"https://poglesbyg.github.io/capscan-leaderboard/feed.xml\" rel=\"self\"/>",
        "  <id>https://poglesbyg.github.io/capscan-leaderboard/</id>",
        "  <updated>NOW</updated>",
        "  <entry>",
        "    <title>a&amp;b: 1.0.0 -&gt; 2.0.0 (high severity)</title>",
        "    <link href=\"https://crates.io/crates/a&amp;b\"/>",
        "    <id>https://poglesbyg.github.io/capscan-leaderboard/#a&amp;b-2.0.0-2026-01-01T00:00:00+00:00</id>",
        "    <updated>2026-01-01T00:00:00+00:00</updated>",
        "    <summary>+3 / -1 signal(s). Worst new severity: high. New dependencies: x, y&lt;z.</summary>",
        "  </entry>",
        "</feed>",
    ]);
    assert_eq!(feed, expected);
}

fn concat_lines(lines: &[&str]) -> String {
    lines.iter().map(|line| format!("{line}\n")).collect()
}

#[test]
fn a_change_without_severity_or_dependencies_says_so() {
    let mut entry = history_entry("a", None);
    entry.added_dependencies = vec![];
    let feed = render_atom_feed_at(&[entry], "NOW");
    assert!(feed.contains("<title>a: 1.0.0 -&gt; 2.0.0 (none severity)</title>"));
    assert!(feed.contains("<summary>+3 / -1 signal(s). Worst new severity: none.</summary>"));
}

#[test]
fn the_newest_change_comes_first() {
    let entries: Vec<HistoryEntry> = (0..60).map(|i| history_entry(&format!("n{i}."), None)).collect();
    let feed = render_atom_feed_at(&entries, "NOW");
    let first = feed.find("crates/n59.").unwrap();
    let last = feed.find("crates/n10.").unwrap();
    assert!(first < last);
    assert!(!feed.contains("crates/n9."));
}

#[test]
fn recorded_texts_cannot_open_an_entry() {
    let mut entry = history_entry("<entry>", Some("<entry>"));
    entry.old_version = "<entry>".to_string();
    entry.new_version = "</entry><entry>".to_string();
    entry.added_dependencies = vec!["<entry>".to_string()];
    let feed = render_atom_feed_at(&[entry, history_entry("b", None)], "NOW");
    assert_eq!(feed.matches("<entry>").count(), 2);
}

#[test]
fn times_are_written_as_they_are() {
    let mut entry = history_entry("a", None);
    entry.checked_at = "<b>".to_string();
    let feed = render_atom_feed_at(&[entry], "NOW");
    assert!(feed.contains("<updated><b></updated>"));
    assert!(feed.contains("#a-2.0.0-&lt;b&gt;</id>"));
}

#[test]
fn the_feed_carries_the_current_time() {
    let feed = render_atom_feed(&[]);
    let start = feed.find("<updated>").unwrap() + "<updated>".len();
    let end = feed.find("</updated>").unwrap();
    let stamp = &feed[start..end];
    assert!(stamp.len() >= 25, "{stamp}");
    assert!(stamp.ends_with("+00:00"), "{stamp}");
    assert!(stamp.chars().all(|c| c.is_ascii_digit() || "+-.:T".contains(c)), "{stamp}");
    assert!(chrono::DateTime::parse_from_rfc3339(stamp).is_ok(), "{stamp}");
}

#[test]
fn identifiers_tell_changes_of_a_crate_apart() {
    let one = history_entry("a", None);
    let mut other = history_entry("a", None);
    other.new_version = "2.0.1".to_string();
    let feed = render_atom_feed_at(&[one, other], "NOW");
    assert!(feed.contains("#a-2.0.0-2026-01-01T00:00:00+00:00</id>"));
    assert!(feed.contains("#a-2.0.1-2026-01-01T00:00:00+00:00</id>"));
}

#[test]
fn identifiers_tell_crates_without_hyphens_apart() {
    let feed = render_atom_feed_at(&[history_entry("ab", None), history_entry("a", None)], "NOW");
    assert!(feed.contains("#ab-2.0.0-2026-01-01T00:00:00+00:00</id>"));
    assert!(feed.contains("#a-2.0.0-2026-01-01T00:00:00+00:00</id>"));
}
