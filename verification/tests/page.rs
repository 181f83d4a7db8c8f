use capscan_leaderboard::clock::date_part;
use capscan_leaderboard::history::HistoryEntry;
use capscan_leaderboard::page::{render_html, render_html_at, HISTORY_DISPLAY_LIMIT};
use capscan_leaderboard::report::{CrateReport, Signal, SignalKind};
use capscan_leaderboard::snapshot::{CrateSnapshot, Snapshot};

fn report_with_kinds(kinds: &[SignalKind]) -> CrateReport {
    CrateReport {
        name: "x".to_string(),
        version: "1.0.0".to_string(),
        files_scanned: 1,
        lines_scanned: 1,
        dependencies: vec![],
        signals: kinds
            .iter()
            .map(|&kind| Signal {
                kind,
                file: "src/lib.rs".to_string(),
                line: 1,
                detail: "x".to_string(),
            })
            .collect(),
    }
}

fn with_kinds(kinds: &[SignalKind]) -> CrateSnapshot {
    CrateSnapshot {
        version: "1.0.0".to_string(),
        report: report_with_kinds(kinds),
        last_checked: "2026-01-01T00:00:00Z".to_string(),
    }
}

fn history_entry(name: &str, severity: Option<&str>) -> HistoryEntry {
    HistoryEntry {
        name: name.to_string(),
        old_version: "1.0.0".to_string(),
        new_version: "2.0.0".to_string(),
        checked_at: "2026-01-01T00:00:00+00:00".to_string(),
        worst_severity: severity.map(str::to_string),
        added_signals: 3,
        removed_signals: 1,
        added_dependencies: vec!["new-dep".to_string()],
        removed_dependencies: vec![],
    }
}

#[test]
fn render_html_handles_empty_state_without_panicking() {
    let html = render_html(&Snapshot::new(), &[]);
    assert!(html.contains("No version changes detected yet"));
    assert!(html.contains("capscan leaderboard"));
}

#[test]
fn render_html_sorts_profile_by_severity_then_name() {
    let mut snapshot = Snapshot::new();
    snapshot.insert("low-sev".to_string(), with_kinds(&[SignalKind::EnvRead]));
    snapshot.insert("high-sev".to_string(), with_kinds(&[SignalKind::UnsafeFn]));

    let html = render_html(&snapshot, &[]);
    // Match the href, not the bare name: "low-sev" is also a substring
    // of "low-severity" in the page's prose.
    let high_pos = html.find("/crates/high-sev\"").unwrap();
    let low_pos = html.find("/crates/low-sev\"").unwrap();
    assert!(
        high_pos < low_pos,
        "higher-severity crate should be listed first"
    );
}

#[test]
fn the_profile_is_ranked_by_severity_then_name() {
    let mut snapshot = Snapshot::new();
    let (high, medium, low) = (SignalKind::Ffi, SignalKind::EnvWrite, SignalKind::EnvRead);
    snapshot.insert("a-low".to_string(), with_kinds(&[low, low, low, low, low]));
    snapshot.insert("b-medium".to_string(), with_kinds(&[medium, medium]));
    snapshot.insert("c-high".to_string(), with_kinds(&[high]));
    snapshot.insert("d-both".to_string(), with_kinds(&[high, medium]));
    snapshot.insert("e-most".to_string(), with_kinds(&[high, high]));
    snapshot.insert("f-low".to_string(), with_kinds(&[low]));
    let html = render_html_at(&snapshot, &[], "NOW");
    let places: Vec<usize> = ["e-most", "d-both", "c-high", "b-medium", "a-low", "f-low"]
        .iter()
        .map(|name| html.find(&format!("/crates/{name}\"")).unwrap())
        .collect();
    let mut sorted = places.clone();
    sorted.sort();
    assert_eq!(places, sorted);
    assert_eq!(html.matches("https://crates.io/crates/").count(), 7);
}

#[test]
fn a_profile_row_is_written_exactly() {
    let mut snapshot = Snapshot::new();
    let kinds = [SignalKind::Ffi, SignalKind::EnvWrite, SignalKind::EnvWrite];
    snapshot.insert("a<b".to_string(), with_kinds(&kinds));
    let html = render_html_at(&snapshot, &[], "NOW");
    assert!(html.contains(
        "<tr><td><a href=\"https://crates.io/crates/a&lt;b\" target=\"_blank\" rel=\"noopener\">a&lt;b</a></td><td>1.0.0</td><td class=\"sev-high\">1</td><td class=\"sev-medium\">2</td><td class=\"sev-low\">0</td></tr>\n    </tbody>"
    ));
}

#[test]
fn a_change_row_is_written_exactly() {
    let html = render_html_at(&Snapshot::new(), &[history_entry("a&b", Some("medium"))], "NOW");
    assert!(html.contains(
        "<tbody>\n<tr><td>2026-01-01</td><td><a href=\"https://crates.io/crates/a&amp;b\" target=\"_blank\" rel=\"noopener\">a&amp;b</a></td><td>1.0.0 &rarr; 2.0.0</td><td class=\"sev-medium\">medium</td><td>+3/-1 signal(s), +1 new dep(s)</td></tr>\n    </tbody>"
    ));
    assert!(!html.contains("No version changes detected yet"));
}

#[test]
fn severities_have_their_cells() {
    let cells = [
        (Some("high"), "<td class=\"sev-high\">high</td>"),
        (Some("medium"), "<td class=\"sev-medium\">medium</td>"),
        (Some("low"), "<td class=\"sev-low\">low</td>"),
        (Some("HIGH"), "<td class=\"sev-none\">none</td>"),
        (None, "<td class=\"sev-none\">none</td>"),
    ];
    for (severity, cell) in cells {
        let mut entry = history_entry("a", severity);
        entry.added_dependencies = vec![];
        let html = render_html_at(&Snapshot::new(), &[entry], "NOW");
        assert!(html.contains(cell), "{severity:?}");
        assert!(html.contains("<td>+3/-1 signal(s)</td></tr>"));
    }
}

#[test]
fn the_page_shows_the_newest_changes_first_up_to_the_limit() {
    assert_eq!(HISTORY_DISPLAY_LIMIT, 100);
    let entries: Vec<HistoryEntry> = (0..110).map(|i| history_entry(&format!("n{i}."), None)).collect();
    let html = render_html_at(&Snapshot::new(), &entries, "NOW");
    assert_eq!(html.matches("<td>2026-01-01</td>").count(), 100);
    assert!(html.find("/n109.\"").unwrap() < html.find("/n10.\"").unwrap());
    assert!(!html.contains("/n9.\""));
}

#[test]
fn the_page_counts_crates_and_carries_the_time() {
    let mut snapshot = Snapshot::new();
    for name in ["a", "b", "c"] {
        snapshot.insert(name.to_string(), with_kinds(&[]));
    }
    let html = render_html_at(&snapshot, &[], "NOW");
    assert_eq!(html.matches("Capability surface of 3 popular crates.io crates").count(), 3);
    assert!(html.contains("last change recorded NOW.</p>"));
    assert!(html.starts_with("<!doctype html>\n<html lang=\"en\">\n"));
    assert!(html.contains("  :root {\n    color-scheme: light dark;\n"));
    assert!(!html.contains("{{") && !html.contains("}}"));
    assert!(html.ends_with("</main>\n</body>\n</html>\n"));
}

#[test]
fn recorded_texts_cannot_add_markup() {
    let plain = render_html_at(&Snapshot::new(), &[history_entry("a", None)], "NOW");
    let mut entry = history_entry("<tr>\"", Some("<b>"));
    entry.old_version = "<i>".to_string();
    entry.new_version = "\"><".to_string();
    entry.checked_at = "<<<<<<<<<<".to_string();
    let html = render_html_at(&Snapshot::new(), &[entry], "NOW");
    for c in ['<', '>', '"'] {
        assert_eq!(html.matches(c).count(), plain.matches(c).count());
    }
}

#[test]
fn the_date_is_the_first_ten_bytes() {
    assert_eq!(date_part("2026-01-01T00:00:00+00:00"), "2026-01-01");
    assert_eq!(date_part("2026-01-01"), "2026-01-01");
    assert_eq!(date_part("2026"), "2026");
    assert_eq!(date_part(""), "");
    assert_eq!(date_part("12345678\u{e9}x"), "12345678\u{e9}");
    assert_eq!(date_part("123456789\u{e9}x"), "123456789\u{e9}x");
    assert_eq!(date_part("\u{20ac}\u{20ac}\u{20ac}ab"), "\u{20ac}\u{20ac}\u{20ac}a");
}

#[test]
fn the_page_does_not_depend_on_the_order_of_insertion() {
    let names = ["b", "c", "a"];
    let mut one = Snapshot::new();
    let mut other = Snapshot::new();
    for name in names {
        one.insert(name.to_string(), with_kinds(&[SignalKind::Ffi]));
    }
    for name in names.iter().rev() {
        other.insert(name.to_string(), with_kinds(&[]));
        other.insert(name.to_string(), with_kinds(&[SignalKind::Ffi]));
    }
    assert_eq!(render_html_at(&one, &[], "NOW"), render_html_at(&other, &[], "NOW"));
}

#[test]
fn crate_names_cannot_add_markup() {
    let mut plain = Snapshot::new();
    plain.insert("a".to_string(), with_kinds(&[]));
    let mut odd = Snapshot::new();
    odd.insert("\"><td>".to_string(), with_kinds(&[]));
    let expected = render_html_at(&plain, &[], "NOW");
    let html = render_html_at(&odd, &[], "NOW");
    for c in ['<', '>', '"'] {
        assert_eq!(html.matches(c).count(), expected.matches(c).count());
    }
}

#[test]
fn low_severity_signals_decide_between_equals() {
    let mut snapshot = Snapshot::new();
    snapshot.insert("a".to_string(), with_kinds(&[]));
    snapshot.insert("b".to_string(), with_kinds(&[SignalKind::EnvRead]));
    let html = render_html(&snapshot, &[]);
    assert!(html.find("/crates/b\"").unwrap() < html.find("/crates/a\"").unwrap());

    let (high, medium, low) = (SignalKind::Ffi, SignalKind::EnvWrite, SignalKind::EnvRead);
    let mut snapshot = Snapshot::new();
    snapshot.insert("c".to_string(), with_kinds(&[high, medium, low]));
    snapshot.insert("d".to_string(), with_kinds(&[high, medium, low, low]));
    snapshot.insert("e".to_string(), with_kinds(&[high, medium, low, low]));
    let html = render_html_at(&snapshot, &[], "NOW");
    let places: Vec<usize> = ["d", "e", "c"]
        .iter()
        .map(|name| html.find(&format!("/crates/{name}\"")).unwrap())
        .collect();
    assert!(places[0] < places[1] && places[1] < places[2]);
}
