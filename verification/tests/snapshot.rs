use capscan_leaderboard::report::CrateReport;
use capscan_leaderboard::snapshot::{prune_untracked, CrateSnapshot, Snapshot};

fn empty_report() -> CrateReport {
    CrateReport {
        name: "x".to_string(),
        version: "1.0.0".to_string(),
        files_scanned: 1,
        lines_scanned: 1,
        dependencies: vec![],
        signals: vec![],
    }
}

fn at_version(version: &str) -> CrateSnapshot {
    CrateSnapshot {
        version: version.to_string(),
        report: empty_report(),
        last_checked: "2026-01-01T00:00:00Z".to_string(),
    }
}

fn names(snapshot: &Snapshot) -> Vec<String> {
    (0..snapshot.len()).map(|i| snapshot.nth(i).0.to_string()).collect()
}

#[test]
fn prune_untracked_removes_crates_no_longer_in_the_list() {
    let mut snapshot = Snapshot::new();
    snapshot.insert("kept".to_string(), at_version("1.0.0"));
    snapshot.insert("removed-from-list".to_string(), at_version("1.0.0"));

    prune_untracked(&mut snapshot, &["kept".to_string()]);

    assert_eq!(snapshot.len(), 1);
    assert!(snapshot.contains_key("kept"));
    assert!(!snapshot.contains_key("removed-from-list"));
}

#[test]
fn a_new_snapshot_is_empty() {
    let snapshot = Snapshot::new();
    assert!(snapshot.is_empty());
    assert_eq!(snapshot.len(), 0);
    assert!(snapshot.get("a").is_none());
}

#[test]
fn crates_are_kept_in_the_order_of_their_names() {
    let mut snapshot = Snapshot::new();
    for name in ["serde", "anyhow", "syn", "a", "serde_json", "Zed"] {
        snapshot.insert(name.to_string(), at_version("1.0.0"));
    }
    assert_eq!(
        names(&snapshot),
        vec!["Zed", "a", "anyhow", "serde", "serde_json", "syn"]
    );
}

#[test]
fn a_later_state_takes_the_place_of_an_earlier_one() {
    let mut snapshot = Snapshot::new();
    snapshot.insert("a".to_string(), at_version("1.0.0"));
    snapshot.insert("b".to_string(), at_version("1.0.0"));
    snapshot.insert("a".to_string(), at_version("2.0.0"));
    assert_eq!(snapshot.len(), 2);
    assert_eq!(snapshot.get("a").unwrap().version, "2.0.0");
    assert_eq!(snapshot.get("b").unwrap().version, "1.0.0");
    assert!(!snapshot.is_empty());
}

#[test]
fn pruning_keeps_exactly_the_listed_crates() {
    let mut snapshot = Snapshot::new();
    for name in ["a", "b", "c", "d"] {
        snapshot.insert(name.to_string(), at_version(name));
    }
    let list = ["d".to_string(), "b".to_string(), "unknown".to_string(), "b".to_string()];
    prune_untracked(&mut snapshot, &list);
    assert_eq!(names(&snapshot), vec!["b", "d"]);
    assert_eq!(snapshot.get("b").unwrap().version, "b");
    prune_untracked(&mut snapshot, &list);
    assert_eq!(names(&snapshot), vec!["b", "d"]);
    prune_untracked(&mut snapshot, &[]);
    assert!(snapshot.is_empty());
}
