use capscan_leaderboard::alert::high_severity_entries;
use capscan_leaderboard::report::{CrateReport, Signal, SignalKind};
use capscan_leaderboard::run::{
    closing_message, plan_check, record_scan, record_scan_at, Lookup, Plan, Run,
};
use capscan_leaderboard::snapshot::Snapshot;

fn report(version: &str, kinds: &[SignalKind], dependencies: &[&str]) -> CrateReport {
    CrateReport {
        name: "x".to_string(),
        version: version.to_string(),
        files_scanned: 1,
        lines_scanned: 1,
        dependencies: dependencies.iter().map(|d| d.to_string()).collect(),
        signals: kinds
            .iter()
            .map(|&kind| Signal {
                kind,
                file: "src/lib.rs".to_string(),
                line: 1,
                detail: "x".to_string(),
            })
            .collect(),
    }
}

fn empty_run() -> Run {
    Run {
        snapshot: Snapshot::new(),
        new_entries: Vec::new(),
    }
}

fn resolved(version: &str) -> Lookup {
    Lookup::Resolved(version.to_string())
}

fn record(run: &mut Run, name: &str, version: &str, scanned: CrateReport) -> String {
    record_scan_at(
        run,
        name,
        version.to_string(),
        Ok(scanned),
        "T1".to_string(),
        "T2".to_string(),
    )
}

fn message_of(plan: Plan) -> String {
    match plan {
        Plan::Leave(message) => message,
        Plan::Scan(version) => panic!("scan of {version}"),
    }
}

#[test]
fn an_unknown_crate_is_scanned() {
    let run = empty_run();
    assert!(matches!(
        plan_check(&run.snapshot, "a", resolved("1.0.0")),
        Plan::Scan(version) if version == "1.0.0"
    ));
}

#[test]
fn a_crate_that_cannot_be_looked_up_is_left() {
    let run = empty_run();
    assert_eq!(
        message_of(plan_check(&run.snapshot, "a", Lookup::Unresolved)),
        "could not resolve latest version, skipping"
    );
    let failed = Lookup::Failed("no cargo".to_string());
    assert_eq!(
        message_of(plan_check(&run.snapshot, "a", failed)),
        "error resolving latest version: no cargo"
    );
}

#[test]
fn a_first_scan_is_no_change() {
    let mut run = empty_run();
    let message = record(&mut run, "a", "1.0.0", report("1.0.0", &[SignalKind::Ffi], &[]));
    assert_eq!(message, "new: 1.0.0");
    assert!(run.new_entries.is_empty());
    let state = run.snapshot.get("a").unwrap();
    assert_eq!(state.version, "1.0.0");
    assert_eq!(state.last_checked, "T2");
    assert_eq!(state.report.signals.len(), 1);
}

#[test]
fn a_first_run_records_no_change() {
    let mut run = empty_run();
    for name in ["a", "b", "c"] {
        record(&mut run, name, "1.0.0", report("1.0.0", &[SignalKind::Ffi], &["d"]));
    }
    assert!(run.new_entries.is_empty());
    assert_eq!(run.snapshot.len(), 3);
}

#[test]
fn a_recorded_version_needs_no_scan() {
    let mut run = empty_run();
    record(&mut run, "a", "1.0.0", report("1.0.0", &[], &[]));
    assert_eq!(
        message_of(plan_check(&run.snapshot, "a", resolved("1.0.0"))),
        "unchanged at 1.0.0"
    );
    assert!(matches!(
        plan_check(&run.snapshot, "a", resolved("0.9.0")),
        Plan::Scan(version) if version == "0.9.0"
    ));
}

#[test]
fn an_update_is_recorded_with_its_difference() {
    let mut run = empty_run();
    let old = report("1.0.0", &[SignalKind::EnvRead, SignalKind::UnsafeBlock], &["a", "gone"]);
    let new = report("2.0.0", &[SignalKind::EnvRead, SignalKind::Ffi], &["z", "a", "b"]);
    record(&mut run, "x", "1.0.0", old);
    let message = record(&mut run, "x", "2.0.0", new);
    assert_eq!(message, "updated 1.0.0 -> 2.0.0");
    assert_eq!(run.new_entries.len(), 1);
    let entry = &run.new_entries[0];
    assert_eq!(entry.name, "x");
    assert_eq!(entry.old_version, "1.0.0");
    assert_eq!(entry.new_version, "2.0.0");
    assert_eq!(entry.checked_at, "T1");
    assert_eq!(entry.worst_severity, Some("high".to_string()));
    assert_eq!((entry.added_signals, entry.removed_signals), (1, 1));
    assert_eq!(entry.added_dependencies, vec!["b", "z"]);
    assert_eq!(entry.removed_dependencies, vec!["gone"]);
    assert_eq!(run.snapshot.get("x").unwrap().version, "2.0.0");
    assert_eq!(high_severity_entries(&run.new_entries).len(), 1);
}

#[test]
fn an_update_without_gain_has_no_severity() {
    let mut run = empty_run();
    record(&mut run, "x", "1.0.0", report("1.0.0", &[SignalKind::Ffi], &["a"]));
    record(&mut run, "x", "1.0.1", report("1.0.1", &[], &[]));
    let entry = &run.new_entries[0];
    assert_eq!(entry.worst_severity, None);
    assert_eq!((entry.added_signals, entry.removed_signals), (0, 1));
    assert!(high_severity_entries(&run.new_entries).is_empty());
}

#[test]
fn a_failed_scan_changes_nothing() {
    let mut run = empty_run();
    record(&mut run, "x", "1.0.0", report("1.0.0", &[], &[]));
    let message = record_scan(&mut run, "x", "2.0.0".to_string(), Err("no source".to_string()));
    assert_eq!(message, "error scanning x 2.0.0: no source");
    assert!(run.new_entries.is_empty());
    assert_eq!(run.snapshot.get("x").unwrap().version, "1.0.0");
}

#[test]
fn recording_leaves_other_crates() {
    let mut run = empty_run();
    record(&mut run, "a", "1.0.0", report("1.0.0", &[SignalKind::Ffi], &[]));
    record(&mut run, "b", "3.0.0", report("3.0.0", &[], &[]));
    record(&mut run, "b", "3.1.0", report("3.1.0", &[], &[]));
    assert_eq!(run.snapshot.get("a").unwrap().version, "1.0.0");
    assert_eq!(run.new_entries.len(), 1);
    assert_eq!(run.new_entries[0].name, "b");
}

#[test]
fn a_recorded_scan_carries_the_current_time() {
    let mut run = empty_run();
    record_scan(&mut run, "a", "1.0.0".to_string(), Ok(report("1.0.0", &[], &[])));
    record_scan(&mut run, "a", "1.1.0".to_string(), Ok(report("1.1.0", &[], &[])));
    let stamp = &run.new_entries[0].checked_at;
    assert!(chrono::DateTime::parse_from_rfc3339(stamp).is_ok());
    assert!(stamp.ends_with("+00:00"));
    assert!(run.snapshot.get("a").unwrap().last_checked >= *stamp);
}

#[test]
fn the_closing_message_counts_crates_and_changes() {
    assert_eq!(
        closing_message(120, 3, "docs/index.html"),
        "\n120 crates tracked, 3 new change(s) this run, site written to docs/index.html"
    );
}

#[test]
fn a_run_records_one_change_of_each_crate() {
    let mut run = empty_run();
    for name in ["a", "b", "c"] {
        record(&mut run, name, "1.0.0", report("1.0.0", &[], &[]));
    }
    for name in ["a", "b", "c"] {
        record(&mut run, name, "1.1.0", report("1.1.0", &[], &[]));
    }
    let names: Vec<&str> = run.new_entries.iter().map(|e| e.name.as_str()).collect();
    assert_eq!(names, vec!["a", "b", "c"]);
    for entry in &run.new_entries {
        assert_ne!(entry.old_version, entry.new_version);
    }
}

#[test]
fn a_crate_listed_twice_is_recorded_once() {
    let mut run = empty_run();
    for _ in 0..2 {
        if let Plan::Scan(version) = plan_check(&run.snapshot, "a", resolved("1.0.0")) {
            record(&mut run, "a", &version, report("1.0.0", &[SignalKind::Ffi], &[]));
        }
    }
    assert!(run.new_entries.is_empty());
    for _ in 0..2 {
        if let Plan::Scan(version) = plan_check(&run.snapshot, "a", resolved("2.0.0")) {
            record(&mut run, "a", &version, report("2.0.0", &[], &[]));
        }
    }
    assert_eq!(run.new_entries.len(), 1);
}
