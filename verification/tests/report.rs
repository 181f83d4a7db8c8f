use capscan_leaderboard::report::{
    diff_reports, severity_counts, CrateReport, Severity, Signal, SignalKind,
};

fn report_with_kinds(kinds: &[SignalKind]) -> CrateReport {
    CrateReport {
        name: "x".to_string(),
        version: "1.0.0".to_string(),
        files_scanned: 1,
        lines_scanned: 1,
        dependencies: vec![],
        signals: kinds
            .iter()
            .map(|&kind| Signal {
                kind,
                file: "src/lib.rs".to_string(),
                line: 1,
                detail: "x".to_string(),
            })
            .collect(),
    }
}

fn with_dependencies(names: &[&str]) -> CrateReport {
    let mut report = report_with_kinds(&[]);
    report.dependencies = names.iter().map(|n| n.to_string()).collect();
    report
}

fn all_kinds() -> Vec<(SignalKind, Severity, &'static str)> {
    vec![
        (SignalKind::UnsafeBlock, Severity::Medium, "medium"),
        (SignalKind::UnsafeFn, Severity::High, "high"),
        (SignalKind::UnsafeImpl, Severity::High, "high"),
        (SignalKind::Ffi, Severity::High, "high"),
        (SignalKind::ProcessSpawn, Severity::High, "high"),
        (SignalKind::NetworkAccess, Severity::Medium, "medium"),
        (SignalKind::FilesystemWrite, Severity::Medium, "medium"),
        (SignalKind::EnvRead, Severity::Low, "low"),
        (SignalKind::EnvWrite, Severity::Medium, "medium"),
        (SignalKind::BuildTimeMacro, Severity::Low, "low"),
        (SignalKind::BuildScript, Severity::High, "high"),
        (SignalKind::ProcMacroCrate, Severity::High, "high"),
        (SignalKind::NativeLinkage, Severity::High, "high"),
        (SignalKind::Transmute, Severity::High, "high"),
        (SignalKind::SymbolExport, Severity::High, "high"),
    ]
}

#[test]
fn severity_counts_buckets_correctly() {
    let report = report_with_kinds(&[
        SignalKind::UnsafeFn,    // high
        SignalKind::Ffi,         // high
        SignalKind::UnsafeBlock, // medium
        SignalKind::EnvRead,     // low
        SignalKind::EnvRead,     // low
    ]);
    assert_eq!(severity_counts(&report), (2, 1, 2));
}

#[test]
fn severity_counts_empty_report_is_all_zero() {
    assert_eq!(severity_counts(&report_with_kinds(&[])), (0, 0, 0));
}

#[test]
fn every_kind_has_its_severity() {
    for (kind, severity, _) in all_kinds() {
        assert_eq!(kind.severity(), severity);
    }
}

#[test]
fn severities_partition_the_signals() {
    let kinds: Vec<SignalKind> = all_kinds().iter().map(|k| k.0).collect();
    let (high, medium, low) = severity_counts(&report_with_kinds(&kinds));
    assert_eq!((high, medium, low), (9, 4, 2));
    assert_eq!(high + medium + low, kinds.len());
}

#[test]
fn a_gained_signal_rates_by_its_kind() {
    for (kind, _, label) in all_kinds() {
        let diff = diff_reports(&report_with_kinds(&[]), &report_with_kinds(&[kind]));
        assert_eq!(diff.worst_severity, Some(label.to_string()), "{kind:?}");
        assert_eq!((diff.added_signals, diff.removed_signals), (1, 0));
    }
}

#[test]
fn signals_count_once_by_kind_and_detail() {
    let kinds: Vec<SignalKind> = all_kinds().iter().map(|k| k.0).collect();
    let mut twice = kinds.clone();
    twice.extend(kinds.iter());
    let diff = diff_reports(&report_with_kinds(&[]), &report_with_kinds(&twice));
    assert_eq!((diff.added_signals, diff.removed_signals), (15, 0));
}

#[test]
fn the_place_of_a_signal_does_not_count() {
    let old = report_with_kinds(&[SignalKind::Ffi]);
    let mut new = report_with_kinds(&[SignalKind::Ffi, SignalKind::Ffi]);
    new.signals[0].file = "src/other.rs".to_string();
    new.signals[1].line = 77;
    let diff = diff_reports(&old, &new);
    assert_eq!(diff.worst_severity, None);
    assert_eq!((diff.added_signals, diff.removed_signals), (0, 0));
    assert!(diff.added_dependencies.is_empty());
    assert!(diff.removed_dependencies.is_empty());
}

#[test]
fn another_detail_is_another_signal() {
    let old = report_with_kinds(&[SignalKind::EnvRead]);
    let mut new = report_with_kinds(&[SignalKind::EnvRead]);
    new.signals[0].detail = "y".to_string();
    let diff = diff_reports(&old, &new);
    assert_eq!(diff.worst_severity, Some("low".to_string()));
    assert_eq!((diff.added_signals, diff.removed_signals), (1, 1));
}

#[test]
fn losing_signals_has_no_severity() {
    let diff = diff_reports(
        &report_with_kinds(&[SignalKind::Ffi, SignalKind::EnvRead]),
        &report_with_kinds(&[]),
    );
    assert_eq!(diff.worst_severity, None);
    assert_eq!((diff.added_signals, diff.removed_signals), (0, 2));
}

#[test]
fn a_new_dependency_rates_as_medium() {
    let diff = diff_reports(
        &with_dependencies(&["a", "old"]),
        &with_dependencies(&["z", "b", "a", "b"]),
    );
    assert_eq!(diff.worst_severity, Some("medium".to_string()));
    assert_eq!(diff.added_dependencies, vec!["b", "z"]);
    assert_eq!(diff.removed_dependencies, vec!["old"]);
}

#[test]
fn the_reverse_difference_swaps_added_and_removed() {
    let mut one = with_dependencies(&["a", "b"]);
    one.signals = report_with_kinds(&[SignalKind::Ffi, SignalKind::EnvRead]).signals;
    let mut two = with_dependencies(&["b", "c", "d"]);
    two.signals = report_with_kinds(&[SignalKind::EnvRead, SignalKind::Transmute]).signals;
    let forth = diff_reports(&one, &two);
    let back = diff_reports(&two, &one);
    assert_eq!(forth.added_signals, back.removed_signals);
    assert_eq!(forth.removed_signals, back.added_signals);
    assert_eq!(forth.added_dependencies, back.removed_dependencies);
    assert_eq!(forth.removed_dependencies, back.added_dependencies);
    assert_eq!(forth.added_dependencies, vec!["c", "d"]);
}
