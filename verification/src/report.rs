//! Capability reports of a scanned crate, and what changed between two of them.
use capscan::SignalKind::{
    BuildScript, BuildTimeMacro, EnvRead, EnvWrite, Ffi, FilesystemWrite, NativeLinkage,
    NetworkAccess, ProcMacroCrate, ProcessSpawn, SymbolExport, Transmute, UnsafeBlock, UnsafeFn,
    UnsafeImpl,
};
use capscan::{
    diff_reports as scanner_compare, CrateReport as ScannedReport, Signal as ScannedSignal,
};
use vstd::prelude::*;

use crate::text::{ascending, duplicate_all, law_ascending_is_determined, text_less, texts};

verus! {

/// The kinds of capability that a scan can find in a crate.
#[derive(Clone, Copy, Debug, PartialEq, Eq, Structural)]
pub enum SignalKind {
    UnsafeBlock,
    UnsafeFn,
    UnsafeImpl,
    Ffi,
    ProcessSpawn,
    NetworkAccess,
    FilesystemWrite,
    EnvRead,
    EnvWrite,
    BuildTimeMacro,
    BuildScript,
    ProcMacroCrate,
    NativeLinkage,
    Transmute,
    SymbolExport,
}

/// How much attention a signal deserves.
#[derive(Clone, Copy, Debug, PartialEq, Eq, Structural)]
pub enum Severity {
    Low,
    Medium,
    High,
}

/// One capability found at one place.
#[derive(Clone, Debug)]
pub struct Signal {
    pub kind: SignalKind,
    pub file: String,
    pub line: usize,
    pub detail: String,
}

/// Everything that one scan of one crate version found.
#[derive(Clone, Debug)]
pub struct CrateReport {
    pub name: String,
    pub version: String,
    pub files_scanned: usize,
    pub lines_scanned: usize,
    pub dependencies: Vec<String>,
    pub signals: Vec<Signal>,
}

/// A signal as a mathematical value.
pub struct SignalView {
    pub kind: SignalKind,
    pub file: Seq<char>,
    pub line: nat,
    pub detail: Seq<char>,
}

/// A report as a mathematical value.
pub struct CrateReportView {
    pub name: Seq<char>,
    pub version: Seq<char>,
    pub files_scanned: nat,
    pub lines_scanned: nat,
    pub dependencies: Seq<Seq<char>>,
    pub signals: Seq<SignalView>,
}

impl View for Signal {
    type V = SignalView;

    open spec fn view(&self) -> SignalView {
        SignalView { kind: self.kind, file: self.file@, line: self.line as nat, detail: self.detail@ }
    }
}

impl View for CrateReport {
    type V = CrateReportView;

    open spec fn view(&self) -> CrateReportView {
        CrateReportView {
            name: self.name@,
            version: self.version@,
            files_scanned: self.files_scanned as nat,
            lines_scanned: self.lines_scanned as nat,
            dependencies: texts(self.dependencies@),
            signals: self.signals@.map_values(|s: Signal| s@),
        }
    }
}

/// The severity of each kind of signal.
pub open spec fn kind_severity(kind: SignalKind) -> Severity {
    match kind {
        SignalKind::UnsafeFn
        | SignalKind::UnsafeImpl
        | SignalKind::Ffi
        | SignalKind::ProcessSpawn
        | SignalKind::BuildScript
        | SignalKind::NativeLinkage
        | SignalKind::ProcMacroCrate
        | SignalKind::Transmute
        | SignalKind::SymbolExport => Severity::High,
        SignalKind::UnsafeBlock
        | SignalKind::NetworkAccess
        | SignalKind::FilesystemWrite
        | SignalKind::EnvWrite => Severity::Medium,
        SignalKind::EnvRead | SignalKind::BuildTimeMacro => Severity::Low,
    }
}

/// `capscan::SignalKind::severity`: the scanner's own rating of a kind, which
/// is a fixed table over the kinds.
#[verifier::external_body]
fn scanner_severity(kind: SignalKind) -> (severity: Severity)
    ensures
        severity == kind_severity(kind),
{
    let scanned = match kind {
        SignalKind::UnsafeBlock => UnsafeBlock, SignalKind::UnsafeFn => UnsafeFn,
        SignalKind::UnsafeImpl => UnsafeImpl, SignalKind::Ffi => Ffi,
        SignalKind::ProcessSpawn => ProcessSpawn, SignalKind::NetworkAccess => NetworkAccess,
        SignalKind::FilesystemWrite => FilesystemWrite, SignalKind::EnvRead => EnvRead,
        SignalKind::EnvWrite => EnvWrite, SignalKind::BuildTimeMacro => BuildTimeMacro,
        SignalKind::BuildScript => BuildScript, SignalKind::ProcMacroCrate => ProcMacroCrate,
        SignalKind::NativeLinkage => NativeLinkage, SignalKind::Transmute => Transmute,
        SignalKind::SymbolExport => SymbolExport,
    };
    match scanned.severity() {
        capscan::Severity::Low => Severity::Low,
        capscan::Severity::Medium => Severity::Medium,
        capscan::Severity::High => Severity::High,
    }
}

impl SignalKind {
    /// How much attention a signal of this kind deserves.
    pub fn severity(&self) -> (severity: Severity)
        ensures
            severity == kind_severity(*self),
    {
        scanner_severity(*self)
    }
}

/// How many of the signals have the given severity.
pub open spec fn count_severity(signals: Seq<SignalView>, severity: Severity) -> nat
    decreases signals.len(),
{
    if signals.len() == 0 {
        0
    } else {
        count_severity(signals.drop_last(), severity) + (if kind_severity(signals.last().kind)
            == severity {
            1nat
        } else {
            0nat
        })
    }
}

/// How many signals of high, of medium and of low severity a report holds.
pub fn severity_counts(report: &CrateReport) -> (counts: (usize, usize, usize))
    ensures
        counts.0 == count_severity(report@.signals, Severity::High),
        counts.1 == count_severity(report@.signals, Severity::Medium),
        counts.2 == count_severity(report@.signals, Severity::Low),
{
    let mut high: usize = 0;
    let mut medium: usize = 0;
    let mut low: usize = 0;
    let ghost signals = report@.signals;
    for i in 0..report.signals.len()
        invariant
            signals == report@.signals,
            high == count_severity(signals.take(i as int), Severity::High),
            medium == count_severity(signals.take(i as int), Severity::Medium),
            low == count_severity(signals.take(i as int), Severity::Low),
            high + medium + low == i,
    {
        proof {
            assert(signals.take(i + 1).drop_last() == signals.take(i as int));
        }
        match report.signals[i].kind.severity() {
            Severity::High => {
                high += 1;
            },
            Severity::Medium => {
                medium += 1;
            },
            Severity::Low => {
                low += 1;
            },
        }
    }
    assert(signals.take(signals.len() as int) == signals);
    (high, medium, low)
}

/// Every signal is counted under exactly one severity.
pub proof fn law_severities_partition_signals(signals: Seq<SignalView>)
    ensures
        count_severity(signals, Severity::High) + count_severity(signals, Severity::Medium)
            + count_severity(signals, Severity::Low) == signals.len(),
    decreases signals.len(),
{
    if signals.len() > 0 {
        law_severities_partition_signals(signals.drop_last());
    }
}

/// What an update gained and lost, as the history records it.
#[derive(Clone, Debug)]
pub struct ReportDiff {
    pub worst_severity: Option<String>,
    pub added_signals: usize,
    pub removed_signals: usize,
    pub added_dependencies: Vec<String>,
    pub removed_dependencies: Vec<String>,
}

/// A difference as a mathematical value.
pub struct ReportDiffView {
    pub worst_severity: Option<Seq<char>>,
    pub added_signals: nat,
    pub removed_signals: nat,
    pub added_dependencies: Seq<Seq<char>>,
    pub removed_dependencies: Seq<Seq<char>>,
}

/// The text that an optional string holds.
pub open spec fn text_opt(s: Option<String>) -> Option<Seq<char>> {
    match s {
        Some(text) => Some(text@),
        None => None,
    }
}

impl View for ReportDiff {
    type V = ReportDiffView;

    open spec fn view(&self) -> ReportDiffView {
        ReportDiffView {
            worst_severity: text_opt(self.worst_severity),
            added_signals: self.added_signals as nat,
            removed_signals: self.removed_signals as nat,
            added_dependencies: texts(self.added_dependencies@),
            removed_dependencies: texts(self.removed_dependencies@),
        }
    }
}

/// The signals of a report, each by its kind and what was detected: where it
/// was found does not count, and neither does how often.
pub open spec fn signal_keys(report: CrateReportView) -> Set<(SignalKind, Seq<char>)> {
    report.signals.map_values(|s: SignalView| (s.kind, s.detail)).to_set()
}

/// The signals that `to` has and `from` has not.
pub open spec fn signals_gained(from: CrateReportView, to: CrateReportView) -> Set<
    (SignalKind, Seq<char>),
> {
    signal_keys(to).difference(signal_keys(from))
}

/// The dependencies that `to` has and `from` has not.
pub open spec fn dependencies_gained(from: CrateReportView, to: CrateReportView) -> Set<Seq<char>> {
    to.dependencies.to_set().difference(from.dependencies.to_set())
}

/// Some signal with the given severity is among the keys.
pub open spec fn has_severity(keys: Set<(SignalKind, Seq<char>)>, severity: Severity) -> bool {
    exists|key: (SignalKind, Seq<char>)| #[trigger] keys.contains(key) && kind_severity(key.0) == severity
}

/// The worst severity among everything newly gained, where a new dependency
/// rates as medium; nothing when nothing was gained.
pub open spec fn worst_gain(from: CrateReportView, to: CrateReportView) -> Option<Seq<char>> {
    let signals = signals_gained(from, to);
    if has_severity(signals, Severity::High) {
        Some("high"@)
    } else if has_severity(signals, Severity::Medium) || exists|d: Seq<char>| #[trigger]
        dependencies_gained(from, to).contains(d) {
        Some("medium"@)
    } else if has_severity(signals, Severity::Low) {
        Some("low"@)
    } else {
        None
    }
}

/// `diff` is the difference between two reports.
pub open spec fn is_diff(from: CrateReportView, to: CrateReportView, diff: ReportDiffView) -> bool {
    &&& diff.worst_severity == worst_gain(from, to)
    &&& diff.added_signals == signals_gained(from, to).len()
    &&& diff.removed_signals == signals_gained(to, from).len()
    &&& ascending(diff.added_dependencies)
    &&& diff.added_dependencies.to_set() == dependencies_gained(from, to)
    &&& ascending(diff.removed_dependencies)
    &&& diff.removed_dependencies.to_set() == dependencies_gained(to, from)
}

/// The kinds in the order in which they are declared.
pub open spec fn all_kinds() -> Seq<SignalKind> {
    seq![
        SignalKind::UnsafeBlock,
        SignalKind::UnsafeFn,
        SignalKind::UnsafeImpl,
        SignalKind::Ffi,
        SignalKind::ProcessSpawn,
        SignalKind::NetworkAccess,
        SignalKind::FilesystemWrite,
        SignalKind::EnvRead,
        SignalKind::EnvWrite,
        SignalKind::BuildTimeMacro,
        SignalKind::BuildScript,
        SignalKind::ProcMacroCrate,
        SignalKind::NativeLinkage,
        SignalKind::Transmute,
        SignalKind::SymbolExport,
    ]
}

/// Lists the kinds in the order in which they are declared.
fn list_kinds() -> (kinds: [SignalKind; 15])
    ensures
        kinds@ == all_kinds(),
{
    let kinds = [
        SignalKind::UnsafeBlock,
        SignalKind::UnsafeFn,
        SignalKind::UnsafeImpl,
        SignalKind::Ffi,
        SignalKind::ProcessSpawn,
        SignalKind::NetworkAccess,
        SignalKind::FilesystemWrite,
        SignalKind::EnvRead,
        SignalKind::EnvWrite,
        SignalKind::BuildTimeMacro,
        SignalKind::BuildScript,
        SignalKind::ProcMacroCrate,
        SignalKind::NativeLinkage,
        SignalKind::Transmute,
        SignalKind::SymbolExport,
    ];
    assert(kinds@ =~= all_kinds());
    kinds
}

/// Signals by kind and detail, as mathematical values.
spec fn keys_of(signals: Seq<(SignalKind, String)>) -> Seq<(SignalKind, Seq<char>)> {
    signals.map_values(|s: (SignalKind, String)| (s.0, s.1@))
}

/// The list holds exactly the given signals, each once.
spec fn lists_once(
    signals: Seq<(SignalKind, String)>,
    keys: Set<(SignalKind, Seq<char>)>,
) -> bool {
    keys_of(signals).no_duplicates() && keys_of(signals).to_set() == keys
}

/// `capscan::diff_reports` on two reports, and `capscan::Diff::worst_severity`
/// of what it returns: the worst severity gained, under the name that its
/// `Display` writes; the signals added and removed by kind and detail, each
/// once; and the dependencies added and removed, each list sorted and without
/// repetition. `kinds` holds the kinds in the order in which the scanner
/// declares them, which is the order here too.
#[verifier::external_body]
fn scanner_diff(reports: [CrateReport; 2], kinds: [SignalKind; 15]) -> (diff: (
    Option<String>,
    [Vec<(SignalKind, String)>; 2],
    Vec<String>,
    Vec<String>,
))
    requires
        kinds@ == all_kinds(),
    ensures
        text_opt(diff.0) == worst_gain(reports@[0]@, reports@[1]@),
        lists_once(diff.1@[0]@, signals_gained(reports@[0]@, reports@[1]@)),
        lists_once(diff.1@[1]@, signals_gained(reports@[1]@, reports@[0]@)),
        ascending(texts(diff.2@)),
        texts(diff.2@).to_set() == dependencies_gained(reports@[0]@, reports@[1]@),
        ascending(texts(diff.3@)),
        texts(diff.3@).to_set() == dependencies_gained(reports@[1]@, reports@[0]@),
{
    let [from, to] = &reports.map(|CrateReport { name, version, files_scanned, lines_scanned, dependencies, signals }| ScannedReport {
        name, version, files_scanned, lines_scanned, dependencies,
        signals: signals.into_iter().map(|Signal { kind, file, line, detail }| ScannedSignal {
            kind: [
                UnsafeBlock, UnsafeFn, UnsafeImpl, Ffi, ProcessSpawn, NetworkAccess, FilesystemWrite, EnvRead,
                EnvWrite, BuildTimeMacro, BuildScript, ProcMacroCrate, NativeLinkage, Transmute, SymbolExport
            ][kind as usize], file, line, detail
        }).collect()
    });
    let diff = scanner_compare(from, to);
    (diff.worst_severity().as_ref().map(ToString::to_string),
        [diff.added, diff.removed].map(|list| list.into_iter().map(|s| (kinds[s.kind as usize], s.detail)).collect()),
        diff.added_dependencies, diff.removed_dependencies)
}

impl Signal {
    /// A copy of the signal.
    fn duplicate(&self) -> (copy: Signal)
        ensures
            copy@ == self@,
    {
        Signal { kind: self.kind, file: self.file.clone(), line: self.line, detail: self.detail.clone() }
    }
}

impl CrateReport {
    /// A copy of the report.
    fn duplicate(&self) -> (copy: CrateReport)
        ensures
            copy@ == self@,
    {
        let mut signals: Vec<Signal> = Vec::new();
        for i in 0..self.signals.len()
            invariant
                signals.len() == i,
                forall|j: int| 0 <= j < i ==> #[trigger] signals[j]@ == self.signals[j]@,
        {
            signals.push(self.signals[i].duplicate());
        }
        let copy = CrateReport {
            name: self.name.clone(),
            version: self.version.clone(),
            files_scanned: self.files_scanned,
            lines_scanned: self.lines_scanned,
            dependencies: duplicate_all(&self.dependencies),
            signals,
        };
        assert(copy@.signals == self@.signals);
        copy
    }
}

/// What updating from the old report to the new one gains and loses.
pub fn diff_reports(old_report: &CrateReport, new_report: &CrateReport) -> (diff: ReportDiff)
    ensures
        is_diff(old_report@, new_report@, diff@),
{
    let reports = [old_report.duplicate(), new_report.duplicate()];
    let (worst_severity, signals, added_dependencies, removed_dependencies) = scanner_diff(
        reports,
        list_kinds(),
    );
    proof {
        keys_of(signals@[0]@).unique_seq_to_set();
        keys_of(signals@[1]@).unique_seq_to_set();
    }
    ReportDiff {
        worst_severity,
        added_signals: signals[0].len(),
        removed_signals: signals[1].len(),
        added_dependencies,
        removed_dependencies,
    }
}

/// Two reports have exactly one difference.
pub proof fn law_diff_is_determined(
    from: CrateReportView,
    to: CrateReportView,
    one: ReportDiffView,
    other: ReportDiffView,
)
    requires
        is_diff(from, to, one),
        is_diff(from, to, other),
    ensures
        one == other,
{
    law_ascending_is_determined(one.added_dependencies, other.added_dependencies);
    law_ascending_is_determined(one.removed_dependencies, other.removed_dependencies);
}

/// Reports with the same signals and the same dependencies do not differ,
/// wherever and however often the signals occur.
pub proof fn law_same_capabilities_do_not_differ(
    from: CrateReportView,
    to: CrateReportView,
    diff: ReportDiffView,
)
    requires
        signal_keys(from) == signal_keys(to),
        from.dependencies.to_set() == to.dependencies.to_set(),
        is_diff(from, to, diff),
    ensures
        diff.worst_severity is None,
        diff.added_signals == 0,
        diff.removed_signals == 0,
        diff.added_dependencies.len() == 0,
        diff.removed_dependencies.len() == 0,
{
    assert(signals_gained(from, to) =~= Set::empty());
    assert(signals_gained(to, from) =~= Set::empty());
    assert(dependencies_gained(from, to) =~= Set::empty());
    assert(dependencies_gained(to, from) =~= Set::empty());
    if diff.added_dependencies.len() > 0 {
        assert(diff.added_dependencies.to_set().contains(diff.added_dependencies[0]));
    }
    if diff.removed_dependencies.len() > 0 {
        assert(diff.removed_dependencies.to_set().contains(diff.removed_dependencies[0]));
    }
}

/// What one direction adds, the other removes.
pub proof fn law_diff_reverses(
    from: CrateReportView,
    to: CrateReportView,
    forth: ReportDiffView,
    back: ReportDiffView,
)
    requires
        is_diff(from, to, forth),
        is_diff(to, from, back),
    ensures
        forth.added_signals == back.removed_signals,
        forth.removed_signals == back.added_signals,
        forth.added_dependencies == back.removed_dependencies,
        forth.removed_dependencies == back.added_dependencies,
{
    law_ascending_is_determined(forth.added_dependencies, back.removed_dependencies);
    law_ascending_is_determined(forth.removed_dependencies, back.added_dependencies);
}

/// An update has a worst severity exactly when it adds a signal or a
/// dependency.
pub proof fn law_severity_means_gain(
    from: CrateReportView,
    to: CrateReportView,
    diff: ReportDiffView,
)
    requires
        is_diff(from, to, diff),
    ensures
        diff.worst_severity is None <==> diff.added_signals == 0 && diff.added_dependencies.len() == 0,
{
    let signals = signals_gained(from, to);
    let added = diff.added_dependencies;
    assert(signals.finite());
    if signals.len() > 0 {
        let key = signals.choose();
        assert(signals.contains(key));
        assert(has_severity(signals, kind_severity(key.0)));
    } else {
        assert(signals =~= Set::empty());
    }
    if added.len() > 0 {
        assert(added.to_set().contains(added[0]));
    } else {
        assert(added.to_set() =~= Set::empty());
    }
}

/// A report's value shows every field of the report and of its signals.
pub proof fn law_report_view_shows_every_field(report: CrateReport, i: int)
    ensures
        report@.name == report.name@,
        report@.version == report.version@,
        report@.files_scanned == report.files_scanned,
        report@.lines_scanned == report.lines_scanned,
        report@.dependencies == report.dependencies@.map_values(|d: String| d@),
        report@.signals.len() == report.signals@.len(),
        0 <= i < report.signals@.len() ==> report@.signals[i].kind == report.signals@[i].kind,
        0 <= i < report.signals@.len() ==> report@.signals[i].file == report.signals@[i].file@,
        0 <= i < report.signals@.len() ==> report@.signals[i].line == report.signals@[i].line,
        0 <= i < report.signals@.len() ==> report@.signals[i].detail == report.signals@[i].detail@,
{
}

/// A difference's value shows every field of the difference.
pub proof fn law_diff_view_shows_every_field(diff: ReportDiff)
    ensures
        diff.worst_severity matches Some(severity) ==> diff@.worst_severity == Some(severity@),
        diff.worst_severity is None ==> diff@.worst_severity is None,
        diff@.added_signals == diff.added_signals,
        diff@.removed_signals == diff.removed_signals,
        diff@.added_dependencies == diff.added_dependencies@.map_values(|d: String| d@),
        diff@.removed_dependencies == diff.removed_dependencies@.map_values(|d: String| d@),
{
}

/// Counting by severity counts the signals whose kind has that severity.
pub proof fn law_count_is_that_of_the_matching_signals(signals: Seq<SignalView>, severity: Severity)
    ensures
        count_severity(signals, severity) == signals.filter(
            |s: SignalView| kind_severity(s.kind) == severity,
        ).len(),
    decreases signals.len(),
{
    reveal(Seq::filter);
    if signals.len() > 0 {
        law_count_is_that_of_the_matching_signals(signals.drop_last(), severity);
    }
}

/// Counts add up over parts of a report.
pub proof fn law_counts_add_up(front: Seq<SignalView>, back: Seq<SignalView>, severity: Severity)
    ensures
        count_severity(front + back, severity) == count_severity(front, severity) + count_severity(
            back,
            severity,
        ),
    decreases back.len(),
{
    if back.len() == 0 {
        assert(front + back == front);
    } else {
        law_counts_add_up(front, back.drop_last(), severity);
        assert((front + back).drop_last() == front + back.drop_last());
    }
}

/// Somewhere in the report a signal of this kind and detail was found.
pub open spec fn has_signal(report: CrateReportView, kind: SignalKind, detail: Seq<char>) -> bool {
    exists|i: int|
        0 <= i < report.signals.len() && (#[trigger] report.signals[i]).kind == kind
            && report.signals[i].detail == detail
}

/// `to` has a signal of this severity that `from` has not.
pub open spec fn gains(from: CrateReportView, to: CrateReportView, severity: Severity) -> bool {
    exists|kind: SignalKind, detail: Seq<char>| #[trigger]
        has_signal(to, kind, detail) && !has_signal(from, kind, detail) && kind_severity(kind)
            == severity
}

proof fn lemma_signal_keys(report: CrateReportView, key: (SignalKind, Seq<char>))
    ensures
        signal_keys(report).contains(key) <==> has_signal(report, key.0, key.1),
{
    let keys = report.signals.map_values(|s: SignalView| (s.kind, s.detail));
    if keys.contains(key) {
        let i = choose|i: int| 0 <= i < keys.len() && keys[i] == key;
        assert(report.signals[i].kind == key.0 && report.signals[i].detail == key.1);
    }
    if has_signal(report, key.0, key.1) {
        let i = choose|i: int|
            0 <= i < report.signals.len() && (#[trigger] report.signals[i]).kind == key.0
                && report.signals[i].detail == key.1;
        assert(keys[i] == key);
    }
}

/// What a difference counts: `gained` and `lost` list, each once, the kinds and
/// details that only the new and only the old report has, and the difference
/// holds how many these are.
pub proof fn law_diff_counts_what_only_one_report_has(
    from: CrateReportView,
    to: CrateReportView,
    diff: ReportDiffView,
    gained: Seq<(SignalKind, Seq<char>)>,
    lost: Seq<(SignalKind, Seq<char>)>,
)
    requires
        is_diff(from, to, diff),
        gained.no_duplicates(),
        lost.no_duplicates(),
        forall|kind: SignalKind, detail: Seq<char>|
            #![trigger gained.contains((kind, detail))]
            gained.contains((kind, detail)) <==> has_signal(to, kind, detail) && !has_signal(
                from,
                kind,
                detail,
            ),
        forall|kind: SignalKind, detail: Seq<char>|
            #![trigger lost.contains((kind, detail))]
            lost.contains((kind, detail)) <==> has_signal(from, kind, detail) && !has_signal(
                to,
                kind,
                detail,
            ),
    ensures
        diff.added_signals == gained.len(),
        diff.removed_signals == lost.len(),
{
    assert forall|key: (SignalKind, Seq<char>)| #[trigger]
        gained.to_set().contains(key) <==> signals_gained(from, to).contains(key) by {
        lemma_signal_keys(from, key);
        lemma_signal_keys(to, key);
        assert(gained.contains((key.0, key.1)) <==> gained.contains(key));
    }
    assert(gained.to_set() =~= signals_gained(from, to));
    gained.unique_seq_to_set();
    assert forall|key: (SignalKind, Seq<char>)| #[trigger]
        lost.to_set().contains(key) <==> signals_gained(to, from).contains(key) by {
        lemma_signal_keys(from, key);
        lemma_signal_keys(to, key);
        assert(lost.contains((key.0, key.1)) <==> lost.contains(key));
    }
    assert(lost.to_set() =~= signals_gained(to, from));
    lost.unique_seq_to_set();
}

/// Which dependencies a difference lists: those that only the new and those
/// that only the old report has, in the order of their names, each once.
pub proof fn law_diff_lists_what_only_one_report_depends_on(
    from: CrateReportView,
    to: CrateReportView,
    diff: ReportDiffView,
    dependency: Seq<char>,
)
    requires
        is_diff(from, to, diff),
    ensures
        diff.added_dependencies.contains(dependency) <==> to.dependencies.contains(dependency)
            && !from.dependencies.contains(dependency),
        diff.removed_dependencies.contains(dependency) <==> from.dependencies.contains(dependency)
            && !to.dependencies.contains(dependency),
        forall|i: int, j: int|
            0 <= i < j < diff.added_dependencies.len() ==> text_less(
                #[trigger] diff.added_dependencies[i],
                #[trigger] diff.added_dependencies[j],
            ),
        forall|i: int, j: int|
            0 <= i < j < diff.removed_dependencies.len() ==> text_less(
                #[trigger] diff.removed_dependencies[i],
                #[trigger] diff.removed_dependencies[j],
            ),
{
    assert(diff.added_dependencies.to_set().contains(dependency) <==> dependencies_gained(
        from,
        to,
    ).contains(dependency));
    assert(diff.removed_dependencies.to_set().contains(dependency) <==> dependencies_gained(
        to,
        from,
    ).contains(dependency));
}

proof fn lemma_gains(from: CrateReportView, to: CrateReportView, severity: Severity)
    ensures
        has_severity(signals_gained(from, to), severity) <==> gains(from, to, severity),
{
    let signals = signals_gained(from, to);
    if has_severity(signals, severity) {
        let key = choose|key: (SignalKind, Seq<char>)| #[trigger]
            signals.contains(key) && kind_severity(key.0) == severity;
        lemma_signal_keys(from, key);
        lemma_signal_keys(to, key);
        assert(has_signal(to, key.0, key.1));
    }
    if gains(from, to, severity) {
        let (kind, detail) = choose|kind: SignalKind, detail: Seq<char>| #[trigger]
            has_signal(to, kind, detail) && !has_signal(from, kind, detail) && kind_severity(kind)
                == severity;
        lemma_signal_keys(from, (kind, detail));
        lemma_signal_keys(to, (kind, detail));
        assert(signals.contains((kind, detail)));
    }
}

/// How a difference is rated: high where a high-severity signal is gained; else
/// medium where a medium-severity signal or a dependency is gained; else low
/// where a low-severity signal is gained; else not at all. What is lost does
/// not count.
pub proof fn law_diff_is_rated_by_the_worst_gain(
    from: CrateReportView,
    to: CrateReportView,
    diff: ReportDiffView,
)
    requires
        is_diff(from, to, diff),
    ensures
        gains(from, to, Severity::High) ==> diff.worst_severity == Some(seq!['h', 'i', 'g', 'h']),
        !gains(from, to, Severity::High) && (gains(from, to, Severity::Medium)
            || diff.added_dependencies.len() > 0) ==> diff.worst_severity == Some(
            seq!['m', 'e', 'd', 'i', 'u', 'm'],
        ),
        !gains(from, to, Severity::High) && !gains(from, to, Severity::Medium)
            && diff.added_dependencies.len() == 0 && gains(from, to, Severity::Low)
            ==> diff.worst_severity == Some(seq!['l', 'o', 'w']),
        !gains(from, to, Severity::High) && !gains(from, to, Severity::Medium)
            && diff.added_dependencies.len() == 0 && !gains(from, to, Severity::Low)
            ==> diff.worst_severity is None,
{
    lemma_gains(from, to, Severity::High);
    lemma_gains(from, to, Severity::Medium);
    lemma_gains(from, to, Severity::Low);
    reveal_strlit("high");
    reveal_strlit("medium");
    reveal_strlit("low");
    assert("high"@ =~= seq!['h', 'i', 'g', 'h']);
    assert("medium"@ =~= seq!['m', 'e', 'd', 'i', 'u', 'm']);
    assert("low"@ =~= seq!['l', 'o', 'w']);
    let added = diff.added_dependencies;
    if added.len() > 0 {
        assert(added.to_set().contains(added[0]));
        assert(dependencies_gained(from, to).contains(added[0]));
    } else {
        assert forall|d: Seq<char>| !#[trigger] dependencies_gained(from, to).contains(d) by {
            assert(!added.to_set().contains(d));
        }
    }
}


} // verus!
