//! One run over the crates: what to do about each, and what to record.
use vstd::prelude::*;

use crate::clock::{is_timestamp, now_iso};
use crate::history::{entry_views, HistoryEntry, HistoryEntryView};
use crate::report::{
    diff_reports, gains, is_diff, law_diff_is_rated_by_the_worst_gain,
    law_diff_lists_what_only_one_report_depends_on, law_same_capabilities_do_not_differ,
    CrateReport, CrateReportView, ReportDiffView, Severity,
};
use crate::snapshot::{CrateSnapshot, CrateSnapshotView, Snapshot};
use crate::text::{
    decimal, has_passage, has_passages, lemma_passage, push_decimal, same_text,
};

verus! {

/// What the registry says about a crate's latest version.
#[derive(Clone, Debug)]
pub enum Lookup {
    Resolved(String),
    Unresolved,
    Failed(String),
}

/// What to do about a crate: leave it, with a message that says why, or scan
/// the given version.
#[derive(Clone, Debug)]
pub enum Plan {
    Leave(String),
    Scan(String),
}

/// The crate has to be scanned at this version: it is not known yet, or known
/// at another version.
pub open spec fn needs_scan(
    known: Map<Seq<char>, CrateSnapshotView>,
    name: Seq<char>,
    latest: Seq<char>,
) -> bool {
    !known.contains_key(name) || known[name].version != latest
}

/// The plan about a crate follows from what is known and what was looked up.
pub open spec fn is_plan(
    known: Map<Seq<char>, CrateSnapshotView>,
    name: Seq<char>,
    lookup: Lookup,
    plan: Plan,
) -> bool {
    match lookup {
        Lookup::Resolved(latest) => if needs_scan(known, name, latest@) {
            plan matches Plan::Scan(version) && version@ == latest@
        } else {
            plan matches Plan::Leave(message) && message@ == "unchanged at "@ + latest@
        },
        Lookup::Unresolved => plan matches Plan::Leave(message) && message@
            == "could not resolve latest version, skipping"@,
        Lookup::Failed(reason) => plan matches Plan::Leave(message) && message@
            == "error resolving latest version: "@ + reason@,
    }
}

/// Decides what to do about a crate.
pub fn plan_check(snapshot: &Snapshot, name: &str, lookup: Lookup) -> (plan: Plan)
    ensures
        match lookup {
            Lookup::Resolved(latest) => if needs_scan(snapshot@, name@, latest@) {
                plan matches Plan::Scan(version) && version@ == latest@
            } else {
                plan matches Plan::Leave(message) && message@ == "unchanged at "@ + latest@
            },
            Lookup::Unresolved => plan matches Plan::Leave(message) && message@
                == "could not resolve latest version, skipping"@,
            Lookup::Failed(reason) => plan matches Plan::Leave(message) && message@
                == "error resolving latest version: "@ + reason@,
        },
        is_plan(snapshot@, name@, lookup, plan),
        lookup matches Lookup::Resolved(latest) ==> (plan is Leave <==> snapshot@.contains_key(name@)
            && snapshot@[name@].version == latest@),
{
    match lookup {
        Lookup::Resolved(latest) => {
            let unchanged = match snapshot.get(name) {
                Some(state) => same_text(state.version.as_str(), latest.as_str()),
                None => false,
            };
            if unchanged {
                let mut message = "unchanged at ".to_owned();
                message.append(latest.as_str());
                Plan::Leave(message)
            } else {
                Plan::Scan(latest)
            }
        },
        Lookup::Unresolved => Plan::Leave("could not resolve latest version, skipping".to_owned()),
        Lookup::Failed(reason) => {
            let mut message = "error resolving latest version: ".to_owned();
            message.append(reason.as_str());
            Plan::Leave(message)
        },
    }
}

/// The state of a run: what is known of the crates, and the changes that this
/// run has found.
#[derive(Debug)]
pub struct Run {
    pub snapshot: Snapshot,
    pub new_entries: Vec<HistoryEntry>,
}

/// The state of a run as a mathematical value.
pub struct RunView {
    pub snapshot: Map<Seq<char>, CrateSnapshotView>,
    pub new_entries: Seq<HistoryEntryView>,
}

impl View for Run {
    type V = RunView;

    open spec fn view(&self) -> RunView {
        RunView { snapshot: self.snapshot@, new_entries: entry_views(self.new_entries@) }
    }
}

/// The result of scanning one version of one crate, and when it came.
pub struct ScanView {
    pub name: Seq<char>,
    pub version: Seq<char>,
    pub report: CrateReportView,
    pub checked_at: Seq<char>,
    pub last_checked: Seq<char>,
}

/// What an entry says of the difference between the two versions.
pub open spec fn diff_in(entry: HistoryEntryView) -> ReportDiffView {
    ReportDiffView {
        worst_severity: entry.worst_severity,
        added_signals: entry.added_signals,
        removed_signals: entry.removed_signals,
        added_dependencies: entry.added_dependencies,
        removed_dependencies: entry.removed_dependencies,
    }
}

/// The entry records the change from what was known to what the scan found.
pub open spec fn is_change(
    entry: HistoryEntryView,
    known: CrateSnapshotView,
    scan: ScanView,
) -> bool {
    &&& entry.name == scan.name
    &&& entry.old_version == known.version
    &&& entry.new_version == scan.version
    &&& entry.checked_at == scan.checked_at
    &&& is_diff(known.report, scan.report, diff_in(entry))
}

/// The scan takes a run from one state to the next: the crate's new state is
/// known, and a change is recorded where an older state was known.
pub open spec fn is_recorded(before: RunView, after: RunView, scan: ScanView) -> bool {
    &&& after.snapshot == before.snapshot.insert(
        scan.name,
        CrateSnapshotView {
            version: scan.version,
            report: scan.report,
            last_checked: scan.last_checked,
        },
    )
    &&& if before.snapshot.contains_key(scan.name) {
        &&& after.new_entries.len() == before.new_entries.len() + 1
        &&& after.new_entries.drop_last() == before.new_entries
        &&& is_change(after.new_entries.last(), before.snapshot[scan.name], scan)
    } else {
        after.new_entries == before.new_entries
    }
}

/// The message about a scan that succeeded.
pub open spec fn scan_message(
    known: Map<Seq<char>, CrateSnapshotView>,
    name: Seq<char>,
    version: Seq<char>,
) -> Seq<char> {
    if known.contains_key(name) {
        "updated "@ + known[name].version + " -> "@ + version
    } else {
        "new: "@ + version
    }
}

/// The message about a scan that failed.
pub open spec fn scan_failure(name: Seq<char>, version: Seq<char>, reason: Seq<char>) -> Seq<char> {
    "error scanning "@ + name + " "@ + version + ": "@ + reason
}

/// What the outcome of a scan makes of a run, with the time of the check and the
/// time at which the crate's state was taken, and the message about it.
pub open spec fn is_outcome(
    before: RunView,
    after: RunView,
    name: Seq<char>,
    version: Seq<char>,
    outcome: Result<CrateReportView, Seq<char>>,
    times: (Seq<char>, Seq<char>),
    message: Seq<char>,
) -> bool {
    match outcome {
        Ok(report) => {
            let scan = ScanView {
                name,
                version,
                report,
                checked_at: times.0,
                last_checked: times.1,
            };
            is_recorded(before, after, scan) && message == scan_message(
                before.snapshot,
                name,
                version,
            )
        },
        Err(reason) => after == before && message == scan_failure(name, version, reason),
    }
}

/// The outcome of a scan as a mathematical value.
pub open spec fn outcome_view(scanned: Result<CrateReport, String>) -> Result<
    CrateReportView,
    Seq<char>,
> {
    match scanned {
        Ok(report) => Ok(report@),
        Err(reason) => Err(reason@),
    }
}

/// Records the outcome of a scan, with the time of the check and the time at
/// which the crate's state was taken. A scan that failed changes nothing.
pub fn record_scan_at(
    run: &mut Run,
    name: &str,
    version: String,
    scanned: Result<CrateReport, String>,
    checked_at: String,
    last_checked: String,
) -> (message: String)
    ensures
        match scanned {
            Ok(report) => {
                &&& is_recorded(
                    old(run)@,
                    final(run)@,
                    (ScanView {
                        name: name@,
                        version: version@,
                        report: report@,
                        checked_at: checked_at@,
                        last_checked: last_checked@,
                    }),
                )
                &&& message@ == scan_message(old(run)@.snapshot, name@, version@)
            },
            Err(reason) => {
                &&& final(run)@ == old(run)@
                &&& message@ == scan_failure(name@, version@, reason@)
            },
        },
        scanned matches Ok(report) ==> {
            let state = CrateSnapshotView {
                version: version@,
                report: report@,
                last_checked: last_checked@,
            };
            final(run).snapshot@ == old(run).snapshot@.insert(name@, state)
        },
        is_outcome(
            old(run)@,
            final(run)@,
            name@,
            version@,
            outcome_view(scanned),
            (checked_at@, last_checked@),
            message@,
        ),
{
    let report = match scanned {
        Ok(report) => report,
        Err(reason) => {
            let mut message = "error scanning ".to_owned();
            message.append(name);
            message.append(" ");
            message.append(version.as_str());
            message.append(": ");
            message.append(reason.as_str());
            return message;
        },
    };
    let ghost before = run@;
    let mut message = String::new();
    let mut change: Option<HistoryEntry> = None;
    match run.snapshot.get(name) {
        Some(known) => {
            message = "updated ".to_owned();
            message.append(known.version.as_str());
            message.append(" -> ");
            message.append(version.as_str());
            let diff = diff_reports(&known.report, &report);
            let entry = HistoryEntry {
                name: name.to_owned(),
                old_version: known.version.clone(),
                new_version: version.clone(),
                checked_at,
                worst_severity: diff.worst_severity,
                added_signals: diff.added_signals,
                removed_signals: diff.removed_signals,
                added_dependencies: diff.added_dependencies,
                removed_dependencies: diff.removed_dependencies,
            };
            change = Some(entry);
        },
        None => {
            message = "new: ".to_owned();
            message.append(version.as_str());
        },
    }
    match change {
        Some(entry) => {
            run.new_entries.push(entry);
            assert(run@.new_entries.drop_last() == before.new_entries);
        },
        None => {},
    }
    run.snapshot.insert(name.to_owned(), CrateSnapshot { version, report, last_checked });
    message
}

/// Records the outcome of a scan as of now.
pub fn record_scan(
    run: &mut Run,
    name: &str,
    version: String,
    scanned: Result<CrateReport, String>,
) -> (message: String)
    ensures
        match scanned {
            Ok(report) => {
                &&& exists|checked_at: Seq<char>, last_checked: Seq<char>|
                    is_timestamp(checked_at) && is_timestamp(last_checked) && #[trigger] is_recorded(
                        old(run)@,
                        final(run)@,
                        (ScanView {
                            name: name@,
                            version: version@,
                            report: report@,
                            checked_at,
                            last_checked,
                        }),
                    )
                &&& message@ == scan_message(old(run)@.snapshot, name@, version@)
            },
            Err(reason) => {
                &&& final(run)@ == old(run)@
                &&& message@ == scan_failure(name@, version@, reason@)
            },
        },
        scanned matches Ok(report) ==> {
            &&& final(run).snapshot@.dom() == old(run).snapshot@.dom().insert(name@)
            &&& final(run).snapshot@[name@].version == version@
            &&& final(run).snapshot@[name@].report == report@
        },
        exists|times: (Seq<char>, Seq<char>)|
            is_timestamp(times.0) && is_timestamp(times.1) && #[trigger] is_outcome(
                old(run)@,
                final(run)@,
                name@,
                version@,
                outcome_view(scanned),
                times,
                message@,
            ),
{
    let checked_at = now_iso();
    let last_checked = now_iso();
    record_scan_at(run, name, version, scanned, checked_at, last_checked)
}

/// The text of the closing message of a run.
pub open spec fn closing_text(crates: nat, changes: nat, site: Seq<char>) -> Seq<char> {
    "\n"@ + decimal(crates) + " crates tracked, "@ + decimal(changes)
        + " new change(s) this run, site written to "@ + site
}

/// The closing message of a run.
pub fn closing_message(crates: usize, changes: usize, site: &str) -> (message: String)
    ensures
        message@ == "\n"@ + decimal(crates as nat) + " crates tracked, "@ + decimal(changes as nat)
            + " new change(s) this run, site written to "@ + site@,
        message@ == closing_text(crates as nat, changes as nat, site@),
{
    let mut message = "\n".to_owned();
    push_decimal(&mut message, crates);
    message.append(" crates tracked, ");
    push_decimal(&mut message, changes);
    message.append(" new change(s) this run, site written to ");
    message.append(site);
    message
}

/// Once a scan is recorded, the same version needs no scan again.
pub proof fn law_recorded_version_needs_no_scan(before: RunView, after: RunView, scan: ScanView)
    requires
        is_recorded(before, after, scan),
    ensures
        !needs_scan(after.snapshot, scan.name, scan.version),
{
}

/// Recording a scan of one crate leaves what is known of all others as it is.
pub proof fn law_recording_leaves_other_crates(
    before: RunView,
    after: RunView,
    scan: ScanView,
    other: Seq<char>,
)
    requires
        is_recorded(before, after, scan),
        other != scan.name,
    ensures
        after.snapshot.contains_key(other) == before.snapshot.contains_key(other),
        before.snapshot.contains_key(other) ==> after.snapshot[other] == before.snapshot[other],
{
}

/// What a run may do about a crate once its latest version was looked up:
/// nothing, or record a scan of that version where it needs one.
pub open spec fn is_step(
    before: RunView,
    after: RunView,
    name: Seq<char>,
    latest: Option<Seq<char>>,
) -> bool {
    ||| after == before
    ||| exists|scan: ScanView|
        {
            &&& #[trigger] is_recorded(before, after, scan)
            &&& scan.name == name
            &&& latest == Some(scan.version)
            &&& needs_scan(before.snapshot, name, scan.version)
        }
}

/// Recording a scan of a crate's latest version, where it needs one, is a step
/// of a run.
pub proof fn law_needed_scan_is_a_step(before: RunView, after: RunView, scan: ScanView)
    requires
        needs_scan(before.snapshot, scan.name, scan.version),
        is_recorded(before, after, scan),
    ensures
        is_step(before, after, scan.name, Some(scan.version)),
{
}

/// The states that a run goes through as it takes one listed crate after
/// another; a crate's latest version may remain unknown.
pub open spec fn is_run(
    states: Seq<RunView>,
    names: Seq<Seq<char>>,
    latest: Seq<Option<Seq<char>>>,
) -> bool {
    &&& states.len() == names.len() + 1
    &&& latest.len() == names.len()
    &&& forall|i: int|
        #![trigger names[i]]
        0 <= i < names.len() ==> is_step(states[i], states[i + 1], names[i], latest[i])
}

proof fn lemma_run_front(
    states: Seq<RunView>,
    names: Seq<Seq<char>>,
    latest: Seq<Option<Seq<char>>>,
)
    requires
        is_run(states, names, latest),
        names.len() > 0,
    ensures
        is_run(states.drop_last(), names.drop_last(), latest.drop_last()),
        is_step(states[names.len() - 1], states[names.len() as int], names.last(), latest.last()),
{
    let fewer = names.drop_last();
    let front = states.drop_last();
    assert forall|i: int| #![trigger fewer[i]] 0 <= i < fewer.len() implies is_step(
        front[i],
        front[i + 1],
        fewer[i],
        latest.drop_last()[i],
    ) by {
        assert(fewer[i] == names[i]);
    }
    assert(names.last() == names[names.len() - 1]);
}

/// Looked up more than once in a run, a crate has one latest version.
pub open spec fn lookups_agree(names: Seq<Seq<char>>, latest: Seq<Option<Seq<char>>>) -> bool {
    forall|i: int, j: int|
        #![trigger names[i], names[j]]
        0 <= i < j < names.len() && names[i] == names[j] && latest[i] is Some && latest[j] is Some
            ==> latest[i] == latest[j]
}

/// A crate is known at a version that one of its lookups gave.
spec fn is_known_at_latest(
    known: Map<Seq<char>, CrateSnapshotView>,
    names: Seq<Seq<char>>,
    latest: Seq<Option<Seq<char>>>,
    name: Seq<char>,
) -> bool {
    known.contains_key(name) && exists|i: int|
        0 <= i < names.len() && #[trigger] names[i] == name && latest[i] == Some(known[name].version)
}

/// A crate that is known at a version that one of its lookups gave is not
/// scanned again, and a step keeps it known so.
proof fn lemma_known_at_latest_stays(
    before: RunView,
    after: RunView,
    names: Seq<Seq<char>>,
    latest: Seq<Option<Seq<char>>>,
    name: Seq<char>,
)
    requires
        names.len() > 0,
        latest.len() == names.len(),
        lookups_agree(names, latest),
        is_step(before, after, names.last(), latest.last()),
        is_known_at_latest(before.snapshot, names.drop_last(), latest.drop_last(), name),
    ensures
        is_known_at_latest(after.snapshot, names, latest, name),
        name == names.last() ==> after == before,
{
    let n = names.len() - 1;
    let fewer = names.drop_last();
    let i = choose|i: int|
        0 <= i < fewer.len() && #[trigger] fewer[i] == name && latest.drop_last()[i] == Some(
            before.snapshot[name].version,
        );
    assert(names[i] == name);
    assert(names[n] == names.last());
    assert(latest[i] == Some(before.snapshot[name].version));
    if name == names[n] && latest[n] is Some {
        assert(latest[i] == latest[n]);
    }
}

proof fn lemma_lookups_agree_front(names: Seq<Seq<char>>, latest: Seq<Option<Seq<char>>>)
    requires
        names.len() > 0,
        latest.len() == names.len(),
        lookups_agree(names, latest),
    ensures
        lookups_agree(names.drop_last(), latest.drop_last()),
{
    let fewer = names.drop_last();
    let front = latest.drop_last();
    assert forall|i: int, j: int|
        #![trigger fewer[i], fewer[j]]
        0 <= i < j < fewer.len() && fewer[i] == fewer[j] && front[i] is Some && front[j] is Some
        implies front[i] == front[j] by {
        assert(fewer[i] == names[i] && fewer[j] == names[j]);
    }
}

proof fn lemma_first_run_knows_latest(
    states: Seq<RunView>,
    names: Seq<Seq<char>>,
    latest: Seq<Option<Seq<char>>>,
)
    requires
        is_run(states, names, latest),
        lookups_agree(names, latest),
        states[0].snapshot == Map::<Seq<char>, CrateSnapshotView>::empty(),
        states[0].new_entries.len() == 0,
    ensures
        states.last().new_entries.len() == 0,
        forall|name: Seq<char>| #[trigger]
            states.last().snapshot.contains_key(name) ==> is_known_at_latest(
                states.last().snapshot,
                names,
                latest,
                name,
            ),
    decreases names.len(),
{
    if names.len() > 0 {
        let n = names.len() - 1;
        let fewer = names.drop_last();
        lemma_run_front(states, names, latest);
        lemma_lookups_agree_front(names, latest);
        lemma_first_run_knows_latest(states.drop_last(), fewer, latest.drop_last());
        let (before, after) = (states[n], states[n + 1]);
        assert(states.drop_last().last() == before);
        assert(names[n] == names.last() && latest[n] == latest.last());
        if before.snapshot.contains_key(names[n]) {
            lemma_known_at_latest_stays(before, after, names, latest, names[n]);
        }
        assert forall|name: Seq<char>| #[trigger]
            after.snapshot.contains_key(name) implies is_known_at_latest(
            after.snapshot,
            names,
            latest,
            name,
        ) by {
            if before.snapshot.contains_key(name) {
                lemma_known_at_latest_stays(before, after, names, latest, name);
            } else {
                assert(name == names[n]);
            }
        }
    }
}

/// A first run, with nothing known before, records no change and knows listed
/// crates only, whatever is looked up and found, as long as two lookups of one
/// crate agree.
pub proof fn law_first_run_records_no_change(
    states: Seq<RunView>,
    names: Seq<Seq<char>>,
    latest: Seq<Option<Seq<char>>>,
)
    requires
        is_run(states, names, latest),
        lookups_agree(names, latest),
        states[0].snapshot == Map::<Seq<char>, CrateSnapshotView>::empty(),
        states[0].new_entries.len() == 0,
    ensures
        states.last().new_entries.len() == 0,
        forall|name: Seq<char>| #[trigger]
            states.last().snapshot.contains_key(name) ==> names.contains(name),
{
    lemma_first_run_knows_latest(states, names, latest);
}

/// Every change that a run records is a change of version of a listed crate,
/// and there is at most one for each listing.
pub proof fn law_recorded_changes_are_version_changes(
    states: Seq<RunView>,
    names: Seq<Seq<char>>,
    latest: Seq<Option<Seq<char>>>,
)
    requires
        is_run(states, names, latest),
        states[0].new_entries.len() == 0,
    ensures
        states.last().new_entries.len() <= names.len(),
        forall|i: int|
            0 <= i < states.last().new_entries.len() ==> {
                let entry = #[trigger] states.last().new_entries[i];
                entry.old_version != entry.new_version && names.contains(entry.name)
            },
    decreases names.len(),
{
    if names.len() > 0 {
        let n = names.len() - 1;
        let fewer = names.drop_last();
        lemma_run_front(states, names, latest);
        law_recorded_changes_are_version_changes(states.drop_last(), fewer, latest.drop_last());
        let (before, after) = (states[n], states[n + 1]);
        assert(states.drop_last().last() == before);
        assert forall|i: int| 0 <= i < after.new_entries.len() implies {
            let entry = #[trigger] after.new_entries[i];
            entry.old_version != entry.new_version && names.contains(entry.name)
        } by {
            let entry = after.new_entries[i];
            if i < before.new_entries.len() {
                if after.new_entries.len() > before.new_entries.len() {
                    assert(after.new_entries.drop_last()[i] == entry);
                }
                assert(before.new_entries[i] == entry);
                assert(fewer.contains(entry.name));
                let k = choose|k: int| 0 <= k < fewer.len() && fewer[k] == entry.name;
                assert(names[k] == entry.name);
            } else {
                assert(entry == after.new_entries.last());
                assert(entry.name == names[n]);
            }
        }
    }
}

proof fn lemma_changed_crates_are_known_at_latest(
    states: Seq<RunView>,
    names: Seq<Seq<char>>,
    latest: Seq<Option<Seq<char>>>,
    i: int,
)
    requires
        is_run(states, names, latest),
        lookups_agree(names, latest),
        states[0].new_entries.len() == 0,
        0 <= i < states.last().new_entries.len(),
    ensures
        is_known_at_latest(
            states.last().snapshot,
            names,
            latest,
            states.last().new_entries[i].name,
        ),
    decreases names.len(),
{
    if names.len() > 0 {
        let n = names.len() - 1;
        lemma_run_front(states, names, latest);
        lemma_lookups_agree_front(names, latest);
        let (before, after) = (states[n], states[n + 1]);
        assert(states.drop_last().last() == before);
        assert(names[n] == names.last() && latest[n] == latest.last());
        let entry = after.new_entries[i];
        if i < before.new_entries.len() {
            if after.new_entries.len() > before.new_entries.len() {
                assert(after.new_entries.drop_last()[i] == entry);
            }
            lemma_changed_crates_are_known_at_latest(
                states.drop_last(),
                names.drop_last(),
                latest.drop_last(),
                i,
            );
            lemma_known_at_latest_stays(before, after, names, latest, entry.name);
        } else {
            assert(entry == after.new_entries.last());
            assert(entry.name == names[n]);
        }
    }
}

/// A run records at most one change of each crate, as long as two lookups of
/// one crate agree.
pub proof fn law_run_records_each_crate_once(
    states: Seq<RunView>,
    names: Seq<Seq<char>>,
    latest: Seq<Option<Seq<char>>>,
    i: int,
    j: int,
)
    requires
        is_run(states, names, latest),
        lookups_agree(names, latest),
        states[0].new_entries.len() == 0,
        0 <= i < j < states.last().new_entries.len(),
    ensures
        states.last().new_entries[i].name != states.last().new_entries[j].name,
    decreases names.len(),
{
    if names.len() > 0 {
        let n = names.len() - 1;
        let fewer = names.drop_last();
        lemma_run_front(states, names, latest);
        lemma_lookups_agree_front(names, latest);
        let (before, after) = (states[n], states[n + 1]);
        assert(states.drop_last().last() == before);
        if after.new_entries.len() > before.new_entries.len() {
            assert(after.new_entries.drop_last()[i] == before.new_entries[i]);
        }
        if j < before.new_entries.len() {
            if after.new_entries.len() > before.new_entries.len() {
                assert(after.new_entries.drop_last()[j] == before.new_entries[j]);
            }
            law_run_records_each_crate_once(states.drop_last(), fewer, latest.drop_last(), i, j);
        } else {
            assert(after.new_entries[j] == after.new_entries.last());
            assert(after.new_entries[j].name == names.last());
            let name = before.new_entries[i].name;
            lemma_changed_crates_are_known_at_latest(
                states.drop_last(),
                fewer,
                latest.drop_last(),
                i,
            );
            lemma_known_at_latest_stays(before, after, names, latest, name);
        }
    }
}

/// A run that finds every crate at its known version, or cannot look it up,
/// changes nothing and records nothing.
pub proof fn law_unchanged_run_changes_nothing(
    states: Seq<RunView>,
    names: Seq<Seq<char>>,
    latest: Seq<Option<Seq<char>>>,
)
    requires
        is_run(states, names, latest),
        forall|i: int|
            #![trigger names[i]]
            0 <= i < names.len() && latest[i] is Some ==> !needs_scan(
                states[0].snapshot,
                names[i],
                latest[i]->0,
            ),
    ensures
        states.last() == states[0],
    decreases names.len(),
{
    if names.len() > 0 {
        let n = names.len() - 1;
        let fewer = names.drop_last();
        lemma_run_front(states, names, latest);
        assert forall|i: int|
            #![trigger fewer[i]]
            0 <= i < fewer.len() && latest.drop_last()[i] is Some implies !needs_scan(
            states[0].snapshot,
            fewer[i],
            latest.drop_last()[i]->0,
        ) by {
            assert(fewer[i] == names[i]);
        }
        law_unchanged_run_changes_nothing(states.drop_last(), fewer, latest.drop_last());
        assert(states.drop_last().last() == states[n]);
        assert(names[n] == names.last());
    }
}

/// A run leaves what is known of the crates that are not listed as it is.
pub proof fn law_run_leaves_unlisted_crates(
    states: Seq<RunView>,
    names: Seq<Seq<char>>,
    latest: Seq<Option<Seq<char>>>,
    other: Seq<char>,
)
    requires
        is_run(states, names, latest),
        !names.contains(other),
    ensures
        states.last().snapshot.contains_key(other) == states[0].snapshot.contains_key(other),
        states[0].snapshot.contains_key(other) ==> states.last().snapshot[other]
            == states[0].snapshot[other],
    decreases names.len(),
{
    if names.len() > 0 {
        let n = names.len() - 1;
        let fewer = names.drop_last();
        lemma_run_front(states, names, latest);
        if fewer.contains(other) {
            let k = choose|k: int| 0 <= k < fewer.len() && fewer[k] == other;
            assert(names[k] == other);
        }
        law_run_leaves_unlisted_crates(states.drop_last(), fewer, latest.drop_last(), other);
        assert(states.drop_last().last() == states[n]);
        assert(names[n] != other);
    }
}

/// A run's value shows what is known and every change found.
pub proof fn law_run_view_shows_everything(run: Run)
    ensures
        run@.snapshot == run.snapshot@,
        run@.new_entries == run.new_entries@.map_values(|e: HistoryEntry| e@),
{
}

/// A crate that is known at another version than the latest is scanned at the
/// latest.
pub proof fn law_moved_crate_is_scanned(
    known: Map<Seq<char>, CrateSnapshotView>,
    name: Seq<char>,
    latest: String,
    plan: Plan,
)
    requires
        is_plan(known, name, Lookup::Resolved(latest), plan),
        known.contains_key(name),
        known[name].version != latest@,
    ensures
        plan is Scan,
        plan->Scan_0@ == latest@,
        needs_scan(known, name, latest@),
{
}

/// A crate of which nothing is known is scanned at its latest version.
pub proof fn law_unknown_crate_is_scanned(
    known: Map<Seq<char>, CrateSnapshotView>,
    name: Seq<char>,
    latest: String,
    plan: Plan,
)
    requires
        is_plan(known, name, Lookup::Resolved(latest), plan),
        !known.contains_key(name),
    ensures
        plan is Scan,
        plan->Scan_0@ == latest@,
        needs_scan(known, name, latest@),
{
}

/// A crate that is known at its latest version is left, with a message that
/// ends with the version.
pub proof fn law_current_crate_is_left(
    known: Map<Seq<char>, CrateSnapshotView>,
    name: Seq<char>,
    latest: String,
    plan: Plan,
)
    requires
        is_plan(known, name, Lookup::Resolved(latest), plan),
        known.contains_key(name),
        known[name].version == latest@,
    ensures
        plan is Leave,
        plan->Leave_0@ == seq!['u', 'n', 'c', 'h', 'a', 'n', 'g', 'e', 'd', ' ', 'a', 't', ' '] + latest@,
        !needs_scan(known, name, latest@),
{
    reveal_strlit("unchanged at ");
    assert("unchanged at "@ =~= seq!['u', 'n', 'c', 'h', 'a', 'n', 'g', 'e', 'd', ' ', 'a', 't', ' ']);
}

/// A crate whose latest version is not found is left, whatever is known of it,
/// with a message that is the same for all crates and, where the lookup failed,
/// ends with the reason.
pub proof fn law_crate_without_latest_version_is_left(
    known: Map<Seq<char>, CrateSnapshotView>,
    other: Map<Seq<char>, CrateSnapshotView>,
    name: Seq<char>,
    other_name: Seq<char>,
    reason: String,
    plans: Seq<Plan>,
)
    requires
        plans.len() == 3,
        is_plan(known, name, Lookup::Unresolved, plans[0]),
        is_plan(other, other_name, Lookup::Unresolved, plans[1]),
        is_plan(known, name, Lookup::Failed(reason), plans[2]),
    ensures
        plans[0] is Leave && plans[1] is Leave && plans[2] is Leave,
        plans[0]->Leave_0@ == plans[1]->Leave_0@,
        plans[0]->Leave_0@ == "could not resolve latest version, skipping"@,
        plans[2]->Leave_0@ == "error resolving latest version: "@ + reason@,
{
}

/// After a scan is recorded, the crate is known at the version that was
/// scanned, with the report of that scan and the time it was taken, whatever
/// was known before.
pub proof fn law_recorded_scan_is_what_is_known(before: RunView, after: RunView, scan: ScanView)
    requires
        is_recorded(before, after, scan),
    ensures
        after.snapshot.contains_key(scan.name),
        after.snapshot[scan.name].version == scan.version,
        after.snapshot[scan.name].report == scan.report,
        after.snapshot[scan.name].last_checked == scan.last_checked,
        after.snapshot.dom() == before.snapshot.dom().insert(scan.name),
{
}

/// A scan of a crate that was known adds one change behind those found before;
/// a scan of a crate that was not known adds none.
pub proof fn law_changes_are_added_behind(before: RunView, after: RunView, scan: ScanView)
    requires
        is_recorded(before, after, scan),
    ensures
        after.new_entries.len() == before.new_entries.len() + (if before.snapshot.contains_key(
            scan.name,
        ) {
            1int
        } else {
            0int
        }),
        forall|i: int|
            0 <= i < before.new_entries.len() ==> #[trigger] after.new_entries[i]
                == before.new_entries[i],
{
    assert forall|i: int| 0 <= i < before.new_entries.len() implies #[trigger] after.new_entries[i]
        == before.new_entries[i] by {
        if before.snapshot.contains_key(scan.name) {
            assert(after.new_entries.drop_last()[i] == before.new_entries[i]);
        }
    }
}

/// A change is recorded under the crate's name, from the known to the scanned
/// version, as of the time of the check, with what the known report and the
/// scanned one differ in.
pub proof fn law_change_goes_from_known_to_scanned(
    before: RunView,
    after: RunView,
    scan: ScanView,
    dependency: Seq<char>,
)
    requires
        is_recorded(before, after, scan),
        before.snapshot.contains_key(scan.name),
    ensures
        after.new_entries.len() > 0,
        after.new_entries.last().name == scan.name,
        after.new_entries.last().old_version == before.snapshot[scan.name].version,
        after.new_entries.last().new_version == scan.version,
        after.new_entries.last().checked_at == scan.checked_at,
        is_diff(
            before.snapshot[scan.name].report,
            scan.report,
            (ReportDiffView {
                worst_severity: after.new_entries.last().worst_severity,
                added_signals: after.new_entries.last().added_signals,
                removed_signals: after.new_entries.last().removed_signals,
                added_dependencies: after.new_entries.last().added_dependencies,
                removed_dependencies: after.new_entries.last().removed_dependencies,
            }),
        ),
        after.new_entries.last().added_dependencies.contains(dependency)
            <==> scan.report.dependencies.contains(dependency)
            && !before.snapshot[scan.name].report.dependencies.contains(dependency),
        after.new_entries.last().removed_dependencies.contains(dependency)
            <==> before.snapshot[scan.name].report.dependencies.contains(dependency)
            && !scan.report.dependencies.contains(dependency),
        gains(before.snapshot[scan.name].report, scan.report, Severity::High)
            <==> after.new_entries.last().worst_severity == Some("high"@),
{
    let entry = after.new_entries.last();
    let old_report = before.snapshot[scan.name].report;
    law_diff_lists_what_only_one_report_depends_on(
        old_report,
        scan.report,
        diff_in(entry),
        dependency,
    );
    law_diff_is_rated_by_the_worst_gain(old_report, scan.report, diff_in(entry));
    reveal_strlit("high");
    assert("high"@ =~= seq!['h', 'i', 'g', 'h']);
    assert("high"@.len() == 4);
}

/// A change recorded after another scan of the same crate is the difference
/// between the two scans, from the version of the one to that of the other.
pub proof fn law_change_lies_between_the_two_latest_scans(
    first: RunView,
    second: RunView,
    third: RunView,
    earlier: ScanView,
    later: ScanView,
)
    requires
        is_recorded(first, second, earlier),
        is_recorded(second, third, later),
        earlier.name == later.name,
    ensures
        third.new_entries.len() == second.new_entries.len() + 1,
        third.new_entries.last().name == later.name,
        third.new_entries.last().old_version == earlier.version,
        third.new_entries.last().new_version == later.version,
        is_diff(earlier.report, later.report, diff_in(third.new_entries.last())),
        third.snapshot[later.name].report == later.report,
{
}

/// A scan that finds the same capabilities again records a change without
/// gain or loss, and one that no alert is due for.
pub proof fn law_same_scan_again_gains_nothing(
    first: RunView,
    second: RunView,
    third: RunView,
    earlier: ScanView,
    later: ScanView,
)
    requires
        is_recorded(first, second, earlier),
        is_recorded(second, third, later),
        earlier.name == later.name,
        earlier.report.signals == later.report.signals,
        earlier.report.dependencies == later.report.dependencies,
    ensures
        third.new_entries.last().worst_severity is None,
        third.new_entries.last().added_signals == 0,
        third.new_entries.last().removed_signals == 0,
{
    law_same_capabilities_do_not_differ(
        earlier.report,
        later.report,
        diff_in(third.new_entries.last()),
    );
}

/// The message about a scan names the version scanned at its end and, where the
/// crate was known, the version it had; it names nothing else.
pub proof fn law_scan_message_names_versions(
    known: Map<Seq<char>, CrateSnapshotView>,
    name: Seq<char>,
    version: Seq<char>,
)
    ensures
        known.contains_key(name) ==> {
            let message = scan_message(known, name, version);
            &&& ("updated "@ + known[name].version).is_prefix_of(message)
            &&& (" -> "@ + version).is_suffix_of(message)
            &&& message.len() == known[name].version.len() + version.len() + 12
        },
        !known.contains_key(name) ==> {
            let message = scan_message(known, name, version);
            &&& "new: "@.is_prefix_of(message)
            &&& version.is_suffix_of(message)
            &&& message.len() == version.len() + 5
        },
{
    reveal_strlit("updated ");
    reveal_strlit(" -> ");
    reveal_strlit("new: ");
    let message = scan_message(known, name, version);
    if known.contains_key(name) {
        let old_version = known[name].version;
        let (front, back) = ("updated "@ + old_version, " -> "@ + version);
        assert(message =~= front + back);
        assert(message.subrange(0, front.len() as int) =~= front);
        assert(message.subrange(message.len() - back.len(), message.len() as int) =~= back);
    } else {
        assert(message.subrange(0, 5) =~= "new: "@);
        assert(message.subrange(message.len() - version.len(), message.len() as int) =~= version);
    }
}

/// The message about a scan that failed names the crate, the version and the
/// reason, in this order.
pub proof fn law_scan_failure_names_everything(
    name: Seq<char>,
    version: Seq<char>,
    reason: Seq<char>,
)
    ensures
        ("error scanning "@ + name).is_prefix_of(scan_failure(name, version, reason)),
        (": "@ + reason).is_suffix_of(scan_failure(name, version, reason)),
        has_passage(scan_failure(name, version, reason), name + " "@ + version + ": "@),
        scan_failure(name, version, reason).len() == name.len() + version.len() + reason.len() + 18,
{
    reveal_strlit("error scanning ");
    reveal_strlit(" ");
    reveal_strlit(": ");
    let message = scan_failure(name, version, reason);
    let (front, back) = ("error scanning "@ + name, ": "@ + reason);
    assert(message =~= front + (" "@ + version) + back);
    assert(message.subrange(0, front.len() as int) =~= front);
    assert(message.subrange(message.len() - back.len(), message.len() as int) =~= back);
    assert(message =~= "error scanning "@ + ((name + " "@ + version + ": "@) + reason));
    lemma_passage(message, "error scanning "@, name + " "@ + version + ": "@, reason);
}

/// The closing message counts the crates, then the changes, and ends with the
/// place of the page.
pub proof fn law_closing_message_counts(crates: nat, changes: nat, site: Seq<char>)
    ensures
        ("\n"@ + decimal(crates) + " crates tracked, "@).is_prefix_of(
            closing_text(crates, changes, site),
        ),
        site.is_suffix_of(closing_text(crates, changes, site)),
        has_passages(
            closing_text(crates, changes, site),
            decimal(crates),
            decimal(changes) + " new change(s) this run, site written to "@,
        ),
        closing_text(crates, changes, site).len() == decimal(crates).len() + decimal(changes).len()
            + site.len() + 59,
{
    reveal_strlit("\n");
    reveal_strlit(" crates tracked, ");
    reveal_strlit(" new change(s) this run, site written to ");
    let message = closing_text(crates, changes, site);
    let front = "\n"@ + decimal(crates) + " crates tracked, "@;
    let back = decimal(changes) + " new change(s) this run, site written to "@;
    assert(message =~= front + back + site);
    assert(message.subrange(0, front.len() as int) =~= front);
    assert(message.subrange(message.len() - site.len(), message.len() as int) =~= site);
    assert(message =~= "\n"@ + decimal(crates) + " crates tracked, "@ + back + site);
}


/// A scan that failed changes nothing, whatever was known and whatever the
/// reason was.
pub proof fn law_failed_scan_changes_nothing(
    before: RunView,
    after: RunView,
    name: Seq<char>,
    version: Seq<char>,
    reason: Seq<char>,
    times: (Seq<char>, Seq<char>),
    message: Seq<char>,
)
    requires
        is_outcome(before, after, name, version, Err(reason), times, message),
    ensures
        after.snapshot == before.snapshot,
        after.new_entries == before.new_entries,
        message == scan_failure(name, version, reason),
{
}

/// A scan that succeeded is recorded at once: the crate is known as scanned, a
/// change is added exactly where the crate was known before, and all other
/// crates stay as they were.
pub proof fn law_successful_scan_is_recorded(
    before: RunView,
    after: RunView,
    name: Seq<char>,
    version: Seq<char>,
    report: CrateReportView,
    times: (Seq<char>, Seq<char>),
    message: Seq<char>,
    other: Seq<char>,
)
    requires
        is_outcome(before, after, name, version, Ok(report), times, message),
        other != name,
    ensures
        after.snapshot.contains_key(name),
        after.snapshot[name].version == version,
        after.snapshot[name].report == report,
        after.snapshot[name].last_checked == times.1,
        after.snapshot.contains_key(other) == before.snapshot.contains_key(other),
        before.snapshot.contains_key(other) ==> after.snapshot[other] == before.snapshot[other],
        before.snapshot.contains_key(name) ==> {
            &&& after.new_entries.len() == before.new_entries.len() + 1
            &&& after.new_entries.last().name == name
            &&& after.new_entries.last().old_version == before.snapshot[name].version
            &&& after.new_entries.last().new_version == version
            &&& after.new_entries.last().checked_at == times.0
            &&& is_diff(before.snapshot[name].report, report, diff_in(after.new_entries.last()))
        },
        !before.snapshot.contains_key(name) ==> after.new_entries == before.new_entries,
        message == scan_message(before.snapshot, name, version),
{
}


/// An outcome's value shows the report or the reason.
pub proof fn law_outcome_view_shows_everything(report: CrateReport, reason: String)
    ensures
        outcome_view(Ok(report)) == Ok::<CrateReportView, Seq<char>>(report@),
        outcome_view(Err(reason)) == Err::<CrateReportView, Seq<char>>(reason@),
{
}


} // verus!
