//! The static page: recent changes and the current profile of every crate.
use vstd::prelude::*;

use crate::clock::{date_of, date_part, is_timestamp, now_iso};
use crate::escape::{escaped, html_escape};
use crate::history::{entry_views, newest, HistoryEntry, HistoryEntryView};
use crate::occurrences::{
    count_char, is_delimiter, lemma_count_char_absent, lemma_decimal_has_no_delimiter,
    lemma_escaped_has_no_delimiter,
};
use crate::report::{
    count_severity, kind_severity, law_count_is_that_of_the_matching_signals, severity_counts,
    text_opt, Severity, SignalView,
};
use crate::snapshot::{law_map_determines_list, map_of, names_of, CrateSnapshotView, Snapshot};
use crate::text::{
    ascending, comes_before, decimal, has_passage, has_passages, law_text_less_irreflexive,
    law_text_less_total, law_text_less_transitive, lemma_add_associates, lemma_begins_and_ends,
    lemma_passage, lemma_passage_extends, lemma_passages_extend, push_decimal, same_text,
    text_less,
};

verus! {

/// How many changes the page shows.
pub const HISTORY_DISPLAY_LIMIT: usize = 100;

/// The page up to the first count of crates.
pub const PAGE_HEAD: &'static str = r##"<!doctype html>
<html lang="en">
<head>
<meta charset="utf-8">
<meta name="viewport" content="width=device-width, initial-scale=1">
<title>capscan leaderboard</title>
<meta name="description" content="Capability surface tracking for popular crates.io crates, powered by capscan.">
<link rel="icon" href="data:image/svg+xml,<svg xmlns=%22http://www.w3.org/2000/svg%22 viewBox=%220 0 100 100%22><text y=%22.9em%22 font-size=%2290%22>%F0%9F%9B%A1%EF%B8%8F</text></svg>">
<link rel="alternate" type="application/atom+xml" title="capscan leaderboard" href="feed.xml">

<meta property="og:type" content="website">
<meta property="og:url" content="https://poglesbyg.github.io/capscan-leaderboard/">
<meta property="og:title" content="capscan leaderboard">
<meta property="og:description" content="Capability surface of "##;

/// Between the first and the second count of crates.
pub const PAGE_CARD: &'static str = r##" popular crates.io crates, tracked over time by capscan.">
<meta property="og:image" content="https://poglesbyg.github.io/capscan-leaderboard/og-image.jpg">
<meta property="og:image:width" content="1200">
<meta property="og:image:height" content="630">
<meta name="twitter:card" content="summary_large_image">
<meta name="twitter:title" content="capscan leaderboard">
<meta name="twitter:description" content="Capability surface of "##;

/// Between the second and the third count of crates.
pub const PAGE_STYLE: &'static str = r##" popular crates.io crates, tracked over time by capscan.">
<meta name="twitter:image" content="https://poglesbyg.github.io/capscan-leaderboard/og-image.jpg">
<style>
  :root {
    color-scheme: light dark;
    --bg: #ffffff; --fg: #1a1a1a; --muted: #6b7280; --border: #e5e7eb;
    --card: #f9fafb; --link: #2563eb;
    --high: #b91c1c; --medium: #b45309; --low: #4b5563; --none: #9ca3af;
  }
  @media (prefers-color-scheme: dark) {
    :root {
      --bg: #0f1115; --fg: #e5e7eb; --muted: #9ca3af; --border: #262b36;
      --card: #171a21; --link: #60a5fa;
      --high: #fca5a5; --medium: #fcd34d; --low: #cbd5e1; --none: #6b7280;
    }
  }
  * { box-sizing: border-box; }
  body {
    margin: 0; padding: 2rem 1rem 4rem; background: var(--bg); color: var(--fg);
    font: 15px/1.5 -apple-system, BlinkMacSystemFont, "Segoe UI", Roboto, sans-serif;
  }
  main { max-width: 920px; margin: 0 auto; }
  h1 { font-size: 1.5rem; margin-bottom: 0.25rem; }
  h2 { font-size: 1.1rem; margin-top: 2.5rem; }
  p.lede { color: var(--muted); margin-top: 0; }
  a { color: var(--link); }
  .table-wrap { overflow-x: auto; border: 1px solid var(--border); border-radius: 8px; }
  table { border-collapse: collapse; width: 100%; font-size: 0.9rem; }
  th, td { padding: 0.5rem 0.75rem; text-align: left; white-space: nowrap; }
  th { background: var(--card); border-bottom: 1px solid var(--border); font-weight: 600; }
  tr:not(:last-child) td { border-bottom: 1px solid var(--border); }
  td.empty { color: var(--muted); white-space: normal; text-align: center; padding: 1.5rem; }
  .sev-high { color: var(--high); font-weight: 600; }
  .sev-medium { color: var(--medium); font-weight: 600; }
  .sev-low { color: var(--low); }
  .sev-none { color: var(--none); }
  footer { margin-top: 3rem; color: var(--muted); font-size: 0.85rem; }
  code { background: var(--card); padding: 0.1rem 0.35rem; border-radius: 4px; }
</style>
</head>
<body>
<main>
  <h1>capscan leaderboard</h1>
  <p class="lede">Capability surface of "##;

/// Between the third count of crates and the time.
pub const PAGE_LEDE: &'static str = r##" popular crates.io crates,
     checked daily against crates.io by <a href="https://github.com/poglesbyg/capscan-mcp">capscan</a>.
     This page only republishes when a tracked crate's version actually
     changes, so "last change" can be older than today even though the
     check itself runs every day -- last change recorded "##;

/// Between the time and the rows of recent changes.
pub const PAGE_CHANGES: &'static str = r##".</p>

  <h2>Recent changes</h2>
  <p class="lede">Every version bump detected on a tracked crate's latest release,
     newest first, with the worst new capability severity it introduced.
     <a href="feed.xml">Subscribe via Atom feed</a> instead of checking back.</p>
  <div class="table-wrap">
  <table>
    <thead><tr><th>Date</th><th>Crate</th><th>Version</th><th>Worst new severity</th><th>Detail</th></tr></thead>
    <tbody>
"##;

/// Between the rows of changes and the rows of the profile.
pub const PAGE_PROFILE: &'static str = r##"    </tbody>
  </table>
  </div>

  <h2>Current capability profile</h2>
  <p class="lede">Every tracked crate's latest scanned version, ranked by
     how much raw capability (unsafe/FFI/process/build-script signals first,
     then network/filesystem/env, then low-severity) it carries right now --
     not a judgment of risk, since something like <code>openssl-sys</code>
     is expected to be FFI-heavy by design.</p>
  <div class="table-wrap">
  <table>
    <thead><tr><th>Crate</th><th>Version</th><th>High</th><th>Medium</th><th>Low</th></tr></thead>
    <tbody>
"##;

/// What follows the rows of the profile.
pub const PAGE_FOOT: &'static str = r##"    </tbody>
  </table>
  </div>

  <footer>
    Generated by <a href="https://github.com/poglesbyg/capscan-leaderboard">capscan-leaderboard</a>,
    built on <a href="https://crates.io/crates/capscan">capscan</a>. Signal
    classification is heuristic AST matching, not real type resolution --
    treat this as a starting point for investigation, not a safety proof.
  </footer>
</main>
</body>
</html>
"##;

/// The row that stands in for the changes when there are none.
pub const NO_CHANGES_ROW: &'static str =
    "<tr><td colspan=\"5\" class=\"empty\">No version changes detected yet -- check back after the next scheduled run.</td></tr>\n";

/// One crate's row of the profile.
pub struct ProfileRowView {
    pub name: Seq<char>,
    pub version: Seq<char>,
    pub high: nat,
    pub medium: nat,
    pub low: nat,
}

/// The row of one crate: its version, and its signals counted by severity.
pub open spec fn profile_row_of(pair: (Seq<char>, CrateSnapshotView)) -> ProfileRowView {
    ProfileRowView {
        name: pair.0,
        version: pair.1.version,
        high: count_severity(pair.1.report.signals, Severity::High),
        medium: count_severity(pair.1.report.signals, Severity::Medium),
        low: count_severity(pair.1.report.signals, Severity::Low),
    }
}

/// The rows of some crates.
pub open spec fn profile_of(pairs: Seq<(Seq<char>, CrateSnapshotView)>) -> Seq<ProfileRowView> {
    pairs.map_values(|pair: (Seq<char>, CrateSnapshotView)| profile_row_of(pair))
}

/// `a` is listed before `b`: by more high-severity signals, then by more
/// medium-severity signals, then by more low-severity signals, then by name.
pub open spec fn ranks_before(a: ProfileRowView, b: ProfileRowView) -> bool {
    if a.high != b.high {
        a.high > b.high
    } else if a.medium != b.medium {
        a.medium > b.medium
    } else if a.low != b.low {
        a.low > b.low
    } else {
        text_less(a.name, b.name)
    }
}

/// `ranked` holds the same rows as `rows`, each before all that rank behind it.
pub open spec fn is_ranking(ranked: Seq<ProfileRowView>, rows: Seq<ProfileRowView>) -> bool {
    &&& ranked.to_multiset() == rows.to_multiset()
    &&& forall|i: int, j: int|
        0 <= i < j < ranked.len() ==> ranks_before(#[trigger] ranked[i], #[trigger] ranked[j])
}

/// The rows in the order of their rank.
pub open spec fn ranking(rows: Seq<ProfileRowView>) -> Seq<ProfileRowView> {
    choose|ranked: Seq<ProfileRowView>| is_ranking(ranked, rows)
}

/// One row of the profile as HTML.
pub open spec fn profile_html(row: ProfileRowView) -> Seq<char> {
    "<tr><td><a href=\"https://crates.io/crates/"@ + escaped(row.name)
        + "\" target=\"_blank\" rel=\"noopener\">"@ + escaped(row.name) + "</a></td><td>"@
        + escaped(row.version) + "</td><td class=\"sev-high\">"@ + decimal(row.high)
        + "</td><td class=\"sev-medium\">"@ + decimal(row.medium) + "</td><td class=\"sev-low\">"@
        + decimal(row.low) + "</td></tr>\n"@
}

/// Rows of the profile as HTML, one after another.
pub open spec fn profile_rows_html(rows: Seq<ProfileRowView>) -> Seq<char>
    decreases rows.len(),
{
    if rows.len() == 0 {
        Seq::empty()
    } else {
        profile_rows_html(rows.drop_last()) + profile_html(rows.last())
    }
}

/// The style class and the label of a change's worst severity; a severity of
/// any other name counts as none.
pub open spec fn severity_cell(worst: Option<Seq<char>>) -> (Seq<char>, Seq<char>) {
    if worst == Some("high"@) {
        ("sev-high"@, "high"@)
    } else if worst == Some("medium"@) {
        ("sev-medium"@, "medium"@)
    } else if worst == Some("low"@) {
        ("sev-low"@, "low"@)
    } else {
        ("sev-none"@, "none"@)
    }
}

/// The remark on new dependencies, or nothing where there are none.
pub open spec fn dependencies_remark(entry: HistoryEntryView) -> Seq<char> {
    if entry.added_dependencies.len() == 0 {
        Seq::empty()
    } else {
        ", +"@ + decimal(entry.added_dependencies.len()) + " new dep(s)"@
    }
}

/// One change as a row of HTML.
pub open spec fn change_html(entry: HistoryEntryView) -> Seq<char> {
    "<tr><td>"@ + escaped(date_of(entry.checked_at))
        + "</td><td><a href=\"https://crates.io/crates/"@ + escaped(entry.name)
        + "\" target=\"_blank\" rel=\"noopener\">"@ + escaped(entry.name) + "</a></td><td>"@
        + escaped(entry.old_version) + " &rarr; "@ + escaped(entry.new_version)
        + "</td><td class=\""@ + severity_cell(entry.worst_severity).0 + "\">"@ + severity_cell(
        entry.worst_severity,
    ).1 + "</td><td>+"@ + decimal(entry.added_signals) + "/-"@ + decimal(entry.removed_signals)
        + " signal(s)"@ + dependencies_remark(entry) + "</td></tr>\n"@
}

/// Changes as rows of HTML, one after another.
pub open spec fn change_rows_html(entries: Seq<HistoryEntryView>) -> Seq<char>
    decreases entries.len(),
{
    if entries.len() == 0 {
        Seq::empty()
    } else {
        change_rows_html(entries.drop_last()) + change_html(entries.last())
    }
}

/// The table body of recent changes: the newest first, or a remark that there
/// are none.
pub open spec fn changes_html(history: Seq<HistoryEntryView>) -> Seq<char> {
    if history.len() == 0 {
        NO_CHANGES_ROW@
    } else {
        change_rows_html(newest(history, HISTORY_DISPLAY_LIMIT as nat))
    }
}

/// The whole page, as of `generated_at`.
pub open spec fn page_text(
    pairs: Seq<(Seq<char>, CrateSnapshotView)>,
    history: Seq<HistoryEntryView>,
    generated_at: Seq<char>,
) -> Seq<char> {
    let count = decimal(pairs.len());
    PAGE_HEAD@ + count + PAGE_CARD@ + count + PAGE_STYLE@ + count + PAGE_LEDE@ + generated_at
        + PAGE_CHANGES@ + changes_html(history) + PAGE_PROFILE@ + profile_rows_html(
        ranking(profile_of(pairs)),
    ) + PAGE_FOOT@
}

/// No row ranks before itself.
pub proof fn law_ranks_before_irreflexive(a: ProfileRowView)
    ensures
        !ranks_before(a, a),
{
    law_text_less_irreflexive(a.name);
}

/// The order of rows is transitive.
pub proof fn law_ranks_before_transitive(a: ProfileRowView, b: ProfileRowView, c: ProfileRowView)
    requires
        ranks_before(a, b),
        ranks_before(b, c),
    ensures
        ranks_before(a, c),
{
    if a.high == b.high && b.high == c.high && a.medium == b.medium && b.medium == c.medium && a.low
        == b.low && b.low == c.low {
        law_text_less_transitive(a.name, b.name, c.name);
    }
}

/// Of two rows with different names, one ranks before the other.
pub proof fn law_ranks_before_total(a: ProfileRowView, b: ProfileRowView)
    requires
        a.name != b.name,
    ensures
        ranks_before(a, b) || ranks_before(b, a),
{
    law_text_less_total(a.name, b.name);
}

/// There is at most one way to rank some rows.
pub proof fn law_ranking_is_unique(
    one: Seq<ProfileRowView>,
    other: Seq<ProfileRowView>,
    rows: Seq<ProfileRowView>,
)
    requires
        is_ranking(one, rows),
        is_ranking(other, rows),
    ensures
        one == other,
    decreases one.len(),
{
    broadcast use vstd::seq_lib::group_to_multiset_ensures;

    assert(one.to_multiset().len() == other.to_multiset().len());
    if one.len() > 0 {
        let (a, b) = (one[0], other[0]);
        assert(one.to_multiset().contains(a));
        assert(other.to_multiset().contains(b));
        assert(other.contains(a));
        assert(one.contains(b));
        let k = choose|k: int| 0 <= k < other.len() && other[k] == a;
        let m = choose|m: int| 0 <= m < one.len() && one[m] == b;
        if k > 0 && m > 0 {
            assert(ranks_before(other[0], other[k]));
            assert(ranks_before(one[0], one[m]));
            law_ranks_before_transitive(a, b, a);
            law_ranks_before_irreflexive(a);
        }
        assert(a == b);
        let rest = one.drop_first();
        assert(rest == one.remove(0));
        assert(other.drop_first() == other.remove(0));
        assert(rest.to_multiset() == other.drop_first().to_multiset());
        law_ranking_is_unique(rest, other.drop_first(), rest);
        assert(one == seq![a] + rest);
        assert(other == seq![b] + other.drop_first());
    } else {
        assert(one == other);
    }
}

/// No two rows have the same name.
pub open spec fn names_differ(rows: Seq<ProfileRowView>) -> bool {
    forall|i: int, j: int|
        0 <= i < j < rows.len() ==> (#[trigger] rows[i]).name != (#[trigger] rows[j]).name
}

/// Where a ranking is split, a row that ranks between the two parts can be
/// put in.
proof fn lemma_insert_into_ranking(
    ranked: Seq<ProfileRowView>,
    rows: Seq<ProfileRowView>,
    at: int,
    row: ProfileRowView,
)
    requires
        is_ranking(ranked, rows),
        0 <= at <= ranked.len(),
        forall|j: int| 0 <= j < at ==> ranks_before(#[trigger] ranked[j], row),
        at < ranked.len() ==> ranks_before(row, ranked[at]),
    ensures
        is_ranking(ranked.insert(at, row), rows.push(row)),
{
    broadcast use vstd::seq_lib::group_to_multiset_ensures;

    let more = ranked.insert(at, row);
    assert forall|a: int, b: int| 0 <= a < b < more.len() implies ranks_before(
        #[trigger] more[a],
        #[trigger] more[b],
    ) by {
        let c = if a < at { a } else { a - 1 };
        let d = if b < at { b } else { b - 1 };
        if a == at {
            assert(more[b] == ranked[d]);
            if d > at {
                assert(ranks_before(ranked[at], ranked[d]));
                law_ranks_before_transitive(row, ranked[at], ranked[d]);
            }
        } else if b == at {
            assert(more[a] == ranked[c]);
        } else {
            assert(more[a] == ranked[c]);
            assert(more[b] == ranked[d]);
            assert(ranks_before(ranked[c], ranked[d]));
        }
    }
}

/// A row of a ranking is one of the rows that were ranked.
proof fn lemma_ranked_row_is_row(ranked: Seq<ProfileRowView>, rows: Seq<ProfileRowView>, i: int)
    requires
        is_ranking(ranked, rows),
        0 <= i < ranked.len(),
    ensures
        rows.contains(ranked[i]),
{
    broadcast use vstd::seq_lib::group_to_multiset_ensures;

    assert(ranked.to_multiset().contains(ranked[i]));
    assert(rows.to_multiset().contains(ranked[i]));
}

/// Where a row belongs in a ranking of rows with other names.
proof fn lemma_place_in_ranking(
    ranked: Seq<ProfileRowView>,
    row: ProfileRowView,
    from: int,
) -> (at: int)
    requires
        0 <= from <= ranked.len(),
        forall|j: int| 0 <= j < ranked.len() ==> (#[trigger] ranked[j]).name != row.name,
        forall|j: int| 0 <= j < from ==> ranks_before(#[trigger] ranked[j], row),
    ensures
        0 <= at <= ranked.len(),
        forall|j: int| 0 <= j < at ==> ranks_before(#[trigger] ranked[j], row),
        at < ranked.len() ==> ranks_before(row, ranked[at]),
    decreases ranked.len() - from,
{
    if from == ranked.len() || ranks_before(row, ranked[from]) {
        from
    } else {
        law_ranks_before_total(row, ranked[from]);
        lemma_place_in_ranking(ranked, row, from + 1)
    }
}

/// Rows with different names can be ranked, and the ranking is the only one.
pub proof fn law_ranking_exists(rows: Seq<ProfileRowView>)
    requires
        names_differ(rows),
    ensures
        is_ranking(ranking(rows), rows),
        forall|ranked: Seq<ProfileRowView>| #[trigger]
            is_ranking(ranked, rows) ==> ranked == ranking(rows),
    decreases rows.len(),
{
    if rows.len() == 0 {
        assert(is_ranking(rows, rows));
    } else {
        let front = rows.drop_last();
        let row = rows.last();
        law_ranking_exists(front);
        let ranked = ranking(front);
        assert forall|j: int| 0 <= j < ranked.len() implies (#[trigger] ranked[j]).name != row.name by {
            lemma_ranked_row_is_row(ranked, front, j);
            let k = choose|k: int| 0 <= k < front.len() && front[k] == ranked[j];
            assert(rows[k].name != rows[rows.len() - 1].name);
        }
        let at = lemma_place_in_ranking(ranked, row, 0);
        lemma_insert_into_ranking(ranked, front, at, row);
        assert(front.push(row) == rows);
    }
    assert forall|ranked: Seq<ProfileRowView>| #[trigger]
        is_ranking(ranked, rows) implies ranked == ranking(rows) by {
        law_ranking_is_unique(ranked, ranking(rows), rows);
    }
}

/// Crates with different names have rows with different names.
proof fn lemma_profile_names_differ(pairs: Seq<(Seq<char>, CrateSnapshotView)>)
    requires
        ascending(names_of(pairs)),
    ensures
        names_differ(profile_of(pairs)),
{
    let rows = profile_of(pairs);
    assert forall|i: int, j: int| 0 <= i < j < rows.len() implies (#[trigger] rows[i]).name
        != (#[trigger] rows[j]).name by {
        assert(text_less(names_of(pairs)[i], names_of(pairs)[j]));
        law_text_less_irreflexive(rows[i].name);
    }
}

/// The profile lists every crate exactly once, and of two crates the one with
/// more high-severity signals first; among equals, the one with more
/// medium-severity signals; among those, the one with more low-severity
/// signals; among those, by name.
pub proof fn law_profile_is_ranked(pairs: Seq<(Seq<char>, CrateSnapshotView)>, i: int, j: int)
    requires
        ascending(names_of(pairs)),
        0 <= i < pairs.len(),
        0 <= j < pairs.len(),
        ranks_before(profile_row_of(pairs[i]), profile_row_of(pairs[j])),
    ensures
        ranking(profile_of(pairs)).len() == pairs.len(),
        exists|a: int, b: int|
            0 <= a < b < pairs.len() && #[trigger] ranking(profile_of(pairs))[a] == profile_row_of(
                pairs[i],
            ) && #[trigger] ranking(profile_of(pairs))[b] == profile_row_of(pairs[j]),
{
    broadcast use vstd::seq_lib::group_to_multiset_ensures;

    let rows = profile_of(pairs);
    let ranked = ranking(rows);
    lemma_profile_names_differ(pairs);
    law_ranking_exists(rows);
    assert(ranked.to_multiset().len() == rows.to_multiset().len());
    assert(rows[i] == profile_row_of(pairs[i]) && rows[j] == profile_row_of(pairs[j]));
    assert(rows.to_multiset().contains(rows[i]));
    assert(rows.to_multiset().contains(rows[j]));
    assert(ranked.contains(rows[i]));
    assert(ranked.contains(rows[j]));
    let a = choose|a: int| 0 <= a < ranked.len() && ranked[a] == rows[i];
    let b = choose|b: int| 0 <= b < ranked.len() && ranked[b] == rows[j];
    law_ranks_before_irreflexive(rows[i]);
    if b < a {
        assert(ranks_before(ranked[b], ranked[a]));
        law_ranks_before_transitive(rows[i], rows[j], rows[i]);
    }
    assert(a < b);
}

/// The page depends on what is known of the crates, and not on how it came to
/// be known.
pub proof fn law_page_follows_from_what_is_known(
    one: Seq<(Seq<char>, CrateSnapshotView)>,
    other: Seq<(Seq<char>, CrateSnapshotView)>,
    history: Seq<HistoryEntryView>,
    generated_at: Seq<char>,
)
    requires
        ascending(names_of(one)),
        ascending(names_of(other)),
        map_of(one) == map_of(other),
    ensures
        page_text(one, history, generated_at) == page_text(other, history, generated_at),
{
    law_map_determines_list(one, other);
}

/// One crate's row of the profile.
#[derive(Clone, Copy)]
struct ProfileRow<'a> {
    name: &'a str,
    version: &'a str,
    high: usize,
    medium: usize,
    low: usize,
}

impl<'a> View for ProfileRow<'a> {
    type V = ProfileRowView;

    closed spec fn view(&self) -> ProfileRowView {
        ProfileRowView {
            name: self.name@,
            version: self.version@,
            high: self.high as nat,
            medium: self.medium as nat,
            low: self.low as nat,
        }
    }
}

spec fn row_views(rows: Seq<ProfileRow>) -> Seq<ProfileRowView> {
    rows.map_values(|row: ProfileRow| row@)
}

fn outranks(a: &ProfileRow, b: &ProfileRow) -> (before: bool)
    ensures
        before == ranks_before(a@, b@),
{
    if a.high != b.high {
        a.high > b.high
    } else if a.medium != b.medium {
        a.medium > b.medium
    } else if a.low != b.low {
        a.low > b.low
    } else {
        comes_before(a.name, b.name)
    }
}

/// The rows of all crates, ranked.
fn ranked_rows<'a>(snapshot: &'a Snapshot) -> (rows: Vec<ProfileRow<'a>>)
    ensures
        is_ranking(row_views(rows@), profile_of(snapshot.pairs())),
{
    let n: usize = snapshot.len();
    let ghost pairs = snapshot.pairs();
    let ghost profile = profile_of(pairs);
    let mut rows: Vec<ProfileRow> = Vec::new();
    assert(row_views(rows@) == profile.take(0));
    for i in 0..n
        invariant
            n == pairs.len(),
            pairs == snapshot.pairs(),
            profile == profile_of(pairs),
            ascending(names_of(pairs)),
            is_ranking(row_views(rows@), profile.take(i as int)),
    {
        let (name, state) = snapshot.nth(i);
        let (high, medium, low) = severity_counts(&state.report);
        let row = ProfileRow { name, version: state.version.as_str(), high, medium, low };
        let ghost views = row_views(rows@);
        proof {
            assert(row@ == profile[i as int]);
            assert forall|j: int| 0 <= j < views.len() implies (#[trigger] views[j]).name != row@.name by {
                lemma_ranked_row_is_row(views, profile.take(i as int), j);
                let k = choose|k: int| 0 <= k < i && profile.take(i as int)[k] == views[j];
                assert(names_of(pairs)[k] == views[j].name);
                assert(text_less(names_of(pairs)[k], names_of(pairs)[i as int]));
                law_text_less_irreflexive(row@.name);
            }
        }
        let mut at: usize = 0;
        while at < rows.len() && !outranks(&row, &rows[at])
            invariant
                at <= rows.len(),
                views == row_views(rows@),
                forall|j: int| 0 <= j < views.len() ==> (#[trigger] views[j]).name != row@.name,
                forall|j: int| 0 <= j < at ==> ranks_before(#[trigger] views[j], row@),
            decreases rows.len() - at,
        {
            proof {
                assert(views[at as int] == rows@[at as int]@);
                law_ranks_before_total(views[at as int], row@);
            }
            at = at + 1;
        }
        rows.insert(at, row);
        proof {
            assert(row_views(rows@) == views.insert(at as int, row@));
            assert(profile.take(i + 1) == profile.take(i as int).push(row@));
            if at < views.len() {
                assert(views[at as int] == rows@[at + 1]@);
            }
            lemma_insert_into_ranking(views, profile.take(i as int), at as int, row@);
        }
    }
    assert(profile.take(n as int) == profile);
    rows
}

fn write_profile_row(row: &ProfileRow) -> (out: String)
    ensures
        out@ == profile_html(row@),
{
    let name = html_escape(row.name);
    let mut out = "<tr><td><a href=\"https://crates.io/crates/".to_owned();
    out.append(name.as_str());
    out.append("\" target=\"_blank\" rel=\"noopener\">");
    out.append(name.as_str());
    out.append("</a></td><td>");
    out.append(html_escape(row.version).as_str());
    out.append("</td><td class=\"sev-high\">");
    push_decimal(&mut out, row.high);
    out.append("</td><td class=\"sev-medium\">");
    push_decimal(&mut out, row.medium);
    out.append("</td><td class=\"sev-low\">");
    push_decimal(&mut out, row.low);
    out.append("</td></tr>\n");
    out
}

fn write_profile(snapshot: &Snapshot) -> (out: String)
    ensures
        out@ == profile_rows_html(ranking(profile_of(snapshot.pairs()))),
{
    let rows = ranked_rows(snapshot);
    let ghost views = row_views(rows@);
    let mut out = String::new();
    for i in 0..rows.len()
        invariant
            views == row_views(rows@),
            out@ == profile_rows_html(views.take(i as int)),
    {
        proof {
            assert(views.take(i + 1).drop_last() == views.take(i as int));
            assert(views[i as int] == rows@[i as int]@);
        }
        out.append(write_profile_row(&rows[i]).as_str());
    }
    proof {
        assert(views.take(views.len() as int) == views);
        law_ranking_is_unique(
            views,
            ranking(profile_of(snapshot.pairs())),
            profile_of(snapshot.pairs()),
        );
    }
    out
}

fn severity_texts(worst: &Option<String>) -> (cell: (&'static str, &'static str))
    ensures
        (cell.0@, cell.1@) == severity_cell(text_opt(*worst)),
{
    match worst {
        Some(severity) => {
            let name = severity.as_str();
            if same_text(name, "high") {
                ("sev-high", "high")
            } else if same_text(name, "medium") {
                ("sev-medium", "medium")
            } else if same_text(name, "low") {
                ("sev-low", "low")
            } else {
                ("sev-none", "none")
            }
        },
        None => ("sev-none", "none"),
    }
}

fn write_change(entry: &HistoryEntry) -> (out: String)
    ensures
        out@ == change_html(entry@),
{
    let (class, label) = severity_texts(&entry.worst_severity);
    let mut remark = String::new();
    if entry.added_dependencies.len() > 0 {
        remark.append(", +");
        push_decimal(&mut remark, entry.added_dependencies.len());
        remark.append(" new dep(s)");
        assert(remark@ == dependencies_remark(entry@));
    }
    let name = html_escape(entry.name.as_str());
    let mut out = "<tr><td>".to_owned();
    out.append(html_escape(date_part(entry.checked_at.as_str())).as_str());
    out.append("</td><td><a href=\"https://crates.io/crates/");
    out.append(name.as_str());
    out.append("\" target=\"_blank\" rel=\"noopener\">");
    out.append(name.as_str());
    out.append("</a></td><td>");
    out.append(html_escape(entry.old_version.as_str()).as_str());
    out.append(" &rarr; ");
    out.append(html_escape(entry.new_version.as_str()).as_str());
    out.append("</td><td class=\"");
    out.append(class);
    out.append("\">");
    out.append(label);
    out.append("</td><td>+");
    push_decimal(&mut out, entry.added_signals);
    out.append("/-");
    push_decimal(&mut out, entry.removed_signals);
    out.append(" signal(s)");
    out.append(remark.as_str());
    out.append("</td></tr>\n");
    out
}

fn write_changes(history: &[HistoryEntry]) -> (out: String)
    ensures
        out@ == changes_html(entry_views(history@)),
{
    let total: usize = history.len();
    if total == 0 {
        return NO_CHANGES_ROW.to_owned();
    }
    let shown: usize = if total < HISTORY_DISPLAY_LIMIT {
        total
    } else {
        HISTORY_DISPLAY_LIMIT
    };
    let ghost list = newest(entry_views(history@), HISTORY_DISPLAY_LIMIT as nat);
    let mut out = String::new();
    for i in 0..shown
        invariant
            total == history@.len(),
            shown <= total,
            shown == list.len(),
            list == newest(entry_views(history@), HISTORY_DISPLAY_LIMIT as nat),
            out@ == change_rows_html(list.take(i as int)),
    {
        proof {
            assert(list.take(i + 1).drop_last() == list.take(i as int));
            assert(list[i as int] == history@[total - 1 - i]@);
        }
        out.append(write_change(&history[total - 1 - i]).as_str());
    }
    assert(list.take(shown as int) == list);
    out
}

/// Writes the page as of the given time.
pub fn render_html_at(snapshot: &Snapshot, history: &[HistoryEntry], generated_at: &str) -> (html:
    String)
    ensures
        html@ == page_text(snapshot.pairs(), entry_views(history@), generated_at@),
        ascending(names_of(snapshot.pairs())),
        snapshot@ == map_of(snapshot.pairs()),
{
    let profile = write_profile(snapshot);
    let changes = write_changes(history);
    let count: usize = snapshot.len();
    let mut html = PAGE_HEAD.to_owned();
    push_decimal(&mut html, count);
    html.append(PAGE_CARD);
    push_decimal(&mut html, count);
    html.append(PAGE_STYLE);
    push_decimal(&mut html, count);
    html.append(PAGE_LEDE);
    html.append(generated_at);
    html.append(PAGE_CHANGES);
    html.append(changes.as_str());
    html.append(PAGE_PROFILE);
    html.append(profile.as_str());
    html.append(PAGE_FOOT);
    html
}

/// Writes the page as of now.
pub fn render_html(snapshot: &Snapshot, history: &[HistoryEntry]) -> (html: String)
    ensures
        exists|now: Seq<char>|
            is_timestamp(now) && html@ == #[trigger] page_text(
                snapshot.pairs(),
                entry_views(history@),
                now,
            ),
        ascending(names_of(snapshot.pairs())),
        snapshot@ == map_of(snapshot.pairs()),
{
    let generated_at = now_iso();
    render_html_at(snapshot, history, generated_at.as_str())
}

/// A row of the profile has the same tags and attributes whatever the crate is
/// called: escaped data cannot add markup.
pub proof fn law_profile_rows_have_the_same_markup(a: ProfileRowView, b: ProfileRowView, c: char)
    requires
        is_delimiter(c),
    ensures
        count_char(profile_html(a), c) == count_char(profile_html(b), c),
{
    broadcast use crate::occurrences::lemma_count_char_concatenates;

    lemma_escaped_has_no_delimiter(a.name, c);
    lemma_escaped_has_no_delimiter(b.name, c);
    lemma_escaped_has_no_delimiter(a.version, c);
    lemma_escaped_has_no_delimiter(b.version, c);
    lemma_decimal_has_no_delimiter(a.high, c);
    lemma_decimal_has_no_delimiter(b.high, c);
    lemma_decimal_has_no_delimiter(a.medium, c);
    lemma_decimal_has_no_delimiter(b.medium, c);
    lemma_decimal_has_no_delimiter(a.low, c);
    lemma_decimal_has_no_delimiter(b.low, c);
}

proof fn lemma_change_cells_have_no_delimiter(entry: HistoryEntryView, c: char)
    requires
        is_delimiter(c),
    ensures
        count_char(severity_cell(entry.worst_severity).0, c) == 0,
        count_char(severity_cell(entry.worst_severity).1, c) == 0,
        count_char(dependencies_remark(entry), c) == 0,
{
    broadcast use crate::occurrences::lemma_count_char_concatenates;

    reveal_strlit("sev-high");
    reveal_strlit("sev-medium");
    reveal_strlit("sev-low");
    reveal_strlit("sev-none");
    reveal_strlit("high");
    reveal_strlit("medium");
    reveal_strlit("low");
    reveal_strlit("none");
    reveal_strlit(", +");
    reveal_strlit(" new dep(s)");
    lemma_count_char_absent(severity_cell(entry.worst_severity).0, c);
    lemma_count_char_absent(severity_cell(entry.worst_severity).1, c);
    lemma_count_char_absent(", +"@, c);
    lemma_count_char_absent(" new dep(s)"@, c);
    lemma_decimal_has_no_delimiter(entry.added_dependencies.len(), c);
}

/// A row of changes has the same tags and attributes whatever the recorded
/// texts are: escaped data cannot add markup.
pub proof fn law_change_rows_have_the_same_markup(
    a: HistoryEntryView,
    b: HistoryEntryView,
    c: char,
)
    requires
        is_delimiter(c),
    ensures
        count_char(change_html(a), c) == count_char(change_html(b), c),
{
    broadcast use crate::occurrences::lemma_count_char_concatenates;

    lemma_escaped_has_no_delimiter(date_of(a.checked_at), c);
    lemma_escaped_has_no_delimiter(date_of(b.checked_at), c);
    lemma_escaped_has_no_delimiter(a.name, c);
    lemma_escaped_has_no_delimiter(b.name, c);
    lemma_escaped_has_no_delimiter(a.old_version, c);
    lemma_escaped_has_no_delimiter(b.old_version, c);
    lemma_escaped_has_no_delimiter(a.new_version, c);
    lemma_escaped_has_no_delimiter(b.new_version, c);
    lemma_decimal_has_no_delimiter(a.added_signals, c);
    lemma_decimal_has_no_delimiter(b.added_signals, c);
    lemma_decimal_has_no_delimiter(a.removed_signals, c);
    lemma_decimal_has_no_delimiter(b.removed_signals, c);
    lemma_change_cells_have_no_delimiter(a, c);
    lemma_change_cells_have_no_delimiter(b, c);
}

/// A row of the profile links the crate's name, and holds its version and its
/// counts, each in the cell of its severity.
pub proof fn law_profile_row_holds_every_cell(row: ProfileRowView)
    ensures
        ("<tr><td><a href=\"https://crates.io/crates/"@ + escaped(row.name) + "\" target=\"_blank\" rel=\"noopener\">"@).is_prefix_of(profile_html(row)),
        has_passage(profile_html(row), "\" target=\"_blank\" rel=\"noopener\">"@ + escaped(row.name) + "</a></td><td>"@),
        has_passage(profile_html(row), "</a></td><td>"@ + escaped(row.version) + "</td><td class=\"sev-high\">"@),
        has_passage(profile_html(row), "</td><td class=\"sev-high\">"@ + decimal(row.high) + "</td><td class=\"sev-medium\">"@),
        has_passage(profile_html(row), "</td><td class=\"sev-medium\">"@ + decimal(row.medium) + "</td><td class=\"sev-low\">"@),
        ("</td><td class=\"sev-low\">"@ + decimal(row.low) + "</td></tr>\n"@).is_suffix_of(profile_html(row)),
        profile_html(row).len() == escaped(row.name).len() + escaped(row.name).len() + escaped(row.version).len() + decimal(row.high).len() + decimal(row.medium).len() + decimal(row.low).len() + 178,
{
    broadcast use crate::text::lemma_add_associates;

    let whole = profile_html(row);
    lemma_begins_and_ends(whole, "<tr><td><a href=\"https://crates.io/crates/"@ + escaped(row.name) + "\" target=\"_blank\" rel=\"noopener\">"@, escaped(row.name) + "</a></td><td>"@ + escaped(row.version) + "</td><td class=\"sev-high\">"@ + decimal(row.high) + "</td><td class=\"sev-medium\">"@ + decimal(row.medium) + "</td><td class=\"sev-low\">"@ + decimal(row.low) + "</td></tr>\n"@);
    lemma_passage(whole, "<tr><td><a href=\"https://crates.io/crates/"@ + escaped(row.name), "\" target=\"_blank\" rel=\"noopener\">"@ + escaped(row.name) + "</a></td><td>"@, escaped(row.version) + "</td><td class=\"sev-high\">"@ + decimal(row.high) + "</td><td class=\"sev-medium\">"@ + decimal(row.medium) + "</td><td class=\"sev-low\">"@ + decimal(row.low) + "</td></tr>\n"@);
    lemma_passage(whole, "<tr><td><a href=\"https://crates.io/crates/"@ + escaped(row.name) + "\" target=\"_blank\" rel=\"noopener\">"@ + escaped(row.name), "</a></td><td>"@ + escaped(row.version) + "</td><td class=\"sev-high\">"@, decimal(row.high) + "</td><td class=\"sev-medium\">"@ + decimal(row.medium) + "</td><td class=\"sev-low\">"@ + decimal(row.low) + "</td></tr>\n"@);
    lemma_passage(whole, "<tr><td><a href=\"https://crates.io/crates/"@ + escaped(row.name) + "\" target=\"_blank\" rel=\"noopener\">"@ + escaped(row.name) + "</a></td><td>"@ + escaped(row.version), "</td><td class=\"sev-high\">"@ + decimal(row.high) + "</td><td class=\"sev-medium\">"@, decimal(row.medium) + "</td><td class=\"sev-low\">"@ + decimal(row.low) + "</td></tr>\n"@);
    lemma_passage(whole, "<tr><td><a href=\"https://crates.io/crates/"@ + escaped(row.name) + "\" target=\"_blank\" rel=\"noopener\">"@ + escaped(row.name) + "</a></td><td>"@ + escaped(row.version) + "</td><td class=\"sev-high\">"@ + decimal(row.high), "</td><td class=\"sev-medium\">"@ + decimal(row.medium) + "</td><td class=\"sev-low\">"@, decimal(row.low) + "</td></tr>\n"@);
    lemma_begins_and_ends(whole, "<tr><td><a href=\"https://crates.io/crates/"@ + escaped(row.name) + "\" target=\"_blank\" rel=\"noopener\">"@ + escaped(row.name) + "</a></td><td>"@ + escaped(row.version) + "</td><td class=\"sev-high\">"@ + decimal(row.high) + "</td><td class=\"sev-medium\">"@ + decimal(row.medium), "</td><td class=\"sev-low\">"@ + decimal(row.low) + "</td></tr>\n"@);
    assert(whole.len() == escaped(row.name).len() + escaped(row.name).len() + escaped(row.version).len() + decimal(row.high).len() + decimal(row.medium).len() + decimal(row.low).len() + 178) by {
        reveal_strlit("<tr><td><a href=\"https://crates.io/crates/");
        reveal_strlit("\" target=\"_blank\" rel=\"noopener\">");
        reveal_strlit("</a></td><td>");
        reveal_strlit("</td><td class=\"sev-high\">");
        reveal_strlit("</td><td class=\"sev-medium\">");
        reveal_strlit("</td><td class=\"sev-low\">");
        reveal_strlit("</td></tr>\n");
    }
}

/// A row of changes holds the date of the check, links the crate's name, and
/// holds both versions, the severity, and the signals added and removed.
pub proof fn law_change_row_holds_every_cell(entry: HistoryEntryView)
    ensures
        ("<tr><td>"@ + escaped(date_of(entry.checked_at)) + "</td><td><a href=\"https://crates.io/crates/"@).is_prefix_of(change_html(entry)),
        has_passage(change_html(entry), "</td><td><a href=\"https://crates.io/crates/"@ + escaped(entry.name) + "\" target=\"_blank\" rel=\"noopener\">"@),
        has_passage(change_html(entry), "\" target=\"_blank\" rel=\"noopener\">"@ + escaped(entry.name) + "</a></td><td>"@),
        has_passage(change_html(entry), "</a></td><td>"@ + escaped(entry.old_version) + " &rarr; "@),
        has_passage(change_html(entry), " &rarr; "@ + escaped(entry.new_version) + "</td><td class=\""@),
        has_passage(change_html(entry), "</td><td class=\""@ + severity_cell(entry.worst_severity).0 + "\">"@),
        has_passage(change_html(entry), "\">"@ + severity_cell(entry.worst_severity).1 + "</td><td>+"@),
        has_passage(change_html(entry), "</td><td>+"@ + decimal(entry.added_signals) + "/-"@),
        has_passage(change_html(entry), "/-"@ + decimal(entry.removed_signals) + " signal(s)"@),
        (" signal(s)"@ + dependencies_remark(entry) + "</td></tr>\n"@).is_suffix_of(change_html(entry)),
        change_html(entry).len() == escaped(date_of(entry.checked_at)).len() + escaped(entry.name).len() + escaped(entry.name).len() + escaped(entry.old_version).len() + escaped(entry.new_version).len() + severity_cell(entry.worst_severity).0.len() + severity_cell(entry.worst_severity).1.len() + decimal(entry.added_signals).len() + decimal(entry.removed_signals).len() + dependencies_remark(entry).len() + 156,
{
    broadcast use crate::text::lemma_add_associates;

    let whole = change_html(entry);
    lemma_begins_and_ends(whole, "<tr><td>"@ + escaped(date_of(entry.checked_at)) + "</td><td><a href=\"https://crates.io/crates/"@, escaped(entry.name) + "\" target=\"_blank\" rel=\"noopener\">"@ + escaped(entry.name) + "</a></td><td>"@ + escaped(entry.old_version) + " &rarr; "@ + escaped(entry.new_version) + "</td><td class=\""@ + severity_cell(entry.worst_severity).0 + "\">"@ + severity_cell(entry.worst_severity).1 + "</td><td>+"@ + decimal(entry.added_signals) + "/-"@ + decimal(entry.removed_signals) + " signal(s)"@ + dependencies_remark(entry) + "</td></tr>\n"@);
    lemma_passage(whole, "<tr><td>"@ + escaped(date_of(entry.checked_at)), "</td><td><a href=\"https://crates.io/crates/"@ + escaped(entry.name) + "\" target=\"_blank\" rel=\"noopener\">"@, escaped(entry.name) + "</a></td><td>"@ + escaped(entry.old_version) + " &rarr; "@ + escaped(entry.new_version) + "</td><td class=\""@ + severity_cell(entry.worst_severity).0 + "\">"@ + severity_cell(entry.worst_severity).1 + "</td><td>+"@ + decimal(entry.added_signals) + "/-"@ + decimal(entry.removed_signals) + " signal(s)"@ + dependencies_remark(entry) + "</td></tr>\n"@);
    lemma_passage(whole, "<tr><td>"@ + escaped(date_of(entry.checked_at)) + "</td><td><a href=\"https://crates.io/crates/"@ + escaped(entry.name), "\" target=\"_blank\" rel=\"noopener\">"@ + escaped(entry.name) + "</a></td><td>"@, escaped(entry.old_version) + " &rarr; "@ + escaped(entry.new_version) + "</td><td class=\""@ + severity_cell(entry.worst_severity).0 + "\">"@ + severity_cell(entry.worst_severity).1 + "</td><td>+"@ + decimal(entry.added_signals) + "/-"@ + decimal(entry.removed_signals) + " signal(s)"@ + dependencies_remark(entry) + "</td></tr>\n"@);
    lemma_passage(whole, "<tr><td>"@ + escaped(date_of(entry.checked_at)) + "</td><td><a href=\"https://crates.io/crates/"@ + escaped(entry.name) + "\" target=\"_blank\" rel=\"noopener\">"@ + escaped(entry.name), "</a></td><td>"@ + escaped(entry.old_version) + " &rarr; "@, escaped(entry.new_version) + "</td><td class=\""@ + severity_cell(entry.worst_severity).0 + "\">"@ + severity_cell(entry.worst_severity).1 + "</td><td>+"@ + decimal(entry.added_signals) + "/-"@ + decimal(entry.removed_signals) + " signal(s)"@ + dependencies_remark(entry) + "</td></tr>\n"@);
    lemma_passage(whole, "<tr><td>"@ + escaped(date_of(entry.checked_at)) + "</td><td><a href=\"https://crates.io/crates/"@ + escaped(entry.name) + "\" target=\"_blank\" rel=\"noopener\">"@ + escaped(entry.name) + "</a></td><td>"@ + escaped(entry.old_version), " &rarr; "@ + escaped(entry.new_version) + "</td><td class=\""@, severity_cell(entry.worst_severity).0 + "\">"@ + severity_cell(entry.worst_severity).1 + "</td><td>+"@ + decimal(entry.added_signals) + "/-"@ + decimal(entry.removed_signals) + " signal(s)"@ + dependencies_remark(entry) + "</td></tr>\n"@);
    lemma_passage(whole, "<tr><td>"@ + escaped(date_of(entry.checked_at)) + "</td><td><a href=\"https://crates.io/crates/"@ + escaped(entry.name) + "\" target=\"_blank\" rel=\"noopener\">"@ + escaped(entry.name) + "</a></td><td>"@ + escaped(entry.old_version) + " &rarr; "@ + escaped(entry.new_version), "</td><td class=\""@ + severity_cell(entry.worst_severity).0 + "\">"@, severity_cell(entry.worst_severity).1 + "</td><td>+"@ + decimal(entry.added_signals) + "/-"@ + decimal(entry.removed_signals) + " signal(s)"@ + dependencies_remark(entry) + "</td></tr>\n"@);
    lemma_passage(whole, "<tr><td>"@ + escaped(date_of(entry.checked_at)) + "</td><td><a href=\"https://crates.io/crates/"@ + escaped(entry.name) + "\" target=\"_blank\" rel=\"noopener\">"@ + escaped(entry.name) + "</a></td><td>"@ + escaped(entry.old_version) + " &rarr; "@ + escaped(entry.new_version) + "</td><td class=\""@ + severity_cell(entry.worst_severity).0, "\">"@ + severity_cell(entry.worst_severity).1 + "</td><td>+"@, decimal(entry.added_signals) + "/-"@ + decimal(entry.removed_signals) + " signal(s)"@ + dependencies_remark(entry) + "</td></tr>\n"@);
    lemma_passage(whole, "<tr><td>"@ + escaped(date_of(entry.checked_at)) + "</td><td><a href=\"https://crates.io/crates/"@ + escaped(entry.name) + "\" target=\"_blank\" rel=\"noopener\">"@ + escaped(entry.name) + "</a></td><td>"@ + escaped(entry.old_version) + " &rarr; "@ + escaped(entry.new_version) + "</td><td class=\""@ + severity_cell(entry.worst_severity).0 + "\">"@ + severity_cell(entry.worst_severity).1, "</td><td>+"@ + decimal(entry.added_signals) + "/-"@, decimal(entry.removed_signals) + " signal(s)"@ + dependencies_remark(entry) + "</td></tr>\n"@);
    lemma_passage(whole, "<tr><td>"@ + escaped(date_of(entry.checked_at)) + "</td><td><a href=\"https://crates.io/crates/"@ + escaped(entry.name) + "\" target=\"_blank\" rel=\"noopener\">"@ + escaped(entry.name) + "</a></td><td>"@ + escaped(entry.old_version) + " &rarr; "@ + escaped(entry.new_version) + "</td><td class=\""@ + severity_cell(entry.worst_severity).0 + "\">"@ + severity_cell(entry.worst_severity).1 + "</td><td>+"@ + decimal(entry.added_signals), "/-"@ + decimal(entry.removed_signals) + " signal(s)"@, dependencies_remark(entry) + "</td></tr>\n"@);
    lemma_begins_and_ends(whole, "<tr><td>"@ + escaped(date_of(entry.checked_at)) + "</td><td><a href=\"https://crates.io/crates/"@ + escaped(entry.name) + "\" target=\"_blank\" rel=\"noopener\">"@ + escaped(entry.name) + "</a></td><td>"@ + escaped(entry.old_version) + " &rarr; "@ + escaped(entry.new_version) + "</td><td class=\""@ + severity_cell(entry.worst_severity).0 + "\">"@ + severity_cell(entry.worst_severity).1 + "</td><td>+"@ + decimal(entry.added_signals) + "/-"@ + decimal(entry.removed_signals), " signal(s)"@ + dependencies_remark(entry) + "</td></tr>\n"@);
    assert(whole.len() == escaped(date_of(entry.checked_at)).len() + escaped(entry.name).len() + escaped(entry.name).len() + escaped(entry.old_version).len() + escaped(entry.new_version).len() + severity_cell(entry.worst_severity).0.len() + severity_cell(entry.worst_severity).1.len() + decimal(entry.added_signals).len() + decimal(entry.removed_signals).len() + dependencies_remark(entry).len() + 156) by {
        reveal_strlit("<tr><td>");
        reveal_strlit("</td><td><a href=\"https://crates.io/crates/");
        reveal_strlit("\" target=\"_blank\" rel=\"noopener\">");
        reveal_strlit("</a></td><td>");
        reveal_strlit(" &rarr; ");
        reveal_strlit("</td><td class=\"");
        reveal_strlit("\">");
        reveal_strlit("</td><td>+");
        reveal_strlit("/-");
        reveal_strlit(" signal(s)");
        reveal_strlit("</td></tr>\n");
    }
}


/// A severity of one of the three names is shown under its name, everything
/// else as `none`, always in the class of what is shown.
pub proof fn law_severity_is_shown_under_its_name(worst: Option<Seq<char>>)
    ensures
        severity_cell(worst).0 == seq!['s', 'e', 'v', '-'] + severity_cell(worst).1,
        worst == Some("high"@) || worst == Some("medium"@) || worst == Some("low"@) ==> worst == Some(
            severity_cell(worst).1,
        ),
        !(worst == Some("high"@) || worst == Some("medium"@) || worst == Some("low"@))
            ==> severity_cell(worst).1 == seq!['n', 'o', 'n', 'e'],
{
    reveal_strlit("sev-high");
    reveal_strlit("sev-medium");
    reveal_strlit("sev-low");
    reveal_strlit("sev-none");
    reveal_strlit("high");
    reveal_strlit("medium");
    reveal_strlit("low");
    reveal_strlit("none");
    let cell = severity_cell(worst);
    assert(cell.0 =~= seq!['s', 'e', 'v', '-'] + cell.1);
    assert("none"@ =~= seq!['n', 'o', 'n', 'e']);
}

/// New dependencies are remarked on with their number, and only where there are
/// any.
pub proof fn law_new_dependencies_are_counted(entry: HistoryEntryView)
    ensures
        entry.added_dependencies.len() == 0 ==> dependencies_remark(entry).len() == 0,
        entry.added_dependencies.len() > 0 ==> {
            &&& (", +"@ + decimal(entry.added_dependencies.len())).is_prefix_of(
                dependencies_remark(entry),
            )
            &&& (decimal(entry.added_dependencies.len()) + " new dep(s)"@).is_suffix_of(
                dependencies_remark(entry),
            )
            &&& dependencies_remark(entry).len() == decimal(entry.added_dependencies.len()).len()
                + 14
        },
{
    reveal_strlit(", +");
    reveal_strlit(" new dep(s)");
    let (remark, count) = (dependencies_remark(entry), decimal(entry.added_dependencies.len()));
    if entry.added_dependencies.len() > 0 {
        lemma_begins_and_ends(remark, ", +"@ + count, " new dep(s)"@);
        assert(remark =~= ", +"@ + (count + " new dep(s)"@));
        lemma_begins_and_ends(remark, ", +"@, count + " new dep(s)"@);
    }
}

proof fn lemma_change_rows_concatenate(a: Seq<HistoryEntryView>, b: Seq<HistoryEntryView>)
    ensures
        change_rows_html(a + b) == change_rows_html(a) + change_rows_html(b),
    decreases b.len(),
{
    if b.len() == 0 {
        assert(a + b =~= a);
        assert(change_rows_html(a) + change_rows_html(b) =~= change_rows_html(a));
    } else {
        lemma_change_rows_concatenate(a, b.drop_last());
        assert((a + b).drop_last() =~= a + b.drop_last());
        assert(change_rows_html(a + b) =~= change_rows_html(a) + change_rows_html(b));
    }
}

/// The first change takes the place of the remark that there are none; below
/// the limit, every other new change stands before those shown so far, which
/// stay as they are.
pub proof fn law_new_change_is_shown_first(history: Seq<HistoryEntryView>, entry: HistoryEntryView)
    requires
        history.len() < 100,
    ensures
        changes_html(Seq::empty()) == NO_CHANGES_ROW@,
        changes_html(seq![entry]) == change_html(entry),
        history.len() > 0 ==> changes_html(history.push(entry)) == change_html(entry)
            + changes_html(history),
{
    let none = Seq::<HistoryEntryView>::empty();
    assert(newest(seq![entry], 100) =~= seq![entry]);
    assert(seq![entry].drop_last() =~= none);
    assert(change_rows_html(none) + change_html(entry) =~= change_html(entry));
    assert(change_rows_html(seq![entry]) == change_html(entry));
    let list = newest(history, 100);
    assert(newest(history.push(entry), 100) =~= seq![entry] + list);
    lemma_change_rows_concatenate(seq![entry], list);
}

/// Beyond the limit only the newest changes are shown.
pub proof fn law_only_the_newest_changes_are_shown(
    older: Seq<HistoryEntryView>,
    latest: Seq<HistoryEntryView>,
)
    requires
        latest.len() == 100,
    ensures
        changes_html(older + latest) == changes_html(latest),
{
    assert(newest(older + latest, 100) =~= newest(latest, 100));
}

/// The page states the number of crates three times and the time once, then
/// shows the changes and, behind them, the profile.
pub proof fn law_page_holds_every_part(
    pairs: Seq<(Seq<char>, CrateSnapshotView)>,
    history: Seq<HistoryEntryView>,
    generated_at: Seq<char>,
)
    ensures
        (PAGE_HEAD@ + decimal(pairs.len()) + PAGE_CARD@ + decimal(pairs.len()) + PAGE_STYLE@
            + decimal(pairs.len()) + PAGE_LEDE@ + generated_at + PAGE_CHANGES@ + changes_html(
            history,
        ) + PAGE_PROFILE@).is_prefix_of(page_text(pairs, history, generated_at)),
        (profile_rows_html(ranking(profile_of(pairs))) + PAGE_FOOT@).is_suffix_of(
            page_text(pairs, history, generated_at),
        ),
        page_text(pairs, history, generated_at).len() == PAGE_HEAD@.len() + PAGE_CARD@.len()
            + PAGE_STYLE@.len() + PAGE_LEDE@.len() + PAGE_CHANGES@.len() + PAGE_PROFILE@.len()
            + PAGE_FOOT@.len() + 3 * decimal(pairs.len()).len() + generated_at.len() + changes_html(
            history,
        ).len() + profile_rows_html(ranking(profile_of(pairs))).len(),
{
    lemma_page_parts(pairs, history, generated_at);
    let whole = page_text(pairs, history, generated_at);
    let front = page_front(pairs, history, generated_at);
    let back = profile_rows_html(ranking(profile_of(pairs))) + PAGE_FOOT@;
    lemma_begins_and_ends(whole, front, back);
}

/// The page up to the rows of the profile.
spec fn page_front(
    pairs: Seq<(Seq<char>, CrateSnapshotView)>,
    history: Seq<HistoryEntryView>,
    generated_at: Seq<char>,
) -> Seq<char> {
    let count = decimal(pairs.len());
    PAGE_HEAD@ + count + PAGE_CARD@ + count + PAGE_STYLE@ + count + PAGE_LEDE@ + generated_at
        + PAGE_CHANGES@ + changes_html(history) + PAGE_PROFILE@
}

proof fn lemma_page_parts(
    pairs: Seq<(Seq<char>, CrateSnapshotView)>,
    history: Seq<HistoryEntryView>,
    generated_at: Seq<char>,
)
    ensures
        page_text(pairs, history, generated_at) == page_front(pairs, history, generated_at) + (
        profile_rows_html(ranking(profile_of(pairs))) + PAGE_FOOT@),
{
    lemma_add_associates(
        page_front(pairs, history, generated_at),
        profile_rows_html(ranking(profile_of(pairs))),
        PAGE_FOOT@,
    );
}

proof fn lemma_profile_rows_concatenate(a: Seq<ProfileRowView>, b: Seq<ProfileRowView>)
    ensures
        profile_rows_html(a + b) == profile_rows_html(a) + profile_rows_html(b),
    decreases b.len(),
{
    if b.len() == 0 {
        assert(a + b =~= a);
        assert(profile_rows_html(a) + profile_rows_html(b) =~= profile_rows_html(a));
    } else {
        lemma_profile_rows_concatenate(a, b.drop_last());
        assert((a + b).drop_last() =~= a + b.drop_last());
        assert(profile_rows_html(a + b) =~= profile_rows_html(a) + profile_rows_html(b));
    }
}

/// Rows of the profile are written one behind the other, each as itself.
pub proof fn law_profile_rows_are_written_in_order(
    front: Seq<ProfileRowView>,
    row: ProfileRowView,
    back: Seq<ProfileRowView>,
)
    ensures
        profile_rows_html(Seq::empty()).len() == 0,
        profile_rows_html(front + seq![row] + back) == profile_rows_html(front) + profile_html(row)
            + profile_rows_html(back),
{
    lemma_profile_rows_concatenate(front + seq![row], back);
    lemma_profile_rows_concatenate(front, seq![row]);
    assert(seq![row].drop_last() =~= Seq::<ProfileRowView>::empty());
    assert(profile_rows_html(seq![row].drop_last()) + profile_html(row) =~= profile_html(row));
    assert(profile_rows_html(seq![row]) == profile_html(row));
}

/// The row in which a crate is published: its name, its version, and how many
/// of its signals are of high, of medium and of low severity.
pub open spec fn row_of(name: Seq<char>, state: CrateSnapshotView) -> ProfileRowView {
    ProfileRowView {
        name,
        version: state.version,
        high: state.report.signals.filter(
            |s: SignalView| kind_severity(s.kind) == Severity::High,
        ).len(),
        medium: state.report.signals.filter(
            |s: SignalView| kind_severity(s.kind) == Severity::Medium,
        ).len(),
        low: state.report.signals.filter(
            |s: SignalView| kind_severity(s.kind) == Severity::Low,
        ).len(),
    }
}

proof fn lemma_row_of(pair: (Seq<char>, CrateSnapshotView))
    ensures
        row_of(pair.0, pair.1) == profile_row_of(pair),
{
    let signals = pair.1.report.signals;
    law_count_is_that_of_the_matching_signals(signals, Severity::High);
    law_count_is_that_of_the_matching_signals(signals, Severity::Medium);
    law_count_is_that_of_the_matching_signals(signals, Severity::Low);
}

/// Every crate is published in one row, and there are no other rows.
pub proof fn law_every_crate_is_published(
    pairs: Seq<(Seq<char>, CrateSnapshotView)>,
    history: Seq<HistoryEntryView>,
    generated_at: Seq<char>,
    i: int,
)
    requires
        ascending(names_of(pairs)),
        0 <= i < pairs.len(),
    ensures
        has_passage(
            page_text(pairs, history, generated_at),
            profile_html(row_of(pairs[i].0, pairs[i].1)),
        ),
        exists|a: int|
            0 <= a < pairs.len() && #[trigger] ranking(profile_of(pairs))[a] == row_of(
                pairs[i].0,
                pairs[i].1,
            ),
        ranking(profile_of(pairs)).len() == pairs.len(),
{
    broadcast use vstd::seq_lib::group_to_multiset_ensures;

    lemma_row_of(pairs[i]);
    let rows = profile_of(pairs);
    let ranked = ranking(rows);
    lemma_profile_names_differ(pairs);
    law_ranking_exists(rows);
    assert(ranked.to_multiset().len() == rows.to_multiset().len());
    assert(rows[i] == profile_row_of(pairs[i]));
    assert(rows.to_multiset().contains(rows[i]));
    assert(ranked.contains(rows[i]));
    let a = choose|a: int| 0 <= a < ranked.len() && ranked[a] == rows[i];
    let (front, back) = (ranked.take(a), ranked.skip(a + 1));
    assert(ranked =~= front + seq![rows[i]] + back);
    law_profile_rows_are_written_in_order(front, rows[i], back);
    let (x, y) = (profile_rows_html(front), profile_rows_html(back));
    let row = profile_html(rows[i]);
    assert(x + row + y =~= x + (row + y));
    lemma_passage(profile_rows_html(ranked), x, row, y);
    lemma_page_parts(pairs, history, generated_at);
    lemma_passage_extends(
        page_front(pairs, history, generated_at),
        profile_rows_html(ranked),
        PAGE_FOOT@,
        row,
    );
}

/// Of two rows the one that ranks before the other is published before it.
proof fn lemma_published_by_rank(
    pairs: Seq<(Seq<char>, CrateSnapshotView)>,
    history: Seq<HistoryEntryView>,
    generated_at: Seq<char>,
    i: int,
    j: int,
)
    requires
        ascending(names_of(pairs)),
        0 <= i < pairs.len(),
        0 <= j < pairs.len(),
        ranks_before(profile_row_of(pairs[i]), profile_row_of(pairs[j])),
    ensures
        has_passages(
            page_text(pairs, history, generated_at),
            profile_html(row_of(pairs[i].0, pairs[i].1)),
            profile_html(row_of(pairs[j].0, pairs[j].1)),
        ),
{
    lemma_row_of(pairs[i]);
    lemma_row_of(pairs[j]);
    law_profile_is_ranked(pairs, i, j);
    let ranked = ranking(profile_of(pairs));
    let (one, other) = (profile_row_of(pairs[i]), profile_row_of(pairs[j]));
    let (a, b) = choose|a: int, b: int|
        0 <= a < b < pairs.len() && #[trigger] ranked[a] == one && #[trigger] ranked[b] == other;
    let (front, middle, back) = (ranked.take(a), ranked.subrange(a + 1, b), ranked.skip(b + 1));
    let rest = middle + seq![other] + back;
    assert(ranked =~= front + seq![one] + rest);
    law_profile_rows_are_written_in_order(front, one, rest);
    law_profile_rows_are_written_in_order(middle, other, back);
    let (x, y, z) = (
        profile_rows_html(front),
        profile_rows_html(middle),
        profile_rows_html(back),
    );
    let (first, second) = (profile_html(one), profile_html(other));
    assert(x + first + (y + second + z) =~= x + first + y + second + z);
    assert(has_passages(profile_rows_html(ranked), first, second));
    lemma_page_parts(pairs, history, generated_at);
    lemma_passages_extend(
        page_front(pairs, history, generated_at),
        profile_rows_html(ranked),
        PAGE_FOOT@,
        first,
        second,
    );
}

/// A crate with more high-severity signals is published before one with fewer,
/// whatever else they have.
pub proof fn law_more_high_severity_is_published_first(
    pairs: Seq<(Seq<char>, CrateSnapshotView)>,
    history: Seq<HistoryEntryView>,
    generated_at: Seq<char>,
    i: int,
    j: int,
)
    requires
        ascending(names_of(pairs)),
        0 <= i < pairs.len(),
        0 <= j < pairs.len(),
        row_of(pairs[i].0, pairs[i].1).high > row_of(pairs[j].0, pairs[j].1).high,
    ensures
        has_passages(
            page_text(pairs, history, generated_at),
            profile_html(row_of(pairs[i].0, pairs[i].1)),
            profile_html(row_of(pairs[j].0, pairs[j].1)),
        ),
{
    lemma_row_of(pairs[i]);
    lemma_row_of(pairs[j]);
    lemma_published_by_rank(pairs, history, generated_at, i, j);
}

/// Among crates with equally many high-severity signals, one with more
/// medium-severity signals is published before one with fewer.
pub proof fn law_more_medium_severity_is_published_next(
    pairs: Seq<(Seq<char>, CrateSnapshotView)>,
    history: Seq<HistoryEntryView>,
    generated_at: Seq<char>,
    i: int,
    j: int,
)
    requires
        ascending(names_of(pairs)),
        0 <= i < pairs.len(),
        0 <= j < pairs.len(),
        row_of(pairs[i].0, pairs[i].1).high == row_of(pairs[j].0, pairs[j].1).high,
        row_of(pairs[i].0, pairs[i].1).medium > row_of(pairs[j].0, pairs[j].1).medium,
    ensures
        has_passages(
            page_text(pairs, history, generated_at),
            profile_html(row_of(pairs[i].0, pairs[i].1)),
            profile_html(row_of(pairs[j].0, pairs[j].1)),
        ),
{
    lemma_row_of(pairs[i]);
    lemma_row_of(pairs[j]);
    lemma_published_by_rank(pairs, history, generated_at, i, j);
}

/// Among crates with equally many high- and medium-severity signals, one with
/// more low-severity signals is published before one with fewer.
pub proof fn law_more_low_severity_is_published_then(
    pairs: Seq<(Seq<char>, CrateSnapshotView)>,
    history: Seq<HistoryEntryView>,
    generated_at: Seq<char>,
    i: int,
    j: int,
)
    requires
        ascending(names_of(pairs)),
        0 <= i < pairs.len(),
        0 <= j < pairs.len(),
        row_of(pairs[i].0, pairs[i].1).high == row_of(pairs[j].0, pairs[j].1).high,
        row_of(pairs[i].0, pairs[i].1).medium == row_of(pairs[j].0, pairs[j].1).medium,
        row_of(pairs[i].0, pairs[i].1).low > row_of(pairs[j].0, pairs[j].1).low,
    ensures
        has_passages(
            page_text(pairs, history, generated_at),
            profile_html(row_of(pairs[i].0, pairs[i].1)),
            profile_html(row_of(pairs[j].0, pairs[j].1)),
        ),
{
    lemma_row_of(pairs[i]);
    lemma_row_of(pairs[j]);
    lemma_published_by_rank(pairs, history, generated_at, i, j);
}

/// Crates with equal counts are published in the order of their names.
pub proof fn law_equal_crates_are_published_by_name(
    pairs: Seq<(Seq<char>, CrateSnapshotView)>,
    history: Seq<HistoryEntryView>,
    generated_at: Seq<char>,
    i: int,
    j: int,
)
    requires
        ascending(names_of(pairs)),
        0 <= i < j < pairs.len(),
        row_of(pairs[i].0, pairs[i].1).high == row_of(pairs[j].0, pairs[j].1).high,
        row_of(pairs[i].0, pairs[i].1).medium == row_of(pairs[j].0, pairs[j].1).medium,
        row_of(pairs[i].0, pairs[i].1).low == row_of(pairs[j].0, pairs[j].1).low,
    ensures
        has_passages(
            page_text(pairs, history, generated_at),
            profile_html(row_of(pairs[i].0, pairs[i].1)),
            profile_html(row_of(pairs[j].0, pairs[j].1)),
        ),
{
    lemma_row_of(pairs[i]);
    lemma_row_of(pairs[j]);
    assert(text_less(names_of(pairs)[i], names_of(pairs)[j]));
    lemma_published_by_rank(pairs, history, generated_at, i, j);
}


/// Right above the rows of changes and the rows of the profile stand the names
/// of their columns, in the order of the cells.
pub proof fn law_columns_are_named_in_order()
    ensures
        "<thead><tr><th>Date</th><th>Crate</th><th>Version</th><th>Worst new severity</th><th>Detail</th></tr></thead>\n    <tbody>\n"@.is_suffix_of(PAGE_CHANGES@),
        "<thead><tr><th>Crate</th><th>Version</th><th>High</th><th>Medium</th><th>Low</th></tr></thead>\n    <tbody>\n"@.is_suffix_of(PAGE_PROFILE@),
{
    assert("<thead><tr><th>Date</th><th>Crate</th><th>Version</th><th>Worst new severity</th><th>Detail</th></tr></thead>\n    <tbody>\n"@.is_suffix_of(PAGE_CHANGES@)) by {
        reveal_strlit("<thead><tr><th>Date</th><th>Crate</th><th>Version</th><th>Worst new severity</th><th>Detail</th></tr></thead>\n    <tbody>\n");
        reveal_strlit(r##".</p>

  <h2>Recent changes</h2>
  <p class="lede">Every version bump detected on a tracked crate's latest release,
     newest first, with the worst new capability severity it introduced.
     <a href="feed.xml">Subscribe via Atom feed</a> instead of checking back.</p>
  <div class="table-wrap">
  <table>
    <thead><tr><th>Date</th><th>Crate</th><th>Version</th><th>Worst new severity</th><th>Detail</th></tr></thead>
    <tbody>
"##);
    }
    assert("<thead><tr><th>Crate</th><th>Version</th><th>High</th><th>Medium</th><th>Low</th></tr></thead>\n    <tbody>\n"@.is_suffix_of(PAGE_PROFILE@)) by {
        reveal_strlit("<thead><tr><th>Crate</th><th>Version</th><th>High</th><th>Medium</th><th>Low</th></tr></thead>\n    <tbody>\n");
        reveal_strlit(r##"    </tbody>
  </table>
  </div>

  <h2>Current capability profile</h2>
  <p class="lede">Every tracked crate's latest scanned version, ranked by
     how much raw capability (unsafe/FFI/process/build-script signals first,
     then network/filesystem/env, then low-severity) it carries right now --
     not a judgment of risk, since something like <code>openssl-sys</code>
     is expected to be FFI-heavy by design.</p>
  <div class="table-wrap">
  <table>
    <thead><tr><th>Crate</th><th>Version</th><th>High</th><th>Medium</th><th>Low</th></tr></thead>
    <tbody>
"##);
    }
}


} // verus!
