//! The Atom feed of recent changes.
use vstd::prelude::*;

use crate::clock::{is_timestamp, now_iso};
use crate::escape::{
    escaped, html_escape, law_escaped_holds_no_markup, law_escaped_is_injective,
};
use crate::history::{entry_views, newest, HistoryEntry, HistoryEntryView};
use crate::occurrences::{
    count_char, is_delimiter, is_seam, lemma_count_char_absent, lemma_escaped_has_no_delimiter,
    lemma_occurrences_absent, lemma_occurrences_concatenate, occurrences,
};
use crate::json::lemma_same_rest;
use crate::text::{
    decimal, has_passage, join, joined, lemma_add_associates, lemma_begins_and_ends, lemma_passage, push_decimal,
};

verus! {

/// How many changes the feed shows.
pub const FEED_ENTRY_LIMIT: usize = 50;

/// The feed up to the time.
pub const FEED_HEAD: &'static str =
    "<?xml version=\"1.0\" encoding=\"utf-8\"?>\n<feed xmlns=\"http://www.w3.org/2005/Atom\">\n  <title>capscan leaderboard</title>\n  <link href=\"https://poglesbyg.github.io/capscan-leaderboard/\"/>\n  <link href=\"https://poglesbyg.github.io/capscan-leaderboard/feed.xml\" rel=\"self\"/>\n  <id>https://poglesbyg.github.io/capscan-leaderboard/</id>\n  <updated>";

/// The name of the worst severity of a change, or `none`.
pub open spec fn severity_name(entry: HistoryEntryView) -> Seq<char> {
    match entry.worst_severity {
        Some(severity) => severity,
        None => "none"@,
    }
}

/// The title of a feed entry, before escaping.
pub open spec fn feed_title(entry: HistoryEntryView) -> Seq<char> {
    entry.name + ": "@ + entry.old_version + " -> "@ + entry.new_version + " ("@ + severity_name(entry)
        + " severity)"@
}

/// The sentence about new dependencies, or nothing where there are none.
pub open spec fn dependencies_sentence(entry: HistoryEntryView) -> Seq<char> {
    if entry.added_dependencies.len() == 0 {
        Seq::empty()
    } else {
        " New dependencies: "@ + joined(entry.added_dependencies, ", "@) + "."@
    }
}

/// The summary of a feed entry, before escaping.
pub open spec fn feed_summary(entry: HistoryEntryView) -> Seq<char> {
    "+"@ + decimal(entry.added_signals) + " / -"@ + decimal(entry.removed_signals)
        + " signal(s). Worst new severity: "@ + severity_name(entry) + "."@ + dependencies_sentence(
        entry,
    )
}

/// The identifier of a feed entry, before escaping: made of the crate's name,
/// its new version and the time of the check.
pub open spec fn feed_id(entry: HistoryEntryView) -> Seq<char> {
    "https://poglesbyg.github.io/capscan-leaderboard/#"@ + entry.name + "-"@ + entry.new_version
        + "-"@ + entry.checked_at
}

/// One change as an entry of the feed.
pub open spec fn feed_entry(entry: HistoryEntryView) -> Seq<char> {
    "  <entry>\n    <title>"@ + escaped(feed_title(entry))
        + "</title>\n    <link href=\"https://crates.io/crates/"@ + escaped(entry.name)
        + "\"/>\n    <id>"@ + escaped(feed_id(entry)) + "</id>\n    <updated>"@ + entry.checked_at
        + "</updated>\n    <summary>"@ + escaped(feed_summary(entry))
        + "</summary>\n  </entry>\n"@
}

/// Changes as entries of the feed, one after another.
pub open spec fn feed_entries(entries: Seq<HistoryEntryView>) -> Seq<char>
    decreases entries.len(),
{
    if entries.len() == 0 {
        Seq::empty()
    } else {
        feed_entries(entries.drop_last()) + feed_entry(entries.last())
    }
}

/// The whole feed, as of `updated`: the newest changes, newest first.
pub open spec fn feed_text(history: Seq<HistoryEntryView>, updated: Seq<char>) -> Seq<char> {
    FEED_HEAD@ + updated + "</updated>\n"@ + feed_entries(newest(history, FEED_ENTRY_LIMIT as nat))
        + "</feed>\n"@
}

fn write_title(entry: &HistoryEntry, severity: &str) -> (title: String)
    requires
        severity@ == severity_name(entry@),
    ensures
        title@ == feed_title(entry@),
{
    let mut title = entry.name.clone();
    title.append(": ");
    title.append(entry.old_version.as_str());
    title.append(" -> ");
    title.append(entry.new_version.as_str());
    title.append(" (");
    title.append(severity);
    title.append(" severity)");
    title
}

fn write_summary(entry: &HistoryEntry, severity: &str) -> (summary: String)
    requires
        severity@ == severity_name(entry@),
    ensures
        summary@ == feed_summary(entry@),
{
    let mut note = String::new();
    if entry.added_dependencies.len() > 0 {
        note.append(" New dependencies: ");
        note.append(join(&entry.added_dependencies, ", ").as_str());
        note.append(".");
        assert(note@ == dependencies_sentence(entry@));
    }
    let mut summary = "+".to_owned();
    push_decimal(&mut summary, entry.added_signals);
    summary.append(" / -");
    push_decimal(&mut summary, entry.removed_signals);
    summary.append(" signal(s). Worst new severity: ");
    summary.append(severity);
    summary.append(".");
    summary.append(note.as_str());
    summary
}

fn write_id(entry: &HistoryEntry) -> (id: String)
    ensures
        id@ == feed_id(entry@),
{
    let mut id = "https://poglesbyg.github.io/capscan-leaderboard/#".to_owned();
    id.append(entry.name.as_str());
    id.append("-");
    id.append(entry.new_version.as_str());
    id.append("-");
    id.append(entry.checked_at.as_str());
    id
}

fn write_entry(entry: &HistoryEntry) -> (out: String)
    ensures
        out@ == feed_entry(entry@),
{
    let severity = match &entry.worst_severity {
        Some(severity) => severity.as_str(),
        None => "none",
    };
    let mut out = "  <entry>\n    <title>".to_owned();
    out.append(html_escape(write_title(entry, severity).as_str()).as_str());
    out.append("</title>\n    <link href=\"https://crates.io/crates/");
    out.append(html_escape(entry.name.as_str()).as_str());
    out.append("\"/>\n    <id>");
    out.append(html_escape(write_id(entry).as_str()).as_str());
    out.append("</id>\n    <updated>");
    out.append(entry.checked_at.as_str());
    out.append("</updated>\n    <summary>");
    out.append(html_escape(write_summary(entry, severity).as_str()).as_str());
    out.append("</summary>\n  </entry>\n");
    out
}

/// Writes the feed as of the given time.
pub fn render_atom_feed_at(history: &[HistoryEntry], updated: &str) -> (feed: String)
    ensures
        feed@ == feed_text(entry_views(history@), updated@),
{
    let total: usize = history.len();
    let shown: usize = if total < FEED_ENTRY_LIMIT {
        total
    } else {
        FEED_ENTRY_LIMIT
    };
    let ghost list = newest(entry_views(history@), FEED_ENTRY_LIMIT as nat);
    let mut entries = String::new();
    for i in 0..shown
        invariant
            total == history@.len(),
            shown <= total,
            shown == list.len(),
            list == newest(entry_views(history@), FEED_ENTRY_LIMIT as nat),
            entries@ == feed_entries(list.take(i as int)),
    {
        proof {
            assert(list.take(i + 1).drop_last() == list.take(i as int));
            assert(list[i as int] == history@[total - 1 - i]@);
        }
        entries.append(write_entry(&history[total - 1 - i]).as_str());
    }
    assert(list.take(shown as int) == list);
    let mut feed = FEED_HEAD.to_owned();
    feed.append(updated);
    feed.append("</updated>\n");
    feed.append(entries.as_str());
    feed.append("</feed>\n");
    feed
}

/// Writes the feed as of now.
pub fn render_atom_feed(history: &[HistoryEntry]) -> (feed: String)
    ensures
        exists|now: Seq<char>|
            is_timestamp(now) && feed@ == #[trigger] feed_text(entry_views(history@), now),
{
    let updated = now_iso();
    render_atom_feed_at(history, updated.as_str())
}

/// The tag that opens an entry of the feed.
pub open spec fn entry_tag() -> Seq<char> {
    "<entry>"@
}

proof fn lemma_entry_tag()
    ensures
        entry_tag() == seq!['<', 'e', 'n', 't', 'r', 'y', '>'],
{
    reveal_strlit("<entry>");
    assert(entry_tag() =~= seq!['<', 'e', 'n', 't', 'r', 'y', '>']);
}

/// Text without an angle bracket holds no tag.
proof fn lemma_no_tag(s: Seq<char>)
    requires
        !s.contains('<'),
    ensures
        occurrences(s, entry_tag()) == 0,
{
    lemma_entry_tag();
    assert forall|i: int| 0 <= i < s.len() - 1 && #[trigger] s[i] == entry_tag()[0] implies s[i + 1]
        != entry_tag()[1] by {
        assert(s.contains(s[i]));
    }
    lemma_occurrences_absent(s, entry_tag());
}

/// The fixed parts of the feed hold no tag but the one that opens an entry.
proof fn lemma_fixed_parts()
    ensures
        occurrences("  <entry>\n    <title>"@, entry_tag()) == 1,
        occurrences("</title>\n    <link href=\"https://crates.io/crates/"@, entry_tag()) == 0,
        occurrences("\"/>\n    <id>"@, entry_tag()) == 0,
        occurrences("</id>\n    <updated>"@, entry_tag()) == 0,
        occurrences("</updated>\n    <summary>"@, entry_tag()) == 0,
        occurrences("</summary>\n  </entry>\n"@, entry_tag()) == 0,
        occurrences(FEED_HEAD@, entry_tag()) == 0,
        occurrences("</updated>\n"@, entry_tag()) == 0,
        occurrences("</feed>\n"@, entry_tag()) == 0,
{
    lemma_entry_tag();
    let tag = entry_tag();
    reveal_strlit("</title>\n    <link href=\"https://crates.io/crates/");
    lemma_occurrences_absent("</title>\n    <link href=\"https://crates.io/crates/"@, tag);
    reveal_strlit("\"/>\n    <id>");
    lemma_occurrences_absent("\"/>\n    <id>"@, tag);
    reveal_strlit("</id>\n    <updated>");
    lemma_occurrences_absent("</id>\n    <updated>"@, tag);
    reveal_strlit("</updated>\n    <summary>");
    lemma_occurrences_absent("</updated>\n    <summary>"@, tag);
    reveal_strlit("</summary>\n  </entry>\n");
    lemma_occurrences_absent("</summary>\n  </entry>\n"@, tag);
    reveal_strlit("</updated>\n");
    lemma_occurrences_absent("</updated>\n"@, tag);
    reveal_strlit("</feed>\n");
    lemma_occurrences_absent("</feed>\n"@, tag);
    reveal_strlit("  <entry>\n    <title>");
    let opening = "  <entry>\n    <title>"@;
    assert(occurrences(FEED_HEAD@, tag) == 0) by {
        reveal_strlit("<?xml version=\"1.0\" encoding=\"utf-8\"?>\n<feed xmlns=\"http://www.w3.org/2005/Atom\">\n  <title>capscan leaderboard</title>\n  <link href=\"https://poglesbyg.github.io/capscan-leaderboard/\"/>\n  <link href=\"https://poglesbyg.github.io/capscan-leaderboard/feed.xml\" rel=\"self\"/>\n  <id>https://poglesbyg.github.io/capscan-leaderboard/</id>\n  <updated>");
        lemma_occurrences_absent(FEED_HEAD@, tag);
    }
    assert(occurrences(opening, tag) == 1) by {
        let (a, b) = (opening.take(2), opening.skip(9));
        assert(opening == a + (tag + b));
        assert(tag.skip(0) == tag);
        assert(occurrences(tag.drop_last(), tag) == 0);
        assert(occurrences(tag, tag) == 1);
        lemma_no_tag(a);
        lemma_occurrences_absent(b, tag);
        lemma_occurrences_concatenate(tag, b, tag);
        lemma_occurrences_concatenate(a, tag + b, tag);
    }
}

/// Escaped text holds no tag.
proof fn lemma_escaped_has_no_tag(s: Seq<char>)
    ensures
        occurrences(escaped(s), entry_tag()) == 0,
{
    law_escaped_holds_no_markup(s);
    assert(!escaped(s).contains('<'));
    lemma_no_tag(escaped(s));
}

/// The ends of the fixed parts, across which no tag can lie.
proof fn lemma_seams(s: Seq<char>)
    ensures
        is_seam("  <entry>\n    <title>"@, s, entry_tag()),
        is_seam(s, "</title>\n    <link href=\"https://crates.io/crates/"@, entry_tag()),
        is_seam("</title>\n    <link href=\"https://crates.io/crates/"@, s, entry_tag()),
        is_seam(s, "\"/>\n    <id>"@, entry_tag()),
        is_seam("\"/>\n    <id>"@, s, entry_tag()),
        is_seam(s, "</id>\n    <updated>"@, entry_tag()),
        is_seam("</id>\n    <updated>"@, s, entry_tag()),
        is_seam(s, "</updated>\n    <summary>"@, entry_tag()),
        is_seam("</updated>\n    <summary>"@, s, entry_tag()),
        is_seam(s, "</summary>\n  </entry>\n"@, entry_tag()),
        is_seam("</summary>\n  </entry>\n"@, s, entry_tag()),
        is_seam(FEED_HEAD@, s, entry_tag()),
        is_seam(s, "</updated>\n"@, entry_tag()),
        is_seam("</updated>\n"@, s, entry_tag()),
        is_seam(s, "</feed>\n"@, entry_tag()),
{
    lemma_entry_tag();
    reveal_strlit("  <entry>\n    <title>");
    reveal_strlit("</title>\n    <link href=\"https://crates.io/crates/");
    reveal_strlit("\"/>\n    <id>");
    reveal_strlit("</id>\n    <updated>");
    reveal_strlit("</updated>\n    <summary>");
    reveal_strlit("</summary>\n  </entry>\n");
    reveal_strlit("</updated>\n");
    reveal_strlit("</feed>\n");
    reveal_strlit("<?xml version=\"1.0\" encoding=\"utf-8\"?>\n<feed xmlns=\"http://www.w3.org/2005/Atom\">\n  <title>capscan leaderboard</title>\n  <link href=\"https://poglesbyg.github.io/capscan-leaderboard/\"/>\n  <link href=\"https://poglesbyg.github.io/capscan-leaderboard/feed.xml\" rel=\"self\"/>\n  <id>https://poglesbyg.github.io/capscan-leaderboard/</id>\n  <updated>");
}

/// What ends with one text ends a longer text as well.
proof fn lemma_seam_after(a: Seq<char>, b: Seq<char>, s: Seq<char>, passage: Seq<char>)
    requires
        b.len() > 0,
        is_seam(b, s, passage),
    ensures
        is_seam(a + b, s, passage),
{
    assert((a + b).last() == b.last());
}

/// An entry of the feed holds the tag that opens it exactly once, whatever the
/// texts in the entry are, as long as its time holds no angle bracket.
proof fn lemma_entry_holds_one_tag(entry: HistoryEntryView)
    requires
        !entry.checked_at.contains('<'),
    ensures
        occurrences(feed_entry(entry), entry_tag()) == 1,
{
    let tag = entry_tag();
    lemma_entry_tag();
    lemma_fixed_parts();
    let parts = seq![
        "  <entry>\n    <title>"@,
        escaped(feed_title(entry)),
        "</title>\n    <link href=\"https://crates.io/crates/"@,
        escaped(entry.name),
        "\"/>\n    <id>"@,
        escaped(feed_id(entry)),
        "</id>\n    <updated>"@,
        entry.checked_at,
        "</updated>\n    <summary>"@,
        escaped(feed_summary(entry)),
        "</summary>\n  </entry>\n"@,
    ];
    lemma_escaped_has_no_tag(feed_title(entry));
    lemma_escaped_has_no_tag(entry.name);
    lemma_escaped_has_no_tag(feed_id(entry));
    lemma_escaped_has_no_tag(feed_summary(entry));
    lemma_no_tag(entry.checked_at);
    let s1 = parts[0] + parts[1];
    let s2 = s1 + parts[2];
    let s3 = s2 + parts[3];
    let s4 = s3 + parts[4];
    let s5 = s4 + parts[5];
    let s6 = s5 + parts[6];
    let s7 = s6 + parts[7];
    let s8 = s7 + parts[8];
    let s9 = s8 + parts[9];
    let s10 = s9 + parts[10];
    assert(feed_entry(entry) == s10);
    lemma_nonempty_parts();
    lemma_seams(parts[1]);
    lemma_occurrences_concatenate(parts[0], parts[1], tag);
    lemma_seams(s1);
    lemma_occurrences_concatenate(s1, parts[2], tag);
    lemma_seams(parts[3]);
    lemma_seam_after(s1, parts[2], parts[3], tag);
    lemma_occurrences_concatenate(s2, parts[3], tag);
    lemma_seams(s3);
    lemma_occurrences_concatenate(s3, parts[4], tag);
    lemma_seams(parts[5]);
    lemma_seam_after(s3, parts[4], parts[5], tag);
    lemma_occurrences_concatenate(s4, parts[5], tag);
    lemma_seams(s5);
    lemma_occurrences_concatenate(s5, parts[6], tag);
    lemma_seams(parts[7]);
    lemma_seam_after(s5, parts[6], parts[7], tag);
    lemma_occurrences_concatenate(s6, parts[7], tag);
    lemma_seams(s7);
    lemma_occurrences_concatenate(s7, parts[8], tag);
    lemma_seams(parts[9]);
    lemma_seam_after(s7, parts[8], parts[9], tag);
    lemma_occurrences_concatenate(s8, parts[9], tag);
    lemma_seams(s9);
    lemma_occurrences_concatenate(s9, parts[10], tag);
}

proof fn lemma_nonempty_parts()
    ensures
        "</title>\n    <link href=\"https://crates.io/crates/"@.len() > 0,
        "\"/>\n    <id>"@.len() > 0,
        "</id>\n    <updated>"@.len() > 0,
        "</updated>\n    <summary>"@.len() > 0,
        "</summary>\n  </entry>\n"@.len() > 0,
        "</updated>\n"@.len() > 0,
{
    reveal_strlit("</title>\n    <link href=\"https://crates.io/crates/");
    reveal_strlit("\"/>\n    <id>");
    reveal_strlit("</id>\n    <updated>");
    reveal_strlit("</updated>\n    <summary>");
    reveal_strlit("</summary>\n  </entry>\n");
    reveal_strlit("</updated>\n");
}

proof fn lemma_entries_hold_one_tag_each(entries: Seq<HistoryEntryView>)
    requires
        forall|i: int| 0 <= i < entries.len() ==> !(#[trigger] entries[i]).checked_at.contains('<'),
    ensures
        occurrences(feed_entries(entries), entry_tag()) == entries.len(),
    decreases entries.len(),
{
    if entries.len() > 0 {
        let front = entries.drop_last();
        assert forall|i: int| 0 <= i < front.len() implies !(#[trigger] front[i]).checked_at.contains('<') by {
            assert(front[i] == entries[i]);
        }
        lemma_entries_hold_one_tag_each(front);
        assert(!entries[entries.len() - 1].checked_at.contains('<'));
        let last = feed_entry(entries.last());
        lemma_entry_holds_one_tag(entries.last());
        lemma_entry_tag();
        if front.len() > 0 {
            let s = feed_entries(front.drop_last()) + feed_entry(front.last());
            assert(feed_entries(front) == s);
            lemma_ends_of_entry(front.last());
            lemma_seams(last);
            lemma_seam_after(
                feed_entries(front.drop_last()),
                feed_entry(front.last()),
                last,
                entry_tag(),
            );
        }
        lemma_occurrences_concatenate(feed_entries(front), last, entry_tag());
    }
}

/// An entry ends as its last fixed part does.
proof fn lemma_ends_of_entry(entry: HistoryEntryView)
    ensures
        feed_entry(entry).len() > 0,
        forall|s: Seq<char>| #[trigger] is_seam(feed_entry(entry), s, entry_tag()),
{
    lemma_nonempty_parts();
    let end = "</summary>\n  </entry>\n"@;
    assert(feed_entry(entry).last() == end.last());
    assert forall|s: Seq<char>| #[trigger] is_seam(feed_entry(entry), s, entry_tag()) by {
        lemma_seams(s);
    }
}

/// The feed opens one entry for each change up to the limit, and no other,
/// whatever the recorded texts are, as long as the times in it hold no angle
/// bracket.
pub proof fn law_feed_respects_entry_limit(history: Seq<HistoryEntryView>, updated: Seq<char>)
    requires
        !updated.contains('<'),
        forall|i: int| 0 <= i < history.len() ==> !(#[trigger] history[i]).checked_at.contains('<'),
    ensures
        occurrences(feed_text(history, updated), "<entry>"@) == if history.len() < FEED_ENTRY_LIMIT {
            history.len()
        } else {
            FEED_ENTRY_LIMIT as nat
        },
{
    let tag = entry_tag();
    let list = newest(history, FEED_ENTRY_LIMIT as nat);
    assert forall|i: int| 0 <= i < list.len() implies !(#[trigger] list[i]).checked_at.contains('<') by {
        assert(list[i] == history[history.len() - 1 - i]);
    }
    lemma_entry_tag();
    lemma_fixed_parts();
    lemma_nonempty_parts();
    lemma_entries_hold_one_tag_each(list);
    lemma_no_tag(updated);
    let s1 = FEED_HEAD@ + updated;
    let s2 = s1 + "</updated>\n"@;
    let s3 = s2 + feed_entries(list);
    lemma_seams(updated);
    lemma_occurrences_concatenate(FEED_HEAD@, updated, tag);
    lemma_seams(s1);
    lemma_occurrences_concatenate(s1, "</updated>\n"@, tag);
    lemma_seams(feed_entries(list));
    lemma_seam_after(s1, "</updated>\n"@, feed_entries(list), tag);
    lemma_occurrences_concatenate(s2, feed_entries(list), tag);
    lemma_seams(s3);
    lemma_occurrences_concatenate(s3, "</feed>\n"@, tag);
}

/// An entry has the same tags and attributes whatever the recorded texts are,
/// as long as the times hold no delimiter: escaped data cannot add markup.
pub proof fn law_feed_entries_have_the_same_markup(
    a: HistoryEntryView,
    b: HistoryEntryView,
    c: char,
)
    requires
        is_delimiter(c),
        !a.checked_at.contains(c),
        !b.checked_at.contains(c),
    ensures
        count_char(feed_entry(a), c) == count_char(feed_entry(b), c),
{
    broadcast use crate::occurrences::lemma_count_char_concatenates;

    lemma_escaped_has_no_delimiter(feed_title(a), c);
    lemma_escaped_has_no_delimiter(feed_title(b), c);
    lemma_escaped_has_no_delimiter(a.name, c);
    lemma_escaped_has_no_delimiter(b.name, c);
    lemma_escaped_has_no_delimiter(feed_id(a), c);
    lemma_escaped_has_no_delimiter(feed_id(b), c);
    lemma_escaped_has_no_delimiter(feed_summary(a), c);
    lemma_escaped_has_no_delimiter(feed_summary(b), c);
    lemma_count_char_absent(a.checked_at, c);
    lemma_count_char_absent(b.checked_at, c);
}

/// Entries of the same crate version checked at the same time have the same
/// identifier, whatever else they record.
pub proof fn law_feed_id_is_stable(a: HistoryEntryView, b: HistoryEntryView)
    requires
        a.name == b.name,
        a.new_version == b.new_version,
        a.checked_at == b.checked_at,
    ensures
        escaped(feed_id(a)) == escaped(feed_id(b)),
{
}

/// Among entries of one crate whose times are written equally long, the
/// identifier tells versions and times apart.
pub proof fn law_feed_id_tells_changes_of_a_crate_apart(a: HistoryEntryView, b: HistoryEntryView)
    requires
        a.name == b.name,
        a.checked_at.len() == b.checked_at.len(),
        escaped(feed_id(a)) == escaped(feed_id(b)),
    ensures
        a.new_version == b.new_version,
        a.checked_at == b.checked_at,
{
    law_escaped_is_injective(feed_id(a), feed_id(b));
    let front = "https://poglesbyg.github.io/capscan-leaderboard/#"@ + a.name + "-"@;
    let n = front.len() as int;
    let (whole, m) = (feed_id(a), a.new_version.len() as int);
    reveal_strlit("-");
    assert(a.new_version.len() == b.new_version.len());
    assert(whole.subrange(n, n + m) == a.new_version);
    assert(feed_id(b).subrange(n, n + m) == b.new_version);
    assert(whole.skip(n + m + 1) == a.checked_at);
    assert(feed_id(b).skip(n + m + 1) == b.checked_at);
}

/// Two texts split at their first hyphen alike.
proof fn lemma_split_at_hyphen(a: Seq<char>, b: Seq<char>, x: Seq<char>, y: Seq<char>)
    requires
        !a.contains('-'),
        !b.contains('-'),
        a + seq!['-'] + x == b + seq!['-'] + y,
    ensures
        a == b,
        x == y,
{
    let (one, other) = (a + seq!['-'] + x, b + seq!['-'] + y);
    let (n, m) = (a.len() as int, b.len() as int);
    if n < m {
        assert(one[n] == '-' && other[n] == b[n]);
        assert(b.contains(b[n]));
    }
    if m < n {
        assert(other[m] == '-' && one[m] == a[m]);
        assert(a.contains(a[m]));
    }
    assert(one.take(n) == a && other.take(n) == b);
    assert(one.skip(n + 1) == x && other.skip(n + 1) == y);
}

/// Among crates whose names and versions hold no hyphen, the identifier tells
/// crates, versions and times apart.
pub proof fn law_feed_id_tells_crates_apart(a: HistoryEntryView, b: HistoryEntryView)
    requires
        !a.name.contains('-'),
        !b.name.contains('-'),
        !a.new_version.contains('-'),
        !b.new_version.contains('-'),
    ensures
        escaped(feed_id(a)) == escaped(feed_id(b)) <==> a.name == b.name && a.new_version
            == b.new_version && a.checked_at == b.checked_at,
{
    if escaped(feed_id(a)) == escaped(feed_id(b)) {
        law_escaped_is_injective(feed_id(a), feed_id(b));
        let front = "https://poglesbyg.github.io/capscan-leaderboard/#"@;
        let n = front.len() as int;
        reveal_strlit("-");
        assert("-"@ =~= seq!['-']);
        let a_rest = a.new_version + seq!['-'] + a.checked_at;
        let b_rest = b.new_version + seq!['-'] + b.checked_at;
        assert(feed_id(a).skip(n) == a.name + seq!['-'] + a_rest);
        assert(feed_id(b).skip(n) == b.name + seq!['-'] + b_rest);
        lemma_split_at_hyphen(a.name, b.name, a_rest, b_rest);
        lemma_split_at_hyphen(a.new_version, b.new_version, a.checked_at, b.checked_at);
    }
}

/// Where a change has a worst severity, the title and the summary name exactly
/// that severity; `none` stands there only where it has none.
pub proof fn law_feed_names_the_worst_severity(entry: HistoryEntryView)
    ensures
        entry.worst_severity matches Some(severity) ==> {
            &&& (" ("@ + severity + " severity)"@).is_suffix_of(feed_title(entry))
            &&& has_passage(
                feed_summary(entry),
                " signal(s). Worst new severity: "@ + severity + "."@,
            )
        },
        entry.worst_severity is None ==> {
            &&& (" ("@ + "none"@ + " severity)"@).is_suffix_of(feed_title(entry))
            &&& has_passage(
                feed_summary(entry),
                " signal(s). Worst new severity: "@ + "none"@ + "."@,
            )
        },
{
    law_feed_title_names_the_change(entry);
    law_feed_summary_counts_the_change(entry);
}

/// Entries that differ in nothing but their worst severity have different
/// titles and summaries.
pub proof fn law_feed_tells_severities_apart(a: HistoryEntryView, b: HistoryEntryView)
    requires
        a.name == b.name,
        a.old_version == b.old_version,
        a.new_version == b.new_version,
        a.added_signals == b.added_signals,
        a.removed_signals == b.removed_signals,
        a.added_dependencies == b.added_dependencies,
        a.worst_severity != b.worst_severity,
        a.worst_severity != Some("none"@),
        b.worst_severity != Some("none"@),
    ensures
        feed_title(a) != feed_title(b),
        feed_summary(a) != feed_summary(b),
{
    broadcast use crate::text::lemma_add_associates;

    let (s, t) = (severity_name(a), severity_name(b));
    assert(s != t);
    if feed_title(a) == feed_title(b) {
        let front = a.name + ": "@ + a.old_version + " -> "@ + a.new_version + " ("@;
        lemma_same_rest(front, s + " severity)"@, t + " severity)"@);
        assert((s + " severity)"@).len() == (t + " severity)"@).len());
        assert((s + " severity)"@).take(s.len() as int) =~= s);
        assert((t + " severity)"@).take(s.len() as int) =~= t);
    }
    if feed_summary(a) == feed_summary(b) {
        let front = "+"@ + decimal(a.added_signals) + " / -"@ + decimal(a.removed_signals)
            + " signal(s). Worst new severity: "@;
        let back = "."@ + dependencies_sentence(a);
        lemma_same_rest(front, s + back, t + back);
        assert((s + back).len() == (t + back).len());
        assert((s + back).take(s.len() as int) =~= s);
        assert((t + back).take(s.len() as int) =~= t);
    }
}

/// Where a change adds dependencies, the summary ends by listing them; else it
/// ends with the severity.
pub proof fn law_feed_summary_lists_new_dependencies(entry: HistoryEntryView)
    ensures
        entry.added_dependencies.len() > 0 ==> (" New dependencies: "@ + joined(
            entry.added_dependencies,
            ", "@,
        ) + "."@).is_suffix_of(feed_summary(entry)) && dependencies_sentence(entry).len() == joined(
            entry.added_dependencies,
            ", "@,
        ).len() + 20,
        entry.added_dependencies.len() == 0 ==> ("."@).is_suffix_of(feed_summary(entry))
            && dependencies_sentence(entry).len() == 0,
{
    broadcast use crate::text::lemma_add_associates;

    reveal_strlit(" New dependencies: ");
    reveal_strlit(".");
    let front = "+"@ + decimal(entry.added_signals) + " / -"@ + decimal(entry.removed_signals)
        + " signal(s). Worst new severity: "@ + severity_name(entry);
    let sentence = dependencies_sentence(entry);
    assert(feed_summary(entry) == front + ("."@ + sentence));
    if entry.added_dependencies.len() > 0 {
        lemma_begins_and_ends(feed_summary(entry), front + "."@, sentence);
    } else {
        assert("."@ + sentence =~= "."@);
        lemma_begins_and_ends(feed_summary(entry), front, "."@);
    }
}

/// The title names the crate, both versions and the severity, in this order.
pub proof fn law_feed_title_names_the_change(entry: HistoryEntryView)
    ensures
        (entry.name + ": "@).is_prefix_of(feed_title(entry)),
        has_passage(feed_title(entry), ": "@ + entry.old_version + " -> "@),
        has_passage(feed_title(entry), " -> "@ + entry.new_version + " ("@),
        (" ("@ + severity_name(entry) + " severity)"@).is_suffix_of(feed_title(entry)),
        feed_title(entry).len() == entry.name.len() + entry.old_version.len() + entry.new_version.len() + severity_name(entry).len() + 18,
{
    broadcast use crate::text::lemma_add_associates;

    let whole = feed_title(entry);
    lemma_begins_and_ends(whole, entry.name + ": "@, entry.old_version + " -> "@ + entry.new_version + " ("@ + severity_name(entry) + " severity)"@);
    lemma_passage(whole, entry.name, ": "@ + entry.old_version + " -> "@, entry.new_version + " ("@ + severity_name(entry) + " severity)"@);
    lemma_passage(whole, entry.name + ": "@ + entry.old_version, " -> "@ + entry.new_version + " ("@, severity_name(entry) + " severity)"@);
    lemma_begins_and_ends(whole, entry.name + ": "@ + entry.old_version + " -> "@ + entry.new_version, " ("@ + severity_name(entry) + " severity)"@);
    assert(whole.len() == entry.name.len() + entry.old_version.len() + entry.new_version.len() + severity_name(entry).len() + 18) by {
        reveal_strlit(": ");
        reveal_strlit(" -> ");
        reveal_strlit(" (");
        reveal_strlit(" severity)");
    }
}

/// The summary counts the signals added, then those removed, and names the
/// severity.
pub proof fn law_feed_summary_counts_the_change(entry: HistoryEntryView)
    ensures
        ("+"@ + decimal(entry.added_signals) + " / -"@).is_prefix_of(feed_summary(entry)),
        has_passage(feed_summary(entry), " / -"@ + decimal(entry.removed_signals) + " signal(s). Worst new severity: "@),
        has_passage(feed_summary(entry), " signal(s). Worst new severity: "@ + severity_name(entry) + "."@),
        ("."@ + dependencies_sentence(entry)).is_suffix_of(feed_summary(entry)),
        feed_summary(entry).len() == decimal(entry.added_signals).len() + decimal(entry.removed_signals).len() + severity_name(entry).len() + dependencies_sentence(entry).len() + 38,
{
    broadcast use crate::text::lemma_add_associates;

    let whole = feed_summary(entry);
    lemma_begins_and_ends(whole, "+"@ + decimal(entry.added_signals) + " / -"@, decimal(entry.removed_signals) + " signal(s). Worst new severity: "@ + severity_name(entry) + "."@ + dependencies_sentence(entry));
    lemma_passage(whole, "+"@ + decimal(entry.added_signals), " / -"@ + decimal(entry.removed_signals) + " signal(s). Worst new severity: "@, severity_name(entry) + "."@ + dependencies_sentence(entry));
    lemma_passage(whole, "+"@ + decimal(entry.added_signals) + " / -"@ + decimal(entry.removed_signals), " signal(s). Worst new severity: "@ + severity_name(entry) + "."@, dependencies_sentence(entry));
    lemma_begins_and_ends(whole, "+"@ + decimal(entry.added_signals) + " / -"@ + decimal(entry.removed_signals) + " signal(s). Worst new severity: "@ + severity_name(entry), "."@ + dependencies_sentence(entry));
    assert(whole.len() == decimal(entry.added_signals).len() + decimal(entry.removed_signals).len() + severity_name(entry).len() + dependencies_sentence(entry).len() + 38) by {
        reveal_strlit("+");
        reveal_strlit(" / -");
        reveal_strlit(" signal(s). Worst new severity: ");
        reveal_strlit(".");
    }
}

/// The identifier is made of the crate's name, its new version and the time of
/// the check.
pub proof fn law_feed_id_names_the_change(entry: HistoryEntryView)
    ensures
        ("https://poglesbyg.github.io/capscan-leaderboard/#"@ + entry.name + "-"@).is_prefix_of(feed_id(entry)),
        has_passage(feed_id(entry), "-"@ + entry.new_version + "-"@),
        ("-"@ + entry.checked_at).is_suffix_of(feed_id(entry)),
        feed_id(entry).len() == entry.name.len() + entry.new_version.len() + entry.checked_at.len() + 51,
{
    broadcast use crate::text::lemma_add_associates;

    let whole = feed_id(entry);
    lemma_begins_and_ends(whole, "https://poglesbyg.github.io/capscan-leaderboard/#"@ + entry.name + "-"@, entry.new_version + "-"@ + entry.checked_at);
    lemma_passage(whole, "https://poglesbyg.github.io/capscan-leaderboard/#"@ + entry.name, "-"@ + entry.new_version + "-"@, entry.checked_at);
    lemma_begins_and_ends(whole, "https://poglesbyg.github.io/capscan-leaderboard/#"@ + entry.name + "-"@ + entry.new_version, "-"@ + entry.checked_at);
    assert(whole.len() == entry.name.len() + entry.new_version.len() + entry.checked_at.len() + 51) by {
        reveal_strlit("https://poglesbyg.github.io/capscan-leaderboard/#");
        reveal_strlit("-");
    }
}

/// An entry holds its title, the crate's link, its identifier, the time of the
/// check and its summary, each between its tags.
pub proof fn law_feed_entry_holds_every_part(entry: HistoryEntryView)
    ensures
        ("  <entry>\n    <title>"@ + escaped(feed_title(entry)) + "</title>\n    <link href=\"https://crates.io/crates/"@).is_prefix_of(feed_entry(entry)),
        has_passage(feed_entry(entry), "</title>\n    <link href=\"https://crates.io/crates/"@ + escaped(entry.name) + "\"/>\n    <id>"@),
        has_passage(feed_entry(entry), "\"/>\n    <id>"@ + escaped(feed_id(entry)) + "</id>\n    <updated>"@),
        has_passage(feed_entry(entry), "</id>\n    <updated>"@ + entry.checked_at + "</updated>\n    <summary>"@),
        ("</updated>\n    <summary>"@ + escaped(feed_summary(entry)) + "</summary>\n  </entry>\n"@).is_suffix_of(feed_entry(entry)),
        feed_entry(entry).len() == escaped(feed_title(entry)).len() + escaped(entry.name).len() + escaped(feed_id(entry)).len() + entry.checked_at.len() + escaped(feed_summary(entry)).len() + 148,
{
    broadcast use crate::text::lemma_add_associates;

    let whole = feed_entry(entry);
    lemma_begins_and_ends(whole, "  <entry>\n    <title>"@ + escaped(feed_title(entry)) + "</title>\n    <link href=\"https://crates.io/crates/"@, escaped(entry.name) + "\"/>\n    <id>"@ + escaped(feed_id(entry)) + "</id>\n    <updated>"@ + entry.checked_at + "</updated>\n    <summary>"@ + escaped(feed_summary(entry)) + "</summary>\n  </entry>\n"@);
    lemma_passage(whole, "  <entry>\n    <title>"@ + escaped(feed_title(entry)), "</title>\n    <link href=\"https://crates.io/crates/"@ + escaped(entry.name) + "\"/>\n    <id>"@, escaped(feed_id(entry)) + "</id>\n    <updated>"@ + entry.checked_at + "</updated>\n    <summary>"@ + escaped(feed_summary(entry)) + "</summary>\n  </entry>\n"@);
    lemma_passage(whole, "  <entry>\n    <title>"@ + escaped(feed_title(entry)) + "</title>\n    <link href=\"https://crates.io/crates/"@ + escaped(entry.name), "\"/>\n    <id>"@ + escaped(feed_id(entry)) + "</id>\n    <updated>"@, entry.checked_at + "</updated>\n    <summary>"@ + escaped(feed_summary(entry)) + "</summary>\n  </entry>\n"@);
    lemma_passage(whole, "  <entry>\n    <title>"@ + escaped(feed_title(entry)) + "</title>\n    <link href=\"https://crates.io/crates/"@ + escaped(entry.name) + "\"/>\n    <id>"@ + escaped(feed_id(entry)), "</id>\n    <updated>"@ + entry.checked_at + "</updated>\n    <summary>"@, escaped(feed_summary(entry)) + "</summary>\n  </entry>\n"@);
    lemma_begins_and_ends(whole, "  <entry>\n    <title>"@ + escaped(feed_title(entry)) + "</title>\n    <link href=\"https://crates.io/crates/"@ + escaped(entry.name) + "\"/>\n    <id>"@ + escaped(feed_id(entry)) + "</id>\n    <updated>"@ + entry.checked_at, "</updated>\n    <summary>"@ + escaped(feed_summary(entry)) + "</summary>\n  </entry>\n"@);
    assert(whole.len() == escaped(feed_title(entry)).len() + escaped(entry.name).len() + escaped(feed_id(entry)).len() + entry.checked_at.len() + escaped(feed_summary(entry)).len() + 148) by {
        reveal_strlit("  <entry>\n    <title>");
        reveal_strlit("</title>\n    <link href=\"https://crates.io/crates/");
        reveal_strlit("\"/>\n    <id>");
        reveal_strlit("</id>\n    <updated>");
        reveal_strlit("</updated>\n    <summary>");
        reveal_strlit("</summary>\n  </entry>\n");
    }
}


proof fn lemma_feed_entries_concatenate(a: Seq<HistoryEntryView>, b: Seq<HistoryEntryView>)
    ensures
        feed_entries(a + b) == feed_entries(a) + feed_entries(b),
    decreases b.len(),
{
    if b.len() == 0 {
        assert(a + b =~= a);
        assert(feed_entries(a) + feed_entries(b) =~= feed_entries(a));
    } else {
        lemma_feed_entries_concatenate(a, b.drop_last());
        assert((a + b).drop_last() =~= a + b.drop_last());
        assert(feed_entries(a + b) =~= feed_entries(a) + feed_entries(b));
    }
}

/// Below the limit, a new change is published before all others, which stay as
/// they are, right behind the time of the feed; a feed of no changes is the
/// head, the time and the end.
pub proof fn law_new_change_is_published_first(
    history: Seq<HistoryEntryView>,
    entry: HistoryEntryView,
    updated: Seq<char>,
)
    requires
        history.len() < 50,
    ensures
        feed_text(Seq::empty(), updated) == FEED_HEAD@ + updated + "</updated>\n"@ + "</feed>\n"@,
        exists|rest: Seq<char>|
            feed_text(history, updated) == FEED_HEAD@ + updated + "</updated>\n"@ + rest && feed_text(
                history.push(entry),
                updated,
            ) == #[trigger] (FEED_HEAD@ + updated + "</updated>\n"@ + feed_entry(entry) + rest),
{
    let none = Seq::<HistoryEntryView>::empty();
    let end = "</feed>\n"@;
    let head = FEED_HEAD@ + updated + "</updated>\n"@;
    let list = newest(history, 50);
    let published = feed_entry(entry);
    let rest = feed_entries(list) + end;
    assert(newest(none, 50) =~= none);
    assert(head + feed_entries(none) =~= head);
    assert(newest(history.push(entry), 50) =~= seq![entry] + list);
    lemma_feed_entries_concatenate(seq![entry], list);
    assert(seq![entry].drop_last() =~= none);
    assert(feed_entries(none) + published =~= published);
    assert(feed_entries(seq![entry]) == published);
    assert(feed_text(history, updated) == head + rest) by {
        lemma_add_associates(head, feed_entries(list), end);
    }
    assert(feed_text(history.push(entry), updated) == head + published + rest) by {
        lemma_add_associates(head, published + feed_entries(list), end);
        lemma_add_associates(published, feed_entries(list), end);
        lemma_add_associates(head, published, rest);
    }
}

/// Beyond the limit only the newest changes are published.
pub proof fn law_only_the_newest_changes_are_published(
    older: Seq<HistoryEntryView>,
    latest: Seq<HistoryEntryView>,
    updated: Seq<char>,
)
    requires
        latest.len() == 50,
    ensures
        feed_text(older + latest, updated) == feed_text(latest, updated),
{
    assert(newest(older + latest, 50) =~= newest(latest, 50));
}


} // verus!
