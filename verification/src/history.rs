//! The log of version changes: its entries, and how it is kept as lines of text.
use vstd::prelude::*;

use crate::lines::{
    fits_on_line, is_complete, is_white_space, law_blank_means_white_space, law_line_endings,
    law_lines_of_concatenation, law_lines_of_terminated, lines, lines_of, terminated, trim,
    trimmed,
};
use crate::report::text_opt;
use crate::text::texts;

verus! {

/// One version change of one crate, with what the update gained and lost.
#[derive(Clone, Debug)]
pub struct HistoryEntry {
    pub name: String,
    pub old_version: String,
    pub new_version: String,
    pub checked_at: String,
    pub worst_severity: Option<String>,
    pub added_signals: usize,
    pub removed_signals: usize,
    pub added_dependencies: Vec<String>,
    pub removed_dependencies: Vec<String>,
}

/// A history entry as a mathematical value.
pub struct HistoryEntryView {
    pub name: Seq<char>,
    pub old_version: Seq<char>,
    pub new_version: Seq<char>,
    pub checked_at: Seq<char>,
    pub worst_severity: Option<Seq<char>>,
    pub added_signals: nat,
    pub removed_signals: nat,
    pub added_dependencies: Seq<Seq<char>>,
    pub removed_dependencies: Seq<Seq<char>>,
}

impl View for HistoryEntry {
    type V = HistoryEntryView;

    open spec fn view(&self) -> HistoryEntryView {
        HistoryEntryView {
            name: self.name@,
            old_version: self.old_version@,
            new_version: self.new_version@,
            checked_at: self.checked_at@,
            worst_severity: text_opt(self.worst_severity),
            added_signals: self.added_signals as nat,
            removed_signals: self.removed_signals as nat,
            added_dependencies: texts(self.added_dependencies@),
            removed_dependencies: texts(self.removed_dependencies@),
        }
    }
}

/// The mathematical values of a sequence of entries.
pub open spec fn entry_views(entries: Seq<HistoryEntry>) -> Seq<HistoryEntryView> {
    entries.map_values(|e: HistoryEntry| e@)
}

/// The last `limit` entries of a history, newest first; all of them when there
/// are fewer.
pub open spec fn newest(history: Seq<HistoryEntryView>, limit: nat) -> Seq<HistoryEntryView> {
    history.reverse().take(
        if history.len() < limit {
            history.len() as int
        } else {
            limit as int
        },
    )
}

/// The lines of a history file that hold a record: those that are not blank.
pub open spec fn records_in(content: Seq<char>) -> Seq<Seq<char>> {
    lines_of(content).filter(|line: Seq<char>| trimmed(line).len() > 0)
}

/// Reads the records out of the text of a history file.
pub fn history_lines(content: &str) -> (records: Vec<String>)
    ensures
        texts(records@) == records_in(content@),
{
    let all = lines(content);
    let mut records: Vec<String> = Vec::new();
    let ghost rows = lines_of(content@);
    let ghost keep = |line: Seq<char>| trimmed(line).len() > 0;
    proof {
        reveal(Seq::filter);
        assert(rows.take(0).filter(keep) == Seq::<Seq<char>>::empty());
    }
    for i in 0..all.len()
        invariant
            texts(all@) == lines_of(content@),
            rows == lines_of(content@),
            keep == (|line: Seq<char>| trimmed(line).len() > 0),
            texts(records@) == rows.take(i as int).filter(keep),
    {
        let line = all[i].as_str();
        proof {
            reveal(Seq::filter);
            assert(texts(all@)[i as int] == all[i as int]@);
            assert(rows.take(i + 1).drop_last() == rows.take(i as int));
            assert(rows.take(i + 1).last() == line@);
        }
        if !trim(line).is_empty() {
            let ghost before = texts(records@);
            records.push(line.to_owned());
            assert(texts(records@) == before.push(line@));
        }
    }
    assert(rows.take(rows.len() as int) == rows);
    records
}

/// The text of a file, or nothing where there is no file.
pub open spec fn content_of(file: Option<String>) -> Seq<char> {
    match file {
        Some(content) => content@,
        None => Seq::empty(),
    }
}

/// The new text of a history file after some records, one per line, are added
/// at its end; `None` when there are no records, in which case the file is not
/// to be written at all.
pub fn append_records(existing: Option<String>, records: &Vec<String>) -> (content: Option<String>)
    ensures
        content is None <==> records@.len() == 0,
        content matches Some(text) ==> text@ == content_of(existing) + terminated(texts(records@)),
        existing is None && records@.len() > 0 ==> content->0@ == terminated(texts(records@)),
        existing is Some && records@.len() > 0 ==> content->0@ == existing->0@ + terminated(
            texts(records@),
        ),
{
    if records.len() == 0 {
        return None;
    }
    let mut content = match existing {
        Some(content) => content,
        None => String::new(),
    };
    let ghost before = content@;
    let ghost list = texts(records@);
    assert(before == before + terminated(list.take(0)));
    for i in 0..records.len()
        invariant
            list == texts(records@),
            content@ == before + terminated(list.take(i as int)),
    {
        content.append(records[i].as_str());
        content.push('\n');
        proof {
            assert(list.take(i + 1).drop_last() == list.take(i as int));
            assert(content@ == before + terminated(list.take(i + 1)));
        }
    }
    assert(list.take(list.len() as int) == list);
    Some(content)
}

/// The newest entries are the history read backwards, up to the limit.
pub proof fn law_newest_comes_first(history: Seq<HistoryEntryView>, limit: nat)
    ensures
        newest(history, limit).len() == if history.len() < limit {
            history.len()
        } else {
            limit
        },
        forall|i: int|
            0 <= i < newest(history, limit).len() ==> #[trigger] newest(history, limit)[i]
                == history[history.len() - 1 - i],
{
}

/// A change that is recorded later is shown before all others.
pub proof fn law_latest_change_is_shown_first(
    history: Seq<HistoryEntryView>,
    entry: HistoryEntryView,
    limit: nat,
)
    requires
        limit > 0,
    ensures
        newest(history.push(entry), limit).len() > 0,
        newest(history.push(entry), limit)[0] == entry,
        newest(history.push(entry), limit).drop_first() == newest(history, (limit - 1) as nat),
{
    assert(newest(history.push(entry), limit).drop_first() =~= newest(history, (limit - 1) as nat));
}

/// The text is a record that the history can keep: it fits on a line and is
/// not blank.
pub open spec fn is_record(s: Seq<char>) -> bool {
    fits_on_line(s) && trimmed(s).len() > 0
}

proof fn lemma_filter_keeps_all(list: Seq<Seq<char>>, keep: spec_fn(Seq<char>) -> bool)
    requires
        forall|i: int| 0 <= i < list.len() ==> keep(#[trigger] list[i]),
    ensures
        list.filter(keep) == list,
    decreases list.len(),
{
    reveal(Seq::filter);
    if list.len() > 0 {
        assert forall|i: int| 0 <= i < list.drop_last().len() implies keep(
            #[trigger] list.drop_last()[i],
        ) by {
            assert(list.drop_last()[i] == list[i]);
        }
        lemma_filter_keeps_all(list.drop_last(), keep);
        assert(keep(list[list.len() - 1]));
        assert(list == list.drop_last().push(list.last()));
    } else {
        assert(list.filter(keep) == list);
    }
}

/// The log is append-only: what was in the file stays at its front, the new
/// records are read back behind the old ones, and the file is again one that
/// records can be added to.
pub proof fn law_appended_records_are_read_back(content: Seq<char>, records: Seq<Seq<char>>)
    requires
        is_complete(content),
        forall|i: int| 0 <= i < records.len() ==> is_record(#[trigger] records[i]),
    ensures
        content.is_prefix_of(content + terminated(records)),
        records_in(content + terminated(records)) == records_in(content) + records,
        is_complete(content + terminated(records)),
{
    let keep = |line: Seq<char>| trimmed(line).len() > 0;
    let more = terminated(records);
    assert((content + more).subrange(0, content.len() as int) == content);
    assert forall|i: int| 0 <= i < records.len() implies fits_on_line(#[trigger] records[i]) by {
        assert(is_record(records[i]));
    }
    law_lines_of_terminated(records);
    law_lines_of_concatenation(content, more);
    Seq::filter_distributes_over_add(lines_of(content), records, keep);
    assert forall|i: int| 0 <= i < records.len() implies keep(#[trigger] records[i]) by {
        assert(is_record(records[i]));
    }
    lemma_filter_keeps_all(records, keep);
    if more.len() == 0 {
        assert(content + more == content);
    } else {
        assert((content + more).last() == more.last());
    }
}

/// The values of a list of entries are the entries' own, one for one, and show
/// every field.
pub proof fn law_entry_views_show_every_field(entries: Seq<HistoryEntry>, i: int)
    requires
        0 <= i < entries.len(),
    ensures
        entry_views(entries).len() == entries.len(),
        entry_views(entries)[i].name == entries[i].name@,
        entry_views(entries)[i].old_version == entries[i].old_version@,
        entry_views(entries)[i].new_version == entries[i].new_version@,
        entry_views(entries)[i].checked_at == entries[i].checked_at@,
        entries[i].worst_severity matches Some(severity) ==> entry_views(entries)[i].worst_severity
            == Some(severity@),
        entries[i].worst_severity is None ==> entry_views(entries)[i].worst_severity is None,
        entry_views(entries)[i].added_signals == entries[i].added_signals,
        entry_views(entries)[i].removed_signals == entries[i].removed_signals,
        entry_views(entries)[i].added_dependencies == entries[i].added_dependencies@.map_values(
            |d: String| d@,
        ),
        entry_views(entries)[i].removed_dependencies == entries[i].removed_dependencies@.map_values(
            |d: String| d@,
        ),
{
}

/// A line holds a record exactly when it holds a character other than white
/// space.
pub proof fn law_every_line_that_is_not_blank_is_a_record(content: Seq<char>, line: Seq<char>)
    requires
        content.len() == 0 || content.last() == '\n',
        !line.contains('\n'),
        line.len() > 0 ==> line.last() != '\r',
    ensures
        records_in(content + (line + seq!['\n'])) == if exists|i: int|
            0 <= i < line.len() && !is_white_space(#[trigger] line[i]) {
            records_in(content).push(line)
        } else {
            records_in(content)
        },
        line.len() > 0 ==> records_in(content + line) == records_in(content + (line + seq!['\n'])),
{
    reveal(Seq::filter);
    let keep = |l: Seq<char>| trimmed(l).len() > 0;
    law_blank_means_white_space(line);
    law_line_endings(line);
    let single = seq![line];
    law_lines_of_concatenation(content, line + seq!['\n']);
    law_lines_of_concatenation(content, line);
    Seq::filter_distributes_over_add(lines_of(content), single, keep);
    assert(single.drop_last() =~= Seq::<Seq<char>>::empty());
    assert(single.drop_last().filter(keep) =~= Seq::<Seq<char>>::empty());
    let kept = single.filter(keep);
    if keep(line) {
        assert(kept =~= seq![line]);
        assert(records_in(content) + kept =~= records_in(content).push(line));
    } else {
        assert(kept =~= Seq::<Seq<char>>::empty());
        assert(records_in(content) + kept =~= records_in(content));
    }
}

/// A file without text holds no record.
pub proof fn law_no_text_holds_no_record()
    ensures
        records_in(Seq::empty()) == Seq::<Seq<char>>::empty(),
{
    reveal(Seq::filter);
}


} // verus!
