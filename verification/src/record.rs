//! The stored form of history entries: one JSON object per line.
use vstd::prelude::*;

use crate::history::{
    append_records, content_of, entry_views, is_record, law_appended_records_are_read_back,
    records_in, HistoryEntry, HistoryEntryView,
};
use crate::json::{
    is_printable, json_list, json_option, json_string, lemma_json_list_ends,
    lemma_json_list_is_printable, lemma_json_option_ends, lemma_json_option_is_printable,
    lemma_json_string_ends, lemma_json_string_is_printable, lemma_same_rest, push_json_list,
    push_json_option, push_json_string,
};
use crate::lines::{is_complete, is_white_space, terminated, trimmed, trimmed_start};
use crate::text::{
    decimal, has_passage, lemma_begins_and_ends, lemma_decimal_digits, lemma_decimal_ends,
    lemma_passage, push_decimal, texts,
};

verus! {

/// An entry as a JSON object without white space, its members in the order of
/// the entry's fields.
pub open spec fn record_text(entry: HistoryEntryView) -> Seq<char> {
    "{\"name\":"@ + json_string(entry.name) + ",\"old_version\":"@ + json_string(entry.old_version)
        + ",\"new_version\":"@ + json_string(entry.new_version) + ",\"checked_at\":"@ + json_string(
        entry.checked_at,
    ) + ",\"worst_severity\":"@ + json_option(entry.worst_severity) + ",\"added_signals\":"@
        + decimal(entry.added_signals) + ",\"removed_signals\":"@ + decimal(entry.removed_signals)
        + ",\"added_dependencies\":"@ + json_list(entry.added_dependencies)
        + ",\"removed_dependencies\":"@ + json_list(entry.removed_dependencies) + "}"@
}

/// The records of some entries.
pub open spec fn record_texts(entries: Seq<HistoryEntryView>) -> Seq<Seq<char>> {
    entries.map_values(|entry: HistoryEntryView| record_text(entry))
}

/// Writes the record of an entry.
pub fn write_record(entry: &HistoryEntry) -> (record: String)
    ensures
        record@ == record_text(entry@),
{
    let mut record = "{\"name\":".to_owned();
    push_json_string(&mut record, entry.name.as_str());
    record.append(",\"old_version\":");
    push_json_string(&mut record, entry.old_version.as_str());
    record.append(",\"new_version\":");
    push_json_string(&mut record, entry.new_version.as_str());
    record.append(",\"checked_at\":");
    push_json_string(&mut record, entry.checked_at.as_str());
    record.append(",\"worst_severity\":");
    push_json_option(&mut record, &entry.worst_severity);
    record.append(",\"added_signals\":");
    push_decimal(&mut record, entry.added_signals);
    record.append(",\"removed_signals\":");
    push_decimal(&mut record, entry.removed_signals);
    record.append(",\"added_dependencies\":");
    push_json_list(&mut record, &entry.added_dependencies);
    record.append(",\"removed_dependencies\":");
    push_json_list(&mut record, &entry.removed_dependencies);
    record.append("}");
    record
}

/// The new text of a history file after some entries are added at its end;
/// `None` when there are no entries, in which case the file is not to be
/// written at all.
pub fn append_entries(existing: Option<String>, entries: &[HistoryEntry]) -> (content: Option<
    String,
>)
    ensures
        content is None <==> entries@.len() == 0,
        content matches Some(text) ==> text@ == content_of(existing) + terminated(
            record_texts(entry_views(entries@)),
        ),
        entries@.len() > 0 && existing is None ==> content->0@ == terminated(
            record_texts(entry_views(entries@)),
        ),
        entries@.len() > 0 && existing is Some ==> existing->0@.is_prefix_of(content->0@),
{
    let mut records: Vec<String> = Vec::new();
    for i in 0..entries.len()
        invariant
            records.len() == i,
            forall|j: int| 0 <= j < i ==> #[trigger] records[j]@ == record_text(entries@[j]@),
    {
        records.push(write_record(&entries[i]));
    }
    assert(texts(records@) == record_texts(entry_views(entries@)));
    let ghost before = content_of(existing);
    proof {
        lemma_begins_and_ends(
            before + terminated(texts(records@)),
            before,
            terminated(texts(records@)),
        );
    }
    append_records(existing, &records)
}

/// The fixed parts of a record hold no control character.
proof fn lemma_fixed_parts_are_printable()
    ensures
        is_printable("{\"name\":"@),
        is_printable(",\"old_version\":"@),
        is_printable(",\"new_version\":"@),
        is_printable(",\"checked_at\":"@),
        is_printable(",\"worst_severity\":"@),
        is_printable(",\"added_signals\":"@),
        is_printable(",\"removed_signals\":"@),
        is_printable(",\"added_dependencies\":"@),
        is_printable(",\"removed_dependencies\":"@),
        is_printable("}"@),
{
    assert(is_printable("{\"name\":"@)) by {
        reveal_strlit("{\"name\":");
    }
    assert(is_printable(",\"old_version\":"@)) by {
        reveal_strlit(",\"old_version\":");
    }
    assert(is_printable(",\"new_version\":"@)) by {
        reveal_strlit(",\"new_version\":");
    }
    assert(is_printable(",\"checked_at\":"@)) by {
        reveal_strlit(",\"checked_at\":");
    }
    assert(is_printable(",\"worst_severity\":"@)) by {
        reveal_strlit(",\"worst_severity\":");
    }
    assert(is_printable(",\"added_signals\":"@)) by {
        reveal_strlit(",\"added_signals\":");
    }
    assert(is_printable(",\"removed_signals\":"@)) by {
        reveal_strlit(",\"removed_signals\":");
    }
    assert(is_printable(",\"added_dependencies\":"@)) by {
        reveal_strlit(",\"added_dependencies\":");
    }
    assert(is_printable(",\"removed_dependencies\":"@)) by {
        reveal_strlit(",\"removed_dependencies\":");
    }
    assert(is_printable("}"@)) by {
        reveal_strlit("}");
    }
}

proof fn lemma_record_is_printable(entry: HistoryEntryView)
    ensures
        is_printable(record_text(entry)),
{
    broadcast use crate::json::lemma_printable_concatenates;

    lemma_fixed_parts_are_printable();
    lemma_json_string_is_printable(entry.name);
    lemma_json_string_is_printable(entry.old_version);
    lemma_json_string_is_printable(entry.new_version);
    lemma_json_string_is_printable(entry.checked_at);
    lemma_json_option_is_printable(entry.worst_severity);
    lemma_decimal_digits(entry.added_signals);
    lemma_decimal_digits(entry.removed_signals);
    assert(is_printable(decimal(entry.added_signals)));
    assert(is_printable(decimal(entry.removed_signals)));
    lemma_json_list_is_printable(entry.added_dependencies);
    lemma_json_list_is_printable(entry.removed_dependencies);
}

/// A text that does not begin with white space is not blank.
proof fn lemma_not_blank(s: Seq<char>)
    requires
        s.len() > 0,
        !is_white_space(s[0]),
    ensures
        trimmed(s).len() > 0,
    decreases s.len(),
{
    assert(trimmed_start(s) == s);
    if s.len() > 1 && is_white_space(s.last()) {
        lemma_not_blank(s.drop_last());
        assert(trimmed_start(s.drop_last()) == s.drop_last());
    }
}

/// Whatever an entry holds, its record stands on one line and is not blank.
pub proof fn law_record_stands_on_one_line(entry: HistoryEntryView)
    ensures
        is_record(record_text(entry)),
{
    let s = record_text(entry);
    lemma_record_is_printable(entry);
    reveal_strlit("{\"name\":");
    reveal_strlit("}");
    assert(s[0] == '{');
    assert(s.last() == '}');
    assert(!s.contains('\n'));
    lemma_not_blank(s);
}

/// The record of an entry from its fifth member on.
spec fn record_end(entry: HistoryEntryView) -> Seq<char> {
    json_option(entry.worst_severity) + (",\"added_signals\":"@ + (decimal(entry.added_signals) + (
    ",\"removed_signals\":"@ + (decimal(entry.removed_signals) + (",\"added_dependencies\":"@ + (
    json_list(entry.added_dependencies) + (",\"removed_dependencies\":"@ + (json_list(
        entry.removed_dependencies,
    ) + "}"@))))))))
}

/// The whole record, read from its beginning.
proof fn lemma_record_parts(entry: HistoryEntryView)
    ensures
        record_text(entry) == "{\"name\":"@ + (json_string(entry.name) + (",\"old_version\":"@ + (
        json_string(entry.old_version) + (",\"new_version\":"@ + (json_string(entry.new_version) + (
        ",\"checked_at\":"@ + (json_string(entry.checked_at) + (",\"worst_severity\":"@
            + record_end(entry))))))))),
{
    broadcast use lemma_add_associates;

}

broadcast proof fn lemma_add_associates(a: Seq<char>, b: Seq<char>, c: Seq<char>)
    ensures
        #[trigger] ((a + b) + c) == a + (b + c),
{
    assert((a + b) + c =~= a + (b + c));
}

proof fn lemma_record_end_tells_entry(a: HistoryEntryView, b: HistoryEntryView)
    requires
        record_end(a) == record_end(b),
    ensures
        a.worst_severity == b.worst_severity,
        a.added_signals == b.added_signals,
        a.removed_signals == b.removed_signals,
        a.added_dependencies == b.added_dependencies,
        a.removed_dependencies == b.removed_dependencies,
{
    reveal_strlit(",\"removed_signals\":");
    reveal_strlit(",\"added_dependencies\":");
    let (a1, b1) = (json_list(a.removed_dependencies) + "}"@, json_list(b.removed_dependencies) + "}"@);
    let (a2, b2) = (",\"removed_dependencies\":"@ + a1, ",\"removed_dependencies\":"@ + b1);
    let (a3, b3) = (json_list(a.added_dependencies) + a2, json_list(b.added_dependencies) + b2);
    let (a4, b4) = (",\"added_dependencies\":"@ + a3, ",\"added_dependencies\":"@ + b3);
    let (a5, b5) = (decimal(a.removed_signals) + a4, decimal(b.removed_signals) + b4);
    let (a6, b6) = (",\"removed_signals\":"@ + a5, ",\"removed_signals\":"@ + b5);
    let (a7, b7) = (decimal(a.added_signals) + a6, decimal(b.added_signals) + b6);
    let (a8, b8) = (",\"added_signals\":"@ + a7, ",\"added_signals\":"@ + b7);
    lemma_json_option_ends(a.worst_severity, b.worst_severity, a8, b8);
    lemma_same_rest(",\"added_signals\":"@, a7, b7);
    assert(a6[0] == ',' && b6[0] == ',');
    lemma_decimal_ends(a.added_signals, b.added_signals, a6, b6);
    lemma_same_rest(",\"removed_signals\":"@, a5, b5);
    assert(a4[0] == ',' && b4[0] == ',');
    lemma_decimal_ends(a.removed_signals, b.removed_signals, a4, b4);
    lemma_same_rest(",\"added_dependencies\":"@, a3, b3);
    lemma_json_list_ends(a.added_dependencies, b.added_dependencies, a2, b2);
    lemma_same_rest(",\"removed_dependencies\":"@, a1, b1);
    lemma_json_list_ends(a.removed_dependencies, b.removed_dependencies, "}"@, "}"@);
}

/// A record tells every field of the entry that it was written for.
pub proof fn law_record_determines_entry(a: HistoryEntryView, b: HistoryEntryView)
    requires
        record_text(a) == record_text(b),
    ensures
        a == b,
{
    lemma_record_parts(a);
    lemma_record_parts(b);
    let (a1, b1) = (",\"worst_severity\":"@ + record_end(a), ",\"worst_severity\":"@ + record_end(b));
    let (a2, b2) = (json_string(a.checked_at) + a1, json_string(b.checked_at) + b1);
    let (a3, b3) = (",\"checked_at\":"@ + a2, ",\"checked_at\":"@ + b2);
    let (a4, b4) = (json_string(a.new_version) + a3, json_string(b.new_version) + b3);
    let (a5, b5) = (",\"new_version\":"@ + a4, ",\"new_version\":"@ + b4);
    let (a6, b6) = (json_string(a.old_version) + a5, json_string(b.old_version) + b5);
    let (a7, b7) = (",\"old_version\":"@ + a6, ",\"old_version\":"@ + b6);
    let (a8, b8) = (json_string(a.name) + a7, json_string(b.name) + b7);
    lemma_same_rest("{\"name\":"@, a8, b8);
    lemma_json_string_ends(a.name, b.name, a7, b7);
    lemma_same_rest(",\"old_version\":"@, a6, b6);
    lemma_json_string_ends(a.old_version, b.old_version, a5, b5);
    lemma_same_rest(",\"new_version\":"@, a4, b4);
    lemma_json_string_ends(a.new_version, b.new_version, a3, b3);
    lemma_same_rest(",\"checked_at\":"@, a2, b2);
    lemma_json_string_ends(a.checked_at, b.checked_at, a1, b1);
    lemma_same_rest(",\"worst_severity\":"@, record_end(a), record_end(b));
    lemma_record_end_tells_entry(a, b);
}

/// The records of a file are those of the given entries, in order.
pub open spec fn holds_entries(content: Seq<char>, entries: Seq<HistoryEntryView>) -> bool {
    records_in(content) == record_texts(entries)
}

/// A file holds the entries of one history only.
pub proof fn law_file_determines_entries(
    content: Seq<char>,
    one: Seq<HistoryEntryView>,
    other: Seq<HistoryEntryView>,
)
    requires
        holds_entries(content, one),
        holds_entries(content, other),
    ensures
        one == other,
{
    let (a, b) = (record_texts(one), record_texts(other));
    assert(a.len() == one.len() && b.len() == other.len());
    assert forall|i: int| 0 <= i < one.len() implies one[i] == other[i] by {
        assert(a[i] == record_text(one[i]) && b[i] == record_text(other[i]));
        law_record_determines_entry(one[i], other[i]);
    }
    assert(one =~= other);
}

/// A file that is missing or empty holds no entries.
pub proof fn law_empty_file_holds_no_entries()
    ensures
        holds_entries(Seq::empty(), Seq::empty()),
{
    reveal(Seq::filter);
    assert(records_in(Seq::empty()) =~= record_texts(Seq::empty()));
}

/// What is appended is read back: a complete file that holds some entries holds
/// those and the new ones behind them after an append, whatever the entries
/// are, and is complete again. What else was in the file stays at its front,
/// and its records stay before the new ones.
pub proof fn law_appended_entries_are_read_back(content: Seq<char>, entries: Seq<HistoryEntryView>)
    requires
        is_complete(content),
    ensures
        content.is_prefix_of(content + terminated(record_texts(entries))),
        records_in(content + terminated(record_texts(entries))) == records_in(content)
            + record_texts(entries),
        is_complete(content + terminated(record_texts(entries))),
        forall|earlier: Seq<HistoryEntryView>| #[trigger]
            holds_entries(content, earlier) ==> holds_entries(
                content + terminated(record_texts(entries)),
                earlier + entries,
            ),
{
    let records = record_texts(entries);
    assert forall|i: int| 0 <= i < records.len() implies is_record(#[trigger] records[i]) by {
        law_record_stands_on_one_line(entries[i]);
    }
    law_appended_records_are_read_back(content, records);
    assert forall|earlier: Seq<HistoryEntryView>| #[trigger]
        holds_entries(content, earlier) implies holds_entries(
        content + terminated(record_texts(entries)),
        earlier + entries,
    ) by {
        assert(record_texts(earlier) + records =~= record_texts(earlier + entries));
    }
}

/// A record holds every field of the entry under the field's name.
pub proof fn law_record_holds_every_field(entry: HistoryEntryView)
    ensures
        ("{\"name\":"@ + json_string(entry.name) + ",\"old_version\":"@).is_prefix_of(record_text(entry)),
        has_passage(record_text(entry), ",\"old_version\":"@ + json_string(entry.old_version) + ",\"new_version\":"@),
        has_passage(record_text(entry), ",\"new_version\":"@ + json_string(entry.new_version) + ",\"checked_at\":"@),
        has_passage(record_text(entry), ",\"checked_at\":"@ + json_string(entry.checked_at) + ",\"worst_severity\":"@),
        has_passage(record_text(entry), ",\"worst_severity\":"@ + json_option(entry.worst_severity) + ",\"added_signals\":"@),
        has_passage(record_text(entry), ",\"added_signals\":"@ + decimal(entry.added_signals) + ",\"removed_signals\":"@),
        has_passage(record_text(entry), ",\"removed_signals\":"@ + decimal(entry.removed_signals) + ",\"added_dependencies\":"@),
        has_passage(record_text(entry), ",\"added_dependencies\":"@ + json_list(entry.added_dependencies) + ",\"removed_dependencies\":"@),
        (",\"removed_dependencies\":"@ + json_list(entry.removed_dependencies) + "}"@).is_suffix_of(record_text(entry)),
        record_text(entry).len() == json_string(entry.name).len() + json_string(entry.old_version).len() + json_string(entry.new_version).len() + json_string(entry.checked_at).len() + json_option(entry.worst_severity).len() + decimal(entry.added_signals).len() + decimal(entry.removed_signals).len() + json_list(entry.added_dependencies).len() + json_list(entry.removed_dependencies).len() + 153,
{
    broadcast use crate::text::lemma_add_associates;

    let whole = record_text(entry);
    lemma_begins_and_ends(whole, "{\"name\":"@ + json_string(entry.name) + ",\"old_version\":"@, json_string(entry.old_version) + ",\"new_version\":"@ + json_string(entry.new_version) + ",\"checked_at\":"@ + json_string(entry.checked_at) + ",\"worst_severity\":"@ + json_option(entry.worst_severity) + ",\"added_signals\":"@ + decimal(entry.added_signals) + ",\"removed_signals\":"@ + decimal(entry.removed_signals) + ",\"added_dependencies\":"@ + json_list(entry.added_dependencies) + ",\"removed_dependencies\":"@ + json_list(entry.removed_dependencies) + "}"@);
    lemma_passage(whole, "{\"name\":"@ + json_string(entry.name), ",\"old_version\":"@ + json_string(entry.old_version) + ",\"new_version\":"@, json_string(entry.new_version) + ",\"checked_at\":"@ + json_string(entry.checked_at) + ",\"worst_severity\":"@ + json_option(entry.worst_severity) + ",\"added_signals\":"@ + decimal(entry.added_signals) + ",\"removed_signals\":"@ + decimal(entry.removed_signals) + ",\"added_dependencies\":"@ + json_list(entry.added_dependencies) + ",\"removed_dependencies\":"@ + json_list(entry.removed_dependencies) + "}"@);
    lemma_passage(whole, "{\"name\":"@ + json_string(entry.name) + ",\"old_version\":"@ + json_string(entry.old_version), ",\"new_version\":"@ + json_string(entry.new_version) + ",\"checked_at\":"@, json_string(entry.checked_at) + ",\"worst_severity\":"@ + json_option(entry.worst_severity) + ",\"added_signals\":"@ + decimal(entry.added_signals) + ",\"removed_signals\":"@ + decimal(entry.removed_signals) + ",\"added_dependencies\":"@ + json_list(entry.added_dependencies) + ",\"removed_dependencies\":"@ + json_list(entry.removed_dependencies) + "}"@);
    lemma_passage(whole, "{\"name\":"@ + json_string(entry.name) + ",\"old_version\":"@ + json_string(entry.old_version) + ",\"new_version\":"@ + json_string(entry.new_version), ",\"checked_at\":"@ + json_string(entry.checked_at) + ",\"worst_severity\":"@, json_option(entry.worst_severity) + ",\"added_signals\":"@ + decimal(entry.added_signals) + ",\"removed_signals\":"@ + decimal(entry.removed_signals) + ",\"added_dependencies\":"@ + json_list(entry.added_dependencies) + ",\"removed_dependencies\":"@ + json_list(entry.removed_dependencies) + "}"@);
    lemma_passage(whole, "{\"name\":"@ + json_string(entry.name) + ",\"old_version\":"@ + json_string(entry.old_version) + ",\"new_version\":"@ + json_string(entry.new_version) + ",\"checked_at\":"@ + json_string(entry.checked_at), ",\"worst_severity\":"@ + json_option(entry.worst_severity) + ",\"added_signals\":"@, decimal(entry.added_signals) + ",\"removed_signals\":"@ + decimal(entry.removed_signals) + ",\"added_dependencies\":"@ + json_list(entry.added_dependencies) + ",\"removed_dependencies\":"@ + json_list(entry.removed_dependencies) + "}"@);
    lemma_passage(whole, "{\"name\":"@ + json_string(entry.name) + ",\"old_version\":"@ + json_string(entry.old_version) + ",\"new_version\":"@ + json_string(entry.new_version) + ",\"checked_at\":"@ + json_string(entry.checked_at) + ",\"worst_severity\":"@ + json_option(entry.worst_severity), ",\"added_signals\":"@ + decimal(entry.added_signals) + ",\"removed_signals\":"@, decimal(entry.removed_signals) + ",\"added_dependencies\":"@ + json_list(entry.added_dependencies) + ",\"removed_dependencies\":"@ + json_list(entry.removed_dependencies) + "}"@);
    lemma_passage(whole, "{\"name\":"@ + json_string(entry.name) + ",\"old_version\":"@ + json_string(entry.old_version) + ",\"new_version\":"@ + json_string(entry.new_version) + ",\"checked_at\":"@ + json_string(entry.checked_at) + ",\"worst_severity\":"@ + json_option(entry.worst_severity) + ",\"added_signals\":"@ + decimal(entry.added_signals), ",\"removed_signals\":"@ + decimal(entry.removed_signals) + ",\"added_dependencies\":"@, json_list(entry.added_dependencies) + ",\"removed_dependencies\":"@ + json_list(entry.removed_dependencies) + "}"@);
    lemma_passage(whole, "{\"name\":"@ + json_string(entry.name) + ",\"old_version\":"@ + json_string(entry.old_version) + ",\"new_version\":"@ + json_string(entry.new_version) + ",\"checked_at\":"@ + json_string(entry.checked_at) + ",\"worst_severity\":"@ + json_option(entry.worst_severity) + ",\"added_signals\":"@ + decimal(entry.added_signals) + ",\"removed_signals\":"@ + decimal(entry.removed_signals), ",\"added_dependencies\":"@ + json_list(entry.added_dependencies) + ",\"removed_dependencies\":"@, json_list(entry.removed_dependencies) + "}"@);
    lemma_begins_and_ends(whole, "{\"name\":"@ + json_string(entry.name) + ",\"old_version\":"@ + json_string(entry.old_version) + ",\"new_version\":"@ + json_string(entry.new_version) + ",\"checked_at\":"@ + json_string(entry.checked_at) + ",\"worst_severity\":"@ + json_option(entry.worst_severity) + ",\"added_signals\":"@ + decimal(entry.added_signals) + ",\"removed_signals\":"@ + decimal(entry.removed_signals) + ",\"added_dependencies\":"@ + json_list(entry.added_dependencies), ",\"removed_dependencies\":"@ + json_list(entry.removed_dependencies) + "}"@);
    assert(whole.len() == json_string(entry.name).len() + json_string(entry.old_version).len() + json_string(entry.new_version).len() + json_string(entry.checked_at).len() + json_option(entry.worst_severity).len() + decimal(entry.added_signals).len() + decimal(entry.removed_signals).len() + json_list(entry.added_dependencies).len() + json_list(entry.removed_dependencies).len() + 153) by {
        reveal_strlit("{\"name\":");
        reveal_strlit(",\"old_version\":");
        reveal_strlit(",\"new_version\":");
        reveal_strlit(",\"checked_at\":");
        reveal_strlit(",\"worst_severity\":");
        reveal_strlit(",\"added_signals\":");
        reveal_strlit(",\"removed_signals\":");
        reveal_strlit(",\"added_dependencies\":");
        reveal_strlit(",\"removed_dependencies\":");
        reveal_strlit("}");
    }
}


/// The records of a list of entries are the entries' own, one for one.
pub proof fn law_each_entry_has_its_record(entries: Seq<HistoryEntryView>, i: int)
    requires
        0 <= i < entries.len(),
    ensures
        record_texts(entries).len() == entries.len(),
        record_texts(entries)[i] == record_text(entries[i]),
{
}


} // verus!
