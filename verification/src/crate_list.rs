//! The curated list of crates to track.
use vstd::prelude::*;

use crate::lines::{
    fits_on_line, is_complete, is_white_space, law_line_endings, law_lines_of_concatenation,
    law_trimmed_has_no_outer_white_space, law_trimmed_is_idempotent,
    law_trimming_cuts_white_space_only, law_trimming_finds_the_text, lemma_first_line, lines,
    lines_of, trim, trimmed, without_return,
};
use crate::text::texts;

verus! {

/// A trimmed line that names a crate: neither blank nor a comment.
pub open spec fn names_crate(line: Seq<char>) -> bool {
    line.len() > 0 && line[0] != '#'
}

/// The crate names that a list file holds, in order: one per line, where blank
/// lines and lines that begin with `#` do not count, and white space around a
/// name does not either.
pub open spec fn listed(content: Seq<char>) -> Seq<Seq<char>> {
    lines_of(content).map_values(|line: Seq<char>| trimmed(line)).filter(
        |line: Seq<char>| names_crate(line),
    )
}

/// Reads the crate names out of the text of a list file.
pub fn parse_crate_list(content: &str) -> (names: Vec<String>)
    ensures
        texts(names@) == listed(content@),
{
    let all = lines(content);
    let mut names: Vec<String> = Vec::new();
    let ghost rows = lines_of(content@).map_values(|line: Seq<char>| trimmed(line));
    let ghost keep = |line: Seq<char>| names_crate(line);
    proof {
        reveal(Seq::filter);
        assert(rows.take(0).filter(keep) == Seq::<Seq<char>>::empty());
    }
    for i in 0..all.len()
        invariant
            texts(all@) == lines_of(content@),
            rows == lines_of(content@).map_values(|line: Seq<char>| trimmed(line)),
            keep == (|line: Seq<char>| names_crate(line)),
            texts(names@) == rows.take(i as int).filter(keep),
    {
        let line = trim(all[i].as_str());
        proof {
            reveal(Seq::filter);
            assert(texts(all@)[i as int] == all[i as int]@);
            assert(rows.take(i + 1).drop_last() == rows.take(i as int));
            assert(rows.take(i + 1).last() == line@);
        }
        if !line.is_empty() && line.get_char(0) != '#' {
            let ghost before = texts(names@);
            names.push(line.to_owned());
            assert(texts(names@) == before.push(line@));
        }
    }
    assert(rows.take(rows.len() as int) == rows);
    names
}

/// The list is read line by line: lines added behind a complete list add their
/// names behind the names already listed.
pub proof fn law_listed_concatenates(front: Seq<char>, back: Seq<char>)
    requires
        is_complete(front),
    ensures
        listed(front + back) == listed(front) + listed(back),
{
    let trim_line = |line: Seq<char>| trimmed(line);
    let keep = |line: Seq<char>| names_crate(line);
    law_lines_of_concatenation(front, back);
    let (a, b) = (lines_of(front).map_values(trim_line), lines_of(back).map_values(trim_line));
    assert(lines_of(front + back).map_values(trim_line) == a + b);
    Seq::filter_distributes_over_add(a, b, keep);
}

/// Every listed name is not empty, does not begin a comment, and has no white
/// space around it.
pub proof fn law_listed_names_are_clean(content: Seq<char>)
    ensures
        forall|i: int|
            0 <= i < listed(content).len() ==> names_crate(#[trigger] listed(content)[i]) && trimmed(
                listed(content)[i],
            ) == listed(content)[i],
{
    let rows = lines_of(content).map_values(|line: Seq<char>| trimmed(line));
    let keep = |line: Seq<char>| names_crate(line);
    assert forall|i: int| 0 <= i < listed(content).len() implies names_crate(
        #[trigger] listed(content)[i],
    ) && trimmed(listed(content)[i]) == listed(content)[i] by {
        let name = rows.filter(keep)[i];
        rows.lemma_filter_pred(keep, i);
        rows.lemma_filter_contains_rev(keep, name);
        let k = choose|k: int| 0 <= k < rows.len() && rows[k] == name;
        assert(rows[k] == trimmed(lines_of(content)[k]));
        law_trimmed_is_idempotent(lines_of(content)[k]);
    }
}

proof fn lemma_listed_line(line: Seq<char>)
    requires
        !line.contains('\n'),
    ensures
        listed(line + seq!['\n']) == if names_crate(trimmed(without_return(line))) {
            seq![trimmed(without_return(line))]
        } else {
            Seq::<Seq<char>>::empty()
        },
{
    reveal(Seq::filter);
    lemma_first_line(line, Seq::empty());
    assert(line + seq!['\n'] + Seq::<char>::empty() == line + seq!['\n']);
    let all = lines_of(line + seq!['\n']);
    assert(all == seq![without_return(line)]);
    let rows = all.map_values(|l: Seq<char>| trimmed(l));
    assert(rows == seq![trimmed(without_return(line))]);
    assert(rows.drop_last() == Seq::<Seq<char>>::empty());
    let keep = |l: Seq<char>| names_crate(l);
    assert(rows.drop_last().filter(keep) == Seq::<Seq<char>>::empty());
    assert(listed(line + seq!['\n']) == rows.filter(keep));
}

/// A line that holds one name adds this name and nothing else.
pub proof fn law_name_line_adds_name(content: Seq<char>, name: Seq<char>)
    requires
        is_complete(content),
        names_crate(name),
        fits_on_line(name),
        trimmed(name) == name,
    ensures
        listed(content + (name + seq!['\n'])) == listed(content).push(name),
{
    law_listed_concatenates(content, name + seq!['\n']);
    lemma_listed_line(name);
    assert(listed(content) + seq![name] == listed(content).push(name));
}

/// A comment or a blank line adds nothing.
pub proof fn law_comment_line_adds_nothing(content: Seq<char>, line: Seq<char>)
    requires
        is_complete(content),
        fits_on_line(line),
        !names_crate(trimmed(line)),
    ensures
        listed(content + (line + seq!['\n'])) == listed(content),
{
    law_listed_concatenates(content, line + seq!['\n']);
    lemma_listed_line(line);
    assert(listed(content) + Seq::<Seq<char>>::empty() == listed(content));
}

/// A line with a name on it adds the name, whatever white space stands around
/// it and whether or not the line has its ending, as long as the name does not
/// begin with `#`.
pub proof fn law_every_name_is_listed(
    content: Seq<char>,
    before: Seq<char>,
    name: Seq<char>,
    after: Seq<char>,
)
    requires
        content.len() == 0 || content.last() == '\n',
        forall|i: int| 0 <= i < before.len() ==> is_white_space(#[trigger] before[i]),
        forall|i: int| 0 <= i < after.len() ==> is_white_space(#[trigger] after[i]),
        !(before + name + after).contains('\n'),
        name.len() > 0,
        !is_white_space(name[0]),
        !is_white_space(name.last()),
        name[0] != '#',
    ensures
        listed(content + (before + name + after + seq!['\n'])) == listed(content).push(name),
        listed(content + (before + name + after)) == listed(content).push(name),
{
    reveal(Seq::filter);
    let line = before + name + after;
    lemma_line_of_name(before, name, after);
    law_listed_concatenates(content, line + seq!['\n']);
    lemma_listed_line(line);
    assert(listed(content) + seq![name] =~= listed(content).push(name));
    law_listed_concatenates(content, line);
    law_line_endings(line);
    let rows = lines_of(line).map_values(|l: Seq<char>| trimmed(l));
    assert(rows =~= seq![name]);
    assert(rows.drop_last() =~= Seq::<Seq<char>>::empty());
    let keep = |l: Seq<char>| names_crate(l);
    assert(rows.drop_last().filter(keep) =~= Seq::<Seq<char>>::empty());
    assert(rows.filter(keep) =~= seq![name]);
}

proof fn lemma_line_of_name(before: Seq<char>, name: Seq<char>, after: Seq<char>)
    requires
        forall|i: int| 0 <= i < before.len() ==> is_white_space(#[trigger] before[i]),
        forall|i: int| 0 <= i < after.len() ==> is_white_space(#[trigger] after[i]),
        name.len() > 0,
        !is_white_space(name[0]),
        !is_white_space(name.last()),
    ensures
        trimmed(before + name + after) == name,
        trimmed(without_return(before + name + after)) == name,
{
    let line = before + name + after;
    law_trimming_finds_the_text(before, name, after);
    if line.last() == '\r' {
        if after.len() == 0 {
            assert(line.last() == name.last());
        } else {
            let fewer = after.drop_last();
            assert forall|i: int| 0 <= i < fewer.len() implies is_white_space(#[trigger] fewer[i]) by {
                assert(fewer[i] == after[i]);
            }
            law_trimming_finds_the_text(before, name, fewer);
            assert(line.drop_last() =~= before + name + fewer);
        }
    }
}

/// A line that is all white space adds nothing, and neither does one whose
/// first character other than white space is `#`.
pub proof fn law_blank_lines_and_comments_are_skipped(
    content: Seq<char>,
    before: Seq<char>,
    comment: Seq<char>,
)
    requires
        content.len() == 0 || content.last() == '\n',
        forall|i: int| 0 <= i < before.len() ==> is_white_space(#[trigger] before[i]),
        !(before + comment).contains('\n'),
        comment.len() == 0 || comment[0] == '#',
    ensures
        listed(content + (before + comment + seq!['\n'])) == listed(content),
{
    let line = before + comment;
    law_listed_concatenates(content, line + seq!['\n']);
    lemma_listed_line(line);
    let kept = without_return(line);
    law_trimming_cuts_white_space_only(kept);
    let (from, to) = choose|from: int, to: int|
        0 <= from <= to <= kept.len() && trimmed(kept) == #[trigger] kept.subrange(from, to) && (
        forall|i: int| 0 <= i < from || to <= i < kept.len() ==> is_white_space(#[trigger] kept[i]));
    law_trimmed_has_no_outer_white_space(kept);
    if from < to {
        assert(trimmed(kept)[0] == kept[from]);
        assert(kept[from] == line[from]);
        if from < before.len() {
            assert(line[from] == before[from]);
        }
        if comment.len() > 0 {
            let k = before.len() as int;
            assert(line[k] == '#');
            if k < from {
                assert(is_white_space(kept[k]));
            }
        }
    }
    assert(listed(content) + Seq::<Seq<char>>::empty() =~= listed(content));
}


} // verus!
