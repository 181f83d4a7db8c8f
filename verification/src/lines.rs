//! White space and lines of text.
use vstd::prelude::*;

use crate::text::texts;

verus! {

/// The characters with the Unicode property `White_Space`.
pub open spec fn is_white_space(c: char) -> bool {
    ||| '\u{9}' <= c <= '\u{d}'
    ||| c == ' '
    ||| c == '\u{85}'
    ||| c == '\u{a0}'
    ||| c == '\u{1680}'
    ||| '\u{2000}' <= c <= '\u{200a}'
    ||| c == '\u{2028}'
    ||| c == '\u{2029}'
    ||| c == '\u{202f}'
    ||| c == '\u{205f}'
    ||| c == '\u{3000}'
}

/// Whether a character is white space.
pub fn white_space(c: char) -> (yes: bool)
    ensures
        yes == is_white_space(c),
{
    ('\u{9}' <= c && c <= '\u{d}') || c == ' ' || c == '\u{85}' || c == '\u{a0}' || c == '\u{1680}'
        || ('\u{2000}' <= c && c <= '\u{200a}') || c == '\u{2028}' || c == '\u{2029}' || c
        == '\u{202f}' || c == '\u{205f}' || c == '\u{3000}'
}

/// A text without its leading white space.
pub open spec fn trimmed_start(s: Seq<char>) -> Seq<char>
    decreases s.len(),
{
    if s.len() > 0 && is_white_space(s[0]) {
        trimmed_start(s.drop_first())
    } else {
        s
    }
}

/// A text without its trailing white space.
pub open spec fn trimmed_end(s: Seq<char>) -> Seq<char>
    decreases s.len(),
{
    if s.len() > 0 && is_white_space(s.last()) {
        trimmed_end(s.drop_last())
    } else {
        s
    }
}

/// A text without white space at either end.
pub open spec fn trimmed(s: Seq<char>) -> Seq<char> {
    trimmed_end(trimmed_start(s))
}

/// White space from `from` up to `to`.
pub open spec fn all_white(s: Seq<char>, from: int, to: int) -> bool {
    forall|i: int| from <= i < to ==> is_white_space(#[trigger] s[i])
}

proof fn lemma_trimmed_start_is(s: Seq<char>, k: int)
    requires
        0 <= k <= s.len(),
        all_white(s, 0, k),
        k < s.len() ==> !is_white_space(s[k]),
    ensures
        trimmed_start(s) == s.skip(k),
    decreases k,
{
    if k == 0 {
        assert(s.skip(0) == s);
    } else {
        assert(is_white_space(s[0]));
        let rest = s.drop_first();
        assert(all_white(rest, 0, k - 1)) by {
            assert forall|i: int| 0 <= i < k - 1 implies is_white_space(#[trigger] rest[i]) by {
                assert(rest[i] == s[i + 1]);
            }
        }
        lemma_trimmed_start_is(rest, k - 1);
        assert(rest.skip(k - 1) == s.skip(k));
    }
}

proof fn lemma_trimmed_end_is(s: Seq<char>, k: int)
    requires
        0 <= k <= s.len(),
        all_white(s, k, s.len() as int),
        k > 0 ==> !is_white_space(s[k - 1]),
    ensures
        trimmed_end(s) == s.take(k),
    decreases s.len() - k,
{
    if k == s.len() {
        assert(s.take(k) == s);
    } else {
        assert(is_white_space(s.last()));
        lemma_trimmed_end_is(s.drop_last(), k);
        assert(s.drop_last().take(k) == s.take(k));
    }
}

/// What remains between the first and the last character that is not white
/// space, where `from` and `to` mark the two.
proof fn lemma_trimmed_is(s: Seq<char>, from: int, to: int)
    requires
        0 <= from <= to <= s.len(),
        all_white(s, 0, from),
        all_white(s, to, s.len() as int),
        from < to ==> !is_white_space(s[from]) && !is_white_space(s[to - 1]),
    ensures
        trimmed(s) == s.subrange(from, to),
{
    if from == to {
        lemma_trimmed_start_is(s, s.len() as int);
        assert(trimmed_end(s.skip(s.len() as int)) == s.subrange(from, to));
    } else {
        lemma_trimmed_start_is(s, from);
        let rest = s.skip(from);
        assert forall|i: int| to - from <= i < rest.len() implies is_white_space(#[trigger] rest[i]) by {
            assert(rest[i] == s[i + from]);
        }
        lemma_trimmed_end_is(rest, to - from);
        assert(rest.take(to - from) == s.subrange(from, to));
    }
}

/// Trimming finds the two ends of what it keeps.
proof fn lemma_trimmed_bounds(s: Seq<char>) -> (bounds: (int, int))
    ensures
        0 <= bounds.0 <= bounds.1 <= s.len(),
        all_white(s, 0, bounds.0),
        all_white(s, bounds.1, s.len() as int),
        bounds.0 < bounds.1 ==> !is_white_space(s[bounds.0]) && !is_white_space(s[bounds.1 - 1]),
        trimmed(s) == s.subrange(bounds.0, bounds.1),
    decreases s.len(),
{
    if s.len() > 0 && is_white_space(s[0]) {
        let rest = s.drop_first();
        let b = lemma_trimmed_bounds(rest);
        let (from, to) = (b.0 + 1, b.1 + 1);
        assert forall|i: int| 0 <= i < from implies is_white_space(#[trigger] s[i]) by {
            if i > 0 {
                assert(rest[i - 1] == s[i]);
            }
        }
        assert forall|i: int| to <= i < s.len() implies is_white_space(#[trigger] s[i]) by {
            assert(rest[i - 1] == s[i]);
        }
        lemma_trimmed_is(s, from, to);
        (from, to)
    } else if s.len() > 0 && is_white_space(s.last()) {
        let rest = s.drop_last();
        let b = lemma_trimmed_bounds(rest);
        assert forall|i: int| b.1 <= i < s.len() implies is_white_space(#[trigger] s[i]) by {
            if i < s.len() - 1 {
                assert(rest[i] == s[i]);
            }
        }
        assert forall|i: int| 0 <= i < b.0 implies is_white_space(#[trigger] s[i]) by {
            assert(rest[i] == s[i]);
        }
        lemma_trimmed_is(s, b.0, b.1);
        b
    } else {
        lemma_trimmed_is(s, 0, s.len() as int);
        (0, s.len() as int)
    }
}

/// Trimmed text neither begins nor ends with white space.
pub proof fn law_trimmed_has_no_outer_white_space(s: Seq<char>)
    ensures
        trimmed(s).len() > 0 ==> !is_white_space(trimmed(s)[0]) && !is_white_space(trimmed(s).last()),
{
    let b = lemma_trimmed_bounds(s);
}

/// Trimming a second time changes nothing.
pub proof fn law_trimmed_is_idempotent(s: Seq<char>)
    ensures
        trimmed(trimmed(s)) == trimmed(s),
{
    law_trimmed_has_no_outer_white_space(s);
    let t = trimmed(s);
    lemma_trimmed_is(t, 0, t.len() as int);
    assert(t.subrange(0, t.len() as int) == t);
}

/// Removes white space at both ends.
pub fn trim(s: &str) -> (out: &str)
    ensures
        out@ == trimmed(s@),
{
    let n: usize = s.unicode_len();
    let mut from: usize = 0;
    let mut to: usize = 0;
    let mut i: usize = 0;
    for c in it: s.chars()
        invariant
            it.seq() == s@,
            i == it.index(),
            n == s@.len(),
            from <= to <= i,
            all_white(s@, 0, from as int),
            all_white(s@, to as int, i as int),
            from < to ==> !is_white_space(s@[from as int]) && !is_white_space(s@[to - 1]),
            from == to ==> from == 0 && to == 0,
    {
        if !white_space(c) {
            if from == to {
                from = i;
            }
            to = i + 1;
        }
        i = i + 1;
    }
    proof {
        lemma_trimmed_is(s@, from as int, to as int);
    }
    s.substring_char(from, to)
}

/// A line whose ending was a line feed, without the carriage return that may
/// have stood before it.
pub open spec fn without_return(line: Seq<char>) -> Seq<char> {
    if line.len() > 0 && line.last() == '\r' {
        line.drop_last()
    } else {
        line
    }
}

/// The lines of a text. A line ends with a line feed, or with a carriage return
/// and a line feed; the ending of the last line may be missing.
pub open spec fn lines_of(s: Seq<char>) -> Seq<Seq<char>>
    decreases s.len(),
{
    if s.len() == 0 {
        Seq::empty()
    } else if s.contains('\n') {
        let end = s.index_of_first('\n').unwrap();
        proof {
            s.index_of_first_ensures('\n');
        }
        seq![without_return(s.take(end))] + lines_of(s.skip(end + 1))
    } else {
        seq![s]
    }
}

/// Where a text begins with a complete line, that is its first line.
pub(crate) proof fn lemma_first_line(line: Seq<char>, rest: Seq<char>)
    requires
        !line.contains('\n'),
    ensures
        lines_of(line + seq!['\n'] + rest) == seq![without_return(line)] + lines_of(rest),
{
    let s = line + seq!['\n'] + rest;
    let n = line.len() as int;
    assert(s[n] == '\n');
    assert(s.contains('\n'));
    s.index_of_first_ensures('\n');
    let end = s.index_of_first('\n').unwrap();
    assert(end == n) by {
        if end < n {
            assert(line[end] == s[end]);
            assert(line.contains('\n'));
        }
        if n < end {
            assert(s[n] != '\n');
        }
    }
    assert(s.take(end) == line);
    assert(s.skip(end + 1) == rest);
}

/// Splits a text into its lines.
pub fn lines(s: &str) -> (out: Vec<String>)
    ensures
        texts(out@) == lines_of(s@),
{
    let mut out: Vec<String> = Vec::new();
    let mut line = String::new();
    assert(s@ == line@ + s@.skip(0));
    assert(texts(out@) + lines_of(s@) == lines_of(s@));
    for c in it: s.chars()
        invariant
            it.seq() == s@,
            !line@.contains('\n'),
            lines_of(s@) == texts(out@) + lines_of(line@ + s@.skip(it.index() as int)),
    {
        let ghost k = it.index() as int;
        let ghost rest = s@.skip(k + 1);
        assert(s@.skip(k) == seq![c] + rest);
        if c == '\n' {
            proof {
                assert(line@ + s@.skip(k) == line@ + seq!['\n'] + rest);
                lemma_first_line(line@, rest);
            }
            let n: usize = line.as_str().unicode_len();
            let ghost done = texts(out@);
            if n > 0 && line.as_str().get_char(n - 1) == '\r' {
                let kept: String = line.as_str().substring_char(0, n - 1).to_owned();
                out.push(kept);
            } else {
                out.push(line);
            }
            line = String::new();
            proof {
                assert(texts(out@) == done.push(out@.last()@));
                assert(line@ + rest == rest);
            }
        } else {
            proof {
                assert(line@ + s@.skip(k) == line@.push(c) + rest);
            }
            line.push(c);
        }
    }
    proof {
        let rest = s@.skip(s@.len() as int);
        assert(line@ + rest == line@);
    }
    if !line.as_str().is_empty() {
        out.push(line);
    }
    out
}

/// The text is empty or its last line has its ending.
pub open spec fn is_complete(s: Seq<char>) -> bool {
    s.len() == 0 || s.last() == '\n'
}

/// Behind a complete text the lines of the next text follow.
pub proof fn law_lines_of_concatenation(a: Seq<char>, b: Seq<char>)
    requires
        is_complete(a),
    ensures
        lines_of(a + b) == lines_of(a) + lines_of(b),
    decreases a.len(),
{
    if a.len() == 0 {
        assert(a + b == b);
        assert(lines_of(a) + lines_of(b) == lines_of(b));
    } else {
        assert(a[a.len() - 1] == '\n');
        assert(a.contains('\n'));
        a.index_of_first_ensures('\n');
        let end = a.index_of_first('\n').unwrap();
        let line = a.take(end);
        let rest = a.skip(end + 1);
        assert(a == line + seq!['\n'] + rest);
        assert(a + b == line + seq!['\n'] + (rest + b));
        assert(!line.contains('\n'));
        lemma_first_line(line, rest);
        lemma_first_line(line, rest + b);
        law_lines_of_concatenation(rest, b);
        assert(lines_of(a + b) == lines_of(a) + lines_of(b));
    }
}

/// No line holds a line feed.
pub proof fn law_lines_hold_no_line_feed(s: Seq<char>)
    ensures
        forall|i: int| 0 <= i < lines_of(s).len() ==> !(#[trigger] lines_of(s)[i]).contains('\n'),
    decreases s.len(),
{
    if s.len() > 0 && s.contains('\n') {
        s.index_of_first_ensures('\n');
        let end = s.index_of_first('\n').unwrap();
        let line = s.take(end);
        let rest = s.skip(end + 1);
        law_lines_hold_no_line_feed(rest);
        assert(!line.contains('\n'));
        assert(!without_return(line).contains('\n'));
        assert forall|i: int| 0 <= i < lines_of(s).len() implies !(#[trigger] lines_of(s)[i]).contains(
            '\n',
        ) by {
            if i > 0 {
                assert(lines_of(s)[i] == lines_of(rest)[i - 1]);
            }
        }
    }
}

/// Each text followed by a line feed.
pub open spec fn terminated(list: Seq<Seq<char>>) -> Seq<char>
    decreases list.len(),
{
    if list.len() == 0 {
        Seq::empty()
    } else {
        terminated(list.drop_last()) + list.last() + seq!['\n']
    }
}

/// The text can stand on a line and be read back from it: it holds no line
/// feed and does not end with a carriage return.
pub open spec fn fits_on_line(s: Seq<char>) -> bool {
    !s.contains('\n') && (s.len() > 0 ==> s.last() != '\r')
}

/// Texts written one per line are read back as they were.
pub proof fn law_lines_of_terminated(list: Seq<Seq<char>>)
    requires
        forall|i: int| 0 <= i < list.len() ==> fits_on_line(#[trigger] list[i]),
    ensures
        lines_of(terminated(list)) == list,
        is_complete(terminated(list)),
    decreases list.len(),
{
    if list.len() > 0 {
        let front = list.drop_last();
        assert forall|i: int| 0 <= i < front.len() implies fits_on_line(#[trigger] front[i]) by {
            assert(front[i] == list[i]);
        }
        law_lines_of_terminated(front);
        let last = list.last();
        assert(fits_on_line(last));
        law_lines_of_concatenation(terminated(front), last + seq!['\n']);
        assert(terminated(list) == terminated(front) + (last + seq!['\n']));
        lemma_first_line(last, Seq::empty());
        assert(last + seq!['\n'] + Seq::<char>::empty() == last + seq!['\n']);
        assert(lines_of(terminated(list)) == list);
    } else {
        assert(lines_of(terminated(list)) == list);
    }
}

/// Trimming cuts white space off both ends and nothing else.
pub proof fn law_trimming_cuts_white_space_only(s: Seq<char>)
    ensures
        exists|from: int, to: int|
            0 <= from <= to <= s.len() && trimmed(s) == #[trigger] s.subrange(from, to) && (forall|
                i: int,
            |
                0 <= i < from || to <= i < s.len() ==> is_white_space(#[trigger] s[i])),
{
    let b = lemma_trimmed_bounds(s);
    assert(trimmed(s) == s.subrange(b.0, b.1));
}

/// A text is blank exactly when all of it is white space.
pub proof fn law_blank_means_white_space(s: Seq<char>)
    ensures
        trimmed(s).len() == 0 <==> (forall|i: int| 0 <= i < s.len() ==> is_white_space(#[trigger] s[i])),
{
    let b = lemma_trimmed_bounds(s);
    if b.0 < b.1 {
        assert(!is_white_space(s[b.0]));
    } else {
        assert forall|i: int| 0 <= i < s.len() implies is_white_space(#[trigger] s[i]) by {}
    }
}

/// White space around a text that has none at its ends is trimmed away.
pub proof fn law_trimming_finds_the_text(before: Seq<char>, text: Seq<char>, after: Seq<char>)
    requires
        forall|i: int| 0 <= i < before.len() ==> is_white_space(#[trigger] before[i]),
        forall|i: int| 0 <= i < after.len() ==> is_white_space(#[trigger] after[i]),
        text.len() > 0,
        !is_white_space(text[0]),
        !is_white_space(text.last()),
    ensures
        trimmed(before + text + after) == text,
{
    let s = before + text + after;
    let (from, to) = (before.len() as int, (before.len() + text.len()) as int);
    assert forall|i: int| 0 <= i < from implies is_white_space(#[trigger] s[i]) by {
        assert(s[i] == before[i]);
    }
    assert forall|i: int| to <= i < s.len() implies is_white_space(#[trigger] s[i]) by {
        assert(s[i] == after[i - to]);
    }
    assert(s[from] == text[0] && s[to - 1] == text.last());
    lemma_trimmed_is(s, from, to);
    assert(s.subrange(from, to) == text);
}

/// No text has no lines; a text without a line feed is one line, and stays it
/// with a line feed or with a carriage return and a line feed behind it.
pub proof fn law_line_endings(line: Seq<char>)
    requires
        !line.contains('\n'),
    ensures
        lines_of(Seq::empty()) == Seq::<Seq<char>>::empty(),
        line.len() > 0 ==> lines_of(line) == seq![line],
        lines_of(line + seq!['\r', '\n']) == seq![line],
        line.len() == 0 || line.last() != '\r' ==> lines_of(line + seq!['\n']) == seq![line],
{
    let end = Seq::<char>::empty();
    let longer = line.push('\r');
    assert(lines_of(end) == Seq::<Seq<char>>::empty());
    assert(!longer.contains('\n')) by {
        if longer.contains('\n') {
            let i = choose|i: int| 0 <= i < longer.len() && longer[i] == '\n';
            assert(line[i] == '\n');
        }
    }
    lemma_first_line(longer, end);
    assert(longer + seq!['\n'] + end =~= line + seq!['\r', '\n']);
    assert(longer.drop_last() =~= line);
    lemma_first_line(line, end);
    assert(line + seq!['\n'] + end =~= line + seq!['\n']);
    assert(lines_of(line + seq!['\r', '\n']) =~= seq![line]);
    if line.len() == 0 || line.last() != '\r' {
        assert(lines_of(line + seq!['\n']) =~= seq![line]);
    }
}

/// Lists written one behind the other are one list written, and a single text
/// is written as itself and a line feed.
pub proof fn law_writing_lines_concatenates(
    front: Seq<Seq<char>>,
    back: Seq<Seq<char>>,
    text: Seq<char>,
)
    ensures
        terminated(Seq::empty()) == Seq::<char>::empty(),
        terminated(seq![text]) == text.push('\n'),
        terminated(front + back) == terminated(front) + terminated(back),
    decreases back.len(),
{
    let single = seq![text];
    assert(single.drop_last() == Seq::<Seq<char>>::empty());
    assert(terminated(single.drop_last()) == Seq::<char>::empty());
    assert(terminated(single) =~= text.push('\n'));
    let all = front + back;
    if back.len() == 0 {
        assert(all == front);
        assert(terminated(front) + terminated(back) =~= terminated(front));
    } else {
        law_writing_lines_concatenates(front, back.drop_last(), text);
        assert(all.drop_last() == front + back.drop_last());
        assert(terminated(all) =~= terminated(front) + terminated(back));
    }
}


/// The lines of a text that ends with a line feed are followed by those of what
/// is written behind it.
pub proof fn law_lines_follow_a_line_feed(a: Seq<char>, b: Seq<char>)
    requires
        a.len() > 0,
        a.last() == '\n',
    ensures
        lines_of(a + b) == lines_of(a) + lines_of(b),
{
    law_lines_of_concatenation(a, b);
}


} // verus!
