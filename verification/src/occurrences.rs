//! Counting characters and passages in text.
use vstd::prelude::*;

use crate::escape::{escaped, law_escaped_holds_no_markup};
use crate::text::{decimal, digit};

verus! {

/// How often a character occurs in a text.
pub open spec fn count_char(s: Seq<char>, c: char) -> nat
    decreases s.len(),
{
    if s.len() == 0 {
        0
    } else {
        count_char(s.drop_last(), c) + (if s.last() == c {
            1nat
        } else {
            0nat
        })
    }
}

/// Counting adds up over the parts of a text.
pub(crate) broadcast proof fn lemma_count_char_concatenates(a: Seq<char>, b: Seq<char>, c: char)
    ensures
        #[trigger] count_char(a + b, c) == count_char(a, c) + count_char(b, c),
    decreases b.len(),
{
    if b.len() == 0 {
        assert(a + b == a);
    } else {
        lemma_count_char_concatenates(a, b.drop_last(), c);
        assert((a + b).drop_last() == a + b.drop_last());
    }
}

/// A character that does not occur is counted zero times.
pub(crate) proof fn lemma_count_char_absent(s: Seq<char>, c: char)
    requires
        !s.contains(c),
    ensures
        count_char(s, c) == 0,
    decreases s.len(),
{
    if s.len() > 0 {
        assert(s.contains(s[s.len() - 1]));
        assert(!s.drop_last().contains(c)) by {
            if s.drop_last().contains(c) {
                let i = choose|i: int| 0 <= i < s.drop_last().len() && s.drop_last()[i] == c;
                assert(s[i] == c);
            }
        }
        lemma_count_char_absent(s.drop_last(), c);
    }
}

/// The characters that delimit tags and attributes.
pub open spec fn is_delimiter(c: char) -> bool {
    c == '<' || c == '>' || c == '"'
}

/// Escaped text holds no delimiter.
pub(crate) proof fn lemma_escaped_has_no_delimiter(s: Seq<char>, c: char)
    requires
        is_delimiter(c),
    ensures
        count_char(escaped(s), c) == 0,
{
    law_escaped_holds_no_markup(s);
    assert(!escaped(s).contains(c));
    lemma_count_char_absent(escaped(s), c);
}

/// A number holds no delimiter.
pub(crate) proof fn lemma_decimal_has_no_delimiter(n: nat, c: char)
    requires
        is_delimiter(c),
    ensures
        count_char(decimal(n), c) == 0,
    decreases n,
{
    if n < 10 {
        assert(decimal(n).last() == digit(n));
        assert(decimal(n).drop_last() == Seq::<char>::empty());
        assert(count_char(decimal(n).drop_last(), c) == 0);
    } else {
        lemma_decimal_has_no_delimiter(n / 10, c);
        assert(decimal(n).drop_last() == decimal(n / 10));
        assert(decimal(n).last() == digit(n % 10));
    }
}

/// How often a passage occurs in a text.
pub open spec fn occurrences(s: Seq<char>, passage: Seq<char>) -> nat
    decreases s.len(),
{
    if s.len() < passage.len() || s.len() == 0 {
        0
    } else {
        occurrences(s.drop_last(), passage) + (if s.skip(s.len() - passage.len()) == passage {
            1nat
        } else {
            0nat
        })
    }
}

/// No occurrence of the passage lies across the seam of two texts: either the
/// first text ends with a character that the passage holds only at its end, or
/// the second begins with one that the passage holds only at its beginning.
pub open spec fn is_seam(a: Seq<char>, b: Seq<char>, passage: Seq<char>) -> bool {
    ||| a.len() == 0
    ||| b.len() == 0
    ||| !passage.drop_last().contains(a.last())
    ||| !passage.drop_first().contains(b[0])
}

/// Across a seam the occurrences add up.
pub(crate) proof fn lemma_occurrences_concatenate(a: Seq<char>, b: Seq<char>, passage: Seq<char>)
    requires
        passage.len() > 0,
        is_seam(a, b, passage),
    ensures
        occurrences(a + b, passage) == occurrences(a, passage) + occurrences(b, passage),
    decreases b.len(),
{
    let n = passage.len() as int;
    let s = a + b;
    if b.len() == 0 {
        assert(s == a);
    } else if s.len() < n {
    } else {
        let front = b.drop_last();
        assert(is_seam(a, front, passage));
        lemma_occurrences_concatenate(a, front, passage);
        assert(s.drop_last() == a + front);
        let end = s.skip(s.len() - n);
        if b.len() >= n {
            assert(end == b.skip(b.len() - n));
        } else {
            assert(occurrences(b, passage) == 0);
            assert(occurrences(front, passage) == 0);
            if end == passage && a.len() > 0 {
                let j = n - b.len() - 1;
                assert(end[j] == a.last());
                assert(end[j + 1] == b[0]);
                assert(passage.drop_last()[j] == a.last());
                assert(passage.drop_first()[j] == b[0]);
            }
        }
    }
}

/// Where no occurrence begins, there is none.
pub(crate) proof fn lemma_occurrences_absent(s: Seq<char>, passage: Seq<char>)
    requires
        passage.len() >= 2,
        forall|i: int|
            0 <= i < s.len() - 1 && #[trigger] s[i] == passage[0] ==> s[i + 1] != passage[1],
    ensures
        occurrences(s, passage) == 0,
    decreases s.len(),
{
    if s.len() >= passage.len() {
        let front = s.drop_last();
        assert forall|i: int| 0 <= i < front.len() - 1 && #[trigger] front[i] == passage[0] implies front[i
            + 1] != passage[1] by {
            assert(s[i] == passage[0]);
        }
        lemma_occurrences_absent(front, passage);
        let k = s.len() - passage.len();
        assert(s.skip(k)[0] == s[k]);
        assert(s.skip(k)[1] == s[k + 1]);
    }
}

} // verus!
