//! Escaping of text for HTML and XML.
use vstd::prelude::*;

verus! {

/// What one character becomes: the four characters with a meaning in markup
/// become entities, every other character stays.
pub open spec fn escape_char(c: char) -> Seq<char> {
    if c == '&' {
        "&amp;"@
    } else if c == '<' {
        "&lt;"@
    } else if c == '>' {
        "&gt;"@
    } else if c == '"' {
        "&quot;"@
    } else {
        seq![c]
    }
}

/// A text with each of its characters escaped.
pub open spec fn escaped(s: Seq<char>) -> Seq<char>
    decreases s.len(),
{
    if s.len() == 0 {
        Seq::empty()
    } else {
        escaped(s.drop_last()) + escape_char(s.last())
    }
}

/// Escapes a text for use in element content and in double-quoted attributes.
pub fn html_escape(s: &str) -> (out: String)
    ensures
        out@ == escaped(s@),
{
    let mut out = String::new();
    for c in it: s.chars()
        invariant
            it.seq() == s@,
            out@ == escaped(s@.take(it.index() as int)),
    {
        proof {
            assert(s@.take(it.index() + 1).drop_last() == s@.take(it.index() as int));
        }
        if c == '&' {
            out.append("&amp;");
        } else if c == '<' {
            out.append("&lt;");
        } else if c == '>' {
            out.append("&gt;");
        } else if c == '"' {
            out.append("&quot;");
        } else {
            out.push(c);
        }
    }
    assert(s@.take(s@.len() as int) == s@);
    out
}

/// What the entities are, character by character.
proof fn lemma_entities()
    ensures
        "&amp;"@ == seq!['&', 'a', 'm', 'p', ';'],
        "&lt;"@ == seq!['&', 'l', 't', ';'],
        "&gt;"@ == seq!['&', 'g', 't', ';'],
        "&quot;"@ == seq!['&', 'q', 'u', 'o', 't', ';'],
{
    reveal_strlit("&amp;");
    reveal_strlit("&lt;");
    reveal_strlit("&gt;");
    reveal_strlit("&quot;");
    assert("&amp;"@ =~= seq!['&', 'a', 'm', 'p', ';']);
    assert("&lt;"@ =~= seq!['&', 'l', 't', ';']);
    assert("&gt;"@ =~= seq!['&', 'g', 't', ';']);
    assert("&quot;"@ =~= seq!['&', 'q', 'u', 'o', 't', ';']);
}

/// Escaped text holds no angle bracket and no double quote, so it can neither
/// open nor close a tag nor end an attribute.
pub proof fn law_escaped_holds_no_markup(s: Seq<char>)
    ensures
        forall|i: int|
            0 <= i < escaped(s).len() ==> #[trigger] escaped(s)[i] != '<' && escaped(s)[i] != '>'
                && escaped(s)[i] != '"',
    decreases s.len(),
{
    if s.len() > 0 {
        lemma_entities();
        law_escaped_holds_no_markup(s.drop_last());
        let front = escaped(s.drop_last());
        let back = escape_char(s.last());
        assert forall|i: int| 0 <= i < escaped(s).len() implies #[trigger] escaped(s)[i] != '<'
            && escaped(s)[i] != '>' && escaped(s)[i] != '"' by {
            if i < front.len() {
                assert(escaped(s)[i] == front[i]);
            } else {
                assert(escaped(s)[i] == back[i - front.len()]);
            }
        }
    }
}

/// One of the four entities stands in `t` at index `i`.
pub open spec fn entity_at(t: Seq<char>, i: int) -> bool {
    ||| "&amp;"@.is_prefix_of(t.skip(i))
    ||| "&lt;"@.is_prefix_of(t.skip(i))
    ||| "&gt;"@.is_prefix_of(t.skip(i))
    ||| "&quot;"@.is_prefix_of(t.skip(i))
}

proof fn lemma_entity_extends(a: Seq<char>, b: Seq<char>, i: int)
    requires
        0 <= i < a.len(),
        entity_at(a, i),
    ensures
        entity_at(a + b, i),
{
    lemma_entities();
    let t = (a + b).skip(i);
    assert(a.skip(i).is_prefix_of(t)) by {
        assert(t.subrange(0, a.skip(i).len() as int) == a.skip(i));
    }
    assert forall|e: Seq<char>| #[trigger] e.is_prefix_of(a.skip(i)) implies e.is_prefix_of(t) by {
        assert(t.subrange(0, e.len() as int) == a.skip(i).subrange(0, e.len() as int));
    }
}

/// Every ampersand in escaped text begins one of the four entities.
pub proof fn law_escaped_ampersands_are_entities(s: Seq<char>)
    ensures
        forall|i: int|
            0 <= i < escaped(s).len() && #[trigger] escaped(s)[i] == '&' ==> entity_at(escaped(s), i),
    decreases s.len(),
{
    if s.len() > 0 {
        lemma_entities();
        let front = escaped(s.drop_last());
        let back = escape_char(s.last());
        law_escaped_ampersands_are_entities(s.drop_last());
        assert forall|i: int| 0 <= i < escaped(s).len() && #[trigger] escaped(s)[i] == '&' implies entity_at(
            escaped(s),
            i,
        ) by {
            if i < front.len() {
                assert(front[i] == '&');
                lemma_entity_extends(front, back, i);
            } else {
                assert(back[i - front.len()] == '&');
                assert(i == front.len());
                assert(escaped(s).skip(i) == back);
                assert(back.subrange(0, back.len() as int) == back);
            }
        }
    }
}

/// Escaping works piece by piece.
pub proof fn law_escaped_concatenates(a: Seq<char>, b: Seq<char>)
    ensures
        escaped(a + b) == escaped(a) + escaped(b),
    decreases b.len(),
{
    if b.len() == 0 {
        assert(a + b == a);
        assert(escaped(a) + escaped(b) == escaped(a));
    } else {
        law_escaped_concatenates(a, b.drop_last());
        assert((a + b).drop_last() == a + b.drop_last());
        assert(escaped(a + b) == escaped(a) + escaped(b));
    }
}

/// No character of the text has a meaning in markup.
pub open spec fn is_plain(s: Seq<char>) -> bool {
    forall|i: int|
        0 <= i < s.len() ==> #[trigger] s[i] != '&' && s[i] != '<' && s[i] != '>' && s[i] != '"'
}

/// Text without special characters passes through unchanged.
pub proof fn law_escaped_keeps_plain_text(s: Seq<char>)
    requires
        is_plain(s),
    ensures
        escaped(s) == s,
    decreases s.len(),
{
    if s.len() > 0 {
        law_escaped_keeps_plain_text(s.drop_last());
        assert(s == s.drop_last().push(s.last()));
    } else {
        assert(escaped(s) == s);
    }
}

proof fn lemma_escaped_first(s: Seq<char>)
    requires
        s.len() > 0,
    ensures
        escaped(s) == escape_char(s[0]) + escaped(s.drop_first()),
{
    let head = seq![s[0]];
    assert(s == head + s.drop_first());
    law_escaped_concatenates(head, s.drop_first());
    assert(head.drop_last() == Seq::<char>::empty());
    assert(escaped(head.drop_last()) + escape_char(s[0]) == escape_char(s[0]));
}

/// Escaping loses nothing: different texts stay different.
pub proof fn law_escaped_is_injective(s: Seq<char>, t: Seq<char>)
    requires
        escaped(s) == escaped(t),
    ensures
        s == t,
    decreases s.len(),
{
    lemma_entities();
    if s.len() > 0 {
        lemma_escaped_first(s);
        assert(escape_char(s[0]).len() > 0);
        assert(escaped(s).len() > 0);
    }
    if t.len() > 0 {
        lemma_escaped_first(t);
        assert(escape_char(t[0]).len() > 0);
        assert(escaped(t).len() > 0);
    }
    if s.len() == 0 {
        assert(t.len() == 0);
        assert(s == t);
    } else {
        let whole = escaped(s);
        assert(whole[0] == escape_char(s[0])[0]);
        assert(whole[0] == escape_char(t[0])[0]);
        if escape_char(s[0]).len() > 1 {
            assert(whole[1] == escape_char(s[0])[1]);
        }
        if escape_char(t[0]).len() > 1 {
            assert(whole[1] == escape_char(t[0])[1]);
        }
        assert(s[0] == t[0]);
        let n = escape_char(s[0]).len() as int;
        assert(whole.skip(n) == escaped(s.drop_first()));
        assert(whole.skip(n) == escaped(t.drop_first()));
        law_escaped_is_injective(s.drop_first(), t.drop_first());
        assert(s == seq![s[0]] + s.drop_first());
        assert(t == seq![t[0]] + t.drop_first());
    }
}

/// Every occurrence of `c` replaced by `with`.
pub open spec fn replaced(s: Seq<char>, c: char, with: Seq<char>) -> Seq<char>
    decreases s.len(),
{
    if s.len() == 0 {
        Seq::empty()
    } else {
        replaced(s.drop_last(), c, with) + (if s.last() == c {
            with
        } else {
            seq![s.last()]
        })
    }
}

proof fn lemma_replaced_concatenates(a: Seq<char>, b: Seq<char>, c: char, with: Seq<char>)
    ensures
        replaced(a + b, c, with) == replaced(a, c, with) + replaced(b, c, with),
    decreases b.len(),
{
    if b.len() == 0 {
        assert(a + b == a);
        assert(replaced(a, c, with) + replaced(b, c, with) == replaced(a, c, with));
    } else {
        lemma_replaced_concatenates(a, b.drop_last(), c, with);
        assert((a + b).drop_last() == a + b.drop_last());
        assert(replaced(a + b, c, with) == replaced(a, c, with) + replaced(b, c, with));
    }
}

proof fn lemma_replaced_absent(s: Seq<char>, c: char, with: Seq<char>)
    requires
        forall|i: int| 0 <= i < s.len() ==> s[i] != c,
    ensures
        replaced(s, c, with) == s,
    decreases s.len(),
{
    if s.len() > 0 {
        lemma_replaced_absent(s.drop_last(), c, with);
        assert(s == s.drop_last().push(s.last()));
    } else {
        assert(replaced(s, c, with) == s);
    }
}

proof fn lemma_replaced_single(x: char, c: char, with: Seq<char>)
    ensures
        replaced(seq![x], c, with) == (if x == c {
            with
        } else {
            seq![x]
        }),
{
    let s = seq![x];
    assert(s.drop_last() == Seq::<char>::empty());
    assert(replaced(s.drop_last(), c, with) == Seq::<char>::empty());
    assert(replaced(s, c, with) == (if x == c {
        with
    } else {
        seq![x]
    }));
}

/// Escaping is the same as replacing the ampersands first and then, one after
/// another, the angle brackets and the double quotes.
pub proof fn law_escaped_is_four_replacements(s: Seq<char>)
    ensures
        escaped(s) == replaced(
            replaced(replaced(replaced(s, '&', "&amp;"@), '<', "&lt;"@), '>', "&gt;"@),
            '"',
            "&quot;"@,
        ),
    decreases s.len(),
{
    lemma_entities();
    let amp = "&amp;"@;
    let lt = "&lt;"@;
    let gt = "&gt;"@;
    let quot = "&quot;"@;
    if s.len() > 0 {
        law_escaped_is_four_replacements(s.drop_last());
        let x = s.last();
        let s1 = replaced(s.drop_last(), '&', amp);
        let x1: Seq<char> = if x == '&' {
            amp
        } else {
            seq![x]
        };
        let s2 = replaced(s1, '<', lt);
        let s3 = replaced(s2, '>', gt);
        lemma_replaced_concatenates(s1, x1, '<', lt);
        let x2 = replaced(x1, '<', lt);
        lemma_replaced_concatenates(s2, x2, '>', gt);
        let x3 = replaced(x2, '>', gt);
        lemma_replaced_concatenates(s3, x3, '"', quot);
        lemma_replaced_single(x, '<', lt);
        lemma_replaced_single(x, '>', gt);
        lemma_replaced_single(x, '"', quot);
        lemma_replaced_absent(amp, '<', lt);
        lemma_replaced_absent(amp, '>', gt);
        lemma_replaced_absent(amp, '"', quot);
        lemma_replaced_absent(lt, '>', gt);
        lemma_replaced_absent(lt, '"', quot);
        lemma_replaced_absent(gt, '"', quot);
    }
}

} // verus!
