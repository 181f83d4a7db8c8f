//! Text primitives: appending, equality, order, decimal numbers and joining.
//!
//! A text is modelled as the sequence of its characters.
use vstd::prelude::*;

verus! {

/// `String::push` appends one character to the end of a string.
pub assume_specification[ String::push ](s: &mut String, c: char)
    ensures
        final(s)@ == old(s)@.push(c),
;

/// The texts that a sequence of strings holds.
pub open spec fn texts(strings: Seq<String>) -> Seq<Seq<char>> {
    strings.map_values(|s: String| s@)
}

/// A copy of a list of strings.
pub fn duplicate_all(strings: &Vec<String>) -> (copy: Vec<String>)
    ensures
        texts(copy@) == texts(strings@),
{
    let mut copy: Vec<String> = Vec::new();
    for i in 0..strings.len()
        invariant
            copy.len() == i,
            forall|j: int| 0 <= j < i ==> #[trigger] copy[j]@ == strings[j]@,
    {
        copy.push(strings[i].clone());
    }
    assert(texts(copy@) == texts(strings@));
    copy
}

/// `a` comes before `b` when characters are compared one by one by code point,
/// and a proper prefix comes before the longer text.
pub open spec fn text_less(a: Seq<char>, b: Seq<char>) -> bool
    decreases a.len(),
{
    if b.len() == 0 {
        false
    } else if a.len() == 0 {
        true
    } else {
        a[0] < b[0] || (a[0] == b[0] && text_less(a.drop_first(), b.drop_first()))
    }
}

/// The texts stand in strictly ascending order.
pub open spec fn ascending(list: Seq<Seq<char>>) -> bool {
    forall|i: int, j: int| 0 <= i < j < list.len() ==> text_less(#[trigger] list[i], #[trigger] list[j])
}

/// No text comes before itself.
pub proof fn law_text_less_irreflexive(a: Seq<char>)
    ensures
        !text_less(a, a),
    decreases a.len(),
{
    if a.len() > 0 {
        law_text_less_irreflexive(a.drop_first());
    }
}

/// The order of texts is transitive.
pub proof fn law_text_less_transitive(a: Seq<char>, b: Seq<char>, c: Seq<char>)
    requires
        text_less(a, b),
        text_less(b, c),
    ensures
        text_less(a, c),
    decreases a.len(),
{
    if a.len() > 0 && a[0] == b[0] && b[0] == c[0] {
        law_text_less_transitive(a.drop_first(), b.drop_first(), c.drop_first());
    }
}

/// Of two different texts, one comes before the other.
pub proof fn law_text_less_total(a: Seq<char>, b: Seq<char>)
    ensures
        a == b || text_less(a, b) || text_less(b, a),
    decreases a.len(),
{
    if a.len() > 0 && b.len() > 0 && a[0] == b[0] {
        law_text_less_total(a.drop_first(), b.drop_first());
        if a.drop_first() == b.drop_first() {
            assert(a == seq![a[0]] + a.drop_first());
            assert(b == seq![b[0]] + b.drop_first());
        }
    } else if a.len() == 0 && b.len() == 0 {
        assert(a == b);
    }
}

proof fn lemma_ascending_rest(list: Seq<Seq<char>>)
    requires
        list.len() > 0,
        ascending(list),
    ensures
        ascending(list.drop_first()),
        list.drop_first().to_set() == list.to_set().remove(list[0]),
{
    let rest = list.drop_first();
    assert forall|i: int, j: int| 0 <= i < j < rest.len() implies text_less(
        #[trigger] rest[i],
        #[trigger] rest[j],
    ) by {
        assert(text_less(list[i + 1], list[j + 1]));
    }
    assert forall|t: Seq<char>| #[trigger]
        rest.to_set().contains(t) <==> list.to_set().remove(list[0]).contains(t) by {
        if rest.contains(t) {
            let i = choose|i: int| 0 <= i < rest.len() && rest[i] == t;
            assert(list[i + 1] == t);
            assert(text_less(list[0], list[i + 1]));
            law_text_less_irreflexive(t);
        }
        if list.contains(t) && t != list[0] {
            let i = choose|i: int| 0 <= i < list.len() && list[i] == t;
            assert(rest[i - 1] == t);
        }
    }
    assert(rest.to_set() =~= list.to_set().remove(list[0]));
}

/// A set of texts can be listed in ascending order in one way only.
pub proof fn law_ascending_is_determined(a: Seq<Seq<char>>, b: Seq<Seq<char>>)
    requires
        ascending(a),
        ascending(b),
        a.to_set() == b.to_set(),
    ensures
        a == b,
    decreases a.len(),
{
    if a.len() == 0 {
        if b.len() > 0 {
            assert(b.to_set().contains(b[0]));
            assert(a.contains(b[0]));
        }
        assert(a == b);
    } else {
        assert(a.to_set().contains(a[0]));
        assert(b.contains(a[0]));
        assert(b.to_set().contains(b[0]));
        assert(a.contains(b[0]));
        let k = choose|k: int| 0 <= k < b.len() && b[k] == a[0];
        let m = choose|m: int| 0 <= m < a.len() && a[m] == b[0];
        if k > 0 && m > 0 {
            assert(text_less(b[0], b[k]));
            assert(text_less(a[0], a[m]));
            law_text_less_transitive(a[0], b[0], a[0]);
            law_text_less_irreflexive(a[0]);
        }
        assert(a[0] == b[0]);
        lemma_ascending_rest(a);
        lemma_ascending_rest(b);
        law_ascending_is_determined(a.drop_first(), b.drop_first());
        assert(a == seq![a[0]] + a.drop_first());
        assert(b == seq![b[0]] + b.drop_first());
    }
}

/// Whether two texts are the same.
pub fn same_text(a: &str, b: &str) -> (same: bool)
    ensures
        same == (a@ == b@),
{
    let mut left = a.chars();
    let mut right = b.chars();
    let ghost mut k: int = 0;
    loop
        invariant
            0 <= k <= a@.len(),
            k <= b@.len(),
            vstd::std_specs::iter::IteratorSpec::remaining(&left) == a@.skip(k),
            vstd::std_specs::iter::IteratorSpec::remaining(&right) == b@.skip(k),
            a@.take(k) == b@.take(k),
        decreases a@.len() - k,
    {
        match (left.next(), right.next()) {
            (Some(c), Some(d)) => {
                if c != d {
                    assert(a@[k] != b@[k]);
                    return false;
                }
                proof {
                    assert(a@.take(k + 1) == a@.take(k).push(a@[k]));
                    assert(b@.take(k + 1) == b@.take(k).push(b@[k]));
                    k = k + 1;
                }
            },
            (None, None) => {
                assert(a@.take(k) == a@);
                assert(b@.take(k) == b@);
                return true;
            },
            _ => {
                return false;
            },
        }
    }
}

/// Whether `a` comes before `b` in the order of texts.
pub fn comes_before(a: &str, b: &str) -> (before: bool)
    ensures
        before == text_less(a@, b@),
{
    let mut left = a.chars();
    let mut right = b.chars();
    let ghost mut k: int = 0;
    loop
        invariant
            0 <= k <= a@.len(),
            k <= b@.len(),
            vstd::std_specs::iter::IteratorSpec::remaining(&left) == a@.skip(k),
            vstd::std_specs::iter::IteratorSpec::remaining(&right) == b@.skip(k),
            text_less(a@, b@) == text_less(a@.skip(k), b@.skip(k)),
        decreases a@.len() - k,
    {
        match (left.next(), right.next()) {
            (Some(c), Some(d)) => {
                if c != d {
                    return c < d;
                }
                proof {
                    assert(a@.skip(k).drop_first() == a@.skip(k + 1));
                    assert(b@.skip(k).drop_first() == b@.skip(k + 1));
                    k = k + 1;
                }
            },
            (None, Some(_)) => {
                return true;
            },
            (_, None) => {
                return false;
            },
        }
    }
}

/// The decimal digit of a number below ten.
pub open spec fn digit(d: nat) -> char {
    (48 + d) as char
}

/// A number written in decimal, without leading zeros.
pub open spec fn decimal(n: nat) -> Seq<char>
    decreases n,
{
    if n < 10 {
        seq![digit(n)]
    } else {
        decimal(n / 10).push(digit(n % 10))
    }
}

/// A number in decimal is made of digits.
pub(crate) proof fn lemma_decimal_digits(n: nat)
    ensures
        decimal(n).len() > 0,
        forall|i: int| 0 <= i < decimal(n).len() ==> '0' <= #[trigger] decimal(n)[i] <= '9',
    decreases n,
{
    if n >= 10 {
        lemma_decimal_digits(n / 10);
    }
}

/// Different numbers are written differently.
pub proof fn law_decimal_is_injective(n: nat, m: nat)
    requires
        decimal(n) == decimal(m),
    ensures
        n == m,
    decreases n,
{
    lemma_decimal_digits(n / 10);
    lemma_decimal_digits(m / 10);
    assert(decimal(n).last() == digit(n % 10));
    assert(decimal(m).last() == digit(m % 10));
    if n >= 10 && m >= 10 {
        assert(decimal(n).drop_last() == decimal(n / 10));
        assert(decimal(m).drop_last() == decimal(m / 10));
        law_decimal_is_injective(n / 10, m / 10);
    }
}

/// Texts that begin with a number and go on with something else begin with the
/// same number where they are equal, and go on equally.
pub(crate) proof fn lemma_decimal_ends(n: nat, m: nat, x: Seq<char>, y: Seq<char>)
    requires
        x.len() > 0,
        y.len() > 0,
        !('0' <= x[0] <= '9'),
        !('0' <= y[0] <= '9'),
        decimal(n) + x == decimal(m) + y,
    ensures
        n == m,
        x == y,
{
    let (one, other) = (decimal(n) + x, decimal(m) + y);
    let (k, l) = (decimal(n).len() as int, decimal(m).len() as int);
    lemma_decimal_digits(n);
    lemma_decimal_digits(m);
    if k < l {
        assert(one[k] == x[0] && other[k] == decimal(m)[k]);
    }
    if l < k {
        assert(other[l] == y[0] && one[l] == decimal(n)[l]);
    }
    assert(one.take(k) == decimal(n) && other.take(k) == decimal(m));
    assert(one.skip(k) == x && other.skip(k) == y);
    law_decimal_is_injective(n, m);
}

/// Appends a number in decimal.
pub fn push_decimal(out: &mut String, n: usize)
    ensures
        final(out)@ == old(out)@ + decimal(n as nat),
    decreases n,
{
    if n >= 10 {
        push_decimal(out, n / 10);
    }
    let d: u8 = (n % 10) as u8;
    out.push((48 + d) as char);
    assert(out@ == old(out)@ + decimal(n as nat));
}

/// The texts one after another, with `separator` between each two neighbours.
pub open spec fn joined(parts: Seq<Seq<char>>, separator: Seq<char>) -> Seq<char>
    decreases parts.len(),
{
    if parts.len() == 0 {
        Seq::empty()
    } else {
        let front = parts.drop_last();
        if front.len() == 0 {
            parts.last()
        } else {
            joined(front, separator) + separator + parts.last()
        }
    }
}

/// Joins strings with a separator.
pub fn join(parts: &Vec<String>, separator: &str) -> (out: String)
    ensures
        out@ == joined(texts(parts@), separator@),
{
    let mut out = String::new();
    let ghost all = texts(parts@);
    for i in 0..parts.len()
        invariant
            all == texts(parts@),
            out@ == joined(all.take(i as int), separator@),
    {
        proof {
            assert(all.take(i + 1).drop_last() == all.take(i as int));
        }
        if i > 0 {
            out.append(separator);
        }
        out.append(parts[i].as_str());
    }
    assert(all.take(parts.len() as int) == all);
    out
}

/// The texts of a list of strings are the strings' own, one for one.
pub proof fn law_texts_are_those_of_the_strings(strings: Seq<String>)
    ensures
        texts(strings).len() == strings.len(),
        forall|i: int| 0 <= i < strings.len() ==> #[trigger] texts(strings)[i] == strings[i]@,
{
}

/// A text comes before every text that it begins.
pub proof fn law_prefix_comes_first(front: Seq<char>, c: char, rest: Seq<char>)
    ensures
        text_less(front, front + (seq![c] + rest)),
    decreases front.len(),
{
    let longer = front + (seq![c] + rest);
    if front.len() > 0 {
        law_prefix_comes_first(front.drop_first(), c, rest);
        assert(longer.drop_first() == front.drop_first() + (seq![c] + rest));
    }
}

/// The first character in which two texts differ decides which comes first.
pub proof fn law_first_difference_decides(
    front: Seq<char>,
    c: char,
    d: char,
    c_rest: Seq<char>,
    d_rest: Seq<char>,
)
    requires
        c < d,
    ensures
        text_less(front + (seq![c] + c_rest), front + (seq![d] + d_rest)),
    decreases front.len(),
{
    let (one, other) = (front + (seq![c] + c_rest), front + (seq![d] + d_rest));
    if front.len() > 0 {
        law_first_difference_decides(front.drop_first(), c, d, c_rest, d_rest);
        assert(one.drop_first() == front.drop_first() + (seq![c] + c_rest));
        assert(other.drop_first() == front.drop_first() + (seq![d] + d_rest));
    } else {
        assert(one[0] == c && other[0] == d);
    }
}

/// The number that decimal digits stand for.
pub open spec fn number_of(digits: Seq<char>) -> int
    decreases digits.len(),
{
    if digits.len() == 0 {
        0
    } else {
        10 * number_of(digits.drop_last()) + (digits.last() as int - '0' as int)
    }
}

/// A number in decimal is made of digits, stands for the number, and has no
/// leading zero.
pub proof fn law_decimal_is_read_back(n: nat)
    ensures
        number_of(decimal(n)) == n,
        forall|i: int| 0 <= i < decimal(n).len() ==> '0' <= #[trigger] decimal(n)[i] <= '9',
        decimal(n).len() > 0,
        decimal(n).len() > 1 ==> decimal(n)[0] != '0',
    decreases n,
{
    lemma_decimal_digits(n);
    if n < 10 {
        assert(decimal(n).drop_last() == Seq::<char>::empty());
        assert(number_of(decimal(n).drop_last()) == 0);
    } else {
        law_decimal_is_read_back(n / 10);
        assert(decimal(n).drop_last() == decimal(n / 10));
        assert(decimal(n)[0] == decimal(n / 10)[0]);
        if n / 10 < 10 {
            assert(decimal(n / 10) == seq![digit(n / 10)]);
            assert(digit(n / 10) != '0');
        } else {
            lemma_decimal_digits(n / 100);
            assert(decimal(n / 10).len() > 1);
        }
    }
}

/// Nothing joined is nothing, and one text joined is that text.
pub proof fn law_joining_few(part: Seq<char>, separator: Seq<char>)
    ensures
        joined(Seq::empty(), separator) == Seq::<char>::empty(),
        joined(seq![part], separator) == part,
{
    assert(seq![part].drop_last() == Seq::<Seq<char>>::empty());
}

/// Two lists joined one behind the other have one separator between them.
pub proof fn law_joining_concatenates(
    front: Seq<Seq<char>>,
    back: Seq<Seq<char>>,
    separator: Seq<char>,
)
    requires
        front.len() > 0,
        back.len() > 0,
    ensures
        joined(front + back, separator) == joined(front, separator) + separator + joined(
            back,
            separator,
        ),
    decreases back.len(),
{
    let all = front + back;
    assert(all.drop_last() == front + back.drop_last());
    if back.len() == 1 {
        assert(back.drop_last() == Seq::<Seq<char>>::empty());
        assert(all.drop_last() == front);
    } else {
        law_joining_concatenates(front, back.drop_last(), separator);
        assert(joined(all, separator) == joined(front, separator) + separator + joined(
            back,
            separator,
        ));
    }
}

/// Concatenation associates to the right.
pub(crate) broadcast proof fn lemma_add_associates(a: Seq<char>, b: Seq<char>, c: Seq<char>)
    ensures
        #[trigger] ((a + b) + c) == a + (b + c),
{
    assert((a + b) + c =~= a + (b + c));
}

/// The passage stands somewhere in the text.
pub open spec fn has_passage(s: Seq<char>, passage: Seq<char>) -> bool {
    exists|front: Seq<char>, back: Seq<char>| s == #[trigger] (front + passage + back)
}

/// The first passage stands in the text, and the second behind it.
pub open spec fn has_passages(s: Seq<char>, first: Seq<char>, second: Seq<char>) -> bool {
    exists|front: Seq<char>, middle: Seq<char>, back: Seq<char>|
        s == #[trigger] (front + first + middle + second + back)
}

pub(crate) proof fn lemma_passage(
    s: Seq<char>,
    front: Seq<char>,
    passage: Seq<char>,
    back: Seq<char>,
)
    requires
        s == front + (passage + back),
    ensures
        has_passage(s, passage),
{
    assert(s =~= front + passage + back);
}

/// What stands in a part stands in the whole.
pub(crate) proof fn lemma_passage_extends(
    front: Seq<char>,
    s: Seq<char>,
    back: Seq<char>,
    passage: Seq<char>,
)
    requires
        has_passage(s, passage),
    ensures
        has_passage(front + (s + back), passage),
{
    let (a, b) = choose|a: Seq<char>, b: Seq<char>| s == #[trigger] (a + passage + b);
    assert(front + (s + back) =~= (front + a) + passage + (b + back));
}

pub(crate) proof fn lemma_passages_extend(
    front: Seq<char>,
    s: Seq<char>,
    back: Seq<char>,
    first: Seq<char>,
    second: Seq<char>,
)
    requires
        has_passages(s, first, second),
    ensures
        has_passages(front + (s + back), first, second),
{
    let (a, m, b) = choose|a: Seq<char>, m: Seq<char>, b: Seq<char>|
        s == #[trigger] (a + first + m + second + b);
    assert(front + (s + back) =~= (front + a) + first + m + second + (b + back));
}


/// What a text begins and ends with.
pub(crate) proof fn lemma_begins_and_ends(s: Seq<char>, front: Seq<char>, back: Seq<char>)
    requires
        s == front + back,
    ensures
        front.is_prefix_of(s),
        back.is_suffix_of(s),
{
    assert(s.subrange(0, front.len() as int) =~= front);
    assert(s.subrange(s.len() - back.len(), s.len() as int) =~= back);
}


} // verus!
