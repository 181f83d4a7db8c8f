//! JSON text of small objects.
use vstd::prelude::*;

use crate::report::text_opt;
use crate::text::{text_less, texts};

verus! {

/// A hexadecimal digit, in lower case.
pub open spec fn hex_digit(d: nat) -> char {
    if d < 10 {
        (48 + d) as char
    } else {
        (87 + d) as char
    }
}

/// How one character is written inside a JSON string.
pub open spec fn json_char(c: char) -> Seq<char> {
    if c == '"' {
        seq!['\\', '"']
    } else if c == '\\' {
        seq!['\\', '\\']
    } else if c == '\u{8}' {
        seq!['\\', 'b']
    } else if c == '\u{c}' {
        seq!['\\', 'f']
    } else if c == '\n' {
        seq!['\\', 'n']
    } else if c == '\r' {
        seq!['\\', 'r']
    } else if c == '\t' {
        seq!['\\', 't']
    } else if ' ' > c {
        seq!['\\', 'u', '0', '0', hex_digit(c as nat / 16), hex_digit(c as nat % 16)]
    } else {
        seq![c]
    }
}

/// A text inside a JSON string.
pub open spec fn json_chars(s: Seq<char>) -> Seq<char>
    decreases s.len(),
{
    if s.len() == 0 {
        Seq::empty()
    } else {
        json_chars(s.drop_last()) + json_char(s.last())
    }
}

/// A text as a JSON string.
pub open spec fn json_string(s: Seq<char>) -> Seq<char> {
    seq!['"'] + json_chars(s) + seq!['"']
}

/// A JSON object with two members that hold strings, without white space.
pub open spec fn json_object(
    first_key: Seq<char>,
    first_value: Seq<char>,
    second_key: Seq<char>,
    second_value: Seq<char>,
) -> Seq<char> {
    seq!['{'] + json_string(first_key) + seq![':'] + json_string(first_value) + seq![',']
        + json_string(second_key) + seq![':'] + json_string(second_value) + seq!['}']
}

/// A text as a JSON string, or `null` where there is none.
pub open spec fn json_option(text: Option<Seq<char>>) -> Seq<char> {
    match text {
        Some(s) => json_string(s),
        None => "null"@,
    }
}

/// What follows the first text of a JSON array: the other texts, each behind a
/// comma, and the closing bracket.
pub open spec fn json_list_rest(list: Seq<Seq<char>>) -> Seq<char>
    decreases list.len(),
{
    if list.len() == 0 {
        seq![']']
    } else {
        seq![','] + json_string(list[0]) + json_list_rest(list.drop_first())
    }
}

/// A JSON array of texts, without white space.
pub open spec fn json_list(list: Seq<Seq<char>>) -> Seq<char> {
    if list.len() == 0 {
        seq!['[', ']']
    } else {
        seq!['['] + json_string(list[0]) + json_list_rest(list.drop_first())
    }
}

/// The error of the JSON serializer.
#[verifier::external_type_specification]
#[verifier::external_body]
pub struct ExJsonError(serde_json::Error);

/// `serde_json::to_string` of a `serde_json::Map` with two members that hold
/// strings. The members stand in the order of their keys; characters below the
/// space, the quote and the backslash are escaped, all others are written as
/// they are. Writing to memory does not fail.
#[verifier::external_body]
pub(crate) fn object_to_json(
    first_key: &str,
    first_value: &str,
    second_key: &str,
    second_value: &str,
) -> (json: Result<String, serde_json::Error>)
    requires
        text_less(first_key@, second_key@),
    ensures
        json is Ok,
        json->Ok_0@ == json_object(
            first_key@,
            first_value@,
            second_key@,
            second_value@,
        ),
{
    let mut object = serde_json::Map::new();
    object.insert(first_key.to_owned(), serde_json::Value::String(first_value.to_owned()));
    object.insert(second_key.to_owned(), serde_json::Value::String(second_value.to_owned()));
    serde_json::to_string(&object)
}

/// `serde_json::to_string` of a string: the string in double quotes, with the
/// characters below the space, the quote and the backslash escaped, and all
/// others as they are. Writing to memory does not fail.
#[verifier::external_body]
fn text_to_json(text: &str) -> (json: Result<String, serde_json::Error>)
    ensures
        json is Ok,
        json->Ok_0@ == json_string(text@),
{
    serde_json::to_string(text)
}

/// Appends a text as a JSON string.
pub fn push_json_string(out: &mut String, text: &str)
    ensures
        final(out)@ == old(out)@ + json_string(text@),
{
    out.append(text_to_json(text).unwrap().as_str());
}

/// Appends a text as a JSON string, or `null` where there is none.
pub fn push_json_option(out: &mut String, text: &Option<String>)
    ensures
        final(out)@ == old(out)@ + json_option(text_opt(*text)),
{
    match text {
        Some(s) => push_json_string(out, s.as_str()),
        None => out.append("null"),
    }
}

/// Appends texts as a JSON array.
pub fn push_json_list(out: &mut String, list: &Vec<String>)
    ensures
        final(out)@ == old(out)@ + json_list(texts(list@)),
{
    let ghost all = texts(list@);
    let ghost whole = out@ + json_list(all);
    out.push('[');
    if list.len() == 0 {
        out.push(']');
        assert(out@ == whole);
        return;
    }
    push_json_string(out, list[0].as_str());
    assert(all.skip(1) == all.drop_first());
    assert(out@ + json_list_rest(all.skip(1)) == whole);
    for i in 1..list.len()
        invariant
            all == texts(list@),
            out@ + json_list_rest(all.skip(i as int)) == whole,
    {
        let ghost before = out@;
        out.push(',');
        push_json_string(out, list[i].as_str());
        proof {
            assert(all.skip(i as int)[0] == list@[i as int]@);
            assert(all.skip(i as int).drop_first() == all.skip(i + 1));
            assert(out@ + json_list_rest(all.skip(i + 1)) == before + json_list_rest(
                all.skip(i as int),
            ));
        }
    }
    out.push(']');
    assert(all.skip(list.len() as int).len() == 0);
    assert(out@ == whole);
}

proof fn lemma_json_chars_concatenate(a: Seq<char>, b: Seq<char>)
    ensures
        json_chars(a + b) == json_chars(a) + json_chars(b),
    decreases b.len(),
{
    if b.len() == 0 {
        assert(a + b == a);
        assert(json_chars(a) + json_chars(b) == json_chars(a));
    } else {
        lemma_json_chars_concatenate(a, b.drop_last());
        assert((a + b).drop_last() == a + b.drop_last());
        assert(json_chars(a + b) == json_chars(a) + json_chars(b));
    }
}

proof fn lemma_json_chars_first(s: Seq<char>)
    requires
        s.len() > 0,
    ensures
        json_chars(s) == json_char(s[0]) + json_chars(s.drop_first()),
{
    let head = seq![s[0]];
    assert(s == head + s.drop_first());
    lemma_json_chars_concatenate(head, s.drop_first());
    assert(head.drop_last() == Seq::<char>::empty());
    assert(json_chars(head.drop_last()) + json_char(s[0]) == json_char(s[0]));
}

/// The first characters of an escape tell which character it stands for.
proof fn lemma_json_char_is_a_code(c: char, d: char, c_rest: Seq<char>, d_rest: Seq<char>)
    requires
        json_char(c) + c_rest == json_char(d) + d_rest,
    ensures
        c == d,
{
    let (a, b) = (json_char(c), json_char(d));
    let whole = a + c_rest;
    assert(whole[0] == a[0] && whole[0] == b[0]);
    if a.len() > 1 {
        assert(whole[1] == a[1]);
    }
    if b.len() > 1 {
        assert(whole[1] == b[1]);
    }
    if a.len() == 6 && b.len() == 6 {
        assert(whole[4] == a[4] && whole[4] == b[4]);
        assert(whole[5] == a[5] && whole[5] == b[5]);
        assert(c as nat / 16 == d as nat / 16);
        assert(c as nat % 16 == d as nat % 16);
    }
}

/// Writing a text into a JSON string loses nothing: different texts stay
/// different.
pub proof fn law_json_chars_are_injective(s: Seq<char>, t: Seq<char>)
    requires
        json_chars(s) == json_chars(t),
    ensures
        s == t,
    decreases s.len(),
{
    if s.len() > 0 {
        lemma_json_chars_first(s);
        assert(json_chars(s).len() > 0);
    }
    if t.len() > 0 {
        lemma_json_chars_first(t);
        assert(json_chars(t).len() > 0);
    }
    if s.len() == 0 {
        assert(s == t);
    } else {
        let (s_rest, t_rest) = (json_chars(s.drop_first()), json_chars(t.drop_first()));
        lemma_json_char_is_a_code(s[0], t[0], s_rest, t_rest);
        let n = json_char(s[0]).len() as int;
        assert(json_chars(s).skip(n) == s_rest);
        assert(json_chars(t).skip(n) == t_rest);
        law_json_chars_are_injective(s.drop_first(), t.drop_first());
        assert(s == seq![s[0]] + s.drop_first());
        assert(t == seq![t[0]] + t.drop_first());
    }
}

/// The text holds no control character, and so no line ending.
pub open spec fn is_printable(s: Seq<char>) -> bool {
    forall|i: int| 0 <= i < s.len() ==> ' ' <= #[trigger] s[i]
}

proof fn lemma_json_char_is_printable(c: char)
    ensures
        is_printable(json_char(c)),
{
    let (high, low) = (c as nat / 16, c as nat % 16);
    if ' ' > c {
        assert(high < 2 && low < 16);
        assert(' ' <= hex_digit(high));
        assert(' ' <= hex_digit(low));
    }
    let s = json_char(c);
    assert(s.len() == 1 || s.len() == 2 || s.len() == 6);
}

/// Printable texts one after the other are printable.
pub(crate) broadcast proof fn lemma_printable_concatenates(a: Seq<char>, b: Seq<char>)
    requires
        is_printable(a),
        is_printable(b),
    ensures
        #[trigger] is_printable(a + b),
{
    let s = a + b;
    assert forall|i: int| 0 <= i < s.len() implies ' ' <= #[trigger] s[i] by {
        if i < a.len() {
            assert(s[i] == a[i]);
        } else {
            assert(s[i] == b[i - a.len()]);
        }
    }
}

/// Text inside a JSON string holds no control character, so it stays on one
/// line.
pub proof fn law_json_chars_hold_no_control_character(s: Seq<char>)
    ensures
        is_printable(json_chars(s)),
    decreases s.len(),
{
    if s.len() > 0 {
        law_json_chars_hold_no_control_character(s.drop_last());
        lemma_json_char_is_printable(s.last());
        lemma_printable_concatenates(json_chars(s.drop_last()), json_char(s.last()));
    }
}

/// A JSON string holds no control character.
pub(crate) proof fn lemma_json_string_is_printable(s: Seq<char>)
    ensures
        is_printable(json_string(s)),
{
    law_json_chars_hold_no_control_character(s);
    lemma_printable_concatenates(seq!['"'], json_chars(s));
    lemma_printable_concatenates(seq!['"'] + json_chars(s), seq!['"']);
}

pub(crate) proof fn lemma_json_option_is_printable(text: Option<Seq<char>>)
    ensures
        is_printable(json_option(text)),
{
    reveal_strlit("null");
    if text is Some {
        lemma_json_string_is_printable(text->0);
    }
}

proof fn lemma_json_list_rest_is_printable(list: Seq<Seq<char>>)
    ensures
        is_printable(json_list_rest(list)),
    decreases list.len(),
{
    if list.len() > 0 {
        let first = json_string(list[0]);
        lemma_json_string_is_printable(list[0]);
        lemma_json_list_rest_is_printable(list.drop_first());
        lemma_printable_concatenates(seq![','], first);
        lemma_printable_concatenates(seq![','] + first, json_list_rest(list.drop_first()));
    }
}

pub(crate) proof fn lemma_json_list_is_printable(list: Seq<Seq<char>>)
    ensures
        is_printable(json_list(list)),
{
    if list.len() > 0 {
        let first = json_string(list[0]);
        lemma_json_string_is_printable(list[0]);
        lemma_json_list_rest_is_printable(list.drop_first());
        lemma_printable_concatenates(seq!['['], first);
        lemma_printable_concatenates(seq!['['] + first, json_list_rest(list.drop_first()));
    }
}

/// Behind a common beginning, equal texts go on equally.
pub(crate) proof fn lemma_same_rest(front: Seq<char>, x: Seq<char>, y: Seq<char>)
    requires
        front + x == front + y,
    ensures
        x == y,
{
    let n = front.len() as int;
    assert((front + x).skip(n) == x);
    assert((front + y).skip(n) == y);
}

/// Inside a JSON string, the first quote that is not escaped ends it.
proof fn lemma_json_chars_end(s: Seq<char>, t: Seq<char>, x: Seq<char>, y: Seq<char>)
    requires
        json_chars(s) + (seq!['"'] + x) == json_chars(t) + (seq!['"'] + y),
    ensures
        s == t,
        x == y,
    decreases s.len(),
{
    let (xs, ys) = (seq!['"'] + x, seq!['"'] + y);
    let (one, other) = (json_chars(s) + xs, json_chars(t) + ys);
    if s.len() > 0 {
        lemma_json_chars_first(s);
        assert(one[0] == json_char(s[0])[0]);
    } else {
        assert(one[0] == '"');
    }
    if t.len() > 0 {
        lemma_json_chars_first(t);
        assert(other[0] == json_char(t[0])[0]);
    } else {
        assert(other[0] == '"');
    }
    if s.len() > 0 {
        let s_rest = json_chars(s.drop_first()) + xs;
        let t_rest = json_chars(t.drop_first()) + ys;
        assert(one == json_char(s[0]) + s_rest);
        assert(other == json_char(t[0]) + t_rest);
        lemma_json_char_is_a_code(s[0], t[0], s_rest, t_rest);
        lemma_same_rest(json_char(s[0]), s_rest, t_rest);
        lemma_json_chars_end(s.drop_first(), t.drop_first(), x, y);
        assert(s == seq![s[0]] + s.drop_first());
        assert(t == seq![t[0]] + t.drop_first());
    } else {
        assert(s == t);
        assert(one == xs && other == ys);
        lemma_same_rest(seq!['"'], x, y);
    }
}

/// Texts that begin with a JSON string begin with the same one where they are
/// equal, and go on equally.
pub(crate) proof fn lemma_json_string_ends(s: Seq<char>, t: Seq<char>, x: Seq<char>, y: Seq<char>)
    requires
        json_string(s) + x == json_string(t) + y,
    ensures
        s == t,
        x == y,
{
    let s_rest = json_chars(s) + (seq!['"'] + x);
    let t_rest = json_chars(t) + (seq!['"'] + y);
    assert(json_string(s) + x == seq!['"'] + s_rest);
    assert(json_string(t) + y == seq!['"'] + t_rest);
    lemma_same_rest(seq!['"'], s_rest, t_rest);
    lemma_json_chars_end(s, t, x, y);
}

pub(crate) proof fn lemma_json_option_ends(
    s: Option<Seq<char>>,
    t: Option<Seq<char>>,
    x: Seq<char>,
    y: Seq<char>,
)
    requires
        json_option(s) + x == json_option(t) + y,
    ensures
        s == t,
        x == y,
{
    reveal_strlit("null");
    let (one, other) = (json_option(s) + x, json_option(t) + y);
    if s is Some {
        assert(one[0] == '"');
    } else {
        assert(one[0] == 'n');
    }
    if t is Some {
        assert(other[0] == '"');
    } else {
        assert(other[0] == 'n');
    }
    if s is Some {
        lemma_json_string_ends(s->0, t->0, x, y);
    } else {
        lemma_same_rest("null"@, x, y);
    }
}

proof fn lemma_json_list_rest_ends(
    s: Seq<Seq<char>>,
    t: Seq<Seq<char>>,
    x: Seq<char>,
    y: Seq<char>,
)
    requires
        json_list_rest(s) + x == json_list_rest(t) + y,
    ensures
        s == t,
        x == y,
    decreases s.len(),
{
    let (one, other) = (json_list_rest(s) + x, json_list_rest(t) + y);
    if s.len() > 0 {
        assert(one[0] == ',');
    } else {
        assert(one[0] == ']');
    }
    if t.len() > 0 {
        assert(other[0] == ',');
    } else {
        assert(other[0] == ']');
    }
    if s.len() > 0 {
        let s_rest = json_list_rest(s.drop_first()) + x;
        let t_rest = json_list_rest(t.drop_first()) + y;
        assert(one == seq![','] + (json_string(s[0]) + s_rest));
        assert(other == seq![','] + (json_string(t[0]) + t_rest));
        lemma_same_rest(seq![','], json_string(s[0]) + s_rest, json_string(t[0]) + t_rest);
        lemma_json_string_ends(s[0], t[0], s_rest, t_rest);
        lemma_json_list_rest_ends(s.drop_first(), t.drop_first(), x, y);
        assert(s == seq![s[0]] + s.drop_first());
        assert(t == seq![t[0]] + t.drop_first());
    } else {
        assert(s == t);
        lemma_same_rest(seq![']'], x, y);
    }
}

pub(crate) proof fn lemma_json_list_ends(
    s: Seq<Seq<char>>,
    t: Seq<Seq<char>>,
    x: Seq<char>,
    y: Seq<char>,
)
    requires
        json_list(s) + x == json_list(t) + y,
    ensures
        s == t,
        x == y,
{
    let (one, other) = (json_list(s) + x, json_list(t) + y);
    if s.len() > 0 {
        assert(one[1] == '"');
    } else {
        assert(one[1] == ']');
    }
    if t.len() > 0 {
        assert(other[1] == '"');
    } else {
        assert(other[1] == ']');
    }
    if s.len() > 0 {
        let s_rest = json_list_rest(s.drop_first()) + x;
        let t_rest = json_list_rest(t.drop_first()) + y;
        assert(one == seq!['['] + (json_string(s[0]) + s_rest));
        assert(other == seq!['['] + (json_string(t[0]) + t_rest));
        lemma_same_rest(seq!['['], json_string(s[0]) + s_rest, json_string(t[0]) + t_rest);
        lemma_json_string_ends(s[0], t[0], s_rest, t_rest);
        lemma_json_list_rest_ends(s.drop_first(), t.drop_first(), x, y);
        assert(s == seq![s[0]] + s.drop_first());
        assert(t == seq![t[0]] + t.drop_first());
    } else {
        assert(s == t);
        lemma_same_rest(seq!['[', ']'], x, y);
    }
}

/// An array of no texts is a pair of brackets; a text added to an array stands
/// before the closing bracket, behind a comma where it is not the first.
pub proof fn law_json_list_grows_at_its_end(list: Seq<Seq<char>>, text: Seq<char>)
    ensures
        json_list(Seq::empty()) == seq!['[', ']'],
        json_list(seq![text]) == seq!['['] + json_string(text) + seq![']'],
        list.len() > 0 ==> json_list(list.push(text)) == json_list(list).drop_last() + seq![',']
            + json_string(text) + seq![']'],
        json_list(list).last() == ']',
{
    let more = list.push(text);
    assert(seq![text].drop_first() =~= Seq::<Seq<char>>::empty());
    assert(json_list(seq![text]) =~= seq!['['] + json_string(text) + seq![']']);
    if list.len() > 0 {
        let rest = list.drop_first();
        lemma_json_list_rest_grows(rest, text);
        assert(more.drop_first() =~= rest.push(text));
        assert(json_list(list).last() == json_list_rest(rest).last());
        assert(json_list(list).drop_last() =~= seq!['['] + json_string(list[0]) + json_list_rest(
            rest,
        ).drop_last());
        assert(json_list(more) =~= json_list(list).drop_last() + seq![','] + json_string(text)
            + seq![']']);
    }
}

proof fn lemma_json_list_rest_grows(list: Seq<Seq<char>>, text: Seq<char>)
    ensures
        json_list_rest(list).len() > 0,
        json_list_rest(list).last() == ']',
        json_list_rest(list.push(text)) == json_list_rest(list).drop_last() + seq![',']
            + json_string(text) + seq![']'],
    decreases list.len(),
{
    let more = list.push(text);
    if list.len() == 0 {
        assert(more.drop_first() =~= list);
        assert(more[0] == text);
        assert(json_list_rest(more) =~= json_list_rest(list).drop_last() + seq![','] + json_string(
            text,
        ) + seq![']']);
    } else {
        let rest = list.drop_first();
        lemma_json_list_rest_grows(rest, text);
        assert(more.drop_first() =~= rest.push(text));
        assert(json_list_rest(list).drop_last() =~= seq![','] + json_string(list[0])
            + json_list_rest(rest).drop_last());
        assert(json_list_rest(more) =~= json_list_rest(list).drop_last() + seq![','] + json_string(
            text,
        ) + seq![']']);
    }
}

/// A text that is there is written as itself, and one that is not as `null`.
pub proof fn law_json_option_writes_the_text(text: Seq<char>)
    ensures
        json_option(Some(text)) == json_string(text),
        json_option(None) == seq!['n', 'u', 'l', 'l'],
{
    reveal_strlit("null");
    assert("null"@ =~= seq!['n', 'u', 'l', 'l']);
}


} // verus!
