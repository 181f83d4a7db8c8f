//! Timestamps.
use vstd::prelude::*;
use vstd::utf8::{decode_utf8, encode_utf8, is_ascii_chars, is_char_boundary};

use crate::escape::{escaped, law_escaped_keeps_plain_text};

verus! {

/// The characters that a timestamp is made of.
pub open spec fn is_timestamp_char(c: char) -> bool {
    '0' <= c <= '9' || c == '+' || c == '-' || c == '.' || c == ':' || c == 'T'
}

/// The shape that every timestamp has: at least date, time and offset, and an
/// offset of zero at the end.
pub open spec fn is_timestamp(s: Seq<char>) -> bool {
    &&& s.len() >= 25
    &&& forall|i: int| 0 <= i < s.len() ==> is_timestamp_char(#[trigger] s[i])
    &&& s.skip(s.len() - 6) == "+00:00"@
}

/// `chrono::Utc::now` written by `chrono::DateTime::to_rfc3339`: the current
/// time. Which time it is depends on the clock of the machine, so only the
/// shape of the text is stated. The clock has to stand after the Unix epoch.
#[verifier::external_body]
pub(crate) fn now_iso() -> (now: String)
    ensures
        is_timestamp(now@),
{
    chrono::Utc::now().to_rfc3339()
}

/// A timestamp needs no escaping.
pub proof fn law_timestamp_needs_no_escaping(s: Seq<char>)
    requires
        is_timestamp(s),
    ensures
        escaped(s) == s,
{
    assert forall|i: int| 0 <= i < s.len() implies #[trigger] s[i] != '&' && s[i] != '<' && s[i]
        != '>' && s[i] != '"' by {
        assert(is_timestamp_char(s[i]));
    }
    law_escaped_keeps_plain_text(s);
}

/// The date part of a timestamp: what its first ten bytes hold, or all of it
/// where the tenth byte is not the end of a character.
pub open spec fn date_of(stamp: Seq<char>) -> Seq<char> {
    if is_char_boundary(encode_utf8(stamp), 10) {
        decode_utf8(encode_utf8(stamp).subrange(0, 10))
    } else {
        stamp
    }
}

/// Cuts the date out of a timestamp.
pub fn date_part(stamp: &str) -> (date: &str)
    ensures
        date@ == date_of(stamp@),
{
    if stamp.is_char_boundary(10) {
        let date = stamp.split_at(10).0;
        proof {
            vstd::utf8::encode_utf8_decode_utf8(date@);
        }
        date
    } else {
        stamp
    }
}

/// The date of a timestamp in ASCII is its first ten characters; a shorter
/// text is its own date.
pub proof fn law_date_of_ascii(stamp: Seq<char>)
    requires
        is_ascii_chars(stamp),
    ensures
        date_of(stamp) == if stamp.len() >= 10 {
            stamp.take(10)
        } else {
            stamp
        },
{
    let bytes = encode_utf8(stamp);
    vstd::utf8::is_ascii_chars_encode_utf8(stamp);
    vstd::utf8::encode_utf8_valid_utf8(stamp);
    if stamp.len() >= 10 {
        let date = stamp.take(10);
        assert(is_ascii_chars(date));
        vstd::utf8::is_ascii_chars_encode_utf8(date);
        vstd::utf8::encode_utf8_decode_utf8(date);
        assert forall|i: int| 0 <= i < 10 implies bytes.subrange(0, 10)[i] == encode_utf8(date)[i] by {
            assert(date[i] == stamp[i]);
        }
        assert(bytes.subrange(0, 10) == encode_utf8(date));
        if stamp.len() == 10 {
            vstd::utf8::is_char_boundary_start_end_of_seq(bytes);
        } else {
            assert('\0' <= stamp[10] <= '\u{7f}');
            assert(bytes[10] == stamp[10] as u8);
            vstd::utf8::is_char_boundary_iff_not_is_continuation_byte(bytes, 10);
        }
    } else {
        assert(!is_char_boundary(bytes, 10));
    }
}

/// Behind each character of a text its bytes have a boundary.
proof fn lemma_boundary_behind(front: Seq<char>, back: Seq<char>)
    ensures
        encode_utf8(front + back) == encode_utf8(front) + encode_utf8(back),
        is_char_boundary(encode_utf8(front + back), encode_utf8(front).len() as int),
    decreases front.len(),
{
    let whole = front + back;
    let bytes = encode_utf8(whole);
    vstd::utf8::encode_utf8_valid_utf8(whole);
    if front.len() == 0 {
        assert(whole =~= back);
        assert(bytes =~= encode_utf8(front) + encode_utf8(back));
    } else {
        let rest = front.drop_first();
        lemma_boundary_behind(rest, back);
        assert(whole.drop_first() =~= rest + back);
        vstd::utf8::encode_utf8_first_scalar(whole);
        assert(bytes =~= encode_utf8(front) + encode_utf8(back));
        assert(vstd::utf8::pop_first_scalar(bytes) =~= encode_utf8(rest + back));
    }
}

/// Where the first ten bytes of a timestamp are whole characters, these are its
/// date.
pub proof fn law_date_is_the_first_ten_bytes(date: Seq<char>, rest: Seq<char>)
    requires
        encode_utf8(date).len() == 10,
    ensures
        date_of(date + rest) == date,
{
    let bytes = encode_utf8(date + rest);
    lemma_boundary_behind(date, rest);
    assert(bytes.subrange(0, 10) =~= encode_utf8(date));
    vstd::utf8::encode_utf8_decode_utf8(date);
}

/// Where no beginning of a timestamp takes ten bytes, it is its own date.
pub proof fn law_other_text_is_its_own_date(stamp: Seq<char>)
    requires
        forall|k: int| 0 <= k <= stamp.len() ==> encode_utf8(#[trigger] stamp.take(k)).len() != 10,
    ensures
        date_of(stamp) == stamp,
{
    let bytes = encode_utf8(stamp);
    vstd::utf8::encode_utf8_valid_utf8(stamp);
    if is_char_boundary(bytes, 10) {
        let (front, back) = (bytes.subrange(0, 10), bytes.subrange(10, bytes.len() as int));
        vstd::utf8::valid_utf8_split(bytes, 10);
        vstd::utf8::decode_utf8_split(bytes, 10);
        vstd::utf8::decode_utf8_encode_utf8(front);
        vstd::utf8::encode_utf8_decode_utf8(stamp);
        let date = decode_utf8(front);
        assert(stamp =~= date + decode_utf8(back));
        assert(stamp.take(date.len() as int) =~= date);
        lemma_boundary_is_inside(bytes, 10);
    }
}

proof fn lemma_boundary_is_inside(bytes: Seq<u8>, index: int)
    requires
        vstd::utf8::valid_utf8(bytes),
        is_char_boundary(bytes, index),
    ensures
        0 <= index <= bytes.len(),
{
}

} // verus!
