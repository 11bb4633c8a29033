//! Character classification, string comparison and decimal parsing helpers
//! used by the parser and the emitter.

use vstd::prelude::*;
use vstd::string::StrSliceExecFns;

verus! {

/// An ASCII upper-case letter, `'A'` through `'Z'`.
pub open spec fn is_ascii_upper(c: char) -> bool {
    65 <= c as u32 && c as u32 <= 90
}

/// An ASCII lower-case letter, `'a'` through `'z'`.
pub open spec fn is_ascii_lower(c: char) -> bool {
    97 <= c as u32 && c as u32 <= 122
}

/// An ASCII decimal digit.
pub open spec fn is_ascii_digit(c: char) -> bool {
    48 <= c as u32 && c as u32 <= 57
}

/// The ASCII lower-case counterpart of a character: upper-case letters are
/// shifted into the lower-case range, all other characters are unchanged.
pub open spec fn lower_char(c: char) -> char {
    if is_ascii_upper(c) {
        (((c as u32) + 32) as u8) as char
    } else {
        c
    }
}

/// The ASCII upper-case counterpart of a character.
pub open spec fn upper_char(c: char) -> char {
    if is_ascii_lower(c) {
        (((c as u32) - 32) as u8) as char
    } else {
        c
    }
}

/// Executable form of `lower_char`.
pub fn to_lower_char(c: char) -> (r: char)
    ensures
        r == lower_char(c),
{
    let cu = c as u32;
    if 65 <= cu && cu <= 90 {
        ((cu + 32) as u8) as char
    } else {
        c
    }
}

/// Executable form of `upper_char`.
pub fn to_upper_char(c: char) -> (r: char)
    ensures
        r == upper_char(c),
{
    let cu = c as u32;
    if 97 <= cu && cu <= 122 {
        ((cu - 32) as u8) as char
    } else {
        c
    }
}

/// Character-wise string equality, decided executably.
pub fn str_eq(a: &str, b: &str) -> (r: bool)
    ensures
        r == (a@ == b@),
{
    let alen = a.unicode_len();
    let blen = b.unicode_len();
    if alen != blen {
        return false;
    }
    let mut i: usize = 0;
    while i < alen
        invariant
            alen == a@.len(),
            blen == b@.len(),
            alen == blen,
            i <= alen,
            forall|j: int| 0 <= j < i ==> a@[j] == b@[j],
        decreases alen - i,
    {
        if a.get_char(i) != b.get_char(i) {
            return false;
        }
        i += 1;
    }
    proof {
        assert(a@ =~= b@);
    }
    true
}

/// Relies on `String::push`: appends the one character to the end of the
/// string.
#[verifier::external_body]
pub(crate) fn push_char(s: &mut String, c: char)
    ensures
        final(s)@ == old(s)@.push(c),
{
    s.push(c);
}

/// The numeric value of a sequence of decimal digit characters, read most
/// significant first.
pub open spec fn dec_val(s: Seq<char>) -> nat
    decreases s.len(),
{
    if s.len() == 0 {
        0
    } else {
        dec_val(s.drop_last()) * 10 + (((s.last() as u32) - 48) as nat)
    }
}

/// A non-empty, all-digit sequence.
pub open spec fn all_digits(s: Seq<char>) -> bool {
    s.len() > 0 && forall|i: int| 0 <= i < s.len() ==> is_ascii_digit(#[trigger] s[i])
}

/// The digit part of a decimal literal: everything after an optional
/// leading plus sign.
pub open spec fn dec_body(s: Seq<char>) -> Seq<char> {
    if s.len() > 0 && s[0] == '+' {
        s.drop_first()
    } else {
        s
    }
}

/// What `str::parse::<u32>` returns: the value of an optional plus sign
/// followed by decimal digits, if it is in range.
pub open spec fn spec_parse_u32(s: Seq<char>) -> Option<u32> {
    let b = dec_body(s);
    if all_digits(b) && dec_val(b) <= u32::MAX {
        Some(dec_val(b) as u32)
    } else {
        None
    }
}

/// A digit appended on the right can only grow the value.
proof fn lemma_dec_val_take_le(s: Seq<char>, k: int)
    requires
        0 <= k <= s.len(),
    ensures
        dec_val(s.take(k)) <= dec_val(s),
    decreases s.len() - k,
{
    if k == s.len() {
        assert(s.take(k) =~= s);
    } else {
        lemma_dec_val_take_le(s, k + 1);
        assert(s.take(k + 1).drop_last() =~= s.take(k));
        assert(dec_val(s.take(k)) <= dec_val(s.take(k + 1)));
    }
}

/// Parses a `u32` from decimal text, as `str::parse::<u32>` does for
/// inputs without a minus sign: an optional `+`, then one or more digits,
/// rejected when out of range.
pub fn parse_u32(s: &str) -> (r: Option<u32>)
    ensures
        r == spec_parse_u32(s@),
{
    let len = s.unicode_len();
    let start: usize = if len > 0 && s.get_char(0) == '+' {
        1
    } else {
        0
    };
    let ghost b = dec_body(s@);
    proof {
        assert(b =~= s@.skip(start as int));
    }
    if len == start {
        return None;
    }
    let mut acc: u64 = 0;
    let mut i: usize = start;
    while i < len
        invariant
            start <= i <= len,
            len == s@.len(),
            start < len,
            b == dec_body(s@),
            b =~= s@.skip(start as int),
            acc <= u32::MAX,
            acc == dec_val(b.take(i - start)),
            forall|j: int| 0 <= j < i - start ==> is_ascii_digit(#[trigger] b[j]),
        decreases len - i,
    {
        let c = s.get_char(i);
        let cu = c as u32;
        if !(48 <= cu && cu <= 57) {
            assert(b[i - start] == c);
            return None;
        }
        let d: u64 = (cu - 48) as u64;
        acc = acc * 10 + d;
        proof {
            let k = i - start + 1;
            assert(b.take(k).drop_last() =~= b.take(k - 1));
            assert(b.take(k).last() == b[k - 1]);
            assert(b[k - 1] == s@[i as int]);
            assert(acc == dec_val(b.take(k)));
        }
        if acc > 0xFFFF_FFFF {
            proof {
                lemma_dec_val_take_le(b, i - start + 1);
                assert(dec_val(b) > u32::MAX);
            }
            return None;
        }
        i += 1;
    }
    proof {
        assert(b.take(len - start) =~= b);
        assert(all_digits(b));
    }
    Some(acc as u32)
}

} // verus!
