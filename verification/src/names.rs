//! Identifier mangling: `to_snake` for value and method names, `to_camel`
//! for type names.
//!
//! Both functions are total and ASCII-based: `to_snake` inserts an
//! underscore before every upper-case letter that is not the first
//! character and lower-cases it; `to_camel` drops underscores and
//! upper-cases the character that follows each run of them, as well as the
//! first character.  Cross-references in the emitted artifact resolve
//! because the mapping is deterministic.

use vstd::prelude::*;
use vstd::string::StrSliceExecFns;
use crate::text::{is_ascii_lower, is_ascii_upper, lower_char, upper_char, push_char,
    to_lower_char, to_upper_char};

verus! {

/// The snake-case image of `s`, with `first` telling whether the next
/// character is still the first of the identifier (no separator before it).
pub open spec fn snake_rec(s: Seq<char>, first: bool) -> Seq<char>
    decreases s.len(),
{
    if s.len() == 0 {
        Seq::empty()
    } else {
        let head = if is_ascii_upper(s[0]) {
            if first {
                seq![lower_char(s[0])]
            } else {
                seq!['_', lower_char(s[0])]
            }
        } else {
            seq![s[0]]
        };
        head + snake_rec(s.drop_first(), false)
    }
}

/// The snake-case image of an identifier.
pub open spec fn spec_snake(s: Seq<char>) -> Seq<char> {
    snake_rec(s, true)
}

/// The camel-case image of `s`, with `up` telling whether the next
/// non-underscore character starts a word and is upper-cased.
pub open spec fn camel_rec(s: Seq<char>, up: bool) -> Seq<char>
    decreases s.len(),
{
    if s.len() == 0 {
        Seq::empty()
    } else if s[0] == '_' {
        camel_rec(s.drop_first(), true)
    } else {
        seq![if up {
            upper_char(s[0])
        } else {
            s[0]
        }] + camel_rec(s.drop_first(), false)
    }
}

/// The camel-case image of an identifier.
pub open spec fn spec_camel(s: Seq<char>) -> Seq<char> {
    camel_rec(s, true)
}

/// Converts an identifier to snake case.
pub fn to_snake(s: &str) -> (r: String)
    ensures
        r@ == spec_snake(s@),
{
    let len = s.unicode_len();
    let mut out = String::new();
    let mut i: usize = 0;
    proof {
        assert(s@.skip(0) =~= s@);
        assert(out@ + snake_rec(s@, true) =~= snake_rec(s@, true));
    }
    while i < len
        invariant
            len == s@.len(),
            i <= len,
            out@ + snake_rec(s@.skip(i as int), i == 0) == spec_snake(s@),
        decreases len - i,
    {
        let ghost pre = out@;
        let ghost rest = s@.skip(i as int);
        proof {
            assert(rest[0] == s@[i as int]);
            assert(rest.drop_first() =~= s@.skip(i + 1));
        }
        let c = s.get_char(i);
        let cu = c as u32;
        if 65 <= cu && cu <= 90 {
            if i != 0 {
                push_char(&mut out, '_');
            }
            push_char(&mut out, to_lower_char(c));
        } else {
            push_char(&mut out, c);
        }
        proof {
            let head = if is_ascii_upper(c) {
                if i == 0 {
                    seq![lower_char(c)]
                } else {
                    seq!['_', lower_char(c)]
                }
            } else {
                seq![c]
            };
            assert(out@ =~= pre + head);
            assert(snake_rec(rest, i == 0) == head + snake_rec(rest.drop_first(), false));
            assert(out@ + snake_rec(s@.skip(i + 1), false) =~= pre + snake_rec(rest, i == 0));
        }
        i += 1;
    }
    proof {
        assert(s@.skip(len as int) =~= Seq::<char>::empty());
        assert(out@ =~= out@ + snake_rec(s@.skip(len as int), len == 0));
    }
    out
}

/// Converts an identifier to capitalized camel case.
pub fn to_camel(s: &str) -> (r: String)
    ensures
        r@ == spec_camel(s@),
{
    let len = s.unicode_len();
    let mut out = String::new();
    let mut up = true;
    let mut i: usize = 0;
    proof {
        assert(s@.skip(0) =~= s@);
        assert(out@ + camel_rec(s@, true) =~= camel_rec(s@, true));
    }
    while i < len
        invariant
            len == s@.len(),
            i <= len,
            out@ + camel_rec(s@.skip(i as int), up) == spec_camel(s@),
        decreases len - i,
    {
        let ghost pre = out@;
        let ghost rest = s@.skip(i as int);
        let ghost old_up = up;
        proof {
            assert(rest[0] == s@[i as int]);
            assert(rest.drop_first() =~= s@.skip(i + 1));
        }
        let c = s.get_char(i);
        if c == '_' {
            up = true;
            proof {
                assert(camel_rec(rest, old_up) == camel_rec(rest.drop_first(), true));
            }
        } else {
            if up {
                push_char(&mut out, to_upper_char(c));
            } else {
                push_char(&mut out, c);
            }
            up = false;
            proof {
                let head = seq![if old_up {
                    upper_char(c)
                } else {
                    c
                }];
                assert(out@ =~= pre + head);
                assert(camel_rec(rest, old_up) == head + camel_rec(rest.drop_first(), false));
                assert(out@ + camel_rec(s@.skip(i + 1), false) =~= pre + camel_rec(rest, old_up));
            }
        }
        i += 1;
    }
    proof {
        assert(s@.skip(len as int) =~= Seq::<char>::empty());
        assert(out@ =~= out@ + camel_rec(s@.skip(len as int), up));
    }
    out
}

/// Every underscore has a successor character, and that successor is an
/// ASCII lower-case letter.
pub open spec fn underscores_followed(s: Seq<char>) -> bool {
    forall|i: int|
        0 <= i < s.len() && #[trigger] s[i] == '_' ==> i + 1 < s.len() && is_ascii_lower(s[i + 1])
}

/// An identifier on which the mangling pair is stable: underscores are
/// internal separators followed by a lower-case letter, and the identifier
/// does not start with one.
pub open spec fn mangle_safe(s: Seq<char>) -> bool {
    underscores_followed(s) && (s.len() > 0 ==> s[0] != '_')
}

proof fn lemma_case_maps(l: char)
    requires
        is_ascii_lower(l),
    ensures
        is_ascii_upper(upper_char(l)),
        lower_char(upper_char(l)) == l,
{
}

proof fn lemma_underscores_followed_tail(t: Seq<char>)
    requires
        underscores_followed(t),
        t.len() > 0,
    ensures
        underscores_followed(t.drop_first()),
{
    let t1 = t.drop_first();
    assert forall|i: int| 0 <= i < t1.len() && #[trigger] t1[i] == '_' implies i + 1 < t1.len()
        && is_ascii_lower(t1[i + 1]) by {
        assert(t[i + 1] == t1[i]);
        assert(t1[i + 1] == t[i + 2]);
    }
}

/// Snaking a camel image agrees with snaking the identifier itself, away
/// from the start of the identifier.
proof fn lemma_snake_of_camel_rec(t: Seq<char>)
    requires
        underscores_followed(t),
    ensures
        snake_rec(camel_rec(t, false), false) == snake_rec(t, false),
    decreases t.len(),
{
    if t.len() == 0 {
    } else if t[0] == '_' {
        let l = t[1];
        let t1 = t.drop_first();
        let t2 = t1.drop_first();
        lemma_underscores_followed_tail(t);
        lemma_underscores_followed_tail(t1);
        lemma_snake_of_camel_rec(t2);
        lemma_case_maps(l);
        let u = upper_char(l);
        assert(t1[0] == l);
        assert(camel_rec(t, false) == camel_rec(t1, true));
        assert(camel_rec(t1, true) == seq![u] + camel_rec(t2, false));
        let x = camel_rec(t2, false);
        let su = seq![u] + x;
        assert(su[0] == u);
        assert(su.len() > 0);
        assert(su.drop_first() =~= x);
        assert(snake_rec(su, false) == seq!['_', lower_char(u)] + snake_rec(x, false));
        assert(snake_rec(t, false) == seq!['_'] + snake_rec(t1, false));
        assert(!is_ascii_upper(l));
        assert(snake_rec(t1, false) == seq![l] + snake_rec(t2, false));
        assert(seq!['_', l] + snake_rec(t2, false) =~= seq!['_'] + (seq![l] + snake_rec(t2, false)));
    } else {
        let t1 = t.drop_first();
        lemma_underscores_followed_tail(t);
        lemma_snake_of_camel_rec(t1);
        let c = t[0];
        let x = camel_rec(t1, false);
        let sc = seq![c] + x;
        assert(camel_rec(t, false) == sc);
        assert(sc[0] == c);
        assert(sc.drop_first() =~= x);
        let head = if is_ascii_upper(c) {
            seq!['_', lower_char(c)]
        } else {
            seq![c]
        };
        assert(snake_rec(sc, false) == head + snake_rec(x, false));
        assert(snake_rec(t, false) == head + snake_rec(t1, false));
    }
}

/// Name stability: converting an identifier to camel case and then to
/// snake case gives the same result as converting it to snake case
/// directly, for identifiers whose underscores are internal separators
/// followed by a lower-case letter.
pub proof fn lemma_snake_camel_stable(s: Seq<char>)
    requires
        mangle_safe(s),
    ensures
        spec_snake(spec_camel(s)) == spec_snake(s),
{
    if s.len() == 0 {
    } else {
        let c = s[0];
        let t1 = s.drop_first();
        lemma_underscores_followed_tail(s);
        lemma_snake_of_camel_rec(t1);
        let u = upper_char(c);
        assert(camel_rec(s, true) == seq![u] + camel_rec(t1, false));
        let x = camel_rec(t1, false);
        let su = seq![u] + x;
        assert(su[0] == u);
        assert(su.drop_first() =~= x);
        if is_ascii_lower(c) {
            lemma_case_maps(c);
            assert(snake_rec(su, true) == seq![lower_char(u)] + snake_rec(x, false));
            assert(lower_char(u) == c);
            assert(snake_rec(s, true) == seq![c] + snake_rec(t1, false));
        } else if is_ascii_upper(c) {
            assert(u == c);
            assert(snake_rec(su, true) == seq![lower_char(c)] + snake_rec(x, false));
            assert(snake_rec(s, true) == seq![lower_char(c)] + snake_rec(t1, false));
        } else {
            assert(u == c);
            assert(!is_ascii_upper(u));
            assert(snake_rec(su, true) == seq![c] + snake_rec(x, false));
            assert(snake_rec(s, true) == seq![c] + snake_rec(t1, false));
        }
    }
}

} // verus!
