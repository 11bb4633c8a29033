//! A model of the emitted scalar bindings.
//!
//! The emitter writes, for every value object, a serializer that renders
//! each scalar field as one element whose text is the field's string
//! form, and a deserializer that looks the field's element up by name and
//! reads the value back from its text.  This module states that pairing
//! as mathematics over the field table — names paired with scalar kinds
//! and values — and proves the round trip for bare scalar fields: what
//! the serializer writes, the deserializer reads back unchanged.

use vstd::prelude::*;
use crate::text::{all_digits, dec_val, is_ascii_digit};

verus! {

/// A scalar kind of an emitted field covered by the model: boolean,
/// integer or string.
pub enum ScalarKind {
    B,
    I,
    S,
}

/// A scalar value of an emitted field.
pub enum ScalarVal {
    B(bool),
    I(int),
    S(Seq<char>),
}

/// One serialized element: a name and its text content.
pub struct ScalarElem {
    pub name: Seq<char>,
    pub text: Seq<char>,
}

/// The text of a boolean value.
pub open spec fn bool_text(b: bool) -> Seq<char> {
    if b {
        "true"@
    } else {
        "false"@
    }
}

/// The decimal digits of a natural number, most significant first.
pub open spec fn nat_digits(n: nat) -> Seq<char>
    decreases n,
{
    if n < 10 {
        seq![((48 + n) as u8) as char]
    } else {
        nat_digits(n / 10).push(((48 + n % 10) as u8) as char)
    }
}

/// The decimal text of an integer, with a leading minus for a negative
/// one.
pub open spec fn int_text(v: int) -> Seq<char> {
    if v < 0 {
        seq!['-'] + nat_digits((-v) as nat)
    } else {
        nat_digits(v as nat)
    }
}

/// The string form a scalar value is serialized as.
pub open spec fn scalar_text(v: ScalarVal) -> Seq<char> {
    match v {
        ScalarVal::B(b) => bool_text(b),
        ScalarVal::I(n) => int_text(n),
        ScalarVal::S(s) => s,
    }
}

/// What the deserializer's boolean accessor reads from element text.
pub open spec fn text_bool(t: Seq<char>) -> Option<bool> {
    if t == "true"@ {
        Some(true)
    } else if t == "false"@ {
        Some(false)
    } else {
        None
    }
}

/// What the deserializer's integer accessor reads from element text: an
/// optional minus sign followed by decimal digits.
pub open spec fn text_long(t: Seq<char>) -> Option<int> {
    if t.len() > 0 && t[0] == '-' {
        if all_digits(t.skip(1)) {
            Some(-(dec_val(t.skip(1)) as int))
        } else {
            None
        }
    } else if all_digits(t) {
        Some(dec_val(t) as int)
    } else {
        None
    }
}

/// What the deserializer reads for one field of the given kind: the
/// scalar of the element text, with empty text an error for strings.
pub open spec fn read_scalar(k: ScalarKind, t: Seq<char>) -> Option<ScalarVal> {
    match k {
        ScalarKind::B => match text_bool(t) {
            Some(b) => Some(ScalarVal::B(b)),
            None => None,
        },
        ScalarKind::I => match text_long(t) {
            Some(n) => Some(ScalarVal::I(n)),
            None => None,
        },
        ScalarKind::S => if t.len() > 0 {
            Some(ScalarVal::S(t))
        } else {
            None
        },
    }
}

/// The serializer: one element per field, named by the field and
/// carrying the value's string form, in field order.
pub open spec fn serialize_fields(names: Seq<Seq<char>>, vals: Seq<ScalarVal>) -> Seq<ScalarElem> {
    Seq::new(names.len(), |i: int| ScalarElem { name: names[i], text: scalar_text(vals[i]) })
}

/// The deserializer's lookup: the first element with the name.
pub open spec fn find_elem(es: Seq<ScalarElem>, name: Seq<char>) -> Option<ScalarElem>
    decreases es.len(),
{
    if es.len() == 0 {
        None
    } else if es[0].name == name {
        Some(es[0])
    } else {
        find_elem(es.drop_first(), name)
    }
}

/// Whether a value carries the kind.
pub open spec fn val_has_kind(v: ScalarVal, k: ScalarKind) -> bool {
    match (v, k) {
        (ScalarVal::B(_), ScalarKind::B) => true,
        (ScalarVal::I(_), ScalarKind::I) => true,
        (ScalarVal::S(_), ScalarKind::S) => true,
        _ => false,
    }
}

proof fn lemma_dec_val_push(s: Seq<char>, c: char)
    requires
        is_ascii_digit(c),
    ensures
        dec_val(s.push(c)) == dec_val(s) * 10 + ((c as u32) - 48),
{
    assert(s.push(c).drop_last() =~= s);
    assert(s.push(c).last() == c);
    assert(dec_val(s.push(c)) == dec_val(s) * 10 + (((c as u32) - 48) as nat));
}

proof fn lemma_nat_digits_value(n: nat)
    ensures
        nat_digits(n).len() > 0,
        all_digits(nat_digits(n)),
        dec_val(nat_digits(n)) == n,
    decreases n,
{
    if n < 10 {
        let c = ((48 + n) as u8) as char;
        assert(c as u32 == 48 + n);
        assert(is_ascii_digit(c));
        let s = seq![c];
        assert(s.drop_last() =~= Seq::<char>::empty());
        assert(dec_val(Seq::<char>::empty()) == 0);
        assert(s.last() == c);
        assert(dec_val(s) == n);
    } else {
        lemma_nat_digits_value(n / 10);
        let c = ((48 + n % 10) as u8) as char;
        assert(c as u32 == 48 + n % 10);
        assert(is_ascii_digit(c));
        lemma_dec_val_push(nat_digits(n / 10), c);
        assert(dec_val(nat_digits(n)) == (n / 10) * 10 + n % 10);
        assert forall|i: int| 0 <= i < nat_digits(n).len() implies is_ascii_digit(
            #[trigger] nat_digits(n)[i],
        ) by {
            if i < nat_digits(n / 10).len() {
                assert(nat_digits(n)[i] == nat_digits(n / 10)[i]);
            }
        }
    }
}

/// Printing and re-reading an integer is the identity.
proof fn lemma_int_text_round_trip(v: int)
    ensures
        text_long(int_text(v)) == Some(v),
{
    if v < 0 {
        lemma_nat_digits_value((-v) as nat);
        let t = seq!['-'] + nat_digits((-v) as nat);
        assert(t[0] == '-');
        assert(t.skip(1) =~= nat_digits((-v) as nat));
    } else {
        lemma_nat_digits_value(v as nat);
        let t = nat_digits(v as nat);
        assert(is_ascii_digit(t[0]));
        assert(t[0] != '-');
    }
}

/// Reading back what was written for one value of the right kind gives
/// the value, as long as a string value is not empty.
proof fn lemma_scalar_round_trip(v: ScalarVal, k: ScalarKind)
    requires
        val_has_kind(v, k),
        v matches ScalarVal::S(s) ==> s.len() > 0,
    ensures
        read_scalar(k, scalar_text(v)) == Some(v),
{
    match v {
        ScalarVal::B(b) => {
            reveal_strlit("true");
            reveal_strlit("false");
            assert("true"@.len() == 4);
            assert("false"@.len() == 5);
            assert("true"@ != "false"@);
        },
        ScalarVal::I(n) => {
            lemma_int_text_round_trip(n);
        },
        ScalarVal::S(_) => {},
    }
}

/// In a serialized field list with distinct names, the lookup of the
/// `i`-th field's name finds exactly the `i`-th element.
proof fn lemma_find_serialized(names: Seq<Seq<char>>, vals: Seq<ScalarVal>, i: int)
    requires
        names.len() == vals.len(),
        0 <= i < names.len(),
        forall|j: int, l: int| 0 <= j < l < names.len() ==> names[j] != names[l],
    ensures
        find_elem(serialize_fields(names, vals), names[i]) == Some(
            ScalarElem { name: names[i], text: scalar_text(vals[i]) },
        ),
    decreases i,
{
    let es = serialize_fields(names, vals);
    assert(es[0].name == names[0]);
    if i == 0 {
    } else {
        assert(names[0] != names[i]);
        lemma_find_serialized(names.drop_first(), vals.drop_first(), i - 1);
        assert(es.drop_first() =~= serialize_fields(names.drop_first(), vals.drop_first()));
        assert(names.drop_first()[i - 1] == names[i]);
    }
}

/// The round trip of the emitted scalar bindings: serializing a value
/// object whose fields are bare booleans, integers and non-empty strings
/// with distinct names, and then deserializing each field from the
/// serialized elements, reads every field's value back unchanged.
pub proof fn lemma_fields_round_trip(
    names: Seq<Seq<char>>,
    kinds: Seq<ScalarKind>,
    vals: Seq<ScalarVal>,
)
    requires
        names.len() == vals.len(),
        names.len() == kinds.len(),
        forall|j: int, l: int| 0 <= j < l < names.len() ==> names[j] != names[l],
        forall|i: int| 0 <= i < vals.len() ==> val_has_kind(#[trigger] vals[i], kinds[i]),
        forall|i: int|
            0 <= i < vals.len() ==> (#[trigger] vals[i] matches ScalarVal::S(s) ==> s.len() > 0),
    ensures
        forall|i: int|
            0 <= i < names.len() ==> {
                let found = find_elem(serialize_fields(names, vals), #[trigger] names[i]);
                found matches Some(e) && read_scalar(kinds[i], e.text) == Some(vals[i])
            },
{
    assert forall|i: int| 0 <= i < names.len() implies {
        let found = find_elem(serialize_fields(names, vals), #[trigger] names[i]);
        found matches Some(e) && read_scalar(kinds[i], e.text) == Some(vals[i])
    } by {
        lemma_find_serialized(names, vals, i);
        lemma_scalar_round_trip(vals[i], kinds[i]);
    }
}

} // verus!
