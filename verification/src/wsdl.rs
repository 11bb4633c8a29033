//! The intermediate model of a WSDL 1.1 document, and the parser that
//! builds it from an element tree.
//!
//! Tables are association vectors in document order whose lookups find
//! the first entry with a key, and whose insertions replace that entry in
//! place (so a later definition of a name wins, and one entry per name
//! remains).  The parser is specified exactly: each parsing function
//! returns precisely what its spec-level counterpart computes from the
//! element tree.

use vstd::prelude::*;
use vstd::string::StrSliceExecFns;
use crate::text::{str_eq, spec_parse_u32, parse_u32};
use crate::xml::{XmlChild, XmlElement, spec_attr, spec_get_child, spec_elem_children,
    spec_find_not_named, xml_tree_of, parse_xml};

verus! {

/// A parse-time failure.
#[derive(Debug)]
pub enum WsdlError {
    /// The XML tree could not be built; carries the XML loader's error.
    Parse(xmltree::ParseError),
    /// A required structural element is missing.
    ElementNotFound(&'static str),
    /// A required attribute is missing on a located element.
    AttributeNotFound(&'static str),
    /// An element child was expected, but another node kind was found.
    NotAnElement,
    /// A required child list was empty.
    Empty,
    /// An occurrence bound was neither `unbounded` nor a decimal number in
    /// range.
    ConversionFailed,
}

/// The spec-level image of a `WsdlError`, with attribute and element tags
/// as character sequences and the opaque XML loader's error dropped.
pub enum WErr {
    Parse,
    ElementNotFound(Seq<char>),
    AttributeNotFound(Seq<char>),
    NotAnElement,
    Empty,
    ConversionFailed,
}

/// Whether the error `e` reads as its spec-level image `m`.
pub open spec fn err_matches(e: WsdlError, m: WErr) -> bool {
    match (e, m) {
        (WsdlError::Parse(_), WErr::Parse) => true,
        (WsdlError::ElementNotFound(t), WErr::ElementNotFound(s)) => t@ == s,
        (WsdlError::AttributeNotFound(t), WErr::AttributeNotFound(s)) => t@ == s,
        (WsdlError::NotAnElement, WErr::NotAnElement) => true,
        (WsdlError::Empty, WErr::Empty) => true,
        (WsdlError::ConversionFailed, WErr::ConversionFailed) => true,
        _ => false,
    }
}

impl From<xmltree::ParseError> for WsdlError {
    fn from(e: xmltree::ParseError) -> (r: Self) {
        WsdlError::Parse(e)
    }
}

impl vstd::std_specs::convert::FromSpecImpl<xmltree::ParseError> for WsdlError {
    open spec fn obeys_from_spec() -> bool {
        true
    }

    open spec fn from_spec(e: xmltree::ParseError) -> Self {
        WsdlError::Parse(e)
    }
}

/// A scalar schema type, or a reference to another named type.
#[derive(Debug, Clone)]
pub enum SimpleType {
    Boolean,
    String,
    Float,
    Int,
    DateTime,
    Complex(String),
}

/// The spec-level image of a `SimpleType`.
pub enum SimpleTy {
    Boolean,
    Str,
    Float,
    Int,
    DateTime,
    Complex(Seq<char>),
}

impl View for SimpleType {
    type V = SimpleTy;

    open spec fn view(&self) -> SimpleTy {
        match self {
            SimpleType::Boolean => SimpleTy::Boolean,
            SimpleType::String => SimpleTy::Str,
            SimpleType::Float => SimpleTy::Float,
            SimpleType::Int => SimpleTy::Int,
            SimpleType::DateTime => SimpleTy::DateTime,
            SimpleType::Complex(s) => SimpleTy::Complex(s@),
        }
    }
}

/// A cardinality bound of a field.
#[derive(Debug, Clone, Copy, PartialEq, Eq, Structural)]
pub enum Occurence {
    Unbounded,
    Num(u32),
}

/// The occurrence and nillability attributes of a field, after
/// normalization.
#[derive(Debug, Clone, Default, PartialEq, Eq, Structural)]
pub struct TypeAttribute {
    pub nillable: bool,
    pub min_occurs: Option<Occurence>,
    pub max_occurs: Option<Occurence>,
}

impl View for TypeAttribute {
    type V = TypeAttribute;

    open spec fn view(&self) -> TypeAttribute {
        *self
    }
}

/// A named schema type with a sequence of named fields.
#[derive(Debug, Clone)]
pub struct ComplexType {
    pub fields: Vec<(String, (TypeAttribute, SimpleType))>,
}

/// The spec-level image of a `ComplexType`.
pub struct ComplexTypeV {
    pub fields: Seq<(Seq<char>, (TypeAttribute, SimpleTy))>,
}

impl View for ComplexType {
    type V = ComplexTypeV;

    open spec fn view(&self) -> ComplexTypeV {
        ComplexTypeV { fields: pairs_view(self.fields@) }
    }
}

/// An entry of the type table.
#[derive(Debug, Clone)]
pub enum Type {
    Simple(SimpleType),
    Complex(ComplexType),
}

/// The spec-level image of a `Type`.
pub enum TypeV {
    Simple(SimpleTy),
    Complex(ComplexTypeV),
}

impl View for Type {
    type V = TypeV;

    open spec fn view(&self) -> TypeV {
        match self {
            Type::Simple(s) => TypeV::Simple(s@),
            Type::Complex(c) => TypeV::Complex(c@),
        }
    }
}

/// An entry of the message table: the one part's name and the local name
/// of the type it references.
#[derive(Debug, Clone)]
pub struct Message {
    pub part_name: String,
    pub part_element: String,
}

/// The spec-level image of a `Message`.
pub struct MessageV {
    pub part_name: Seq<char>,
    pub part_element: Seq<char>,
}

impl View for Message {
    type V = MessageV;

    open spec fn view(&self) -> MessageV {
        MessageV { part_name: self.part_name@, part_element: self.part_element@ }
    }
}

/// An entry of the operation table; `input`, `output` and the `faults`
/// entries name messages.
#[derive(Debug)]
pub struct Operation {
    pub name: String,
    pub input: Option<String>,
    pub output: Option<String>,
    pub faults: Option<Vec<String>>,
}

/// The spec-level image of an `Operation`.
pub struct OperationV {
    pub name: Seq<char>,
    pub input: Option<Seq<char>>,
    pub output: Option<Seq<char>>,
    pub faults: Option<Seq<Seq<char>>>,
}

impl View for Operation {
    type V = OperationV;

    open spec fn view(&self) -> OperationV {
        OperationV {
            name: self.name@,
            input: match self.input {
                Some(s) => Some(s@),
                None => None,
            },
            output: match self.output {
                Some(s) => Some(s@),
                None => None,
            },
            faults: match self.faults {
                Some(v) => Some(v.deep_view()),
                None => None,
            },
        }
    }
}

/// A parsed WSDL document: the service name, the target namespace, and
/// the three tables, each keyed by local name in document order.
#[derive(Debug)]
pub struct Wsdl {
    pub name: String,
    pub target_namespace: String,
    pub types: Vec<(String, Type)>,
    pub messages: Vec<(String, Message)>,
    pub operations: Vec<(String, Operation)>,
}

/// The spec-level image of a `Wsdl`.
pub struct WsdlV {
    pub name: Seq<char>,
    pub target_namespace: Seq<char>,
    pub types: Seq<(Seq<char>, TypeV)>,
    pub messages: Seq<(Seq<char>, MessageV)>,
    pub operations: Seq<(Seq<char>, OperationV)>,
}

impl View for Wsdl {
    type V = WsdlV;

    open spec fn view(&self) -> WsdlV {
        WsdlV {
            name: self.name@,
            target_namespace: self.target_namespace@,
            types: pairs_view(self.types@),
            messages: pairs_view(self.messages@),
            operations: pairs_view(self.operations@),
        }
    }
}

/// The view of a keyed entry.
pub open spec fn pair_view<V: View>(p: (String, V)) -> (Seq<char>, V::V) {
    (p.0@, p.1@)
}

/// The view of an association vector: keys and values viewed, order kept.
pub open spec fn pairs_view<V: View>(t: Seq<(String, V)>) -> Seq<(Seq<char>, V::V)> {
    t.map_values(|p: (String, V)| pair_view(p))
}

/// The value paired with the first occurrence of `k`.
pub open spec fn spec_assoc_find<T>(t: Seq<(Seq<char>, T)>, k: Seq<char>) -> Option<T>
    decreases t.len(),
{
    if t.len() == 0 {
        None
    } else if t[0].0 == k {
        Some(t[0].1)
    } else {
        spec_assoc_find(t.drop_first(), k)
    }
}

/// The table after writing `k`: the first entry keyed `k` is replaced in
/// place, or a new entry is appended.
pub open spec fn spec_assoc_set<T>(t: Seq<(Seq<char>, T)>, k: Seq<char>, v: T) -> Seq<
    (Seq<char>, T),
>
    decreases t.len(),
{
    if t.len() == 0 {
        seq![(k, v)]
    } else if t[0].0 == k {
        seq![(k, v)] + t.drop_first()
    } else {
        seq![t[0]] + spec_assoc_set(t.drop_first(), k, v)
    }
}

proof fn lemma_assoc_set_at<T>(t: Seq<(Seq<char>, T)>, k: Seq<char>, v: T, j: int)
    requires
        0 <= j < t.len(),
        t[j].0 == k,
        forall|i: int| 0 <= i < j ==> (#[trigger] t[i]).0 != k,
    ensures
        spec_assoc_set(t, k, v) == t.update(j, (k, v)),
    decreases j,
{
    if j == 0 {
        assert(seq![(k, v)] + t.drop_first() =~= t.update(0, (k, v)));
    } else {
        let t1 = t.drop_first();
        assert(forall|i: int| 0 <= i < j - 1 ==> (#[trigger] t1[i]).0 != k);
        lemma_assoc_set_at(t1, k, v, j - 1);
        assert(seq![t[0]] + t1.update(j - 1, (k, v)) =~= t.update(j, (k, v)));
    }
}

proof fn lemma_assoc_set_missing<T>(t: Seq<(Seq<char>, T)>, k: Seq<char>, v: T)
    requires
        forall|i: int| 0 <= i < t.len() ==> (#[trigger] t[i]).0 != k,
    ensures
        spec_assoc_set(t, k, v) == t.push((k, v)),
    decreases t.len(),
{
    if t.len() == 0 {
        assert(seq![(k, v)] =~= t.push((k, v)));
    } else {
        let t1 = t.drop_first();
        lemma_assoc_set_missing(t1, k, v);
        assert(seq![t[0]] + t1.push((k, v)) =~= t.push((k, v)));
    }
}

/// Looks a key up in an association vector.
pub fn assoc_contains<V: View>(t: &Vec<(String, V)>, k: &str) -> (r: bool)
    ensures
        r == (spec_assoc_find(pairs_view(t@), k@) is Some),
{
    let n = t.len();
    let mut i: usize = 0;
    proof {
        assert(pairs_view(t@).skip(0) =~= pairs_view(t@));
    }
    while i < n
        invariant
            n == t@.len(),
            i <= n,
            spec_assoc_find(pairs_view(t@), k@) == spec_assoc_find(
                pairs_view(t@).skip(i as int),
                k@,
            ),
        decreases n - i,
    {
        proof {
            assert(pairs_view(t@).skip(i as int)[0] == pairs_view(t@)[i as int]);
            assert(pairs_view(t@).skip(i as int).drop_first() =~= pairs_view(t@).skip(i + 1));
        }
        if str_eq(t[i].0.as_str(), k) {
            return true;
        }
        i += 1;
    }
    false
}

/// Writes an entry into an association vector: replaces the first entry
/// with the key in place, or appends a new one.
pub fn assoc_set<V: View>(t: &mut Vec<(String, V)>, k: String, v: V)
    ensures
        pairs_view(final(t)@) == spec_assoc_set(pairs_view(old(t)@), k@, v@),
{
    let n = t.len();
    let mut i: usize = 0;
    while i < n
        invariant
            n == t@.len(),
            t == old(t),
            i <= n,
            forall|j: int| 0 <= j < i ==> (#[trigger] pairs_view(t@)[j]).0 != k@,
        decreases n - i,
    {
        if str_eq(t[i].0.as_str(), k.as_str()) {
            proof {
                assert(pairs_view(t@)[i as int].0 == k@);
                lemma_assoc_set_at(pairs_view(t@), k@, v@, i as int);
            }
            let ghost told = t@;
            t.remove(i);
            t.insert(i, (k, v));
            proof {
                assert(t@ =~= told.update(i as int, (k, v)));
                assert(pairs_view(t@) =~= pairs_view(told).update(i as int, (k@, v@)));
            }
            return ;
        }
        i += 1;
    }
    proof {
        lemma_assoc_set_missing(pairs_view(t@), k@, v@);
    }
    let ghost told = t@;
    t.push((k, v));
    proof {
        assert(pairs_view(t@) =~= pairs_view(told).push((k@, v@)));
    }
}

/// Whether the sequence holds a colon.
pub open spec fn has_colon(s: Seq<char>) -> bool {
    exists|i: int| 0 <= i < s.len() && s[i] == ':'
}

/// Everything after the first colon.
pub open spec fn after_colon(s: Seq<char>) -> Seq<char>
    decreases s.len(),
{
    if s.len() == 0 {
        s
    } else if s[0] == ':' {
        s.drop_first()
    } else {
        after_colon(s.drop_first())
    }
}

/// The local part of a possibly prefixed name: everything after the first
/// colon, or the whole name when there is none.  The namespace prefix is
/// discarded.
pub open spec fn spec_split_namespace(s: Seq<char>) -> Seq<char> {
    if has_colon(s) {
        after_colon(s)
    } else {
        s
    }
}

proof fn lemma_after_colon(s: Seq<char>, i: int)
    requires
        0 <= i < s.len(),
        s[i] == ':',
        forall|j: int| 0 <= j < i ==> s[j] != ':',
    ensures
        after_colon(s) == s.skip(i + 1),
    decreases i,
{
    if i == 0 {
        assert(s.drop_first() =~= s.skip(1));
    } else {
        let s1 = s.drop_first();
        assert(forall|j: int| 0 <= j < i - 1 ==> s1[j] == s[j + 1] && s[j + 1] != ':');
        lemma_after_colon(s1, i - 1);
        assert(s1.skip(i) =~= s.skip(i + 1));
    }
}

/// The view of an optional name.
pub open spec fn opt_str_view(o: Option<String>) -> Option<Seq<char>> {
    match o {
        Some(s) => Some(s@),
        None => None,
    }
}

/// The view of an optional fault list.
pub open spec fn faults_view(o: Option<Vec<String>>) -> Option<Seq<Seq<char>>> {
    match o {
        Some(v) => Some(v.deep_view()),
        None => None,
    }
}

/// Strips the namespace prefix from a name: the part after the first
/// colon, or the whole name when it has none.
pub fn split_namespace(s: &str) -> (r: &str)
    ensures
        r@ == spec_split_namespace(s@),
{
    let len = s.unicode_len();
    let mut i: usize = 0;
    while i < len
        invariant
            len == s@.len(),
            i <= len,
            forall|j: int| 0 <= j < i ==> s@[j] != ':',
        decreases len - i,
    {
        if s.get_char(i) == ':' {
            let r = s.substring_char(i + 1, len);
            proof {
                lemma_after_colon(s@, i as int);
                assert(r@ =~= s@.skip(i + 1));
            }
            return r;
        }
        i += 1;
    }
    s
}

/// What an occurrence bound reads as: the literal `unbounded`, or a
/// decimal number.
pub open spec fn spec_parse_occurs(v: Seq<char>) -> Result<Occurence, WErr> {
    if v == "unbounded"@ {
        Ok(Occurence::Unbounded)
    } else {
        match spec_parse_u32(v) {
            Some(n) => Ok(Occurence::Num(n)),
            None => Err(WErr::ConversionFailed),
        }
    }
}

/// The schema type a (prefix-stripped) type token names.
pub open spec fn spec_simple_type(token: Seq<char>) -> SimpleTy {
    if token == "boolean"@ {
        SimpleTy::Boolean
    } else if token == "string"@ {
        SimpleTy::Str
    } else if token == "int"@ {
        SimpleTy::Int
    } else if token == "float"@ {
        SimpleTy::Float
    } else if token == "dateTime"@ {
        SimpleTy::DateTime
    } else {
        SimpleTy::Complex(token)
    }
}

/// Cardinality normalization: `(0, 1)` collapses to nillable with both
/// occurrences cleared, `(1, 1)` to non-nillable with both cleared, and
/// every other combination is kept verbatim.
pub open spec fn spec_normalize(nillable: bool, mi: Option<Occurence>, ma: Option<Occurence>)
    -> TypeAttribute {
    if mi == Some(Occurence::Num(0)) && ma == Some(Occurence::Num(1)) {
        TypeAttribute { nillable: true, min_occurs: None, max_occurs: None }
    } else if mi == Some(Occurence::Num(1)) && ma == Some(Occurence::Num(1)) {
        TypeAttribute { nillable: false, min_occurs: None, max_occurs: None }
    } else {
        TypeAttribute { nillable, min_occurs: mi, max_occurs: ma }
    }
}

/// What an optional occurrence attribute of a field parses to.
pub open spec fn spec_parse_field_occurs(f: XmlElement, key: Seq<char>) -> Result<
    Option<Occurence>,
    WErr,
> {
    match spec_attr(f, key) {
        None => Ok(None),
        Some(v) => match spec_parse_occurs(v) {
            Ok(o) => Ok(Some(o)),
            Err(e) => Err(e),
        },
    }
}

/// What a field element parses to: its name, its normalized attributes
/// and its schema type.
pub open spec fn spec_parse_field(f: XmlElement) -> Result<
    (Seq<char>, (TypeAttribute, SimpleTy)),
    WErr,
> {
    match spec_attr(f, "name"@) {
        None => Err(WErr::AttributeNotFound("name"@)),
        Some(fname) => match spec_attr(f, "type"@) {
            None => Err(WErr::AttributeNotFound("type"@)),
            Some(ftype) => {
                let nillable = spec_attr(f, "nillable"@) == Some("true"@);
                match spec_parse_field_occurs(f, "minOccurs"@) {
                    Err(e) => Err(e),
                    Ok(mi) => match spec_parse_field_occurs(f, "maxOccurs"@) {
                        Err(e) => Err(e),
                        Ok(ma) => Ok(
                            (
                                fname,
                                (
                                    spec_normalize(nillable, mi, ma),
                                    spec_simple_type(spec_split_namespace(ftype)),
                                ),
                            ),
                        ),
                    },
                }
            },
        },
    }
}

/// The fields of a container element, accumulated left to right.
pub open spec fn spec_parse_fields(
    es: Seq<XmlElement>,
    acc: Seq<(Seq<char>, (TypeAttribute, SimpleTy))>,
) -> Result<Seq<(Seq<char>, (TypeAttribute, SimpleTy))>, WErr>
    decreases es.len(),
{
    if es.len() == 0 {
        Ok(acc)
    } else {
        match spec_parse_field(es[0]) {
            Err(e) => Err(e),
            Ok(kv) => spec_parse_fields(es.drop_first(), spec_assoc_set(acc, kv.0, kv.1)),
        }
    }
}

/// A complex type with no fields, as abstract types and complex-content
/// types are recorded.
pub open spec fn spec_empty_complex() -> TypeV {
    TypeV::Complex(ComplexTypeV { fields: Seq::empty() })
}

/// What the `complexType` element of a type entry parses to.
pub open spec fn spec_type_body(child: XmlElement) -> Result<TypeV, WErr> {
    if child.name@ == "complexType"@ {
        if spec_attr(child, "abstract"@) == Some("true"@) {
            Ok(spec_empty_complex())
        } else {
            match spec_find_not_named(spec_elem_children(child.children@), "annotation"@) {
                None => Err(WErr::Empty),
                Some(container) => {
                    if container.name@ == "complexContent"@ {
                        Ok(spec_empty_complex())
                    } else {
                        match spec_parse_fields(
                            spec_elem_children(container.children@),
                            Seq::empty(),
                        ) {
                            Err(e) => Err(e),
                            Ok(fs) => Ok(TypeV::Complex(ComplexTypeV { fields: fs })),
                        }
                    }
                },
            }
        }
    } else {
        Err(WErr::ElementNotFound("complexType"@))
    }
}

/// What one child of the schema element parses to: either
/// `<complexType name="T">` directly, or `<element name="T">` whose first
/// child node must be a `complexType` element.
pub open spec fn spec_parse_type_entry(elem: XmlElement) -> Result<(Seq<char>, TypeV), WErr> {
    match spec_attr(elem, "name"@) {
        None => Err(WErr::AttributeNotFound("name"@)),
        Some(name) => {
            let child_r: Result<XmlElement, WErr> = if elem.name@ == "complexType"@ {
                Ok(elem)
            } else if elem.children@.len() == 0 {
                Err(WErr::Empty)
            } else {
                match elem.children@[0] {
                    XmlChild::Element(c) => Ok(c),
                    _ => Err(WErr::NotAnElement),
                }
            };
            match child_r {
                Err(e) => Err(e),
                Ok(child) => match spec_type_body(child) {
                    Err(e) => Err(e),
                    Ok(t) => Ok((name, t)),
                },
            }
        },
    }
}

/// The type table accumulated over the schema element's children.
pub open spec fn spec_parse_type_list(es: Seq<XmlElement>, acc: Seq<(Seq<char>, TypeV)>) -> Result<
    Seq<(Seq<char>, TypeV)>,
    WErr,
>
    decreases es.len(),
{
    if es.len() == 0 {
        Ok(acc)
    } else {
        match spec_parse_type_entry(es[0]) {
            Err(e) => Err(e),
            Ok(kv) => spec_parse_type_list(es.drop_first(), spec_assoc_set(acc, kv.0, kv.1)),
        }
    }
}

/// The schema element the type entries are read from: the first element
/// child of a non-empty `<types>` child, if both exist.
pub open spec fn spec_types_root(root: XmlElement) -> Option<XmlElement> {
    match spec_get_child(root, "types"@) {
        None => None,
        Some(t) => if t.children@.len() > 0 {
            let ecs = spec_elem_children(t.children@);
            if ecs.len() > 0 {
                Some(ecs[0])
            } else {
                None
            }
        } else {
            None
        },
    }
}

/// What the type table of the document parses to.
pub open spec fn spec_parse_types(root: XmlElement) -> Result<Seq<(Seq<char>, TypeV)>, WErr> {
    match spec_types_root(root) {
        None => Ok(Seq::empty()),
        Some(te) => spec_parse_type_list(spec_elem_children(te.children@), Seq::empty()),
    }
}

/// What one `<message>` element parses to: its name, the first part
/// child's name, and the part's referenced type with its namespace prefix
/// stripped.
pub open spec fn spec_parse_message(m: XmlElement) -> Result<(Seq<char>, MessageV), WErr> {
    match spec_attr(m, "name"@) {
        None => Err(WErr::AttributeNotFound("name"@)),
        Some(name) => {
            let ecs = spec_elem_children(m.children@);
            if ecs.len() == 0 {
                Err(WErr::ElementNotFound("part"@))
            } else {
                match spec_attr(ecs[0], "name"@) {
                    None => Err(WErr::AttributeNotFound("name"@)),
                    Some(pn) => match spec_attr(ecs[0], "element"@) {
                        None => Err(WErr::AttributeNotFound("element"@)),
                        Some(pe) => Ok(
                            (
                                name,
                                MessageV {
                                    part_name: pn,
                                    part_element: spec_split_namespace(pe),
                                },
                            ),
                        ),
                    },
                }
            }
        },
    }
}

/// The message table accumulated over the document's `message` children.
pub open spec fn spec_parse_message_list(
    es: Seq<XmlElement>,
    acc: Seq<(Seq<char>, MessageV)>,
) -> Result<Seq<(Seq<char>, MessageV)>, WErr>
    decreases es.len(),
{
    if es.len() == 0 {
        Ok(acc)
    } else if es[0].name@ != "message"@ {
        spec_parse_message_list(es.drop_first(), acc)
    } else {
        match spec_parse_message(es[0]) {
            Err(e) => Err(e),
            Ok(kv) => spec_parse_message_list(es.drop_first(), spec_assoc_set(acc, kv.0, kv.1)),
        }
    }
}

/// What the message table of the document parses to.
pub open spec fn spec_parse_messages(root: XmlElement) -> Result<Seq<(Seq<char>, MessageV)>, WErr> {
    spec_parse_message_list(spec_elem_children(root.children@), Seq::empty())
}

/// The input, output and fault references of a port-type operation,
/// accumulated over its children that carry a `message` attribute; a
/// later `input` or `output` overwrites an earlier one.
pub open spec fn spec_op_io(
    cs: Seq<XmlElement>,
    input: Option<Seq<char>>,
    output: Option<Seq<char>>,
    faults: Option<Seq<Seq<char>>>,
) -> Result<(Option<Seq<char>>, Option<Seq<char>>, Option<Seq<Seq<char>>>), WErr>
    decreases cs.len(),
{
    if cs.len() == 0 {
        Ok((input, output, faults))
    } else {
        match spec_attr(cs[0], "message"@) {
            None => spec_op_io(cs.drop_first(), input, output, faults),
            Some(msg) => {
                let m = spec_split_namespace(msg);
                if cs[0].name@ == "input"@ {
                    spec_op_io(cs.drop_first(), Some(m), output, faults)
                } else if cs[0].name@ == "output"@ {
                    spec_op_io(cs.drop_first(), input, Some(m), faults)
                } else if cs[0].name@ == "fault"@ {
                    let fs = match faults {
                        None => Seq::empty(),
                        Some(fs) => fs,
                    };
                    spec_op_io(cs.drop_first(), input, output, Some(fs.push(m)))
                } else {
                    Err(WErr::ElementNotFound("operation member"@))
                }
            },
        }
    }
}

/// The references of a binding operation, accumulated over its children
/// with non-empty bodies; document-literal sentinels stand in for message
/// names.
pub open spec fn spec_op_io_bind(
    cs: Seq<XmlElement>,
    input: Option<Seq<char>>,
    output: Option<Seq<char>>,
    faults: Option<Seq<Seq<char>>>,
) -> Result<(Option<Seq<char>>, Option<Seq<char>>, Option<Seq<Seq<char>>>), WErr>
    decreases cs.len(),
{
    if cs.len() == 0 {
        Ok((input, output, faults))
    } else if cs[0].children@.len() == 0 {
        spec_op_io_bind(cs.drop_first(), input, output, faults)
    } else if cs[0].name@ == "input"@ {
        spec_op_io_bind(cs.drop_first(), Some("LiteralRequest"@), output, faults)
    } else if cs[0].name@ == "output"@ {
        spec_op_io_bind(cs.drop_first(), input, Some("LiteralResponse"@), faults)
    } else if cs[0].name@ == "fault"@ {
        let fs = match faults {
            None => Seq::empty(),
            Some(fs) => fs,
        };
        spec_op_io_bind(cs.drop_first(), input, output, Some(fs.push("literal"@)))
    } else {
        Err(WErr::ElementNotFound("operation member"@))
    }
}

/// What one operation element parses to, on either path.
pub open spec fn spec_parse_operation(op: XmlElement, from_binding: bool) -> Result<
    (Seq<char>, OperationV),
    WErr,
> {
    match spec_attr(op, "name"@) {
        None => Err(WErr::AttributeNotFound("name"@)),
        Some(name) => {
            let io_r = if from_binding {
                spec_op_io_bind(spec_elem_children(op.children@), None, None, None)
            } else {
                spec_op_io(spec_elem_children(op.children@), None, None, None)
            };
            match io_r {
                Err(e) => Err(e),
                Ok(io) => Ok(
                    (name, OperationV { name: name, input: io.0, output: io.1, faults: io.2 }),
                ),
            }
        },
    }
}

/// The operation table accumulated over the children named `operation`.
pub open spec fn spec_parse_op_list(
    es: Seq<XmlElement>,
    acc: Seq<(Seq<char>, OperationV)>,
    from_binding: bool,
) -> Result<Seq<(Seq<char>, OperationV)>, WErr>
    decreases es.len(),
{
    if es.len() == 0 {
        Ok(acc)
    } else if es[0].name@ != "operation"@ {
        spec_parse_op_list(es.drop_first(), acc, from_binding)
    } else {
        match spec_parse_operation(es[0], from_binding) {
            Err(e) => Err(e),
            Ok(kv) => spec_parse_op_list(
                es.drop_first(),
                spec_assoc_set(acc, kv.0, kv.1),
                from_binding,
            ),
        }
    }
}

/// What the operation table of the document parses to: the `portType`
/// path when that element exists, else the `binding` path, else an
/// error.
pub open spec fn spec_parse_operations(root: XmlElement) -> Result<
    Seq<(Seq<char>, OperationV)>,
    WErr,
> {
    match spec_get_child(root, "portType"@) {
        Some(pt) => spec_parse_op_list(spec_elem_children(pt.children@), Seq::empty(), false),
        None => match spec_get_child(root, "binding"@) {
            None => Err(WErr::ElementNotFound("binding"@)),
            Some(b) => spec_parse_op_list(spec_elem_children(b.children@), Seq::empty(), true),
        },
    }
}

/// What the whole document parses to: the target namespace (an `import`
/// child's `namespace` attribute, else the root's `targetNamespace`), the
/// service name, and the three tables.
pub open spec fn spec_parse_wsdl(root: XmlElement) -> Result<WsdlV, WErr> {
    let tns_r = match spec_get_child(root, "import"@) {
        Some(im) => match spec_attr(im, "namespace"@) {
            Some(ns) => Ok(ns),
            None => Err(WErr::AttributeNotFound("namespace"@)),
        },
        None => match spec_attr(root, "targetNamespace"@) {
            Some(ns) => Ok(ns),
            None => Err(WErr::AttributeNotFound("targetNamespace"@)),
        },
    };
    match tns_r {
        Err(e) => Err(e),
        Ok(tns) => match spec_get_child(root, "service"@) {
            None => Err(WErr::ElementNotFound("service"@)),
            Some(svc) => match spec_attr(svc, "name"@) {
                None => Err(WErr::AttributeNotFound("name"@)),
                Some(name) => match spec_parse_types(root) {
                    Err(e) => Err(e),
                    Ok(types) => match spec_parse_messages(root) {
                        Err(e) => Err(e),
                        Ok(messages) => match spec_parse_operations(root) {
                            Err(e) => Err(e),
                            Ok(operations) => Ok(
                                WsdlV {
                                    name: name,
                                    target_namespace: tns,
                                    types,
                                    messages,
                                    operations,
                                },
                            ),
                        },
                    },
                },
            },
        },
    }
}

/// Parses one optional occurrence attribute of a field.
fn parse_occurs_attr(f: &XmlElement, key: &str) -> (r: Result<Option<Occurence>, WsdlError>)
    ensures
        match r {
            Ok(o) => spec_parse_field_occurs(*f, key@) == Ok::<_, WErr>(o),
            Err(e) => {
                &&& !(e is Parse)
                &&& spec_parse_field_occurs(*f, key@) matches Err(m) && err_matches(e, m)
            },
        },
{
    match f.attr(key) {
        None => Ok(None),
        Some(v) => {
            if str_eq(v.as_str(), "unbounded") {
                Ok(Some(Occurence::Unbounded))
            } else {
                match parse_u32(v.as_str()) {
                    Some(n) => Ok(Some(Occurence::Num(n))),
                    None => Err(WsdlError::ConversionFailed),
                }
            }
        },
    }
}

/// Applies the cardinality normalization to a field's raw attributes.
fn normalize_attrs(nillable: bool, mi: Option<Occurence>, ma: Option<Occurence>) -> (r:
    TypeAttribute)
    ensures
        r == spec_normalize(nillable, mi, ma),
{
    match (mi, ma) {
        (Some(Occurence::Num(0)), Some(Occurence::Num(1))) => TypeAttribute {
            nillable: true,
            min_occurs: None,
            max_occurs: None,
        },
        (Some(Occurence::Num(1)), Some(Occurence::Num(1))) => TypeAttribute {
            nillable: false,
            min_occurs: None,
            max_occurs: None,
        },
        _ => TypeAttribute { nillable, min_occurs: mi, max_occurs: ma },
    }
}

/// Maps a prefix-stripped type token to its schema type.
fn simple_type_of(token: &str) -> (r: SimpleType)
    ensures
        r@ == spec_simple_type(token@),
{
    if str_eq(token, "boolean") {
        SimpleType::Boolean
    } else if str_eq(token, "string") {
        SimpleType::String
    } else if str_eq(token, "int") {
        SimpleType::Int
    } else if str_eq(token, "float") {
        SimpleType::Float
    } else if str_eq(token, "dateTime") {
        SimpleType::DateTime
    } else {
        SimpleType::Complex(token.to_owned())
    }
}

/// Parses one field element of a type's field container.
fn parse_field(f: &XmlElement) -> (r: Result<(String, (TypeAttribute, SimpleType)), WsdlError>)
    ensures
        match r {
            Ok(kv) => spec_parse_field(*f) == Ok::<_, WErr>(pair_view(kv)),
            Err(e) => {
                &&& !(e is Parse)
                &&& spec_parse_field(*f) matches Err(m) && err_matches(e, m)
            },
        },
{
    let fname = match f.attr("name") {
        Some(v) => v,
        None => {
            return Err(WsdlError::AttributeNotFound("name"));
        },
    };
    let ftype = match f.attr("type") {
        Some(v) => v,
        None => {
            return Err(WsdlError::AttributeNotFound("type"));
        },
    };
    let nillable = f.attr_is("nillable", "true");
    let mi = match parse_occurs_attr(f, "minOccurs") {
        Ok(o) => o,
        Err(e) => {
            return Err(e);
        },
    };
    let ma = match parse_occurs_attr(f, "maxOccurs") {
        Ok(o) => o,
        Err(e) => {
            return Err(e);
        },
    };
    let attrs = normalize_attrs(nillable, mi, ma);
    let st = simple_type_of(split_namespace(ftype.as_str()));
    Ok((fname.clone(), (attrs, st)))
}

/// Parses one child of the schema element into a type-table entry.
#[verifier::loop_isolation(false)]
fn parse_type_entry(elem: &XmlElement) -> (r: Result<(String, Type), WsdlError>)
    ensures
        match r {
            Ok(kv) => spec_parse_type_entry(*elem) == Ok::<_, WErr>(pair_view(kv)),
            Err(e) => {
                &&& !(e is Parse)
                &&& spec_parse_type_entry(*elem) matches Err(m) && err_matches(e, m)
            },
        },
{
    let name = match elem.attr("name") {
        Some(v) => v,
        None => {
            return Err(WsdlError::AttributeNotFound("name"));
        },
    };
    let child: &XmlElement = if str_eq(elem.name.as_str(), "complexType") {
        elem
    } else {
        match elem.first_child() {
            None => {
                return Err(WsdlError::Empty);
            },
            Some(c) => match c {
                XmlChild::Element(e) => e,
                _ => {
                    return Err(WsdlError::NotAnElement);
                },
            },
        }
    };
    if !str_eq(child.name.as_str(), "complexType") {
        return Err(WsdlError::ElementNotFound("complexType"));
    }
    if child.attr_is("abstract", "true") {
        proof {
            assert(pairs_view(Seq::<(String, (TypeAttribute, SimpleType))>::empty()) =~= Seq::<
                (Seq<char>, (TypeAttribute, SimpleTy)),
            >::empty());
        }
        return Ok((name.clone(), Type::Complex(ComplexType { fields: Vec::new() })));
    }
    let container = match child.find_child_not_named("annotation") {
        None => {
            return Err(WsdlError::Empty);
        },
        Some(c) => c,
    };
    if str_eq(container.name.as_str(), "complexContent") {
        proof {
            assert(pairs_view(Seq::<(String, (TypeAttribute, SimpleType))>::empty()) =~= Seq::<
                (Seq<char>, (TypeAttribute, SimpleTy)),
            >::empty());
        }
        return Ok((name.clone(), Type::Complex(ComplexType { fields: Vec::new() })));
    }
    let n = container.elem_child_count();
    let mut fields: Vec<(String, (TypeAttribute, SimpleType))> = Vec::new();
    let ghost full = spec_elem_children(container.children@);
    let mut i: usize = 0;
    proof {
        assert(full.skip(0) =~= full);
        assert(pairs_view(fields@) =~= Seq::<(Seq<char>, (TypeAttribute, SimpleTy))>::empty());
    }
    while i < n
        invariant
            n == full.len(),
            i <= n,
            full == spec_elem_children(container.children@),
            spec_parse_fields(full.skip(i as int), pairs_view(fields@)) == spec_parse_fields(
                full,
                Seq::empty(),
            ),
        decreases n - i,
    {
        let fel = container.elem_child(i);
        proof {
            assert(full.skip(i as int)[0] == full[i as int]);
            assert(full.skip(i as int).drop_first() =~= full.skip(i + 1));
        }
        match parse_field(fel) {
            Err(e) => {
                return Err(e);
            },
            Ok((k, v)) => {
                assoc_set(&mut fields, k, v);
            },
        }
        i += 1;
    }
    proof {
        assert(full.skip(n as int) =~= Seq::<XmlElement>::empty());
    }
    Ok((name.clone(), Type::Complex(ComplexType { fields })))
}

/// Parses the type table of the document: the children of the schema
/// element under `<types>`, each a named complex type.
#[verifier::loop_isolation(false)]
pub fn parse_types(root: &XmlElement) -> (r: Result<Vec<(String, Type)>, WsdlError>)
    ensures
        match r {
            Ok(v) => spec_parse_types(*root) == Ok::<_, WErr>(pairs_view(v@)),
            Err(e) => {
                &&& !(e is Parse)
                &&& spec_parse_types(*root) matches Err(m) && err_matches(e, m)
            },
        },
{
    let types_el_opt: Option<&XmlElement> = match root.get_child("types") {
        Some(t) => {
            if t.has_children() && t.elem_child_count() > 0 {
                Some(t.elem_child(0))
            } else {
                None
            }
        },
        None => None,
    };
    match types_el_opt {
        None => {
            let empty_table: Vec<(String, Type)> = Vec::new();
            proof {
                assert(pairs_view(empty_table@) =~= Seq::<(Seq<char>, TypeV)>::empty());
            }
            Ok(empty_table)
        },
        Some(te) => {
            let n = te.elem_child_count();
            let mut table: Vec<(String, Type)> = Vec::new();
            let ghost full = spec_elem_children(te.children@);
            let mut i: usize = 0;
            proof {
                assert(full.skip(0) =~= full);
                assert(pairs_view(table@) =~= Seq::<(Seq<char>, TypeV)>::empty());
            }
            while i < n
                invariant
                    n == full.len(),
                    i <= n,
                    full == spec_elem_children(te.children@),
                    spec_parse_type_list(full.skip(i as int), pairs_view(table@))
                        == spec_parse_type_list(full, Seq::empty()),
                decreases n - i,
            {
                let elem = te.elem_child(i);
                proof {
                    assert(full.skip(i as int)[0] == full[i as int]);
                    assert(full.skip(i as int).drop_first() =~= full.skip(i + 1));
                }
                match parse_type_entry(elem) {
                    Err(e) => {
                        return Err(e);
                    },
                    Ok((k, v)) => {
                        assoc_set(&mut table, k, v);
                    },
                }
                i += 1;
            }
            proof {
                assert(full.skip(n as int) =~= Seq::<XmlElement>::empty());
            }
            Ok(table)
        },
    }
}

/// Parses one `<message>` element into a message-table entry.
fn parse_message_entry(m: &XmlElement) -> (r: Result<(String, Message), WsdlError>)
    ensures
        match r {
            Ok(kv) => spec_parse_message(*m) == Ok::<_, WErr>(pair_view(kv)),
            Err(e) => {
                &&& !(e is Parse)
                &&& spec_parse_message(*m) matches Err(mm) && err_matches(e, mm)
            },
        },
{
    let name = match m.attr("name") {
        Some(v) => v,
        None => {
            return Err(WsdlError::AttributeNotFound("name"));
        },
    };
    if m.elem_child_count() == 0 {
        return Err(WsdlError::ElementNotFound("part"));
    }
    let c = m.elem_child(0);
    let part_name = match c.attr("name") {
        Some(v) => v,
        None => {
            return Err(WsdlError::AttributeNotFound("name"));
        },
    };
    let part_element = match c.attr("element") {
        Some(v) => v,
        None => {
            return Err(WsdlError::AttributeNotFound("element"));
        },
    };
    let part_element = split_namespace(part_element.as_str()).to_owned();
    Ok((name.clone(), Message { part_name: part_name.clone(), part_element }))
}

/// Parses the message table: the document's direct `message` children.
#[verifier::loop_isolation(false)]
pub fn parse_messages(root: &XmlElement) -> (r: Result<Vec<(String, Message)>, WsdlError>)
    ensures
        match r {
            Ok(v) => spec_parse_messages(*root) == Ok::<_, WErr>(pairs_view(v@)),
            Err(e) => {
                &&& !(e is Parse)
                &&& spec_parse_messages(*root) matches Err(m) && err_matches(e, m)
            },
        },
{
    let n = root.elem_child_count();
    let mut table: Vec<(String, Message)> = Vec::new();
    let ghost full = spec_elem_children(root.children@);
    let mut i: usize = 0;
    proof {
        assert(full.skip(0) =~= full);
        assert(pairs_view(table@) =~= Seq::<(Seq<char>, MessageV)>::empty());
    }
    while i < n
        invariant
            n == full.len(),
            i <= n,
            full == spec_elem_children(root.children@),
            spec_parse_message_list(full.skip(i as int), pairs_view(table@))
                == spec_parse_message_list(full, Seq::empty()),
        decreases n - i,
    {
        let elem = root.elem_child(i);
        proof {
            assert(full.skip(i as int)[0] == full[i as int]);
            assert(full.skip(i as int).drop_first() =~= full.skip(i + 1));
        }
        if str_eq(elem.name.as_str(), "message") {
            match parse_message_entry(elem) {
                Err(e) => {
                    return Err(e);
                },
                Ok((k, v)) => {
                    assoc_set(&mut table, k, v);
                },
            }
        }
        i += 1;
    }
    proof {
        assert(full.skip(n as int) =~= Seq::<XmlElement>::empty());
    }
    Ok(table)
}

/// Parses one operation element into an operation-table entry, on the
/// port-type path (`from_binding` false) or the binding path.
#[verifier::loop_isolation(false)]
fn parse_operation_entry(op: &XmlElement, from_binding: bool) -> (r: Result<
    (String, Operation),
    WsdlError,
>)
    ensures
        match r {
            Ok(kv) => spec_parse_operation(*op, from_binding) == Ok::<_, WErr>(pair_view(kv)),
            Err(e) => {
                &&& !(e is Parse)
                &&& spec_parse_operation(*op, from_binding) matches Err(m) && err_matches(e, m)
            },
        },
{
    let name = match op.attr("name") {
        Some(v) => v,
        None => {
            return Err(WsdlError::AttributeNotFound("name"));
        },
    };
    let n = op.elem_child_count();
    let ghost full = spec_elem_children(op.children@);
    let mut input: Option<String> = None;
    let mut output: Option<String> = None;
    let mut faults: Option<Vec<String>> = None;
    let mut i: usize = 0;
    proof {
        assert(full.skip(0) =~= full);
    }
    while i < n
        invariant
            n == full.len(),
            i <= n,
            full == spec_elem_children(op.children@),
            from_binding ==> spec_op_io_bind(
                full.skip(i as int),
                opt_str_view(input),
                opt_str_view(output),
                faults_view(faults),
            ) == spec_op_io_bind(full, None, None, None),
            !from_binding ==> spec_op_io(
                full.skip(i as int),
                opt_str_view(input),
                opt_str_view(output),
                faults_view(faults),
            ) == spec_op_io(full, None, None, None),
        decreases n - i,
    {
        let c = op.elem_child(i);
        proof {
            assert(full.skip(i as int)[0] == full[i as int]);
            assert(full.skip(i as int).drop_first() =~= full.skip(i + 1));
        }
        if from_binding {
            if c.has_children() {
                if str_eq(c.name.as_str(), "input") {
                    input = Some("LiteralRequest".to_owned());
                } else if str_eq(c.name.as_str(), "output") {
                    output = Some("LiteralResponse".to_owned());
                } else if str_eq(c.name.as_str(), "fault") {
                    push_fault(&mut faults, "literal".to_owned());
                } else {
                    return Err(WsdlError::ElementNotFound("operation member"));
                }
            }
        } else {
            match c.attr("message") {
                None => {},
                Some(msg) => {
                    let m = split_namespace(msg.as_str()).to_owned();
                    if str_eq(c.name.as_str(), "input") {
                        input = Some(m);
                    } else if str_eq(c.name.as_str(), "output") {
                        output = Some(m);
                    } else if str_eq(c.name.as_str(), "fault") {
                        push_fault(&mut faults, m);
                    } else {
                        return Err(WsdlError::ElementNotFound("operation member"));
                    }
                },
            }
        }
        i += 1;
    }
    proof {
        assert(full.skip(n as int) =~= Seq::<XmlElement>::empty());
    }
    let o = Operation { name: name.clone(), input, output, faults };
    Ok((name.clone(), o))
}

/// Appends a fault reference, creating the list on its first fault.
fn push_fault(faults: &mut Option<Vec<String>>, m: String)
    ensures
        faults_view(*final (faults)) == Some(
            (match *old(faults) {
                None => Seq::<Seq<char>>::empty(),
                Some(fs) => fs.deep_view(),
            }).push(m@),
        ),
{
    let ghost before = *old(faults);
    match faults {
        None => {
            let mut v: Vec<String> = Vec::new();
            v.push(m);
            proof {
                assert(v.deep_view() =~= Seq::<Seq<char>>::empty().push(v@[0]@));
            }
            *faults = Some(v);
        },
        Some(v) => {
            let ghost dv = v.deep_view();
            v.push(m);
            proof {
                assert(v.deep_view() =~= dv.push(m@));
            }
        },
    }
}

/// Parses the operation table, preferring `<portType>` and falling back
/// to `<binding>`.
#[verifier::loop_isolation(false)]
pub fn parse_operations(root: &XmlElement) -> (r: Result<Vec<(String, Operation)>, WsdlError>)
    ensures
        match r {
            Ok(v) => spec_parse_operations(*root) == Ok::<_, WErr>(pairs_view(v@)),
            Err(e) => {
                &&& !(e is Parse)
                &&& spec_parse_operations(*root) matches Err(m) && err_matches(e, m)
            },
        },
{
    let (holder, from_binding): (&XmlElement, bool) = match root.get_child("portType") {
        Some(pt) => (pt, false),
        None => match root.get_child("binding") {
            None => {
                return Err(WsdlError::ElementNotFound("binding"));
            },
            Some(b) => (b, true),
        },
    };
    let n = holder.elem_child_count();
    let mut table: Vec<(String, Operation)> = Vec::new();
    let ghost full = spec_elem_children(holder.children@);
    let mut i: usize = 0;
    proof {
        assert(full.skip(0) =~= full);
        assert(pairs_view(table@) =~= Seq::<(Seq<char>, OperationV)>::empty());
    }
    while i < n
        invariant
            n == full.len(),
            i <= n,
            full == spec_elem_children(holder.children@),
            spec_parse_op_list(full.skip(i as int), pairs_view(table@), from_binding)
                == spec_parse_op_list(full, Seq::empty(), from_binding),
        decreases n - i,
    {
        let elem = holder.elem_child(i);
        proof {
            assert(full.skip(i as int)[0] == full[i as int]);
            assert(full.skip(i as int).drop_first() =~= full.skip(i + 1));
        }
        if str_eq(elem.name.as_str(), "operation") {
            match parse_operation_entry(elem, from_binding) {
                Err(e) => {
                    return Err(e);
                },
                Ok((k, v)) => {
                    assoc_set(&mut table, k, v);
                },
            }
        }
        i += 1;
    }
    proof {
        assert(full.skip(n as int) =~= Seq::<XmlElement>::empty());
    }
    Ok(table)
}

/// Parses the bytes of a WSDL document into the intermediate model.
///
/// The element tree is built by the XML loader; everything read from it
/// is specified exactly by `spec_parse_wsdl`.
pub fn parse(bytes: &[u8]) -> (r: Result<Wsdl, WsdlError>)
    ensures
        match r {
            Ok(w) => xml_tree_of(bytes@) matches Some(root) && spec_parse_wsdl(root) == Ok::<
                _,
                WErr,
            >(w@),
            Err(e) => match e {
                WsdlError::Parse(_) => xml_tree_of(bytes@) is None,
                _ => xml_tree_of(bytes@) matches Some(root) && spec_parse_wsdl(root) matches Err(m)
                    && err_matches(e, m),
            },
        },
{
    let root = match parse_xml(bytes) {
        Ok(e) => e,
        Err(pe) => {
            return Err(WsdlError::Parse(pe));
        },
    };
    let target_namespace: String = match root.get_child("import") {
        Some(im) => match im.attr("namespace") {
            Some(ns) => ns.clone(),
            None => {
                return Err(WsdlError::AttributeNotFound("namespace"));
            },
        },
        None => match root.attr("targetNamespace") {
            Some(ns) => ns.clone(),
            None => {
                return Err(WsdlError::AttributeNotFound("targetNamespace"));
            },
        },
    };
    let service = match root.get_child("service") {
        Some(svc) => svc,
        None => {
            return Err(WsdlError::ElementNotFound("service"));
        },
    };
    let service_name = match service.attr("name") {
        Some(v) => v.clone(),
        None => {
            return Err(WsdlError::AttributeNotFound("name"));
        },
    };
    let types = match parse_types(&root) {
        Ok(t) => t,
        Err(e) => {
            return Err(e);
        },
    };
    let messages = match parse_messages(&root) {
        Ok(t) => t,
        Err(e) => {
            return Err(e);
        },
    };
    let operations = match parse_operations(&root) {
        Ok(t) => t,
        Err(e) => {
            return Err(e);
        },
    };
    Ok(Wsdl { name: service_name, target_namespace, types, messages, operations })
}

} // verus!
