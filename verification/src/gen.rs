//! The code emitter: turns the intermediate model into the source text of
//! a typed client, with value objects, XML bindings, message wrappers,
//! fault unions and a service object.
//!
//! Every emitting function is specified exactly: it returns precisely the
//! character sequence its spec-level counterpart describes, so the whole
//! artifact is a function of the model alone.

use vstd::prelude::*;
use vstd::string::{StrSliceExecFns, StringExecFns};
use crate::names::{spec_camel, spec_snake, to_camel, to_snake};
use crate::wsdl::{ComplexType, ComplexTypeV, Message, MessageV, Occurence, Operation, OperationV,
    SimpleTy, SimpleType, Type, TypeAttribute, TypeV, Wsdl, WsdlV, pairs_view, pair_view,
    spec_assoc_find, spec_parse_wsdl, spec_normalize, assoc_contains};
use crate::xml::{XmlElement, xml_tree_of};

verus! {

/// Serialization half of the emitted bindings: a value renders itself as
/// a flat ordered list of elements.  Emitted value objects implement it;
/// the blanket impls below give the wrappers for optional and repeated
/// values.
pub trait ToElements {
    fn to_elements(&self) -> Vec<XmlElement>;
}

/// Deserialization half of the emitted bindings: a value is rebuilt from
/// one parent element.
pub trait FromElement: Sized {
    fn from_element(element: &XmlElement) -> Result<Self, crate::Error>;
}

impl<T: ToElements> ToElements for Option<T> {
    /// An absent value renders as no elements at all.
    fn to_elements(&self) -> Vec<XmlElement> {
        match self {
            Some(e) => e.to_elements(),
            None => Vec::new(),
        }
    }
}

impl<T: ToElements> ToElements for Vec<T> {
    /// A list renders as the concatenation of its items' elements.
    fn to_elements(&self) -> Vec<XmlElement> {
        let mut out: Vec<XmlElement> = Vec::new();
        let mut i: usize = 0;
        while i < self.len()
            decreases self.len() - i,
        {
            let mut es = (&self[i]).to_elements();
            out.append(&mut es);
            i += 1;
        }
        out
    }
}

/// The declaration of the standard IO error type; a `GenError::Io`
/// carries it opaquely.
#[verifier::external_type_specification]
#[verifier::external_body]
pub struct ExIoError(std::io::Error);

/// A generation-time failure: only writing the artifact can fail.
#[derive(Debug)]
pub enum GenError {
    Io(std::io::Error),
}

impl From<std::io::Error> for GenError {
    fn from(e: std::io::Error) -> (r: Self) {
        GenError::Io(e)
    }
}

impl vstd::std_specs::convert::FromSpecImpl<std::io::Error> for GenError {
    open spec fn obeys_from_spec() -> bool {
        true
    }

    open spec fn from_spec(e: std::io::Error) -> Self {
        GenError::Io(e)
    }
}

/// The host-language type a scalar schema type maps to.
pub open spec fn spec_base_type(st: SimpleTy) -> Seq<char> {
    match st {
        SimpleTy::Boolean => "bool"@,
        SimpleTy::Str => "String"@,
        SimpleTy::Float => "f64"@,
        SimpleTy::Int => "i64"@,
        SimpleTy::DateTime => "chrono::DateTime"@,
        SimpleTy::Complex(s) => spec_camel(s),
    }
}

/// Executable form of `spec_base_type`.
pub fn base_type(st: &SimpleType) -> (r: String)
    ensures
        r@ == spec_base_type(st@),
{
    match st {
        SimpleType::Boolean => "bool".to_owned(),
        SimpleType::String => "String".to_owned(),
        SimpleType::Float => "f64".to_owned(),
        SimpleType::Int => "i64".to_owned(),
        SimpleType::DateTime => "chrono::DateTime".to_owned(),
        SimpleType::Complex(s) => to_camel(s.as_str()),
    }
}

/// The observable shape of a field: a bare scalar, an optional value, or
/// a list.
pub enum FieldShape {
    Scalar,
    Optional,
    List,
}

/// The cardinality shape of a field's attributes: `(0, 1)` is optional,
/// `(1, 1)` is a bare scalar, any other two-sided bound is a list, and
/// everything else is a bare scalar.
pub open spec fn spec_field_shape(a: TypeAttribute) -> FieldShape {
    if a.min_occurs == Some(Occurence::Num(0)) && a.max_occurs == Some(Occurence::Num(1)) {
        FieldShape::Optional
    } else if a.min_occurs == Some(Occurence::Num(1)) && a.max_occurs == Some(Occurence::Num(1)) {
        FieldShape::Scalar
    } else if a.min_occurs is Some && a.max_occurs is Some {
        FieldShape::List
    } else {
        FieldShape::Scalar
    }
}

/// The declared type of a field: the base type under the cardinality
/// wrapper, wrapped once more in an optional when the field is nillable.
pub open spec fn spec_field_type(a: TypeAttribute, st: SimpleTy) -> Seq<char> {
    let base = spec_base_type(st);
    let core = match spec_field_shape(a) {
        FieldShape::Optional => "Option<"@ + base + ">"@,
        FieldShape::Scalar => base,
        FieldShape::List => "Vec<"@ + base + ">"@,
    };
    if a.nillable {
        "Option<"@ + core + ">"@
    } else {
        core
    }
}

/// Executable form of `spec_field_shape`.
pub fn field_shape(a: &TypeAttribute) -> (r: FieldShape)
    ensures
        r == spec_field_shape(*a),
{
    match (a.min_occurs, a.max_occurs) {
        (Some(Occurence::Num(0)), Some(Occurence::Num(1))) => FieldShape::Optional,
        (Some(Occurence::Num(1)), Some(Occurence::Num(1))) => FieldShape::Scalar,
        (Some(_), Some(_)) => FieldShape::List,
        _ => FieldShape::Scalar,
    }
}

/// Executable form of `spec_field_type`.
pub fn field_type(a: &TypeAttribute, st: &SimpleType) -> (r: String)
    ensures
        r@ == spec_field_type(*a, st@),
{
    let base = base_type(st);
    let core = match field_shape(a) {
        FieldShape::Optional => {
            let mut s = "Option<".to_owned();
            s.append(base.as_str());
            s.append(">");
            proof {
                assert(s@ =~= "Option<"@ + spec_base_type(st@) + ">"@);
            }
            s
        },
        FieldShape::Scalar => base,
        FieldShape::List => {
            let mut s = "Vec<".to_owned();
            s.append(base.as_str());
            s.append(">");
            proof {
                assert(s@ =~= "Vec<"@ + spec_base_type(st@) + ">"@);
            }
            s
        },
    };
    if a.nillable {
        let mut s = "Option<".to_owned();
        s.append(core.as_str());
        s.append(">");
        proof {
            assert(s@ =~= "Option<"@ + core@ + ">"@);
        }
        s
    } else {
        core
    }
}

/// One field of an emitted value object: its mangled name and its
/// declared type.
pub open spec fn spec_field_decl(fname: Seq<char>, a: TypeAttribute, st: SimpleTy) -> Seq<char> {
    "    pub "@ + spec_snake(fname) + ": "@ + spec_field_type(a, st) + ",\n"@
}

/// Executable form of `spec_field_decl`.
pub fn field_decl(fname: &str, a: &TypeAttribute, st: &SimpleType) -> (r: String)
    ensures
        r@ == spec_field_decl(fname@, *a, st@),
{
    let mut out = "    pub ".to_owned();
    let sn = to_snake(fname);
    out.append(sn.as_str());
    out.append(": ");
    let ft = field_type(a, st);
    out.append(ft.as_str());
    out.append(",\n");
    proof {
        assert(out@ =~= spec_field_decl(fname@, *a, st@));
    }
    out
}

/// The element-builder expression for a field, keyed by the field's raw
/// (unmangled) name.
pub open spec fn spec_node_expr(fname: Seq<char>) -> Seq<char> {
    "xmltree::Element::node(\""@ + fname + "\")"@
}

/// The item serializer inside a repeated field's map: nested elements for
/// a complex item, the text form for a scalar item.
pub open spec fn spec_ser_item(fname: Seq<char>, st: SimpleTy) -> Seq<char> {
    match st {
        SimpleTy::Complex(_) => spec_node_expr(fname) + ".with_children(i.to_elements())"@,
        _ => spec_node_expr(fname) + ".with_text(i.to_string())"@,
    }
}

/// The serializer line of one field: a single element for a scalar (text
/// for simple types, nested elements for complex ones), one element per
/// item for a list, and nothing when an optional list is absent.
pub open spec fn spec_ser_field(fname: Seq<char>, a: TypeAttribute, st: SimpleTy) -> Seq<char> {
    let sn = spec_snake(fname);
    match spec_field_shape(a) {
        FieldShape::List => {
            if a.nillable {
                "        e.extend(self."@ + sn + ".as_ref().map(|v| v.iter().map(|i| "@
                    + spec_ser_item(fname, st) + ").collect::<Vec<_>>()).unwrap_or_default());\n"@
            } else {
                "        e.extend(self."@ + sn + ".iter().map(|i| "@ + spec_ser_item(fname, st)
                    + ").collect::<Vec<_>>());\n"@
            }
        },
        _ => {
            match st {
                SimpleTy::Complex(_) => "        e.extend(vec!["@ + spec_node_expr(fname)
                    + ".with_children(self."@ + sn + ".to_elements())]);\n"@,
                _ => "        e.extend(vec!["@ + spec_node_expr(fname) + ".with_text(self."@ + sn
                    + ".to_string())]);\n"@,
            }
        },
    }
}

/// Executable form of `spec_node_expr`.
fn node_expr(fname: &str) -> (r: String)
    ensures
        r@ == spec_node_expr(fname@),
{
    let mut out = "xmltree::Element::node(\"".to_owned();
    out.append(fname);
    out.append("\")");
    proof {
        assert(out@ =~= spec_node_expr(fname@));
    }
    out
}

/// Executable form of `spec_ser_item`.
fn ser_item(fname: &str, st: &SimpleType) -> (r: String)
    ensures
        r@ == spec_ser_item(fname@, st@),
{
    let mut out = node_expr(fname);
    match st {
        SimpleType::Complex(_) => {
            out.append(".with_children(i.to_elements())");
        },
        _ => {
            out.append(".with_text(i.to_string())");
        },
    }
    out
}

/// Executable form of `spec_ser_field`.
fn ser_field(fname: &str, a: &TypeAttribute, st: &SimpleType) -> (r: String)
    ensures
        r@ == spec_ser_field(fname@, *a, st@),
{
    let sn = to_snake(fname);
    match field_shape(a) {
        FieldShape::List => {
            if a.nillable {
                let mut out = "        e.extend(self.".to_owned();
                out.append(sn.as_str());
                out.append(".as_ref().map(|v| v.iter().map(|i| ");
                let it = ser_item(fname, st);
                out.append(it.as_str());
                out.append(").collect::<Vec<_>>()).unwrap_or_default());\n");
                proof {
                    assert(out@ =~= spec_ser_field(fname@, *a, st@));
                }
                out
            } else {
                let mut out = "        e.extend(self.".to_owned();
                out.append(sn.as_str());
                out.append(".iter().map(|i| ");
                let it = ser_item(fname, st);
                out.append(it.as_str());
                out.append(").collect::<Vec<_>>());\n");
                proof {
                    assert(out@ =~= spec_ser_field(fname@, *a, st@));
                }
                out
            }
        },
        _ => {
            let ne = node_expr(fname);
            match st {
                SimpleType::Complex(_) => {
                    let mut out = "        e.extend(vec![".to_owned();
                    out.append(ne.as_str());
                    out.append(".with_children(self.");
                    out.append(sn.as_str());
                    out.append(".to_elements())]);\n");
                    proof {
                        assert(out@ =~= spec_ser_field(fname@, *a, st@));
                    }
                    out
                },
                _ => {
                    let mut out = "        e.extend(vec![".to_owned();
                    out.append(ne.as_str());
                    out.append(".with_text(self.");
                    out.append(sn.as_str());
                    out.append(".to_string())]);\n");
                    proof {
                        assert(out@ =~= spec_ser_field(fname@, *a, st@));
                    }
                    out
                },
            }
        },
    }
}

/// The per-item conversion inside a repeated field's deserializer loop.
pub open spec fn spec_deser_item(st: SimpleTy) -> Seq<char> {
    match st {
        SimpleTy::Complex(s) => spec_camel(s) + "::from_element(child).map_err(savon::Error::from)"@,
        SimpleTy::Boolean => "child.as_boolean().map_err(savon::Error::from)"@,
        SimpleTy::Int => "child.as_long().map_err(savon::Error::from)"@,
        SimpleTy::Str => "child.get_text().map(|s| s.to_string()).ok_or(savon::rpser::xml::Error::Empty).map_err(savon::Error::from)"@,
        SimpleTy::Float => "child.get_text().ok_or(savon::rpser::xml::Error::Empty).map_err(savon::Error::from).and_then(|s| s.parse::<f64>().map_err(savon::Error::from))"@,
        SimpleTy::DateTime => "child.get_text().ok_or(savon::rpser::xml::Error::Empty).map_err(savon::Error::from).and_then(|s| s.parse::<savon::internal::chrono::DateTime<savon::internal::chrono::offset::Utc>>().map_err(savon::Error::from))"@,
    }
}

/// Executable form of `spec_deser_item`.
fn deser_item(st: &SimpleType) -> (r: String)
    ensures
        r@ == spec_deser_item(st@),
{
    match st {
        SimpleType::Complex(s) => {
            let mut out = to_camel(s.as_str());
            out.append("::from_element(child).map_err(savon::Error::from)");
            out
        },
        SimpleType::Boolean => "child.as_boolean().map_err(savon::Error::from)".to_owned(),
        SimpleType::Int => "child.as_long().map_err(savon::Error::from)".to_owned(),
        SimpleType::String => "child.get_text().map(|s| s.to_string()).ok_or(savon::rpser::xml::Error::Empty).map_err(savon::Error::from)".to_owned(),
        SimpleType::Float => "child.get_text().ok_or(savon::rpser::xml::Error::Empty).map_err(savon::Error::from).and_then(|s| s.parse::<f64>().map_err(savon::Error::from))".to_owned(),
        SimpleType::DateTime => "child.get_text().ok_or(savon::rpser::xml::Error::Empty).map_err(savon::Error::from).and_then(|s| s.parse::<savon::internal::chrono::DateTime<savon::internal::chrono::offset::Utc>>().map_err(savon::Error::from))".to_owned(),
    }
}

/// The scalar conversion chain of a field's deserializer, from the child
/// looked up by the field's raw name.
pub open spec fn spec_deser_scalar(fname: Seq<char>, st: SimpleTy) -> Seq<char> {
    let path = "element.get_at_path(&[\""@ + fname + "\"])"@;
    match st {
        SimpleTy::Boolean => path + ".and_then(|e| e.as_boolean())"@,
        SimpleTy::Int => path + ".and_then(|e| e.as_long())"@,
        SimpleTy::Str => path + ".and_then(|e| e.get_text().map(|s| s.to_string()).ok_or(savon::rpser::xml::Error::Empty))"@,
        SimpleTy::Float => path + ".map_err(savon::Error::from).and_then(|e| e.get_text().ok_or(savon::rpser::xml::Error::Empty).map_err(savon::Error::from).and_then(|s| s.parse().map_err(savon::Error::from)))"@,
        SimpleTy::DateTime => path + ".and_then(|e| e.get_text().ok_or(savon::rpser::xml::Error::Empty)).map_err(savon::Error::from).and_then(|s| s.parse::<savon::internal::chrono::DateTime<savon::internal::chrono::offset::Utc>>().map_err(savon::Error::from))"@,
        SimpleTy::Complex(s) => path + ".map_err(savon::Error::from).and_then(|e| "@ + spec_camel(
            s,
        ) + "::from_element(&e).map_err(savon::Error::from))"@,
    }
}

/// Executable form of `spec_deser_scalar`.
fn deser_scalar(fname: &str, st: &SimpleType) -> (r: String)
    ensures
        r@ == spec_deser_scalar(fname@, st@),
{
    let mut out = "element.get_at_path(&[\"".to_owned();
    out.append(fname);
    out.append("\"])");
    match st {
        SimpleType::Boolean => {
            out.append(".and_then(|e| e.as_boolean())");
        },
        SimpleType::Int => {
            out.append(".and_then(|e| e.as_long())");
        },
        SimpleType::String => {
            out.append(
                ".and_then(|e| e.get_text().map(|s| s.to_string()).ok_or(savon::rpser::xml::Error::Empty))",
            );
        },
        SimpleType::Float => {
            out.append(
                ".map_err(savon::Error::from).and_then(|e| e.get_text().ok_or(savon::rpser::xml::Error::Empty).map_err(savon::Error::from).and_then(|s| s.parse().map_err(savon::Error::from)))",
            );
        },
        SimpleType::DateTime => {
            out.append(
                ".and_then(|e| e.get_text().ok_or(savon::rpser::xml::Error::Empty)).map_err(savon::Error::from).and_then(|s| s.parse::<savon::internal::chrono::DateTime<savon::internal::chrono::offset::Utc>>().map_err(savon::Error::from))",
            );
        },
        SimpleType::Complex(s) => {
            out.append(".map_err(savon::Error::from).and_then(|e| ");
            let cm = to_camel(s.as_str());
            out.append(cm.as_str());
            out.append("::from_element(&e).map_err(savon::Error::from))");
        },
    }
    proof {
        assert(out@ =~= spec_deser_scalar(fname@, st@));
    }
    out
}

/// The deserializer line of one field.  A repeated field iterates every
/// element child of the parent; a scalar field converts the child looked
/// up by name; a nillable scalar recovers any failure to an absent
/// value.
pub open spec fn spec_deser_field(fname: Seq<char>, a: TypeAttribute, st: SimpleTy) -> Seq<char> {
    let sn = spec_snake(fname);
    let expr = match spec_field_shape(a) {
        FieldShape::List => {
            let block =
                "{ let mut v = vec![]; for child in element.children.iter().filter_map(|c| c.as_element()) { v.push("@
                + spec_deser_item(st) + "?); } v }"@;
            if a.nillable {
                "Some("@ + block + ")"@
            } else {
                block
            }
        },
        _ => {
            if a.nillable {
                spec_deser_scalar(fname, st) + ".ok()"@
            } else {
                spec_deser_scalar(fname, st) + "?"@
            }
        },
    };
    "            "@ + sn + ": "@ + expr + ",\n"@
}

/// Executable form of `spec_deser_field`.
fn deser_field(fname: &str, a: &TypeAttribute, st: &SimpleType) -> (r: String)
    ensures
        r@ == spec_deser_field(fname@, *a, st@),
{
    let sn = to_snake(fname);
    let mut out = "            ".to_owned();
    out.append(sn.as_str());
    out.append(": ");
    match field_shape(a) {
        FieldShape::List => {
            if a.nillable {
                out.append("Some(");
            }
            out.append(
                "{ let mut v = vec![]; for child in element.children.iter().filter_map(|c| c.as_element()) { v.push(",
            );
            let it = deser_item(st);
            out.append(it.as_str());
            out.append("?); } v }");
            if a.nillable {
                out.append(")");
            }
        },
        _ => {
            let sc = deser_scalar(fname, st);
            out.append(sc.as_str());
            if a.nillable {
                out.append(".ok()");
            } else {
                out.append("?");
            }
        },
    }
    out.append(",\n");
    proof {
        assert(out@ =~= spec_deser_field(fname@, *a, st@));
    }
    out
}

/// The declaration lines of all fields, in table order.
pub open spec fn spec_fields_decls(fs: Seq<(Seq<char>, (TypeAttribute, SimpleTy))>) -> Seq<char>
    decreases fs.len(),
{
    if fs.len() == 0 {
        Seq::empty()
    } else {
        spec_field_decl(fs[0].0, fs[0].1.0, fs[0].1.1) + spec_fields_decls(fs.drop_first())
    }
}

/// The serializer lines of all fields, in table order.
pub open spec fn spec_fields_sers(fs: Seq<(Seq<char>, (TypeAttribute, SimpleTy))>) -> Seq<char>
    decreases fs.len(),
{
    if fs.len() == 0 {
        Seq::empty()
    } else {
        spec_ser_field(fs[0].0, fs[0].1.0, fs[0].1.1) + spec_fields_sers(fs.drop_first())
    }
}

/// The deserializer lines of all fields, in table order.
pub open spec fn spec_fields_desers(fs: Seq<(Seq<char>, (TypeAttribute, SimpleTy))>) -> Seq<char>
    decreases fs.len(),
{
    if fs.len() == 0 {
        Seq::empty()
    } else {
        spec_deser_field(fs[0].0, fs[0].1.0, fs[0].1.1) + spec_fields_desers(fs.drop_first())
    }
}

#[verifier::loop_isolation(false)]
fn fields_decls(fields: &Vec<(String, (TypeAttribute, SimpleType))>) -> (r: String)
    ensures
        r@ == spec_fields_decls(pairs_view(fields@)),
{
    let ghost fs = pairs_view(fields@);
    let mut out = String::new();
    let mut i: usize = 0;
    proof {
        assert(fs.skip(0) =~= fs);
        assert(out@ + spec_fields_decls(fs) =~= spec_fields_decls(fs));
    }
    while i < fields.len()
        invariant
            i <= fields.len(),
            out@ + spec_fields_decls(fs.skip(i as int)) == spec_fields_decls(fs),
        decreases fields.len() - i,
    {
        proof {
            assert(fs.skip(i as int)[0] == fs[i as int]);
            assert(fs.skip(i as int).drop_first() =~= fs.skip(i + 1));
        }
        let ghost pre = out@;
        let d = field_decl(fields[i].0.as_str(), &fields[i].1.0, &fields[i].1.1);
        out.append(d.as_str());
        proof {
            assert(out@ + spec_fields_decls(fs.skip(i + 1)) =~= pre + spec_fields_decls(
                fs.skip(i as int),
            ));
        }
        i += 1;
    }
    proof {
        assert(fs.skip(fields@.len() as int) =~= Seq::<
            (Seq<char>, (TypeAttribute, SimpleTy)),
        >::empty());
    }
    out
}

#[verifier::loop_isolation(false)]
fn fields_sers(fields: &Vec<(String, (TypeAttribute, SimpleType))>) -> (r: String)
    ensures
        r@ == spec_fields_sers(pairs_view(fields@)),
{
    let ghost fs = pairs_view(fields@);
    let mut out = String::new();
    let mut i: usize = 0;
    proof {
        assert(fs.skip(0) =~= fs);
        assert(out@ + spec_fields_sers(fs) =~= spec_fields_sers(fs));
    }
    while i < fields.len()
        invariant
            i <= fields.len(),
            out@ + spec_fields_sers(fs.skip(i as int)) == spec_fields_sers(fs),
        decreases fields.len() - i,
    {
        proof {
            assert(fs.skip(i as int)[0] == fs[i as int]);
            assert(fs.skip(i as int).drop_first() =~= fs.skip(i + 1));
        }
        let ghost pre = out@;
        let d = ser_field(fields[i].0.as_str(), &fields[i].1.0, &fields[i].1.1);
        out.append(d.as_str());
        proof {
            assert(out@ + spec_fields_sers(fs.skip(i + 1)) =~= pre + spec_fields_sers(
                fs.skip(i as int),
            ));
        }
        i += 1;
    }
    proof {
        assert(fs.skip(fields@.len() as int) =~= Seq::<
            (Seq<char>, (TypeAttribute, SimpleTy)),
        >::empty());
    }
    out
}

#[verifier::loop_isolation(false)]
fn fields_desers(fields: &Vec<(String, (TypeAttribute, SimpleType))>) -> (r: String)
    ensures
        r@ == spec_fields_desers(pairs_view(fields@)),
{
    let ghost fs = pairs_view(fields@);
    let mut out = String::new();
    let mut i: usize = 0;
    proof {
        assert(fs.skip(0) =~= fs);
        assert(out@ + spec_fields_desers(fs) =~= spec_fields_desers(fs));
    }
    while i < fields.len()
        invariant
            i <= fields.len(),
            out@ + spec_fields_desers(fs.skip(i as int)) == spec_fields_desers(fs),
        decreases fields.len() - i,
    {
        proof {
            assert(fs.skip(i as int)[0] == fs[i as int]);
            assert(fs.skip(i as int).drop_first() =~= fs.skip(i + 1));
        }
        let ghost pre = out@;
        let d = deser_field(fields[i].0.as_str(), &fields[i].1.0, &fields[i].1.1);
        out.append(d.as_str());
        proof {
            assert(out@ + spec_fields_desers(fs.skip(i + 1)) =~= pre + spec_fields_desers(
                fs.skip(i as int),
            ));
        }
        i += 1;
    }
    proof {
        assert(fs.skip(fields@.len() as int) =~= Seq::<
            (Seq<char>, (TypeAttribute, SimpleTy)),
        >::empty());
    }
    out
}

/// The emitted text of one named complex type: the value object, its
/// serializer and its deserializer.  A type with no fields gets a trivial
/// serializer producing no elements and a trivial deserializer producing
/// the default instance.
pub open spec fn spec_type_text(name: Seq<char>, c: ComplexTypeV) -> Seq<char> {
    let camel = spec_camel(name);
    let decls = "#[derive(Clone, Debug, Default)]\npub struct "@ + camel + " {\n"@
        + spec_fields_decls(c.fields) + "}\n\n"@;
    let ser = if c.fields.len() == 0 {
        "impl savon::gen::ToElements for "@ + camel
            + " {\n    fn to_elements(&self) -> Vec<xmltree::Element> {\n        vec![]\n    }\n}\n\n"@
    } else {
        "impl savon::gen::ToElements for "@ + camel
            + " {\n    fn to_elements(&self) -> Vec<xmltree::Element> {\n        let mut e = vec![];\n"@
            + spec_fields_sers(c.fields) + "        e\n    }\n}\n\n"@
    };
    let deser = if c.fields.len() == 0 {
        "impl savon::gen::FromElement for "@ + camel
            + " {\n    fn from_element(_element: &xmltree::Element) -> Result<Self, savon::Error> {\n        Ok("@
            + camel + " { })\n    }\n}\n\n"@
    } else {
        "impl savon::gen::FromElement for "@ + camel
            + " {\n    fn from_element(element: &xmltree::Element) -> Result<Self, savon::Error> {\n        Ok("@
            + camel + " {\n"@ + spec_fields_desers(c.fields) + "        })\n    }\n}\n\n"@
    };
    decls + ser + deser
}

/// Executable form of `spec_type_text`.
fn type_text(name: &str, c: &ComplexType) -> (r: String)
    ensures
        r@ == spec_type_text(name@, c@),
{
    let camel = to_camel(name);
    let mut out = "#[derive(Clone, Debug, Default)]\npub struct ".to_owned();
    out.append(camel.as_str());
    out.append(" {\n");
    let d = fields_decls(&c.fields);
    out.append(d.as_str());
    out.append("}\n\n");
    out.append("impl savon::gen::ToElements for ");
    out.append(camel.as_str());
    if c.fields.len() == 0 {
        out.append(
            " {\n    fn to_elements(&self) -> Vec<xmltree::Element> {\n        vec![]\n    }\n}\n\n",
        );
    } else {
        out.append(
            " {\n    fn to_elements(&self) -> Vec<xmltree::Element> {\n        let mut e = vec![];\n",
        );
        let s = fields_sers(&c.fields);
        out.append(s.as_str());
        out.append("        e\n    }\n}\n\n");
    }
    out.append("impl savon::gen::FromElement for ");
    out.append(camel.as_str());
    if c.fields.len() == 0 {
        out.append(
            " {\n    fn from_element(_element: &xmltree::Element) -> Result<Self, savon::Error> {\n        Ok(",
        );
        out.append(camel.as_str());
        out.append(" { })\n    }\n}\n\n");
    } else {
        out.append(
            " {\n    fn from_element(element: &xmltree::Element) -> Result<Self, savon::Error> {\n        Ok(",
        );
        out.append(camel.as_str());
        out.append(" {\n");
        let ds = fields_desers(&c.fields);
        out.append(ds.as_str());
        out.append("        })\n    }\n}\n\n");
    }
    proof {
        assert(out@ =~= spec_type_text(name@, c@));
    }
    out
}

/// The types section: the text of every complex entry of the type table,
/// in table order.
pub open spec fn spec_types_text(ts: Seq<(Seq<char>, TypeV)>) -> Seq<char>
    decreases ts.len(),
{
    if ts.len() == 0 {
        Seq::empty()
    } else {
        (match ts[0].1 {
            TypeV::Complex(c) => spec_type_text(ts[0].0, c),
            TypeV::Simple(_) => Seq::empty(),
        }) + spec_types_text(ts.drop_first())
    }
}

#[verifier::loop_isolation(false)]
fn gen_types(types: &Vec<(String, Type)>) -> (r: String)
    ensures
        r@ == spec_types_text(pairs_view(types@)),
{
    let ghost ts = pairs_view(types@);
    let mut out = String::new();
    let mut i: usize = 0;
    proof {
        assert(ts.skip(0) =~= ts);
        assert(out@ + spec_types_text(ts) =~= spec_types_text(ts));
    }
    while i < types.len()
        invariant
            i <= types.len(),
            out@ + spec_types_text(ts.skip(i as int)) == spec_types_text(ts),
        decreases types.len() - i,
    {
        proof {
            assert(ts.skip(i as int)[0] == ts[i as int]);
            assert(ts.skip(i as int).drop_first() =~= ts.skip(i + 1));
        }
        let ghost pre = out@;
        match &types[i].1 {
            Type::Complex(c) => {
                let t = type_text(types[i].0.as_str(), c);
                out.append(t.as_str());
            },
            Type::Simple(_) => {},
        }
        proof {
            assert(out@ + spec_types_text(ts.skip(i + 1)) =~= pre + spec_types_text(
                ts.skip(i as int),
            ));
        }
        i += 1;
    }
    proof {
        assert(ts.skip(types@.len() as int) =~= Seq::<(Seq<char>, TypeV)>::empty());
    }
    out
}

/// The emitted text of one message wrapper: a thin object over the
/// referenced type, forwarding both bindings to it.
pub open spec fn spec_message_text(name: Seq<char>, m: MessageV) -> Seq<char> {
    let camel = spec_camel(name);
    let inner = spec_camel(m.part_element);
    "#[derive(Clone, Debug, Default)]\npub struct "@ + camel + "(pub types::"@ + inner
        + ");\n\n"@ + "impl savon::gen::ToElements for "@ + camel
        + " {\n    fn to_elements(&self) -> Vec<xmltree::Element> {\n        self.0.to_elements()\n    }\n}\n\n"@
        + "impl savon::gen::FromElement for "@ + camel
        + " {\n    fn from_element(element: &xmltree::Element) -> Result<Self, savon::Error> {\n        types::"@
        + inner + "::from_element(element).map("@ + camel + ")\n    }\n}\n\n"@
}

/// Executable form of `spec_message_text`.
fn message_text(name: &str, m: &Message) -> (r: String)
    ensures
        r@ == spec_message_text(name@, m@),
{
    let camel = to_camel(name);
    let inner = to_camel(m.part_element.as_str());
    let mut out = "#[derive(Clone, Debug, Default)]\npub struct ".to_owned();
    out.append(camel.as_str());
    out.append("(pub types::");
    out.append(inner.as_str());
    out.append(");\n\n");
    out.append("impl savon::gen::ToElements for ");
    out.append(camel.as_str());
    out.append(
        " {\n    fn to_elements(&self) -> Vec<xmltree::Element> {\n        self.0.to_elements()\n    }\n}\n\n",
    );
    out.append("impl savon::gen::FromElement for ");
    out.append(camel.as_str());
    out.append(
        " {\n    fn from_element(element: &xmltree::Element) -> Result<Self, savon::Error> {\n        types::",
    );
    out.append(inner.as_str());
    out.append("::from_element(element).map(");
    out.append(camel.as_str());
    out.append(")\n    }\n}\n\n");
    proof {
        assert(out@ =~= spec_message_text(name@, m@));
    }
    out
}

/// The messages section: a wrapper for every message whose name is not
/// also a type-table key; colliding names are suppressed, since the type
/// itself already carries the bindings.
pub open spec fn spec_messages_text(
    ms: Seq<(Seq<char>, MessageV)>,
    types: Seq<(Seq<char>, TypeV)>,
) -> Seq<char>
    decreases ms.len(),
{
    if ms.len() == 0 {
        Seq::empty()
    } else {
        (if spec_assoc_find(types, ms[0].0) is Some {
            Seq::empty()
        } else {
            spec_message_text(ms[0].0, ms[0].1)
        }) + spec_messages_text(ms.drop_first(), types)
    }
}

#[verifier::loop_isolation(false)]
fn gen_messages(messages: &Vec<(String, Message)>, types: &Vec<(String, Type)>) -> (r: String)
    ensures
        r@ == spec_messages_text(pairs_view(messages@), pairs_view(types@)),
{
    let ghost ms = pairs_view(messages@);
    let ghost ts = pairs_view(types@);
    let mut out = String::new();
    let mut i: usize = 0;
    proof {
        assert(ms.skip(0) =~= ms);
        assert(out@ + spec_messages_text(ms, ts) =~= spec_messages_text(ms, ts));
    }
    while i < messages.len()
        invariant
            i <= messages.len(),
            out@ + spec_messages_text(ms.skip(i as int), ts) == spec_messages_text(ms, ts),
        decreases messages.len() - i,
    {
        proof {
            assert(ms.skip(i as int)[0] == ms[i as int]);
            assert(ms.skip(i as int).drop_first() =~= ms.skip(i + 1));
        }
        let ghost pre = out@;
        if !assoc_contains(types, messages[i].0.as_str()) {
            let t = message_text(messages[i].0.as_str(), &messages[i].1);
            out.append(t.as_str());
        }
        proof {
            assert(out@ + spec_messages_text(ms.skip(i + 1), ts) =~= pre + spec_messages_text(
                ms.skip(i as int),
                ts,
            ));
        }
        i += 1;
    }
    proof {
        assert(ms.skip(messages@.len() as int) =~= Seq::<(Seq<char>, MessageV)>::empty());
    }
    out
}

/// The emitted method of one operation, named by its table key.  An
/// operation with an input alone dispatches one way; one with an input
/// and an output dispatches request-response; one that also declares
/// faults gets a stub that panics at runtime; an operation with faults
/// but no output is skipped.
pub open spec fn spec_operation_text(tns: Seq<char>, name: Seq<char>, op: OperationV) -> Seq<
    char,
> {
    match op.input {
        None => Seq::empty(),
        Some(input) => {
            let head = "    pub async fn "@ + spec_snake(name) + "(&self, "@ + spec_snake(input)
                + ": messages::"@ + spec_camel(input) + ") -> "@;
            match (op.output, op.faults) {
                (None, None) => head
                    + "Result<(), savon::Error> {\n        savon::http::one_way(&self.client, &self.base_url, \""@
                    + tns + "\", \""@ + name + "\", &"@ + spec_snake(input)
                    + ").await\n    }\n\n"@,
                (None, Some(_)) => Seq::empty(),
                (Some(out), None) => head + "Result<Result<messages::"@ + spec_camel(out)
                    + ", ()>, savon::Error> {\n        savon::http::request_response(&self.client, &self.base_url, \""@
                    + tns + "\", \""@ + name + "\", &"@ + spec_snake(input)
                    + ").await\n    }\n\n"@,
                (Some(out), Some(_)) => head + "Result<Result<messages::"@ + spec_camel(out)
                    + ", messages::"@ + spec_camel(name)
                    + "Error>, savon::Error> {\n        panic!(\"operations with faults are not generated\")\n    }\n\n"@,
            }
        },
    }
}

/// Executable form of `spec_operation_text`.
fn operation_text(tns: &str, name: &str, op: &Operation) -> (r: String)
    ensures
        r@ == spec_operation_text(tns@, name@, op@),
{
    let input = match &op.input {
        None => {
            return String::new();
        },
        Some(input) => input,
    };
    match (&op.output, &op.faults) {
        (None, Some(_)) => String::new(),
        (output, faults) => {
            let mut out = "    pub async fn ".to_owned();
            let sn = to_snake(name);
            out.append(sn.as_str());
            out.append("(&self, ");
            let isn = to_snake(input.as_str());
            out.append(isn.as_str());
            out.append(": messages::");
            let icm = to_camel(input.as_str());
            out.append(icm.as_str());
            out.append(") -> ");
            match (output, faults) {
                (None, None) => {
                    out.append(
                        "Result<(), savon::Error> {\n        savon::http::one_way(&self.client, &self.base_url, \"",
                    );
                    out.append(tns);
                    out.append("\", \"");
                    out.append(name);
                    out.append("\", &");
                    out.append(isn.as_str());
                    out.append(").await\n    }\n\n");
                },
                (Some(o), None) => {
                    out.append("Result<Result<messages::");
                    let ocm = to_camel(o.as_str());
                    out.append(ocm.as_str());
                    out.append(
                        ", ()>, savon::Error> {\n        savon::http::request_response(&self.client, &self.base_url, \"",
                    );
                    out.append(tns);
                    out.append("\", \"");
                    out.append(name);
                    out.append("\", &");
                    out.append(isn.as_str());
                    out.append(").await\n    }\n\n");
                },
                (Some(o), Some(_)) => {
                    out.append("Result<Result<messages::");
                    let ocm = to_camel(o.as_str());
                    out.append(ocm.as_str());
                    out.append(", messages::");
                    let ncm = to_camel(name);
                    out.append(ncm.as_str());
                    out.append(
                        "Error>, savon::Error> {\n        panic!(\"operations with faults are not generated\")\n    }\n\n",
                    );
                },
                (None, Some(_)) => {},
            }
            proof {
                assert(out@ =~= spec_operation_text(tns@, name@, op@));
            }
            out
        },
    }
}

/// The service methods, one per operation, in table order.
pub open spec fn spec_operations_text(tns: Seq<char>, ops: Seq<(Seq<char>, OperationV)>) -> Seq<
    char,
>
    decreases ops.len(),
{
    if ops.len() == 0 {
        Seq::empty()
    } else {
        spec_operation_text(tns, ops[0].0, ops[0].1) + spec_operations_text(tns, ops.drop_first())
    }
}

#[verifier::loop_isolation(false)]
fn gen_operations(operations: &Vec<(String, Operation)>, tns: &str) -> (r: String)
    ensures
        r@ == spec_operations_text(tns@, pairs_view(operations@)),
{
    let ghost os = pairs_view(operations@);
    let mut out = String::new();
    let mut i: usize = 0;
    proof {
        assert(os.skip(0) =~= os);
        assert(out@ + spec_operations_text(tns@, os) =~= spec_operations_text(tns@, os));
    }
    while i < operations.len()
        invariant
            i <= operations.len(),
            out@ + spec_operations_text(tns@, os.skip(i as int)) == spec_operations_text(tns@, os),
        decreases operations.len() - i,
    {
        proof {
            assert(os.skip(i as int)[0] == os[i as int]);
            assert(os.skip(i as int).drop_first() =~= os.skip(i + 1));
        }
        let ghost pre = out@;
        let t = operation_text(tns, operations[i].0.as_str(), &operations[i].1);
        out.append(t.as_str());
        proof {
            assert(out@ + spec_operations_text(tns@, os.skip(i + 1)) =~= pre
                + spec_operations_text(tns@, os.skip(i as int)));
        }
        i += 1;
    }
    proof {
        assert(os.skip(operations@.len() as int) =~= Seq::<(Seq<char>, OperationV)>::empty());
    }
    out
}

/// The variants of a fault union, one per fault, each carrying an inner
/// value named after the fault.
pub open spec fn spec_fault_variants(fs: Seq<Seq<char>>) -> Seq<char>
    decreases fs.len(),
{
    if fs.len() == 0 {
        Seq::empty()
    } else {
        "    "@ + spec_camel(fs[0]) + "("@ + spec_camel(fs[0]) + "),\n"@ + spec_fault_variants(
            fs.drop_first(),
        )
    }
}

/// The fault union of one operation with a non-empty fault list.
pub open spec fn spec_fault_enum(name: Seq<char>, fs: Seq<Seq<char>>) -> Seq<char> {
    "#[derive(Clone, Debug, Default)]\npub enum "@ + spec_camel(name) + "Error {\n"@
        + spec_fault_variants(fs) + "}\n\n"@
}

/// The fault unions of all operations that declare faults, in table
/// order.
pub open spec fn spec_faults_text(ops: Seq<(Seq<char>, OperationV)>) -> Seq<char>
    decreases ops.len(),
{
    if ops.len() == 0 {
        Seq::empty()
    } else {
        (match ops[0].1.faults {
            Some(fs) => spec_fault_enum(ops[0].0, fs),
            None => Seq::empty(),
        }) + spec_faults_text(ops.drop_first())
    }
}

#[verifier::loop_isolation(false)]
fn fault_enum_text(name: &str, faults: &Vec<String>) -> (r: String)
    ensures
        r@ == spec_fault_enum(name@, faults.deep_view()),
{
    let ghost fs = faults.deep_view();
    let mut out = "#[derive(Clone, Debug, Default)]\npub enum ".to_owned();
    let cm = to_camel(name);
    out.append(cm.as_str());
    out.append("Error {\n");
    let ghost pre0 = out@;
    let mut i: usize = 0;
    proof {
        assert(fs.skip(0) =~= fs);
        assert(out@ + spec_fault_variants(fs) =~= pre0 + spec_fault_variants(fs));
    }
    while i < faults.len()
        invariant
            i <= faults.len(),
            out@ + spec_fault_variants(fs.skip(i as int)) == pre0 + spec_fault_variants(fs),
        decreases faults.len() - i,
    {
        proof {
            assert(fs.skip(i as int)[0] == fs[i as int]);
            assert(fs.skip(i as int).drop_first() =~= fs.skip(i + 1));
        }
        let ghost pre = out@;
        let fc = to_camel(faults[i].as_str());
        out.append("    ");
        out.append(fc.as_str());
        out.append("(");
        out.append(fc.as_str());
        out.append("),\n");
        proof {
            assert(out@ + spec_fault_variants(fs.skip(i + 1)) =~= pre + spec_fault_variants(
                fs.skip(i as int),
            ));
        }
        i += 1;
    }
    out.append("}\n\n");
    proof {
        assert(fs.skip(faults@.len() as int) =~= Seq::<Seq<char>>::empty());
        assert(out@ =~= spec_fault_enum(name@, fs));
    }
    out
}

#[verifier::loop_isolation(false)]
fn gen_operation_faults(operations: &Vec<(String, Operation)>) -> (r: String)
    ensures
        r@ == spec_faults_text(pairs_view(operations@)),
{
    let ghost os = pairs_view(operations@);
    let mut out = String::new();
    let mut i: usize = 0;
    proof {
        assert(os.skip(0) =~= os);
        assert(out@ + spec_faults_text(os) =~= spec_faults_text(os));
    }
    while i < operations.len()
        invariant
            i <= operations.len(),
            out@ + spec_faults_text(os.skip(i as int)) == spec_faults_text(os),
        decreases operations.len() - i,
    {
        proof {
            assert(os.skip(i as int)[0] == os[i as int]);
            assert(os.skip(i as int).drop_first() =~= os.skip(i + 1));
        }
        let ghost pre = out@;
        match &operations[i].1.faults {
            Some(fs) => {
                let t = fault_enum_text(operations[i].0.as_str(), fs);
                out.append(t.as_str());
            },
            None => {},
        }
        proof {
            assert(out@ + spec_faults_text(os.skip(i + 1)) =~= pre + spec_faults_text(
                os.skip(i as int),
            ));
        }
        i += 1;
    }
    proof {
        assert(os.skip(operations@.len() as int) =~= Seq::<(Seq<char>, OperationV)>::empty());
    }
    out
}

/// A model the emitter is defined on: every type-table entry is a
/// complex type, and every operation has an input.  Table shapes outside
/// this domain have no emitted form.
pub open spec fn spec_gen_ready(w: WsdlV) -> bool {
    &&& forall|i: int| 0 <= i < w.types.len() ==> (#[trigger] w.types[i]).1 is Complex
    &&& forall|i: int| 0 <= i < w.operations.len() ==> (#[trigger] w.operations[i]).1.input
        is Some
}

/// Decides whether a model is within the emitter's domain.
pub fn gen_ready(wsdl: &Wsdl) -> (r: bool)
    ensures
        r == spec_gen_ready(wsdl@),
{
    let mut i: usize = 0;
    while i < wsdl.types.len()
        invariant
            i <= wsdl.types@.len(),
            forall|j: int| 0 <= j < i ==> (#[trigger] pairs_view(wsdl.types@)[j]).1 is Complex,
        decreases wsdl.types@.len() - i,
    {
        match &wsdl.types[i].1 {
            Type::Simple(_) => {
                proof {
                    assert(pairs_view(wsdl.types@)[i as int] == pair_view(wsdl.types@[i as int]));
                }
                return false;
            },
            Type::Complex(_) => {},
        }
        i += 1;
    }
    let mut i: usize = 0;
    while i < wsdl.operations.len()
        invariant
            i <= wsdl.operations@.len(),
            forall|j: int|
                0 <= j < wsdl.types@.len() ==> (#[trigger] pairs_view(wsdl.types@)[j]).1
                    is Complex,
            forall|j: int|
                0 <= j < i ==> (#[trigger] pairs_view(wsdl.operations@)[j]).1.input is Some,
        decreases wsdl.operations@.len() - i,
    {
        match &wsdl.operations[i].1.input {
            None => {
                proof {
                    assert(pairs_view(wsdl.operations@)[i as int] == pair_view(
                        wsdl.operations@[i as int],
                    ));
                }
                return false;
            },
            Some(_) => {},
        }
        i += 1;
    }
    true
}

/// The whole artifact: a `types` namespace with the value objects and
/// their bindings, a `messages` namespace with the wrappers and the
/// document-literal sentinels, the service object with one asynchronous
/// method per operation, and the fault unions appended last.
pub open spec fn spec_gen(w: WsdlV) -> Seq<char> {
    let svc = spec_camel(w.name);
    "pub mod types {\n    #[allow(unused_imports)]\n    use savon::{\n        internal::{\n            chrono::{DateTime, offset::Utc},\n            xmltree,\n        },\n        rpser::xml::*,\n    };\n\n"@
        + spec_types_text(w.types)
        + "}\n\npub mod messages {\n    #[allow(unused_imports)]\n    use {\n        savon::internal::xmltree,\n        super::types,\n    };\n\n    #[allow(unused_imports)]\n    pub(crate) use savon::literal::{LiteralRequest, LiteralResponse};\n\n"@
        + spec_messages_text(w.messages, w.types) + "}\n\npub struct "@ + svc
        + " {\n    pub base_url: String,\n    pub client: savon::internal::reqwest::Client,\n}\n\n#[allow(dead_code)]\nimpl "@
        + svc
        + " {\n    pub fn new(base_url: String) -> Self {\n        Self::with_client(base_url, savon::internal::reqwest::Client::new())\n    }\n\n    pub fn with_client(base_url: String, client: savon::internal::reqwest::Client) -> Self {\n        "@
        + svc + " {\n            base_url,\n            client,\n        }\n    }\n\n"@
        + spec_operations_text(w.target_namespace, w.operations) + "}\n\n"@ + spec_faults_text(
        w.operations,
    )
}

/// Emits the client source text for a parsed document.
///
/// The output is exactly `spec_gen` of the model: a pure function of the
/// model, with no clock, environment or other outside influence.
pub fn gen(wsdl: &Wsdl) -> (r: Result<String, GenError>)
    requires
        spec_gen_ready(wsdl@),
    ensures
        r matches Ok(s) && s@ == spec_gen(wsdl@),
{
    let mut out =
        "pub mod types {\n    #[allow(unused_imports)]\n    use savon::{\n        internal::{\n            chrono::{DateTime, offset::Utc},\n            xmltree,\n        },\n        rpser::xml::*,\n    };\n\n".to_owned();
    let t = gen_types(&wsdl.types);
    out.append(t.as_str());
    out.append(
        "}\n\npub mod messages {\n    #[allow(unused_imports)]\n    use {\n        savon::internal::xmltree,\n        super::types,\n    };\n\n    #[allow(unused_imports)]\n    pub(crate) use savon::literal::{LiteralRequest, LiteralResponse};\n\n",
    );
    let m = gen_messages(&wsdl.messages, &wsdl.types);
    out.append(m.as_str());
    out.append("}\n\npub struct ");
    let svc = to_camel(wsdl.name.as_str());
    out.append(svc.as_str());
    out.append(
        " {\n    pub base_url: String,\n    pub client: savon::internal::reqwest::Client,\n}\n\n#[allow(dead_code)]\nimpl ",
    );
    out.append(svc.as_str());
    out.append(
        " {\n    pub fn new(base_url: String) -> Self {\n        Self::with_client(base_url, savon::internal::reqwest::Client::new())\n    }\n\n    pub fn with_client(base_url: String, client: savon::internal::reqwest::Client) -> Self {\n        ",
    );
    out.append(svc.as_str());
    out.append(" {\n            base_url,\n            client,\n        }\n    }\n\n");
    let o = gen_operations(&wsdl.operations, wsdl.target_namespace.as_str());
    out.append(o.as_str());
    out.append("}\n\n");
    let f = gen_operation_faults(&wsdl.operations);
    out.append(f.as_str());
    proof {
        assert(out@ =~= spec_gen(wsdl@));
    }
    Ok(out)
}

/// Cardinality normalization, observed at the emitted declaration: a raw
/// `(minOccurs=0, maxOccurs=1)` field always declares an optional of the
/// base type and a raw `(1, 1)` field always declares the bare base
/// type, whatever the raw nillable flag said; and no normalized field
/// ever declares through the optional cardinality branch, so exactly one
/// of the scalar, optional and list shapes is observable per field, the
/// optional one arising from the nillable wrapper alone.
pub proof fn lemma_cardinality_normalization(
    nillable: bool,
    mi: Option<Occurence>,
    ma: Option<Occurence>,
    st: SimpleTy,
)
    ensures
        spec_field_type(
            spec_normalize(nillable, Some(Occurence::Num(0)), Some(Occurence::Num(1))),
            st,
        ) == "Option<"@ + spec_base_type(st) + ">"@,
        spec_field_type(
            spec_normalize(nillable, Some(Occurence::Num(1)), Some(Occurence::Num(1))),
            st,
        ) == spec_base_type(st),
        !(spec_field_shape(spec_normalize(nillable, mi, ma)) is Optional),
{
}

/// The message wrappers that the messages section actually emits: the
/// message entries whose names are not type-table keys, in table order.
pub open spec fn spec_emitted_messages(
    ms: Seq<(Seq<char>, MessageV)>,
    types: Seq<(Seq<char>, TypeV)>,
) -> Seq<(Seq<char>, MessageV)>
    decreases ms.len(),
{
    if ms.len() == 0 {
        Seq::empty()
    } else {
        let rest = spec_emitted_messages(ms.drop_first(), types);
        if spec_assoc_find(types, ms[0].0) is Some {
            rest
        } else {
            seq![ms[0]] + rest
        }
    }
}

/// The concatenated text of a list of message wrappers.
pub open spec fn spec_concat_messages(ms: Seq<(Seq<char>, MessageV)>) -> Seq<char>
    decreases ms.len(),
{
    if ms.len() == 0 {
        Seq::empty()
    } else {
        spec_message_text(ms[0].0, ms[0].1) + spec_concat_messages(ms.drop_first())
    }
}

/// The suppression rule: the messages section is exactly the wrappers of
/// the messages whose names are not type names.  A name that is both a
/// message and a type therefore gets exactly one set of bindings — the
/// type's — and every non-colliding message keeps its wrapper.
pub proof fn lemma_message_suppression(
    ms: Seq<(Seq<char>, MessageV)>,
    types: Seq<(Seq<char>, TypeV)>,
)
    ensures
        spec_messages_text(ms, types) == spec_concat_messages(spec_emitted_messages(ms, types)),
        forall|i: int|
            0 <= i < spec_emitted_messages(ms, types).len() ==> spec_assoc_find(
                types,
                (#[trigger] spec_emitted_messages(ms, types)[i]).0,
            ) is None,
        forall|i: int|
            0 <= i < ms.len() && spec_assoc_find(types, (#[trigger] ms[i]).0) is None
                ==> spec_emitted_messages(ms, types).contains(ms[i]),
    decreases ms.len(),
{
    if ms.len() == 0 {
    } else {
        let tail = ms.drop_first();
        lemma_message_suppression(tail, types);
        let rest = spec_emitted_messages(tail, types);
        let em = spec_emitted_messages(ms, types);
        if spec_assoc_find(types, ms[0].0) is Some {
            assert(em == rest);
            assert(Seq::<char>::empty() + spec_messages_text(tail, types) =~= spec_messages_text(
                tail,
                types,
            ));
            assert forall|i: int|
                0 <= i < ms.len() && spec_assoc_find(types, (#[trigger] ms[i]).0) is None implies em.contains(
                ms[i],
            ) by {
                assert(ms[i] == tail[i - 1]);
                assert(rest.contains(tail[i - 1]));
            }
        } else {
            assert(em == seq![ms[0]] + rest);
            assert(em[0] == ms[0]);
            assert(em.drop_first() =~= rest);
            assert(spec_concat_messages(em) == spec_message_text(ms[0].0, ms[0].1)
                + spec_concat_messages(rest));
            assert forall|i: int|
                0 <= i < em.len() implies spec_assoc_find(types, (#[trigger] em[i]).0) is None by {
                if i > 0 {
                    assert(em[i] == rest[i - 1]);
                }
            }
            assert forall|i: int|
                0 <= i < ms.len() && spec_assoc_find(types, (#[trigger] ms[i]).0) is None implies em.contains(
                ms[i],
            ) by {
                if i == 0 {
                    assert(em[0] == ms[0]);
                } else {
                    assert(ms[i] == tail[i - 1]);
                    assert(rest.contains(tail[i - 1]));
                    let j = choose|j: int| 0 <= j < rest.len() && rest[j] == tail[i - 1];
                    assert(em[j + 1] == rest[j]);
                }
            }
        }
    }
}

/// Whether the name holds a dot.
pub open spec fn has_dot(s: Seq<char>) -> bool {
    exists|i: int| 0 <= i < s.len() && s[i] == '.'
}

/// Everything before the last dot.
pub open spec fn before_last_dot(s: Seq<char>) -> Seq<char>
    decreases s.len(),
{
    if s.len() == 0 {
        s
    } else if s.last() == '.' {
        s.drop_last()
    } else {
        before_last_dot(s.drop_last())
    }
}

/// The stem of a file name: everything before the last dot, or the whole
/// name when it has none.
pub open spec fn spec_file_stem(s: Seq<char>) -> Seq<char> {
    if has_dot(s) {
        before_last_dot(s)
    } else {
        s
    }
}

proof fn lemma_before_last_dot(s: Seq<char>, i: int)
    requires
        0 <= i < s.len(),
        s[i] == '.',
        forall|j: int| i < j < s.len() ==> s[j] != '.',
    ensures
        before_last_dot(s) == s.take(i),
    decreases s.len(),
{
    if i == s.len() - 1 {
        assert(s.drop_last() =~= s.take(i));
    } else {
        let s1 = s.drop_last();
        assert(forall|j: int| i < j < s1.len() ==> s1[j] == s[j] && s[j] != '.');
        lemma_before_last_dot(s1, i);
        assert(s1.take(i) =~= s.take(i));
    }
}

/// The output file stem for an input file name: the name up to its last
/// dot (or the whole name without one), converted to snake case.
pub fn out_file_stem(name: &str) -> (r: String)
    ensures
        r@ == spec_snake(spec_file_stem(name@)),
{
    let len = name.unicode_len();
    let mut i: usize = len;
    while i > 0
        invariant
            i <= len,
            len == name@.len(),
            forall|j: int| i <= j < len ==> name@[j] != '.',
        decreases i,
    {
        if name.get_char(i - 1) == '.' {
            let stem = name.substring_char(0, i - 1);
            proof {
                lemma_before_last_dot(name@, i - 1);
                assert(stem@ =~= name@.take(i - 1));
            }
            return to_snake(stem);
        }
        i -= 1;
    }
    proof {
        assert(!has_dot(name@));
    }
    to_snake(name)
}

/// The whole pipeline at the spec level: the tree of the bytes, the
/// model of the tree, and the artifact of the model, when each stage is
/// defined.
pub open spec fn spec_pipeline(bytes: Seq<u8>) -> Option<Seq<char>> {
    match xml_tree_of(bytes) {
        None => None,
        Some(root) => match spec_parse_wsdl(root) {
            Err(_) => None,
            Ok(w) => if spec_gen_ready(w) {
                Some(spec_gen(w))
            } else {
                None
            },
        },
    }
}

/// Determinism: generation from parsed bytes is a pure function of the
/// input bytes — the tree is a function of the bytes alone, `parse`
/// returns exactly the model that `spec_parse_wsdl` gives for that tree,
/// and `gen` returns exactly `spec_gen` of the model.  No clock,
/// environment read or iteration order can influence the artifact.
pub proof fn lemma_pipeline_deterministic(b1: Seq<u8>, b2: Seq<u8>)
    requires
        b1 == b2,
    ensures
        spec_pipeline(b1) == spec_pipeline(b2),
{
}

} // verus!
