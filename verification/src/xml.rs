//! The element-tree model of the input document.
//!
//! `XmlElement` holds, as plain values, what the parser reads from an XML
//! tree: the local name of each element, its attributes in document order,
//! and its children.  The tree is built by `parse_xml`, which hands the
//! input bytes to the `xmltree` crate and copies the result into this
//! model.

use vstd::prelude::*;
use crate::text::str_eq;

verus! {

/// One node of the element tree.  The variants mirror the node kinds the
/// XML loader distinguishes; the parser only ever looks at `Element`
/// children.
pub enum XmlChild {
    Element(XmlElement),
    Comment(String),
    CData(String),
    Text(String),
    ProcessingInstruction(String, Option<String>),
}

/// An element: local name, attributes keyed by local name in document
/// order, and children in document order.
pub struct XmlElement {
    pub name: String,
    pub attributes: Vec<(String, String)>,
    pub children: Vec<XmlChild>,
}

/// The element children of a child list, in order.
pub open spec fn spec_elem_children(cs: Seq<XmlChild>) -> Seq<XmlElement>
    decreases cs.len(),
{
    if cs.len() == 0 {
        Seq::empty()
    } else {
        let rest = spec_elem_children(cs.drop_first());
        match cs[0] {
            XmlChild::Element(e) => seq![e] + rest,
            _ => rest,
        }
    }
}

/// The first element of `es` whose name reads `name`.
pub open spec fn spec_find_named(es: Seq<XmlElement>, name: Seq<char>) -> Option<XmlElement>
    decreases es.len(),
{
    if es.len() == 0 {
        None
    } else if es[0].name@ == name {
        Some(es[0])
    } else {
        spec_find_named(es.drop_first(), name)
    }
}

/// The first element of `es` whose name does not read `name`.
pub open spec fn spec_find_not_named(es: Seq<XmlElement>, name: Seq<char>) -> Option<XmlElement>
    decreases es.len(),
{
    if es.len() == 0 {
        None
    } else if es[0].name@ != name {
        Some(es[0])
    } else {
        spec_find_not_named(es.drop_first(), name)
    }
}

/// The first element child of `e` named `name`, as the XML loader's
/// `get_child` finds it.
pub open spec fn spec_get_child(e: XmlElement, name: Seq<char>) -> Option<XmlElement> {
    spec_find_named(spec_elem_children(e.children@), name)
}

/// The value of the first attribute of `e` keyed `key`.
pub open spec fn spec_attr(e: XmlElement, key: Seq<char>) -> Option<Seq<char>> {
    spec_assoc_str(e.attributes@, key)
}

/// The value paired with the first occurrence of `key`.
pub open spec fn spec_assoc_str(ps: Seq<(String, String)>, key: Seq<char>) -> Option<Seq<char>>
    decreases ps.len(),
{
    if ps.len() == 0 {
        None
    } else if ps[0].0@ == key {
        Some(ps[0].1@)
    } else {
        spec_assoc_str(ps.drop_first(), key)
    }
}

/// Splitting a child list splits its element children.
pub proof fn lemma_elem_children_concat(a: Seq<XmlChild>, b: Seq<XmlChild>)
    ensures
        spec_elem_children(a + b) == spec_elem_children(a) + spec_elem_children(b),
    decreases a.len(),
{
    if a.len() == 0 {
        assert(a + b =~= b);
        assert(spec_elem_children(a) + spec_elem_children(b) =~= spec_elem_children(b));
    } else {
        lemma_elem_children_concat(a.drop_first(), b);
        assert((a + b)[0] == a[0]);
        assert((a + b).drop_first() =~= a.drop_first() + b);
        match a[0] {
            XmlChild::Element(e) => {
                assert(seq![e] + (spec_elem_children(a.drop_first()) + spec_elem_children(b))
                    =~= (seq![e] + spec_elem_children(a.drop_first())) + spec_elem_children(b));
            },
            _ => {},
        }
    }
}

/// The element children of a one-node list.
pub proof fn lemma_elem_children_singleton(c: XmlChild)
    ensures
        spec_elem_children(seq![c]) == match c {
            XmlChild::Element(e) => seq![e],
            _ => Seq::<XmlElement>::empty(),
        },
{
    let s = seq![c];
    assert(s.len() == 1);
    assert(s[0] == c);
    assert(s.drop_first() =~= Seq::<XmlChild>::empty());
    assert(spec_elem_children(s.drop_first()) == Seq::<XmlElement>::empty());
    match c {
        XmlChild::Element(e) => {
            assert(spec_elem_children(s) == seq![e] + Seq::<XmlElement>::empty());
            assert(seq![e] + Seq::<XmlElement>::empty() =~= seq![e]);
        },
        _ => {
            assert(spec_elem_children(s) == Seq::<XmlElement>::empty());
        },
    }
}

/// One step of `spec_elem_children` along a suffix.
pub proof fn lemma_elem_children_skip(cs: Seq<XmlChild>, i: int)
    requires
        0 <= i < cs.len(),
    ensures
        spec_elem_children(cs.skip(i)) == match cs[i] {
            XmlChild::Element(e) => seq![e] + spec_elem_children(cs.skip(i + 1)),
            _ => spec_elem_children(cs.skip(i + 1)),
        },
{
    assert(cs.skip(i)[0] == cs[i]);
    assert(cs.skip(i).drop_first() =~= cs.skip(i + 1));
}

impl XmlElement {
    /// The first element child named `name`, as the XML loader's
    /// `get_child` finds it.
    pub fn get_child(&self, name: &str) -> (r: Option<&XmlElement>)
        ensures
            match r {
                Some(e) => spec_get_child(*self, name@) == Some(*e),
                None => spec_get_child(*self, name@) is None,
            },
    {
        let n = self.children.len();
        let mut i: usize = 0;
        proof {
            assert(self.children@.skip(0) =~= self.children@);
        }
        while i < n
            invariant
                n == self.children@.len(),
                i <= n,
                spec_get_child(*self, name@) == spec_find_named(
                    spec_elem_children(self.children@.skip(i as int)),
                    name@,
                ),
            decreases n - i,
        {
            proof {
                lemma_elem_children_skip(self.children@, i as int);
            }
            match &self.children[i] {
                XmlChild::Element(e) => {
                    proof {
                        let rest = spec_elem_children(self.children@.skip(i + 1));
                        let es = seq![*e] + rest;
                        assert(es[0] == *e);
                        assert(es.drop_first() =~= rest);
                    }
                    if str_eq(e.name.as_str(), name) {
                        return Some(e);
                    }
                },
                _ => {},
            }
            i += 1;
        }
        None
    }

    /// The first element child whose name is not `name`.
    pub fn find_child_not_named(&self, name: &str) -> (r: Option<&XmlElement>)
        ensures
            match r {
                Some(e) => spec_find_not_named(spec_elem_children(self.children@), name@) == Some(
                    *e,
                ),
                None => spec_find_not_named(spec_elem_children(self.children@), name@) is None,
            },
    {
        let n = self.children.len();
        let mut i: usize = 0;
        proof {
            assert(self.children@.skip(0) =~= self.children@);
        }
        while i < n
            invariant
                n == self.children@.len(),
                i <= n,
                spec_find_not_named(spec_elem_children(self.children@), name@)
                    == spec_find_not_named(
                    spec_elem_children(self.children@.skip(i as int)),
                    name@,
                ),
            decreases n - i,
        {
            proof {
                lemma_elem_children_skip(self.children@, i as int);
            }
            match &self.children[i] {
                XmlChild::Element(e) => {
                    proof {
                        let rest = spec_elem_children(self.children@.skip(i + 1));
                        let es = seq![*e] + rest;
                        assert(es[0] == *e);
                        assert(es.drop_first() =~= rest);
                    }
                    if !str_eq(e.name.as_str(), name) {
                        return Some(e);
                    }
                },
                _ => {},
            }
            i += 1;
        }
        None
    }

    /// The value of attribute `key`, if the element carries it.
    pub fn attr(&self, key: &str) -> (r: Option<&String>)
        ensures
            match r {
                Some(v) => spec_attr(*self, key@) == Some(v@),
                None => spec_attr(*self, key@) is None,
            },
    {
        let n = self.attributes.len();
        let mut i: usize = 0;
        proof {
            assert(self.attributes@.skip(0) =~= self.attributes@);
        }
        while i < n
            invariant
                n == self.attributes@.len(),
                i <= n,
                spec_attr(*self, key@) == spec_assoc_str(
                    self.attributes@.skip(i as int),
                    key@,
                ),
            decreases n - i,
        {
            proof {
                assert(self.attributes@.skip(i as int)[0] == self.attributes@[i as int]);
                assert(self.attributes@.skip(i as int).drop_first() =~= self.attributes@.skip(
                    i + 1,
                ));
            }
            if str_eq(self.attributes[i].0.as_str(), key) {
                return Some(&self.attributes[i].1);
            }
            i += 1;
        }
        None
    }

    /// Whether attribute `key` reads exactly `value`.
    pub fn attr_is(&self, key: &str, value: &str) -> (r: bool)
        ensures
            r == (spec_attr(*self, key@) == Some(value@)),
    {
        match self.attr(key) {
            Some(v) => str_eq(v.as_str(), value),
            None => false,
        }
    }

    /// How many element children the element has.
    pub fn elem_child_count(&self) -> (n: usize)
        ensures
            n == spec_elem_children(self.children@).len(),
    {
        let len = self.children.len();
        let mut i: usize = 0;
        let mut count: usize = 0;
        proof {
            assert(self.children@.take(0) =~= Seq::<XmlChild>::empty());
        }
        while i < len
            invariant
                len == self.children@.len(),
                i <= len,
                count == spec_elem_children(self.children@.take(i as int)).len(),
                count <= i,
            decreases len - i,
        {
            proof {
                assert(self.children@.take(i + 1) =~= self.children@.take(i as int) + seq![
                    self.children@[i as int],
                ]);
                lemma_elem_children_concat(
                    self.children@.take(i as int),
                    seq![self.children@[i as int]],
                );
                lemma_elem_children_singleton(self.children@[i as int]);
                assert(spec_elem_children(self.children@.take(i as int)) + Seq::<
                    XmlElement,
                >::empty() =~= spec_elem_children(self.children@.take(i as int)));
            }
            match &self.children[i] {
                XmlChild::Element(_) => {
                    count += 1;
                },
                _ => {},
            }
            i += 1;
        }
        proof {
            assert(self.children@.take(len as int) =~= self.children@);
        }
        count
    }

    /// The `i`-th element child.
    pub fn elem_child(&self, i: usize) -> (r: &XmlElement)
        requires
            i < spec_elem_children(self.children@).len(),
        ensures
            *r == spec_elem_children(self.children@)[i as int],
    {
        let len = self.children.len();
        let mut j: usize = 0;
        let mut k: usize = 0;
        proof {
            assert(self.children@.take(0) =~= Seq::<XmlChild>::empty());
        }
        while j < len
            invariant
                len == self.children@.len(),
                j <= len,
                k == spec_elem_children(self.children@.take(j as int)).len(),
                k <= i < spec_elem_children(self.children@).len(),
            decreases len - j,
        {
            proof {
                assert(self.children@.take(j + 1) =~= self.children@.take(j as int) + seq![
                    self.children@[j as int],
                ]);
                lemma_elem_children_concat(
                    self.children@.take(j as int),
                    seq![self.children@[j as int]],
                );
                lemma_elem_children_singleton(self.children@[j as int]);
                assert(spec_elem_children(self.children@.take(j as int)) + Seq::<
                    XmlElement,
                >::empty() =~= spec_elem_children(self.children@.take(j as int)));
                assert(self.children@ =~= self.children@.take(j as int) + self.children@.skip(
                    j as int,
                ));
                lemma_elem_children_concat(
                    self.children@.take(j as int),
                    self.children@.skip(j as int),
                );
            }
            match &self.children[j] {
                XmlChild::Element(e) => {
                    if k == i {
                        proof {
                            lemma_elem_children_skip(self.children@, j as int);
                        }
                        return e;
                    }
                    k += 1;
                },
                _ => {},
            }
            j += 1;
        }
        proof {
            assert(self.children@.take(len as int) =~= self.children@);
        }
        vstd::pervasive::unreached()
    }

    /// The first child node of any kind, as `children.get(0)` reads it.
    pub fn first_child(&self) -> (r: Option<&XmlChild>)
        ensures
            match r {
                Some(c) => self.children@.len() > 0 && *c == self.children@[0],
                None => self.children@.len() == 0,
            },
    {
        if self.children.len() == 0 {
            None
        } else {
            Some(&self.children[0])
        }
    }

    /// Whether the element has any children at all, of any node kind.
    pub fn has_children(&self) -> (r: bool)
        ensures
            r == (self.children@.len() > 0),
    {
        self.children.len() > 0
    }
}

/// The declaration of the XML loader's error type; a `Parse` error carries
/// it opaquely.
#[verifier::external_type_specification]
#[verifier::external_body]
pub struct ExParseError(xmltree::ParseError);

/// The declaration of the XML loader's element type; it appears only in
/// the conversion behind `parse_xml`.
#[verifier::external_type_specification]
#[verifier::external_body]
pub struct ExElement(xmltree::Element);

/// The declaration of the XML loader's node type.
#[verifier::external_type_specification]
#[verifier::external_body]
pub struct ExXmlNode(xmltree::XMLNode);

/// The element tree that the XML loader builds from `bytes`: `Some` of the
/// root element when the bytes are a well-formed document, `None` when
/// they are not.  The tree is a function of the bytes alone.
pub uninterp spec fn xml_tree_of(bytes: Seq<u8>) -> Option<XmlElement>;

/// Relies on `xmltree::Element::parse`: builds the element tree of the
/// bytes, a deterministic function of the bytes alone, and errs exactly on
/// input that is not a well-formed XML document.  The result is copied
/// into the model by `elem_of_tree`.
#[verifier::external_body]
pub(crate) fn parse_xml(bytes: &[u8]) -> (r: Result<XmlElement, xmltree::ParseError>)
    ensures
        r matches Ok(e) ==> xml_tree_of(bytes@) == Some(e),
        r is Err ==> xml_tree_of(bytes@) is None,
{
    match xmltree::Element::parse(bytes) {
        Ok(e) => Ok(elem_of_tree(e)),
        Err(e) => Err(e),
    }
}

/// The conversion half of `parse_xml`: copies an `xmltree::Element` into
/// the model, field for field.  Relies on the `xmltree` fields `name`,
/// `attributes` (in document order) and `children`.
#[verifier::external_body]
fn elem_of_tree(e: xmltree::Element) -> XmlElement {
    XmlElement {
        name: e.name,
        attributes: e.attributes.into_iter().collect(),
        children: e.children.into_iter().map(|c| match c {
            xmltree::XMLNode::Element(el) => XmlChild::Element(elem_of_tree(el)),
            xmltree::XMLNode::Comment(s) => XmlChild::Comment(s),
            xmltree::XMLNode::CData(s) => XmlChild::CData(s),
            xmltree::XMLNode::Text(s) => XmlChild::Text(s),
            xmltree::XMLNode::ProcessingInstruction(k, v) => XmlChild::ProcessingInstruction(k, v),
        }).collect(),
    }
}

} // verus!
