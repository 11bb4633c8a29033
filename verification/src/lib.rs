//! A WSDL 1.1 to SOAP client generator.
//!
//! The library reads the bytes of a WSDL document, distils them into a
//! compact intermediate model of services, messages, operations and schema
//! types (`wsdl`), and emits the source text of a typed client from that
//! model (`gen`).  Identifier mangling lives in `names`, the element-tree
//! model of the input document in `xml`.

pub mod bindings;
pub mod gen;
pub mod names;
pub mod text;
pub mod wsdl;
pub mod xml;

use vstd::prelude::*;

verus! {

/// The scalar conversions that can fail while decoding an XML value.
#[derive(Debug, Clone, Copy, PartialEq, Eq, Structural)]
pub enum ConversionKind {
    Integer,
    Float,
    DateTime,
}

/// The error surface shared by generated clients and their runtime support:
/// structural failures while walking an element tree, scalar conversion
/// failures, and transport failures.
#[derive(Debug)]
pub enum Error {
    /// An XML tree could not be built from the input bytes.
    Parse,
    /// A required structural element is missing.
    ElementNotFound(&'static str),
    /// A required attribute is missing on a located element.
    AttributeNotFound(&'static str),
    /// An element child was expected, but text or a comment was found.
    NotAnElement,
    /// Non-empty text content was expected, but the text was empty.
    Empty,
    /// A scalar could not be converted from its text form.
    ConversionFailed(ConversionKind),
    /// The HTTP or IO layer reported a failure.
    Transport,
}

} // verus!
