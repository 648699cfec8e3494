//! The XML document facade: converting element trees and typed records to
//! and from XML text, with an optional declaration header, deterministic
//! two-space indentation, and a typed failure taxonomy that keeps I/O
//! failures apart from format failures.

pub mod element;
pub mod parse;
pub mod render;
pub mod round_trip;

use vstd::prelude::*;
use vstd::string::StringExecFns;

use crate::xml::element::ElemView;
use crate::xml::element::XmlElement;

verus! {

/// A record could not be rendered as an XML document.
#[derive(Clone, Copy, Debug, PartialEq, Eq, Structural)]
pub enum SeError {
    /// The element tree is not well-formed (empty or bad name, or an
    /// attribute value holding a double quote).
    MalformedElement,
}

impl SeError {
    /// A human-readable description of the failure.
    pub fn message(&self) -> (r: &'static str)
        ensures
            r@ == "element tree is not well-formed"@,
    {
        "element tree is not well-formed"
    }
}

/// XML text could not be decoded into a record.
#[derive(Debug, PartialEq, Eq)]
pub enum DeError {
    /// The text is not a well-formed XML document of the supported shape.
    Syntax,
    /// The document's shape does not fit the record: carries a
    /// description of the offending part.
    Record(String),
}

impl DeError {
    /// A human-readable description of the failure.
    pub fn message(&self) -> (r: String)
        ensures
            self is Syntax ==> r@ == "malformed XML document"@,
            forall|m: String| self == DeError::Record(m) ==> r@ == m@,
    {
        match self {
            DeError::Syntax => {
                String::from_str("malformed XML document")
            },
            DeError::Record(m) => {
                let s: String = m.clone();
                assert(s@ == m@);
                s
            },
        }
    }
}

/// Reading a record from an XML file failed.
#[derive(Debug, PartialEq, Eq)]
pub enum ReadXMLFileError {
    /// The file could not be read; carries the I/O failure's description.
    IOError(String),
    /// The file's text could not be decoded.
    DeError(DeError),
}

/// Writing a record to an XML file failed.
#[derive(Debug, PartialEq, Eq)]
pub enum WriteXMLFileError {
    /// The directories or the file could not be written; carries the I/O
    /// failure's description.
    IOError(String),
    /// The record could not be rendered.
    SeError(SeError),
}

/// Records that can be rendered as an XML document.
///
/// An implementation supplies the record's element shape and the builder
/// that realizes it; rendering to text is provided on top of those.
pub trait ToXML: Sized {
    /// The values this record must hold for its element shape to be
    /// built (each field within its adapter's encodable range).
    spec fn encodable(&self) -> bool;

    /// The mathematical shape of this record's XML element.
    spec fn elem_spec(&self) -> ElemView;

    /// Decides [`ToXML::encodable`], so that unverified callers can test
    /// it before asking for the element shape.
    fn check_encodable(&self) -> (r: bool)
        ensures
            r == self.encodable(),
    ;

    /// Builds this record's element tree.
    fn to_element(&self) -> (e: XmlElement)
        requires
            self.encodable(),
        ensures
            e@ == self.elem_spec(),
    ;

    /// Renders this record as an XML document with two-space indentation,
    /// optionally preceded by the declaration header line; a record whose
    /// element shape is not well-formed is rejected.
    fn to_xml(&self, declaration_header: bool) -> (r: Result<String, SeError>)
        requires
            self.encodable(),
        ensures
            match r {
                Ok(text) => self.elem_spec().wf() && text@ == crate::xml::render::document_text(
                    self.elem_spec(),
                    declaration_header,
                ),
                Err(_) => !self.elem_spec().wf(),
            },
    {
        let e = self.to_element();
        crate::xml::render::element_to_xml(&e, declaration_header)
    }
}

/// Records that can be decoded from an XML document.
///
/// An implementation supplies the decoding from an element tree; decoding
/// from text (with or without a leading declaration) is provided on top.
pub trait FromXML: Sized {
    /// The record denoted by an element shape, if any.
    spec fn decode_elem_spec(e: ElemView) -> Option<Self>;

    /// Decodes a record from an element tree.
    fn from_element(e: &XmlElement) -> (r: Result<Self, DeError>)
        ensures
            match r {
                Ok(v) => Self::decode_elem_spec(e@) == Some(v),
                Err(_) => Self::decode_elem_spec(e@) is None,
            },
    ;

    /// Decodes a record from XML document text, tolerating a leading
    /// declaration line and surrounding whitespace.
    fn from_xml(xml: &str) -> (r: Result<Self, DeError>)
        ensures
            match crate::xml::parse::parse_document_spec(xml@) {
                None => r is Err,
                Some(ev) => match r {
                    Ok(v) => Self::decode_elem_spec(ev) == Some(v),
                    Err(_) => Self::decode_elem_spec(ev) is None,
                },
            },
    {
        match crate::xml::parse::element_from_xml(xml) {
            Err(e) => Err(e),
            Ok(elem) => Self::from_element(&elem),
        }
    }
}

} // verus!
