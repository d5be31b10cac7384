//! A recursive-descent recognizer for the Thrift interface definition language.
//!
//! Every parser works on the characters of the source text and a position in
//! it, and is proved to return exactly what the grammar function of the same
//! name in its module describes.
use vstd::prelude::*;

pub mod basic;
pub mod constant;
pub mod definition;
pub mod document;
pub mod field;
pub mod functions;
pub mod header;
pub mod text;
pub mod types;

use crate::basic::{Comment, Identifier, ListSeparator, Literal, Separator};
use crate::constant::{ConstList, ConstMap, ConstValue, DoubleConstant, IntConstant};
use crate::definition::{Const, Enum, EnumValue, Exception, Service, Struct, Typedef, Union};
use crate::document::Document;
use crate::field::Field;
use crate::functions::Function;
use crate::header::{CppInclude, Include, Namespace, NamespaceScope};
use crate::types::{CppType, FieldType};
use crate::text::ParseError;

verus! {

/// A grammar production that can be read from the start of a text: on success
/// the rest of the text and the value.
pub trait Parser: Sized {
    fn parse(input: &str) -> Result<(String, Self), ParseError>;
}

impl Parser for Literal {
    fn parse(input: &str) -> Result<(String, Self), ParseError> {
        Literal::parse(input)
    }
}

impl Parser for Identifier {
    fn parse(input: &str) -> Result<(String, Self), ParseError> {
        Identifier::parse(input)
    }
}

impl Parser for ListSeparator {
    fn parse(input: &str) -> Result<(String, Self), ParseError> {
        ListSeparator::parse(input)
    }
}

impl Parser for Comment {
    fn parse(input: &str) -> Result<(String, Self), ParseError> {
        Comment::parse(input)
    }
}

impl Parser for Separator {
    fn parse(input: &str) -> Result<(String, Self), ParseError> {
        Separator::parse(input)
    }
}

impl Parser for ConstValue {
    fn parse(input: &str) -> Result<(String, Self), ParseError> {
        ConstValue::parse(input)
    }
}

impl Parser for IntConstant {
    fn parse(input: &str) -> Result<(String, Self), ParseError> {
        IntConstant::parse(input)
    }
}

impl Parser for DoubleConstant {
    fn parse(input: &str) -> Result<(String, Self), ParseError> {
        DoubleConstant::parse(input)
    }
}

impl Parser for ConstList {
    fn parse(input: &str) -> Result<(String, Self), ParseError> {
        ConstList::parse(input)
    }
}

impl Parser for ConstMap {
    fn parse(input: &str) -> Result<(String, Self), ParseError> {
        ConstMap::parse(input)
    }
}

impl Parser for Const {
    fn parse(input: &str) -> Result<(String, Self), ParseError> {
        Const::parse(input)
    }
}

impl Parser for Typedef {
    fn parse(input: &str) -> Result<(String, Self), ParseError> {
        Typedef::parse(input)
    }
}

impl Parser for Enum {
    fn parse(input: &str) -> Result<(String, Self), ParseError> {
        Enum::parse(input)
    }
}

impl Parser for EnumValue {
    fn parse(input: &str) -> Result<(String, Self), ParseError> {
        EnumValue::parse(input)
    }
}

impl Parser for Struct {
    fn parse(input: &str) -> Result<(String, Self), ParseError> {
        Struct::parse(input)
    }
}

impl Parser for Union {
    fn parse(input: &str) -> Result<(String, Self), ParseError> {
        Union::parse(input)
    }
}

impl Parser for Exception {
    fn parse(input: &str) -> Result<(String, Self), ParseError> {
        Exception::parse(input)
    }
}

impl Parser for Service {
    fn parse(input: &str) -> Result<(String, Self), ParseError> {
        Service::parse(input)
    }
}

impl Parser for Document {
    fn parse(input: &str) -> Result<(String, Self), ParseError> {
        Document::parse(input)
    }
}

impl Parser for Field {
    fn parse(input: &str) -> Result<(String, Self), ParseError> {
        Field::parse(input)
    }
}

impl Parser for Function {
    fn parse(input: &str) -> Result<(String, Self), ParseError> {
        Function::parse(input)
    }
}

impl Parser for Include {
    fn parse(input: &str) -> Result<(String, Self), ParseError> {
        Include::parse(input)
    }
}

impl Parser for CppInclude {
    fn parse(input: &str) -> Result<(String, Self), ParseError> {
        CppInclude::parse(input)
    }
}

impl Parser for Namespace {
    fn parse(input: &str) -> Result<(String, Self), ParseError> {
        Namespace::parse(input)
    }
}

impl Parser for NamespaceScope {
    fn parse(input: &str) -> Result<(String, Self), ParseError> {
        NamespaceScope::parse(input)
    }
}

impl Parser for FieldType {
    fn parse(input: &str) -> Result<(String, Self), ParseError> {
        FieldType::parse(input)
    }
}

impl Parser for CppType {
    fn parse(input: &str) -> Result<(String, Self), ParseError> {
        CppType::parse(input)
    }
}

} // verus!
