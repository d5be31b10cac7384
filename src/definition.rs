//! Definitions: constants, typedefs, enums, structs, unions, exceptions and services.
use vstd::prelude::*;

use crate::basic::{
    err, identifier_g, items_g, sep_len, gap_p, skip_sep, split_result, tail_g, Identifier,
};
use crate::constant::{
    const_value_g, int_constant_g, list_separator_at, list_sep_g, prepend, ConstValue,
    ConstValueModel, IntConstant,
};
use crate::field::{field_list_at, field_list_g, fields_view, Field, FieldModel};
use crate::functions::{function_g, skip_list_end, skip_list_end_g, Function, FunctionModel};
use crate::text::{char_at, chars_of, has_char, has_tag, string_of, tag_end, ErrorKind, PResult, ParseError};
use crate::types::{base_type_g, container_type_g, field_type_g, FieldType, FieldTypeModel};

verus! {

/// `const` type name `=` value.
#[derive(Debug, PartialEq)]
pub struct Const {
    pub name: Identifier,
    pub type_: FieldType,
    pub value: ConstValue,
}

pub struct ConstModel {
    pub name: Seq<char>,
    pub type_: FieldTypeModel,
    pub value: ConstValueModel,
}

impl View for Const {
    type V = ConstModel;

    open spec fn view(&self) -> ConstModel {
        ConstModel { name: self.name@, type_: self.type_@, value: self.value@ }
    }
}

/// `const`, separator, type, separator, name, `=`, value, optional list separator.
#[verifier::opaque]
pub open spec fn const_g(s: Seq<char>, pos: int) -> Option<(nat, ConstModel)> {
    let a = pos + 5;
    let b = a + sep_len(s, a);
    if has_tag(s, pos, "const"@) && sep_len(s, a) > 0 && field_type_g(s, b) is Some {
        let (nt, type_) = field_type_g(s, b)->Some_0;
        let c = b + nt;
        let d = c + sep_len(s, c);
        if sep_len(s, c) > 0 && identifier_g(s, d) is Some {
            let (ni, name) = identifier_g(s, d)->Some_0;
            let e = d + ni + sep_len(s, d + ni);
            let f = e + 1 + sep_len(s, e + 1);
            if has_char(s, e, '=') && f <= s.len() && const_value_g(s, f) is Some {
                let (nv, value) = const_value_g(s, f)->Some_0;
                let g = skip_list_end_g(s, f + nv);
                Some(((g - pos) as nat, ConstModel { name, type_, value }))
            } else {
                None
            }
        } else {
            None
        }
    } else {
        None
    }
}

impl Const {
    /// Parses a constant definition at `pos`.
    pub fn parse_at(s: &Vec<char>, pos: usize) -> (r: PResult<Self>)
        requires
            pos <= s@.len(),
        ensures
            r is Ok <==> const_g(s@, pos as int) is Some,
            r matches Ok((q, v)) ==> pos <= q <= s@.len() && const_g(s@, pos as int) == Some(
                ((q - pos) as nat, v@),
            ),
    {
        proof {
            reveal(const_g);
            reveal_strlit("const");
        }
        let a = match tag_end(s, pos, "const") {
            Some(a) => a,
            None => {
                return err(ErrorKind::Tag, pos);
            },
        };
        let b = skip_sep(s, a);
        if b == a {
            return err(ErrorKind::Tag, a);
        }
        let (c, type_) = match FieldType::parse_at(s, b) {
            Ok(x) => x,
            Err(x) => {
                return Err(x);
            },
        };
        let d = skip_sep(s, c);
        if d == c {
            return err(ErrorKind::Tag, c);
        }
        let (q, name) = match Identifier::parse_at(s, d) {
            Ok(x) => x,
            Err(x) => {
                return Err(x);
            },
        };
        let e = skip_sep(s, q);
        if !char_at(s, e, '=') {
            return err(ErrorKind::Tag, e);
        }
        let f = skip_sep(s, e + 1);
        let (g, value) = match ConstValue::parse_at(s, f) {
            Ok(x) => x,
            Err(x) => {
                return Err(x);
            },
        };
        Ok((skip_list_end(s, g), Const { name, type_, value }))
    }

    /// Parses a constant definition at the start of `input`, and returns the rest with it.
    pub fn parse(input: &str) -> (r: Result<(String, Self), ParseError>)
        ensures
            r is Ok <==> const_g(input@, 0) is Some,
            r matches Ok((rest, v)) ==> split_result(input@, const_g(input@, 0)) == Some(
                (rest@, v@),
            ),
    {
        let s = chars_of(input);
        match Self::parse_at(&s, 0) {
            Ok((q, v)) => Ok((string_of(&s, q, s.len()), v)),
            Err(e) => Err(e),
        }
    }
}

/// `typedef` a base or container type, then the new name.
#[derive(Debug, PartialEq)]
pub struct Typedef {
    pub old: FieldType,
    pub alias: Identifier,
}

pub struct TypedefModel {
    pub old: FieldTypeModel,
    pub alias: Seq<char>,
}

impl View for Typedef {
    type V = TypedefModel;

    open spec fn view(&self) -> TypedefModel {
        TypedefModel { old: self.old@, alias: self.alias@ }
    }
}

/// A base type or a container type; a bare name is not one.
pub open spec fn definition_type_g(s: Seq<char>, pos: int) -> Option<(nat, FieldTypeModel)> {
    if let Some(r) = base_type_g(s, pos) {
        Some(r)
    } else {
        container_type_g(s, pos)
    }
}

/// `typedef`, separator, base or container type, separator, name.
#[verifier::opaque]
pub open spec fn typedef_g(s: Seq<char>, pos: int) -> Option<(nat, TypedefModel)> {
    let a = pos + 7;
    let b = a + sep_len(s, a);
    if has_tag(s, pos, "typedef"@) && sep_len(s, a) > 0 && definition_type_g(s, b) is Some {
        let (nt, old) = definition_type_g(s, b)->Some_0;
        let c = b + nt;
        let d = c + sep_len(s, c);
        if sep_len(s, c) > 0 && identifier_g(s, d) is Some {
            let (ni, alias) = identifier_g(s, d)->Some_0;
            Some(((d + ni - pos) as nat, TypedefModel { old, alias }))
        } else {
            None
        }
    } else {
        None
    }
}

impl Typedef {
    /// Parses a typedef at `pos`.
    pub fn parse_at(s: &Vec<char>, pos: usize) -> (r: PResult<Self>)
        requires
            pos <= s@.len(),
        ensures
            r is Ok <==> typedef_g(s@, pos as int) is Some,
            r matches Ok((q, v)) ==> pos <= q <= s@.len() && typedef_g(s@, pos as int) == Some(
                ((q - pos) as nat, v@),
            ),
    {
        proof {
            reveal(typedef_g);
            reveal_strlit("typedef");
        }
        let a = match tag_end(s, pos, "typedef") {
            Some(a) => a,
            None => {
                return err(ErrorKind::Tag, pos);
            },
        };
        let b = skip_sep(s, a);
        if b == a {
            return err(ErrorKind::Tag, a);
        }
        let (c, old) = match FieldType::parse_base_type_at(s, b) {
            Ok(x) => x,
            Err(_) => match FieldType::parse_container_type_at(s, b) {
                Ok(x) => x,
                Err(x) => {
                    return Err(x);
                },
            },
        };
        let d = skip_sep(s, c);
        if d == c {
            return err(ErrorKind::Tag, c);
        }
        match Identifier::parse_at(s, d) {
            Ok((q, alias)) => Ok((q, Typedef { old, alias })),
            Err(x) => Err(x),
        }
    }

    /// Parses a typedef at the start of `input`, and returns the rest with it.
    pub fn parse(input: &str) -> (r: Result<(String, Self), ParseError>)
        ensures
            r is Ok <==> typedef_g(input@, 0) is Some,
            r matches Ok((rest, v)) ==> split_result(input@, typedef_g(input@, 0)) == Some(
                (rest@, v@),
            ),
    {
        let s = chars_of(input);
        match Self::parse_at(&s, 0) {
            Ok((q, v)) => Ok((string_of(&s, q, s.len()), v)),
            Err(e) => Err(e),
        }
    }
}

/// `enum` name `{` members `}`.
#[derive(Debug, PartialEq)]
pub struct Enum {
    pub name: Identifier,
    pub children: Vec<EnumValue>,
}

/// One member of an enum, with its value if one is written.
#[derive(Clone, Debug, PartialEq)]
pub struct EnumValue {
    pub name: Identifier,
    pub value: Option<IntConstant>,
}

pub struct EnumValueModel {
    pub name: Seq<char>,
    pub value: Option<i64>,
}

pub struct EnumModel {
    pub name: Seq<char>,
    pub children: Seq<EnumValueModel>,
}

impl View for EnumValue {
    type V = EnumValueModel;

    open spec fn view(&self) -> EnumValueModel {
        EnumValueModel {
            name: self.name@,
            value: match self.value {
                Some(i) => Some(i.0),
                None => None,
            },
        }
    }
}

pub open spec fn enum_values_view(v: Seq<EnumValue>) -> Seq<EnumValueModel> {
    v.map_values(|e: EnumValue| e@)
}

impl View for Enum {
    type V = EnumModel;

    open spec fn view(&self) -> EnumModel {
        EnumModel { name: self.name@, children: enum_values_view(self.children@) }
    }
}

/// A name, then optionally `=` and an integer, with optional comments or white space around `=`.
#[verifier::opaque]
pub open spec fn enum_value_g(s: Seq<char>, pos: int) -> Option<(nat, EnumValueModel)> {
    if let Some((n, name)) = identifier_g(s, pos) {
        let a = pos + n + sep_len(s, pos + n);
        let b = a + 1 + sep_len(s, a + 1);
        if has_char(s, a, '=') && int_constant_g(s, b) is Some {
            let (m, v) = int_constant_g(s, b)->Some_0;
            Some(((b + m - pos) as nat, EnumValueModel { name, value: Some(v) }))
        } else {
            Some((n, EnumValueModel { name, value: None }))
        }
    } else {
        None
    }
}

pub open spec fn enum_value_p() -> spec_fn(Seq<char>, int) -> Option<(nat, EnumValueModel)> {
    |s: Seq<char>, p: int| enum_value_g(s, p)
}

pub open spec fn list_sep_p() -> spec_fn(Seq<char>, int) -> Option<nat> {
    |s: Seq<char>, p: int| list_sep_g(s, p)
}

/// `enum`, separator, name, `{`, members separated by list separators, `}`,
/// with optional comments or white space around the braces.
#[verifier::opaque]
pub open spec fn enum_g(s: Seq<char>, pos: int) -> Option<(nat, EnumModel)> {
    let a = pos + 4;
    let b = a + sep_len(s, a);
    if has_tag(s, pos, "enum"@) && sep_len(s, a) > 0 && identifier_g(s, b) is Some {
        let (ni, name) = identifier_g(s, b)->Some_0;
        let c = b + ni + sep_len(s, b + ni);
        let d = c + 1 + sep_len(s, c + 1);
        if has_char(s, c, '{') && d <= s.len() {
            let (nv, children) = items_g(s, d, enum_value_p(), list_sep_p());
            let e = d + nv + sep_len(s, d + nv);
            if has_char(s, e, '}') {
                Some(((e + 1 - pos) as nat, EnumModel { name, children }))
            } else {
                None
            }
        } else {
            None
        }
    } else {
        None
    }
}

impl EnumValue {
    /// Parses an enum member at `pos`.
    pub fn parse_at(s: &Vec<char>, pos: usize) -> (r: PResult<Self>)
        requires
            pos <= s@.len(),
        ensures
            r is Ok <==> enum_value_g(s@, pos as int) is Some,
            r matches Ok((q, v)) ==> pos <= q <= s@.len() && enum_value_g(s@, pos as int) == Some(
                ((q - pos) as nat, v@),
            ),
    {
        proof {
            reveal(enum_value_g);
        }
        let (q, name) = match Identifier::parse_at(s, pos) {
            Ok(x) => x,
            Err(x) => {
                return Err(x);
            },
        };
        let a = skip_sep(s, q);
        if char_at(s, a, '=') {
            let b = skip_sep(s, a + 1);
            if let Ok((e, v)) = IntConstant::parse_at(s, b) {
                return Ok((e, EnumValue { name, value: Some(v) }));
            }
        }
        Ok((q, EnumValue { name, value: None }))
    }

    /// Parses an enum member at the start of `input`, and returns the rest with it.
    pub fn parse(input: &str) -> (r: Result<(String, Self), ParseError>)
        ensures
            r is Ok <==> enum_value_g(input@, 0) is Some,
            r matches Ok((rest, v)) ==> split_result(input@, enum_value_g(input@, 0)) == Some(
                (rest@, v@),
            ),
    {
        let s = chars_of(input);
        match Self::parse_at(&s, 0) {
            Ok((q, v)) => Ok((string_of(&s, q, s.len()), v)),
            Err(e) => Err(e),
        }
    }
}

/// Enum members separated by list separators at `p`, as many as match.
fn enum_value_list_at(s: &Vec<char>, p: usize) -> (r: (usize, Vec<EnumValue>))
    requires
        p <= s@.len(),
    ensures
        p <= r.0 <= s@.len(),
        items_g(s@, p as int, enum_value_p(), list_sep_p()) == ((r.0 - p) as nat, enum_values_view(r.1@)),
{
    let mut items: Vec<EnumValue> = Vec::new();
    let (q, v) = match EnumValue::parse_at(s, p) {
        Ok(x) => x,
        Err(_) => {
            return (p, items);
        },
    };
    items.push(v);
    assert(enum_values_view(items@) =~= seq![v@]);
    let mut i = q;
    loop
        invariant
            p <= i <= s@.len(),
            items_g(s@, p as int, enum_value_p(), list_sep_p()) == prepend(
                i - p,
                enum_values_view(items@),
                tail_g(s@, i as int, enum_value_p(), list_sep_p()),
            ),
        decreases s@.len() - i,
    {
        let j = match list_separator_at(s, i) {
            Ok((j, _)) => j,
            Err(_) => {
                assert(enum_values_view(items@) + Seq::empty() =~= enum_values_view(items@));
                return (i, items);
            },
        };
        let (q2, v2) = match EnumValue::parse_at(s, j) {
            Ok(x) => x,
            Err(_) => {
                assert(enum_values_view(items@) + Seq::empty() =~= enum_values_view(items@));
                return (i, items);
            },
        };
        if q2 == i {
            assert(enum_values_view(items@) + Seq::empty() =~= enum_values_view(items@));
            return (i, items);
        }
        let ghost old_items = enum_values_view(items@);
        let ghost rest = tail_g(s@, q2 as int, enum_value_p(), list_sep_p()).1;
        assert(tail_g(s@, i as int, enum_value_p(), list_sep_p()) == prepend(
            q2 - i,
            seq![v2@],
            tail_g(s@, q2 as int, enum_value_p(), list_sep_p()),
        ));
        items.push(v2);
        assert(enum_values_view(items@) =~= old_items.push(v2@));
        assert(old_items + (seq![v2@] + rest) =~= enum_values_view(items@) + rest);
        i = q2;
    }
}

impl Enum {
    /// Parses an enum at `pos`.
    pub fn parse_at(s: &Vec<char>, pos: usize) -> (r: PResult<Self>)
        requires
            pos <= s@.len(),
        ensures
            r is Ok <==> enum_g(s@, pos as int) is Some,
            r matches Ok((q, v)) ==> pos <= q <= s@.len() && enum_g(s@, pos as int) == Some(
                ((q - pos) as nat, v@),
            ),
    {
        proof {
            reveal(enum_g);
            reveal_strlit("enum");
        }
        let a = match tag_end(s, pos, "enum") {
            Some(a) => a,
            None => {
                return err(ErrorKind::Tag, pos);
            },
        };
        let b = skip_sep(s, a);
        if b == a {
            return err(ErrorKind::Tag, a);
        }
        let (q, name) = match Identifier::parse_at(s, b) {
            Ok(x) => x,
            Err(x) => {
                return Err(x);
            },
        };
        let c = skip_sep(s, q);
        if !char_at(s, c, '{') {
            return err(ErrorKind::Tag, c);
        }
        let d = skip_sep(s, c + 1);
        let (f, children) = enum_value_list_at(s, d);
        let e = skip_sep(s, f);
        if char_at(s, e, '}') {
            Ok((e + 1, Enum { name, children }))
        } else {
            err(ErrorKind::Tag, e)
        }
    }

    /// Parses an enum at the start of `input`, and returns the rest with it.
    pub fn parse(input: &str) -> (r: Result<(String, Self), ParseError>)
        ensures
            r is Ok <==> enum_g(input@, 0) is Some,
            r matches Ok((rest, v)) ==> split_result(input@, enum_g(input@, 0)) == Some(
                (rest@, v@),
            ),
    {
        let s = chars_of(input);
        match Self::parse_at(&s, 0) {
            Ok((q, v)) => Ok((string_of(&s, q, s.len()), v)),
            Err(e) => Err(e),
        }
    }
}

/// What a struct, a union or an exception denotes: its name and its fields.
pub struct RecordModel {
    pub name: Seq<char>,
    pub fields: Seq<FieldModel>,
}

/// The keyword `kw`, separator, name, `{`, fields one after another (each
/// takes its own trailing blanks and list separator; comments or white space
/// may stand between them), `}`, with optional comments or white space around
/// the braces.
#[verifier::opaque]
pub open spec fn record_g(s: Seq<char>, pos: int, kw: Seq<char>) -> Option<(nat, RecordModel)> {
    let a = pos + kw.len();
    let b = a + sep_len(s, a);
    if has_tag(s, pos, kw) && sep_len(s, a) > 0 && identifier_g(s, b) is Some {
        let (ni, name) = identifier_g(s, b)->Some_0;
        let c = b + ni + sep_len(s, b + ni);
        let d = c + 1 + sep_len(s, c + 1);
        if has_char(s, c, '{') && d <= s.len() {
            let (nf, fields) = field_list_g(s, d);
            let e = d + nf + sep_len(s, d + nf);
            if has_char(s, e, '}') {
                Some(((e + 1 - pos) as nat, RecordModel { name, fields }))
            } else {
                None
            }
        } else {
            None
        }
    } else {
        None
    }
}

/// A record definition introduced by `kw` at `pos`: the end, the name and the fields.
fn record_at(s: &Vec<char>, pos: usize, kw: &str) -> (r: Result<
    (usize, Identifier, Vec<Field>),
    ParseError,
>)
    requires
        pos <= s@.len(),
    ensures
        r is Ok <==> record_g(s@, pos as int, kw@) is Some,
        r matches Ok((q, name, fields)) ==> pos <= q <= s@.len() && record_g(s@, pos as int, kw@)
            == Some(((q - pos) as nat, RecordModel { name: name@, fields: fields_view(fields@) })),
{
    proof {
        reveal(record_g);
    }
    let a = match tag_end(s, pos, kw) {
        Some(a) => a,
        None => {
            return Err(ParseError { kind: ErrorKind::Tag, pos });
        },
    };
    let b = skip_sep(s, a);
    if b == a {
        return Err(ParseError { kind: ErrorKind::Tag, pos: a });
    }
    let (q, name) = match Identifier::parse_at(s, b) {
        Ok(x) => x,
        Err(x) => {
            return Err(x);
        },
    };
    let c = skip_sep(s, q);
    if !char_at(s, c, '{') {
        return Err(ParseError { kind: ErrorKind::Tag, pos: c });
    }
    let d = skip_sep(s, c + 1);
    let (f, fields) = field_list_at(s, d);
    let e = skip_sep(s, f);
    if char_at(s, e, '}') {
        Ok((e + 1, name, fields))
    } else {
        Err(ParseError { kind: ErrorKind::Tag, pos: e })
    }
}

/// A record type: `struct` name `{` fields `}`.
#[derive(Debug, PartialEq)]
pub struct Struct {
    pub name: Identifier,
    pub fields: Vec<Field>,
}

impl View for Struct {
    type V = RecordModel;

    open spec fn view(&self) -> RecordModel {
        RecordModel { name: self.name@, fields: fields_view(self.fields@) }
    }
}

impl Struct {
    /// Parses a `struct` definition at `pos`.
    pub fn parse_at(s: &Vec<char>, pos: usize) -> (r: PResult<Self>)
        requires
            pos <= s@.len(),
        ensures
            r is Ok <==> record_g(s@, pos as int, "struct"@) is Some,
            r matches Ok((q, v)) ==> pos <= q <= s@.len() && record_g(s@, pos as int, "struct"@)
                == Some(((q - pos) as nat, v@)),
    {
        match record_at(s, pos, "struct") {
            Ok((q, name, fields)) => Ok((q, Struct { name, fields })),
            Err(x) => Err(x),
        }
    }

    /// Parses a `struct` definition at the start of `input`, and returns the rest with it.
    pub fn parse(input: &str) -> (r: Result<(String, Self), ParseError>)
        ensures
            r is Ok <==> record_g(input@, 0, "struct"@) is Some,
            r matches Ok((rest, v)) ==> split_result(input@, record_g(input@, 0, "struct"@)) == Some(
                (rest@, v@),
            ),
    {
        let s = chars_of(input);
        match Self::parse_at(&s, 0) {
            Ok((q, v)) => Ok((string_of(&s, q, s.len()), v)),
            Err(e) => Err(e),
        }
    }
}

/// A union of fields: `union` name `{` fields `}`.
#[derive(Debug, PartialEq)]
pub struct Union {
    pub name: Identifier,
    pub fields: Vec<Field>,
}

impl View for Union {
    type V = RecordModel;

    open spec fn view(&self) -> RecordModel {
        RecordModel { name: self.name@, fields: fields_view(self.fields@) }
    }
}

impl Union {
    /// Parses a `union` definition at `pos`.
    pub fn parse_at(s: &Vec<char>, pos: usize) -> (r: PResult<Self>)
        requires
            pos <= s@.len(),
        ensures
            r is Ok <==> record_g(s@, pos as int, "union"@) is Some,
            r matches Ok((q, v)) ==> pos <= q <= s@.len() && record_g(s@, pos as int, "union"@)
                == Some(((q - pos) as nat, v@)),
    {
        match record_at(s, pos, "union") {
            Ok((q, name, fields)) => Ok((q, Union { name, fields })),
            Err(x) => Err(x),
        }
    }

    /// Parses a `union` definition at the start of `input`, and returns the rest with it.
    pub fn parse(input: &str) -> (r: Result<(String, Self), ParseError>)
        ensures
            r is Ok <==> record_g(input@, 0, "union"@) is Some,
            r matches Ok((rest, v)) ==> split_result(input@, record_g(input@, 0, "union"@)) == Some(
                (rest@, v@),
            ),
    {
        let s = chars_of(input);
        match Self::parse_at(&s, 0) {
            Ok((q, v)) => Ok((string_of(&s, q, s.len()), v)),
            Err(e) => Err(e),
        }
    }
}

/// An exception type: `exception` name `{` fields `}`.
#[derive(Debug, PartialEq)]
pub struct Exception {
    pub name: Identifier,
    pub fields: Vec<Field>,
}

impl View for Exception {
    type V = RecordModel;

    open spec fn view(&self) -> RecordModel {
        RecordModel { name: self.name@, fields: fields_view(self.fields@) }
    }
}

impl Exception {
    /// Parses a `exception` definition at `pos`.
    pub fn parse_at(s: &Vec<char>, pos: usize) -> (r: PResult<Self>)
        requires
            pos <= s@.len(),
        ensures
            r is Ok <==> record_g(s@, pos as int, "exception"@) is Some,
            r matches Ok((q, v)) ==> pos <= q <= s@.len() && record_g(s@, pos as int, "exception"@)
                == Some(((q - pos) as nat, v@)),
    {
        match record_at(s, pos, "exception") {
            Ok((q, name, fields)) => Ok((q, Exception { name, fields })),
            Err(x) => Err(x),
        }
    }

    /// Parses a `exception` definition at the start of `input`, and returns the rest with it.
    pub fn parse(input: &str) -> (r: Result<(String, Self), ParseError>)
        ensures
            r is Ok <==> record_g(input@, 0, "exception"@) is Some,
            r matches Ok((rest, v)) ==> split_result(input@, record_g(input@, 0, "exception"@)) == Some(
                (rest@, v@),
            ),
    {
        let s = chars_of(input);
        match Self::parse_at(&s, 0) {
            Ok((q, v)) => Ok((string_of(&s, q, s.len()), v)),
            Err(e) => Err(e),
        }
    }
}

/// An RPC interface: `service` name (`extends` name)? `{` functions `}`.
#[derive(Debug, PartialEq)]
pub struct Service {
    pub name: Identifier,
    pub extension: Option<Identifier>,
    pub functions: Vec<Function>,
}

pub struct ServiceModel {
    pub name: Seq<char>,
    pub extension: Option<Seq<char>>,
    pub functions: Seq<FunctionModel>,
}

pub open spec fn functions_view(v: Seq<Function>) -> Seq<FunctionModel> {
    v.map_values(|f: Function| f@)
}

impl View for Service {
    type V = ServiceModel;

    open spec fn view(&self) -> ServiceModel {
        ServiceModel {
            name: self.name@,
            extension: match self.extension {
                Some(e) => Some(e@),
                None => None,
            },
            functions: functions_view(self.functions@),
        }
    }
}

pub open spec fn function_p() -> spec_fn(Seq<char>, int) -> Option<(nat, FunctionModel)> {
    |s: Seq<char>, p: int| function_g(s, p)
}

/// Position after an optional `extends` name at `pos` and the comments or white
/// space after it, and the name.
#[verifier::opaque]
pub open spec fn extends_g(s: Seq<char>, pos: int) -> (int, Option<Seq<char>>) {
    let a = pos + 7 + sep_len(s, pos + 7);
    if has_tag(s, pos, "extends"@) && sep_len(s, pos + 7) > 0 && identifier_g(s, a) is Some {
        let (n, name) = identifier_g(s, a)->Some_0;
        (a + n + sep_len(s, a + n), Some(name))
    } else {
        (pos, None)
    }
}

/// `service`, separator, name, optional comments or white space, an optional
/// `extends` clause, `{`, functions one after another with optional comments
/// or white space between them, `}`.
#[verifier::opaque]
pub open spec fn service_g(s: Seq<char>, pos: int) -> Option<(nat, ServiceModel)> {
    let a = pos + 7;
    let b = a + sep_len(s, a);
    if has_tag(s, pos, "service"@) && sep_len(s, a) > 0 && identifier_g(s, b) is Some {
        let (ni, name) = identifier_g(s, b)->Some_0;
        let c = b + ni + sep_len(s, b + ni);
        let (d, extension) = extends_g(s, c);
        let e = d + 1 + sep_len(s, d + 1);
        if has_char(s, d, '{') && e <= s.len() {
            let (nf, functions) = items_g(s, e, function_p(), gap_p());
            let g = e + nf + sep_len(s, e + nf);
            if has_char(s, g, '}') {
                Some(((g + 1 - pos) as nat, ServiceModel { name, extension, functions }))
            } else {
                None
            }
        } else {
            None
        }
    } else {
        None
    }
}

/// An optional `extends` clause at `pos`.
fn extends_at(s: &Vec<char>, pos: usize) -> (r: (usize, Option<Identifier>))
    requires
        pos <= s@.len(),
    ensures
        pos <= r.0 <= s@.len(),
        extends_g(s@, pos as int) == (r.0 as int, match r.1 {
            Some(i) => Some(i@),
            None => None::<Seq<char>>,
        }),
{
    proof {
        reveal(extends_g);
        reveal_strlit("extends");
    }
    if let Some(e) = tag_end(s, pos, "extends") {
        let a = skip_sep(s, e);
        if a > e {
            if let Ok((q, name)) = Identifier::parse_at(s, a) {
                return (skip_sep(s, q), Some(name));
            }
        }
    }
    (pos, None)
}

/// Functions at `p`, with optional comments or white space between them, as many as match.
fn function_list_at(s: &Vec<char>, p: usize) -> (r: (usize, Vec<Function>))
    requires
        p <= s@.len(),
    ensures
        p <= r.0 <= s@.len(),
        items_g(s@, p as int, function_p(), gap_p()) == ((r.0 - p) as nat, functions_view(
            r.1@,
        )),
{
    let mut items: Vec<Function> = Vec::new();
    let (q, v) = match Function::parse_at(s, p) {
        Ok(x) => x,
        Err(_) => {
            return (p, items);
        },
    };
    items.push(v);
    assert(functions_view(items@) =~= seq![v@]);
    let mut i = q;
    loop
        invariant
            p <= i <= s@.len(),
            items_g(s@, p as int, function_p(), gap_p()) == prepend(
                i - p,
                functions_view(items@),
                tail_g(s@, i as int, function_p(), gap_p()),
            ),
        decreases s@.len() - i,
    {
        let j = skip_sep(s, i);
        let (q2, v2) = match Function::parse_at(s, j) {
            Ok(x) => x,
            Err(_) => {
                assert(functions_view(items@) + Seq::empty() =~= functions_view(items@));
                return (i, items);
            },
        };
        if q2 == i {
            assert(functions_view(items@) + Seq::empty() =~= functions_view(items@));
            return (i, items);
        }
        let ghost old_items = functions_view(items@);
        let ghost rest = tail_g(s@, q2 as int, function_p(), gap_p()).1;
        assert(tail_g(s@, i as int, function_p(), gap_p()) == prepend(
            q2 - i,
            seq![v2@],
            tail_g(s@, q2 as int, function_p(), gap_p()),
        ));
        items.push(v2);
        assert(functions_view(items@) =~= old_items.push(v2@));
        assert(old_items + (seq![v2@] + rest) =~= functions_view(items@) + rest);
        i = q2;
    }
}

impl Service {
    /// Parses a service at `pos`.
    pub fn parse_at(s: &Vec<char>, pos: usize) -> (r: PResult<Self>)
        requires
            pos <= s@.len(),
        ensures
            r is Ok <==> service_g(s@, pos as int) is Some,
            r matches Ok((q, v)) ==> pos <= q <= s@.len() && service_g(s@, pos as int) == Some(
                ((q - pos) as nat, v@),
            ),
    {
        proof {
            reveal(service_g);
            reveal_strlit("service");
        }
        let a = match tag_end(s, pos, "service") {
            Some(a) => a,
            None => {
                return err(ErrorKind::Tag, pos);
            },
        };
        let b = skip_sep(s, a);
        if b == a {
            return err(ErrorKind::Tag, a);
        }
        let (q, name) = match Identifier::parse_at(s, b) {
            Ok(x) => x,
            Err(x) => {
                return Err(x);
            },
        };
        let c = skip_sep(s, q);
        let (d, extension) = extends_at(s, c);
        if !char_at(s, d, '{') {
            return err(ErrorKind::Tag, d);
        }
        let e = skip_sep(s, d + 1);
        let (f, functions) = function_list_at(s, e);
        let g = skip_sep(s, f);
        if char_at(s, g, '}') {
            Ok((g + 1, Service { name, extension, functions }))
        } else {
            err(ErrorKind::Tag, g)
        }
    }

    /// Parses a service at the start of `input`, and returns the rest with it.
    pub fn parse(input: &str) -> (r: Result<(String, Self), ParseError>)
        ensures
            r is Ok <==> service_g(input@, 0) is Some,
            r matches Ok((rest, v)) ==> split_result(input@, service_g(input@, 0)) == Some(
                (rest@, v@),
            ),
    {
        let s = chars_of(input);
        match Self::parse_at(&s, 0) {
            Ok((q, v)) => Ok((string_of(&s, q, s.len()), v)),
            Err(e) => Err(e),
        }
    }
}

} // verus!
