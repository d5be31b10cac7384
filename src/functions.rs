//! Service functions.
use vstd::prelude::*;

use crate::basic::{
    err, identifier_g, list_separator_g, sep_len, skip_sep, split_result, Identifier, ListSeparator,
};
use crate::field::{field_list_at, field_list_g, fields_view, Field, FieldModel};
use crate::text::{
    char_at, chars_of, has_char, has_tag, has_word, string_of, tag_end, word_end, ErrorKind,
    PResult, ParseError,
};
use crate::types::{field_type_g, FieldType, FieldTypeModel};

verus! {

/// One operation of a service.
#[derive(Debug, PartialEq)]
pub struct Function {
    pub oneway: bool,
    /// `None` for `void`.
    pub returns: Option<FieldType>,
    pub name: Identifier,
    pub parameters: Vec<Field>,
    pub exceptions: Option<Vec<Field>>,
}

/// What a function denotes.
pub struct FunctionModel {
    pub oneway: bool,
    pub returns: Option<FieldTypeModel>,
    pub name: Seq<char>,
    pub parameters: Seq<FieldModel>,
    pub exceptions: Option<Seq<FieldModel>>,
}

impl View for Function {
    type V = FunctionModel;

    open spec fn view(&self) -> FunctionModel {
        FunctionModel {
            oneway: self.oneway,
            returns: match self.returns {
                Some(t) => Some(t@),
                None => None,
            },
            name: self.name@,
            parameters: fields_view(self.parameters@),
            exceptions: match self.exceptions {
                Some(e) => Some(fields_view(e@)),
                None => None,
            },
        }
    }
}

/// Position after an optional `oneway` and the separator after it, and whether it was there.
pub open spec fn oneway_g(s: Seq<char>, pos: int) -> (int, bool) {
    if has_tag(s, pos, "oneway"@) && sep_len(s, pos + 6) > 0 {
        (pos + 6 + sep_len(s, pos + 6), true)
    } else {
        (pos, false)
    }
}

/// `void` (as `None`) or a field type.
#[verifier::opaque]
pub open spec fn returns_g(s: Seq<char>, pos: int) -> Option<(nat, Option<FieldTypeModel>)> {
    if has_word(s, pos, "void"@) {
        Some(("void"@.len(), None))
    } else if let Some((n, t)) = field_type_g(s, pos) {
        Some((n, Some(t)))
    } else {
        None
    }
}

/// `(` fields `)` at `pos`: the end and the fields.
#[verifier::opaque]
pub open spec fn paren_fields_g(s: Seq<char>, pos: int) -> Option<(int, Seq<FieldModel>)> {
    if has_char(s, pos, '(') {
        let (n, fs) = field_list_g(s, pos + 1);
        if has_char(s, pos + 1 + n, ')') {
            Some((pos + 2 + n, fs))
        } else {
            None
        }
    } else {
        None
    }
}

/// Position after an optional `throws (` fields `)` at `pos`, and the fields.
#[verifier::opaque]
pub open spec fn throws_g(s: Seq<char>, pos: int) -> (int, Option<Seq<FieldModel>>) {
    let p = pos + 6 + sep_len(s, pos + 6);
    if has_tag(s, pos, "throws"@) && sep_len(s, pos + 6) > 0 && paren_fields_g(s, p) is Some {
        let (e, fs) = paren_fields_g(s, p)->Some_0;
        (e, Some(fs))
    } else {
        (pos, None)
    }
}

/// Position after an optional list separator, with the comments or white space
/// before it taken only when it is there.
pub open spec fn skip_list_end_g(s: Seq<char>, pos: int) -> int {
    let a = pos + sep_len(s, pos);
    if list_separator_g(s, a) is Some {
        a + 1
    } else {
        pos
    }
}

/// `oneway`? (`void` | type), separator, name, `(` fields `)`, `throws (` fields `)`?,
/// then an optional list separator.
pub open spec fn function_g(s: Seq<char>, pos: int) -> Option<(nat, FunctionModel)> {
    let (p1, oneway) = oneway_g(s, pos);
    if let Some((n, ret)) = returns_g(s, p1) {
        let p2 = p1 + n;
        let p3 = p2 + sep_len(s, p2);
        if sep_len(s, p2) > 0 {
            if let Some((ni, name)) = identifier_g(s, p3) {
                let p4 = p3 + ni + sep_len(s, p3 + ni);
                if let Some((p5, parameters)) = paren_fields_g(s, p4) {
                    let p6 = p5 + sep_len(s, p5);
                    let (p7, exceptions) = throws_g(s, p6);
                    let e = skip_list_end_g(s, p7);
                    Some(
                        (
                            (e - pos) as nat,
                            FunctionModel { oneway, returns: ret, name, parameters, exceptions },
                        ),
                    )
                } else {
                    None
                }
            } else {
                None
            }
        } else {
            None
        }
    } else {
        None
    }
}

/// The position after an optional list separator, with what precedes it.
pub(crate) fn skip_list_end(s: &Vec<char>, pos: usize) -> (r: usize)
    requires
        pos <= s@.len(),
    ensures
        r == skip_list_end_g(s@, pos as int),
        pos <= r <= s@.len(),
{
    let a = skip_sep(s, pos);
    match ListSeparator::parse_at(s, a) {
        Ok((q, _)) => q,
        Err(_) => pos,
    }
}

/// `(` fields `)` at `pos`.
fn paren_fields_at(s: &Vec<char>, pos: usize) -> (r: Result<(usize, Vec<Field>), ParseError>)
    requires
        pos <= s@.len(),
    ensures
        r is Ok <==> paren_fields_g(s@, pos as int) is Some,
        r matches Ok((e, fs)) ==> pos <= e <= s@.len() && paren_fields_g(s@, pos as int) == Some(
            (e as int, fields_view(fs@)),
        ),
{
    proof {
        reveal(paren_fields_g);
    }
    if !char_at(s, pos, '(') {
        return Err(ParseError { kind: ErrorKind::Tag, pos });
    }
    let (q, fs) = field_list_at(s, pos + 1);
    if char_at(s, q, ')') {
        Ok((q + 1, fs))
    } else {
        Err(ParseError { kind: ErrorKind::Tag, pos: q })
    }
}

/// An optional `throws (` fields `)` at `pos`.
fn throws_at(s: &Vec<char>, pos: usize) -> (r: (usize, Option<Vec<Field>>))
    requires
        pos <= s@.len(),
    ensures
        pos <= r.0 <= s@.len(),
        throws_g(s@, pos as int) == (r.0 as int, match r.1 {
            Some(fs) => Some(fields_view(fs@)),
            None => None::<Seq<FieldModel>>,
        }),
{
    proof {
        reveal(throws_g);
        reveal_strlit("throws");
    }
    if let Some(e) = tag_end(s, pos, "throws") {
        let p = skip_sep(s, e);
        if p > e {
            if let Ok((f, fs)) = paren_fields_at(s, p) {
                return (f, Some(fs));
            }
        }
    }
    (pos, None)
}

/// An optional `oneway` and the separator after it at `pos`.
fn oneway_at(s: &Vec<char>, pos: usize) -> (r: (usize, bool))
    requires
        pos <= s@.len(),
    ensures
        pos <= r.0 <= s@.len(),
        oneway_g(s@, pos as int) == (r.0 as int, r.1),
{
    proof {
        reveal_strlit("oneway");
    }
    if let Some(e) = tag_end(s, pos, "oneway") {
        let b = skip_sep(s, e);
        if b > e {
            return (b, true);
        }
    }
    (pos, false)
}

/// `void` or a field type at `pos`.
fn returns_at(s: &Vec<char>, pos: usize) -> (r: PResult<Option<FieldType>>)
    requires
        pos <= s@.len(),
    ensures
        r is Ok <==> returns_g(s@, pos as int) is Some,
        r matches Ok((q, v)) ==> pos <= q <= s@.len() && returns_g(s@, pos as int) == Some(
            (
                (q - pos) as nat,
                match v {
                    Some(t) => Some(t@),
                    None => None::<FieldTypeModel>,
                },
            ),
        ),
{
    proof {
        reveal(returns_g);
    }
    match word_end(s, pos, "void") {
        Some(e) => Ok((e, None)),
        None => match FieldType::parse_at(s, pos) {
            Ok((e, t)) => Ok((e, Some(t))),
            Err(x) => Err(x),
        },
    }
}

impl Function {
    /// Parses a function at `pos`.
    pub fn parse_at(s: &Vec<char>, pos: usize) -> (r: PResult<Self>)
        requires
            pos <= s@.len(),
        ensures
            r is Ok <==> function_g(s@, pos as int) is Some,
            r matches Ok((q, v)) ==> pos <= q <= s@.len() && function_g(s@, pos as int) == Some(
                ((q - pos) as nat, v@),
            ),
    {
        let (p1, oneway) = oneway_at(s, pos);
        let (p2, ret) = match returns_at(s, p1) {
            Ok(x) => x,
            Err(x) => {
                return Err(x);
            },
        };
        let p3 = skip_sep(s, p2);
        if p3 == p2 {
            return err(ErrorKind::Tag, p2);
        }
        let (q, name) = match Identifier::parse_at(s, p3) {
            Ok(x) => x,
            Err(x) => {
                return Err(x);
            },
        };
        let p4 = skip_sep(s, q);
        let (p5, parameters) = match paren_fields_at(s, p4) {
            Ok(x) => x,
            Err(x) => {
                return Err(x);
            },
        };
        let p6 = skip_sep(s, p5);
        let (p7, exceptions) = throws_at(s, p6);
        let e = skip_list_end(s, p7);
        Ok((e, Function { oneway, returns: ret, name, parameters, exceptions }))
    }

    /// Parses a function at the start of `input`, and returns the rest with it.
    pub fn parse(input: &str) -> (r: Result<(String, Self), ParseError>)
        ensures
            r is Ok <==> function_g(input@, 0) is Some,
            r matches Ok((rest, v)) ==> split_result(input@, function_g(input@, 0)) == Some(
                (rest@, v@),
            ),
    {
        let s = chars_of(input);
        match Self::parse_at(&s, 0) {
            Ok((q, v)) => Ok((string_of(&s, q, s.len()), v)),
            Err(e) => Err(e),
        }
    }
}

} // verus!
