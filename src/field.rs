//! Fields of structs, unions, exceptions and function parameter lists.
use vstd::prelude::*;

use crate::basic::{
    err, identifier_g, items_g, list_separator_g, sep_len, gap_p, skip_sep, split_result,
    tail_g, Identifier, ListSeparator,
};
use crate::constant::{
    const_value_g, int_constant_g, taken, ConstValue, ConstValueModel, IntConstant,
};
use crate::text::{
    char_at, chars_of, has_char, has_tag, string_of, tag_end, ErrorKind, PResult, ParseError,
};
use crate::types::{field_type_g, FieldType, FieldTypeModel};

verus! {

/// One member: optional id, optional requiredness, type, name, optional default.
#[derive(Debug, PartialEq)]
pub struct Field {
    pub id: Option<IntConstant>,
    pub required: Option<bool>,
    pub type_: FieldType,
    pub name: Identifier,
    pub default: Option<ConstValue>,
}

/// What a field denotes.
pub struct FieldModel {
    pub id: Option<i64>,
    pub required: Option<bool>,
    pub type_: FieldTypeModel,
    pub name: Seq<char>,
    pub default: Option<ConstValueModel>,
}

impl View for Field {
    type V = FieldModel;

    open spec fn view(&self) -> FieldModel {
        FieldModel {
            id: match self.id {
                Some(i) => Some(i.0),
                None => None,
            },
            required: self.required,
            type_: self.type_@,
            name: self.name@,
            default: match self.default {
                Some(v) => Some(v@),
                None => None,
            },
        }
    }
}

pub open spec fn fields_view(v: Seq<Field>) -> Seq<FieldModel> {
    v.map_values(|f: Field| f@)
}

/// Position after an optional `id :` at `pos`, and the id.
pub open spec fn field_id_g(s: Seq<char>, pos: int) -> (int, Option<i64>) {
    if let Some((n, v)) = int_constant_g(s, pos) {
        let a = pos + n + sep_len(s, pos + n);
        if has_char(s, a, ':') {
            (a + 1 + sep_len(s, a + 1), Some(v))
        } else {
            (pos, None)
        }
    } else {
        (pos, None)
    }
}

/// Position after an optional `required` or `optional` and the separator after it.
pub open spec fn field_req_g(s: Seq<char>, pos: int) -> (int, Option<bool>) {
    if has_tag(s, pos, "required"@) && sep_len(s, pos + 8) > 0 {
        (pos + 8 + sep_len(s, pos + 8), Some(true))
    } else if has_tag(s, pos, "optional"@) && sep_len(s, pos + 8) > 0 {
        (pos + 8 + sep_len(s, pos + 8), Some(false))
    } else {
        (pos, None)
    }
}

/// Position after an optional `= value` at `pos`, and the value.
pub open spec fn field_default_g(s: Seq<char>, pos: int) -> (int, Option<ConstValueModel>) {
    let b = pos + 1 + sep_len(s, pos + 1);
    if has_char(s, pos, '=') && b <= s.len() {
        if let Some((n, v)) = const_value_g(s, b) {
            (b + n, Some(v))
        } else {
            (pos, None)
        }
    } else {
        (pos, None)
    }
}

/// Position after optional comments or white space and an optional list separator.
pub open spec fn skip_trailer_g(s: Seq<char>, pos: int) -> int {
    let a = pos + sep_len(s, pos);
    if list_separator_g(s, a) is Some {
        a + 1
    } else {
        a
    }
}

/// `id:`? `required|optional`? type, separator, name, (`=` value)?, then an
/// optional list separator.
#[verifier::opaque]
pub open spec fn field_g(s: Seq<char>, pos: int) -> Option<(nat, FieldModel)> {
    let (p1, id) = field_id_g(s, pos);
    let (p2, required) = field_req_g(s, p1);
    if let Some((nt, ty)) = field_type_g(s, p2) {
        let p3 = p2 + nt;
        let p4 = p3 + sep_len(s, p3);
        if sep_len(s, p3) > 0 {
            if let Some((ni, name)) = identifier_g(s, p4) {
                let p5 = p4 + ni + sep_len(s, p4 + ni);
                let (p6, default) = field_default_g(s, p5);
                let e = skip_trailer_g(s, p6);
                Some(
                    (
                        (e - pos) as nat,
                        FieldModel { id, required, type_: ty, name, default },
                    ),
                )
            } else {
                None
            }
        } else {
            None
        }
    } else {
        None
    }
}

/// The field grammar as a function value.
pub open spec fn field_p() -> spec_fn(Seq<char>, int) -> Option<(nat, FieldModel)> {
    |s: Seq<char>, p: int| field_g(s, p)
}

/// Fields one after another, with optional comments or white space between
/// them, as many as match.
pub open spec fn field_list_g(s: Seq<char>, p: int) -> (nat, Seq<FieldModel>) {
    items_g(s, p, field_p(), gap_p())
}

/// Where a field that starts at `p` is followed by the next one: after the
/// field and any comments or white space.
pub open spec fn after_field(s: Seq<char>, p: int) -> int {
    let q = p + taken(field_g(s, p));
    q + sep_len(s, q)
}

/// Two fields in a row are both read: the second may follow the first
/// directly, after the list separator the first ends with, or after comments
/// or white space.
pub proof fn lemma_fields_in_a_row(s: Seq<char>, p: int)
    requires
        0 <= p <= s.len(),
        field_g(s, p) is Some,
        p + taken(field_g(s, p)) <= s.len(),
        field_g(s, after_field(s, p)) is Some,
        after_field(s, p) + taken(field_g(s, after_field(s, p))) <= s.len(),
    ensures
        ({
            let (n, f) = field_g(s, p)->Some_0;
            let (m, g) = field_g(s, p + n + sep_len(s, p + n))->Some_0;
            let fields = field_list_g(s, p).1;
            fields.len() >= 2 && fields[0] == f && fields[1] == g
        }),
{
    reveal(field_g);
    let (n, f) = field_g(s, p)->Some_0;
    let q = p + n;
    let r = q + sep_len(s, q);
    let (m, g) = field_g(s, r)->Some_0;
    assert(m > 0);
    let fields = field_list_g(s, p).1;
    assert(fields == seq![f] + tail_g(s, q, field_p(), gap_p()).1);
    assert(tail_g(s, q, field_p(), gap_p()).1 == seq![g] + tail_g(s, r + m, field_p(), gap_p()).1);
}

/// The position after optional comments or white space and an optional list separator.
pub(crate) fn skip_trailer(s: &Vec<char>, pos: usize) -> (r: usize)
    requires
        pos <= s@.len(),
    ensures
        r == skip_trailer_g(s@, pos as int),
        pos <= r <= s@.len(),
{
    let a = skip_sep(s, pos);
    match ListSeparator::parse_at(s, a) {
        Ok((q, _)) => q,
        Err(_) => a,
    }
}

/// An optional `id :` at `pos`.
fn field_id_at(s: &Vec<char>, pos: usize) -> (r: (usize, Option<IntConstant>))
    requires
        pos <= s@.len(),
    ensures
        pos <= r.0 <= s@.len(),
        field_id_g(s@, pos as int) == (r.0 as int, match r.1 {
            Some(i) => Some(i.0),
            None => None::<i64>,
        }),
{
    if let Ok((n, v)) = IntConstant::parse_at(s, pos) {
        let a = skip_sep(s, n);
        if char_at(s, a, ':') {
            return (skip_sep(s, a + 1), Some(v));
        }
    }
    (pos, None)
}

/// An optional `required` or `optional` keyword and the separator after it at `pos`.
fn field_req_at(s: &Vec<char>, pos: usize) -> (r: (usize, Option<bool>))
    requires
        pos <= s@.len(),
    ensures
        pos <= r.0 <= s@.len(),
        field_req_g(s@, pos as int) == (r.0 as int, r.1),
{
    proof {
        reveal_strlit("required");
        reveal_strlit("optional");
    }
    if let Some(e) = tag_end(s, pos, "required") {
        let b = skip_sep(s, e);
        if b > e {
            return (b, Some(true));
        }
    }
    if let Some(e) = tag_end(s, pos, "optional") {
        let b = skip_sep(s, e);
        if b > e {
            return (b, Some(false));
        }
    }
    (pos, None)
}

/// An optional `= value` at `pos`.
fn field_default_at(s: &Vec<char>, pos: usize) -> (r: (usize, Option<ConstValue>))
    requires
        pos <= s@.len(),
    ensures
        pos <= r.0 <= s@.len(),
        field_default_g(s@, pos as int) == (r.0 as int, match r.1 {
            Some(v) => Some(v@),
            None => None::<ConstValueModel>,
        }),
{
    if char_at(s, pos, '=') {
        let b = skip_sep(s, pos + 1);
        if let Ok((n, v)) = ConstValue::parse_at(s, b) {
            return (n, Some(v));
        }
    }
    (pos, None)
}

impl Field {
    /// Parses a field at `pos`.
    #[verifier::rlimit(60)]
    pub fn parse_at(s: &Vec<char>, pos: usize) -> (r: PResult<Self>)
        requires
            pos <= s@.len(),
        ensures
            r is Ok <==> field_g(s@, pos as int) is Some,
            r matches Ok((q, v)) ==> pos <= q <= s@.len() && field_g(s@, pos as int) == Some(
                ((q - pos) as nat, v@),
            ),
    {
        proof {
            reveal(field_g);
        }
        let (p1, id) = field_id_at(s, pos);
        let (p2, required) = field_req_at(s, p1);
        let (p3, type_) = match FieldType::parse_at(s, p2) {
            Ok(x) => x,
            Err(e) => {
                return Err(e);
            },
        };
        let p4 = skip_sep(s, p3);
        if p4 == p3 {
            return err(ErrorKind::Tag, p3);
        }
        let (q, name) = match Identifier::parse_at(s, p4) {
            Ok(x) => x,
            Err(e) => {
                return Err(e);
            },
        };
        let p5 = skip_sep(s, q);
        let (p6, default) = field_default_at(s, p5);
        let e = skip_trailer(s, p6);
        Ok((e, Field { id, required, type_, name, default }))
    }

    /// Parses a field at the start of `input`, and returns the rest with it.
    pub fn parse(input: &str) -> (r: Result<(String, Self), ParseError>)
        ensures
            r is Ok <==> field_g(input@, 0) is Some,
            r matches Ok((rest, v)) ==> split_result(input@, field_g(input@, 0)) == Some(
                (rest@, v@),
            ),
    {
        let s = chars_of(input);
        match Self::parse_at(&s, 0) {
            Ok((q, v)) => Ok((string_of(&s, q, s.len()), v)),
            Err(e) => Err(e),
        }
    }
}

/// Fields at `p`, with optional comments or white space between them, as many as match.
pub fn field_list_at(s: &Vec<char>, p: usize) -> (r: (usize, Vec<Field>))
    requires
        p <= s@.len(),
    ensures
        p <= r.0 <= s@.len(),
        field_list_g(s@, p as int) == ((r.0 - p) as nat, fields_view(r.1@)),
{
    let mut items: Vec<Field> = Vec::new();
    let (q, v) = match Field::parse_at(s, p) {
        Ok(x) => x,
        Err(_) => {
            return (p, items);
        },
    };
    items.push(v);
    assert(fields_view(items@) =~= seq![v@]);
    let mut i = q;
    loop
        invariant
            p <= i <= s@.len(),
            field_list_g(s@, p as int) == crate::constant::prepend(
                i - p,
                fields_view(items@),
                tail_g(s@, i as int, field_p(), gap_p()),
            ),
        decreases s@.len() - i,
    {
        let j = skip_sep(s, i);
        let (q2, v2) = match Field::parse_at(s, j) {
            Ok(x) => x,
            Err(_) => {
                assert(fields_view(items@) + Seq::empty() =~= fields_view(items@));
                return (i, items);
            },
        };
        if q2 == i {
            assert(fields_view(items@) + Seq::empty() =~= fields_view(items@));
            return (i, items);
        }
        let ghost old_items = fields_view(items@);
        let ghost rest = tail_g(s@, q2 as int, field_p(), gap_p()).1;
        assert(tail_g(s@, i as int, field_p(), gap_p()) == crate::constant::prepend(
            q2 - i,
            seq![v2@],
            tail_g(s@, q2 as int, field_p(), gap_p()),
        ));
        items.push(v2);
        assert(fields_view(items@) =~= old_items.push(v2@));
        assert(old_items + (seq![v2@] + rest) =~= fields_view(items@) + rest);
        i = q2;
    }
}

} // verus!
