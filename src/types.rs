//! Field types: base types, containers and references to named types.
use vstd::prelude::*;

use crate::basic::{
    err, identifier_g, is_identifier, literal_g, sep_len, skip_sep, split_result, Identifier,
    Literal,
};
use crate::text::{
    char_at, chars_of, class_pred, has_char, has_tag, has_word, is_ident_char, is_space, run_len,
    string_of, tag_end, word_end, CharClass, ErrorKind, PResult, ParseError,
};

verus! {

/// The declared type of a field, a parameter or a constant.
#[derive(Debug, PartialEq)]
pub enum FieldType {
    Identifier(Identifier),
    Bool,
    Byte,
    I8,
    I16,
    I32,
    I64,
    Double,
    String,
    Binary,
    MapOf(Box<FieldType>, Box<FieldType>),
    SetOf(Box<FieldType>),
    List(Box<FieldType>),
}

/// What a field type denotes.
pub enum FieldTypeModel {
    Identifier(Seq<char>),
    Bool,
    Byte,
    I8,
    I16,
    I32,
    I64,
    Double,
    String,
    Binary,
    MapOf(Box<FieldTypeModel>, Box<FieldTypeModel>),
    SetOf(Box<FieldTypeModel>),
    List(Box<FieldTypeModel>),
}

pub open spec fn ft_view(t: FieldType) -> FieldTypeModel
    decreases t,
{
    match t {
        FieldType::Identifier(i) => FieldTypeModel::Identifier(i@),
        FieldType::Bool => FieldTypeModel::Bool,
        FieldType::Byte => FieldTypeModel::Byte,
        FieldType::I8 => FieldTypeModel::I8,
        FieldType::I16 => FieldTypeModel::I16,
        FieldType::I32 => FieldTypeModel::I32,
        FieldType::I64 => FieldTypeModel::I64,
        FieldType::Double => FieldTypeModel::Double,
        FieldType::String => FieldTypeModel::String,
        FieldType::Binary => FieldTypeModel::Binary,
        FieldType::MapOf(k, v) => FieldTypeModel::MapOf(Box::new(ft_view(*k)), Box::new(ft_view(*v))),
        FieldType::SetOf(e) => FieldTypeModel::SetOf(Box::new(ft_view(*e))),
        FieldType::List(e) => FieldTypeModel::List(Box::new(ft_view(*e))),
    }
}

impl View for FieldType {
    type V = FieldTypeModel;

    open spec fn view(&self) -> FieldTypeModel {
        ft_view(*self)
    }
}

/// A `cpp_type` annotation: the keyword, comments or white space, a literal.
#[derive(Clone, Debug, PartialEq, Eq)]
pub struct CppType(pub Literal);

impl View for CppType {
    type V = Seq<char>;

    open spec fn view(&self) -> Seq<char> {
        self.0@
    }
}

pub open spec fn cpp_type_g(s: Seq<char>, pos: int) -> Option<(nat, Seq<char>)> {
    let p = pos + 8;
    if has_tag(s, pos, "cpp_type"@) && sep_len(s, p) > 0 {
        if let Some((n, v)) = literal_g(s, p + sep_len(s, p)) {
            Some(((p + sep_len(s, p) + n - pos) as nat, v))
        } else {
            None
        }
    } else {
        None
    }
}

/// The nine base type keywords, each a whole word.
pub open spec fn base_type_g(s: Seq<char>, pos: int) -> Option<(nat, FieldTypeModel)> {
    if has_word(s, pos, "bool"@) {
        Some(("bool"@.len(), FieldTypeModel::Bool))
    } else if has_word(s, pos, "byte"@) {
        Some(("byte"@.len(), FieldTypeModel::Byte))
    } else if has_word(s, pos, "i8"@) {
        Some(("i8"@.len(), FieldTypeModel::I8))
    } else if has_word(s, pos, "i16"@) {
        Some(("i16"@.len(), FieldTypeModel::I16))
    } else if has_word(s, pos, "i32"@) {
        Some(("i32"@.len(), FieldTypeModel::I32))
    } else if has_word(s, pos, "i64"@) {
        Some(("i64"@.len(), FieldTypeModel::I64))
    } else if has_word(s, pos, "double"@) {
        Some(("double"@.len(), FieldTypeModel::Double))
    } else if has_word(s, pos, "string"@) {
        Some(("string"@.len(), FieldTypeModel::String))
    } else if has_word(s, pos, "binary"@) {
        Some(("binary"@.len(), FieldTypeModel::Binary))
    } else {
        None
    }
}

/// Position after an optional `cpp_type` annotation and the comments or white space after it.
pub open spec fn skip_cpp_g(s: Seq<char>, p: int) -> int {
    if let Some((n, _)) = cpp_type_g(s, p) {
        p + n + sep_len(s, p + n)
    } else {
        p
    }
}

/// `< T >` at `p`, with optional comments or white space inside: the end and the type.
pub open spec fn angle_one_g(s: Seq<char>, p: int) -> Option<(int, FieldTypeModel)>
    decreases s.len() - p, 1nat,
{
    let a = p + 1 + sep_len(s, p + 1);
    if has_char(s, p, '<') && a <= s.len() {
        if let Some((n, t)) = field_type_g(s, a) {
            let b = a + n + sep_len(s, a + n);
            if has_char(s, b, '>') {
                Some((b + 1, t))
            } else {
                None
            }
        } else {
            None
        }
    } else {
        None
    }
}

/// `< K , V >` at `p`, with optional comments or white space inside: the end and the types.
pub open spec fn angle_two_g(s: Seq<char>, p: int) -> Option<(int, FieldTypeModel, FieldTypeModel)>
    decreases s.len() - p, 1nat,
{
    let a = p + 1 + sep_len(s, p + 1);
    if has_char(s, p, '<') && a <= s.len() {
        if let Some((n, k)) = field_type_g(s, a) {
            let b = a + n + sep_len(s, a + n);
            let c = b + 1 + sep_len(s, b + 1);
            if has_char(s, b, ',') && c <= s.len() {
                if let Some((m, v)) = field_type_g(s, c) {
                    let d = c + m + sep_len(s, c + m);
                    if has_char(s, d, '>') {
                        Some((d + 1, k, v))
                    } else {
                        None
                    }
                } else {
                    None
                }
            } else {
                None
            }
        } else {
            None
        }
    } else {
        None
    }
}

/// `map`, `set` (each with an optional `cpp_type` before the brackets) or
/// `list` (with an optional `cpp_type` after them).
pub open spec fn container_type_g(s: Seq<char>, pos: int) -> Option<(nat, FieldTypeModel)>
    decreases s.len() - pos, 2nat,
{
    let pm = skip_cpp_g(s, pos + 3 + sep_len(s, pos + 3));
    let ps = skip_cpp_g(s, pos + 3 + sep_len(s, pos + 3));
    let pl = pos + 4 + sep_len(s, pos + 4);
    if has_tag(s, pos, "map"@) && pm <= s.len() && angle_two_g(s, pm) is Some {
        let (e, k, v) = angle_two_g(s, pm)->Some_0;
        Some(((e - pos) as nat, FieldTypeModel::MapOf(Box::new(k), Box::new(v))))
    } else if has_tag(s, pos, "set"@) && ps <= s.len() && angle_one_g(s, ps) is Some {
        let (e, t) = angle_one_g(s, ps)->Some_0;
        Some(((e - pos) as nat, FieldTypeModel::SetOf(Box::new(t))))
    } else if has_tag(s, pos, "list"@) && pl <= s.len() && angle_one_g(s, pl) is Some {
        let (e, t) = angle_one_g(s, pl)->Some_0;
        let f = if let Some((n, _)) = cpp_type_g(s, e + sep_len(s, e)) {
            e + sep_len(s, e) + n
        } else {
            e
        };
        Some(((f - pos) as nat, FieldTypeModel::List(Box::new(t))))
    } else {
        None
    }
}

/// A base type, a container type or a name, the first that matches.
pub open spec fn field_type_g(s: Seq<char>, pos: int) -> Option<(nat, FieldTypeModel)>
    decreases s.len() - pos, 3nat,
{
    if let Some(r) = base_type_g(s, pos) {
        Some(r)
    } else if let Some(r) = container_type_g(s, pos) {
        Some(r)
    } else if let Some((n, v)) = identifier_g(s, pos) {
        Some((n, FieldTypeModel::Identifier(v)))
    } else {
        None
    }
}


/// The canonical text of a field type: no white space and no annotations.
pub open spec fn render_type(t: FieldTypeModel) -> Seq<char>
    decreases t,
{
    match t {
        FieldTypeModel::Identifier(n) => n,
        FieldTypeModel::Bool => "bool"@,
        FieldTypeModel::Byte => "byte"@,
        FieldTypeModel::I8 => "i8"@,
        FieldTypeModel::I16 => "i16"@,
        FieldTypeModel::I32 => "i32"@,
        FieldTypeModel::I64 => "i64"@,
        FieldTypeModel::Double => "double"@,
        FieldTypeModel::String => "string"@,
        FieldTypeModel::Binary => "binary"@,
        FieldTypeModel::MapOf(k, v) => "map<"@ + render_type(*k) + ","@ + render_type(*v) + ">"@,
        FieldTypeModel::SetOf(e) => "set<"@ + render_type(*e) + ">"@,
        FieldTypeModel::List(e) => "list<"@ + render_type(*e) + ">"@,
    }
}

/// Every name in the type is an identifier that is not a base type keyword.
pub open spec fn well_named(t: FieldTypeModel) -> bool
    decreases t,
{
    match t {
        FieldTypeModel::Identifier(n) => is_identifier(n) && !is_base_word(n),
        FieldTypeModel::MapOf(k, v) => well_named(*k) && well_named(*v),
        FieldTypeModel::SetOf(e) => well_named(*e),
        FieldTypeModel::List(e) => well_named(*e),
        _ => true,
    }
}

/// Position `q` of `s` is the end of the text or holds `,` or `>`.
pub open spec fn type_stops_at(s: Seq<char>, q: int) -> bool {
    q == s.len() || (0 <= q < s.len() && (s[q] == ',' || s[q] == '>'))
}

proof fn lemma_chars_of_sub(s: Seq<char>, p: int, w: Seq<char>)
    requires
        0 <= p,
        p + w.len() <= s.len(),
        s.subrange(p, p + w.len()) == w,
    ensures
        forall|i: int| 0 <= i < w.len() ==> s[p + i] == w[i],
{
    assert forall|i: int| 0 <= i < w.len() implies s[p + i] == w[i] by {
        assert(s.subrange(p, p + w.len())[i] == s[p + i]);
    }
}

proof fn lemma_not_tag(s: Seq<char>, p: int, w: Seq<char>, kw: Seq<char>, i: int)
    requires
        0 <= p,
        p + w.len() <= s.len(),
        s.subrange(p, p + w.len()) == w,
        0 <= i < kw.len(),
        i < w.len(),
        w[i] != kw[i],
    ensures
        !has_tag(s, p, kw),
{
    assert(s.subrange(p, p + w.len())[i] == s[p + i]);
    if has_tag(s, p, kw) {
        assert(s.subrange(p, p + kw.len())[i] == s[p + i]);
    }
}

/// The characters of the keywords and punctuation of the type grammar.
proof fn lemma_type_words()
    ensures
        "bool"@ == seq!['b', 'o', 'o', 'l'],
        "byte"@ == seq!['b', 'y', 't', 'e'],
        "i8"@ == seq!['i', '8'],
        "i16"@ == seq!['i', '1', '6'],
        "i32"@ == seq!['i', '3', '2'],
        "i64"@ == seq!['i', '6', '4'],
        "double"@ == seq!['d', 'o', 'u', 'b', 'l', 'e'],
        "string"@ == seq!['s', 't', 'r', 'i', 'n', 'g'],
        "binary"@ == seq!['b', 'i', 'n', 'a', 'r', 'y'],
        "map<"@ == seq!['m', 'a', 'p', '<'],
        "set<"@ == seq!['s', 'e', 't', '<'],
        "list<"@ == seq!['l', 'i', 's', 't', '<'],
        ","@ == seq![','],
        ">"@ == seq!['>'],
        "map"@ == seq!['m', 'a', 'p'],
        "set"@ == seq!['s', 'e', 't'],
        "list"@ == seq!['l', 'i', 's', 't'],
        "cpp_type"@ == seq!['c', 'p', 'p', '_', 't', 'y', 'p', 'e'],
{
    reveal_strlit("bool");
    reveal_strlit("byte");
    reveal_strlit("i8");
    reveal_strlit("i16");
    reveal_strlit("i32");
    reveal_strlit("i64");
    reveal_strlit("double");
    reveal_strlit("string");
    reveal_strlit("binary");
    reveal_strlit("map<");
    reveal_strlit("set<");
    reveal_strlit("list<");
    reveal_strlit(",");
    reveal_strlit(">");
    reveal_strlit("map");
    reveal_strlit("set");
    reveal_strlit("list");
    reveal_strlit("cpp_type");
}

proof fn lemma_no_gap_at(s: Seq<char>, q: int)
    requires
        0 <= q < s.len(),
        s[q] != '/' && s[q] != '#' && !is_space(s[q]),
    ensures
        sep_len(s, q) == 0,
{
}

proof fn lemma_no_sep_at(s: Seq<char>, q: int)
    requires
        0 <= q <= s.len(),
        q < s.len() ==> s[q] != 'c' && s[q] != '/' && s[q] != '#' && !is_space(s[q]),
    ensures
        sep_len(s, q) == 0,
        cpp_type_g(s, q) is None,
{
    lemma_type_words();
    if q < s.len() && has_tag(s, q, "cpp_type"@) {
        assert(s.subrange(q, q + 8)[0] == s[q]);
    }
}


proof fn lemma_render_start(t: FieldTypeModel)
    requires
        well_named(t),
    ensures
        render_type(t).len() > 0,
        render_type(t)[0] != '/' && render_type(t)[0] != '#' && !is_space(render_type(t)[0]),
{
    lemma_type_words();
}

/// Every character of `w` could stand in an identifier.
pub open spec fn all_ident_chars(w: Seq<char>) -> bool {
    forall|i: int| 0 <= i < w.len() ==> is_ident_char(#[trigger] w[i])
}

/// `n` is one of the nine base type keywords.
pub open spec fn is_base_word(n: Seq<char>) -> bool {
    n == "bool"@
        || n == "byte"@
        || n == "i8"@
        || n == "i16"@
        || n == "i32"@
        || n == "i64"@
        || n == "double"@
        || n == "string"@
        || n == "binary"@
}

proof fn lemma_words_are_ident_chars()
    ensures
        all_ident_chars("bool"@),
        all_ident_chars("byte"@),
        all_ident_chars("i8"@),
        all_ident_chars("i16"@),
        all_ident_chars("i32"@),
        all_ident_chars("i64"@),
        all_ident_chars("double"@),
        all_ident_chars("string"@),
        all_ident_chars("binary"@),
        all_ident_chars("map"@),
        all_ident_chars("set"@),
        all_ident_chars("list"@),
        all_ident_chars("cpp_type"@),
{
    lemma_type_words();
    assert forall|i: int| 0 <= i < "bool"@.len() implies is_ident_char(#[trigger] "bool"@[i]) by {
        if i == 0 {} else if i == 1 {} else if i == 2 {} else if i == 3 {}
    }
    assert forall|i: int| 0 <= i < "byte"@.len() implies is_ident_char(#[trigger] "byte"@[i]) by {
        if i == 0 {} else if i == 1 {} else if i == 2 {} else if i == 3 {}
    }
    assert forall|i: int| 0 <= i < "i8"@.len() implies is_ident_char(#[trigger] "i8"@[i]) by {
        if i == 0 {} else if i == 1 {}
    }
    assert forall|i: int| 0 <= i < "i16"@.len() implies is_ident_char(#[trigger] "i16"@[i]) by {
        if i == 0 {} else if i == 1 {} else if i == 2 {}
    }
    assert forall|i: int| 0 <= i < "i32"@.len() implies is_ident_char(#[trigger] "i32"@[i]) by {
        if i == 0 {} else if i == 1 {} else if i == 2 {}
    }
    assert forall|i: int| 0 <= i < "i64"@.len() implies is_ident_char(#[trigger] "i64"@[i]) by {
        if i == 0 {} else if i == 1 {} else if i == 2 {}
    }
    assert forall|i: int| 0 <= i < "double"@.len() implies is_ident_char(#[trigger] "double"@[i]) by {
        if i == 0 {} else if i == 1 {} else if i == 2 {} else if i == 3 {} else if i == 4 {} else if i == 5 {}
    }
    assert forall|i: int| 0 <= i < "string"@.len() implies is_ident_char(#[trigger] "string"@[i]) by {
        if i == 0 {} else if i == 1 {} else if i == 2 {} else if i == 3 {} else if i == 4 {} else if i == 5 {}
    }
    assert forall|i: int| 0 <= i < "binary"@.len() implies is_ident_char(#[trigger] "binary"@[i]) by {
        if i == 0 {} else if i == 1 {} else if i == 2 {} else if i == 3 {} else if i == 4 {} else if i == 5 {}
    }
    assert forall|i: int| 0 <= i < "map"@.len() implies is_ident_char(#[trigger] "map"@[i]) by {
        if i == 0 {} else if i == 1 {} else if i == 2 {}
    }
    assert forall|i: int| 0 <= i < "set"@.len() implies is_ident_char(#[trigger] "set"@[i]) by {
        if i == 0 {} else if i == 1 {} else if i == 2 {}
    }
    assert forall|i: int| 0 <= i < "list"@.len() implies is_ident_char(#[trigger] "list"@[i]) by {
        if i == 0 {} else if i == 1 {} else if i == 2 {} else if i == 3 {}
    }
    assert forall|i: int| 0 <= i < "cpp_type"@.len() implies is_ident_char(#[trigger] "cpp_type"@[i]) by {
        if i == 0 {} else if i == 1 {} else if i == 2 {} else if i == 3 {} else if i == 4 {} else if i == 5 {} else if i == 6 {} else if i == 7 {}
    }
}

/// `s` holds the identifier `n` at `p`, followed by the end, `,` or `>`.
pub open spec fn ident_at(s: Seq<char>, p: int, n: Seq<char>) -> bool {
    &&& is_identifier(n)
    &&& 0 <= p
    &&& p + n.len() <= s.len()
    &&& s.subrange(p, p + n.len()) == n
    &&& type_stops_at(s, p + n.len())
}

proof fn lemma_ident_chars(s: Seq<char>, p: int, n: Seq<char>)
    requires
        ident_at(s, p, n),
    ensures
        forall|r: int| p <= r < p + n.len() ==> is_ident_char(#[trigger] s[r]),
        n.len() > 0,
{
    lemma_chars_of_sub(s, p, n);
    assert forall|r: int| p <= r < p + n.len() implies is_ident_char(#[trigger] s[r]) by {
        assert(s[p + (r - p)] == n[r - p]);
        if n[0] == '_' && r == p {
        }
    }
}

/// Inside or right after an identifier, no comment or white space starts, and no `<`.
proof fn lemma_quiet_in(s: Seq<char>, p: int, n: Seq<char>, r: int)
    requires
        ident_at(s, p, n),
        p <= r <= p + n.len(),
    ensures
        sep_len(s, r) == 0,
        !has_char(s, r, '<'),
{
    lemma_ident_chars(s, p, n);
    if r < s.len() {
        assert(s[r] != '/' && s[r] != '#' && !is_space(s[r]) && s[r] != '<');
    }
}

/// A word made of identifier characters found at `q` inside an identifier ends inside it.
proof fn lemma_tag_inside(s: Seq<char>, p: int, n: Seq<char>, q: int, w: Seq<char>)
    requires
        ident_at(s, p, n),
        p <= q <= p + n.len(),
        all_ident_chars(w),
        has_tag(s, q, w),
    ensures
        q + w.len() <= p + n.len(),
{
    lemma_ident_chars(s, p, n);
    let e = p + n.len();
    if q + w.len() > e {
        assert(s.subrange(q, q + w.len())[e - q] == s[e]);
        assert(is_ident_char(w[e - q]));
    }
}

/// An identifier that is not the keyword `kw` holds no whole word `kw`.
proof fn lemma_not_word_ident(s: Seq<char>, p: int, n: Seq<char>, kw: Seq<char>)
    requires
        ident_at(s, p, n),
        all_ident_chars(kw),
        kw != n,
    ensures
        !has_word(s, p, kw),
{
    lemma_ident_chars(s, p, n);
    if has_word(s, p, kw) {
        lemma_tag_inside(s, p, n, p, kw);
        if kw.len() == n.len() {
            assert(kw =~= n);
        } else {
            assert(is_ident_char(s[p + kw.len()]));
        }
    }
}

/// No `cpp_type` annotation starts inside or right after an identifier.
proof fn lemma_no_cpp_in(s: Seq<char>, p: int, n: Seq<char>, q: int)
    requires
        ident_at(s, p, n),
        p <= q <= p + n.len(),
    ensures
        cpp_type_g(s, q) is None,
        skip_cpp_g(s, q) == q,
{
    lemma_words_are_ident_chars();
    lemma_type_words();
    if has_tag(s, q, "cpp_type"@) {
        lemma_tag_inside(s, p, n, q, "cpp_type"@);
        lemma_quiet_in(s, p, n, q + 8);
    }
}

proof fn lemma_ident_reads_at(s: Seq<char>, p: int, n: Seq<char>)
    requires
        ident_at(s, p, n),
        !is_base_word(n),
    ensures
        field_type_g(s, p) == Some((n.len(), FieldTypeModel::Identifier(n))),
{
    lemma_words_are_ident_chars();
    lemma_type_words();
    lemma_ident_chars(s, p, n);
    lemma_not_word_ident(s, p, n, "bool"@);
    lemma_not_word_ident(s, p, n, "byte"@);
    lemma_not_word_ident(s, p, n, "i8"@);
    lemma_not_word_ident(s, p, n, "i16"@);
    lemma_not_word_ident(s, p, n, "i32"@);
    lemma_not_word_ident(s, p, n, "i64"@);
    lemma_not_word_ident(s, p, n, "double"@);
    lemma_not_word_ident(s, p, n, "string"@);
    lemma_not_word_ident(s, p, n, "binary"@);
    assert(base_type_g(s, p) is None);
    if has_tag(s, p, "map"@) {
        lemma_tag_inside(s, p, n, p, "map"@);
        lemma_quiet_in(s, p, n, p + 3);
        lemma_no_cpp_in(s, p, n, p + 3);
    }
    if has_tag(s, p, "set"@) {
        lemma_tag_inside(s, p, n, p, "set"@);
        lemma_quiet_in(s, p, n, p + 3);
        lemma_no_cpp_in(s, p, n, p + 3);
    }
    if has_tag(s, p, "list"@) {
        lemma_tag_inside(s, p, n, p, "list"@);
        lemma_quiet_in(s, p, n, p + 4);
    }
    assert(container_type_g(s, p) is None);
    let start: int = if n[0] == '_' {
        1
    } else {
        0
    };
    lemma_chars_of_sub(s, p, n);
    lemma_run_len_exact(s, p + start + 1, p + n.len());
    assert(s.subrange(p, p + n.len()) == n);
}

proof fn lemma_run_len_exact(s: Seq<char>, i: int, e: int)
    requires
        0 <= i <= e <= s.len(),
        forall|r: int| i <= r < e ==> is_ident_char(#[trigger] s[r]),
        e < s.len() ==> !is_ident_char(s[e]),
    ensures
        run_len(s, i, class_pred(CharClass::IdentTail)) == e - i,
    decreases e - i,
{
    if i < e {
        lemma_run_len_exact(s, i + 1, e);
    }
}

#[verifier::rlimit(100)]
#[verifier::spinoff_prover]
proof fn lemma_base_reads_at(s: Seq<char>, p: int, t: FieldTypeModel)
    requires
        well_named(t),
        0 <= p,
        p + render_type(t).len() <= s.len(),
        s.subrange(p, p + render_type(t).len()) == render_type(t),
        type_stops_at(s, p + render_type(t).len()),
        !(t is MapOf || t is SetOf || t is List || t is Identifier),
    ensures
        field_type_g(s, p) == Some((render_type(t).len(), t)),
{
    lemma_type_words();
    lemma_chars_of_sub(s, p, render_type(t));
    match t {
        FieldTypeModel::Bool => {
        },
        FieldTypeModel::Byte => {
            lemma_not_tag(s, p, render_type(t), "bool"@, 1);
        },
        FieldTypeModel::I8 => {
            lemma_not_tag(s, p, render_type(t), "bool"@, 0);
            lemma_not_tag(s, p, render_type(t), "byte"@, 0);
        },
        FieldTypeModel::I16 => {
            lemma_not_tag(s, p, render_type(t), "bool"@, 0);
            lemma_not_tag(s, p, render_type(t), "byte"@, 0);
            lemma_not_tag(s, p, render_type(t), "i8"@, 1);
        },
        FieldTypeModel::I32 => {
            lemma_not_tag(s, p, render_type(t), "bool"@, 0);
            lemma_not_tag(s, p, render_type(t), "byte"@, 0);
            lemma_not_tag(s, p, render_type(t), "i8"@, 1);
            lemma_not_tag(s, p, render_type(t), "i16"@, 1);
        },
        FieldTypeModel::I64 => {
            lemma_not_tag(s, p, render_type(t), "bool"@, 0);
            lemma_not_tag(s, p, render_type(t), "byte"@, 0);
            lemma_not_tag(s, p, render_type(t), "i8"@, 1);
            lemma_not_tag(s, p, render_type(t), "i16"@, 1);
            lemma_not_tag(s, p, render_type(t), "i32"@, 1);
        },
        FieldTypeModel::Double => {
            lemma_not_tag(s, p, render_type(t), "bool"@, 0);
            lemma_not_tag(s, p, render_type(t), "byte"@, 0);
            lemma_not_tag(s, p, render_type(t), "i8"@, 0);
            lemma_not_tag(s, p, render_type(t), "i16"@, 0);
            lemma_not_tag(s, p, render_type(t), "i32"@, 0);
            lemma_not_tag(s, p, render_type(t), "i64"@, 0);
        },
        FieldTypeModel::String => {
            lemma_not_tag(s, p, render_type(t), "bool"@, 0);
            lemma_not_tag(s, p, render_type(t), "byte"@, 0);
            lemma_not_tag(s, p, render_type(t), "i8"@, 0);
            lemma_not_tag(s, p, render_type(t), "i16"@, 0);
            lemma_not_tag(s, p, render_type(t), "i32"@, 0);
            lemma_not_tag(s, p, render_type(t), "i64"@, 0);
            lemma_not_tag(s, p, render_type(t), "double"@, 0);
        },
        FieldTypeModel::Binary => {
            lemma_not_tag(s, p, render_type(t), "bool"@, 1);
            lemma_not_tag(s, p, render_type(t), "byte"@, 1);
            lemma_not_tag(s, p, render_type(t), "i8"@, 0);
            lemma_not_tag(s, p, render_type(t), "i16"@, 0);
            lemma_not_tag(s, p, render_type(t), "i32"@, 0);
            lemma_not_tag(s, p, render_type(t), "i64"@, 0);
            lemma_not_tag(s, p, render_type(t), "double"@, 0);
            lemma_not_tag(s, p, render_type(t), "string"@, 0);
        },
        _ => {},
    }
}

#[verifier::rlimit(100)]
#[verifier::spinoff_prover]
proof fn lemma_map_reads_at(s: Seq<char>, p: int, t: FieldTypeModel)
    requires
        well_named(t),
        0 <= p,
        p + render_type(t).len() <= s.len(),
        s.subrange(p, p + render_type(t).len()) == render_type(t),
        type_stops_at(s, p + render_type(t).len()),
        t is MapOf,
    ensures
        field_type_g(s, p) == Some((render_type(t).len(), t)),
    decreases t, 0nat,
{
    lemma_type_words();
    lemma_chars_of_sub(s, p, render_type(t));
    lemma_not_tag(s, p, render_type(t), "bool"@, 0);
    lemma_not_tag(s, p, render_type(t), "byte"@, 0);
    lemma_not_tag(s, p, render_type(t), "i8"@, 0);
    lemma_not_tag(s, p, render_type(t), "i16"@, 0);
    lemma_not_tag(s, p, render_type(t), "i32"@, 0);
    lemma_not_tag(s, p, render_type(t), "i64"@, 0);
    lemma_not_tag(s, p, render_type(t), "double"@, 0);
    lemma_not_tag(s, p, render_type(t), "string"@, 0);
    lemma_not_tag(s, p, render_type(t), "binary"@, 0);
    let k = *t->MapOf_0;
    let v = *t->MapOf_1;
    let rk = render_type(k);
    let rv = render_type(v);
    let a = p + 4;
    let c = a + rk.len() + 1;
    lemma_render_start(k);
    lemma_render_start(v);
    let r1 = "map<"@ + rk;
    let r2 = r1 + ","@;
    let r3 = r2 + rv;
    assert(render_type(t) == r3 + ">"@);
    assert forall|i: int| 0 <= i < rk.len() implies s[a + i] == rk[i] by {
        assert(render_type(t)[4 + i] == r3[4 + i]);
        assert(r3[4 + i] == r2[4 + i]);
        assert(r2[4 + i] == r1[4 + i]);
    }
    assert forall|i: int| 0 <= i < rv.len() implies s[c + i] == rv[i] by {
        assert(render_type(t)[c - p + i] == r3[c - p + i]);
    }
    assert(s.subrange(a, a + rk.len()) =~= rk);
    assert(s.subrange(c, c + rv.len()) =~= rv);
    assert(render_type(t)[3] == r3[3] && r3[3] == r2[3] && r2[3] == r1[3]);
    let j = a + rk.len() - p;
    assert(render_type(t)[j] == r3[j] && r3[j] == r2[j]);
    let l = c + rv.len() - p;
    assert(render_type(t)[l] == ">"@[0]);
    assert(s[p + 3] == '<');
    assert(s[a + rk.len()] == ',');
    assert(s[c + rv.len()] == '>');
    lemma_no_sep_at(s, p + 3);
    lemma_no_gap_at(s, a);
    lemma_type_reads_at(s, a, k);
    lemma_no_sep_at(s, a + rk.len());
    lemma_no_gap_at(s, c);
    lemma_type_reads_at(s, c, v);
    lemma_no_sep_at(s, c + rv.len());
    assert forall|i: int| 0 <= i < 3 implies s[p + i] == "map"@[i] by {
        assert(render_type(t)[i] == r3[i] && r3[i] == r2[i] && r2[i] == r1[i]);
    }
    assert(s.subrange(p, p + 3) =~= "map"@);
    assert(t == FieldTypeModel::MapOf(Box::new(k), Box::new(v)));
    assert(base_type_g(s, p) is None);
    assert(skip_cpp_g(s, p + 3 + sep_len(s, p + 3)) == p + 3);
    assert(angle_two_g(s, p + 3) == Some((c + rv.len() + 1, k, v)));
    assert(container_type_g(s, p) == Some((render_type(t).len(), t)));
}

#[verifier::rlimit(100)]
#[verifier::spinoff_prover]
proof fn lemma_set_reads_at(s: Seq<char>, p: int, t: FieldTypeModel)
    requires
        well_named(t),
        0 <= p,
        p + render_type(t).len() <= s.len(),
        s.subrange(p, p + render_type(t).len()) == render_type(t),
        type_stops_at(s, p + render_type(t).len()),
        t is SetOf,
    ensures
        field_type_g(s, p) == Some((render_type(t).len(), t)),
    decreases t, 0nat,
{
    lemma_type_words();
    lemma_chars_of_sub(s, p, render_type(t));
    lemma_not_tag(s, p, render_type(t), "bool"@, 0);
    lemma_not_tag(s, p, render_type(t), "byte"@, 0);
    lemma_not_tag(s, p, render_type(t), "i8"@, 0);
    lemma_not_tag(s, p, render_type(t), "i16"@, 0);
    lemma_not_tag(s, p, render_type(t), "i32"@, 0);
    lemma_not_tag(s, p, render_type(t), "i64"@, 0);
    lemma_not_tag(s, p, render_type(t), "double"@, 0);
    lemma_not_tag(s, p, render_type(t), "string"@, 1);
    lemma_not_tag(s, p, render_type(t), "binary"@, 0);
    lemma_not_tag(s, p, render_type(t), "map"@, 0);
    let e = *t->SetOf_0;
    let re = render_type(e);
    let a = p + 4;
    lemma_render_start(e);
    let r1 = "set<"@ + re;
    assert(render_type(t) == r1 + ">"@);
    assert forall|i: int| 0 <= i < re.len() implies s[a + i] == re[i] by {
        assert(render_type(t)[4 + i] == r1[4 + i]);
    }
    assert(s.subrange(a, a + re.len()) =~= re);
    assert(render_type(t)[3] == r1[3]);
    let l = a + re.len() - p;
    assert(render_type(t)[l] == ">"@[0]);
    assert(s[p + 3] == '<');
    assert(s[a + re.len()] == '>');
    lemma_no_sep_at(s, p + 3);
    lemma_no_gap_at(s, a);
    lemma_type_reads_at(s, a, e);
    lemma_no_sep_at(s, a + re.len());
    assert forall|i: int| 0 <= i < 3 implies s[p + i] == "set"@[i] by {
        assert(render_type(t)[i] == r1[i]);
    }
    assert(s.subrange(p, p + 3) =~= "set"@);
    assert(t == FieldTypeModel::SetOf(Box::new(e)));
    assert(base_type_g(s, p) is None);
    assert(skip_cpp_g(s, p + 3 + sep_len(s, p + 3)) == p + 3);
    assert(angle_one_g(s, p + 3) == Some((a + re.len() + 1, e)));
    assert(container_type_g(s, p) == Some((render_type(t).len(), t)));
}

#[verifier::rlimit(100)]
#[verifier::spinoff_prover]
proof fn lemma_list_reads_at(s: Seq<char>, p: int, t: FieldTypeModel)
    requires
        well_named(t),
        0 <= p,
        p + render_type(t).len() <= s.len(),
        s.subrange(p, p + render_type(t).len()) == render_type(t),
        type_stops_at(s, p + render_type(t).len()),
        t is List,
    ensures
        field_type_g(s, p) == Some((render_type(t).len(), t)),
    decreases t, 0nat,
{
    lemma_type_words();
    lemma_chars_of_sub(s, p, render_type(t));
    lemma_not_tag(s, p, render_type(t), "bool"@, 0);
    lemma_not_tag(s, p, render_type(t), "byte"@, 0);
    lemma_not_tag(s, p, render_type(t), "i8"@, 0);
    lemma_not_tag(s, p, render_type(t), "i16"@, 0);
    lemma_not_tag(s, p, render_type(t), "i32"@, 0);
    lemma_not_tag(s, p, render_type(t), "i64"@, 0);
    lemma_not_tag(s, p, render_type(t), "double"@, 0);
    lemma_not_tag(s, p, render_type(t), "string"@, 0);
    lemma_not_tag(s, p, render_type(t), "binary"@, 0);
    lemma_not_tag(s, p, render_type(t), "map"@, 0);
    lemma_not_tag(s, p, render_type(t), "set"@, 0);
    let e = *t->List_0;
    let re = render_type(e);
    let a = p + 5;
    lemma_render_start(e);
    let r1 = "list<"@ + re;
    assert(render_type(t) == r1 + ">"@);
    assert forall|i: int| 0 <= i < re.len() implies s[a + i] == re[i] by {
        assert(render_type(t)[5 + i] == r1[5 + i]);
    }
    assert(s.subrange(a, a + re.len()) =~= re);
    assert(render_type(t)[4] == r1[4]);
    let l = a + re.len() - p;
    assert(render_type(t)[l] == ">"@[0]);
    assert(s[p + 4] == '<');
    assert(s[a + re.len()] == '>');
    lemma_no_sep_at(s, p + 4);
    lemma_no_gap_at(s, a);
    lemma_type_reads_at(s, a, e);
    lemma_no_sep_at(s, a + re.len());
    lemma_no_sep_at(s, a + re.len() + 1);
    assert forall|i: int| 0 <= i < 4 implies s[p + i] == "list"@[i] by {
        assert(render_type(t)[i] == r1[i]);
    }
    assert(s.subrange(p, p + 4) =~= "list"@);
    assert(t == FieldTypeModel::List(Box::new(e)));
    assert(base_type_g(s, p) is None);
    assert(4 + sep_len(s, p + 4) == 4);
    assert(angle_one_g(s, p + 4) == Some((a + re.len() + 1, e)));
    assert(container_type_g(s, p) == Some((render_type(t).len(), t)));
}

proof fn lemma_type_reads_at(s: Seq<char>, p: int, t: FieldTypeModel)
    requires
        well_named(t),
        0 <= p,
        p + render_type(t).len() <= s.len(),
        s.subrange(p, p + render_type(t).len()) == render_type(t),
        type_stops_at(s, p + render_type(t).len()),
    ensures
        field_type_g(s, p) == Some((render_type(t).len(), t)),
    decreases t, 1nat,
{
    match t {
        FieldTypeModel::MapOf(_, _) => lemma_map_reads_at(s, p, t),
        FieldTypeModel::SetOf(_) => lemma_set_reads_at(s, p, t),
        FieldTypeModel::List(_) => lemma_list_reads_at(s, p, t),
        FieldTypeModel::Identifier(n) => lemma_ident_reads_at(s, p, n),
        _ => lemma_base_reads_at(s, p, t),
    }
}

/// A type of any nesting depth, written in its canonical form, reads back as
/// the same type, the whole text taken; its names may be any identifiers that
/// are not base type keywords.
pub proof fn lemma_type_round_trip(t: FieldTypeModel)
    requires
        well_named(t),
    ensures
        field_type_g(render_type(t), 0) == Some((render_type(t).len(), t)),
{
    let r = render_type(t);
    assert(r.subrange(0, r.len() as int) =~= r);
    lemma_type_reads_at(r, 0, t);
}

/// A base type keyword standing as a whole word is read as that base type,
/// never as the name of a type.
pub proof fn lemma_base_type_first(s: Seq<char>, pos: int)
    requires
        base_type_g(s, pos) is Some,
    ensures
        field_type_g(s, pos) == base_type_g(s, pos),
        field_type_g(s, pos) matches Some((_, t)) && !(t is Identifier),
{
}

impl CppType {
    /// Parses a `cpp_type` annotation at `pos`.
    pub fn parse_at(s: &Vec<char>, pos: usize) -> (r: PResult<Self>)
        requires
            pos <= s@.len(),
        ensures
            r is Ok <==> cpp_type_g(s@, pos as int) is Some,
            r matches Ok((q, v)) ==> pos <= q <= s@.len() && cpp_type_g(s@, pos as int) == Some(
                ((q - pos) as nat, v@),
            ),
    {
        proof {
            reveal_strlit("cpp_type");
        }
        let e = match tag_end(s, pos, "cpp_type") {
            Some(e) => e,
            None => {
                return err(ErrorKind::Tag, pos);
            },
        };
        let p = skip_sep(s, e);
        if p == e {
            return err(ErrorKind::Tag, e);
        }
        match Literal::parse_at(s, p) {
            Ok((q, l)) => Ok((q, CppType(l))),
            Err(x) => Err(x),
        }
    }

    /// Parses a `cpp_type` annotation at the start of `input`, and returns the rest with it.
    pub fn parse(input: &str) -> (r: Result<(String, Self), ParseError>)
        ensures
            r is Ok <==> cpp_type_g(input@, 0) is Some,
            r matches Ok((rest, v)) ==> split_result(input@, cpp_type_g(input@, 0)) == Some(
                (rest@, v@),
            ),
    {
        let s = chars_of(input);
        match Self::parse_at(&s, 0) {
            Ok((q, v)) => Ok((string_of(&s, q, s.len()), v)),
            Err(e) => Err(e),
        }
    }
}

/// The position after an optional `cpp_type` annotation and what follows it.
fn skip_cpp(s: &Vec<char>, p: usize) -> (r: usize)
    requires
        p <= s@.len(),
    ensures
        r == skip_cpp_g(s@, p as int),
        p <= r <= s@.len(),
{
    match CppType::parse_at(s, p) {
        Ok((q, _)) => skip_sep(s, q),
        Err(_) => p,
    }
}

/// `< T >` at `p`.
fn angle_one_at(s: &Vec<char>, p: usize) -> (r: PResult<FieldType>)
    requires
        p <= s@.len(),
    ensures
        r is Ok <==> angle_one_g(s@, p as int) is Some,
        r matches Ok((e, t)) ==> e <= s@.len() && angle_one_g(s@, p as int) == Some((e as int, t@)),
    decreases s@.len() - p, 1nat,
{
    if !char_at(s, p, '<') {
        return err(ErrorKind::Tag, p);
    }
    let a = skip_sep(s, p + 1);
    let (n, t) = match FieldType::parse_at(s, a) {
        Ok(x) => x,
        Err(e) => {
            return Err(e);
        },
    };
    let b = skip_sep(s, n);
    if char_at(s, b, '>') {
        Ok((b + 1, t))
    } else {
        err(ErrorKind::Tag, b)
    }
}

/// `< K , V >` at `p`.
fn angle_two_at(s: &Vec<char>, p: usize) -> (r: Result<(usize, FieldType, FieldType), ParseError>)
    requires
        p <= s@.len(),
    ensures
        r is Ok <==> angle_two_g(s@, p as int) is Some,
        r matches Ok((e, k, v)) ==> e <= s@.len() && angle_two_g(s@, p as int) == Some(
            (e as int, k@, v@),
        ),
    decreases s@.len() - p, 1nat,
{
    if !char_at(s, p, '<') {
        return Err(ParseError { kind: ErrorKind::Tag, pos: p });
    }
    let a = skip_sep(s, p + 1);
    let (n, k) = match FieldType::parse_at(s, a) {
        Ok(x) => x,
        Err(e) => {
            return Err(e);
        },
    };
    let b = skip_sep(s, n);
    if !char_at(s, b, ',') {
        return Err(ParseError { kind: ErrorKind::Tag, pos: b });
    }
    let c = skip_sep(s, b + 1);
    let (m, v) = match FieldType::parse_at(s, c) {
        Ok(x) => x,
        Err(e) => {
            return Err(e);
        },
    };
    let d = skip_sep(s, m);
    if char_at(s, d, '>') {
        Ok((d + 1, k, v))
    } else {
        Err(ParseError { kind: ErrorKind::Tag, pos: d })
    }
}

impl FieldType {
    /// Parses one of the nine base type keywords at `pos`.
    pub fn parse_base_type_at(s: &Vec<char>, pos: usize) -> (r: PResult<Self>)
        requires
            pos <= s@.len(),
        ensures
            r is Ok <==> base_type_g(s@, pos as int) is Some,
            r matches Ok((q, v)) ==> pos <= q <= s@.len() && base_type_g(s@, pos as int) == Some(
                ((q - pos) as nat, v@),
            ),
            r matches Err(e) ==> e.kind == ErrorKind::Alt,
    {
        if let Some(e) = word_end(s, pos, "bool") {
            Ok((e, FieldType::Bool))
        } else if let Some(e) = word_end(s, pos, "byte") {
            Ok((e, FieldType::Byte))
        } else if let Some(e) = word_end(s, pos, "i8") {
            Ok((e, FieldType::I8))
        } else if let Some(e) = word_end(s, pos, "i16") {
            Ok((e, FieldType::I16))
        } else if let Some(e) = word_end(s, pos, "i32") {
            Ok((e, FieldType::I32))
        } else if let Some(e) = word_end(s, pos, "i64") {
            Ok((e, FieldType::I64))
        } else if let Some(e) = word_end(s, pos, "double") {
            Ok((e, FieldType::Double))
        } else if let Some(e) = word_end(s, pos, "string") {
            Ok((e, FieldType::String))
        } else if let Some(e) = word_end(s, pos, "binary") {
            Ok((e, FieldType::Binary))
        } else {
            err(ErrorKind::Alt, pos)
        }
    }

    /// Parses a `map`, `set` or `list` type at `pos`.
    pub fn parse_container_type_at(s: &Vec<char>, pos: usize) -> (r: PResult<Self>)
        requires
            pos <= s@.len(),
        ensures
            r is Ok <==> container_type_g(s@, pos as int) is Some,
            r matches Ok((q, v)) ==> pos <= q <= s@.len() && container_type_g(s@, pos as int)
                == Some(((q - pos) as nat, v@)),
            r matches Err(e) ==> e.kind == ErrorKind::Alt,
        decreases s@.len() - pos, 2nat,
    {
        proof {
            reveal_strlit("map");
            reveal_strlit("set");
            reveal_strlit("list");
        }
        if let Some(e) = tag_end(s, pos, "map") {
            let pm = skip_cpp(s, skip_sep(s, e));
            if let Ok((f, k, v)) = angle_two_at(s, pm) {
                return Ok((f, FieldType::MapOf(Box::new(k), Box::new(v))));
            }
        }
        if let Some(e) = tag_end(s, pos, "set") {
            let ps = skip_cpp(s, skip_sep(s, e));
            if let Ok((f, t)) = angle_one_at(s, ps) {
                return Ok((f, FieldType::SetOf(Box::new(t))));
            }
        }
        if let Some(e) = tag_end(s, pos, "list") {
            let pl = skip_sep(s, e);
            if let Ok((f, t)) = angle_one_at(s, pl) {
                let g = skip_sep(s, f);
                let h = match CppType::parse_at(s, g) {
                    Ok((h, _)) => h,
                    Err(_) => f,
                };
                return Ok((h, FieldType::List(Box::new(t))));
            }
        }
        err(ErrorKind::Alt, pos)
    }

    /// Parses a name used as a type at `pos`.
    pub fn parse_identifier_type_at(s: &Vec<char>, pos: usize) -> (r: PResult<Self>)
        requires
            pos <= s@.len(),
        ensures
            r is Ok <==> identifier_g(s@, pos as int) is Some,
            r matches Ok((q, v)) ==> pos <= q <= s@.len() && (identifier_g(s@, pos as int) matches Some(
                (n, x),
            ) && n == q - pos && v@ == FieldTypeModel::Identifier(x)),
            r matches Err(e) ==> e.kind == ErrorKind::Tag,
    {
        match Identifier::parse_at(s, pos) {
            Ok((q, i)) => Ok((q, FieldType::Identifier(i))),
            Err(e) => Err(e),
        }
    }

    /// Parses a field type at `pos`: a base type, a container type or a name.
    pub fn parse_at(s: &Vec<char>, pos: usize) -> (r: PResult<Self>)
        requires
            pos <= s@.len(),
        ensures
            r is Ok <==> field_type_g(s@, pos as int) is Some,
            r matches Ok((q, v)) ==> pos <= q <= s@.len() && field_type_g(s@, pos as int) == Some(
                ((q - pos) as nat, v@),
            ),
            r matches Err(e) ==> e.kind == ErrorKind::Tag,
        decreases s@.len() - pos, 3nat,
    {
        if let Ok(r) = Self::parse_base_type_at(s, pos) {
            return Ok(r);
        }
        if let Ok(r) = Self::parse_container_type_at(s, pos) {
            return Ok(r);
        }
        Self::parse_identifier_type_at(s, pos)
    }

    /// Parses a field type at the start of `input`, and returns the rest with it.
    pub fn parse(input: &str) -> (r: Result<(String, Self), ParseError>)
        ensures
            r is Ok <==> field_type_g(input@, 0) is Some,
            r matches Ok((rest, v)) ==> split_result(input@, field_type_g(input@, 0)) == Some((rest@, v@)),
            r matches Err(e) ==> e.kind == ErrorKind::Tag,
    {
        let s = chars_of(input);
        match Self::parse_at(&s, 0) {
            Ok((q, v)) => Ok((string_of(&s, q, s.len()), v)),
            Err(e) => Err(e),
        }
    }

    /// Parses a base type keyword at the start of `input`, and returns the rest with it.
    pub fn parse_base_type(input: &str) -> (r: Result<(String, Self), ParseError>)
        ensures
            r is Ok <==> base_type_g(input@, 0) is Some,
            r matches Ok((rest, v)) ==> split_result(input@, base_type_g(input@, 0)) == Some((rest@, v@)),
            r matches Err(e) ==> e.kind == ErrorKind::Alt,
    {
        let s = chars_of(input);
        match Self::parse_base_type_at(&s, 0) {
            Ok((q, v)) => Ok((string_of(&s, q, s.len()), v)),
            Err(e) => Err(e),
        }
    }

    /// Parses a container type at the start of `input`, and returns the rest with it.
    pub fn parse_container_type(input: &str) -> (r: Result<(String, Self), ParseError>)
        ensures
            r is Ok <==> container_type_g(input@, 0) is Some,
            r matches Ok((rest, v)) ==> split_result(input@, container_type_g(input@, 0)) == Some((rest@, v@)),
            r matches Err(e) ==> e.kind == ErrorKind::Alt,
    {
        let s = chars_of(input);
        match Self::parse_container_type_at(&s, 0) {
            Ok((q, v)) => Ok((string_of(&s, q, s.len()), v)),
            Err(e) => Err(e),
        }
    }

    /// Parses a name used as a type at the start of `input`, and returns the rest with it.
    pub fn parse_identifier_type(input: &str) -> (r: Result<(String, Self), ParseError>)
        ensures
            r is Ok <==> identifier_g(input@, 0) is Some,
            r matches Ok((rest, v)) ==> (identifier_g(input@, 0) matches Some((n, x)) && v@
                == FieldTypeModel::Identifier(x) && rest@ == input@.subrange(n as int, input@.len() as int)),
            r matches Err(e) ==> e.kind == ErrorKind::Tag,
    {
        let s = chars_of(input);
        match Self::parse_identifier_type_at(&s, 0) {
            Ok((q, v)) => Ok((string_of(&s, q, s.len()), v)),
            Err(e) => Err(e),
        }
    }
}

} // verus!
