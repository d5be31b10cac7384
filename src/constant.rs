//! Constant values: integers, doubles, literals, identifiers, lists and maps.
use vstd::prelude::*;

use crate::basic::{
    err, identifier_g, list_separator_g, literal_g, sep_len, sep_step, skip_sep, split_result,
    Identifier, ListSeparator, Literal,
};
use crate::text::{
    char_at, chars_of, class_pred, has_char, is_digit, is_space, lemma_run_len, run_end, run_len,
    string_of, CharClass, ErrorKind, PResult, ParseError,
};

verus! {

/// A signed 64-bit integer constant.
#[derive(Clone, Copy, Debug, PartialEq, Eq, Hash, Structural)]
pub struct IntConstant(pub i64);

/// A floating point constant, held as the text it was written with.
#[derive(Clone, Debug, PartialEq, Eq)]
pub struct DoubleConstant(pub String);

impl View for DoubleConstant {
    type V = Seq<char>;

    open spec fn view(&self) -> Seq<char> {
        self.0@
    }
}

/// Value of a sequence of decimal digits.
pub open spec fn digits_value(d: Seq<char>) -> int
    decreases d.len(),
{
    if d.len() == 0 {
        0
    } else {
        digits_value(d.subrange(0, d.len() - 1)) * 10 + (d[d.len() - 1] as int - '0' as int)
    }
}

/// 1 if `s` holds a `+` or a `-` at `pos`, else 0.
pub open spec fn sign_len(s: Seq<char>, pos: int) -> nat {
    if has_char(s, pos, '+') || has_char(s, pos, '-') {
        1
    } else {
        0
    }
}

/// Number of digits after the optional sign at `pos`.
pub open spec fn int_digits(s: Seq<char>, pos: int) -> nat {
    run_len(s, pos + sign_len(s, pos), class_pred(CharClass::Digit))
}

/// The value written at `pos`: an optional sign and the digits after it.
pub open spec fn int_value(s: Seq<char>, pos: int) -> int {
    let start = pos + sign_len(s, pos);
    let v = digits_value(s.subrange(start, start + int_digits(s, pos)));
    if has_char(s, pos, '-') {
        -v
    } else {
        v
    }
}

/// An optional sign and one or more digits, whose value fits in an `i64`.
pub open spec fn int_constant_g(s: Seq<char>, pos: int) -> Option<(nat, i64)> {
    if int_digits(s, pos) > 0 && i64::MIN <= int_value(s, pos) <= i64::MAX {
        Some((sign_len(s, pos) + int_digits(s, pos), int_value(s, pos) as i64))
    } else {
        None
    }
}

/// Characters taken by a parse result, 0 for none.
pub open spec fn taken<V>(g: Option<(nat, V)>) -> nat {
    match g {
        Some((n, _)) => n,
        None => 0,
    }
}

/// Length of the `.` and digits part at `pos`, 0 if there is none.
pub open spec fn fraction_len(s: Seq<char>, pos: int) -> nat {
    let n = run_len(s, pos + 1, class_pred(CharClass::Digit));
    if has_char(s, pos, '.') && n > 0 {
        n + 1
    } else {
        0
    }
}

/// Length of the exponent part at `pos`, 0 if there is none.
pub open spec fn exponent_len(s: Seq<char>, pos: int) -> nat {
    if (has_char(s, pos, 'E') || has_char(s, pos, 'e')) && int_constant_g(s, pos + 1) is Some {
        1 + taken(int_constant_g(s, pos + 1))
    } else {
        0
    }
}

/// Sign, digits, fraction and exponent lengths of the numeric text at `pos`.
pub open spec fn double_parts(s: Seq<char>, pos: int) -> (nat, nat, nat, nat) {
    let sl = sign_len(s, pos);
    let nd = run_len(s, pos + sl, class_pred(CharClass::Digit));
    let fr = fraction_len(s, pos + sl + nd);
    let ex = exponent_len(s, pos + sl + nd + fr);
    (sl, nd, fr, ex)
}

/// Optional sign, digits, optional fraction, optional exponent, with at least
/// one digit before the exponent; the value is the text matched.
pub open spec fn double_constant_g(s: Seq<char>, pos: int) -> Option<(nat, Seq<char>)> {
    let (sl, nd, fr, ex) = double_parts(s, pos);
    if nd + fr > 0 {
        let n = sl + nd + fr + ex;
        Some((n, s.subrange(pos, pos + n)))
    } else {
        None
    }
}

/// A double that has a fraction or an exponent, so never an integer's text.
pub open spec fn double_strict_g(s: Seq<char>, pos: int) -> Option<(nat, Seq<char>)> {
    let (sl, nd, fr, ex) = double_parts(s, pos);
    if fr + ex > 0 {
        double_constant_g(s, pos)
    } else {
        None
    }
}

/// Comments or white space, an optional list separator, comments or white
/// space; or a list separator, comments or white space.
pub open spec fn list_sep_g(s: Seq<char>, pos: int) -> Option<nat> {
    let a = sep_len(s, pos);
    if a > 0 {
        let b: nat = if list_separator_g(s, pos + a) is Some {
            1
        } else {
            0
        };
        Some(a + b + sep_len(s, pos + a + b))
    } else if list_separator_g(s, pos) is Some {
        Some(1 + sep_len(s, pos + 1))
    } else {
        None
    }
}

/// A comma, a semicolon or white space always starts a separator between list items.
pub proof fn lemma_list_sep_starts(s: Seq<char>, pos: int)
    requires
        0 <= pos < s.len(),
        s[pos] == ',' || s[pos] == ';' || is_space(s[pos]),
    ensures
        list_sep_g(s, pos) is Some,
{
    if is_space(s[pos]) {
        lemma_run_len(s, pos, class_pred(CharClass::Space));
        assert(sep_step(s, pos) > 0);
    }
}

impl IntConstant {
    /// Parses an integer at `pos`; one that does not fit fails with `Overflow`.
    pub fn parse_at(s: &Vec<char>, pos: usize) -> (r: PResult<Self>)
        requires
            pos <= s@.len(),
        ensures
            r is Ok <==> int_constant_g(s@, pos as int) is Some,
            r matches Ok((q, v)) ==> pos <= q <= s@.len() && int_constant_g(s@, pos as int) == Some(
                ((q - pos) as nat, v.0),
            ),
            r matches Err(e) ==> (e.kind == ErrorKind::Overflow <==> int_digits(s@, pos as int)
                > 0),
    {
        let neg = char_at(s, pos, '-');
        let start = if neg || char_at(s, pos, '+') {
            pos + 1
        } else {
            pos
        };
        let end = run_end(s, start, CharClass::Digit);
        proof {
            lemma_run_len(s@, start as int, class_pred(CharClass::Digit));
        }
        if end == start {
            return err(ErrorKind::Number, pos);
        }
        let bound: u64 = 9223372036854775808;
        let mut mag: u64 = 0;
        let mut over = false;
        let mut i = start;
        while i < end
            invariant
                start <= i <= end <= s@.len(),
                forall|k: int| start <= k < end ==> is_digit(#[trigger] s@[k]),
                bound == 9223372036854775808u64,
                over ==> digits_value(s@.subrange(start as int, i as int)) > bound,
                !over ==> mag == digits_value(s@.subrange(start as int, i as int)) && mag <= bound,
            decreases end - i,
        {
            let c = s[i];
            assert(is_digit(c));
            let d = (c as u32 - '0' as u32) as u64;
            assert(d <= 9);
            assert(s@.subrange(start as int, i + 1).subrange(0, i - start) =~= s@.subrange(
                start as int,
                i as int,
            ));
            assert(digits_value(s@.subrange(start as int, i + 1)) == digits_value(
                s@.subrange(start as int, i as int),
            ) * 10 + d);
            if !over {
                if mag > 922337203685477580 {
                    over = true;
                } else {
                    mag = mag * 10 + d;
                    if mag > bound {
                        over = true;
                    }
                }
            }
            i = i + 1;
        }
        assert(s@.subrange(start as int, end as int) == s@.subrange(start as int, i as int));
        if over || (!neg && mag == bound) {
            err(ErrorKind::Overflow, pos)
        } else if neg {
            if mag == bound {
                Ok((end, IntConstant(i64::MIN)))
            } else {
                Ok((end, IntConstant(-(mag as i64))))
            }
        } else {
            Ok((end, IntConstant(mag as i64)))
        }
    }

    /// Parses an integer at the start of `input`, and returns the rest with it.
    pub fn parse(input: &str) -> (r: Result<(String, Self), ParseError>)
        ensures
            r is Ok <==> int_constant_g(input@, 0) is Some,
            r matches Ok((rest, v)) ==> int_constant_g(input@, 0) matches Some((n, x)) && x == v.0
                && rest@ == input@.subrange(n as int, input@.len() as int),
            r matches Err(e) ==> (e.kind == ErrorKind::Overflow <==> int_digits(input@, 0) > 0),
    {
        let s = chars_of(input);
        match Self::parse_at(&s, 0) {
            Ok((q, v)) => Ok((string_of(&s, q, s.len()), v)),
            Err(e) => Err(e),
        }
    }
}

/// Ends of the sign, digits, fraction and exponent parts of the numeric text at `pos`.
fn double_ends(s: &Vec<char>, pos: usize) -> (r: (usize, usize, usize, usize))
    requires
        pos <= s@.len(),
    ensures
        ({
            let (sl, nd, fr, ex) = double_parts(s@, pos as int);
            &&& r.0 == pos + sl
            &&& r.1 == r.0 + nd
            &&& r.2 == r.1 + fr
            &&& r.3 == r.2 + ex
            &&& r.3 <= s@.len()
        }),
{
    let a = if char_at(s, pos, '+') || char_at(s, pos, '-') {
        pos + 1
    } else {
        pos
    };
    let b = run_end(s, a, CharClass::Digit);
    let c = if char_at(s, b, '.') {
        let e = run_end(s, b + 1, CharClass::Digit);
        if e > b + 1 {
            e
        } else {
            b
        }
    } else {
        b
    };
    let d = if char_at(s, c, 'E') || char_at(s, c, 'e') {
        match IntConstant::parse_at(s, c + 1) {
            Ok((q, _)) => q,
            Err(_) => c,
        }
    } else {
        c
    };
    (a, b, c, d)
}

impl DoubleConstant {
    pub fn new(s: &str) -> (r: Self)
        ensures
            r@ == s@,
    {
        DoubleConstant(s.to_owned())
    }

    pub fn as_str(&self) -> (r: &str)
        ensures
            r@ == self@,
    {
        self.0.as_str()
    }

    /// Parses a numeric literal at `pos`, integers included.
    pub fn parse_at(s: &Vec<char>, pos: usize) -> (r: PResult<Self>)
        requires
            pos <= s@.len(),
        ensures
            r is Ok <==> double_constant_g(s@, pos as int) is Some,
            r matches Ok((q, v)) ==> pos <= q <= s@.len() && double_constant_g(s@, pos as int)
                == Some(((q - pos) as nat, v@)),
            r matches Err(e) ==> e.kind == ErrorKind::Number,
    {
        let (a, b, c, d) = double_ends(s, pos);
        if c > a {
            Ok((d, DoubleConstant(string_of(s, pos, d))))
        } else {
            err(ErrorKind::Number, pos)
        }
    }

    /// Parses a numeric literal at `pos` that has a fraction or an exponent.
    pub fn parse_strict_at(s: &Vec<char>, pos: usize) -> (r: PResult<Self>)
        requires
            pos <= s@.len(),
        ensures
            r is Ok <==> double_strict_g(s@, pos as int) is Some,
            r matches Ok((q, v)) ==> pos <= q <= s@.len() && double_strict_g(s@, pos as int)
                == Some(((q - pos) as nat, v@)),
            r matches Err(e) ==> e.kind == ErrorKind::Number,
    {
        let (a, b, c, d) = double_ends(s, pos);
        if c > a && d > b {
            Ok((d, DoubleConstant(string_of(s, pos, d))))
        } else {
            err(ErrorKind::Number, pos)
        }
    }

    /// Parses a numeric literal at the start of `input`, and returns the rest with it.
    pub fn parse(input: &str) -> (r: Result<(String, Self), ParseError>)
        ensures
            r is Ok <==> double_constant_g(input@, 0) is Some,
            r matches Ok((rest, v)) ==> double_constant_g(input@, 0) matches Some((n, x)) && x
                == v@ && rest@ == input@.subrange(n as int, input@.len() as int),
            r matches Err(e) ==> e.kind == ErrorKind::Number,
    {
        let s = chars_of(input);
        match Self::parse_at(&s, 0) {
            Ok((q, v)) => Ok((string_of(&s, q, s.len()), v)),
            Err(e) => Err(e),
        }
    }

    /// Parses a numeric literal with a fraction or an exponent at the start of
    /// `input`, and returns the rest with it.
    pub fn parse_strict(input: &str) -> (r: Result<(String, Self), ParseError>)
        ensures
            r is Ok <==> double_strict_g(input@, 0) is Some,
            r matches Ok((rest, v)) ==> double_strict_g(input@, 0) matches Some((n, x)) && x
                == v@ && rest@ == input@.subrange(n as int, input@.len() as int),
            r matches Err(e) ==> e.kind == ErrorKind::Number,
    {
        let s = chars_of(input);
        match Self::parse_strict_at(&s, 0) {
            Ok((q, v)) => Ok((string_of(&s, q, s.len()), v)),
            Err(e) => Err(e),
        }
    }
}

/// Parses the separator between list items at `pos`.
pub fn list_separator_at(s: &Vec<char>, pos: usize) -> (r: PResult<()>)
    requires
        pos <= s@.len(),
    ensures
        r is Ok <==> list_sep_g(s@, pos as int) is Some,
        r matches Ok((q, _)) ==> pos <= q <= s@.len() && list_sep_g(s@, pos as int) == Some(
            (q - pos) as nat,
        ),
{
    let a = skip_sep(s, pos);
    if a > pos {
        let b = match ListSeparator::parse_at(s, a) {
            Ok((q, _)) => q,
            Err(_) => a,
        };
        Ok((skip_sep(s, b), ()))
    } else {
        match ListSeparator::parse_at(s, pos) {
            Ok((q, _)) => Ok((skip_sep(s, q), ())),
            Err(e) => Err(e),
        }
    }
}

/// Parses the separator between list items at the start of `input`, and
/// returns the rest.
pub fn parse_list_separator(input: &str) -> (r: Result<(String, ()), ParseError>)
    ensures
        r is Ok <==> list_sep_g(input@, 0) is Some,
        r matches Ok((rest, _)) ==> list_sep_g(input@, 0) matches Some(n) && rest@
            == input@.subrange(n as int, input@.len() as int),
{
    let s = chars_of(input);
    match list_separator_at(&s, 0) {
        Ok((q, v)) => Ok((string_of(&s, q, s.len()), v)),
        Err(e) => Err(e),
    }
}

/// A constant: identifier, literal, double, integer, list or map.
#[derive(Debug, PartialEq)]
pub enum ConstValue {
    Identifier(Identifier),
    Literal(Literal),
    Double(DoubleConstant),
    Int(IntConstant),
    List(ConstList),
    ConstMap(ConstMap),
}

/// `[ v, v, … ]`
#[derive(Debug, PartialEq)]
pub struct ConstList(pub Vec<ConstValue>);

/// `{ k: v, k: v, … }`
#[derive(Debug, PartialEq)]
pub struct ConstMap(pub Vec<(ConstValue, ConstValue)>);


/// What a constant denotes.
pub enum ConstValueModel {
    Identifier(Seq<char>),
    Literal(Seq<char>),
    Double(Seq<char>),
    Int(i64),
    List(Seq<ConstValueModel>),
    ConstMap(Seq<(ConstValueModel, ConstValueModel)>),
}

pub open spec fn cv_view(v: ConstValue) -> ConstValueModel
    decreases v,
{
    match v {
        ConstValue::Identifier(i) => ConstValueModel::Identifier(i@),
        ConstValue::Literal(l) => ConstValueModel::Literal(l@),
        ConstValue::Double(d) => ConstValueModel::Double(d@),
        ConstValue::Int(i) => ConstValueModel::Int(i.0),
        ConstValue::List(l) => ConstValueModel::List(cv_seq_view(l.0@)),
        ConstValue::ConstMap(m) => ConstValueModel::ConstMap(cv_pairs_view(m.0@)),
    }
}

pub open spec fn cv_seq_view(s: Seq<ConstValue>) -> Seq<ConstValueModel>
    decreases s,
{
    if s.len() == 0 {
        Seq::empty()
    } else {
        cv_seq_view(s.subrange(0, s.len() - 1)).push(cv_view(s[s.len() - 1]))
    }
}

pub open spec fn cv_pairs_view(s: Seq<(ConstValue, ConstValue)>) -> Seq<
    (ConstValueModel, ConstValueModel),
>
    decreases s,
{
    if s.len() == 0 {
        Seq::empty()
    } else {
        let last = s[s.len() - 1];
        cv_pairs_view(s.subrange(0, s.len() - 1)).push((cv_view(last.0), cv_view(last.1)))
    }
}

impl View for ConstValue {
    type V = ConstValueModel;

    open spec fn view(&self) -> ConstValueModel {
        cv_view(*self)
    }
}

impl View for ConstList {
    type V = Seq<ConstValueModel>;

    open spec fn view(&self) -> Seq<ConstValueModel> {
        cv_seq_view(self.0@)
    }
}

impl View for ConstMap {
    type V = Seq<(ConstValueModel, ConstValueModel)>;

    open spec fn view(&self) -> Seq<(ConstValueModel, ConstValueModel)> {
        cv_pairs_view(self.0@)
    }
}

/// Identifier, literal, strict double, integer, list, map: the first that matches.
pub open spec fn const_value_g(s: Seq<char>, pos: int) -> Option<(nat, ConstValueModel)>
    decreases s.len() - pos, 1nat,
{
    if let Some((n, v)) = identifier_g(s, pos) {
        Some((n, ConstValueModel::Identifier(v)))
    } else if let Some((n, v)) = literal_g(s, pos) {
        Some((n, ConstValueModel::Literal(v)))
    } else if let Some((n, v)) = double_strict_g(s, pos) {
        Some((n, ConstValueModel::Double(v)))
    } else if let Some((n, v)) = int_constant_g(s, pos) {
        Some((n, ConstValueModel::Int(v)))
    } else if let Some((n, v)) = const_list_g(s, pos) {
        Some((n, ConstValueModel::List(v)))
    } else if let Some((n, v)) = const_map_g(s, pos) {
        Some((n, ConstValueModel::ConstMap(v)))
    } else {
        None
    }
}

/// `[`, comments or white space, the items, comments or white space, `]`.
pub open spec fn const_list_g(s: Seq<char>, pos: int) -> Option<(nat, Seq<ConstValueModel>)>
    decreases s.len() - pos, 0nat,
{
    let p = pos + 1 + sep_len(s, pos + 1);
    if has_char(s, pos, '[') && p <= s.len() {
        let (n, items) = value_items_g(s, p);
        let e = p + n + sep_len(s, p + n);
        if has_char(s, e, ']') {
            Some(((e + 1 - pos) as nat, items))
        } else {
            None
        }
    } else {
        None
    }
}

/// Values separated by list separators, as many as match (maybe none).
pub open spec fn value_items_g(s: Seq<char>, p: int) -> (nat, Seq<ConstValueModel>)
    decreases s.len() - p, 2nat,
{
    if let Some((n, v)) = const_value_g(s, p) {
        let (m, rest) = if p + n <= s.len() {
            value_tail_g(s, p + n)
        } else {
            (0, Seq::empty())
        };
        (n + m, seq![v] + rest)
    } else {
        (0, Seq::empty())
    }
}

/// Further values, each after a list separator that takes at least one character.
pub open spec fn value_tail_g(s: Seq<char>, q: int) -> (nat, Seq<ConstValueModel>)
    decreases s.len() - q, 1nat,
{
    if let Some(m) = list_sep_g(s, q) {
        if 0 < m && q + m <= s.len() {
            if let Some((n, v)) = const_value_g(s, q + m) {
                let (k, rest) = if q + m + n <= s.len() {
                    value_tail_g(s, q + m + n)
                } else {
                    (0, Seq::empty())
                };
                (m + n + k, seq![v] + rest)
            } else {
                (0, Seq::empty())
            }
        } else {
            (0, Seq::empty())
        }
    } else {
        (0, Seq::empty())
    }
}

/// `{`, comments or white space, the entries, comments or white space, `}`.
pub open spec fn const_map_g(s: Seq<char>, pos: int) -> Option<
    (nat, Seq<(ConstValueModel, ConstValueModel)>),
>
    decreases s.len() - pos, 0nat,
{
    let p = pos + 1 + sep_len(s, pos + 1);
    if has_char(s, pos, '{') && p <= s.len() {
        let (n, items) = entry_items_g(s, p);
        let e = p + n + sep_len(s, p + n);
        if has_char(s, e, '}') {
            Some(((e + 1 - pos) as nat, items))
        } else {
            None
        }
    } else {
        None
    }
}

/// A key, `:` between optional comments or white space, and a value.
pub open spec fn entry_g(s: Seq<char>, p: int) -> Option<(nat, (ConstValueModel, ConstValueModel))>
    decreases s.len() - p, 2nat,
{
    if let Some((n, k)) = const_value_g(s, p) {
        let a = p + n + sep_len(s, p + n);
        if has_char(s, a, ':') {
            let b = a + 1 + sep_len(s, a + 1);
            if b > s.len() {
                None
            } else if let Some((m, v)) = const_value_g(s, b) {
                Some(((b + m - p) as nat, (k, v)))
            } else {
                None
            }
        } else {
            None
        }
    } else {
        None
    }
}

/// Entries separated by list separators, as many as match (maybe none).
pub open spec fn entry_items_g(s: Seq<char>, p: int) -> (
    nat,
    Seq<(ConstValueModel, ConstValueModel)>,
)
    decreases s.len() - p, 3nat,
{
    if let Some((n, v)) = entry_g(s, p) {
        let (m, rest) = if p + n <= s.len() {
            entry_tail_g(s, p + n)
        } else {
            (0, Seq::empty())
        };
        (n + m, seq![v] + rest)
    } else {
        (0, Seq::empty())
    }
}

/// Further entries, each after a list separator that takes at least one character.
pub open spec fn entry_tail_g(s: Seq<char>, q: int) -> (nat, Seq<(ConstValueModel, ConstValueModel)>)
    decreases s.len() - q, 2nat,
{
    if let Some(m) = list_sep_g(s, q) {
        if 0 < m && q + m <= s.len() {
            if let Some((n, v)) = entry_g(s, q + m) {
                let (k, rest) = if q + m + n <= s.len() {
                    entry_tail_g(s, q + m + n)
                } else {
                    (0, Seq::empty())
                };
                (m + n + k, seq![v] + rest)
            } else {
                (0, Seq::empty())
            }
        } else {
            (0, Seq::empty())
        }
    } else {
        (0, Seq::empty())
    }
}

/// `acc` and the values after it, `k` characters in.
pub open spec fn prepend<T>(k: int, acc: Seq<T>, t: (nat, Seq<T>)) -> (nat, Seq<T>) {
    let (m, rest) = t;
    ((k + m) as nat, acc + rest)
}

proof fn lemma_cv_seq_push(s: Seq<ConstValue>, v: ConstValue)
    ensures
        cv_seq_view(s.push(v)) == cv_seq_view(s).push(cv_view(v)),
{
    assert(s.push(v).subrange(0, s.len() as int) =~= s);
}

proof fn lemma_cv_pairs_push(s: Seq<(ConstValue, ConstValue)>, v: (ConstValue, ConstValue))
    ensures
        cv_pairs_view(s.push(v)) == cv_pairs_view(s).push((cv_view(v.0), cv_view(v.1))),
{
    assert(s.push(v).subrange(0, s.len() as int) =~= s);
}

impl ConstValue {
    /// Parses a constant at `pos`, trying identifier, literal, double, integer,
    /// list and map in that order.
    pub fn parse_at(s: &Vec<char>, pos: usize) -> (r: PResult<Self>)
        requires
            pos <= s@.len(),
        ensures
            r is Ok <==> const_value_g(s@, pos as int) is Some,
            r matches Ok((q, v)) ==> pos <= q <= s@.len() && const_value_g(s@, pos as int) == Some(
                ((q - pos) as nat, v@),
            ),
            r matches Err(e) ==> e.kind == ErrorKind::Alt,
        decreases s@.len() - pos, 1nat,
    {
        if let Ok((q, v)) = Identifier::parse_at(s, pos) {
            return Ok((q, ConstValue::Identifier(v)));
        }
        if let Ok((q, v)) = Literal::parse_at(s, pos) {
            return Ok((q, ConstValue::Literal(v)));
        }
        if let Ok((q, v)) = DoubleConstant::parse_strict_at(s, pos) {
            return Ok((q, ConstValue::Double(v)));
        }
        if let Ok((q, v)) = IntConstant::parse_at(s, pos) {
            return Ok((q, ConstValue::Int(v)));
        }
        if let Ok((q, v)) = ConstList::parse_at(s, pos) {
            return Ok((q, ConstValue::List(v)));
        }
        match ConstMap::parse_at(s, pos) {
            Ok((q, v)) => Ok((q, ConstValue::ConstMap(v))),
            Err(_) => err(ErrorKind::Alt, pos),
        }
    }

    /// Parses a constant at the start of `input`, and returns the rest with it.
    pub fn parse(input: &str) -> (r: Result<(String, Self), ParseError>)
        ensures
            r is Ok <==> const_value_g(input@, 0) is Some,
            r matches Ok((rest, v)) ==> split_result(input@, const_value_g(input@, 0)) == Some(
                (rest@, v@),
            ),
            r matches Err(e) ==> e.kind == ErrorKind::Alt,
    {
        let s = chars_of(input);
        match Self::parse_at(&s, 0) {
            Ok((q, v)) => Ok((string_of(&s, q, s.len()), v)),
            Err(e) => Err(e),
        }
    }
}

/// Values separated by list separators at `p`, as many as match.
#[verifier::rlimit(60)]
fn value_items_at(s: &Vec<char>, p: usize) -> (r: (usize, Vec<ConstValue>))
    requires
        p <= s@.len(),
    ensures
        p <= r.0 <= s@.len(),
        value_items_g(s@, p as int) == ((r.0 - p) as nat, cv_seq_view(r.1@)),
    decreases s@.len() - p, 2nat,
{
    let mut items: Vec<ConstValue> = Vec::new();
    let (q, v) = match ConstValue::parse_at(s, p) {
        Ok((q, v)) => (q, v),
        Err(_) => {
            return (p, items);
        },
    };
    proof {
        lemma_cv_seq_push(items@, v);
    }
    items.push(v);
    let mut i = q;
    loop
        invariant
            p <= i <= s@.len(),
            value_items_g(s@, p as int) == prepend(i - p, cv_seq_view(items@), value_tail_g(s@, i as int)),
        decreases s@.len() - i,
    {
        let j = match list_separator_at(s, i) {
            Ok((j, _)) => j,
            Err(_) => {
                assert(cv_seq_view(items@) + Seq::empty() =~= cv_seq_view(items@));
                return (i, items);
            },
        };
        if j == i {
            assert(cv_seq_view(items@) + Seq::empty() =~= cv_seq_view(items@));
            return (i, items);
        }
        let (q2, v2) = match ConstValue::parse_at(s, j) {
            Ok((q2, v2)) => (q2, v2),
            Err(_) => {
                assert(cv_seq_view(items@) + Seq::empty() =~= cv_seq_view(items@));
                return (i, items);
            },
        };
        let ghost old_items = cv_seq_view(items@);
        let ghost rest = value_tail_g(s@, q2 as int).1;
        proof {
            lemma_cv_seq_push(items@, v2);
        }
        items.push(v2);
        assert(old_items + (seq![v2@] + rest) =~= cv_seq_view(items@) + rest);
        i = q2;
    }
}

impl ConstList {
    /// Parses a list constant at `pos`.
    pub fn parse_at(s: &Vec<char>, pos: usize) -> (r: PResult<Self>)
        requires
            pos <= s@.len(),
        ensures
            r is Ok <==> const_list_g(s@, pos as int) is Some,
            r matches Ok((q, v)) ==> pos <= q <= s@.len() && const_list_g(s@, pos as int) == Some(
                ((q - pos) as nat, v@),
            ),
            r matches Err(e) ==> e.kind == ErrorKind::Tag,
        decreases s@.len() - pos, 0nat,
    {
        if !char_at(s, pos, '[') {
            return err(ErrorKind::Tag, pos);
        }
        let p = skip_sep(s, pos + 1);
        let (q, items) = value_items_at(s, p);
        let e = skip_sep(s, q);
        if char_at(s, e, ']') {
            Ok((e + 1, ConstList(items)))
        } else {
            err(ErrorKind::Tag, e)
        }
    }

    /// Parses a list constant at the start of `input`, and returns the rest with it.
    pub fn parse(input: &str) -> (r: Result<(String, Self), ParseError>)
        ensures
            r is Ok <==> const_list_g(input@, 0) is Some,
            r matches Ok((rest, v)) ==> split_result(input@, const_list_g(input@, 0)) == Some(
                (rest@, v@),
            ),
            r matches Err(e) ==> e.kind == ErrorKind::Tag,
    {
        let s = chars_of(input);
        match Self::parse_at(&s, 0) {
            Ok((q, v)) => Ok((string_of(&s, q, s.len()), v)),
            Err(e) => Err(e),
        }
    }
}

/// Parses a `key: value` entry at `pos`.
fn entry_at(s: &Vec<char>, pos: usize) -> (r: PResult<(ConstValue, ConstValue)>)
    requires
        pos <= s@.len(),
    ensures
        r is Ok <==> entry_g(s@, pos as int) is Some,
        r matches Ok((q, v)) ==> pos <= q <= s@.len() && entry_g(s@, pos as int) == Some(
            ((q - pos) as nat, (v.0@, v.1@)),
        ),
    decreases s@.len() - pos, 2nat,
{
    let (q1, k) = match ConstValue::parse_at(s, pos) {
        Ok(x) => x,
        Err(e) => {
            return Err(e);
        },
    };
    let a = skip_sep(s, q1);
    if !char_at(s, a, ':') {
        return err(ErrorKind::Tag, a);
    }
    let b = skip_sep(s, a + 1);
    match ConstValue::parse_at(s, b) {
        Ok((q2, v)) => Ok((q2, (k, v))),
        Err(e) => Err(e),
    }
}

/// Entries separated by list separators at `p`, as many as match.
#[verifier::rlimit(60)]
fn entry_items_at(s: &Vec<char>, p: usize) -> (r: (usize, Vec<(ConstValue, ConstValue)>))
    requires
        p <= s@.len(),
    ensures
        p <= r.0 <= s@.len(),
        entry_items_g(s@, p as int) == ((r.0 - p) as nat, cv_pairs_view(r.1@)),
    decreases s@.len() - p, 3nat,
{
    let mut items: Vec<(ConstValue, ConstValue)> = Vec::new();
    let (q, v) = match entry_at(s, p) {
        Ok((q, v)) => (q, v),
        Err(_) => {
            return (p, items);
        },
    };
    proof {
        lemma_cv_pairs_push(items@, v);
    }
    items.push(v);
    let mut i = q;
    loop
        invariant
            p <= i <= s@.len(),
            entry_items_g(s@, p as int) == prepend(i - p, cv_pairs_view(items@), entry_tail_g(s@, i as int)),
        decreases s@.len() - i,
    {
        let j = match list_separator_at(s, i) {
            Ok((j, _)) => j,
            Err(_) => {
                assert(cv_pairs_view(items@) + Seq::empty() =~= cv_pairs_view(items@));
                return (i, items);
            },
        };
        if j == i {
            assert(cv_pairs_view(items@) + Seq::empty() =~= cv_pairs_view(items@));
            return (i, items);
        }
        let (q2, v2) = match entry_at(s, j) {
            Ok((q2, v2)) => (q2, v2),
            Err(_) => {
                assert(cv_pairs_view(items@) + Seq::empty() =~= cv_pairs_view(items@));
                return (i, items);
            },
        };
        let ghost old_items = cv_pairs_view(items@);
        let ghost rest = entry_tail_g(s@, q2 as int).1;
        let ghost e2 = (v2.0@, v2.1@);
        assert(entry_tail_g(s@, i as int) == prepend(q2 - i, seq![e2], entry_tail_g(s@, q2 as int)));
        proof {
            lemma_cv_pairs_push(items@, v2);
        }
        items.push(v2);
        assert(old_items + (seq![e2] + rest) =~= cv_pairs_view(items@) + rest);
        i = q2;
    }
}

impl ConstMap {
    /// Parses a map constant at `pos`.
    #[verifier::rlimit(40)]
    pub fn parse_at(s: &Vec<char>, pos: usize) -> (r: PResult<Self>)
        requires
            pos <= s@.len(),
        ensures
            r is Ok <==> const_map_g(s@, pos as int) is Some,
            r matches Ok((q, v)) ==> pos <= q <= s@.len() && const_map_g(s@, pos as int) == Some(
                ((q - pos) as nat, v@),
            ),
            r matches Err(e) ==> e.kind == ErrorKind::Tag,
        decreases s@.len() - pos, 0nat,
    {
        if !char_at(s, pos, '{') {
            return err(ErrorKind::Tag, pos);
        }
        let p = skip_sep(s, pos + 1);
        let (q, items) = entry_items_at(s, p);
        let e = skip_sep(s, q);
        if char_at(s, e, '}') {
            Ok((e + 1, ConstMap(items)))
        } else {
            err(ErrorKind::Tag, e)
        }
    }

    /// Parses a map constant at the start of `input`, and returns the rest with it.
    pub fn parse(input: &str) -> (r: Result<(String, Self), ParseError>)
        ensures
            r is Ok <==> const_map_g(input@, 0) is Some,
            r matches Ok((rest, v)) ==> split_result(input@, const_map_g(input@, 0)) == Some(
                (rest@, v@),
            ),
            r matches Err(e) ==> e.kind == ErrorKind::Tag,
    {
        let s = chars_of(input);
        match Self::parse_at(&s, 0) {
            Ok((q, v)) => Ok((string_of(&s, q, s.len()), v)),
            Err(e) => Err(e),
        }
    }
}

} // verus!
