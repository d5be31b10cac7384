//! Lexical primitives: literals, identifiers, list separators, comments and
//! runs of comments and white space.
use vstd::prelude::*;

use crate::text::{
    char_at, chars_of, class_pred, has_char, is_digit, is_ident_char, is_letter, run_end, run_len, string_of, CharClass, ErrorKind,
    PResult, ParseError,
};

verus! {

/// A quoted string constant, without its quotes.
#[derive(Clone, Debug, PartialEq, Eq)]
pub struct Literal(pub String);

/// A name.
#[derive(Clone, Debug, PartialEq, Eq)]
pub struct Identifier(pub String);

/// A `,` or a `;`.
#[derive(Clone, Copy, Debug, PartialEq, Eq)]
pub struct ListSeparator;

/// The text of a comment, without its markers.
#[derive(Clone, Debug, PartialEq, Eq)]
pub struct Comment(pub String);

/// A run of comments and white space.
#[derive(Clone, Copy, Debug, PartialEq, Eq)]
pub struct Separator;

impl View for Literal {
    type V = Seq<char>;

    open spec fn view(&self) -> Seq<char> {
        self.0@
    }
}

impl View for Identifier {
    type V = Seq<char>;

    open spec fn view(&self) -> Seq<char> {
        self.0@
    }
}

impl View for Comment {
    type V = Seq<char>;

    open spec fn view(&self) -> Seq<char> {
        self.0@
    }
}

/// The remainder of `s` after the first `n` characters, with the value.
pub open spec fn split_result<V>(s: Seq<char>, g: Option<(nat, V)>) -> Option<(Seq<char>, V)> {
    match g {
        Some((n, v)) => Some((s.subrange(n as int, s.len() as int), v)),
        None => None,
    }
}

/// `'…'` or `"…"`: the characters up to the first matching quote.
pub open spec fn literal_g(s: Seq<char>, pos: int) -> Option<(nat, Seq<char>)> {
    if 0 <= pos < s.len() && (s[pos] == '"' || s[pos] == '\'') {
        let n = run_len(s, pos + 1, class_pred(CharClass::Not(s[pos])));
        if pos + 1 + n < s.len() {
            Some((n + 2, s.subrange(pos + 1, pos + 1 + n)))
        } else {
            None
        }
    } else {
        None
    }
}

/// An optional `_`, a letter, then letters, digits, `.` and `_`.
pub open spec fn identifier_g(s: Seq<char>, pos: int) -> Option<(nat, Seq<char>)> {
    let start = if has_char(s, pos, '_') { pos + 1 } else { pos };
    if 0 <= pos && start < s.len() && is_letter(s[start]) {
        let n = (start - pos) + 1 + run_len(s, start + 1, class_pred(CharClass::IdentTail));
        Some((n as nat, s.subrange(pos, pos + n)))
    } else {
        None
    }
}

/// `,` or `;`.
pub open spec fn list_separator_g(s: Seq<char>, pos: int) -> Option<nat> {
    if has_char(s, pos, ',') || has_char(s, pos, ';') {
        Some(1)
    } else {
        None
    }
}

/// Distance from `i` to the first `*/` at or after it.
pub open spec fn block_len(s: Seq<char>, i: int) -> Option<nat>
    decreases s.len() - i,
{
    if 0 <= i && i + 1 < s.len() {
        if s[i] == '*' && s[i + 1] == '/' {
            Some(0)
        } else {
            match block_len(s, i + 1) {
                Some(k) => Some(k + 1),
                None => None,
            }
        }
    } else {
        None
    }
}

/// `//…` or `#…` up to the end of the line, or `/*…*/` up to the first `*/`.
pub open spec fn comment_g(s: Seq<char>, pos: int) -> Option<(nat, Seq<char>)> {
    if has_char(s, pos, '/') && has_char(s, pos + 1, '/') {
        let n = run_len(s, pos + 2, class_pred(CharClass::Not('\n')));
        Some((n + 2, s.subrange(pos + 2, pos + 2 + n)))
    } else if has_char(s, pos, '#') {
        let n = run_len(s, pos + 1, class_pred(CharClass::Not('\n')));
        Some((n + 1, s.subrange(pos + 1, pos + 1 + n)))
    } else if has_char(s, pos, '/') && has_char(s, pos + 1, '*') {
        match block_len(s, pos + 2) {
            Some(k) => Some((k + 4, s.subrange(pos + 2, pos + 2 + k))),
            None => None,
        }
    } else {
        None
    }
}

/// Characters taken by one comment or one run of white space at `pos` (0 if none).
pub open spec fn sep_step(s: Seq<char>, pos: int) -> nat {
    match comment_g(s, pos) {
        Some((n, _)) => n,
        None => run_len(s, pos, class_pred(CharClass::Space)),
    }
}

/// Characters taken by the longest run of comments and white space at `pos`.
pub open spec fn sep_len(s: Seq<char>, pos: int) -> nat
    decreases s.len() - pos,
{
    let n = sep_step(s, pos);
    if 0 < n && pos + n <= s.len() {
        n + sep_len(s, pos + n)
    } else {
        0
    }
}

/// One or more comments or runs of white space.
pub open spec fn separator_g(s: Seq<char>, pos: int) -> Option<nat> {
    if sep_len(s, pos) > 0 {
        Some(sep_len(s, pos))
    } else {
        None
    }
}

/// Items after the first of a separated list at `q`: each a separator, then an
/// item, the two together taking at least one character; as many as match.
pub open spec fn tail_g<V>(
    s: Seq<char>,
    q: int,
    item: spec_fn(Seq<char>, int) -> Option<(nat, V)>,
    sep: spec_fn(Seq<char>, int) -> Option<nat>,
) -> (nat, Seq<V>)
    decreases s.len() - q,
{
    if let Some(m) = sep(s, q) {
        if q + m <= s.len() {
            if let Some((n, v)) = item(s, q + m) {
                if 0 < m + n && q + m + n <= s.len() {
                    let (k, rest) = tail_g(s, q + m + n, item, sep);
                    (m + n + k, seq![v] + rest)
                } else {
                    (0, Seq::empty())
                }
            } else {
                (0, Seq::empty())
            }
        } else {
            (0, Seq::empty())
        }
    } else {
        (0, Seq::empty())
    }
}

/// A separated list at `p`, maybe empty: what it takes and its items.
pub open spec fn items_g<V>(
    s: Seq<char>,
    p: int,
    item: spec_fn(Seq<char>, int) -> Option<(nat, V)>,
    sep: spec_fn(Seq<char>, int) -> Option<nat>,
) -> (nat, Seq<V>) {
    if let Some((n, v)) = item(s, p) {
        let (m, rest) = if p + n <= s.len() {
            tail_g(s, p + n, item, sep)
        } else {
            (0, Seq::empty())
        };
        (n + m, seq![v] + rest)
    } else {
        (0, Seq::empty())
    }
}

/// Optional comments or white space, as a separator that always matches.
pub open spec fn gap_p() -> spec_fn(Seq<char>, int) -> Option<nat> {
    |s: Seq<char>, p: int| Some(sep_len(s, p))
}

/// `s` is a whole identifier: an optional `_`, a letter, then letters, digits, `.` and `_`.
pub open spec fn is_identifier(s: Seq<char>) -> bool {
    let start: int = if s.len() > 0 && s[0] == '_' {
        1
    } else {
        0
    };
    &&& start < s.len()
    &&& is_letter(s[start])
    &&& forall|k: int| start < k < s.len() ==> is_ident_char(#[trigger] s[k])
}

proof fn lemma_run_len_to_end(s: Seq<char>, pos: int, p: spec_fn(char) -> bool)
    requires
        0 <= pos <= s.len(),
        forall|k: int| pos <= k < s.len() ==> p(#[trigger] s[k]),
    ensures
        run_len(s, pos, p) == s.len() - pos,
    decreases s.len() - pos,
{
    if pos < s.len() {
        lemma_run_len_to_end(s, pos + 1, p);
    }
}

/// An identifier parses as itself, whole: nothing is dropped and nothing is left.
pub proof fn lemma_identifier_whole(s: Seq<char>)
    requires
        is_identifier(s),
    ensures
        identifier_g(s, 0) == Some((s.len(), s)),
{
    let start: int = if s[0] == '_' {
        1
    } else {
        0
    };
    lemma_run_len_to_end(s, start + 1, class_pred(CharClass::IdentTail));
    assert(s.subrange(0, s.len() as int) =~= s);
}

/// Text that starts with a digit, or is made of underscores only, is no identifier.
pub proof fn lemma_identifier_rejects(s: Seq<char>)
    requires
        s.len() > 0,
        is_digit(s[0]) || forall|k: int| 0 <= k < s.len() ==> #[trigger] s[k] == '_',
    ensures
        identifier_g(s, 0) is None,
{
    if !is_digit(s[0]) && s.len() > 1 {
        assert(s[1] == '_');
    }
}

pub(crate) fn err<T>(kind: ErrorKind, pos: usize) -> (r: PResult<T>)
    ensures
        r == Err::<(usize, T), ParseError>(ParseError { kind, pos }),
{
    Err(ParseError { kind, pos })
}

impl Literal {
    pub fn new(s: &str) -> (r: Self)
        ensures
            r@ == s@,
    {
        Literal(s.to_owned())
    }

    pub fn as_str(&self) -> (r: &str)
        ensures
            r@ == self@,
    {
        self.0.as_str()
    }

    /// Parses a literal at `pos`; an unterminated one fails with `Unterminated`.
    pub fn parse_at(s: &Vec<char>, pos: usize) -> (r: PResult<Self>)
        requires
            pos <= s@.len(),
        ensures
            r is Ok <==> literal_g(s@, pos as int) is Some,
            r matches Ok((q, v)) ==> pos <= q <= s@.len() && literal_g(s@, pos as int) == Some(((q - pos) as nat, v@)),
            r matches Err(e) ==> (e.kind == ErrorKind::Unterminated <==> (
            has_char(s@, pos as int, '"') || has_char(s@, pos as int, '\''))),
    {
        if pos < s.len() && (s[pos] == '"' || s[pos] == '\'') {
            let q = s[pos];
            let e = run_end(s, pos + 1, CharClass::Not(q));
            if e < s.len() {
                Ok((e + 1, Literal(string_of(s, pos + 1, e))))
            } else {
                err(ErrorKind::Unterminated, pos)
            }
        } else {
            err(ErrorKind::Tag, pos)
        }
    }

    /// Parses a literal at the start of `input`, and returns the rest with it.
    pub fn parse(input: &str) -> (r: Result<(String, Self), ParseError>)
        ensures
            r is Ok <==> literal_g(input@, 0) is Some,
            r matches Ok((rest, v)) ==> split_result(input@, literal_g(input@, 0)) == Some((rest@, v@)),
    {
        let s = chars_of(input);
        match Self::parse_at(&s, 0) {
            Ok((q, v)) => Ok((string_of(&s, q, s.len()), v)),
            Err(e) => Err(e),
        }
    }
}

impl Identifier {
    pub fn new(s: &str) -> (r: Self)
        ensures
            r@ == s@,
    {
        Identifier(s.to_owned())
    }

    pub fn as_str(&self) -> (r: &str)
        ensures
            r@ == self@,
    {
        self.0.as_str()
    }

    /// Parses an identifier at `pos`.
    pub fn parse_at(s: &Vec<char>, pos: usize) -> (r: PResult<Self>)
        requires
            pos <= s@.len(),
        ensures
            r is Ok <==> identifier_g(s@, pos as int) is Some,
            r matches Ok((q, v)) ==> pos <= q <= s@.len() && identifier_g(s@, pos as int) == Some(
                ((q - pos) as nat, v@),
            ),
            r matches Err(e) ==> e.kind == ErrorKind::Tag,
    {
        let start = if char_at(s, pos, '_') {
            pos + 1
        } else {
            pos
        };
        if start < s.len() && (('a' <= s[start] && s[start] <= 'z') || ('A' <= s[start] && s[start]
            <= 'Z')) {
            let e = run_end(s, start + 1, CharClass::IdentTail);
            Ok((e, Identifier(string_of(s, pos, e))))
        } else {
            err(ErrorKind::Tag, pos)
        }
    }

    /// Parses an identifier at the start of `input`, and returns the rest with it.
    pub fn parse(input: &str) -> (r: Result<(String, Self), ParseError>)
        ensures
            r is Ok <==> identifier_g(input@, 0) is Some,
            r matches Ok((rest, v)) ==> split_result(input@, identifier_g(input@, 0)) == Some(
                (rest@, v@),
            ),
            r matches Err(e) ==> e.kind == ErrorKind::Tag,
    {
        let s = chars_of(input);
        match Self::parse_at(&s, 0) {
            Ok((q, v)) => Ok((string_of(&s, q, s.len()), v)),
            Err(e) => Err(e),
        }
    }
}

impl ListSeparator {
    /// Parses a `,` or a `;` at `pos`.
    pub fn parse_at(s: &Vec<char>, pos: usize) -> (r: PResult<Self>)
        requires
            pos <= s@.len(),
        ensures
            r is Ok <==> list_separator_g(s@, pos as int) is Some,
            r matches Ok((q, v)) ==> q == pos + 1 && q <= s@.len(),
            r matches Err(e) ==> e.kind == ErrorKind::Tag,
    {
        if char_at(s, pos, ',') || char_at(s, pos, ';') {
            Ok((pos + 1, ListSeparator))
        } else {
            err(ErrorKind::Tag, pos)
        }
    }

    /// Parses a `,` or a `;` at the start of `input`, and returns the rest with it.
    pub fn parse(input: &str) -> (r: Result<(String, Self), ParseError>)
        ensures
            r is Ok <==> list_separator_g(input@, 0) is Some,
            r matches Ok((rest, v)) ==> rest@ == input@.subrange(1, input@.len() as int),
            r matches Err(e) ==> e.kind == ErrorKind::Tag,
    {
        let s = chars_of(input);
        match Self::parse_at(&s, 0) {
            Ok((q, v)) => Ok((string_of(&s, q, s.len()), v)),
            Err(e) => Err(e),
        }
    }
}

pub open spec fn shift(o: Option<nat>, d: int) -> Option<nat> {
    match o {
        Some(k) => Some((k + d) as nat),
        None => None,
    }
}

/// The position of the first `*/` at or after `from`, if there is one.
fn find_block_end(s: &Vec<char>, from: usize) -> (r: Option<usize>)
    requires
        from <= s@.len(),
    ensures
        shift(block_len(s@, from as int), from as int) == (match r {
            Some(i) => Some(i as nat),
            None => None::<nat>,
        }),
        r matches Some(i) ==> i + 2 <= s@.len(),
{
    let mut i = from;
    while i < s.len() && s.len() - i >= 2
        invariant
            from <= i <= s@.len(),
            shift(block_len(s@, from as int), from as int) == shift(block_len(s@, i as int), i as int),
        decreases s@.len() - i,
    {
        if s[i] == '*' && s[i + 1] == '/' {
            return Some(i);
        }
        i = i + 1;
    }
    None
}

impl Comment {
    pub fn new(s: &str) -> (r: Self)
        ensures
            r@ == s@,
    {
        Comment(s.to_owned())
    }

    pub fn as_str(&self) -> (r: &str)
        ensures
            r@ == self@,
    {
        self.0.as_str()
    }

    /// Parses a comment at `pos`.
    pub fn parse_at(s: &Vec<char>, pos: usize) -> (r: PResult<Self>)
        requires
            pos <= s@.len(),
        ensures
            r is Ok <==> comment_g(s@, pos as int) is Some,
            r matches Ok((q, v)) ==> pos <= q <= s@.len() && comment_g(s@, pos as int) == Some(
                ((q - pos) as nat, v@),
            ),
            r matches Err(e) ==> (e.kind == ErrorKind::Unterminated <==> (has_char(s@, pos as int, '/')
                && has_char(s@, pos + 1, '*'))),
    {
        if char_at(s, pos, '/') && char_at(s, pos + 1, '/') {
            let e = run_end(s, pos + 2, CharClass::Not('\n'));
            Ok((e, Comment(string_of(s, pos + 2, e))))
        } else if char_at(s, pos, '#') {
            let e = run_end(s, pos + 1, CharClass::Not('\n'));
            Ok((e, Comment(string_of(s, pos + 1, e))))
        } else if char_at(s, pos, '/') && char_at(s, pos + 1, '*') {
            match find_block_end(s, pos + 2) {
                Some(i) => Ok((i + 2, Comment(string_of(s, pos + 2, i)))),
                None => err(ErrorKind::Unterminated, pos),
            }
        } else {
            err(ErrorKind::Tag, pos)
        }
    }

    /// Parses a comment at the start of `input`, and returns the rest with it.
    pub fn parse(input: &str) -> (r: Result<(String, Self), ParseError>)
        ensures
            r is Ok <==> comment_g(input@, 0) is Some,
            r matches Ok((rest, v)) ==> split_result(input@, comment_g(input@, 0)) == Some(
                (rest@, v@),
            ),
            r matches Err(e) ==> (e.kind == ErrorKind::Unterminated <==> (has_char(input@, 0, '/')
                && has_char(input@, 1, '*'))),
    {
        let s = chars_of(input);
        match Self::parse_at(&s, 0) {
            Ok((q, v)) => Ok((string_of(&s, q, s.len()), v)),
            Err(e) => Err(e),
        }
    }
}

/// The position after the longest run of comments and white space at `pos`.
pub fn skip_sep(s: &Vec<char>, pos: usize) -> (r: usize)
    requires
        pos <= s@.len(),
    ensures
        r == pos + sep_len(s@, pos as int),
        r <= s@.len(),
{
    let mut i = pos;
    loop
        invariant
            pos <= i <= s@.len(),
            pos + sep_len(s@, pos as int) == i + sep_len(s@, i as int),
        decreases s@.len() - i,
    {
        let c = Comment::parse_at(s, i);
        let n = match c {
            Ok((q, _)) => q,
            Err(_) => run_end(s, i, CharClass::Space),
        };
        assert(c is Ok ==> (comment_g(s@, i as int) matches Some((k, _)) && k == n - i));
        assert(n == i + sep_step(s@, i as int));
        if n == i {
            return i;
        }
        i = n;
    }
}

impl Separator {
    /// Parses one or more comments or runs of white space at `pos`.
    pub fn parse_at(s: &Vec<char>, pos: usize) -> (r: PResult<Self>)
        requires
            pos <= s@.len(),
        ensures
            r is Ok <==> separator_g(s@, pos as int) is Some,
            r matches Ok((q, v)) ==> pos <= q <= s@.len() && separator_g(s@, pos as int) == Some(
                (q - pos) as nat,
            ),
            r matches Err(e) ==> e.kind == ErrorKind::Tag,
    {
        let e = skip_sep(s, pos);
        if e > pos {
            Ok((e, Separator))
        } else {
            err(ErrorKind::Tag, pos)
        }
    }

    /// Parses comments and white space at the start of `input`, and returns the rest.
    pub fn parse(input: &str) -> (r: Result<(String, Self), ParseError>)
        ensures
            r is Ok <==> separator_g(input@, 0) is Some,
            r matches Ok((rest, v)) ==> (separator_g(input@, 0) matches Some(n) && rest@
                == input@.subrange(n as int, input@.len() as int)),
            r matches Err(e) ==> e.kind == ErrorKind::Tag,
    {
        let s = chars_of(input);
        match Self::parse_at(&s, 0) {
            Ok((q, v)) => Ok((string_of(&s, q, s.len()), v)),
            Err(e) => Err(e),
        }
    }
}

} // verus!
