//! Characters of the source text, runs, keywords and the error type.
use vstd::prelude::*;
use vstd::std_specs::iter::IteratorSpec;

verus! {

broadcast use {vstd::string::axiom_spec_iter, vstd::string::next_postcondition};

/// What kind of mismatch stopped a parser.
#[derive(Clone, Copy, Debug, PartialEq, Eq, Structural)]
pub enum ErrorKind {
    /// An expected keyword or character was absent.
    Tag,
    /// A number was required and the text there is not one.
    Number,
    /// A quoted literal or a block comment has no closing delimiter.
    Unterminated,
    /// An integer literal whose value does not fit in 64 signed bits.
    Overflow,
    /// Every branch of a choice failed.
    Alt,
}

/// A syntax error: the kind of mismatch and the character position where it was found.
#[derive(Clone, Copy, Debug, PartialEq, Eq, Structural)]
pub struct ParseError {
    pub kind: ErrorKind,
    pub pos: usize,
}

/// The result of a parser: the position after the match and the value.
pub type PResult<T> = Result<(usize, T), ParseError>;

pub open spec fn is_letter(c: char) -> bool {
    ('a' <= c && c <= 'z') || ('A' <= c && c <= 'Z')
}

pub open spec fn is_digit(c: char) -> bool {
    '0' <= c && c <= '9'
}

pub open spec fn is_ident_char(c: char) -> bool {
    is_letter(c) || is_digit(c) || c == '.' || c == '_'
}

pub open spec fn is_space(c: char) -> bool {
    c == ' ' || c == '\t' || c == '\r' || c == '\n'
}

/// A class of characters that a run is made of.
#[derive(Clone, Copy, Debug, PartialEq, Eq, Structural)]
pub enum CharClass {
    /// Every character but the one given.
    Not(char),
    /// Letters, digits, `.` and `_`.
    IdentTail,
    /// Decimal digits.
    Digit,
    /// Space, tab, carriage return and line feed.
    Space,
}

pub open spec fn class_pred(k: CharClass) -> spec_fn(char) -> bool {
    match k {
        CharClass::Not(x) => |c: char| c != x,
        CharClass::IdentTail => |c: char| is_ident_char(c),
        CharClass::Digit => |c: char| is_digit(c),
        CharClass::Space => |c: char| is_space(c),
    }
}

/// Whether `c` belongs to the class `k`.
pub fn in_class(k: CharClass, c: char) -> (r: bool)
    ensures
        r == class_pred(k)(c),
{
    match k {
        CharClass::Not(x) => c != x,
        CharClass::IdentTail => ('a' <= c && c <= 'z') || ('A' <= c && c <= 'Z') || ('0' <= c && c
            <= '9') || c == '.' || c == '_',
        CharClass::Digit => '0' <= c && c <= '9',
        CharClass::Space => c == ' ' || c == '\t' || c == '\r' || c == '\n',
    }
}

/// Length of the longest run of characters satisfying `p` that starts at `pos`.
pub open spec fn run_len(s: Seq<char>, pos: int, p: spec_fn(char) -> bool) -> nat
    decreases s.len() - pos,
{
    if 0 <= pos < s.len() && p(s[pos]) {
        1 + run_len(s, pos + 1, p)
    } else {
        0
    }
}

pub proof fn lemma_run_len(s: Seq<char>, pos: int, p: spec_fn(char) -> bool)
    requires
        0 <= pos <= s.len(),
    ensures
        pos + run_len(s, pos, p) <= s.len(),
        forall|k: int| pos <= k < pos + run_len(s, pos, p) ==> p(s[k]),
    decreases s.len() - pos,
{
    if pos < s.len() && p(s[pos]) {
        lemma_run_len(s, pos + 1, p);
    }
}

/// `s` holds `kw` at `pos`.
pub open spec fn has_tag(s: Seq<char>, pos: int, kw: Seq<char>) -> bool {
    0 <= pos && pos + kw.len() <= s.len() && s.subrange(pos, pos + kw.len()) == kw
}

/// `s` holds the character `c` at `pos`.
pub open spec fn has_char(s: Seq<char>, pos: int, c: char) -> bool {
    0 <= pos < s.len() && s[pos] == c
}

/// The characters of a string, in order.
pub fn chars_of(s: &str) -> (r: Vec<char>)
    ensures
        r@ == s@,
{
    let mut it = s.chars();
    let mut r: Vec<char> = Vec::new();
    loop
        invariant
            r@ + it.remaining() == s@,
            it.obeys_prophetic_iter_laws(),
            it.decrease() is Some,
        decreases it.decrease()->0,
    {
        let c = it.next();
        match c {
            Some(c) => {
                r.push(c);
            },
            None => {
                return r;
            },
        }
    }
}

/// Relies on `String::push`: appends one character.
#[verifier::external_body]
fn push_char(s: &mut String, c: char)
    ensures
        final(s)@ == old(s)@.push(c),
{
    s.push(c);
}

/// The characters of `s` from `from` up to `to`, as a string.
pub fn string_of(s: &Vec<char>, from: usize, to: usize) -> (r: String)
    requires
        from <= to <= s@.len(),
    ensures
        r@ == s@.subrange(from as int, to as int),
{
    let mut r = String::new();
    let mut i = from;
    while i < to
        invariant
            from <= i <= to <= s@.len(),
            r@ == s@.subrange(from as int, i as int),
        decreases to - i,
    {
        push_char(&mut r, s[i]);
        i = i + 1;
        assert(r@ =~= s@.subrange(from as int, i as int));
    }
    r
}

/// Whether `s` holds `kw` at `pos`.
pub fn tag(s: &Vec<char>, pos: usize, kw: &str) -> (r: bool)
    requires
        pos <= s@.len(),
    ensures
        r == has_tag(s@, pos as int, kw@),
{
    let k = chars_of(kw);
    if k.len() > s.len() - pos {
        return false;
    }
    let mut i: usize = 0;
    while i < k.len()
        invariant
            k@ == kw@,
            pos + k@.len() <= s@.len(),
            s@.len() <= usize::MAX,
            i <= k@.len(),
            forall|j: int| 0 <= j < i ==> s@[pos + j] == k@[j],
        decreases k.len() - i,
    {
        if s[pos + i] != k[i] {
            assert(s@.subrange(pos as int, pos + k@.len())[i as int] != k@[i as int]);
            return false;
        }
        i = i + 1;
    }
    assert(s@.subrange(pos as int, pos + k@.len()) =~= k@);
    true
}

/// The end of the longest run of characters of class `k` that starts at `pos`.
pub fn run_end(s: &Vec<char>, pos: usize, k: CharClass) -> (r: usize)
    requires
        pos <= s@.len(),
    ensures
        r == pos + run_len(s@, pos as int, class_pred(k)),
        r <= s@.len(),
{
    let mut i = pos;
    while i < s.len() && in_class(k, s[i])
        invariant
            pos <= i <= s@.len(),
            pos + run_len(s@, pos as int, class_pred(k)) == i + run_len(s@, i as int, class_pred(k)),
        decreases s@.len() - i,
    {
        i = i + 1;
    }
    i
}

/// `s` holds the word `kw` at `pos`: the keyword, not followed by a character
/// that could continue an identifier.
pub open spec fn has_word(s: Seq<char>, pos: int, kw: Seq<char>) -> bool {
    has_tag(s, pos, kw) && !(pos + kw.len() < s.len() && is_ident_char(s[pos + kw.len()]))
}

/// The position after `kw` if `s` holds it at `pos`.
pub fn tag_end(s: &Vec<char>, pos: usize, kw: &str) -> (r: Option<usize>)
    requires
        pos <= s@.len(),
    ensures
        r is Some <==> has_tag(s@, pos as int, kw@),
        r matches Some(e) ==> e == pos + kw@.len() && e <= s@.len(),
{
    if tag(s, pos, kw) {
        let k = chars_of(kw);
        if k.len() <= s.len() - pos {
            Some(pos + k.len())
        } else {
            None
        }
    } else {
        None
    }
}

/// The position after the word `kw` if `s` holds it at `pos`.
pub fn word_end(s: &Vec<char>, pos: usize, kw: &str) -> (r: Option<usize>)
    requires
        pos <= s@.len(),
    ensures
        r is Some <==> has_word(s@, pos as int, kw@),
        r matches Some(e) ==> e == pos + kw@.len() && e <= s@.len(),
{
    match tag_end(s, pos, kw) {
        Some(e) => {
            if e < s.len() && in_class(CharClass::IdentTail, s[e]) {
                None
            } else {
                Some(e)
            }
        },
        None => None,
    }
}

/// Whether `s` holds `c` at `pos`.
pub fn char_at(s: &Vec<char>, pos: usize, c: char) -> (r: bool)
    requires
        pos <= s@.len(),
    ensures
        r == has_char(s@, pos as int, c),
        s@.len() <= usize::MAX,
{
    pos < s.len() && s[pos] == c
}

} // verus!
