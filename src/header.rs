//! Header declarations: includes, C++ includes and namespaces.
use vstd::prelude::*;

use crate::basic::{
    err, identifier_g, literal_g, sep_len, skip_sep, split_result, Identifier, Literal,
};
use crate::text::{chars_of, has_tag, string_of, tag_end, ErrorKind, PResult, ParseError};

verus! {

/// The keyword `kw`, a separator and a literal.
pub open spec fn keyword_literal_g(s: Seq<char>, pos: int, kw: Seq<char>) -> Option<(nat, Seq<char>)> {
    let a = pos + kw.len();
    if has_tag(s, pos, kw) && sep_len(s, a) > 0 {
        if let Some((n, v)) = literal_g(s, a + sep_len(s, a)) {
            Some(((a + sep_len(s, a) + n - pos) as nat, v))
        } else {
            None
        }
    } else {
        None
    }
}

pub open spec fn include_g(s: Seq<char>, pos: int) -> Option<(nat, Seq<char>)> {
    keyword_literal_g(s, pos, "include"@)
}

pub open spec fn cppinclude_g(s: Seq<char>, pos: int) -> Option<(nat, Seq<char>)> {
    keyword_literal_g(s, pos, "cpp_include"@)
}

/// The keyword `kw`, a separator and a literal at `pos`.
fn keyword_literal_at(s: &Vec<char>, pos: usize, kw: &str) -> (r: PResult<Literal>)
    requires
        pos <= s@.len(),
    ensures
        r is Ok <==> keyword_literal_g(s@, pos as int, kw@) is Some,
        r matches Ok((q, v)) ==> pos <= q <= s@.len() && keyword_literal_g(s@, pos as int, kw@)
            == Some(((q - pos) as nat, v@)),
{
    let a = match tag_end(s, pos, kw) {
        Some(a) => a,
        None => {
            return err(ErrorKind::Tag, pos);
        },
    };
    let b = skip_sep(s, a);
    if b == a {
        return err(ErrorKind::Tag, a);
    }
    Literal::parse_at(s, b)
}

/// `include` and the path of another file.
#[derive(Clone, Debug, PartialEq, Eq)]
pub struct Include(pub Literal);

impl View for Include {
    type V = Seq<char>;

    open spec fn view(&self) -> Seq<char> {
        self.0@
    }
}

impl Include {
    /// Parses `include`, a separator and a literal at `pos`.
    pub fn parse_at(s: &Vec<char>, pos: usize) -> (r: PResult<Self>)
        requires
            pos <= s@.len(),
        ensures
            r is Ok <==> keyword_literal_g(s@, pos as int, "include"@) is Some,
            r matches Ok((q, v)) ==> pos <= q <= s@.len() && keyword_literal_g(s@, pos as int, "include"@)
                == Some(((q - pos) as nat, v@)),
    {
        match keyword_literal_at(s, pos, "include") {
            Ok((q, l)) => Ok((q, Include(l))),
            Err(e) => Err(e),
        }
    }

    /// Parses at the start of `input`, and returns the rest with the value.
    pub fn parse(input: &str) -> (r: Result<(String, Self), ParseError>)
        ensures
            r is Ok <==> include_g(input@, 0) is Some,
            r matches Ok((rest, v)) ==> split_result(input@, include_g(input@, 0)) == Some((rest@, v@)),
    {
        let s = chars_of(input);
        match Self::parse_at(&s, 0) {
            Ok((q, v)) => Ok((string_of(&s, q, s.len()), v)),
            Err(e) => Err(e),
        }
    }
}

/// `cpp_include` and the path of a C++ header.
#[derive(Clone, Debug, PartialEq, Eq)]
pub struct CppInclude(pub Literal);

impl View for CppInclude {
    type V = Seq<char>;

    open spec fn view(&self) -> Seq<char> {
        self.0@
    }
}

impl CppInclude {
    /// Parses `cpp_include`, a separator and a literal at `pos`.
    pub fn parse_at(s: &Vec<char>, pos: usize) -> (r: PResult<Self>)
        requires
            pos <= s@.len(),
        ensures
            r is Ok <==> keyword_literal_g(s@, pos as int, "cpp_include"@) is Some,
            r matches Ok((q, v)) ==> pos <= q <= s@.len() && keyword_literal_g(s@, pos as int, "cpp_include"@)
                == Some(((q - pos) as nat, v@)),
    {
        match keyword_literal_at(s, pos, "cpp_include") {
            Ok((q, l)) => Ok((q, CppInclude(l))),
            Err(e) => Err(e),
        }
    }

    /// Parses at the start of `input`, and returns the rest with the value.
    pub fn parse(input: &str) -> (r: Result<(String, Self), ParseError>)
        ensures
            r is Ok <==> cppinclude_g(input@, 0) is Some,
            r matches Ok((rest, v)) ==> split_result(input@, cppinclude_g(input@, 0)) == Some((rest@, v@)),
    {
        let s = chars_of(input);
        match Self::parse_at(&s, 0) {
            Ok((q, v)) => Ok((string_of(&s, q, s.len()), v)),
            Err(e) => Err(e),
        }
    }
}

/// The language a namespace applies to, or `*` for all of them.
#[derive(Clone, Debug, PartialEq, Eq)]
pub struct NamespaceScope(pub String);

impl View for NamespaceScope {
    type V = Seq<char>;

    open spec fn view(&self) -> Seq<char> {
        self.0@
    }
}

/// One of the fixed set of scope keywords, or `*`: the first that matches.
pub open spec fn namespace_scope_g(s: Seq<char>, pos: int) -> Option<(nat, Seq<char>)> {
    if has_tag(s, pos, "*"@) {
        Some(("*"@.len(), "*"@))
    } else if has_tag(s, pos, "c_glib"@) {
        Some(("c_glib"@.len(), "c_glib"@))
    } else if has_tag(s, pos, "rust"@) {
        Some(("rust"@.len(), "rust"@))
    } else if has_tag(s, pos, "cpp"@) {
        Some(("cpp"@.len(), "cpp"@))
    } else if has_tag(s, pos, "delphi"@) {
        Some(("delphi"@.len(), "delphi"@))
    } else if has_tag(s, pos, "haxe"@) {
        Some(("haxe"@.len(), "haxe"@))
    } else if has_tag(s, pos, "go"@) {
        Some(("go"@.len(), "go"@))
    } else if has_tag(s, pos, "java"@) {
        Some(("java"@.len(), "java"@))
    } else if has_tag(s, pos, "js"@) {
        Some(("js"@.len(), "js"@))
    } else if has_tag(s, pos, "lua"@) {
        Some(("lua"@.len(), "lua"@))
    } else if has_tag(s, pos, "netstd"@) {
        Some(("netstd"@.len(), "netstd"@))
    } else if has_tag(s, pos, "perl"@) {
        Some(("perl"@.len(), "perl"@))
    } else if has_tag(s, pos, "php"@) {
        Some(("php"@.len(), "php"@))
    } else if has_tag(s, pos, "py.twisted"@) {
        Some(("py.twisted"@.len(), "py.twisted"@))
    } else if has_tag(s, pos, "py"@) {
        Some(("py"@.len(), "py"@))
    } else if has_tag(s, pos, "rb"@) {
        Some(("rb"@.len(), "rb"@))
    } else if has_tag(s, pos, "st"@) {
        Some(("st"@.len(), "st"@))
    } else if has_tag(s, pos, "xsd"@) {
        Some(("xsd"@.len(), "xsd"@))
    } else {
        None
    }
}

impl NamespaceScope {
    pub fn new(s: &str) -> (r: Self)
        ensures
            r@ == s@,
    {
        NamespaceScope(s.to_owned())
    }

    /// Parses a scope keyword at `pos`.
    pub fn parse_at(s: &Vec<char>, pos: usize) -> (r: PResult<Self>)
        requires
            pos <= s@.len(),
        ensures
            r is Ok <==> namespace_scope_g(s@, pos as int) is Some,
            r matches Ok((q, v)) ==> pos <= q <= s@.len() && namespace_scope_g(s@, pos as int)
                == Some(((q - pos) as nat, v@)),
            r matches Err(e) ==> e.kind == ErrorKind::Alt,
    {
        if let Some(e) = tag_end(s, pos, "*") {
            Ok((e, NamespaceScope(string_of(s, pos, e))))
        } else if let Some(e) = tag_end(s, pos, "c_glib") {
            Ok((e, NamespaceScope(string_of(s, pos, e))))
        } else if let Some(e) = tag_end(s, pos, "rust") {
            Ok((e, NamespaceScope(string_of(s, pos, e))))
        } else if let Some(e) = tag_end(s, pos, "cpp") {
            Ok((e, NamespaceScope(string_of(s, pos, e))))
        } else if let Some(e) = tag_end(s, pos, "delphi") {
            Ok((e, NamespaceScope(string_of(s, pos, e))))
        } else if let Some(e) = tag_end(s, pos, "haxe") {
            Ok((e, NamespaceScope(string_of(s, pos, e))))
        } else if let Some(e) = tag_end(s, pos, "go") {
            Ok((e, NamespaceScope(string_of(s, pos, e))))
        } else if let Some(e) = tag_end(s, pos, "java") {
            Ok((e, NamespaceScope(string_of(s, pos, e))))
        } else if let Some(e) = tag_end(s, pos, "js") {
            Ok((e, NamespaceScope(string_of(s, pos, e))))
        } else if let Some(e) = tag_end(s, pos, "lua") {
            Ok((e, NamespaceScope(string_of(s, pos, e))))
        } else if let Some(e) = tag_end(s, pos, "netstd") {
            Ok((e, NamespaceScope(string_of(s, pos, e))))
        } else if let Some(e) = tag_end(s, pos, "perl") {
            Ok((e, NamespaceScope(string_of(s, pos, e))))
        } else if let Some(e) = tag_end(s, pos, "php") {
            Ok((e, NamespaceScope(string_of(s, pos, e))))
        } else if let Some(e) = tag_end(s, pos, "py.twisted") {
            Ok((e, NamespaceScope(string_of(s, pos, e))))
        } else if let Some(e) = tag_end(s, pos, "py") {
            Ok((e, NamespaceScope(string_of(s, pos, e))))
        } else if let Some(e) = tag_end(s, pos, "rb") {
            Ok((e, NamespaceScope(string_of(s, pos, e))))
        } else if let Some(e) = tag_end(s, pos, "st") {
            Ok((e, NamespaceScope(string_of(s, pos, e))))
        } else if let Some(e) = tag_end(s, pos, "xsd") {
            Ok((e, NamespaceScope(string_of(s, pos, e))))
        } else {
            err(ErrorKind::Alt, pos)
        }
    }

    /// Parses at the start of `input`, and returns the rest with the value.
    pub fn parse(input: &str) -> (r: Result<(String, Self), ParseError>)
        ensures
            r is Ok <==> namespace_scope_g(input@, 0) is Some,
            r matches Ok((rest, v)) ==> split_result(input@, namespace_scope_g(input@, 0)) == Some((rest@, v@)),
            r matches Err(e) ==> e.kind == ErrorKind::Alt,
    {
        let s = chars_of(input);
        match Self::parse_at(&s, 0) {
            Ok((q, v)) => Ok((string_of(&s, q, s.len()), v)),
            Err(e) => Err(e),
        }
    }
}

/// `namespace` scope name.
#[derive(Clone, Debug, PartialEq, Eq)]
pub struct Namespace {
    pub scope: NamespaceScope,
    pub name: Identifier,
}

pub struct NamespaceModel {
    pub scope: Seq<char>,
    pub name: Seq<char>,
}

impl View for Namespace {
    type V = NamespaceModel;

    open spec fn view(&self) -> NamespaceModel {
        NamespaceModel { scope: self.scope@, name: self.name@ }
    }
}

/// `namespace`, separator, scope, separator, name.
pub open spec fn namespace_g(s: Seq<char>, pos: int) -> Option<(nat, NamespaceModel)> {
    let a = pos + 9;
    let b = a + sep_len(s, a);
    if has_tag(s, pos, "namespace"@) && sep_len(s, a) > 0 && namespace_scope_g(s, b) is Some {
        let (ns, scope) = namespace_scope_g(s, b)->Some_0;
        let c = b + ns;
        let d = c + sep_len(s, c);
        if sep_len(s, c) > 0 && identifier_g(s, d) is Some {
            let (ni, name) = identifier_g(s, d)->Some_0;
            Some(((d + ni - pos) as nat, NamespaceModel { scope, name }))
        } else {
            None
        }
    } else {
        None
    }
}

impl Namespace {
    /// Parses a namespace declaration at `pos`.
    pub fn parse_at(s: &Vec<char>, pos: usize) -> (r: PResult<Self>)
        requires
            pos <= s@.len(),
        ensures
            r is Ok <==> namespace_g(s@, pos as int) is Some,
            r matches Ok((q, v)) ==> pos <= q <= s@.len() && namespace_g(s@, pos as int) == Some(
                ((q - pos) as nat, v@),
            ),
    {
        proof {
            reveal_strlit("namespace");
        }
        let a = match tag_end(s, pos, "namespace") {
            Some(a) => a,
            None => {
                return err(ErrorKind::Tag, pos);
            },
        };
        let b = skip_sep(s, a);
        if b == a {
            return err(ErrorKind::Tag, a);
        }
        let (c, scope) = match NamespaceScope::parse_at(s, b) {
            Ok(x) => x,
            Err(x) => {
                return Err(x);
            },
        };
        let d = skip_sep(s, c);
        if d == c {
            return err(ErrorKind::Tag, c);
        }
        match Identifier::parse_at(s, d) {
            Ok((q, name)) => Ok((q, Namespace { scope, name })),
            Err(x) => Err(x),
        }
    }

    /// Parses at the start of `input`, and returns the rest with the value.
    pub fn parse(input: &str) -> (r: Result<(String, Self), ParseError>)
        ensures
            r is Ok <==> namespace_g(input@, 0) is Some,
            r matches Ok((rest, v)) ==> split_result(input@, namespace_g(input@, 0)) == Some((rest@, v@)),
    {
        let s = chars_of(input);
        match Self::parse_at(&s, 0) {
            Ok((q, v)) => Ok((string_of(&s, q, s.len()), v)),
            Err(e) => Err(e),
        }
    }
}

} // verus!
