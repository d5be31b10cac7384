//! The document: every top-level declaration of a file, sorted by kind.
use vstd::prelude::*;

use crate::basic::{sep_len, skip_sep};
use crate::definition::{
    const_g, enum_g, record_g, service_g, typedef_g, Const, ConstModel, Enum, EnumModel, Exception,
    RecordModel, Service, ServiceModel, Struct, Typedef, TypedefModel, Union,
};
use crate::header::{
    cppinclude_g, include_g, namespace_g, CppInclude, Include, Namespace, NamespaceModel,
};
use crate::text::{chars_of, string_of, ErrorKind, PResult, ParseError};

verus! {

/// A parsed file: each kind of declaration in the order it was written.
#[derive(Debug, PartialEq)]
pub struct Document {
    pub includes: Vec<Include>,
    pub cpp_includes: Vec<CppInclude>,
    pub namespaces: Vec<Namespace>,
    pub typedefs: Vec<Typedef>,
    pub consts: Vec<Const>,
    pub enums: Vec<Enum>,
    pub structs: Vec<Struct>,
    pub unions: Vec<Union>,
    pub exceptions: Vec<Exception>,
    pub services: Vec<Service>,
}

/// What a document denotes.
pub struct DocumentModel {
    pub includes: Seq<Seq<char>>,
    pub cpp_includes: Seq<Seq<char>>,
    pub namespaces: Seq<NamespaceModel>,
    pub typedefs: Seq<TypedefModel>,
    pub consts: Seq<ConstModel>,
    pub enums: Seq<EnumModel>,
    pub structs: Seq<RecordModel>,
    pub unions: Seq<RecordModel>,
    pub exceptions: Seq<RecordModel>,
    pub services: Seq<ServiceModel>,
}

impl View for Document {
    type V = DocumentModel;

    open spec fn view(&self) -> DocumentModel {
        DocumentModel {
            includes: self.includes@.map_values(|x: Include| x@),
            cpp_includes: self.cpp_includes@.map_values(|x: CppInclude| x@),
            namespaces: self.namespaces@.map_values(|x: Namespace| x@),
            typedefs: self.typedefs@.map_values(|x: Typedef| x@),
            consts: self.consts@.map_values(|x: Const| x@),
            enums: self.enums@.map_values(|x: Enum| x@),
            structs: self.structs@.map_values(|x: Struct| x@),
            unions: self.unions@.map_values(|x: Union| x@),
            exceptions: self.exceptions@.map_values(|x: Exception| x@),
            services: self.services@.map_values(|x: Service| x@),
        }
    }
}

/// One top-level declaration.
#[derive(Debug, PartialEq)]
pub enum Definition {
    Include(Include),
    CppInclude(CppInclude),
    Namespace(Namespace),
    Typedef(Typedef),
    Const(Const),
    Enum(Enum),
    Struct(Struct),
    Union(Union),
    Exception(Exception),
    Service(Service),
}

pub enum DefinitionModel {
    Include(Seq<char>),
    CppInclude(Seq<char>),
    Namespace(NamespaceModel),
    Typedef(TypedefModel),
    Const(ConstModel),
    Enum(EnumModel),
    Struct(RecordModel),
    Union(RecordModel),
    Exception(RecordModel),
    Service(ServiceModel),
}

impl View for Definition {
    type V = DefinitionModel;

    open spec fn view(&self) -> DefinitionModel {
        match self {
            Definition::Include(x) => DefinitionModel::Include(x@),
            Definition::CppInclude(x) => DefinitionModel::CppInclude(x@),
            Definition::Namespace(x) => DefinitionModel::Namespace(x@),
            Definition::Typedef(x) => DefinitionModel::Typedef(x@),
            Definition::Const(x) => DefinitionModel::Const(x@),
            Definition::Enum(x) => DefinitionModel::Enum(x@),
            Definition::Struct(x) => DefinitionModel::Struct(x@),
            Definition::Union(x) => DefinitionModel::Union(x@),
            Definition::Exception(x) => DefinitionModel::Exception(x@),
            Definition::Service(x) => DefinitionModel::Service(x@),
        }
    }
}

pub open spec fn empty_document() -> DocumentModel {
    DocumentModel {
        includes: Seq::empty(),
        cpp_includes: Seq::empty(),
        namespaces: Seq::empty(),
        typedefs: Seq::empty(),
        consts: Seq::empty(),
        enums: Seq::empty(),
        structs: Seq::empty(),
        unions: Seq::empty(),
        exceptions: Seq::empty(),
        services: Seq::empty(),
    }
}

/// Each list of `a` followed by the same list of `b`.
pub open spec fn concat_documents(a: DocumentModel, b: DocumentModel) -> DocumentModel {
    DocumentModel {
        includes: a.includes + b.includes,
        cpp_includes: a.cpp_includes + b.cpp_includes,
        namespaces: a.namespaces + b.namespaces,
        typedefs: a.typedefs + b.typedefs,
        consts: a.consts + b.consts,
        enums: a.enums + b.enums,
        structs: a.structs + b.structs,
        unions: a.unions + b.unions,
        exceptions: a.exceptions + b.exceptions,
        services: a.services + b.services,
    }
}

/// The document that holds `d` alone.
pub open spec fn single_document(d: DefinitionModel) -> DocumentModel {
    match d {
        DefinitionModel::Include(x) => DocumentModel { includes: seq![x], ..empty_document() },
        DefinitionModel::CppInclude(x) => DocumentModel { cpp_includes: seq![x], ..empty_document() },
        DefinitionModel::Namespace(x) => DocumentModel { namespaces: seq![x], ..empty_document() },
        DefinitionModel::Typedef(x) => DocumentModel { typedefs: seq![x], ..empty_document() },
        DefinitionModel::Const(x) => DocumentModel { consts: seq![x], ..empty_document() },
        DefinitionModel::Enum(x) => DocumentModel { enums: seq![x], ..empty_document() },
        DefinitionModel::Struct(x) => DocumentModel { structs: seq![x], ..empty_document() },
        DefinitionModel::Union(x) => DocumentModel { unions: seq![x], ..empty_document() },
        DefinitionModel::Exception(x) => DocumentModel { exceptions: seq![x], ..empty_document() },
        DefinitionModel::Service(x) => DocumentModel { services: seq![x], ..empty_document() },
    }
}

/// The first of the ten declaration kinds that matches at `p`, tried in a fixed order.
#[verifier::opaque]
pub open spec fn definition_g(s: Seq<char>, p: int) -> Option<(nat, DefinitionModel)> {
    if let Some((n, x)) = include_g(s, p) {
        Some((n, DefinitionModel::Include(x)))
    } else if let Some((n, x)) = cppinclude_g(s, p) {
        Some((n, DefinitionModel::CppInclude(x)))
    } else if let Some((n, x)) = namespace_g(s, p) {
        Some((n, DefinitionModel::Namespace(x)))
    } else if let Some((n, x)) = typedef_g(s, p) {
        Some((n, DefinitionModel::Typedef(x)))
    } else if let Some((n, x)) = const_g(s, p) {
        Some((n, DefinitionModel::Const(x)))
    } else if let Some((n, x)) = enum_g(s, p) {
        Some((n, DefinitionModel::Enum(x)))
    } else if let Some((n, x)) = record_g(s, p, "struct"@) {
        Some((n, DefinitionModel::Struct(x)))
    } else if let Some((n, x)) = record_g(s, p, "union"@) {
        Some((n, DefinitionModel::Union(x)))
    } else if let Some((n, x)) = record_g(s, p, "exception"@) {
        Some((n, DefinitionModel::Exception(x)))
    } else if let Some((n, x)) = service_g(s, p) {
        Some((n, DefinitionModel::Service(x)))
    } else {
        None
    }
}

/// A declaration with optional comments or white space before and after it.
pub open spec fn top_g(s: Seq<char>, pos: int) -> Option<(nat, DefinitionModel)> {
    let p = pos + sep_len(s, pos);
    if let Some((n, d)) = definition_g(s, p) {
        Some(((p + n + sep_len(s, p + n) - pos) as nat, d))
    } else {
        None
    }
}

/// As many declarations as match from `pos`, sorted by kind, and what they take.
pub open spec fn document_g(s: Seq<char>, pos: int) -> (nat, DocumentModel)
    decreases s.len() - pos,
{
    if let Some((n, d)) = top_g(s, pos) {
        if 0 < n && pos + n <= s.len() {
            let (m, rest) = document_g(s, pos + n);
            (n + m, concat_documents(single_document(d), rest))
        } else {
            (0, empty_document())
        }
    } else {
        (0, empty_document())
    }
}

pub open spec fn document_prefix(k: int, acc: DocumentModel, t: (nat, DocumentModel)) -> (
    nat,
    DocumentModel,
) {
    let (m, rest) = t;
    ((k + m) as nat, concat_documents(acc, rest))
}

proof fn lemma_concat_assoc(a: DocumentModel, b: DocumentModel, c: DocumentModel)
    ensures
        concat_documents(a, concat_documents(b, c)) == concat_documents(concat_documents(a, b), c),
{
    assert(a.includes + (b.includes + c.includes) =~= (a.includes + b.includes) + c.includes);
    assert(a.cpp_includes + (b.cpp_includes + c.cpp_includes) =~= (a.cpp_includes + b.cpp_includes) + c.cpp_includes);
    assert(a.namespaces + (b.namespaces + c.namespaces) =~= (a.namespaces + b.namespaces) + c.namespaces);
    assert(a.typedefs + (b.typedefs + c.typedefs) =~= (a.typedefs + b.typedefs) + c.typedefs);
    assert(a.consts + (b.consts + c.consts) =~= (a.consts + b.consts) + c.consts);
    assert(a.enums + (b.enums + c.enums) =~= (a.enums + b.enums) + c.enums);
    assert(a.structs + (b.structs + c.structs) =~= (a.structs + b.structs) + c.structs);
    assert(a.unions + (b.unions + c.unions) =~= (a.unions + b.unions) + c.unions);
    assert(a.exceptions + (b.exceptions + c.exceptions) =~= (a.exceptions + b.exceptions) + c.exceptions);
    assert(a.services + (b.services + c.services) =~= (a.services + b.services) + c.services);
}

proof fn lemma_concat_empty(a: DocumentModel)
    ensures
        concat_documents(a, empty_document()) == a,
        concat_documents(empty_document(), a) == a,
{
    assert(a.includes + Seq::empty() =~= a.includes);
    assert(Seq::empty() + a.includes =~= a.includes);
    assert(a.cpp_includes + Seq::empty() =~= a.cpp_includes);
    assert(Seq::empty() + a.cpp_includes =~= a.cpp_includes);
    assert(a.namespaces + Seq::empty() =~= a.namespaces);
    assert(Seq::empty() + a.namespaces =~= a.namespaces);
    assert(a.typedefs + Seq::empty() =~= a.typedefs);
    assert(Seq::empty() + a.typedefs =~= a.typedefs);
    assert(a.consts + Seq::empty() =~= a.consts);
    assert(Seq::empty() + a.consts =~= a.consts);
    assert(a.enums + Seq::empty() =~= a.enums);
    assert(Seq::empty() + a.enums =~= a.enums);
    assert(a.structs + Seq::empty() =~= a.structs);
    assert(Seq::empty() + a.structs =~= a.structs);
    assert(a.unions + Seq::empty() =~= a.unions);
    assert(Seq::empty() + a.unions =~= a.unions);
    assert(a.exceptions + Seq::empty() =~= a.exceptions);
    assert(Seq::empty() + a.exceptions =~= a.exceptions);
    assert(a.services + Seq::empty() =~= a.services);
    assert(Seq::empty() + a.services =~= a.services);
}

impl Definition {
    /// Parses one top-level declaration at `p`.
    pub fn parse_at(s: &Vec<char>, p: usize) -> (r: PResult<Self>)
        requires
            p <= s@.len(),
        ensures
            r is Ok <==> definition_g(s@, p as int) is Some,
            r matches Ok((q, v)) ==> p <= q <= s@.len() && definition_g(s@, p as int) == Some(
                ((q - p) as nat, v@),
            ),
            r matches Err(e) ==> e.kind == ErrorKind::Alt,
    {
        proof {
            reveal(definition_g);
        }
        if let Ok((q, x)) = Include::parse_at(s, p) {
            return Ok((q, Definition::Include(x)));
        }
        if let Ok((q, x)) = CppInclude::parse_at(s, p) {
            return Ok((q, Definition::CppInclude(x)));
        }
        if let Ok((q, x)) = Namespace::parse_at(s, p) {
            return Ok((q, Definition::Namespace(x)));
        }
        if let Ok((q, x)) = Typedef::parse_at(s, p) {
            return Ok((q, Definition::Typedef(x)));
        }
        if let Ok((q, x)) = Const::parse_at(s, p) {
            return Ok((q, Definition::Const(x)));
        }
        if let Ok((q, x)) = Enum::parse_at(s, p) {
            return Ok((q, Definition::Enum(x)));
        }
        if let Ok((q, x)) = Struct::parse_at(s, p) {
            return Ok((q, Definition::Struct(x)));
        }
        if let Ok((q, x)) = Union::parse_at(s, p) {
            return Ok((q, Definition::Union(x)));
        }
        if let Ok((q, x)) = Exception::parse_at(s, p) {
            return Ok((q, Definition::Exception(x)));
        }
        if let Ok((q, x)) = Service::parse_at(s, p) {
            return Ok((q, Definition::Service(x)));
        }
        Err(ParseError { kind: ErrorKind::Alt, pos: p })
    }
}

impl Default for Document {
    fn default() -> (r: Self)
        ensures
            r@ == empty_document(),
    {
        Document::new()
    }
}

impl Document {
    /// A document with no declarations.
    pub fn new() -> (r: Self)
        ensures
            r@ == empty_document(),
    {
        let d = Document {
            includes: Vec::new(),
            cpp_includes: Vec::new(),
            namespaces: Vec::new(),
            typedefs: Vec::new(),
            consts: Vec::new(),
            enums: Vec::new(),
            structs: Vec::new(),
            unions: Vec::new(),
            exceptions: Vec::new(),
            services: Vec::new(),
        };
        assert(d.includes@.map_values(|x: Include| x@) =~= Seq::empty());
        assert(d.cpp_includes@.map_values(|x: CppInclude| x@) =~= Seq::empty());
        assert(d.namespaces@.map_values(|x: Namespace| x@) =~= Seq::empty());
        assert(d.typedefs@.map_values(|x: Typedef| x@) =~= Seq::empty());
        assert(d.consts@.map_values(|x: Const| x@) =~= Seq::empty());
        assert(d.enums@.map_values(|x: Enum| x@) =~= Seq::empty());
        assert(d.structs@.map_values(|x: Struct| x@) =~= Seq::empty());
        assert(d.unions@.map_values(|x: Union| x@) =~= Seq::empty());
        assert(d.exceptions@.map_values(|x: Exception| x@) =~= Seq::empty());
        assert(d.services@.map_values(|x: Service| x@) =~= Seq::empty());
        d
    }

    /// Adds `d` at the end of the list of its kind.
    pub fn push(&mut self, d: Definition)
        ensures
            final(self)@ == concat_documents(old(self)@, single_document(d@)),
    {
        match d {
            Definition::Include(x) => {
                let ghost before = self.includes@;
                self.includes.push(x);
                assert(self.includes@.map_values(|y: Include| y@) =~= before.map_values(|y: Include| y@) + seq![x@]);
            },
            Definition::CppInclude(x) => {
                let ghost before = self.cpp_includes@;
                self.cpp_includes.push(x);
                assert(self.cpp_includes@.map_values(|y: CppInclude| y@) =~= before.map_values(|y: CppInclude| y@) + seq![x@]);
            },
            Definition::Namespace(x) => {
                let ghost before = self.namespaces@;
                self.namespaces.push(x);
                assert(self.namespaces@.map_values(|y: Namespace| y@) =~= before.map_values(|y: Namespace| y@) + seq![x@]);
            },
            Definition::Typedef(x) => {
                let ghost before = self.typedefs@;
                self.typedefs.push(x);
                assert(self.typedefs@.map_values(|y: Typedef| y@) =~= before.map_values(|y: Typedef| y@) + seq![x@]);
            },
            Definition::Const(x) => {
                let ghost before = self.consts@;
                self.consts.push(x);
                assert(self.consts@.map_values(|y: Const| y@) =~= before.map_values(|y: Const| y@) + seq![x@]);
            },
            Definition::Enum(x) => {
                let ghost before = self.enums@;
                self.enums.push(x);
                assert(self.enums@.map_values(|y: Enum| y@) =~= before.map_values(|y: Enum| y@) + seq![x@]);
            },
            Definition::Struct(x) => {
                let ghost before = self.structs@;
                self.structs.push(x);
                assert(self.structs@.map_values(|y: Struct| y@) =~= before.map_values(|y: Struct| y@) + seq![x@]);
            },
            Definition::Union(x) => {
                let ghost before = self.unions@;
                self.unions.push(x);
                assert(self.unions@.map_values(|y: Union| y@) =~= before.map_values(|y: Union| y@) + seq![x@]);
            },
            Definition::Exception(x) => {
                let ghost before = self.exceptions@;
                self.exceptions.push(x);
                assert(self.exceptions@.map_values(|y: Exception| y@) =~= before.map_values(|y: Exception| y@) + seq![x@]);
            },
            Definition::Service(x) => {
                let ghost before = self.services@;
                self.services.push(x);
                assert(self.services@.map_values(|y: Service| y@) =~= before.map_values(|y: Service| y@) + seq![x@]);
            },
        }
    }

    /// Parses declarations from `pos` for as long as one matches; never fails.
    pub fn parse_at(s: &Vec<char>, pos: usize) -> (r: (usize, Self))
        requires
            pos <= s@.len(),
        ensures
            pos <= r.0 <= s@.len(),
            document_g(s@, pos as int) == ((r.0 - pos) as nat, r.1@),
    {
        let mut doc = Document::new();
        let mut i = pos;
        proof {
            lemma_concat_empty(document_g(s@, pos as int).1);
        }
        loop
            invariant
                pos <= i <= s@.len(),
                document_g(s@, pos as int) == document_prefix(i - pos, doc@, document_g(s@, i as int)),
            decreases s@.len() - i,
        {
            let p = skip_sep(s, i);
            let (e, d) = match Definition::parse_at(s, p) {
                Ok(x) => x,
                Err(_) => {
                    proof {
                        lemma_concat_empty(doc@);
                    }
                    return (i, doc);
                },
            };
            let f = skip_sep(s, e);
            if f == i {
                proof {
                    lemma_concat_empty(doc@);
                }
                return (i, doc);
            }
            let ghost before = doc@;
            let ghost rest = document_g(s@, f as int).1;
            proof {
                lemma_concat_assoc(before, single_document(d@), rest);
            }
            doc.push(d);
            i = f;
        }
    }

    /// Parses a whole file: the text left over and the document.
    pub fn parse(input: &str) -> (r: Result<(String, Self), ParseError>)
        ensures
            r matches Ok((rest, v)) && document_g(input@, 0) matches (n, m) && m == v@ && rest@
                == input@.subrange(n as int, input@.len() as int),
    {
        let s = chars_of(input);
        let (q, v) = Self::parse_at(&s, 0);
        Ok((string_of(&s, q, s.len()), v))
    }
}

} // verus!
