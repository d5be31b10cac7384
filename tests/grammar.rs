use thrift_parser::basic::{Identifier, Literal};
use thrift_parser::constant::{ConstValue, IntConstant};
use thrift_parser::definition::{Const, Enum, EnumValue, Exception, Service, Struct, Typedef, Union};
use thrift_parser::document::Document;
use thrift_parser::field::Field;
use thrift_parser::functions::Function;
use thrift_parser::header::{CppInclude, Include, Namespace, NamespaceScope};
use thrift_parser::types::{CppType, FieldType};

fn get_user() -> Function {
    Function {
        oneway: false,
        returns: Some(FieldType::String),
        name: Identifier::new("GetUser"),
        parameters: vec![Field {
            id: None,
            required: Some(true),
            type_: FieldType::String,
            name: Identifier::new("name"),
            default: None,
        }],
        exceptions: None,
    }
}

fn user_fields() -> Vec<Field> {
    vec![
        Field {
            id: Some(IntConstant(1)),
            required: Some(false),
            type_: FieldType::String,
            name: Identifier::new("name"),
            default: None,
        },
        Field {
            id: Some(IntConstant(2)),
            required: None,
            type_: FieldType::I32,
            name: Identifier::new("age"),
            default: Some(ConstValue::Int(IntConstant(18))),
        },
    ]
}

#[test]
fn test_cpp_type() {
    assert_eq!(CppType::parse("cpp_type \"MINI-LUST\"").unwrap().1, CppType(Literal::new("MINI-LUST")));
    assert_eq!(CppType::parse("cpp_type 'ihciah'").unwrap().1, CppType(Literal::new("ihciah")));
}

#[test]
fn test_field_type() {
    assert_eq!(FieldType::parse("bool").unwrap().1, FieldType::Bool);
    assert_eq!(FieldType::parse("i16").unwrap().1, FieldType::I16);
    let m = FieldType::MapOf(Box::new(FieldType::Bool), Box::new(FieldType::Bool));
    assert_eq!(FieldType::parse("map <bool, bool>").unwrap().1, m);
    let m = FieldType::MapOf(Box::new(FieldType::Bool), Box::new(FieldType::Bool));
    assert_eq!(FieldType::parse("map<bool,bool>").unwrap().1, m);
    assert_eq!(FieldType::parse("set <bool>").unwrap().1, FieldType::SetOf(Box::new(FieldType::Bool)));
    assert_eq!(FieldType::parse("set<bool>").unwrap().1, FieldType::SetOf(Box::new(FieldType::Bool)));
    assert_eq!(FieldType::parse("list <bool>").unwrap().1, FieldType::List(Box::new(FieldType::Bool)));
    assert_eq!(FieldType::parse("list<bool>").unwrap().1, FieldType::List(Box::new(FieldType::Bool)));
    assert_eq!(
        FieldType::parse("ihc_iah").unwrap().1,
        FieldType::Identifier(Identifier::new("ihc_iah"))
    );
}

#[test]
fn test_field() {
    let expected = || Field {
        id: None,
        required: Some(true),
        type_: FieldType::String,
        name: Identifier::new("name"),
        default: Some(ConstValue::Literal(Literal::new("ihciah"))),
    };
    assert_eq!(Field::parse("required  string  name  =  'ihciah'").unwrap().1, expected());
    assert_eq!(Field::parse("required string name='ihciah';").unwrap().1, expected());
    let expected = || Field {
        id: Some(IntConstant(3)),
        required: Some(true),
        type_: FieldType::String,
        name: Identifier::new("name"),
        default: Some(ConstValue::Literal(Literal::new("ihciah"))),
    };
    assert_eq!(Field::parse("3 : required  string  name  =  'ihciah'").unwrap().1, expected());
    assert_eq!(Field::parse("3:required string name='ihciah';").unwrap().1, expected());
}

#[test]
fn test_function() {
    let expected = Function {
        oneway: false,
        returns: Some(FieldType::String),
        name: Identifier::new("GetUser"),
        parameters: vec![Field {
            id: None,
            required: Some(true),
            type_: FieldType::String,
            name: Identifier::new("name"),
            default: Some(ConstValue::Literal(Literal::new("ihciah"))),
        }],
        exceptions: None,
    };
    assert_eq!(Function::parse("string GetUser(required string name='ihciah')").unwrap().1, expected);
    let expected = Function {
        oneway: true,
        returns: None,
        name: Identifier::new("DeleteUser"),
        parameters: vec![Field {
            id: Some(IntConstant(10086)),
            required: Some(false),
            type_: FieldType::I32,
            name: Identifier::new("age"),
            default: None,
        }],
        exceptions: None,
    };
    assert_eq!(Function::parse("oneway void DeleteUser(10086:optional i32 age)").unwrap().1, expected);
}

#[test]
fn test_const() {
    assert_eq!(
        Const::parse("const bool is_rust_easy = 'yes!';").unwrap().1,
        Const {
            name: Identifier::new("is_rust_easy"),
            type_: FieldType::Bool,
            value: ConstValue::Literal(Literal::new("yes!")),
        }
    );
}

#[test]
fn test_typedef() {
    assert_eq!(
        Typedef::parse("typedef i32 MyI32").unwrap().1,
        Typedef { old: FieldType::I32, alias: Identifier::new("MyI32") }
    );
}

#[test]
fn test_enum() {
    let expected = Enum {
        name: Identifier::new("PL"),
        children: vec![
            EnumValue { name: Identifier::new("Rust"), value: None },
            EnumValue { name: Identifier::new("Go"), value: Some(IntConstant(2)) },
            EnumValue { name: Identifier::new("Cpp"), value: Some(IntConstant(3)) },
        ],
    };
    assert_eq!(Enum::parse("enum PL { Rust Go=2 , Cpp = 3 }").unwrap().1, expected);
    assert_eq!(Enum::parse("enum PL{Rust Go=2,Cpp=3}").unwrap().1, expected);
}

#[test]
fn test_struct() {
    let expected = Struct { name: Identifier::new("user"), fields: user_fields() };
    assert_eq!(Struct::parse("struct user{1:optional string name; 2:i32 age=18}").unwrap().1, expected);
    let expected = Struct { name: Identifier::new("user"), fields: user_fields() };
    assert_eq!(
        Struct::parse("struct user { 1 : optional string name ; 2 : i32 age = 18 }").unwrap().1,
        expected
    );
}

#[test]
fn test_service() {
    let expected = Service {
        name: Identifier::new("DemoService"),
        extension: Some(Identifier::new("BaseService")),
        functions: vec![get_user(), get_user()],
    };
    assert_eq!(
        Service::parse(
            "service DemoService extends BaseService { \
         string GetUser(required string name),
         string GetUser(required string name) }"
        )
        .unwrap()
        .1,
        expected
    );
}

#[test]
fn test_include() {
    assert_eq!(
        Include::parse("include 'another.thrift'").unwrap().1,
        Include(Literal::new("another.thrift"))
    );
}

#[test]
fn test_namespace() {
    assert_eq!(
        Namespace::parse("namespace * MyNamespace").unwrap().1,
        Namespace { scope: NamespaceScope::new("*"), name: Identifier::new("MyNamespace") }
    );
}

#[test]
fn test_document() {
    let mut expected = Document::new();
    expected.includes.push(Include(Literal::new("another.thrift")));
    assert_eq!(Document::parse("include 'another.thrift'").unwrap().1, expected);
}

#[test]
fn nested_containers() {
    let expected = FieldType::MapOf(
        Box::new(FieldType::String),
        Box::new(FieldType::List(Box::new(FieldType::SetOf(Box::new(FieldType::I32))))),
    );
    assert_eq!(FieldType::parse("map<string,list<set<i32>>>").unwrap().1, expected);
    let (rest, _) = FieldType::parse("map < string , list < set < i32 > > > x").unwrap();
    assert_eq!(rest, " x");
}

#[test]
fn container_cpp_type_is_dropped() {
    assert_eq!(
        FieldType::parse("map cpp_type 'std::map' <i8, i64>").unwrap().1,
        FieldType::MapOf(Box::new(FieldType::I8), Box::new(FieldType::I64))
    );
    assert_eq!(
        FieldType::parse("list<byte> cpp_type 'v'").unwrap(),
        (String::new(), FieldType::List(Box::new(FieldType::Byte)))
    );
}

#[test]
fn keyword_is_base_type() {
    assert_eq!(FieldType::parse("bool").unwrap().1, FieldType::Bool);
    assert_eq!(FieldType::parse_base_type("binary x").unwrap().1, FieldType::Binary);
    assert!(FieldType::parse_identifier_type("1x").is_err());
}

#[test]
fn keyword_prefix_is_a_name() {
    assert_eq!(
        FieldType::parse("boolean").unwrap().1,
        FieldType::Identifier(Identifier::new("boolean"))
    );
    let f = Field::parse("1: boolean flag").unwrap().1;
    assert_eq!(f.type_, FieldType::Identifier(Identifier::new("boolean")));
    assert!(FieldType::parse_base_type("boolean").is_err());
    assert!(FieldType::parse_container_type("mapping").is_err());
}

#[test]
fn struct_round_trip_compact() {
    let spaced = Struct::parse("struct user { 1 : optional string name ; 2 : i32 age = 18 }").unwrap().1;
    let compact = Struct::parse("struct user{1:optional string name;\n2:i32 age=18}").unwrap().1;
    assert_eq!(spaced, compact);
    assert_eq!(compact.fields.len(), 2);
}

#[test]
fn typedef_rejects_bare_name() {
    assert!(Typedef::parse("typedef Foo Bar").is_err());
    assert_eq!(
        Typedef::parse("typedef list<Foo> Bar").unwrap().1,
        Typedef {
            old: FieldType::List(Box::new(FieldType::Identifier(Identifier::new("Foo")))),
            alias: Identifier::new("Bar"),
        }
    );
}

#[test]
fn union_exception_cpp_include() {
    assert_eq!(
        Union::parse("union U { 1: i8 a }").unwrap().1,
        Union {
            name: Identifier::new("U"),
            fields: vec![Field {
                id: Some(IntConstant(1)),
                required: None,
                type_: FieldType::I8,
                name: Identifier::new("a"),
                default: None,
            }],
        }
    );
    assert_eq!(
        Exception::parse("exception E {}").unwrap().1,
        Exception { name: Identifier::new("E"), fields: vec![] }
    );
    assert_eq!(
        CppInclude::parse("cpp_include \"a.h\"").unwrap().1,
        CppInclude(Literal::new("a.h"))
    );
}

#[test]
fn function_with_throws() {
    let f = Function::parse("void Ping() throws (1: Err e);").unwrap();
    assert_eq!(f.0, "");
    assert_eq!(f.1.returns, None);
    assert_eq!(
        f.1.exceptions,
        Some(vec![Field {
            id: Some(IntConstant(1)),
            required: None,
            type_: FieldType::Identifier(Identifier::new("Err")),
            name: Identifier::new("e"),
            default: None,
        }])
    );
}

#[test]
fn document_sorts_by_kind() {
    let text = "namespace rust demo\n// note\ninclude 'a.thrift'\nconst i32 X = 1\nstruct S { 1: i32 a }\ninclude 'b.thrift'\nservice Svc { void Ping() }\n  ";
    let (rest, doc) = Document::parse(text).unwrap();
    assert_eq!(rest, "");
    assert_eq!(
        doc.includes,
        vec![Include(Literal::new("a.thrift")), Include(Literal::new("b.thrift"))]
    );
    assert_eq!(doc.namespaces.len(), 1);
    assert_eq!(doc.consts.len(), 1);
    assert_eq!(doc.structs.len(), 1);
    assert_eq!(doc.services.len(), 1);
    assert!(doc.enums.is_empty());
}

#[test]
fn document_stops_at_malformed() {
    let (rest, doc) = Document::parse("include 'a'\nstruct {").unwrap();
    assert_eq!(rest, "struct {");
    assert_eq!(doc.includes.len(), 1);
    let (rest, doc) = Document::parse("").unwrap();
    assert_eq!(rest, "");
    assert_eq!(doc, Document::new());
}

#[test]
fn namespace_scopes() {
    assert_eq!(
        Namespace::parse("namespace py.twisted a.b").unwrap().1.scope,
        NamespaceScope::new("py.twisted")
    );
    assert!(Namespace::parse("namespace cobol X").is_err());
    assert_eq!(NamespaceScope::parse("go x").unwrap().1, NamespaceScope::new("go"));
}

#[test]
fn document_default_is_empty() {
    let d = Document::default();
    assert_eq!(d, Document::new());
    assert!(d.includes.is_empty() && d.services.is_empty() && d.typedefs.is_empty());
}

#[test]
fn struct_fields_without_punctuation() {
    let expected = || Struct { name: Identifier::new("user"), fields: user_fields() };
    assert_eq!(Struct::parse("struct user{1:optional string name;2:i32 age=18}").unwrap(), (String::new(), expected()));
    assert_eq!(Struct::parse("struct user{1:optional string name 2:i32 age=18}").unwrap(), (String::new(), expected()));
    assert_eq!(
        Struct::parse("struct user {\n  1: optional string name\n  2: i32 age = 18\n}").unwrap(),
        (String::new(), expected())
    );
}

#[test]
fn exception_fields_separated_by_blanks() {
    let field = |n: &str| Field {
        id: None,
        required: None,
        type_: FieldType::I8,
        name: Identifier::new(n),
        default: None,
    };
    assert_eq!(
        Exception::parse("exception E {i8 a i8 b}").unwrap().1,
        Exception { name: Identifier::new("E"), fields: vec![field("a"), field("b")] }
    );
    assert_eq!(
        Struct::parse("struct S{i8 a i8 b}").unwrap().1,
        Struct { name: Identifier::new("S"), fields: vec![field("a"), field("b")] }
    );
}

#[test]
fn service_functions_one_per_line() {
    let ping = |n: &str| Function {
        oneway: false,
        returns: None,
        name: Identifier::new(n),
        parameters: vec![],
        exceptions: None,
    };
    assert_eq!(
        Service::parse("service S { void a() void b() }").unwrap().1,
        Service { name: Identifier::new("S"), extension: None, functions: vec![ping("a"), ping("b")] }
    );
    assert_eq!(
        Service::parse("service S {\n  void a()\n  void b()\n}").unwrap().1,
        Service { name: Identifier::new("S"), extension: None, functions: vec![ping("a"), ping("b")] }
    );
}

#[test]
fn nested_containers_with_names() {
    let expected = FieldType::MapOf(
        Box::new(FieldType::Identifier(Identifier::new("Foo"))),
        Box::new(FieldType::List(Box::new(FieldType::SetOf(Box::new(FieldType::Identifier(
            Identifier::new("map_1"),
        )))))),
    );
    assert_eq!(FieldType::parse("map<Foo,list<set<map_1>>>").unwrap(), (String::new(), expected));
    assert_eq!(
        FieldType::parse("list<boolean>").unwrap().1,
        FieldType::List(Box::new(FieldType::Identifier(Identifier::new("boolean"))))
    );
}
