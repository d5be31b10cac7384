use thrift_parser::basic::{Identifier, Literal};
use thrift_parser::constant::{
    parse_list_separator, ConstList, ConstMap, ConstValue, DoubleConstant, IntConstant,
};
use thrift_parser::text::ErrorKind;

fn double_of(d: &DoubleConstant) -> f64 {
    d.as_str().parse::<f64>().unwrap()
}

fn close(a: f64, b: f64) -> bool {
    (a - b).abs() <= f64::EPSILON * a.abs().max(b.abs()).max(1.0)
}

fn dbl(text: &str) -> ConstValue {
    ConstValue::Double(DoubleConstant::new(text))
}

#[test]
fn test_int_constant() {
    let inputs = ["123", "+123", "-123"];
    let expected = [123, 123, -123];
    for (i, e) in inputs.iter().zip(expected.iter()) {
        assert_eq!(IntConstant::parse(i).unwrap().1, IntConstant(*e));
    }
    for bad in ["-+123", "+-123", "+", "-", "10000000000000000000000000000000000000000000000"] {
        assert!(IntConstant::parse(bad).is_err());
    }
}

#[test]
fn test_double_constant() {
    let inputs = [
        "123.0",
        ".5",
        "-.5",
        "+123.2333333e10",
        "+123.2333333E100",
        "+123.1.THE.FOLLOWING",
        "1.1",
    ];
    let expected = [123.0, 0.5, -0.5, 123.2333333e10, 123.2333333E100, 123.1, 1.1];
    for (i, e) in inputs.iter().zip(expected.iter()) {
        let d = DoubleConstant::parse(i).unwrap().1;
        assert!(close(double_of(&d), *e), "{} gave {}", i, d.as_str());
    }
    assert!(DoubleConstant::parse("+-123.THE.FOLLOWING").is_err());
}

#[test]
fn test_const_list() {
    let l = ConstList::parse("[ 1,  3 ; 5  6/**/7 , ihciah 1.1]").unwrap().1;
    assert_eq!(
        l,
        ConstList(vec![
            ConstValue::Int(IntConstant(1)),
            ConstValue::Int(IntConstant(3)),
            ConstValue::Int(IntConstant(5)),
            ConstValue::Int(IntConstant(6)),
            ConstValue::Int(IntConstant(7)),
            ConstValue::Identifier(Identifier::new("ihciah")),
            dbl("1.1"),
        ])
    );
    let l = ConstList::parse("[6/**/7 ihciah 1.1   A ]").unwrap().1;
    assert_eq!(
        l,
        ConstList(vec![
            ConstValue::Int(IntConstant(6)),
            ConstValue::Int(IntConstant(7)),
            ConstValue::Identifier(Identifier::new("ihciah")),
            dbl("1.1"),
            ConstValue::Identifier(Identifier::new("A")),
        ])
    );
    assert_eq!(ConstList::parse("[]").unwrap().1, ConstList(vec![]));
    assert!(ConstList::parse("[1,2,3A]").is_err());
}

#[test]
fn test_const_map() {
    assert_eq!(
        ConstMap::parse("{1:2, 3:4}").unwrap().1,
        ConstMap(vec![
            (ConstValue::Int(IntConstant(1)), ConstValue::Int(IntConstant(2))),
            (ConstValue::Int(IntConstant(3)), ConstValue::Int(IntConstant(4))),
        ])
    );
    assert_eq!(ConstMap::parse("{}").unwrap().1, ConstMap(vec![]));
    assert!(ConstMap::parse("{1:34:5}").is_err());
}

#[test]
fn int_parses_as_int_not_strict_double() {
    assert_eq!(ConstValue::parse("123").unwrap().1, ConstValue::Int(IntConstant(123)));
    assert!(DoubleConstant::parse_strict("123").is_err());
    assert_eq!(DoubleConstant::parse("123").unwrap().1, DoubleConstant::new("123"));
}

#[test]
fn double_with_fraction() {
    let d = DoubleConstant::parse("123.0").unwrap().1;
    assert_eq!(double_of(&d), 123.0);
    assert_eq!(ConstValue::parse("123.0").unwrap().1, dbl("123.0"));
    assert_eq!(DoubleConstant::parse_strict("1e5").unwrap().1, DoubleConstant::new("1e5"));
}

#[test]
fn int_overflow_is_reported() {
    let e = IntConstant::parse("-10000000000000000000000000000000").unwrap_err();
    assert_eq!(e.kind, ErrorKind::Overflow);
    assert_eq!(IntConstant::parse("x").unwrap_err().kind, ErrorKind::Number);
}

#[test]
fn int_extremes() {
    assert_eq!(IntConstant::parse("9223372036854775807").unwrap().1, IntConstant(i64::MAX));
    assert_eq!(IntConstant::parse("-9223372036854775808").unwrap().1, IntConstant(i64::MIN));
    assert_eq!(IntConstant::parse("9223372036854775808").unwrap_err().kind, ErrorKind::Overflow);
    assert_eq!(IntConstant::parse("-9223372036854775809").unwrap_err().kind, ErrorKind::Overflow);
    let (rest, v) = IntConstant::parse("00042x").unwrap();
    assert_eq!(v, IntConstant(42));
    assert_eq!(rest, "x");
}

#[test]
fn list_separators_are_interchangeable() {
    let expected = ConstList(vec![
        ConstValue::Int(IntConstant(1)),
        ConstValue::Int(IntConstant(3)),
        ConstValue::Int(IntConstant(5)),
        ConstValue::Int(IntConstant(6)),
        ConstValue::Int(IntConstant(7)),
        ConstValue::Identifier(Identifier::new("x")),
        dbl("1.1"),
    ]);
    for text in [
        "[1,3;5 6 7,x 1.1]",
        "[1;3,5,6,7;x;1.1]",
        "[1 3 5 6 7 x 1.1]",
        "[ 1 , 3 ; 5 /* c */ 6 # d\n 7 , x ; 1.1 ]",
        "[1,\n3\t;5 6,7 x,1.1]",
    ] {
        assert_eq!(ConstList::parse(text).unwrap().1, expected, "{}", text);
    }
    assert_eq!(ConstList::parse("[]").unwrap().1, ConstList(vec![]));
    assert_eq!(ConstList::parse("[  ]").unwrap().1, ConstList(vec![]));
}

#[test]
fn list_trailing_separator_fails() {
    assert!(ConstList::parse("[1,]").is_err());
}

#[test]
fn const_value_kinds() {
    assert_eq!(ConstValue::parse("abc").unwrap().1, ConstValue::Identifier(Identifier::new("abc")));
    assert_eq!(ConstValue::parse("'s'").unwrap().1, ConstValue::Literal(Literal::new("s")));
    assert_eq!(
        ConstValue::parse("{'a': [1]}").unwrap().1,
        ConstValue::ConstMap(ConstMap(vec![(
            ConstValue::Literal(Literal::new("a")),
            ConstValue::List(ConstList(vec![ConstValue::Int(IntConstant(1))])),
        )]))
    );
    assert_eq!(ConstValue::parse("?").unwrap_err().kind, ErrorKind::Alt);
}

#[test]
fn list_separator_forms() {
    assert_eq!(parse_list_separator(" , x").unwrap().0, "x");
    assert_eq!(parse_list_separator(";x").unwrap().0, "x");
    assert_eq!(parse_list_separator("  x").unwrap().0, "x");
    assert!(parse_list_separator("x").is_err());
}
