use witx::error::{write_decimal, ErrorKind, LoadError};
use witx::load::{load, Source};

fn report(texts: &[(&str, &str)]) -> String {
    let sources: Vec<Source> = texts
        .iter()
        .map(|(name, text)| Source { name: name.to_string(), text: text.to_string() })
        .collect();
    load(&sources).expect_err("the load fails").report()
}

fn decimal(n: u128) -> String {
    let mut out = String::from("n=");
    write_decimal(&mut out, n);
    out
}

#[test]
fn numbers_are_written_in_decimal() {
    assert_eq!(decimal(0), "n=0");
    assert_eq!(decimal(7), "n=7");
    assert_eq!(decimal(10), "n=10");
    assert_eq!(decimal(1234567890), "n=1234567890");
    assert_eq!(decimal(u128::MAX), "n=340282366920938463463374607431768211455");
}

#[test]
fn lexical_errors_are_reported() {
    assert_eq!(
        report(&[("a.witx", "record a {\n  x: # }")]),
        "a.witx:2:6: unexpected character `#`"
    );
    assert_eq!(report(&[("a.witx", "use \"abc")]), "a.witx:1:5: string without an end");
    assert_eq!(report(&[("a.witx", "\n\n/* abc")]), "a.witx:3:1: comment without an end");
}

#[test]
fn syntax_errors_are_reported() {
    assert_eq!(report(&[("a.witx", "record { }")]), "a.witx:1:8: found `{`, expected a name");
    assert_eq!(
        report(&[("a.witx", "record a { x: u8 y: u8 }")]),
        "a.witx:1:18: found a name, expected `,` or `}`"
    );
    assert_eq!(
        report(&[("ok.witx", "record a {}"), ("bad.witx", "record a {}\n12")]),
        "bad.witx:2:1: found a number, expected `module` or `use` or `typename` or `record` or `variant` or `interface` or a documentation comment or the end of the text"
    );
    assert_eq!(
        report(&[("a.witx", "interface i { func f() -> ")]),
        "a.witx:1:27: found the end of the text, expected a name"
    );
    assert_eq!(
        report(&[("a.witx", "interface i { /// d\n \"s\" }")]),
        "a.witx:2:2: found a string, expected `func` or a documentation comment"
    );
    assert_eq!(
        report(&[("a.witx", "typename a = list<u8 ->")]),
        "a.witx:1:22: found `->`, expected `>`"
    );
}

#[test]
fn duplicate_definitions_are_reported() {
    assert_eq!(
        report(&[("a.witx", "module m\nrecord a {}"), ("b.witx", "module m\n\n  variant a {}")]),
        "b.witx:3:11: duplicate definition of `m.a`, first defined at a.witx:2:8"
    );
}

#[test]
fn duplicate_functions_are_reported() {
    assert_eq!(
        report(&[("a.witx", "module m\ninterface i {\n  func f()\n  func g()\n  func f()\n}")]),
        "a.witx:5:8: duplicate definition of `m.i.f`, first defined at a.witx:3:8"
    );
}

#[test]
fn undefined_names_are_reported() {
    assert_eq!(
        report(&[("foo.witx", "typename foo = bar")]),
        "foo.witx:1:16: undefined name `bar`"
    );
    assert_eq!(
        report(&[("foo.witx", "record r { x: list<geo.point> }")]),
        "foo.witx:1:20: undefined name `geo.point`"
    );
}

#[test]
fn cyclic_definitions_are_reported() {
    assert_eq!(
        report(&[("a.witx", "record a { x: b }\nrecord b { y: a }")]),
        "cyclic definition: a -> b -> a"
    );
    assert_eq!(report(&[("a.witx", "record a { x: a }")]), "cyclic definition: a -> a");
}

#[test]
fn type_mismatches_are_reported() {
    assert_eq!(
        report(&[("a.witx", "typename a = list")]),
        "a.witx:1:14: `list` is a type constructor, expected a type of data"
    );
    assert_eq!(
        report(&[("a.witx", "interface i {}\nrecord r { x: i }")]),
        "a.witx:2:15: `i` is an interface, expected a type of data"
    );
    assert_eq!(
        report(&[("a.witx", "record r {}\nvariant v {}\ntypename t = u8\ntypename a = r<u8>")]),
        "a.witx:4:14: `r` is a record, expected a type constructor"
    );
    assert_eq!(
        report(&[("a.witx", "variant v {}\ntypename a = v<u8>")]),
        "a.witx:2:14: `v` is a variant, expected a type constructor"
    );
    assert_eq!(
        report(&[("a.witx", "typename t = u8\ntypename a = t<bool<u8>>")]),
        "a.witx:2:14: `t` is a type alias, expected a type constructor"
    );
    assert_eq!(
        report(&[("a.witx", "typename a = list<bool<u8>>")]),
        "a.witx:1:19: `bool` is a built-in type, expected a type constructor"
    );
}

#[test]
fn a_location_in_no_source_is_reported_as_unknown() {
    let error = LoadError {
        kind: ErrorKind::UndefinedName {
            name: "x".to_string(),
            location: witx::token::Location { source: 3, offset: 0, line: 9, column: 0 },
        },
        sources: vec!["only.witx".to_string()],
    };
    assert_eq!(error.report(), "<unknown>:10:1: undefined name `x`");
}

#[test]
fn an_empty_path_is_reported_empty() {
    let error = LoadError { kind: ErrorKind::CyclicDefinition { path: Vec::new() }, sources: Vec::new() };
    assert_eq!(error.report(), "cyclic definition: ");
}
