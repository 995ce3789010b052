use witx::error::ErrorKind;
use witx::load::parse_source;
use witx::parser::Expectation;
use witx::syntax::{DeclKind, SyntaxTree};
use witx::token::{Keyword, Punct, TokenKind};

fn tree(text: &str) -> SyntaxTree {
    parse_source(0, text).expect("parses")
}

fn syntax_error(text: &str) -> (Expectation, TokenKind, usize) {
    match parse_source(0, text) {
        Err(ErrorKind::Syntax(e)) => {
            assert_eq!(e.location.offset, e.found.start);
            assert_eq!(e.location.line, e.found.line);
            assert_eq!(e.location.column, e.found.column);
            (e.expected, e.found.kind, e.found.start)
        }
        other => panic!("expected a syntax error, got {:?}", other),
    }
}

#[test]
fn empty_source_has_no_declarations() {
    let t = tree("  // nothing\n");
    assert_eq!(t.declarations.len(), 0);
    assert_eq!(t.trailing_doc, None);
}

#[test]
fn record_has_its_fields_in_order() {
    let t = tree("record point { x: u32, y: u32 }");
    assert_eq!(t.declarations.len(), 1);
    let d = &t.declarations[0];
    assert_eq!(d.kind, DeclKind::Record);
    assert_eq!(d.name, "point");
    assert_eq!(d.doc, None);
    assert!(d.target.is_none());
    assert_eq!(d.functions.len(), 0);
    assert_eq!(d.location.offset, 7);
    let names: Vec<&str> = d.members.iter().map(|m| m.name.as_str()).collect();
    assert_eq!(names, vec!["x", "y"]);
    let x = d.members[0].ty.as_ref().expect("x has a type");
    assert_eq!(x.names.len(), 1);
    assert_eq!(x.names[0].name, "u32");
    assert_eq!(x.names[0].module, None);
    assert_eq!(x.names[0].location.offset, 18);
    assert_eq!(d.members[1].location.offset, 23);
}

#[test]
fn trailing_comma_and_empty_record_are_accepted() {
    let t = tree("record a { x: u8, }\nrecord b {}");
    assert_eq!(t.declarations.len(), 2);
    assert_eq!(t.declarations[0].members.len(), 1);
    assert_eq!(t.declarations[1].members.len(), 0);
}

#[test]
fn typename_has_a_target() {
    let t = tree("typename ids = list<pointer<geo.point>>");
    let d = &t.declarations[0];
    assert_eq!(d.kind, DeclKind::Typename);
    assert_eq!(d.name, "ids");
    let target = d.target.as_ref().expect("a target");
    let names: Vec<(Option<&str>, &str)> =
        target.names.iter().map(|n| (n.module.as_deref(), n.name.as_str())).collect();
    assert_eq!(names, vec![(None, "list"), (None, "pointer"), (Some("geo"), "point")]);
    assert_eq!(target.names[2].location.offset, 28);
}

#[test]
fn variant_arms_may_go_without_a_type() {
    let t = tree("variant shape { circle: u32, empty, square: list<u8> }");
    let d = &t.declarations[0];
    assert_eq!(d.kind, DeclKind::Variant);
    assert_eq!(d.members.len(), 3);
    assert!(d.members[0].ty.is_some());
    assert!(d.members[1].ty.is_none());
    assert_eq!(d.members[1].name, "empty");
    assert_eq!(d.members[2].ty.as_ref().unwrap().names.len(), 2);
}

#[test]
fn interface_has_its_functions() {
    let t = tree(
        "interface draw {\n  /// Draws a line.\n  func line(a: point, b: point) -> bool\n  func clear()\n}",
    );
    let d = &t.declarations[0];
    assert_eq!(d.kind, DeclKind::Interface);
    assert_eq!(d.name, "draw");
    assert_eq!(d.functions.len(), 2);
    let line = &d.functions[0];
    assert_eq!(line.name, "line");
    assert_eq!(line.doc.as_deref(), Some("Draws a line."));
    assert_eq!(line.params.len(), 2);
    assert_eq!(line.params[1].name, "b");
    assert_eq!(line.result.as_ref().unwrap().names[0].name, "bool");
    let clear = &d.functions[1];
    assert_eq!(clear.name, "clear");
    assert_eq!(clear.doc, None);
    assert_eq!(clear.params.len(), 0);
    assert!(clear.result.is_none());
}

#[test]
fn module_and_use_are_declarations() {
    let t = tree("module geo\nuse shapes\nrecord a {}");
    let kinds: Vec<DeclKind> = t.declarations.iter().map(|d| d.kind).collect();
    assert_eq!(kinds, vec![DeclKind::Module, DeclKind::Use, DeclKind::Record]);
    assert_eq!(t.declarations[0].name, "geo");
    assert_eq!(t.declarations[1].name, "shapes");
}

#[test]
fn documentation_is_attached_to_what_follows() {
    let t = tree("/// A point.\n///  In the plane.\n///\n///no blank\nrecord point {}\n/// The end.\n");
    assert_eq!(
        t.declarations[0].doc.as_deref(),
        Some("A point.\n In the plane.\n\nno blank")
    );
    assert_eq!(t.trailing_doc.as_deref(), Some("The end."));
}

#[test]
fn declaration_must_begin_with_a_keyword() {
    assert_eq!(
        syntax_error("point { }"),
        (Expectation::Declaration, TokenKind::Identifier, 0)
    );
    assert_eq!(
        syntax_error("record a {} }"),
        (Expectation::Declaration, TokenKind::Punct(Punct::RightBrace), 12)
    );
    assert_eq!(syntax_error("func f()"), (Expectation::Declaration, TokenKind::Keyword(Keyword::Func), 0));
    assert_eq!(syntax_error("/// doc\n42"), (Expectation::Declaration, TokenKind::Integer, 8));
}

#[test]
fn declaration_needs_a_name() {
    assert_eq!(syntax_error("record { }"), (Expectation::Name, TokenKind::Punct(Punct::LeftBrace), 7));
    assert_eq!(syntax_error("module"), (Expectation::Name, TokenKind::End, 6));
    assert_eq!(
        syntax_error("typename record = u8"),
        (Expectation::Name, TokenKind::Keyword(Keyword::Record), 9)
    );
    assert_eq!(syntax_error("use \"file\""), (Expectation::Name, TokenKind::Str, 4));
}

#[test]
fn typename_needs_an_equals_sign_and_a_type() {
    assert_eq!(syntax_error("typename a u8"), (Expectation::Equals, TokenKind::Identifier, 11));
    assert_eq!(syntax_error("typename a ="), (Expectation::Type, TokenKind::End, 12));
    assert_eq!(syntax_error("typename a = 8"), (Expectation::Type, TokenKind::Integer, 13));
}

#[test]
fn angle_brackets_must_match() {
    assert_eq!(syntax_error("typename a = list<u8"), (Expectation::RightAngle, TokenKind::End, 20));
    assert_eq!(
        syntax_error("typename a = list<list<u8> record"),
        (Expectation::RightAngle, TokenKind::Keyword(Keyword::Record), 27)
    );
    assert_eq!(
        syntax_error("typename a = list<>"),
        (Expectation::Type, TokenKind::Punct(Punct::RightAngle), 18)
    );
    assert_eq!(
        syntax_error("typename a = u8>"),
        (Expectation::Declaration, TokenKind::Punct(Punct::RightAngle), 15)
    );
}

#[test]
fn qualified_name_needs_a_name_behind_the_dot() {
    assert_eq!(syntax_error("typename a = geo."), (Expectation::Name, TokenKind::End, 17));
}

#[test]
fn record_errors_name_what_was_expected() {
    assert_eq!(syntax_error("record a x"), (Expectation::LeftBrace, TokenKind::Identifier, 9));
    assert_eq!(syntax_error("record a { 1 }"), (Expectation::MemberOrBrace, TokenKind::Integer, 11));
    assert_eq!(syntax_error("record a { x }"), (Expectation::Colon, TokenKind::Punct(Punct::RightBrace), 13));
    assert_eq!(syntax_error("record a { x: u8 y: u8 }"), (Expectation::SeparatorOrBrace, TokenKind::Identifier, 17));
    assert_eq!(syntax_error("record a { x: u8"), (Expectation::SeparatorOrBrace, TokenKind::End, 16));
    assert_eq!(syntax_error("record a { , }"), (Expectation::MemberOrBrace, TokenKind::Punct(Punct::Comma), 11));
}

#[test]
fn variant_errors_name_what_was_expected() {
    assert_eq!(syntax_error("variant a { x y }"), (Expectation::ArmContinuation, TokenKind::Identifier, 14));
    assert_eq!(syntax_error("variant a { x: u8 y }"), (Expectation::SeparatorOrBrace, TokenKind::Identifier, 18));
}

#[test]
fn interface_errors_name_what_was_expected() {
    assert_eq!(syntax_error("interface a { x }"), (Expectation::FunctionOrBrace, TokenKind::Identifier, 14));
    assert_eq!(
        syntax_error("interface a { /// doc\n }"),
        (Expectation::Function, TokenKind::Punct(Punct::RightBrace), 23)
    );
    assert_eq!(syntax_error("interface a { func f }"), (Expectation::LeftParen, TokenKind::Punct(Punct::RightBrace), 21));
    assert_eq!(syntax_error("interface a { func f(1) }"), (Expectation::ParameterOrParen, TokenKind::Integer, 21));
    assert_eq!(
        syntax_error("interface a { func f(x: u8 y: u8) }"),
        (Expectation::SeparatorOrParen, TokenKind::Identifier, 27)
    );
    assert_eq!(
        syntax_error("interface a { func f() -> }"),
        (Expectation::Type, TokenKind::Punct(Punct::RightBrace), 26)
    );
    assert_eq!(syntax_error("interface a { func f()"), (Expectation::FunctionOrBrace, TokenKind::End, 22));
}

#[test]
fn expectation_lists_the_accepted_tokens() {
    assert_eq!(
        Expectation::ArmContinuation.token_kinds(),
        vec![
            TokenKind::Punct(Punct::Colon),
            TokenKind::Punct(Punct::Comma),
            TokenKind::Punct(Punct::RightBrace),
        ]
    );
    assert_eq!(Expectation::Name.token_kinds(), vec![TokenKind::Identifier]);
    assert_eq!(Expectation::Declaration.token_kinds().len(), 8);
    assert_eq!(
        Expectation::Function.token_kinds(),
        vec![TokenKind::Keyword(Keyword::Func), TokenKind::Comment]
    );
}

#[test]
fn lexical_error_comes_before_syntax_error() {
    match parse_source(2, "point { # }") {
        Err(ErrorKind::Lex(e)) => {
            assert_eq!(e.location.source, 2);
            assert_eq!(e.location.offset, 8);
        }
        other => panic!("expected a lexical error, got {:?}", other),
    }
}

#[test]
fn declaration_spans_from_its_keyword_to_its_last_token() {
    let t = tree("/// doc\nrecord a { x: u8 }\n  typename b = list<u8>\nmodule m use n");
    let spans: Vec<(usize, usize)> = t.declarations.iter().map(|d| (d.span.start, d.span.end)).collect();
    assert_eq!(spans, vec![(8, 26), (29, 50), (51, 59), (60, 65)]);
}
