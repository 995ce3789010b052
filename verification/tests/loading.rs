use witx::error::ErrorKind;
use witx::load::{load, Source};
use witx::model::{Class, Constructor, DefinitionKind, Primitive, Role, Target};

fn source(name: &str, text: &str) -> Source {
    Source { name: name.to_string(), text: text.to_string() }
}

fn one(text: &str) -> Vec<Source> {
    vec![source("input.witx", text)]
}

fn failure(sources: &Vec<Source>) -> ErrorKind {
    let error = load(sources).expect_err("the load fails");
    let names: Vec<&str> = sources.iter().map(|s| s.name.as_str()).collect();
    assert_eq!(error.sources, names);
    error.kind
}

#[test]
fn record_point_loads_and_renders() {
    let sources = vec![source("point.witx", "record point { x: u32, y: u32 }")];
    let document = load(&sources).expect("the record loads");
    assert_eq!(document.definition_count(), 1);
    let text = document.to_text();
    assert_eq!(text, "# Module\n\n## point\n\nRecord\n\n- `x: u32`\n- `y: u32`\n\n");
    let title = text.find("## point\n").expect("a section titled point");
    let x = text.find("x: u32").expect("field x");
    let y = text.find("y: u32").expect("field y");
    assert!(title < x && x < y);
}

#[test]
fn typename_of_undefined_name_fails() {
    let sources = vec![source("foo.witx", "typename foo = bar")];
    let error = load(&sources).expect_err("bar is not defined");
    match error.kind {
        ErrorKind::UndefinedName { name, location } => {
            assert_eq!(name, "bar");
            assert_eq!(location.source, 0);
            assert_eq!(location.offset, 15);
            assert_eq!(location.line, 0);
            assert_eq!(location.column, 15);
        }
        other => panic!("unexpected error {:?}", other),
    }
}

#[test]
fn no_sources_load_into_an_empty_document() {
    let document = load(&Vec::new()).expect("nothing to fail");
    assert_eq!(document.definition_count(), 0);
    assert_eq!(document.modules().len(), 0);
    assert_eq!(document.docs().len(), 0);
    assert_eq!(document.to_text(), "");
}

#[test]
fn definition_count_is_the_number_of_declarations() {
    let sources = vec![
        source("a.witx", "record a {}\ntypename b = a\nvariant c { x, y }"),
        source("b.witx", "interface d {}\nrecord e { f: list<a> }"),
    ];
    let document = load(&sources).expect("loads");
    assert_eq!(document.definition_count(), 5);
    assert_eq!(document.definitions().len(), 5);
}

#[test]
fn module_and_use_declarations_define_nothing() {
    let sources = vec![
        source("a.witx", "module geo\nrecord point {}\nmodule art\nuse geo\nrecord line { a: geo.point }"),
    ];
    let document = load(&sources).expect("loads");
    assert_eq!(document.definition_count(), 2);
}

#[test]
fn definitions_stand_in_declaration_order() {
    let sources = vec![
        source("a.witx", "record a {}\nmodule m\nrecord b {}"),
        source("b.witx", "record c {}\nmodule m\nrecord d {}"),
    ];
    let document = load(&sources).expect("loads");
    let names: Vec<&str> = document.definitions().iter().map(|d| d.qualified.as_str()).collect();
    assert_eq!(names, vec!["a", "m.b", "c", "m.d"]);
    let modules: Vec<&str> = document.modules().iter().map(|m| m.name.as_str()).collect();
    assert_eq!(modules, vec!["", "m"]);
    assert_eq!(document.definitions_in(0), vec![0, 2]);
    assert_eq!(document.definitions_in(1), vec![1, 3]);
    assert_eq!(document.definitions_in(2), Vec::<usize>::new());
    let kinds: Vec<usize> = document.definitions().iter().map(|d| d.module).collect();
    assert_eq!(kinds, vec![0, 1, 0, 1]);
    assert_eq!(document.definitions()[3].location.source, 1);
}

#[test]
fn lookup_finds_definitions_by_qualified_name() {
    let sources = one("record a {}\nmodule m\nrecord a {}\ntypename b = a");
    let document = load(&sources).expect("loads");
    assert_eq!(document.lookup("a"), Some(0));
    assert_eq!(document.lookup("m.a"), Some(1));
    assert_eq!(document.lookup("m.b"), Some(2));
    assert_eq!(document.lookup("b"), None);
    assert_eq!(document.lookup("m"), None);
    assert_eq!(document.lookup(""), None);
    let found = document.definition(2).expect("the third definition");
    assert_eq!(found.name, "b");
    assert_eq!(found.kind, DefinitionKind::TypeAlias);
    assert!(document.definition(3).is_none());
}

#[test]
fn references_are_linked_to_definitions() {
    let sources = one("record a { x: list<pointer<b>>, y: u64, z: option<string> }\nrecord b {}");
    let document = load(&sources).expect("loads");
    let a = document.definition(0).unwrap();
    let x: Vec<Target> = a.members[0].ty.as_ref().unwrap().chain.iter().map(|r| r.target).collect();
    assert_eq!(
        x,
        vec![
            Target::Constructor(Constructor::List),
            Target::Constructor(Constructor::Pointer),
            Target::Definition(1),
        ]
    );
    let y: Vec<Target> = a.members[1].ty.as_ref().unwrap().chain.iter().map(|r| r.target).collect();
    assert_eq!(y, vec![Target::Primitive(Primitive::U64)]);
    let z = &a.members[2].ty.as_ref().unwrap().chain;
    assert_eq!(z[0].target, Target::Constructor(Constructor::Option));
    assert_eq!(z[1].target, Target::Primitive(Primitive::Text));
    assert_eq!(z[1].location.offset, 50);
}

#[test]
fn every_built_in_name_is_known() {
    let sources = one(
        "record all { a: u8, b: u16, c: u32, d: u64, e: s8, f: s16, g: s32, h: s64, i: bool, j: char, k: string }",
    );
    let document = load(&sources).expect("loads");
    let targets: Vec<Target> = document.definitions()[0]
        .members
        .iter()
        .map(|m| m.ty.as_ref().unwrap().chain[0].target)
        .collect();
    assert_eq!(
        targets,
        vec![
            Target::Primitive(Primitive::U8),
            Target::Primitive(Primitive::U16),
            Target::Primitive(Primitive::U32),
            Target::Primitive(Primitive::U64),
            Target::Primitive(Primitive::S8),
            Target::Primitive(Primitive::S16),
            Target::Primitive(Primitive::S32),
            Target::Primitive(Primitive::S64),
            Target::Primitive(Primitive::Bool),
            Target::Primitive(Primitive::Char),
            Target::Primitive(Primitive::Text),
        ]
    );
}

#[test]
fn a_name_may_be_used_before_it_is_defined() {
    let sources = vec![
        source("a.witx", "record a { x: pointer<b> }"),
        source("b.witx", "record b { y: a }"),
    ];
    let document = load(&sources).expect("loads");
    let a = document.definition(0).unwrap();
    assert_eq!(a.members[0].ty.as_ref().unwrap().chain[1].target, Target::Definition(1));
}

#[test]
fn a_name_is_looked_up_in_its_module_first() {
    let sources = one("record a {}\nmodule m\nrecord a {}\nrecord b { x: a }\nrecord c { y: string }");
    let document = load(&sources).expect("loads");
    let b = document.definition(2).unwrap();
    assert_eq!(b.members[0].ty.as_ref().unwrap().chain[0].target, Target::Definition(1));
}

#[test]
fn a_name_is_looked_up_in_the_unnamed_module_next() {
    let sources = one("record a {}\nmodule m\nrecord b { x: a }");
    let document = load(&sources).expect("loads");
    let b = document.definition(1).unwrap();
    assert_eq!(b.members[0].ty.as_ref().unwrap().chain[0].target, Target::Definition(0));
}

#[test]
fn a_definition_hides_a_built_in_name() {
    let sources = one("record u32 {}\nrecord r { x: u32 }");
    let document = load(&sources).expect("loads");
    let r = document.definition(1).unwrap();
    assert_eq!(r.members[0].ty.as_ref().unwrap().chain[0].target, Target::Definition(0));
}

#[test]
fn a_qualified_name_needs_an_import() {
    let text = "module a\nrecord x {}\nmodule b\nrecord y { f: a.x }";
    match failure(&one(text)) {
        ErrorKind::UndefinedName { name, location } => {
            assert_eq!(name, "a.x");
            assert_eq!(location.line, 3);
            assert_eq!(location.column, 14);
        }
        other => panic!("unexpected error {:?}", other),
    }
    let text = "module a\nrecord x {}\nmodule b\nuse a\nrecord y { f: a.x }";
    let document = load(&one(text)).expect("loads");
    let y = document.definition(1).unwrap();
    assert_eq!(y.members[0].ty.as_ref().unwrap().chain[0].target, Target::Definition(0));
    assert_eq!(document.modules()[1].imports, vec![0]);
    assert_eq!(document.modules()[0].imports, Vec::<usize>::new());
}

#[test]
fn a_module_may_name_itself() {
    let document = load(&one("module a\nrecord x {}\nrecord y { f: a.x }")).expect("loads");
    assert_eq!(document.definition_count(), 2);
}

#[test]
fn an_import_of_no_module_fails() {
    match failure(&one("record a {}\nuse nowhere")) {
        ErrorKind::UndefinedName { name, location } => {
            assert_eq!(name, "nowhere");
            assert_eq!(location.offset, 16);
        }
        other => panic!("unexpected error {:?}", other),
    }
}

#[test]
fn an_undefined_name_in_a_signature_fails() {
    let text = "interface i {\n  func f(a: u8) -> missing\n}";
    match failure(&one(text)) {
        ErrorKind::UndefinedName { name, location } => {
            assert_eq!(name, "missing");
            assert_eq!(location.line, 1);
            assert_eq!(location.column, 19);
        }
        other => panic!("unexpected error {:?}", other),
    }
}

#[test]
fn the_first_undefined_name_is_reported() {
    let text = "record r { a: u8, b: list<one>, c: two }\ntypename t = three";
    match failure(&one(text)) {
        ErrorKind::UndefinedName { name, .. } => assert_eq!(name, "one"),
        other => panic!("unexpected error {:?}", other),
    }
}

#[test]
fn duplicate_names_fail_with_both_places() {
    let sources = vec![
        source("a.witx", "record point {}\nrecord line {}"),
        source("b.witx", "\n  typename point = u8\nrecord line {}"),
    ];
    match failure(&sources) {
        ErrorKind::DuplicateDefinition { name, first, second } => {
            assert_eq!(name, "point");
            assert_eq!((first.source, first.line, first.column, first.offset), (0, 0, 7, 7));
            assert_eq!((second.source, second.line, second.column, second.offset), (1, 1, 11, 12));
        }
        other => panic!("unexpected error {:?}", other),
    }
}

#[test]
fn the_same_name_in_two_modules_is_no_duplicate() {
    let document = load(&one("record a {}\nmodule m\nrecord a {}\nmodule n\nrecord a {}")).expect("loads");
    assert_eq!(document.definition_count(), 3);
}

#[test]
fn a_module_continued_elsewhere_shares_its_names() {
    let sources = vec![
        source("a.witx", "module m\nrecord a {}"),
        source("b.witx", "module m\nrecord a {}"),
    ];
    match failure(&sources) {
        ErrorKind::DuplicateDefinition { name, first, second } => {
            assert_eq!(name, "m.a");
            assert_eq!(first.source, 0);
            assert_eq!(second.source, 1);
        }
        other => panic!("unexpected error {:?}", other),
    }
}

#[test]
fn duplicates_are_found_before_undefined_names() {
    match failure(&one("typename a = missing\nrecord a {}")) {
        ErrorKind::DuplicateDefinition { name, .. } => assert_eq!(name, "a"),
        other => panic!("unexpected error {:?}", other),
    }
}

#[test]
fn a_record_that_holds_itself_fails() {
    match failure(&one("record a { x: a }")) {
        ErrorKind::CyclicDefinition { path } => assert_eq!(path, vec!["a"]),
        other => panic!("unexpected error {:?}", other),
    }
}

#[test]
fn records_that_hold_each_other_fail() {
    let text = "record a { x: b }\nrecord free { n: u8 }\nrecord b { y: option<c> }\nvariant c { none, some: ca }\ntypename ca = a";
    match failure(&one(text)) {
        ErrorKind::CyclicDefinition { path } => assert_eq!(path, vec!["a", "b", "c", "ca"]),
        other => panic!("unexpected error {:?}", other),
    }
}

#[test]
fn a_cycle_need_not_begin_at_the_first_definition() {
    let text = "record start { x: a }\nrecord a { x: b }\nrecord b { x: a }";
    match failure(&one(text)) {
        ErrorKind::CyclicDefinition { path } => assert_eq!(path, vec!["a", "b"]),
        other => panic!("unexpected error {:?}", other),
    }
}

#[test]
fn an_indirection_breaks_a_cycle() {
    let text = "record a { x: pointer<a>, y: list<a>, z: option<list<a>>, w: list<option<a>> }\nrecord b { c: pointer<c> }\nrecord c { b: b }";
    let document = load(&one(text)).expect("loads");
    assert_eq!(document.definition_count(), 3);
}

#[test]
fn an_option_breaks_no_cycle() {
    match failure(&one("record a { x: option<a> }")) {
        ErrorKind::CyclicDefinition { path } => assert_eq!(path, vec!["a"]),
        other => panic!("unexpected error {:?}", other),
    }
}

#[test]
fn aliases_of_each_other_fail() {
    match failure(&one("typename a = b\ntypename b = a")) {
        ErrorKind::CyclicDefinition { path } => assert_eq!(path, vec!["a", "b"]),
        other => panic!("unexpected error {:?}", other),
    }
}

#[test]
fn a_signature_holds_nothing_in_place() {
    let text = "interface i { func f(x: r) -> r }\nrecord r { n: u8 }";
    let document = load(&one(text)).expect("loads");
    assert_eq!(document.definition_count(), 2);
}

#[test]
fn modules_that_import_each_other_fail() {
    let text = "module a\nuse b\nmodule b\nuse c\nmodule c\nuse a";
    match failure(&one(text)) {
        ErrorKind::CyclicDefinition { path } => assert_eq!(path, vec!["a", "b", "c"]),
        other => panic!("unexpected error {:?}", other),
    }
    match failure(&one("module a\nuse a")) {
        ErrorKind::CyclicDefinition { path } => assert_eq!(path, vec!["a"]),
        other => panic!("unexpected error {:?}", other),
    }
}

#[test]
fn a_constructor_needs_an_argument() {
    match failure(&one("typename a = list")) {
        ErrorKind::TypeMismatch { name, location, expected, found } => {
            assert_eq!(name, "list");
            assert_eq!(location.offset, 13);
            assert_eq!(expected, Role::Data);
            assert_eq!(found, Class::Constructor);
        }
        other => panic!("unexpected error {:?}", other),
    }
}

#[test]
fn only_a_constructor_takes_an_argument() {
    match failure(&one("typename a = u32<u8>")) {
        ErrorKind::TypeMismatch { name, location, expected, found } => {
            assert_eq!(name, "u32");
            assert_eq!(location.offset, 13);
            assert_eq!(expected, Role::Constructor);
            assert_eq!(found, Class::Primitive);
        }
        other => panic!("unexpected error {:?}", other),
    }
    match failure(&one("module m\nrecord r {}\nrecord s { x: list<r<u8>> }")) {
        ErrorKind::TypeMismatch { name, expected, found, .. } => {
            assert_eq!(name, "m.r");
            assert_eq!(expected, Role::Constructor);
            assert_eq!(found, Class::Record);
        }
        other => panic!("unexpected error {:?}", other),
    }
}

#[test]
fn an_interface_is_no_type_of_data() {
    match failure(&one("interface i {}\nrecord r { x: pointer<i> }")) {
        ErrorKind::TypeMismatch { name, location, expected, found } => {
            assert_eq!(name, "i");
            assert_eq!((location.line, location.column), (1, 22));
            assert_eq!(expected, Role::Data);
            assert_eq!(found, Class::Interface);
        }
        other => panic!("unexpected error {:?}", other),
    }
}

#[test]
fn signatures_are_checked() {
    let text = "record r {}\nvariant v { a }\ntypename t = r\ninterface i {\n  func f(a: r, b: v, c: t) -> option\n}";
    match failure(&one(text)) {
        ErrorKind::TypeMismatch { name, location, expected, found } => {
            assert_eq!(name, "option");
            assert_eq!((location.line, location.column), (4, 30));
            assert_eq!(expected, Role::Data);
            assert_eq!(found, Class::Constructor);
        }
        other => panic!("unexpected error {:?}", other),
    }
}

#[test]
fn cycles_are_found_before_mismatches() {
    match failure(&one("typename a = list\nrecord b { x: b }")) {
        ErrorKind::CyclicDefinition { path } => assert_eq!(path, vec!["b"]),
        other => panic!("unexpected error {:?}", other),
    }
}

#[test]
fn the_first_source_with_an_error_ends_the_load() {
    let sources = vec![
        source("a.witx", "record a {}"),
        source("b.witx", "record b {"),
        source("c.witx", "record # {}"),
    ];
    match failure(&sources) {
        ErrorKind::Syntax(e) => {
            assert_eq!(e.location.source, 1);
            assert_eq!(e.location.offset, 10);
        }
        other => panic!("unexpected error {:?}", other),
    }
    let sources = vec![source("c.witx", "record # {}"), source("b.witx", "record b {")];
    match failure(&sources) {
        ErrorKind::Lex(e) => {
            assert_eq!(e.location.source, 0);
            assert_eq!(e.found, Some('#'));
        }
        other => panic!("unexpected error {:?}", other),
    }
}

#[test]
fn documentation_is_kept() {
    let text = "/// About the file.\nmodule m\n/// A record.\nrecord r {}\n/// For the import.\nuse n\nmodule n\n/// Last words.";
    let document = load(&one(text)).expect("loads");
    assert_eq!(document.docs(), &vec!["About the file.", "For the import.", "Last words."]);
    assert_eq!(document.definition(0).unwrap().doc.as_deref(), Some("A record."));
}

#[test]
fn lookup_finds_functions_by_qualified_name() {
    let text = "interface a { func f() }\nmodule m\ninterface b { func g() func f(x: u8) func h() }\nrecord f {}";
    let document = load(&one(text)).expect("loads");
    assert_eq!(document.lookup_function("a.f"), Some((0, 0)));
    assert_eq!(document.lookup_function("m.b.g"), Some((1, 0)));
    assert_eq!(document.lookup_function("m.b.f"), Some((1, 1)));
    assert_eq!(document.lookup_function("m.b.h"), Some((1, 2)));
    assert_eq!(document.lookup_function("b.f"), None);
    assert_eq!(document.lookup_function("m.f"), None);
    assert_eq!(document.lookup_function("f"), None);
    assert_eq!(document.definitions()[1].functions[1].params.len(), 1);
}

#[test]
fn two_functions_of_one_name_in_one_interface_fail() {
    let text = "interface a { func f() }\nmodule m\ninterface b { func g() func f(x: u8) func f() }\nrecord f {}";
    match failure(&one(text)) {
        ErrorKind::DuplicateDefinition { name, first, second } => {
            assert_eq!(name, "m.b.f");
            assert_eq!((first.source, first.line, first.column), (0, 2, 28));
            assert_eq!((second.source, second.line, second.column), (0, 2, 42));
        }
        other => panic!("unexpected error {:?}", other),
    }
}

#[test]
fn functions_of_one_name_in_two_interfaces_load() {
    let text = "interface a { func f() }\ninterface b { func f() }\nmodule a\ninterface b { func f() }";
    let document = load(&one(text)).expect("loads");
    assert_eq!(document.lookup_function("a.f"), Some((0, 0)));
    assert_eq!(document.lookup_function("b.f"), Some((1, 0)));
    assert_eq!(document.lookup_function("a.b.f"), Some((2, 0)));
}

#[test]
fn a_function_and_a_definition_of_one_name_fail() {
    let sources = vec![
        source("a.witx", "interface m {\n  func f()\n}"),
        source("b.witx", "module m\nrecord f {}"),
    ];
    match failure(&sources) {
        ErrorKind::DuplicateDefinition { name, first, second } => {
            assert_eq!(name, "m.f");
            assert_eq!((first.source, first.line, first.column), (0, 1, 7));
            assert_eq!((second.source, second.line, second.column), (1, 1, 7));
        }
        other => panic!("unexpected error {:?}", other),
    }
    let sources = vec![
        source("b.witx", "module m\nrecord f {}"),
        source("a.witx", "interface m {\n  func f()\n}"),
    ];
    match failure(&sources) {
        ErrorKind::DuplicateDefinition { name, first, second } => {
            assert_eq!(name, "m.f");
            assert_eq!((first.source, first.line, first.column), (0, 1, 7));
            assert_eq!((second.source, second.line, second.column), (1, 1, 7));
        }
        other => panic!("unexpected error {:?}", other),
    }
}

#[test]
fn functions_of_two_interfaces_with_one_qualified_name_fail() {
    let text = "interface a { func b() }\nmodule a\ninterface x { func y() }\nmodule a\nrecord b {}";
    match failure(&one(text)) {
        ErrorKind::DuplicateDefinition { name, first, second } => {
            assert_eq!(name, "a.b");
            assert_eq!((first.line, first.column), (0, 19));
            assert_eq!((second.line, second.column), (4, 7));
        }
        other => panic!("unexpected error {:?}", other),
    }
}

#[test]
fn the_first_repeated_name_is_reported() {
    let text = "record a {}\ninterface i { func f() func f() }\nrecord a {}";
    match failure(&one(text)) {
        ErrorKind::DuplicateDefinition { name, .. } => assert_eq!(name, "i.f"),
        other => panic!("unexpected error {:?}", other),
    }
    let text = "record a {}\nrecord a {}\ninterface i { func f() func f() }";
    match failure(&one(text)) {
        ErrorKind::DuplicateDefinition { name, .. } => assert_eq!(name, "a"),
        other => panic!("unexpected error {:?}", other),
    }
}

#[test]
fn duplicate_functions_are_found_before_undefined_names() {
    match failure(&one("interface i { func f(x: missing) func f() }")) {
        ErrorKind::DuplicateDefinition { name, .. } => assert_eq!(name, "i.f"),
        other => panic!("unexpected error {:?}", other),
    }
}
