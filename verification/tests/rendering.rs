use witx::load::{load, Source};

fn render(texts: &[&str]) -> String {
    let sources: Vec<Source> = texts
        .iter()
        .enumerate()
        .map(|(i, text)| Source { name: format!("{}.witx", i), text: text.to_string() })
        .collect();
    load(&sources).expect("loads").to_text()
}

#[test]
fn record_renders_its_fields_in_order() {
    assert_eq!(
        render(&["record point { x: u32, y: u32 }"]),
        "# Module\n\n## point\n\nRecord\n\n- `x: u32`\n- `y: u32`\n\n"
    );
}

#[test]
fn empty_record_renders_no_list() {
    assert_eq!(render(&["record unit {}"]), "# Module\n\n## unit\n\nRecord\n\n");
}

#[test]
fn alias_renders_its_target() {
    assert_eq!(
        render(&["typename bytes = list<u8>"]),
        "# Module\n\n## bytes\n\nType alias\n\nAlias of `list<u8>`\n\n"
    );
}

#[test]
fn variant_renders_its_arms() {
    assert_eq!(
        render(&["variant shape { circle: u32, empty }"]),
        "# Module\n\n## shape\n\nVariant\n\n- `circle: u32`\n- `empty`\n\n"
    );
}

#[test]
fn interface_renders_its_functions() {
    let text = "record point {}\ninterface draw {\n  /// Draws a line.\n  func line(a: point, b: option<point>) -> bool\n  func clear()\n  func count() -> u32\n}";
    assert_eq!(
        render(&[text]),
        "# Module\n\n## point\n\nRecord\n\n## draw\n\nInterface\n\n### draw.line\n\nDraws a line.\n\n- `a: point`\n- `b: option<point>`\n\nReturns `bool`\n\n### draw.clear\n\n### draw.count\n\nReturns `u32`\n\n"
    );
}

#[test]
fn documentation_is_rendered_as_written() {
    let text = "/// A *point*.\n///   x, then y\nrecord point { x: u8 }";
    assert_eq!(
        render(&[text]),
        "# Module\n\n## point\n\nRecord\n\nA *point*.\n  x, then y\n\n- `x: u8`\n\n"
    );
}

#[test]
fn references_render_as_qualified_names() {
    let text = "module geo\nrecord point {}\nrecord line { a: point, b: geo.point, c: list<pointer<point>> }";
    assert_eq!(
        render(&[text]),
        "# Module geo\n\n## geo.point\n\nRecord\n\n## geo.line\n\nRecord\n\n- `a: geo.point`\n- `b: geo.point`\n- `c: list<pointer<geo.point>>`\n\n"
    );
}

#[test]
fn modules_render_in_the_order_of_their_first_mention() {
    let first = "/// About all this.\nmodule b\nrecord x {}\nmodule a\nrecord y {}";
    let second = "record z {}\nmodule b\nrecord w {}\n/// The end.";
    assert_eq!(
        render(&[first, second]),
        "About all this.\n\nThe end.\n\n# Module b\n\n## b.x\n\nRecord\n\n## b.w\n\nRecord\n\n# Module a\n\n## a.y\n\nRecord\n\n# Module\n\n## z\n\nRecord\n\n"
    );
}

#[test]
fn a_module_without_definitions_renders_its_heading() {
    assert_eq!(render(&["module lonely"]), "# Module lonely\n\n");
}

#[test]
fn rendering_twice_gives_the_same_text() {
    let text = "module geo\n/// A point.\nrecord point { x: u32, y: u32 }\ninterface i { func f(p: point) -> list<point> }";
    let sources = vec![Source { name: "geo.witx".to_string(), text: text.to_string() }];
    let document = load(&sources).expect("loads");
    let once = document.to_text();
    let twice = document.to_text();
    assert_eq!(once, twice);
    let again = load(&sources).expect("loads again").to_text();
    assert_eq!(once, again);
    assert!(!once.is_empty());
}
