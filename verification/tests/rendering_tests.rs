use eventlog::{ancestry_trail, category_of, Category, EventVisitor, Level};

#[test]
fn severity_maps_to_native_category() {
    assert_eq!(category_of(&Level::Error), Category::Error);
    assert_eq!(category_of(&Level::Warn), Category::Warning);
    assert_eq!(category_of(&Level::Info), Category::Informational);
    assert_eq!(category_of(&Level::Debug), Category::Informational);
    assert_eq!(category_of(&Level::Trace), Category::Informational);
}

#[test]
fn no_span_gives_no_trail() {
    let chain: Vec<String> = Vec::new();
    assert_eq!(ancestry_trail(&chain), None);
}

#[test]
fn parentless_span_is_its_own_trail() {
    let chain = vec![String::from("main")];
    assert_eq!(ancestry_trail(&chain), Some(String::from("main")));
}

#[test]
fn trail_lists_ancestors_outermost_first() {
    let chain = vec![
        String::from("leaf"),
        String::from("mid"),
        String::from("root"),
    ];
    assert_eq!(ancestry_trail(&chain), Some(String::from("root / mid")));
}

#[test]
fn trail_renders_on_its_own_line() {
    let mut v = EventVisitor::new(Level::Info, None);
    let chain = vec![
        String::from("handler"),
        String::from("request"),
        String::from("server"),
    ];
    v.set_trail(ancestry_trail(&chain));
    let r = v.finish();
    assert_eq!(r.body, "source: server / request\n");
}

#[test]
fn double_backslash_collapses_to_one() {
    let mut v = EventVisitor::new(Level::Info, None);
    v.record_str("path", "C:\\dir");
    let r = v.finish();
    assert_eq!(r.body, "path: \"C:\\dir\"\n");
}

#[test]
fn value_without_backslashes_is_unchanged() {
    let mut v = EventVisitor::new(Level::Info, None);
    v.record_str("name", "abc");
    let r = v.finish();
    assert_eq!(r.body, "name: \"abc\"\n");
}

#[test]
fn integer_values_render_in_decimal() {
    let mut v = EventVisitor::new(Level::Info, None);
    v.record_i64("low", i64::MIN);
    v.record_u128("big", u128::MAX);
    v.record_i128("neg", i128::MIN);
    v.record_bool("flag", true);
    let r = v.finish();
    assert_eq!(
        r.body,
        "low: -9223372036854775808\nbig: 340282366920938463463374607431768211455\nneg: -170141183460469231731687303715884105728\nflag: true\n"
    );
}
