use eventlog::{ancestry_trail, Category, EventVisitor, Level};

#[test]
fn end_to_end_info_event() {
    let mut v = EventVisitor::new(Level::Info, None);
    v.record_debug("message", String::from("started"));
    v.record_u64("id", 42);
    v.record_u64("port", 8080);
    let r = v.finish();
    assert_eq!(r.id, 42);
    assert_eq!(r.category, Category::Informational);
    assert!(r.body.contains("started"));
    assert!(!r.body.contains("source:"));
    assert!(r.body.contains("port: 8080\n"));
    assert_eq!(r.body, "started\n\nport: 8080\n");
}

#[test]
fn explicit_id_overrides_configured_default() {
    let mut v = EventVisitor::new(Level::Error, Some(900));
    v.record_u64("id", 42);
    assert_eq!(v.finish().id, 42);
}

#[test]
fn id_name_matches_case_insensitively() {
    let mut v = EventVisitor::new(Level::Info, None);
    v.record_u64("ID", 7);
    assert_eq!(v.finish().id, 7);

    let mut w = EventVisitor::new(Level::Info, None);
    w.record_i64("Id", 8);
    let r = w.finish();
    assert_eq!(r.id, 8);
    assert_eq!(r.body, "");
}

#[test]
fn default_id_used_when_event_gives_none() {
    let mut v = EventVisitor::new(Level::Warn, Some(9));
    v.record_u64("port", 1);
    assert_eq!(v.finish().id, 9);

    let w = EventVisitor::new(Level::Warn, None);
    assert_eq!(w.finish().id, 0);
}

#[test]
fn out_of_range_id_falls_through_to_fields() {
    let mut v = EventVisitor::new(Level::Info, Some(5));
    v.record_u64("id", 4294967296);
    let r = v.finish();
    assert_eq!(r.id, 5);
    assert_eq!(r.body, "id: 4294967296\n");
}

#[test]
fn negative_id_falls_through_to_fields() {
    let mut v = EventVisitor::new(Level::Info, None);
    v.record_i64("id", -5);
    let r = v.finish();
    assert_eq!(r.id, 0);
    assert_eq!(r.body, "id: -5\n");
}

#[test]
fn string_valued_id_field_is_an_extra_field() {
    let mut v = EventVisitor::new(Level::Info, Some(3));
    v.record_str("id", "9");
    let r = v.finish();
    assert_eq!(r.id, 3);
    assert_eq!(r.body, "id: \"9\"\n");
}

#[test]
fn message_field_populates_only_the_message_slot() {
    let mut v = EventVisitor::new(Level::Info, None);
    v.record_debug("message", String::from("hello"));
    let r = v.finish();
    assert_eq!(r.body, "hello\n\n");
}

#[test]
fn message_overwrites_on_repeat() {
    let mut v = EventVisitor::new(Level::Info, None);
    v.record_debug("message", String::from("first"));
    v.record_debug("message", String::from("second"));
    let r = v.finish();
    assert_eq!(r.body, "second\n\n");
}

#[test]
fn capitalized_message_name_is_an_extra_field() {
    let mut v = EventVisitor::new(Level::Info, None);
    v.record_debug("Message", String::from("hello"));
    let r = v.finish();
    assert_eq!(r.body, "Message: hello\n");
}

#[test]
fn repeated_field_name_keeps_the_last_value() {
    let mut v = EventVisitor::new(Level::Info, None);
    v.record_u64("port", 1);
    v.record_u64("port", 2);
    let r = v.finish();
    assert_eq!(r.body, "port: 2\n");
}

#[test]
fn fields_render_in_insertion_order() {
    let mut v = EventVisitor::new(Level::Info, None);
    v.record_u64("alpha", 1);
    v.record_u64("beta", 2);
    v.record_u64("alpha", 3);
    let r = v.finish();
    assert_eq!(r.body, "alpha: 3\nbeta: 2\n");
}

#[test]
fn assembly_order_is_message_then_source_then_fields() {
    let mut v = EventVisitor::new(Level::Debug, None);
    v.record_u64("port", 80);
    v.record_debug("message", String::from("up"));
    let chain = vec![String::from("leaf"), String::from("root")];
    v.set_trail(ancestry_trail(&chain));
    let r = v.finish();
    assert_eq!(r.body, "up\n\nsource: root\nport: 80\n");
}

#[test]
fn empty_event_renders_empty_body() {
    let v = EventVisitor::new(Level::Trace, None);
    let r = v.finish();
    assert_eq!(r.id, 0);
    assert_eq!(r.category, Category::Informational);
    assert_eq!(r.body, "");
}
