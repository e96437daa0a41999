use blinc::keys::{call_site_key, component_id, component_type_id, ComponentId};

#[test]
fn test_component_id_macro() {
    let id1 = component_id("blinc::widgets", "src/widgets.rs", 42, 17, None);
    let id2 = component_id("blinc::widgets", "src/widgets.rs", 42, 17, None);

    assert_eq!(id1, id2);
}

#[test]
fn test_component_id_with_suffix() {
    let id1 = component_id("blinc::widgets", "src/widgets.rs", 42, 17, Some("a"));
    let id2 = component_id("blinc::widgets", "src/widgets.rs", 42, 17, Some("b"));

    assert_ne!(id1, id2);
}

#[test]
fn test_component_type_id() {
    let id = component_type_id("blinc::tests", "TestComponent");

    assert!(id.contains("TestComponent"));
}

struct TestWidget;

impl ComponentId for TestWidget {
    const ID: &'static str = "blinc::tests::TestWidget";
}

#[test]
fn test_impl_component_id() {
    assert!(TestWidget::ID.contains("TestWidget"));
}

#[test]
fn keys_have_exact_shape() {
    assert_eq!(call_site_key("src/app.rs", 7, 130), "src/app.rs:7:130");
    assert_eq!(call_site_key("a.rs", 0, 9), "a.rs:0:9");
    assert_eq!(call_site_key("a.rs", 4294967295, 10), "a.rs:4294967295:10");
    assert_eq!(component_id("m", "f.rs", 12, 3, Some("x")), "m:f.rs:12:3:x");
    assert_eq!(component_type_id("m::n", "T"), "m::n::T");
}
