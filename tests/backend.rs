use blinc::widget_backend::{BackendError, WidgetBackend};

#[test]
fn gpu_backend_test_create_widget() {
    let mut backend = WidgetBackend::new();
    backend.create_widget(1, "button").unwrap();

    assert_eq!(backend.stats().total_widgets, 1);
    assert!(backend.is_frame_dirty());
}

#[test]
fn gpu_backend_test_update_properties() {
    let mut backend = WidgetBackend::new();
    backend.create_widget(1, "button").unwrap();

    let props = vec![
        ("color".to_string(), "blue".to_string()),
        ("size".to_string(), "large".to_string()),
    ];

    backend.clear_frame_dirty();
    backend.update_widget_properties(1, &props).unwrap();

    assert!(backend.is_frame_dirty());
    assert_eq!(backend.stats().total_widgets, 1);
}

#[test]
fn test_destroy_widget() {
    let mut backend = WidgetBackend::new();
    backend.create_widget(1, "button").unwrap();
    backend.clear_frame_dirty();

    backend.destroy_widget(1).unwrap();

    assert_eq!(backend.stats().total_widgets, 0);
    assert!(backend.is_frame_dirty());
}

#[test]
fn test_duplicate_creation_error() {
    let mut backend = WidgetBackend::new();
    backend.create_widget(1, "button").unwrap();

    let result = backend.create_widget(1, "button");
    assert!(result.is_err());
}

#[test]
fn test_nonexistent_destruction_error() {
    let mut backend = WidgetBackend::new();

    let result = backend.destroy_widget(999);
    assert!(result.is_err());
}

#[test]
fn backend_errors_name_the_widget() {
    let mut backend = WidgetBackend::new();
    assert_eq!(backend.destroy_widget(4), Err(BackendError::NotFound(4)));
    assert_eq!(backend.update_widget_properties(4, &vec![]), Err(BackendError::NotFound(4)));
    backend.create_widget(4, "text").unwrap();
    assert_eq!(backend.create_widget(4, "text"), Err(BackendError::AlreadyExists(4)));
    assert_eq!(backend.validate_hierarchy(), Ok(()));
    assert!(backend.request_frame().is_ok());
}

#[test]
fn later_property_updates_override() {
    let mut backend = WidgetBackend::new();
    backend.create_widget(2, "box").unwrap();
    backend
        .update_widget_properties(2, &vec![("color".to_string(), "red".to_string())])
        .unwrap();
    backend
        .update_widget_properties(
            2,
            &vec![("color".to_string(), "green".to_string()), ("w".to_string(), "10".to_string())],
        )
        .unwrap();
    let w = backend.get_widget(2).unwrap();
    assert_eq!(w.property("color"), Some("green".to_string()));
    assert_eq!(w.property("w"), Some("10".to_string()));
    assert_eq!(w.property("h"), None);
    assert_eq!(w.widget_type, "box");
}

#[test]
fn destroy_keeps_other_widgets_in_order() {
    let mut backend = WidgetBackend::new();
    backend.create_widget(1, "a").unwrap();
    backend.create_widget(2, "b").unwrap();
    backend.create_widget(3, "c").unwrap();
    backend.destroy_widget(2).unwrap();
    assert_eq!(backend.all_widgets(), vec![1, 3]);
    assert!(backend.has_widget(3));
    assert!(!backend.has_widget(2));
}
