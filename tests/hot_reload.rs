use blinc::hot_reload::{tree_diff, HotReloadManager, StateSnapshot, WidgetDiff, WidgetId, WidgetNode};

fn node(id: u32, ty: &str, props: Vec<(&str, &str)>, children: Vec<WidgetNode>) -> WidgetNode {
    WidgetNode {
        id: WidgetId(id),
        widget_type: ty.to_string(),
        props: props.into_iter().map(|(k, v)| (k.to_string(), v.to_string())).collect(),
        children,
        state_hash: 0,
    }
}

#[test]
fn test_state_snapshot() {
    let snap = StateSnapshot::new();
    assert_eq!(snap.signals.len(), 0);
    assert_eq!(snap.derived_values.len(), 0);
}

#[test]
fn test_widget_diff_simple() {
    let mut manager = HotReloadManager::new(true);

    let old = WidgetNode {
        id: WidgetId(1),
        widget_type: "div".to_string(),
        props: vec![("color".to_string(), "red".to_string())],
        children: vec![],
        state_hash: 0,
    };

    let new = WidgetNode {
        id: WidgetId(1),
        widget_type: "div".to_string(),
        props: vec![("color".to_string(), "blue".to_string())],
        children: vec![],
        state_hash: 0,
    };

    manager.set_widget_tree(old);
    let diffs = manager.compute_diff(&new);

    assert!(!diffs.is_empty());
}

#[test]
fn diff_of_equal_trees_is_empty() {
    let a = node(1, "div", vec![("k", "v")], vec![node(2, "text", vec![], vec![])]);
    let b = node(1, "div", vec![("k", "v")], vec![node(2, "text", vec![], vec![])]);
    assert!(tree_diff(&a, &b, None).is_empty());
}

#[test]
fn replaced_root_is_removed_then_added() {
    let a = node(1, "div", vec![], vec![]);
    let b = node(2, "div", vec![], vec![]);
    let d = tree_diff(&a, &b, Some(WidgetId(9)));
    assert_eq!(d.len(), 2);
    assert!(matches!(d[0], WidgetDiff::Removed { id: WidgetId(1) }));
    assert!(matches!(d[1], WidgetDiff::Added { id: WidgetId(2), parent_id: Some(WidgetId(9)), .. }));
}

#[test]
fn removed_property_and_new_child() {
    let a = node(1, "div", vec![("a", "1"), ("b", "2")], vec![]);
    let b = node(1, "div", vec![("a", "1")], vec![node(5, "img", vec![], vec![])]);
    let d = tree_diff(&a, &b, None);
    assert_eq!(d.len(), 3);
    match &d[0] {
        WidgetDiff::Updated { id, changed_props } => {
            assert_eq!(*id, WidgetId(1));
            assert_eq!(changed_props, &vec![("b".to_string(), String::new())]);
        }
        _ => panic!("expected an update"),
    }
    assert!(matches!(d[1], WidgetDiff::Added { id: WidgetId(5), parent_id: Some(WidgetId(1)), .. }));
    match &d[2] {
        WidgetDiff::Reordered { parent_id, new_order } => {
            assert_eq!(*parent_id, WidgetId(1));
            assert_eq!(new_order, &vec![WidgetId(5)]);
        }
        _ => panic!("expected a reorder"),
    }
}

#[test]
fn manager_queues_and_restores() {
    let mut m = HotReloadManager::new(false);
    assert!(!m.is_enabled());
    assert!(m.get_widget_tree().is_none());
    let first = m.compute_diff(&node(3, "div", vec![], vec![]));
    assert!(matches!(first[0], WidgetDiff::Added { id: WidgetId(3), parent_id: None, .. }));
    m.queue_diffs(first);
    m.queue_diffs(vec![WidgetDiff::Removed { id: WidgetId(4) }]);
    let taken = m.take_pending_diffs();
    assert_eq!(taken.len(), 2);
    assert!(m.take_pending_diffs().is_empty());
    let s = m.save_state();
    assert!(s.signals.is_empty());
    assert_eq!(m.restore_state().unwrap().timestamp, s.timestamp);
    assert!(m.restore_state().is_none());
    m.save_state();
    m.clear_snapshots();
    assert!(m.restore_state().is_none());
}
