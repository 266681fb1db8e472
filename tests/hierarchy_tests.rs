use retained_ui::hierarchy::{
    derive_widget_id, Hierarchy, HierarchyError, NodeUpdateStatus, WidgetId, WidgetIdFragment,
};

const LABEL: u64 = 1;
const BUTTON: u64 = 2;
const PANEL: u64 = 3;

fn add(h: &mut Hierarchy, tag: u64, parent: Option<WidgetId>) -> (WidgetId, NodeUpdateStatus) {
    let r = h.add_or_update(WidgetIdFragment::TypedOrdered(tag), parent).unwrap();
    (r.widget_id, r.status)
}

#[test]
fn identity_is_stable_across_epochs() {
    let mut h = Hierarchy::new();
    h.new_epoch();
    let (panel, s0) = add(&mut h, PANEL, None);
    let (a, s1) = add(&mut h, LABEL, Some(panel));
    let (b, s2) = add(&mut h, BUTTON, Some(panel));
    assert_eq!((s0, s1, s2), (NodeUpdateStatus::Added, NodeUpdateStatus::Added, NodeUpdateStatus::Added));
    assert!(h.collect_stale_nodes().is_empty());

    h.new_epoch();
    let (panel2, t0) = add(&mut h, PANEL, None);
    let (a2, t1) = add(&mut h, LABEL, Some(panel2));
    let (b2, t2) = add(&mut h, BUTTON, Some(panel2));
    assert_eq!((panel2, a2, b2), (panel, a, b));
    assert_eq!((t0, t1, t2), (NodeUpdateStatus::Update, NodeUpdateStatus::Update, NodeUpdateStatus::Update));
    assert!(h.collect_stale_nodes().is_empty());
}

#[test]
fn identity_is_derived_from_parent_type_and_ordinal() {
    let mut h = Hierarchy::new();
    h.new_epoch();
    let (panel, _) = add(&mut h, PANEL, None);
    let (a, _) = add(&mut h, LABEL, Some(panel));
    assert_eq!(panel, derive_widget_id(None, PANEL, 0));
    assert_eq!(a, derive_widget_id(Some(panel), LABEL, 0));
    assert_ne!(derive_widget_id(Some(panel), LABEL, 0), derive_widget_id(Some(panel), LABEL, 1));
    assert_ne!(derive_widget_id(Some(panel), LABEL, 0), derive_widget_id(Some(panel), BUTTON, 0));
}

#[test]
fn changing_a_type_changes_only_that_subtree() {
    let mut h = Hierarchy::new();
    h.new_epoch();
    let (left, _) = add(&mut h, PANEL, None);
    let (x, _) = add(&mut h, LABEL, Some(left));
    let (y, _) = add(&mut h, LABEL, Some(left));
    let (right, _) = add(&mut h, PANEL, None);
    let (z, _) = add(&mut h, LABEL, Some(right));
    h.collect_stale_nodes();

    h.new_epoch();
    let (left2, _) = add(&mut h, PANEL, None);
    let (x2, sx) = add(&mut h, BUTTON, Some(left2));
    let (y2, sy) = add(&mut h, LABEL, Some(left2));
    let (right2, _) = add(&mut h, PANEL, None);
    let (z2, sz) = add(&mut h, LABEL, Some(right2));
    assert_eq!(left2, left);
    assert_ne!(x2, x);
    assert_eq!(sx, NodeUpdateStatus::Added);
    assert_eq!((y2, sy), (y, NodeUpdateStatus::Update));
    assert_eq!((right2, z2, sz), (right, z, NodeUpdateStatus::Update));
    let removed = h.collect_stale_nodes();
    assert_eq!(removed, vec![x]);
}

#[test]
fn omitted_subtree_is_collected_once() {
    let mut h = Hierarchy::new();
    h.new_epoch();
    let (keep, _) = add(&mut h, PANEL, None);
    let (gone, _) = add(&mut h, PANEL, None);
    let (c1, _) = add(&mut h, LABEL, Some(gone));
    let (c2, _) = add(&mut h, BUTTON, Some(c1));
    h.collect_stale_nodes();

    h.new_epoch();
    let (keep2, _) = add(&mut h, PANEL, None);
    assert_eq!(keep2, keep);
    let mut removed = h.collect_stale_nodes();
    removed.sort_by_key(|w| w.0);
    let mut expected = vec![gone, c1, c2];
    expected.sort_by_key(|w| w.0);
    assert_eq!(removed, expected);
    assert!(h.get_node(Some(gone)).is_none());
    assert!(h.get_node(Some(c2)).is_none());
    assert_eq!(h.children(None), &[keep][..]);
    assert!(h.collect_stale_nodes().is_empty());
}

#[test]
fn only_current_parents_take_declarations() {
    let mut h = Hierarchy::new();
    h.new_epoch();
    assert!(h.can_declare_under(None));
    assert!(!h.can_declare_under(Some(WidgetId(12345))));
    let (panel, _) = add(&mut h, PANEL, None);
    assert!(h.can_declare_under(Some(panel)));
    h.collect_stale_nodes();
    h.new_epoch();
    // the panel was not declared in this epoch yet
    assert!(!h.can_declare_under(Some(panel)));
    add(&mut h, PANEL, None);
    assert!(h.can_declare_under(Some(panel)));
}

#[test]
fn traversal_orders() {
    let mut h = Hierarchy::new();
    h.new_epoch();
    let (a, _) = add(&mut h, PANEL, None);
    let (b, _) = add(&mut h, PANEL, Some(a));
    let (c, _) = add(&mut h, LABEL, Some(a));
    let (d, _) = add(&mut h, LABEL, Some(b));
    assert_eq!(h.visit_breadth_first(), vec![a, b, c, d]);
    assert_eq!(h.visit_leaves_first(), vec![d, b, c, a]);
    let mut stop = std::collections::HashSet::new();
    stop.insert(b.0);
    assert_eq!(h.visit_breadth_first_with_cf(&stop), vec![a, b, c]);
    assert_eq!(h.parent(d), Some(b));
    assert_eq!(h.parent(a), None);
    assert_eq!(h.children(Some(a)), &[b, c][..]);
}

#[test]
fn identity_still_held_by_an_uncollected_node_is_refused() {
    let mut h = Hierarchy::new();
    h.new_epoch();
    add(&mut h, LABEL, None);
    h.new_epoch();
    // the slot now names another widget, but the label's node was not collected
    add(&mut h, BUTTON, None);
    h.new_epoch();
    assert_eq!(
        h.add_or_update(WidgetIdFragment::TypedOrdered(LABEL), None).unwrap_err(),
        HierarchyError::AlreadyAdded
    );
}

#[test]
fn wrapped_epoch_without_collection_reports_duplicate_update() {
    let mut h = Hierarchy::new();
    h.new_epoch();
    add(&mut h, LABEL, None);
    for _ in 0..256 {
        h.new_epoch();
    }
    assert_eq!(
        h.add_or_update(WidgetIdFragment::TypedOrdered(LABEL), None).unwrap_err(),
        HierarchyError::AlreadyUpdated
    );
}
