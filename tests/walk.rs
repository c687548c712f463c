use i3_dim::tree::{find_focused, WindowNode};

fn leaf(id: i64, focused: bool) -> WindowNode {
    WindowNode { id, focused, nodes: Vec::new() }
}

fn node(id: i64, focused: bool, nodes: Vec<WindowNode>) -> WindowNode {
    WindowNode { id, focused, nodes }
}

#[test]
fn scenario_root_with_two_children() {
    let tree = node(1, false, vec![leaf(2, true), leaf(3, false)]);
    let (cmds, focus) = find_focused(&tree, 0.3f32);
    assert_eq!(cmds, vec![(1, 0.3f32), (3, 0.3f32)]);
    assert_eq!(focus, Some(2));
}

#[test]
fn restore_pass_sets_full_opacity() {
    let tree = node(1, false, vec![leaf(2, true), leaf(3, false)]);
    let (cmds, focus) = find_focused(&tree, 1.0f32);
    assert_eq!(cmds, vec![(1, 1.0f32), (3, 1.0f32)]);
    assert_eq!(focus, Some(2));
}

#[test]
fn single_focus_in_deep_tree() {
    let tree = node(
        10,
        false,
        vec![
            node(11, false, vec![leaf(12, false), node(13, false, vec![leaf(14, true)])]),
            leaf(15, false),
        ],
    );
    let (cmds, focus) = find_focused(&tree, 5u8);
    assert_eq!(focus, Some(14));
    assert_eq!(cmds, vec![(10, 5u8), (11, 5), (12, 5), (13, 5), (15, 5)]);
}

#[test]
fn no_focus_reports_none() {
    let tree = node(1, false, vec![leaf(2, false), node(3, false, vec![leaf(4, false)])]);
    let (cmds, focus) = find_focused(&tree, 0.5f32);
    assert_eq!(focus, None);
    assert_eq!(cmds, vec![(1, 0.5f32), (2, 0.5), (3, 0.5), (4, 0.5)]);
}

#[test]
fn lone_focused_window() {
    let (cmds, focus) = find_focused(&leaf(7, true), 0.3f32);
    assert!(cmds.is_empty());
    assert_eq!(focus, Some(7));
}

#[test]
fn lone_unfocused_window() {
    let (cmds, focus) = find_focused(&leaf(-7, false), 0.3f32);
    assert_eq!(cmds, vec![(-7, 0.3f32)]);
    assert_eq!(focus, None);
}

#[test]
fn descendant_focus_overrides_ancestor() {
    let tree = node(1, true, vec![node(2, true, vec![leaf(3, true)]), leaf(4, false)]);
    let (cmds, focus) = find_focused(&tree, 0.3f32);
    assert_eq!(focus, Some(3));
    assert_eq!(cmds, vec![(4, 0.3f32)]);
}

#[test]
fn later_sibling_focus_overrides_earlier() {
    let tree = node(1, false, vec![node(2, false, vec![leaf(3, true)]), leaf(4, true)]);
    let (cmds, focus) = find_focused(&tree, 0.3f32);
    assert_eq!(focus, Some(4));
    assert_eq!(cmds, vec![(1, 0.3f32), (2, 0.3)]);
}

#[test]
fn walking_twice_issues_the_same_commands() {
    let tree = node(1, false, vec![leaf(2, false), node(3, true, vec![leaf(4, false)])]);
    let first = find_focused(&tree, 0.25f32);
    let second = find_focused(&tree, 0.25f32);
    assert_eq!(first, second);
    assert_eq!(first.0, vec![(1, 0.25f32), (2, 0.25), (4, 0.25)]);
    assert_eq!(first.1, Some(3));
}
