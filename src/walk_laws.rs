use vstd::prelude::*;

use crate::tree::{commands, commands_of_list, focus_of, focus_of_list, own_commands, WindowNode};

verus! {

/// The number of windows in the tree under `n`, `n` included.
pub open spec fn node_count(n: WindowNode) -> nat
    decreases n, 1int,
{
    1 + node_count_of_list(n.nodes@)
}

pub open spec fn node_count_of_list(s: Seq<WindowNode>) -> nat
    decreases s, 0int,
{
    if s.len() == 0 {
        0
    } else {
        node_count_of_list(s.drop_last()) + node_count(s.last())
    }
}

/// The number of windows marked focused in the tree under `n`.
pub open spec fn focused_count(n: WindowNode) -> nat
    decreases n, 1int,
{
    (if n.focused {
        1nat
    } else {
        0nat
    }) + focused_count_of_list(n.nodes@)
}

pub open spec fn focused_count_of_list(s: Seq<WindowNode>) -> nat
    decreases s, 0int,
{
    if s.len() == 0 {
        0
    } else {
        focused_count_of_list(s.drop_last()) + focused_count(s.last())
    }
}

/// `m` is `n` or a window nested in it.
pub open spec fn contains(n: WindowNode, m: WindowNode) -> bool
    decreases n, 1int,
{
    n == m || contains_in_list(n.nodes@, m)
}

pub open spec fn contains_in_list(s: Seq<WindowNode>, m: WindowNode) -> bool
    decreases s, 0int,
{
    if s.len() == 0 {
        false
    } else {
        contains_in_list(s.drop_last(), m) || contains(s.last(), m)
    }
}

proof fn lemma_no_focus(n: WindowNode)
    ensures
        focus_of(n) is None <==> focused_count(n) == 0,
    decreases n, 1int,
{
    lemma_no_focus_list(n.nodes@);
}

proof fn lemma_no_focus_list(s: Seq<WindowNode>)
    ensures
        focus_of_list(s) is None <==> focused_count_of_list(s) == 0,
    decreases s, 0int,
{
    if s.len() > 0 {
        lemma_no_focus(s.last());
        lemma_no_focus_list(s.drop_last());
    }
}

/// A focused window within the tree that holds the focus the walk reports
/// and has no focused window nested in it.
proof fn lemma_focus_witness(n: WindowNode) -> (m: WindowNode)
    requires
        focus_of(n) is Some,
    ensures
        contains(n, m),
        m.focused,
        focus_of(n) == Some(m.id),
        focused_count_of_list(m.nodes@) == 0,
    decreases n, 1int,
{
    if focus_of_list(n.nodes@) is Some {
        lemma_focus_witness_list(n.nodes@)
    } else {
        lemma_no_focus_list(n.nodes@);
        n
    }
}

proof fn lemma_focus_witness_list(s: Seq<WindowNode>) -> (m: WindowNode)
    requires
        focus_of_list(s) is Some,
    ensures
        contains_in_list(s, m),
        m.focused,
        focus_of_list(s) == Some(m.id),
        focused_count_of_list(m.nodes@) == 0,
    decreases s, 0int,
{
    if focus_of(s.last()) is Some {
        lemma_focus_witness(s.last())
    } else {
        lemma_focus_witness_list(s.drop_last())
    }
}

proof fn lemma_contained_focus_counts(n: WindowNode, m: WindowNode)
    requires
        contains(n, m),
        m.focused,
    ensures
        focused_count(n) >= 1,
    decreases n, 1int,
{
    if n != m {
        lemma_contained_focus_counts_list(n.nodes@, m);
    }
}

proof fn lemma_contained_focus_counts_list(s: Seq<WindowNode>, m: WindowNode)
    requires
        contains_in_list(s, m),
        m.focused,
    ensures
        focused_count_of_list(s) >= 1,
    decreases s, 0int,
{
    if contains(s.last(), m) {
        lemma_contained_focus_counts(s.last(), m);
    } else {
        lemma_contained_focus_counts_list(s.drop_last(), m);
    }
}

proof fn lemma_unique_focus(n: WindowNode, m: WindowNode)
    requires
        focused_count(n) == 1,
        contains(n, m),
        m.focused,
    ensures
        focus_of(n) == Some(m.id),
    decreases n, 1int,
{
    lemma_no_focus_list(n.nodes@);
    if n.focused {
        if n != m {
            lemma_contained_focus_counts_list(n.nodes@, m);
        }
    } else {
        lemma_unique_focus_list(n.nodes@, m);
    }
}

proof fn lemma_unique_focus_list(s: Seq<WindowNode>, m: WindowNode)
    requires
        focused_count_of_list(s) == 1,
        contains_in_list(s, m),
        m.focused,
    ensures
        focus_of_list(s) == Some(m.id),
    decreases s, 0int,
{
    if contains(s.last(), m) {
        lemma_contained_focus_counts(s.last(), m);
        lemma_unique_focus(s.last(), m);
    } else {
        lemma_contained_focus_counts_list(s.drop_last(), m);
        lemma_no_focus(s.last());
        lemma_unique_focus_list(s.drop_last(), m);
    }
}

proof fn lemma_commands_shape<O>(n: WindowNode, o: O)
    ensures
        commands(n, o).len() + focused_count(n) == node_count(n),
        forall|i: int| 0 <= i < commands(n, o).len() ==> (#[trigger] commands(n, o)[i]).1 == o,
        forall|m: WindowNode|
            contains(n, m) && !m.focused ==> #[trigger] commands(n, o).contains((m.id, o)),
    decreases n, 1int,
{
    lemma_commands_shape_list(n.nodes@, o);
    let c = commands(n, o);
    let own = own_commands(n, o);
    let rest = commands_of_list(n.nodes@, o);
    assert(c == own + rest);
    assert forall|i: int| 0 <= i < c.len() implies (#[trigger] c[i]).1 == o by {
        if i >= own.len() {
            assert(c[i] == rest[i - own.len()]);
        }
    }
    assert forall|m: WindowNode| contains(n, m) && !m.focused implies #[trigger] c.contains(
        (m.id, o),
    ) by {
        if n == m {
            assert(c[0] == (m.id, o));
        } else {
            assert(rest.contains((m.id, o)));
            let j = choose|j: int| 0 <= j < rest.len() && rest[j] == (m.id, o);
            assert(c[own.len() + j] == (m.id, o));
        }
    }
}

proof fn lemma_commands_shape_list<O>(s: Seq<WindowNode>, o: O)
    ensures
        commands_of_list(s, o).len() + focused_count_of_list(s) == node_count_of_list(s),
        forall|i: int|
            0 <= i < commands_of_list(s, o).len() ==> (#[trigger] commands_of_list(s, o)[i]).1 == o,
        forall|m: WindowNode|
            contains_in_list(s, m) && !m.focused ==> #[trigger] commands_of_list(s, o).contains(
                (m.id, o),
            ),
    decreases s, 0int,
{
    if s.len() > 0 {
        lemma_commands_shape_list(s.drop_last(), o);
        lemma_commands_shape(s.last(), o);
        let c = commands_of_list(s, o);
        let a = commands_of_list(s.drop_last(), o);
        let b = commands(s.last(), o);
        assert(c == a + b);
        assert forall|i: int| 0 <= i < c.len() implies (#[trigger] c[i]).1 == o by {
            if i >= a.len() {
                assert(c[i] == b[i - a.len()]);
            } else {
                assert(c[i] == a[i]);
            }
        }
        assert forall|m: WindowNode| contains_in_list(s, m) && !m.focused implies #[trigger] c.contains(
            (m.id, o),
        ) by {
            if contains(s.last(), m) {
                assert(b.contains((m.id, o)));
                let j = choose|j: int| 0 <= j < b.len() && b[j] == (m.id, o);
                assert(c[a.len() + j] == (m.id, o));
            } else {
                assert(a.contains((m.id, o)));
                let j = choose|j: int| 0 <= j < a.len() && a[j] == (m.id, o);
                assert(c[j] == (m.id, o));
            }
        }
    }
}

/// With exactly one window marked focused, the walk reports that window, and
/// issues one command for each of the other windows, every one with the
/// opacity it was given.
pub proof fn lemma_walk_single_focus<O>(root: WindowNode, m: WindowNode, o: O)
    requires
        focused_count(root) == 1,
        contains(root, m),
        m.focused,
    ensures
        focus_of(root) == Some(m.id),
        commands(root, o).len() == node_count(root) - 1,
        forall|i: int| 0 <= i < commands(root, o).len() ==> (#[trigger] commands(root, o)[i]).1 == o,
        forall|k: WindowNode|
            contains(root, k) && !k.focused ==> #[trigger] commands(root, o).contains((k.id, o)),
{
    lemma_unique_focus(root, m);
    lemma_commands_shape(root, o);
}

/// With no window marked focused, the walk reports no focus.
pub proof fn lemma_walk_no_focus(root: WindowNode)
    requires
        focused_count(root) == 0,
    ensures
        focus_of(root) is None,
{
    lemma_no_focus(root);
}

/// With several windows marked focused, the walk reports one of them that has
/// no focused window nested in it: a focused descendant wins over its
/// focused ancestors.
pub proof fn lemma_walk_innermost_focus(root: WindowNode)
    requires
        focused_count(root) > 1,
    ensures
        exists|m: WindowNode|
            contains(root, m) && m.focused && focus_of(root) == Some(m.id)
                && focused_count_of_list(m.nodes@) == 0,
{
    lemma_no_focus(root);
    let m = lemma_focus_witness(root);
    assert(contains(root, m) && m.focused && focus_of(root) == Some(m.id)
        && focused_count_of_list(m.nodes@) == 0);
}

/// The opacity of each window after the commands `cmds` are carried out in
/// order, starting from the opacities `m`.
pub open spec fn apply_commands<O>(m: Map<i64, O>, cmds: Seq<(i64, O)>) -> Map<i64, O>
    decreases cmds.len(),
{
    if cmds.len() == 0 {
        m
    } else {
        apply_commands(m, cmds.drop_last()).insert(cmds.last().0, cmds.last().1)
    }
}

proof fn lemma_apply_after_insert<O>(m: Map<i64, O>, k: i64, v: O, cmds: Seq<(i64, O)>)
    ensures
        apply_commands(m.insert(k, v), cmds).insert(k, v) == apply_commands(m, cmds).insert(k, v),
    decreases cmds.len(),
{
    if cmds.len() > 0 {
        let x = cmds.last();
        let c = cmds.drop_last();
        lemma_apply_after_insert(m, k, v, c);
        let a = apply_commands(m.insert(k, v), c);
        let b = apply_commands(m, c);
        assert(a.insert(k, v) == b.insert(k, v));
        if x.0 == k {
            assert(a.insert(x.0, x.1).insert(k, v) =~= a.insert(k, v));
            assert(b.insert(x.0, x.1).insert(k, v) =~= b.insert(k, v));
        } else {
            assert(a.insert(x.0, x.1).insert(k, v) =~= a.insert(k, v).insert(x.0, x.1));
            assert(b.insert(x.0, x.1).insert(k, v) =~= b.insert(k, v).insert(x.0, x.1));
        }
    }
}

proof fn lemma_apply_twice<O>(m: Map<i64, O>, cmds: Seq<(i64, O)>)
    ensures
        apply_commands(apply_commands(m, cmds), cmds) == apply_commands(m, cmds),
    decreases cmds.len(),
{
    if cmds.len() > 0 {
        let x = cmds.last();
        let c = cmds.drop_last();
        let a = apply_commands(m, c);
        lemma_apply_twice(m, c);
        lemma_apply_after_insert(a, x.0, x.1, c);
    }
}

/// Walking the same tree a second time with the same opacity, with no change
/// of focus between, issues the same commands, and they leave every window's
/// opacity as the first walk left it.
pub proof fn lemma_walk_twice<O>(root: WindowNode, o: O, m: Map<i64, O>)
    ensures
        apply_commands(apply_commands(m, commands(root, o)), commands(root, o)) == apply_commands(
            m,
            commands(root, o),
        ),
{
    lemma_apply_twice(m, commands(root, o));
}

} // verus!
