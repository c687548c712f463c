use vstd::prelude::*;

verus! {

/// A snapshot of one window of the window manager's layout tree, with the
/// windows nested inside it in their order.
pub struct WindowNode {
    pub id: i64,
    pub focused: bool,
    pub nodes: Vec<WindowNode>,
}

/// The command that a visit of `n` alone issues: none for the focused window,
/// one that sets `o` for any other.
pub open spec fn own_commands<O>(n: WindowNode, o: O) -> Seq<(i64, O)> {
    if n.focused {
        Seq::empty()
    } else {
        seq![(n.id, o)]
    }
}

/// The opacity commands of a depth-first pre-order walk of `n`: one `(id, o)`
/// for each window that is not focused, in the order of the walk.
pub open spec fn commands<O>(n: WindowNode, o: O) -> Seq<(i64, O)>
    decreases n, 1int,
{
    own_commands(n, o) + commands_of_list(n.nodes@, o)
}

/// The commands of walking each tree of `s` in turn.
pub open spec fn commands_of_list<O>(s: Seq<WindowNode>, o: O) -> Seq<(i64, O)>
    decreases s, 0int,
{
    if s.len() == 0 {
        Seq::empty()
    } else {
        commands_of_list(s.drop_last(), o) + commands(s.last(), o)
    }
}

/// The focus that a walk of `n` reports: the one found among its children if
/// any, else `n` itself if it is focused.
pub open spec fn focus_of(n: WindowNode) -> Option<i64>
    decreases n, 1int,
{
    match focus_of_list(n.nodes@) {
        Some(id) => Some(id),
        None => if n.focused {
            Some(n.id)
        } else {
            None
        },
    }
}

/// The focus found in a list of sibling trees: a later sibling's overrides an
/// earlier one's.
pub open spec fn focus_of_list(s: Seq<WindowNode>) -> Option<i64>
    decreases s, 0int,
{
    if s.len() == 0 {
        None
    } else {
        match focus_of(s.last()) {
            Some(id) => Some(id),
            None => focus_of_list(s.drop_last()),
        }
    }
}

proof fn lemma_list_take_step<O>(s: Seq<WindowNode>, i: int, o: O)
    requires
        0 <= i < s.len(),
    ensures
        commands_of_list(s.take(i + 1), o) == commands_of_list(s.take(i), o) + commands(s[i], o),
        focus_of_list(s.take(i + 1)) == match focus_of(s[i]) {
            Some(id) => Some(id),
            None => focus_of_list(s.take(i)),
        },
{
    assert(s.take(i + 1).drop_last() =~= s.take(i));
    assert(s.take(i + 1).last() == s[i]);
}

/// Walks `n` depth-first, appending to `out` the command for each window
/// that is not focused, and returns the focus found.
fn walk<O: Copy>(n: &WindowNode, o: O, out: &mut Vec<(i64, O)>) -> (r: Option<i64>)
    ensures
        final(out)@ == old(out)@ + commands(*n, o),
        r == focus_of(*n),
    decreases *n,
{
    if !n.focused {
        out.push((n.id, o));
    }
    let ghost start = old(out)@ + own_commands(*n, o);
    assert(out@ =~= start);
    let mut focused: Option<i64> = None;
    let mut i: usize = 0;
    while i < n.nodes.len()
        invariant
            i <= n.nodes@.len(),
            out@ == start + commands_of_list(n.nodes@.take(i as int), o),
            focused == focus_of_list(n.nodes@.take(i as int)),
        decreases n.nodes@.len() - i,
    {
        proof {
            lemma_list_take_step(n.nodes@, i as int, o);
        }
        if let Some(id) = walk(&n.nodes[i], o, out) {
            focused = Some(id);
        }
        assert(out@ =~= start + commands_of_list(n.nodes@.take(i + 1), o));
        i = i + 1;
    }
    assert(n.nodes@.take(i as int) =~= n.nodes@);
    assert(out@ =~= old(out)@ + commands(*n, o));
    if n.focused && focused.is_none() {
        Some(n.id)
    } else {
        focused
    }
}

/// Walks the tree under `root`: the opacity command `(id, non_focused_opacity)`
/// for every window that is not focused, in depth-first pre-order, and the
/// focused window that was found (a focused descendant overrides its
/// ancestors, and a later sibling's focus an earlier one's).
pub fn find_focused<O: Copy>(root: &WindowNode, non_focused_opacity: O) -> (r: (
    Vec<(i64, O)>,
    Option<i64>,
))
    ensures
        r.0@ == commands(*root, non_focused_opacity),
        r.1 == focus_of(*root),
{
    let mut out: Vec<(i64, O)> = Vec::new();
    let found = walk(root, non_focused_opacity, &mut out);
    assert(out@ =~= seq![] + commands(*root, non_focused_opacity));
    (out, found)
}

} // verus!
