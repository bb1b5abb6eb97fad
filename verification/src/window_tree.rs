//! The window trees stay consistent: every operation of the compositor
//! keeps the links between panes, leaves and splits agreeing both ways.
use vstd::prelude::*;
use crate::compositor::{
    lemma_first_free_from, lemma_render_nodes_shape, lemma_same_shape_chain, Axis, CompView, Node, NodeEntry, NodeId,
    PaneId, MAX_NODES, MAX_PANES,
};
use crate::drivers::keyboard::{Key, KeyEvent};
use crate::drivers::vga::VgaView;
use crate::compositor::prefix_key;

verus! {

/// The slot tables have their sizes and the active window is a slot.
pub open spec fn sizes_ok(c: CompView) -> bool {
    &&& c.panes.len() == MAX_PANES
    &&& c.nodes.len() == MAX_NODES
    &&& c.windows.len() == crate::compositor::MAX_WINDOWS
    &&& 0 <= c.active_window < crate::compositor::MAX_WINDOWS
}

/// The links only depend on the nodes and on which panes exist and where
/// they hang.
proof fn lemma_links_frame(c: CompView, d: CompView)
    requires
        c.links_ok(),
        c.panes.len() == MAX_PANES,
        d.panes.len() == MAX_PANES,
        d.nodes == c.nodes,
        forall|i: int| 0 <= i < MAX_PANES ==> (#[trigger] d.panes[i] is Some) == (c.panes[i] is Some),
        forall|i: int| 0 <= i < MAX_PANES && #[trigger] d.panes[i] is Some ==> d.panes[i]->0.parent == c.panes[i]->0.parent,
    ensures
        d.links_ok(),
{
    assert forall|i: int| 0 <= i < MAX_PANES && #[trigger] d.panes[i] is Some implies ({
        let n = d.panes[i]->0.parent;
        d.has_node(n) && d.node(n).kind == Node::Leaf(PaneId(i as usize))
    }) by {
        assert(c.panes[i] is Some);
    }
    assert forall|n: int| 0 <= n < MAX_NODES && #[trigger] d.nodes[n] is Some implies match d.nodes[n]->0.kind {
        Node::Leaf(p) => d.has_pane(p) && d.pane(p).parent == NodeId(n as usize),
        Node::Split { axis, a, b } => {
            &&& a != b
            &&& d.has_node(a)
            &&& d.has_node(b)
            &&& d.node(a).parent == Some(NodeId(n as usize))
            &&& d.node(b).parent == Some(NodeId(n as usize))
        },
    } by {
        assert(c.nodes[n] is Some);
        match c.nodes[n]->0.kind {
            Node::Leaf(p) => {
                assert(c.panes[p.0 as int] is Some);
            },
            _ => {},
        }
    }
}

/// Same shape, same links.
proof fn lemma_links_same_shape(c: CompView, d: CompView)
    requires
        c.panes.len() == MAX_PANES,
        c.links_ok(),
        c.same_shape(d),
    ensures
        d.links_ok(),
{
    assert forall|i: int| 0 <= i < MAX_PANES && #[trigger] d.panes[i] is Some implies d.panes[i]->0.parent == c.panes[i]->0.parent by {
        assert(c.panes[i] is Some);
    }
    lemma_links_frame(c, d);
}

/// Rendering keeps the links.
proof fn lemma_links_rendered(c: CompView, v: VgaView)
    requires
        c.panes.len() == MAX_PANES,
        c.links_ok(),
    ensures
        c.render_result(v) matches Some((d, w)) ==> d.links_ok() && (sizes_ok(c) ==> sizes_ok(d)),
{
    lemma_render_nodes_shape(c, v, c.active().root, 4);
    lemma_same_shape_chain(c.rendered(v).0, c, c);
    lemma_links_same_shape(c, c.rendered(v).0);
}

/// Opening a window in empty slots keeps the links.
proof fn lemma_links_open_window(c: CompView, v: VgaView, id: int)
    requires
        sizes_ok(c),
        c.links_ok(),
        0 <= id < crate::compositor::MAX_WINDOWS,
    ensures
        c.open_window(v, id) matches Some((d, w)) ==> d.links_ok() && sizes_ok(d),
{
    if c.open_window(v, id) is Some {
        lemma_first_free_from(c.nodes, 0);
        let (c1, root) = c.alloc_node()->0;
        lemma_first_free_from(c1.panes, 0);
        let (c2, v2, p) = c1.new_pane(v, crate::compositor::full_rect(), root)->0;
        let (d, w) = c.open_window(v, id)->0;
        let r = root.0 as int;
        let j = p.0 as int;
        assert(c.nodes[r] is None);
        assert(c.panes[j] is None);
        assert(d.nodes == c.nodes.update(r, Some(NodeEntry { parent: None, kind: Node::Leaf(p), depth: 0 })));
        assert(d.panes.len() == MAX_PANES);
        assert(d.panes[j] is Some && d.panes[j]->0.parent == root);
        assert(forall|i: int| 0 <= i < MAX_PANES && i != j ==> #[trigger] d.panes[i] == c.panes[i]);
        assert forall|i: int| 0 <= i < MAX_PANES && #[trigger] d.panes[i] is Some implies ({
            let n = d.panes[i]->0.parent;
            d.has_node(n) && d.node(n).kind == Node::Leaf(PaneId(i as usize))
        }) by {
            if i != j {
                assert(c.panes[i] is Some);
                let n = c.panes[i]->0.parent;
                assert(c.has_node(n));
                assert(n != root);
            }
        }
        assert forall|n: int| 0 <= n < MAX_NODES && #[trigger] d.nodes[n] is Some implies match d.nodes[n]->0.kind {
            Node::Leaf(q) => d.has_pane(q) && d.pane(q).parent == NodeId(n as usize),
            Node::Split { axis, a, b } => {
                &&& a != b
                &&& d.has_node(a)
                &&& d.has_node(b)
                &&& d.node(a).parent == Some(NodeId(n as usize))
                &&& d.node(b).parent == Some(NodeId(n as usize))
            },
        } by {
            if n != r {
                assert(c.nodes[n] is Some);
                match c.nodes[n]->0.kind {
                    Node::Leaf(q) => {
                        assert(c.panes[q.0 as int] is Some);
                        assert(q.0 as int != j);
                    },
                    Node::Split { axis, a, b } => {
                        assert(a.0 as int != r);
                        assert(b.0 as int != r);
                    },
                }
            }
        }
        assert forall|n: int| 0 <= n < MAX_NODES && #[trigger] d.nodes[n] is Some && d.nodes[n]->0.parent is Some implies ({
            let q = d.nodes[n]->0.parent->0;
            &&& d.has_node(q)
            &&& d.node(q).kind matches Node::Split { axis, a, b }
            &&& (a == NodeId(n as usize) || b == NodeId(n as usize))
        }) by {
            if n != r {
                assert(c.nodes[n] is Some);
                let q = c.nodes[n]->0.parent->0;
                assert(c.has_node(q));
                assert(q.0 as int != r);
            }
        }
    }
}

proof fn lemma_links_split_shape(
    c: CompView,
    e: CompView,
    f: PaneId,
    np: PaneId,
    node_id: NodeId,
    new_leaf: NodeId,
    new_node: NodeId,
    axis: Axis,
    dd: u8,
)
    requires
        c.links_ok(),
        c.panes.len() == MAX_PANES,
        c.nodes.len() == MAX_NODES,
        c.has_pane(f),
        c.pane(f).parent == node_id,
        c.has_node(node_id),
        new_leaf.0 < MAX_NODES,
        new_node.0 < MAX_NODES,
        np.0 < MAX_PANES,
        c.nodes[new_leaf.0 as int] is None,
        c.nodes[new_node.0 as int] is None,
        new_leaf != new_node,
        c.panes[np.0 as int] is None,
        e.nodes == c.nodes.update(new_leaf.0 as int, Some(NodeEntry { kind: Node::Leaf(np), parent: Some(node_id), depth: dd })).update(
            new_node.0 as int,
            Some(NodeEntry { parent: Some(node_id), kind: Node::Leaf(f), depth: dd }),
        ).update(node_id.0 as int, Some(NodeEntry { kind: Node::Split { axis, a: new_node, b: new_leaf }, ..c.node(node_id) })),
        e.panes.len() == MAX_PANES,
        e.panes[np.0 as int] is Some && e.panes[np.0 as int]->0.parent == new_leaf,
        e.panes[f.0 as int] is Some && e.panes[f.0 as int]->0.parent == new_node,
        forall|i: int| 0 <= i < MAX_PANES && i != np.0 && i != f.0 ==> #[trigger] e.panes[i] == c.panes[i],
    ensures
        e.links_ok(),
{
    let nl = new_leaf.0 as int;
    let nn = new_node.0 as int;
    let ni = node_id.0 as int;
    let fi = f.0 as int;
    let pi = np.0 as int;
    assert(c.panes[fi] is Some);
    assert(c.node(node_id).kind == Node::Leaf(f));
    assert forall|i: int| 0 <= i < MAX_PANES && #[trigger] e.panes[i] is Some implies ({
        let n = e.panes[i]->0.parent;
        e.has_node(n) && e.node(n).kind == Node::Leaf(PaneId(i as usize))
    }) by {
        if i != pi && i != fi {
            assert(c.panes[i] is Some);
            let n = c.panes[i]->0.parent;
            assert(c.has_node(n));
            assert(c.node(n).kind == Node::Leaf(PaneId(i as usize)));
            assert(n.0 as int != nl && n.0 as int != nn);
            assert(n.0 as int != ni);
        }
    }
    assert forall|n: int| 0 <= n < MAX_NODES && #[trigger] e.nodes[n] is Some implies match e.nodes[n]->0.kind {
        Node::Leaf(q) => e.has_pane(q) && e.pane(q).parent == NodeId(n as usize),
        Node::Split { axis, a, b } => {
            &&& a != b
            &&& e.has_node(a)
            &&& e.has_node(b)
            &&& e.node(a).parent == Some(NodeId(n as usize))
            &&& e.node(b).parent == Some(NodeId(n as usize))
        },
    } by {
        if n != nl && n != nn && n != ni {
            assert(c.nodes[n] is Some);
            match c.nodes[n]->0.kind {
                Node::Leaf(q) => {
                    assert(c.panes[q.0 as int] is Some);
                    assert(q.0 as int != pi);
                    assert(c.pane(q).parent == NodeId(n as usize));
                    assert(q.0 as int != fi);
                },
                Node::Split { axis, a, b } => {
                    assert(c.has_node(a) && c.has_node(b));
                    assert(a.0 as int != nl && a.0 as int != nn && b.0 as int != nl && b.0 as int != nn);
                    assert(e.node(a).parent == c.node(a).parent);
                    assert(e.node(b).parent == c.node(b).parent);
                },
            }
        }
    }
    assert forall|n: int| 0 <= n < MAX_NODES && #[trigger] e.nodes[n] is Some && e.nodes[n]->0.parent is Some implies ({
        let q = e.nodes[n]->0.parent->0;
        &&& e.has_node(q)
        &&& e.node(q).kind matches Node::Split { axis, a, b }
        &&& (a == NodeId(n as usize) || b == NodeId(n as usize))
    }) by {
        if n != nl && n != nn {
            assert(c.nodes[n] is Some);
            let q = c.nodes[n]->0.parent->0;
            assert(c.has_node(q));
            assert(q.0 as int != nl && q.0 as int != nn);
            assert(q.0 as int != ni);
        }
    }
}

/// Splitting the focused pane keeps the links: its leaf becomes a split
/// over two new leaves, one holding it and one holding the new pane.
proof fn lemma_links_split(c: CompView, v: VgaView, axis: Axis)
    requires
        sizes_ok(c),
        c.links_ok(),
    ensures
        c.split_result(v, axis) matches Some((d, w)) ==> d.links_ok() && sizes_ok(d),
        c.split_result(v, axis) matches Some((d, w)) ==> (depths_ok(c) ==> depths_ok(d)),
{
    if c.split_result(v, axis) is Some {
        let f = c.active().focused_pane;
        let node_id = c.pane(f).parent;
        if c.node(node_id).depth > 1 {
            return;
        }
        assert(c.panes[f.0 as int] is Some);
        lemma_first_free_from(c.nodes, 0);
        let (c1a, new_leaf) = c.alloc_node()->0;
        lemma_first_free_from(c1a.nodes, 0);
        let (c2a, new_node) = c1a.alloc_node()->0;
        let rect = c.pane(f).rect;
        let (c3, v3) = c2a.resize_pane(v, f, crate::compositor::split_first(rect, axis));
        lemma_first_free_from(c3.panes, 0);
        let (c4, v4, np) = c3.new_pane(v3, crate::compositor::split_second(rect, axis), new_leaf)->0;
        let dd = (c4.node(node_id).depth + 1) as u8;
        let c5 = c4.set_parent(f, new_node);
        let c6 = c5.set_node(new_leaf, NodeEntry { kind: Node::Leaf(np), parent: Some(node_id), depth: dd });
        let c7 = c6.set_node(new_node, NodeEntry { parent: Some(node_id), kind: Node::Leaf(f), depth: dd });
        let c8 = c7.set_node(node_id, NodeEntry { kind: Node::Split { axis, a: new_node, b: new_leaf }, ..c7.node(node_id) });
        let e = c8.set_focus(np);
        assert(c.split_result(v, axis) == e.render_result(v4));
        assert(c.nodes[new_leaf.0 as int] is None);
        assert(c.nodes[new_node.0 as int] is None);
        assert(c.panes[np.0 as int] is None);
        assert(np != f);
        assert(e.nodes == c.nodes.update(new_leaf.0 as int, Some(NodeEntry { kind: Node::Leaf(np), parent: Some(node_id), depth: dd })).update(
            new_node.0 as int,
            Some(NodeEntry { parent: Some(node_id), kind: Node::Leaf(f), depth: dd }),
        ).update(node_id.0 as int, Some(NodeEntry { kind: Node::Split { axis, a: new_node, b: new_leaf }, ..c.node(node_id) })));
        assert(forall|i: int| 0 <= i < MAX_PANES && i != np.0 && i != f.0 ==> #[trigger] e.panes[i] == c.panes[i]);
        lemma_links_split_shape(c, e, f, np, node_id, new_leaf, new_node, axis, dd);
        lemma_links_rendered(e, v4);
        if depths_ok(c) {
            assert(c.node(node_id).depth <= 2);
            assert(dd <= 2);
            assert(depths_ok(e)) by {
                assert forall|n: int| 0 <= n < MAX_NODES && #[trigger] e.nodes[n] is Some implies e.nodes[n]->0.depth
                    <= 2 by {
                    if n != new_leaf.0 as int && n != new_node.0 as int && n != node_id.0 as int {
                        assert(c.nodes[n] is Some);
                    }
                }
            }
            lemma_render_nodes_shape(e, v4, e.active().root, 4);
            assert(e.rendered(v4).0.nodes == e.nodes);
        }
    }
}

/// No node of any window lies more than two splits below its window's root.
pub open spec fn depths_ok(c: CompView) -> bool {
    forall|n: int| 0 <= n < MAX_NODES && #[trigger] c.nodes[n] is Some ==> c.nodes[n]->0.depth <= 2
}

/// A pane whose leaf already lies two splits deep is not split again: the
/// request is ignored and the compositor and screen stay as they were.
pub proof fn lemma_split_at_depth_limit(c: CompView, v: VgaView, axis: Axis)
    requires
        c.has_focus(),
        c.has_node(c.pane(c.active().focused_pane).parent),
        c.node(c.pane(c.active().focused_pane).parent).depth >= 2,
    ensures
        c.split_result(v, axis) == Some((c, v)),
{
}

/// Splitting keeps every node within two splits of its window's root, so a
/// window never holds more than four panes.
pub proof fn lemma_split_keeps_depths(c: CompView, v: VgaView, axis: Axis)
    requires
        sizes_ok(c),
        c.links_ok(),
        depths_ok(c),
    ensures
        c.split_result(v, axis) matches Some((d, w)) ==> depths_ok(d),
{
    lemma_links_split(c, v, axis);
}

/// The half of the split above the focused pane's leaf that does not hold
/// it, when there is such a split.
pub open spec fn sibling_of_focus(c: CompView) -> Option<NodeId> {
    let pn = c.pane(c.active().focused_pane).parent;
    match c.node(pn).parent {
        Some(node_id) => match c.node(node_id).kind {
            Node::Split { axis, a, b } => Some(if a == pn { b } else { a }),
            _ => None,
        },
        None => None,
    }
}

/// Closing the focused pane would leave a split where the split above it
/// was: its other half is itself split.
pub open spec fn closes_beside_split(c: CompView) -> bool {
    c.has_focus() && match sibling_of_focus(c) {
        Some(other) => c.has_node(other) && c.node(other).kind is Split,
        None => false,
    }
}

proof fn lemma_links_close_shape(c: CompView, e: CompView, f: PaneId, op: PaneId, pane_node: NodeId, node_id: NodeId, other: NodeId)
    requires
        c.links_ok(),
        c.panes.len() == MAX_PANES,
        c.nodes.len() == MAX_NODES,
        c.has_pane(f),
        c.pane(f).parent == pane_node,
        c.has_node(pane_node),
        c.node(pane_node).parent == Some(node_id),
        c.has_node(node_id),
        c.node(node_id).kind is Split,
        c.has_node(other),
        other != pane_node,
        c.node(other).parent == Some(node_id),
        c.node(other).kind == Node::Leaf(op),
        e.nodes == c.nodes.update(node_id.0 as int, Some(NodeEntry { kind: Node::Leaf(op), ..c.node(node_id) })).update(
            other.0 as int,
            None,
        ).update(pane_node.0 as int, None),
        e.panes.len() == MAX_PANES,
        e.panes[f.0 as int] is None,
        e.panes[op.0 as int] is Some && e.panes[op.0 as int]->0.parent == node_id,
        forall|i: int| 0 <= i < MAX_PANES && i != f.0 && i != op.0 ==> #[trigger] e.panes[i] == c.panes[i],
    ensures
        e.links_ok(),
{
    let ni = node_id.0 as int;
    let oi = other.0 as int;
    let pn = pane_node.0 as int;
    let fi = f.0 as int;
    let opi = op.0 as int;
    assert(c.panes[fi] is Some);
    assert(c.node(pane_node).kind == Node::Leaf(f));
    assert(c.panes[opi] is Some);
    assert(c.pane(op).parent == other);
    assert(f != op);
    assert(ni != oi && ni != pn);
    let (sa, sb) = match c.node(node_id).kind {
        Node::Split { axis, a, b } => (a, b),
        _ => (other, other),
    };
    assert(sa == pane_node || sb == pane_node);
    assert(sa == other || sb == other) by {
        assert(c.nodes[oi] is Some);
    }
    assert forall|i: int| 0 <= i < MAX_PANES && #[trigger] e.panes[i] is Some implies ({
        let n = e.panes[i]->0.parent;
        e.has_node(n) && e.node(n).kind == Node::Leaf(PaneId(i as usize))
    }) by {
        if i != fi && i != opi {
            assert(c.panes[i] is Some);
            let n = c.panes[i]->0.parent;
            assert(c.has_node(n));
            assert(c.node(n).kind == Node::Leaf(PaneId(i as usize)));
            assert(n.0 as int != pn && n.0 as int != oi && n.0 as int != ni);
        }
    }
    assert forall|n: int| 0 <= n < MAX_NODES && #[trigger] e.nodes[n] is Some implies match e.nodes[n]->0.kind {
        Node::Leaf(q) => e.has_pane(q) && e.pane(q).parent == NodeId(n as usize),
        Node::Split { axis, a, b } => {
            &&& a != b
            &&& e.has_node(a)
            &&& e.has_node(b)
            &&& e.node(a).parent == Some(NodeId(n as usize))
            &&& e.node(b).parent == Some(NodeId(n as usize))
        },
    } by {
        if n != ni {
            assert(c.nodes[n] is Some);
            match c.nodes[n]->0.kind {
                Node::Leaf(q) => {
                    assert(c.panes[q.0 as int] is Some);
                    assert(c.pane(q).parent == NodeId(n as usize));
                    assert(q.0 as int != fi && q.0 as int != opi);
                },
                Node::Split { axis, a, b } => {
                    assert(c.has_node(a) && c.has_node(b));
                    assert(c.node(a).parent == Some(NodeId(n as usize)));
                    assert(c.node(b).parent == Some(NodeId(n as usize)));
                    assert(a.0 as int != oi && a.0 as int != pn && b.0 as int != oi && b.0 as int != pn);
                    assert(e.node(a).parent == c.node(a).parent);
                    assert(e.node(b).parent == c.node(b).parent);
                },
            }
        }
    }
    assert forall|n: int| 0 <= n < MAX_NODES && #[trigger] e.nodes[n] is Some && e.nodes[n]->0.parent is Some implies ({
        let q = e.nodes[n]->0.parent->0;
        &&& e.has_node(q)
        &&& e.node(q).kind matches Node::Split { axis, a, b }
        &&& (a == NodeId(n as usize) || b == NodeId(n as usize))
    }) by {
        assert(c.nodes[n] is Some);
        let q = c.nodes[n]->0.parent->0;
        assert(c.has_node(q));
        assert(q.0 as int != pn && q.0 as int != oi);
        if q.0 as int == ni {
            assert(n == pn || n == oi);
        }
    }
}

/// Closing the focused pane beside a leaf keeps the links: the other pane
/// takes the split's place.
proof fn lemma_links_close(c: CompView, v: VgaView)
    requires
        sizes_ok(c),
        c.links_ok(),
        !closes_beside_split(c),
    ensures
        c.close_result(v) matches Some((d, w)) ==> d.links_ok() && sizes_ok(d),
{
    if c.close_result(v) is Some {
        let f = c.active().focused_pane;
        let pane_node = c.pane(f).parent;
        let node_id = c.node(pane_node).parent->0;
        assert(c.panes[f.0 as int] is Some);
        assert(c.nodes[pane_node.0 as int] is Some);
        assert(c.nodes[node_id.0 as int] is Some);
        let (a, b) = match c.node(node_id).kind {
            Node::Split { axis, a, b } => (a, b),
            _ => (pane_node, pane_node),
        };
        let other = if a == pane_node { b } else { a };
        assert(sibling_of_focus(c) == Some(other));
        let op = match c.node(other).kind {
            Node::Leaf(op) => op,
            _ => f,
        };
        assert(c.node(other).kind == Node::Leaf(op));
        assert(c.nodes[other.0 as int] is Some);
        let closing = c.pane(f).rect;
        let c1 = c.set_focus(op);
        let m = crate::compositor::merged(closing, c1.pane(op).rect)->0;
        let (c2, v2) = c1.resize_pane(v, op, m);
        let c3 = c2.set_parent(op, node_id);
        let e = c3.set_node(node_id, NodeEntry { kind: Node::Leaf(op), ..c3.node(node_id) }).remove_node(other).remove_node(
            pane_node,
        ).remove_pane(f);
        assert(c.close_result(v) == e.render_result(v2));
        assert(c.panes[op.0 as int] is Some);
        assert(f != op);
        assert(e.nodes == c.nodes.update(node_id.0 as int, Some(NodeEntry { kind: Node::Leaf(op), ..c.node(node_id) })).update(
            other.0 as int,
            None,
        ).update(pane_node.0 as int, None));
        assert(forall|i: int| 0 <= i < MAX_PANES && i != f.0 && i != op.0 ==> #[trigger] e.panes[i] == c.panes[i]);
        lemma_links_close_shape(c, e, f, op, pane_node, node_id, other);
        lemma_links_rendered(e, v2);
    }
}

/// A compositor with no window, pane or node has consistent links.
pub proof fn lemma_empty_links(c: CompView)
    requires
        c.panes == Seq::new(MAX_PANES as nat, |i: int| None::<crate::compositor::PaneView>),
        c.nodes == Seq::new(MAX_NODES as nat, |i: int| None::<NodeEntry>),
    ensures
        c.links_ok(),
{
}

/// Changing only windows, focus, the active window or the prefix keeps the
/// links.
proof fn lemma_links_same_tree(c: CompView, d: CompView)
    requires
        c.links_ok(),
        c.panes.len() == MAX_PANES,
        d.panes == c.panes,
        d.nodes == c.nodes,
    ensures
        d.links_ok(),
{
    lemma_links_frame(c, d);
}

/// Opening the first window keeps the links.
pub proof fn lemma_init_links(c: CompView, v: VgaView)
    requires
        sizes_ok(c),
        c.links_ok(),
    ensures
        c.init_result(v) matches Some((d, w)) ==> d.links_ok() && sizes_ok(d),
{
    lemma_links_open_window(c, v, 0);
    if c.open_window(v, 0) is Some {
        let (c1, v1) = c.open_window(v, 0)->0;
        assert(c1.panes.len() == MAX_PANES);
        lemma_links_rendered(c1, v1);
    }
}

/// Switching windows (opening the window when it has no tree yet) keeps
/// the links.
proof fn lemma_switch_links(c: CompView, v: VgaView, id: int)
    requires
        sizes_ok(c),
        c.links_ok(),
    ensures
        c.switch_result(v, id) matches Some((d, w)) ==> d.links_ok() && sizes_ok(d),
{
    if 0 <= id < crate::compositor::MAX_WINDOWS {
        let opened = if c.windows[id] is None { c.open_window(v, id) } else { Some((c, v)) };
        if c.windows[id] is None {
            lemma_links_open_window(c, v, id);
        }
        if opened is Some {
            let (c1, v1) = opened->0;
            let c2 = CompView { active_window: id, ..c1 };
            lemma_links_same_tree(c1, c2);
            lemma_links_rendered(c2, v1);
        }
    }
}

/// A key handed to the focused pane keeps the links.
proof fn lemma_forward_links(c: CompView, v: VgaView, e: KeyEvent)
    requires
        sizes_ok(c),
        c.links_ok(),
    ensures
        c.forward_result(v, e) matches Some((d, w, b)) ==> d.links_ok() && sizes_ok(d),
{
    if c.forward_result(v, e) is Some {
        let id = c.active().focused_pane;
        let (p, v1, entered) = c.pane(id).key_result(v, e);
        assert(p.parent == c.pane(id).parent);
        let d = c.set_pane(id, p);
        assert forall|i: int| 0 <= i < MAX_PANES && #[trigger] d.panes[i] is Some implies d.panes[i]->0.parent == c.panes[i]->0.parent by {
            if i != id.0 as int {
                assert(d.panes[i] == c.panes[i]);
            }
        }
        assert forall|i: int| 0 <= i < MAX_PANES implies (#[trigger] d.panes[i] is Some) == (c.panes[i] is Some) by {
            if i == id.0 as int {
                assert(c.panes[i] is Some);
            }
        }
        lemma_links_frame(c, d);
    }
}

proof fn lemma_command_split_links(c: CompView, v: VgaView, e: KeyEvent, axis: Axis)
    requires
        sizes_ok(c),
        c.links_ok(),
        !prefix_key(e),
        axis == Axis::Vertical ==> e.key == Key::Char(0x76),
        axis == Axis::Horizontal ==> e.key == Key::Char(0x73),
    ensures
        c.command_result(v, e) matches Some((d, w, b)) ==> d.links_ok() && sizes_ok(d),
{
    let c0 = CompView { prefix_armed: false, ..c };
    lemma_links_same_tree(c, c0);
    assert(c.command_result(v, e) == crate::compositor::with_flag(c0.split_result(v, axis), false));
    lemma_links_split(c0, v, axis);
}

proof fn lemma_command_close_links(c: CompView, v: VgaView, e: KeyEvent)
    requires
        sizes_ok(c),
        c.links_ok(),
        !prefix_key(e),
        e.key == Key::Char(0x71),
        !closes_beside_split(c),
    ensures
        c.command_result(v, e) matches Some((d, w, b)) ==> d.links_ok() && sizes_ok(d),
{
    let c0 = CompView { prefix_armed: false, ..c };
    lemma_links_same_tree(c, c0);
    assert(closes_beside_split(c0) == closes_beside_split(c));
    assert(c.command_result(v, e) == crate::compositor::with_flag(c0.close_result(v), false));
    lemma_links_close(c0, v);
}

proof fn lemma_command_move_links(c: CompView, v: VgaView, e: KeyEvent, axis: Axis)
    requires
        sizes_ok(c),
        c.links_ok(),
        !prefix_key(e),
        axis == Axis::Horizontal ==> (e.key == Key::Char(0x6A) || e.key == Key::Char(0x6B)),
        axis == Axis::Vertical ==> (e.key == Key::Char(0x68) || e.key == Key::Char(0x6C)),
    ensures
        c.command_result(v, e) matches Some((d, w, b)) ==> d.links_ok() && sizes_ok(d),
{
    let c0 = CompView { prefix_armed: false, ..c };
    lemma_links_same_tree(c, c0);
    let r = c0.move_focus_result(axis);
    assert(c.command_result(v, e) == match r {
        None => None,
        Some(c1) => Some((c1, v, false)),
    }) by {
        assert(e.key != Key::Char(0x76) && e.key != Key::Char(0x73) && e.key != Key::Char(0x71));
    }
    if r is Some {
        crate::compositor::lemma_move_focus_keeps_tree(c0, axis);
        let d = r->0;
        assert(d.panes == c0.panes && d.nodes == c0.nodes);
        lemma_links_same_tree(c0, d);
        assert(sizes_ok(d));
    }
}

proof fn lemma_command_links(c: CompView, v: VgaView, e: KeyEvent)
    requires
        sizes_ok(c),
        c.links_ok(),
        !(!prefix_key(e) && e.key == Key::Char(0x71) && closes_beside_split(c)),
    ensures
        c.command_result(v, e) matches Some((d, w, b)) ==> d.links_ok() && sizes_ok(d),
{
    if prefix_key(e) {
        let c0 = CompView { prefix_armed: false, ..c };
        lemma_links_same_tree(c, c0);
        assert(c.command_result(v, e) == c0.forward_result(v, e));
        lemma_forward_links(c0, v, e);
    } else if e.key == Key::Char(0x76) {
        lemma_command_split_links(c, v, e, Axis::Vertical);
    } else if e.key == Key::Char(0x73) {
        lemma_command_split_links(c, v, e, Axis::Horizontal);
    } else if e.key == Key::Char(0x71) {
        lemma_command_close_links(c, v, e);
    } else if e.key == Key::Char(0x6A) || e.key == Key::Char(0x6B) {
        lemma_command_move_links(c, v, e, Axis::Horizontal);
    } else if e.key == Key::Char(0x68) || e.key == Key::Char(0x6C) {
        lemma_command_move_links(c, v, e, Axis::Vertical);
    } else {
        let c0 = CompView { prefix_armed: false, ..c };
        lemma_links_same_tree(c, c0);
        assert(c.command_result(v, e) == Some((c0, v, false)));
    }
}

/// Handling one key event keeps the window trees consistent, except for
/// closing the focused pane while the other half of its split is itself
/// split: closing then hangs that split's halves under a node it has just
/// removed.
pub proof fn lemma_step_links(c: CompView, v: VgaView, e: KeyEvent)
    requires
        sizes_ok(c),
        c.links_ok(),
        !closes_beside_split_on(c, e),
    ensures
        c.step_result(v, e) matches Some((d, w, b)) ==> d.links_ok() && sizes_ok(d),
{
    c.lemma_step_plan(v, e);
    if c.prefix_armed {
        assert(c.step_result(v, e) == c.command_result(v, e));
        lemma_command_links(c, v, e);
    } else {
        match e.key {
            Key::Function(f) => lemma_switch_links(c, v, f as int),
            _ => {
                if prefix_key(e) {
                    lemma_links_same_tree(c, CompView { prefix_armed: true, ..c });
                } else {
                    lemma_forward_links(c, v, e);
                }
            },
        }
    }
}

proof fn lemma_set_pane_links(c: CompView, id: PaneId, p: crate::compositor::PaneView)
    requires
        c.links_ok(),
        c.panes.len() == MAX_PANES,
        c.has_pane(id),
        p.parent == c.pane(id).parent,
    ensures
        c.set_pane(id, p).links_ok(),
{
    let d = c.set_pane(id, p);
    assert forall|i: int| 0 <= i < MAX_PANES && #[trigger] d.panes[i] is Some implies d.panes[i]->0.parent == c.panes[i]->0.parent by {
        if i != id.0 as int {
            assert(d.panes[i] == c.panes[i]);
        }
    }
    assert forall|i: int| 0 <= i < MAX_PANES implies (#[trigger] d.panes[i] is Some) == (c.panes[i] is Some) by {
        if i == id.0 as int {
            assert(c.panes[i] is Some);
        }
    }
    lemma_links_frame(c, d);
}

/// Printing in the focused pane, and showing the prompt again after a
/// command, keep the window trees consistent.
pub proof fn lemma_output_links(c: CompView, v: VgaView, text: Seq<char>)
    requires
        sizes_ok(c),
        c.links_ok(),
    ensures
        c.write_result(v, text) matches Some((d, w)) ==> d.links_ok() && sizes_ok(d),
        c.finish_result(v) matches Some((d, w)) ==> d.links_ok() && sizes_ok(d),
{
    if c.has_focus() {
        let id = c.active().focused_pane;
        let p = c.pane(id);
        lemma_set_pane_links(c, id, p.with_term(p.term.write_chars(text)));
        lemma_links_rendered(c.set_pane(id, p.with_term(p.term.write_chars(text))), v);
        let t = crate::compositor::prompted(p.term);
        lemma_set_pane_links(c, id, crate::compositor::PaneView { input: crate::compositor::zero_input(), input_len: 0, term: t.flushed(), ..p });
    }
}

/// The event `e` would close the focused pane beside a split.
pub open spec fn closes_beside_split_on(c: CompView, e: KeyEvent) -> bool {
    c.prefix_armed && !prefix_key(e) && e.key == Key::Char(0x71) && closes_beside_split(c)
}

/// No event that `handle_keyboard` handles from `c` over the queue `q`
/// closes a pane beside a split.
pub open spec fn run_avoids_close_beside_split(c: CompView, v: VgaView, q: Seq<KeyEvent>) -> bool
    decreases q.len(),
{
    if q.len() == 0 {
        true
    } else {
        !closes_beside_split_on(c, q[0]) && match c.step_result(v, q[0]) {
            Some((c1, v1, entered)) => entered || run_avoids_close_beside_split(c1, v1, q.drop_first()),
            None => true,
        }
    }
}

/// Handling a queue of key events keeps the window trees consistent, as
/// long as none of them closes a pane beside a split.
pub proof fn lemma_run_links(c: CompView, v: VgaView, q: Seq<KeyEvent>)
    requires
        sizes_ok(c),
        c.links_ok(),
        run_avoids_close_beside_split(c, v, q),
    ensures
        c.run(v, q).comp.links_ok(),
    decreases q.len(),
{
    if q.len() > 0 {
        lemma_step_links(c, v, q[0]);
        match c.step_result(v, q[0]) {
            Some((c1, v1, entered)) => {
                if !entered {
                    lemma_run_links(c1, v1, q.drop_first());
                }
            },
            None => {},
        }
    }
}

} // verus!
