//! Trees kept in an arena: the nodes stand in the order in which they were registered, and a
//! node's id is its index.

use vstd::prelude::*;

verus! {

/// A node of an arena tree: what it carries, the ids of its children in their order, and the
/// id of its parent. The root is its own parent.
pub struct Node<K> {
    pub item: K,
    pub children: Seq<usize>,
    pub parent: usize,
}

/// Whether the node `c` is listed among the children of the node `p`.
pub open spec fn is_child<K>(nodes: Seq<Node<K>>, p: int, c: int) -> bool {
    exists|k: int| 0 <= k < nodes[p].children.len() && #[trigger] nodes[p].children[k] == c
}

/// The nodes form one tree under the node 0: every child exists, has a greater id than its
/// parent and names that parent; every node but the root stands among the children of its
/// parent; and the children of a node have ascending ids, so that none is listed twice.
pub open spec fn is_forest<K>(nodes: Seq<Node<K>>) -> bool {
    &&& nodes.len() >= 1
    &&& nodes[0].parent == 0
    &&& forall|i: int, k: int|
        0 <= i < nodes.len() && 0 <= k < nodes[i].children.len() ==> i
            < #[trigger] nodes[i].children[k] < nodes.len()
            && nodes[nodes[i].children[k] as int].parent == i
    &&& forall|c: int|
        1 <= c < nodes.len() ==> (#[trigger] nodes[c]).parent < c && is_child(
            nodes,
            nodes[c].parent as int,
            c,
        )
    &&& forall|i: int, k: int, l: int|
        0 <= i < nodes.len() && 0 <= k < l < nodes[i].children.len()
            ==> #[trigger] nodes[i].children[k] < #[trigger] nodes[i].children[l]
}

/// The arena with the root alone.
pub open spec fn root_only<K>(item: K) -> Seq<Node<K>> {
    seq![Node { item, children: Seq::<usize>::empty(), parent: 0 }]
}

/// The arena after a node with `item` was registered as the last child of `parent`.
pub open spec fn registered<K>(nodes: Seq<Node<K>>, parent: int, item: K) -> Seq<Node<K>> {
    nodes.update(
        parent,
        Node { children: nodes[parent].children.push(nodes.len() as usize), ..nodes[parent] },
    ).push(Node { item, children: Seq::<usize>::empty(), parent: parent as usize })
}

/// Registering a node keeps the tree a tree.
pub proof fn lemma_registered_is_forest<K>(nodes: Seq<Node<K>>, parent: int, item: K)
    requires
        is_forest(nodes),
        0 <= parent < nodes.len(),
        nodes.len() < usize::MAX,
    ensures
        is_forest(registered(nodes, parent, item)),
{
    let after = registered(nodes, parent, item);
    let n = nodes.len() as int;
    assert forall|i: int, k: int| 0 <= i < after.len() && 0 <= k < after[i].children.len() implies i
        < #[trigger] after[i].children[k] < after.len() && after[after[i].children[k] as int].parent
        == i by {
        if i == parent && k == nodes[parent].children.len() {
        } else {
            assert(after[i].children[k] == nodes[i].children[k]);
        }
    }
    assert forall|c: int| 1 <= c < after.len() implies (#[trigger] after[c]).parent < c
        && is_child(after, after[c].parent as int, c) by {
        if c == n {
            assert(after[parent].children[nodes[parent].children.len() as int] == n);
        } else {
            assert(nodes[c].parent < c);
            let p = nodes[c].parent as int;
            assert(is_child(nodes, p, c));
            let k = choose|k: int|
                0 <= k < nodes[p].children.len() && #[trigger] nodes[p].children[k] == c;
            assert(after[p].children[k] == c);
        }
    }
    assert forall|i: int, k: int, l: int|
        0 <= i < after.len() && 0 <= k < l < after[i].children.len()
        implies #[trigger] after[i].children[k] < #[trigger] after[i].children[l] by {
        if i == parent && l == nodes[parent].children.len() {
            assert(after[i].children[k] == nodes[i].children[k]);
        } else {
            assert(after[i].children[k] == nodes[i].children[k]);
            assert(after[i].children[l] == nodes[i].children[l]);
        }
    }
}

/// In a tree every id that is listed as a child is the id of a node; a child has a greater id
/// than its parent, so that no node stands below itself; and every node but the root is
/// listed as a child, of one node and at one place.
pub proof fn lemma_forest_is_sound<K>(nodes: Seq<Node<K>>)
    requires
        is_forest(nodes),
    ensures
        forall|i: int, k: int|
            0 <= i < nodes.len() && 0 <= k < nodes[i].children.len() ==> i
                < #[trigger] nodes[i].children[k] < nodes.len(),
        forall|c: int|
            1 <= c < nodes.len() ==> 0 <= (#[trigger] nodes[c]).parent < c && is_child(
                nodes,
                nodes[c].parent as int,
                c,
            ),
        forall|i: int, k: int, j: int, l: int|
            0 <= i < nodes.len() && 0 <= k < nodes[i].children.len() && 0 <= j < nodes.len() && 0
                <= l < nodes[j].children.len() && #[trigger] nodes[i].children[k]
                == #[trigger] nodes[j].children[l] ==> i == j && k == l,
{
    assert forall|i: int, k: int, j: int, l: int|
        0 <= i < nodes.len() && 0 <= k < nodes[i].children.len() && 0 <= j < nodes.len() && 0 <= l
            < nodes[j].children.len() && #[trigger] nodes[i].children[k]
            == #[trigger] nodes[j].children[l] implies i == j && k == l by {
        lemma_one_parent(nodes, i, k, j, l);
    }
}

/// In a tree a node stands exactly once among the children of its parent, and among the
/// children of no other node.
pub proof fn lemma_one_parent<K>(nodes: Seq<Node<K>>, i: int, k: int, j: int, l: int)
    requires
        is_forest(nodes),
        0 <= i < nodes.len(),
        0 <= k < nodes[i].children.len(),
        0 <= j < nodes.len(),
        0 <= l < nodes[j].children.len(),
        nodes[i].children[k] == nodes[j].children[l],
    ensures
        i == j,
        k == l,
{
    if k < l {
        assert(nodes[i].children[k] < nodes[i].children[l]);
    } else if l < k {
        assert(nodes[i].children[l] < nodes[i].children[k]);
    }
}

/// How many nodes stand above the node `id`: none above the root.
pub open spec fn depth<K>(nodes: Seq<Node<K>>, id: int) -> nat
    decreases id,
{
    if 0 < id < nodes.len() && nodes[id].parent < id {
        1 + depth(nodes, nodes[id].parent as int)
    } else {
        0
    }
}

/// Whether `good` holds of every node above the node `id` but the root.
pub open spec fn all_above<K>(nodes: Seq<Node<K>>, id: int, good: spec_fn(K) -> bool) -> bool
    decreases id,
{
    if 0 < id < nodes.len() && 0 < nodes[id].parent < id {
        good(nodes[nodes[id].parent as int].item) && all_above(nodes, nodes[id].parent as int, good)
    } else {
        true
    }
}

/// The lines of the node `id` and of the nodes below it, where `line` gives the line of a
/// node at a level and the children stand one level further in.
pub open spec fn outline<K>(
    nodes: Seq<Node<K>>,
    line: spec_fn(K, nat) -> Seq<char>,
    id: int,
    level: nat,
) -> Seq<char>
    decreases nodes.len() - id, nodes[id].children.len() + 1,
{
    if 0 <= id < nodes.len() {
        line(nodes[id].item, level) + outline_children(nodes, line, id, 0, level + 1)
    } else {
        Seq::<char>::empty()
    }
}

/// The lines of the children of the node `id` from the `k`-th on.
pub open spec fn outline_children<K>(
    nodes: Seq<Node<K>>,
    line: spec_fn(K, nat) -> Seq<char>,
    id: int,
    k: int,
    level: nat,
) -> Seq<char>
    decreases nodes.len() - id, nodes[id].children.len() - k,
{
    if 0 <= id < nodes.len() && 0 <= k < nodes[id].children.len() {
        let c = nodes[id].children[k] as int;
        (if id < c < nodes.len() {
            outline(nodes, line, c, level)
        } else {
            Seq::<char>::empty()
        }) + outline_children(nodes, line, id, k + 1, level)
    } else {
        Seq::<char>::empty()
    }
}

/// The text of the node `id` and of the nodes below it, where `open` gives what stands in
/// front of the children of a node at a level and `close` what stands behind them; the
/// children stand one level further in.
pub open spec fn framed<K>(
    nodes: Seq<Node<K>>,
    open: spec_fn(K, nat) -> Seq<char>,
    close: spec_fn(K, nat) -> Seq<char>,
    id: int,
    level: nat,
) -> Seq<char>
    decreases nodes.len() - id, nodes[id].children.len() + 1,
{
    if 0 <= id < nodes.len() {
        open(nodes[id].item, level) + framed_children(nodes, open, close, id, 0, level + 1) + close(
            nodes[id].item,
            level,
        )
    } else {
        Seq::<char>::empty()
    }
}

/// The texts of the children of the node `id` from the `k`-th on, each at `level`.
pub open spec fn framed_children<K>(
    nodes: Seq<Node<K>>,
    open: spec_fn(K, nat) -> Seq<char>,
    close: spec_fn(K, nat) -> Seq<char>,
    id: int,
    k: int,
    level: nat,
) -> Seq<char>
    decreases nodes.len() - id, nodes[id].children.len() - k,
{
    if 0 <= id < nodes.len() && 0 <= k < nodes[id].children.len() {
        let c = nodes[id].children[k] as int;
        (if id < c < nodes.len() {
            framed(nodes, open, close, c, level)
        } else {
            Seq::<char>::empty()
        }) + framed_children(nodes, open, close, id, k + 1, level)
    } else {
        Seq::<char>::empty()
    }
}

} // verus!
