//! The tree of a quote: quotes as parents, their texts as leaves.

use vstd::prelude::*;
use crate::arena::{
    is_forest, lemma_registered_is_forest, outline, outline_children, registered, root_only, Node,
};
use crate::chars::{indented_rest, push_indented_rest, push_str, whole_string};
use crate::text_tree::{push_repeated, repeated, text_outline, TextItem, TextTree};

verus! {

pub type QuoteNodeId = usize;

/// What a node of a quote tree is: a quote, or a text in a quote.
#[derive(Debug)]
pub enum QuoteNodeKind {
    Parent,
    Leaf { text_tree: TextTree },
}

/// A quote node kind with its text as the nodes of the text's tree.
pub enum QuoteNodeKindView {
    Parent,
    Leaf { text_tree: Seq<Node<TextItem>> },
}

impl View for QuoteNodeKind {
    type V = QuoteNodeKindView;

    open spec fn view(&self) -> QuoteNodeKindView {
        match self {
            QuoteNodeKind::Parent => QuoteNodeKindView::Parent,
            QuoteNodeKind::Leaf { text_tree } => QuoteNodeKindView::Leaf { text_tree: text_tree@ },
        }
    }
}

/// What a node of a quote tree carries.
pub struct QuoteItem {
    pub kind: QuoteNodeKindView,
}

/// How a kind is written in the outline of a quote tree at `level`: a text with its outline
/// below it, the root of the text left out and the rest `level` steps further in.
pub open spec fn quote_kind_label(kind: QuoteNodeKindView, level: nat) -> Seq<char> {
    match kind {
        QuoteNodeKindView::Parent => "[Parent]"@,
        QuoteNodeKindView::Leaf { text_tree } => "[Leaf]\n"@ + indented_rest(
            text_outline(text_tree),
            repeated("  "@, level),
        ),
    }
}

/// The line of a node in the outline of a quote tree.
pub open spec fn quote_line(item: QuoteItem, level: nat) -> Seq<char> {
    repeated("  "@, level) + "- "@ + quote_kind_label(item.kind, level) + "\n"@
}

pub open spec fn quote_line_fn() -> spec_fn(QuoteItem, nat) -> Seq<char> {
    |item: QuoteItem, level: nat| quote_line(item, level)
}

/// The outline of a quote tree.
pub open spec fn quote_outline(nodes: Seq<Node<QuoteItem>>) -> Seq<char> {
    outline(nodes, quote_line_fn(), 0, 0)
}

impl QuoteNodeKind {
    /// The text tree of a text is well formed.
    pub open spec fn wf(&self) -> bool {
        match self {
            QuoteNodeKind::Parent => true,
            QuoteNodeKind::Leaf { text_tree } => text_tree.wf(),
        }
    }

    /// Appends the way this kind is written in an outline at `level`.
    pub fn write_label(&self, level: usize, out: &mut Vec<char>)
        requires
            self.wf(),
        ensures
            final(out)@ == old(out)@ + quote_kind_label(self@, level as nat),
    {
        match self {
            QuoteNodeKind::Parent => {
                push_str(out, "[Parent]");
            },
            QuoteNodeKind::Leaf { text_tree } => {
                push_str(out, "[Leaf]\n");
                let text = text_tree.outline_chars();
                let mut prefix: Vec<char> = Vec::new();
                push_repeated(&mut prefix, "  ", level);
                assert(prefix@ =~= repeated("  "@, level as nat));
                push_indented_rest(out, &text, &prefix);
                assert(out@ =~= old(out)@ + quote_kind_label(self@, level as nat));
            },
        }
    }

    /// How this kind is written in an outline at `level`.
    pub fn to_string(&self, level: usize) -> (s: String)
        requires
            self.wf(),
        ensures
            s@ == quote_kind_label(self@, level as nat),
    {
        let mut out: Vec<char> = Vec::new();
        self.write_label(level, &mut out);
        assert(out@ =~= quote_kind_label(self@, level as nat));
        whole_string(&out)
    }
}

/// A node of a quote tree.
#[derive(Debug)]
pub struct QuoteNode {
    id: QuoteNodeId,
    kind: QuoteNodeKind,
    children: Vec<QuoteNodeId>,
    parent: QuoteNodeId,
}

impl View for QuoteNode {
    type V = Node<QuoteItem>;

    closed spec fn view(&self) -> Node<QuoteItem> {
        Node {
            item: QuoteItem { kind: self.kind@ },
            children: self.children@,
            parent: self.parent,
        }
    }
}

impl QuoteNode {
    /// A node without children, which is its own parent until it is registered in a tree.
    pub fn new(id: QuoteNodeId, kind: QuoteNodeKind) -> (n: Self)
        ensures
            n@ == (Node {
                item: QuoteItem { kind: kind@ },
                children: Seq::<usize>::empty(),
                parent: id,
            }),
            n.spec_id() == id,
            n.spec_kind() == kind,
    {
        Self { id, kind, children: Vec::new(), parent: id }
    }

    pub closed spec fn spec_id(&self) -> QuoteNodeId {
        self.id
    }

    pub closed spec fn spec_kind(&self) -> QuoteNodeKind {
        self.kind
    }

    pub fn id(&self) -> (id: QuoteNodeId)
        ensures
            id == self.spec_id(),
    {
        self.id
    }

    pub fn kind(&self) -> (k: &QuoteNodeKind)
        ensures
            k@ == self@.item.kind,
            *k == self.spec_kind(),
    {
        &self.kind
    }

    pub fn children(&self) -> (c: &Vec<QuoteNodeId>)
        ensures
            c@ == self@.children,
    {
        &self.children
    }

    /// The id of the node that this node is a child of.
    pub fn parent(&self) -> (p: QuoteNodeId)
        ensures
            p == self@.parent,
    {
        self.parent
    }

    /// Appends the line of this node in an outline at `level`.
    fn write_line(&self, level: usize, out: &mut Vec<char>)
        requires
            self.spec_kind().wf(),
        ensures
            final(out)@ == old(out)@ + quote_line(self@.item, level as nat),
    {
        push_repeated(out, "  ", level);
        push_str(out, "- ");
        self.kind.write_label(level, out);
        push_str(out, "\n");
        assert(out@ =~= old(out)@ + quote_line(self@.item, level as nat));
    }

    pub fn register_child(&mut self, child: QuoteNodeId)
        ensures
            final(self)@ == (Node { children: old(self)@.children.push(child), ..old(self)@ }),
            final(self).spec_id() == old(self).spec_id(),
            final(self).spec_kind() == old(self).spec_kind(),
    {
        self.children.push(child);
    }
}

/// The tree of a quote: an arena of nodes under a root, which is a quote.
#[derive(Debug)]
pub struct QuoteTree {
    nodes: Vec<QuoteNode>,
}

impl View for QuoteTree {
    type V = Seq<Node<QuoteItem>>;

    closed spec fn view(&self) -> Seq<Node<QuoteItem>> {
        self.nodes@.map_values(|n: QuoteNode| n@)
    }
}

impl QuoteTree {
    /// The nodes form a tree under the root, which is a quote, every node has its index as
    /// its id, and the text trees of the texts are well formed.
    pub closed spec fn wf(&self) -> bool {
        &&& is_forest(self@)
        &&& self@[0].item.kind is Parent
        &&& forall|i: int|
            0 <= i < self.nodes@.len() ==> (#[trigger] self.nodes@[i]).spec_id() == i
                && self.nodes@[i].spec_kind().wf()
    }

    /// A tree is a tree in the sense of the arena.
    pub proof fn lemma_wf(&self)
        requires
            self.wf(),
        ensures
            is_forest(self@),
            self@[0].item.kind is Parent,
    {
    }

    /// The tree with a root alone.
    pub fn new() -> (t: Self)
        ensures
            t.wf(),
            t@ == root_only(QuoteItem { kind: QuoteNodeKindView::Parent }),
    {
        let mut nodes: Vec<QuoteNode> = Vec::new();
        nodes.push(QuoteNode::new(0, QuoteNodeKind::Parent));
        let t = Self { nodes };
        assert(t@ =~= root_only(QuoteItem { kind: QuoteNodeKindView::Parent }));
        t
    }

    pub fn root(&self) -> (n: &QuoteNode)
        requires
            self.wf(),
        ensures
            n@ == self@[0],
            n.spec_id() == 0,
            n.spec_kind().wf(),
    {
        &self.nodes[0]
    }

    /// The number of nodes.
    pub fn len(&self) -> (n: usize)
        ensures
            n == self@.len(),
    {
        self.nodes.len()
    }

    pub fn get_node(&self, id: QuoteNodeId) -> (n: &QuoteNode)
        requires
            self.wf(),
            id < self@.len(),
        ensures
            n@ == self@[id as int],
            n.spec_id() == id,
            n.spec_kind().wf(),
    {
        &self.nodes[id]
    }

    /// Adds a node as the last child of the node `parent_id`, and gives its id.
    pub fn register_node(
        &mut self,
        parent_id: QuoteNodeId,
        kind: QuoteNodeKind,
    ) -> (id: QuoteNodeId)
        requires
            old(self).wf(),
            parent_id < old(self)@.len(),
            kind.wf(),
        ensures
            final(self).wf(),
            final(self)@ == registered(old(self)@, parent_id as int, QuoteItem { kind: kind@ }),
            id == old(self)@.len(),
    {
        let id = self.nodes.len();
        let mut node = QuoteNode::new(id, kind);
        node.parent = parent_id;
        self.nodes.push(node);
        assert(self.nodes.len() <= usize::MAX);
        let mut parent = self.nodes.remove(parent_id);
        parent.register_child(id);
        self.nodes.insert(parent_id, parent);
        proof {
            let after = registered(old(self)@, parent_id as int, QuoteItem { kind: kind@ });
            assert(self@.len() == after.len());
            assert forall|i: int| 0 <= i < after.len() implies self@[i] == after[i] by {
                if i < parent_id {
                    assert(self.nodes@[i] == old(self).nodes@[i]);
                } else if i == parent_id {
                } else if i < id {
                    assert(self.nodes@[i] == old(self).nodes@[i]);
                } else {
                }
            }
            assert(self@ =~= after);
            lemma_registered_is_forest(old(self)@, parent_id as int, QuoteItem { kind: kind@ });
            assert forall|i: int| 0 <= i < self.nodes@.len() implies (
            #[trigger] self.nodes@[i]).spec_id() == i && self.nodes@[i].spec_kind().wf() by {
                if i < id && i != parent_id {
                    assert(self.nodes@[i] == old(self).nodes@[i]);
                } else if i == parent_id {
                    assert(old(self).nodes@[i].spec_kind().wf());
                }
            }
        }
        id
    }

    /// Appends the lines of the node `id` and of the nodes below it.
    fn write_outline(&self, id: QuoteNodeId, level: usize, out: &mut Vec<char>)
        requires
            self.wf(),
            id < self@.len(),
            level + (self@.len() - id) <= usize::MAX,
        ensures
            final(out)@ == old(out)@ + outline(self@, quote_line_fn(), id as int, level as nat),
        decreases self@.len() - id,
    {
        let node = &self.nodes[id];
        node.write_line(level, out);
        let ghost head = out@;
        let mut k: usize = 0;
        while k < node.children.len()
            invariant
                self.wf(),
                id < self@.len(),
                level + (self@.len() - id) <= usize::MAX,
                node == &self.nodes@[id as int],
                k <= node.children@.len(),
                head + outline_children(self@, quote_line_fn(), id as int, 0, (level + 1) as nat)
                    == out@ + outline_children(
                    self@,
                    quote_line_fn(),
                    id as int,
                    k as int,
                    (level + 1) as nat,
                ),
            decreases node.children@.len() - k,
        {
            let child = node.children[k];
            assert(self@[id as int].children[k as int] == child);
            assert(id < child < self@.len());
            let ghost before = out@;
            self.write_outline(child, level + 1, out);
            assert(before + (outline(self@, quote_line_fn(), child as int, (level + 1) as nat)
                + outline_children(
                self@,
                quote_line_fn(),
                id as int,
                k + 1,
                (level + 1) as nat,
            )) =~= out@ + outline_children(
                self@,
                quote_line_fn(),
                id as int,
                k + 1,
                (level + 1) as nat,
            ));
            k += 1;
        }
        assert(out@ =~= old(out)@ + (quote_line(self@[id as int].item, level as nat)
            + outline_children(self@, quote_line_fn(), id as int, 0, (level + 1) as nat)));
    }

    /// The outline of the tree: one line for each node, the children of a node below it and
    /// two spaces further in.
    pub fn to_string(&self) -> (s: String)
        requires
            self.wf(),
        ensures
            s@ == quote_outline(self@),
    {
        let mut out: Vec<char> = Vec::new();
        assert(self.nodes.len() <= usize::MAX);
        self.write_outline(0, 0, &mut out);
        assert(out@ =~= quote_outline(self@));
        whole_string(&out)
    }
}

} // verus!
