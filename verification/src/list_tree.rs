//! The tree of a list: lists as parents, items as leaves.

use vstd::prelude::*;
use crate::arena::{
    is_forest, lemma_registered_is_forest, outline, outline_children, registered, root_only, Node,
};
use crate::chars::{indented_rest, push_indented_rest, push_str, whole_string};
use crate::text_tree::{push_repeated, repeated, text_outline, TextItem, TextTree};

verus! {

pub type ListNodeId = usize;

/// What a node of a list tree is: a list, or an item with its text.
#[derive(Debug)]
pub enum ListNodeKind {
    Parent,
    Leaf { text_tree: TextTree },
}

/// A list node kind with the text of an item as the nodes of its tree.
pub enum ListNodeKindView {
    Parent,
    Leaf { text_tree: Seq<Node<TextItem>> },
}

impl View for ListNodeKind {
    type V = ListNodeKindView;

    open spec fn view(&self) -> ListNodeKindView {
        match self {
            ListNodeKind::Parent => ListNodeKindView::Parent,
            ListNodeKind::Leaf { text_tree } => ListNodeKindView::Leaf { text_tree: text_tree@ },
        }
    }
}

/// Whether the items of a list are numbered.
#[derive(Debug, Clone, Copy, PartialEq, Eq, Structural)]
pub enum ListNodeStyle {
    Ordered,
    Unordered,
}

/// What a node of a list tree carries.
pub struct ListItem {
    pub kind: ListNodeKindView,
    pub style: ListNodeStyle,
}

pub open spec fn style_name(style: ListNodeStyle) -> Seq<char> {
    match style {
        ListNodeStyle::Ordered => "ordered"@,
        ListNodeStyle::Unordered => "unordered"@,
    }
}

/// How a kind is written in the outline of a list tree at `level`: an item with the outline
/// of its text below it, the root of the text left out and the rest `level` steps further in.
pub open spec fn list_kind_label(kind: ListNodeKindView, level: nat) -> Seq<char> {
    match kind {
        ListNodeKindView::Parent => "[Parent]"@,
        ListNodeKindView::Leaf { text_tree } => "[Item]\n"@ + indented_rest(
            text_outline(text_tree),
            repeated("  "@, level),
        ),
    }
}

/// The line of a node in the outline of a list tree; an item is written with its style.
pub open spec fn list_line(item: ListItem, level: nat) -> Seq<char> {
    repeated("  "@, level) + "- "@ + (match item.kind {
        ListNodeKindView::Parent => Seq::<char>::empty(),
        ListNodeKindView::Leaf { .. } => style_name(item.style) + " "@,
    }) + list_kind_label(item.kind, level) + "\n"@
}

pub open spec fn list_line_fn() -> spec_fn(ListItem, nat) -> Seq<char> {
    |item: ListItem, level: nat| list_line(item, level)
}

/// The outline of a list tree.
pub open spec fn list_outline(nodes: Seq<Node<ListItem>>) -> Seq<char> {
    outline(nodes, list_line_fn(), 0, 0)
}

impl ListNodeStyle {
    pub fn to_string(&self) -> (s: String)
        ensures
            s@ == style_name(*self),
    {
        let mut out: Vec<char> = Vec::new();
        match self {
            ListNodeStyle::Ordered => push_str(&mut out, "ordered"),
            ListNodeStyle::Unordered => push_str(&mut out, "unordered"),
        }
        whole_string(&out)
    }
}

impl ListNodeKind {
    /// The text tree of an item is well formed.
    pub open spec fn wf(&self) -> bool {
        match self {
            ListNodeKind::Parent => true,
            ListNodeKind::Leaf { text_tree } => text_tree.wf(),
        }
    }

    /// Appends the way this kind is written in an outline at `level`.
    pub fn write_label(&self, level: usize, out: &mut Vec<char>)
        requires
            self.wf(),
        ensures
            final(out)@ == old(out)@ + list_kind_label(self@, level as nat),
    {
        match self {
            ListNodeKind::Parent => {
                push_str(out, "[Parent]");
            },
            ListNodeKind::Leaf { text_tree } => {
                push_str(out, "[Item]\n");
                let text = text_tree.outline_chars();
                let mut prefix: Vec<char> = Vec::new();
                push_repeated(&mut prefix, "  ", level);
                assert(prefix@ =~= repeated("  "@, level as nat));
                push_indented_rest(out, &text, &prefix);
                assert(out@ =~= old(out)@ + list_kind_label(self@, level as nat));
            },
        }
    }

    /// How this kind is written in an outline at `level`.
    pub fn to_string(&self, level: usize) -> (s: String)
        requires
            self.wf(),
        ensures
            s@ == list_kind_label(self@, level as nat),
    {
        let mut out: Vec<char> = Vec::new();
        self.write_label(level, &mut out);
        assert(out@ =~= list_kind_label(self@, level as nat));
        whole_string(&out)
    }
}

/// A node of a list tree.
#[derive(Debug)]
pub struct ListNode {
    id: ListNodeId,
    kind: ListNodeKind,
    children: Vec<ListNodeId>,
    style: ListNodeStyle,
    parent: ListNodeId,
}

impl View for ListNode {
    type V = Node<ListItem>;

    closed spec fn view(&self) -> Node<ListItem> {
        Node {
            item: ListItem { kind: self.kind@, style: self.style },
            children: self.children@,
            parent: self.parent,
        }
    }
}

impl ListNode {
    /// A node without children, which is its own parent until it is registered in a tree.
    pub fn new(id: ListNodeId, kind: ListNodeKind, style: ListNodeStyle) -> (n: Self)
        ensures
            n@ == (Node {
                item: ListItem { kind: kind@, style },
                children: Seq::<usize>::empty(),
                parent: id,
            }),
            n.spec_id() == id,
            n.spec_kind() == kind,
    {
        Self { id, kind, children: Vec::new(), style, parent: id }
    }

    pub closed spec fn spec_id(&self) -> ListNodeId {
        self.id
    }

    pub closed spec fn spec_kind(&self) -> ListNodeKind {
        self.kind
    }

    pub fn id(&self) -> (id: ListNodeId)
        ensures
            id == self.spec_id(),
    {
        self.id
    }

    pub fn kind(&self) -> (k: &ListNodeKind)
        ensures
            k@ == self@.item.kind,
            *k == self.spec_kind(),
    {
        &self.kind
    }

    pub fn children(&self) -> (c: &Vec<ListNodeId>)
        ensures
            c@ == self@.children,
    {
        &self.children
    }

    pub fn style(&self) -> (s: &ListNodeStyle)
        ensures
            *s == self@.item.style,
    {
        &self.style
    }

    /// The id of the node that this node is a child of.
    pub fn parent(&self) -> (p: ListNodeId)
        ensures
            p == self@.parent,
    {
        self.parent
    }

    /// Appends the line of this node in an outline at `level`.
    fn write_line(&self, level: usize, out: &mut Vec<char>)
        requires
            self.spec_kind().wf(),
        ensures
            final(out)@ == old(out)@ + list_line(self@.item, level as nat),
    {
        push_repeated(out, "  ", level);
        push_str(out, "- ");
        let ghost head = out@;
        match &self.kind {
            ListNodeKind::Parent => {
                assert(out@ =~= head + Seq::<char>::empty());
            },
            ListNodeKind::Leaf { .. } => {
                match self.style {
                    ListNodeStyle::Ordered => push_str(out, "ordered"),
                    ListNodeStyle::Unordered => push_str(out, "unordered"),
                }
                push_str(out, " ");
                assert(out@ =~= head + (style_name(self.style) + " "@));
            },
        }
        self.kind.write_label(level, out);
        push_str(out, "\n");
        assert(out@ =~= old(out)@ + list_line(self@.item, level as nat));
    }

    pub fn register_child(&mut self, child: ListNodeId)
        ensures
            final(self)@ == (Node { children: old(self)@.children.push(child), ..old(self)@ }),
            final(self).spec_id() == old(self).spec_id(),
            final(self).spec_kind() == old(self).spec_kind(),
    {
        self.children.push(child);
    }
}

/// The tree of a list: an arena of nodes under a root, which is an unordered list.
#[derive(Debug)]
pub struct ListTree {
    items: Vec<ListNode>,
}

impl View for ListTree {
    type V = Seq<Node<ListItem>>;

    closed spec fn view(&self) -> Seq<Node<ListItem>> {
        self.items@.map_values(|n: ListNode| n@)
    }
}

impl ListTree {
    /// The nodes form a tree under the root, which is an unordered list, every node has its
    /// index as its id, and the text trees of the items are well formed.
    pub closed spec fn wf(&self) -> bool {
        &&& is_forest(self@)
        &&& self@[0].item.kind is Parent
        &&& self@[0].item.style == ListNodeStyle::Unordered
        &&& forall|i: int|
            0 <= i < self.items@.len() ==> (#[trigger] self.items@[i]).spec_id() == i
                && self.items@[i].spec_kind().wf()
    }

    /// A tree is a tree in the sense of the arena.
    pub proof fn lemma_wf(&self)
        requires
            self.wf(),
        ensures
            is_forest(self@),
            self@[0].item.kind is Parent,
            self@[0].item.style == ListNodeStyle::Unordered,
    {
    }

    /// The tree with a root alone.
    pub fn new() -> (t: Self)
        ensures
            t.wf(),
            t@ == root_only(
                ListItem { kind: ListNodeKindView::Parent, style: ListNodeStyle::Unordered },
            ),
    {
        let mut items: Vec<ListNode> = Vec::new();
        items.push(ListNode::new(0, ListNodeKind::Parent, ListNodeStyle::Unordered));
        let t = Self { items };
        assert(t@ =~= root_only(
            ListItem { kind: ListNodeKindView::Parent, style: ListNodeStyle::Unordered },
        ));
        t
    }

    pub fn root(&self) -> (n: &ListNode)
        requires
            self.wf(),
        ensures
            n@ == self@[0],
            n.spec_id() == 0,
            n.spec_kind().wf(),
    {
        &self.items[0]
    }

    /// The number of nodes.
    pub fn len(&self) -> (n: usize)
        ensures
            n == self@.len(),
    {
        self.items.len()
    }

    pub fn get_node(&self, id: ListNodeId) -> (n: &ListNode)
        requires
            self.wf(),
            id < self@.len(),
        ensures
            n@ == self@[id as int],
            n.spec_id() == id,
            n.spec_kind().wf(),
    {
        &self.items[id]
    }

    /// Adds a node as the last child of the node `parent_id`, and gives its id.
    pub fn register_node(
        &mut self,
        parent_id: ListNodeId,
        kind: ListNodeKind,
        style: ListNodeStyle,
    ) -> (id:
        ListNodeId)
        requires
            old(self).wf(),
            parent_id < old(self)@.len(),
            kind.wf(),
        ensures
            final(self).wf(),
            final(self)@ == registered(
                old(self)@,
                parent_id as int,
                ListItem { kind: kind@, style },
            ),
            id == old(self)@.len(),
    {
        let id = self.items.len();
        let mut node = ListNode::new(id, kind, style);
        node.parent = parent_id;
        self.items.push(node);
        assert(self.items.len() <= usize::MAX);
        let mut parent = self.items.remove(parent_id);
        parent.register_child(id);
        self.items.insert(parent_id, parent);
        proof {
            let after = registered(old(self)@, parent_id as int, ListItem { kind: kind@, style });
            assert(self@.len() == after.len());
            assert forall|i: int| 0 <= i < after.len() implies self@[i] == after[i] by {
                if i < parent_id {
                    assert(self.items@[i] == old(self).items@[i]);
                } else if i == parent_id {
                } else if i < id {
                    assert(self.items@[i] == old(self).items@[i]);
                } else {
                }
            }
            assert(self@ =~= after);
            lemma_registered_is_forest(
                old(self)@,
                parent_id as int,
                ListItem { kind: kind@, style },
            );
            assert forall|i: int| 0 <= i < self.items@.len() implies (
            #[trigger] self.items@[i]).spec_id() == i && self.items@[i].spec_kind().wf() by {
                if i < id && i != parent_id {
                    assert(self.items@[i] == old(self).items@[i]);
                } else if i == parent_id {
                    assert(old(self).items@[i].spec_kind().wf());
                }
            }
        }
        id
    }

    /// Appends the lines of the node `id` and of the nodes below it.
    fn write_outline(&self, id: ListNodeId, level: usize, out: &mut Vec<char>)
        requires
            self.wf(),
            id < self@.len(),
            level + (self@.len() - id) <= usize::MAX,
        ensures
            final(out)@ == old(out)@ + outline(self@, list_line_fn(), id as int, level as nat),
        decreases self@.len() - id,
    {
        let node = &self.items[id];
        node.write_line(level, out);
        let ghost head = out@;
        let mut k: usize = 0;
        while k < node.children.len()
            invariant
                self.wf(),
                id < self@.len(),
                level + (self@.len() - id) <= usize::MAX,
                node == &self.items@[id as int],
                k <= node.children@.len(),
                head + outline_children(self@, list_line_fn(), id as int, 0, (level + 1) as nat)
                    == out@ + outline_children(
                    self@,
                    list_line_fn(),
                    id as int,
                    k as int,
                    (level + 1) as nat,
                ),
            decreases node.children@.len() - k,
        {
            let child = node.children[k];
            assert(self@[id as int].children[k as int] == child);
            assert(id < child < self@.len());
            let ghost before = out@;
            self.write_outline(child, level + 1, out);
            assert(before + (outline(self@, list_line_fn(), child as int, (level + 1) as nat)
                + outline_children(
                self@,
                list_line_fn(),
                id as int,
                k + 1,
                (level + 1) as nat,
            )) =~= out@ + outline_children(
                self@,
                list_line_fn(),
                id as int,
                k + 1,
                (level + 1) as nat,
            ));
            k += 1;
        }
        assert(out@ =~= old(out)@ + (list_line(self@[id as int].item, level as nat)
            + outline_children(self@, list_line_fn(), id as int, 0, (level + 1) as nat)));
    }

    /// The outline of the tree: one line for each node, the children of a node below it and
    /// two spaces further in.
    pub fn to_string(&self) -> (s: String)
        requires
            self.wf(),
        ensures
            s@ == list_outline(self@),
    {
        let mut out: Vec<char> = Vec::new();
        assert(self.items.len() <= usize::MAX);
        self.write_outline(0, 0, &mut out);
        assert(out@ =~= list_outline(self@));
        whole_string(&out)
    }
}

} // verus!
