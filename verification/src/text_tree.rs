//! The tree of a piece of inline text.

use vstd::prelude::*;
use crate::arena::{
    is_forest, lemma_registered_is_forest, outline, outline_children, registered, root_only, Node,
};
use crate::chars::{push_all, push_str, to_chars, whole_string};
use crate::parameters::{Entry, FunctionParameters};
use crate::source_span::SourceSpan;

verus! {

pub type TextNodeId = usize;

/// What a node of a text tree is.
#[derive(Debug, PartialEq)]
pub enum TextNodeKind {
    Root,
    Text { src: String },
    Bold,
    Italic,
    Code,
    Link { target: String },
    Image { src: String },
    Function { name: String, parameters: FunctionParameters },
}

/// A text node kind with its texts as character sequences.
pub enum TextNodeKindView {
    Root,
    Text { src: Seq<char> },
    Bold,
    Italic,
    Code,
    Link { target: Seq<char> },
    Image { src: Seq<char> },
    Function { name: Seq<char>, parameters: Seq<Entry> },
}

impl View for TextNodeKind {
    type V = TextNodeKindView;

    open spec fn view(&self) -> TextNodeKindView {
        match self {
            TextNodeKind::Root => TextNodeKindView::Root,
            TextNodeKind::Text { src } => TextNodeKindView::Text { src: src@ },
            TextNodeKind::Bold => TextNodeKindView::Bold,
            TextNodeKind::Italic => TextNodeKindView::Italic,
            TextNodeKind::Code => TextNodeKindView::Code,
            TextNodeKind::Link { target } => TextNodeKindView::Link { target: target@ },
            TextNodeKind::Image { src } => TextNodeKindView::Image { src: src@ },
            TextNodeKind::Function { name, parameters } => TextNodeKindView::Function {
                name: name@,
                parameters: parameters@,
            },
        }
    }
}

/// What a node of a text tree carries: its kind and the region of the source it stands for.
pub struct TextItem {
    pub kind: TextNodeKindView,
    pub span: SourceSpan,
}

/// `unit` written `n` times.
pub open spec fn repeated(unit: Seq<char>, n: nat) -> Seq<char>
    decreases n,
{
    if n == 0 {
        Seq::<char>::empty()
    } else {
        repeated(unit, (n - 1) as nat) + unit
    }
}

/// Appends `unit` to `out` `n` times.
pub fn push_repeated(out: &mut Vec<char>, unit: &str, n: usize)
    ensures
        final(out)@ == old(out)@ + repeated(unit@, n as nat),
{
    let chars = to_chars(unit);
    let mut i: usize = 0;
    assert(old(out)@ + repeated(unit@, 0) =~= old(out)@);
    while i < n
        invariant
            i <= n,
            chars@ == unit@,
            out@ == old(out)@ + repeated(unit@, i as nat),
        decreases n - i,
    {
        push_all(out, &chars);
        i += 1;
        assert(old(out)@ + repeated(unit@, i as nat) =~= old(out)@ + repeated(
            unit@,
            (i - 1) as nat,
        ) + unit@);
    }
}

/// The parameters as they are listed: `name: value`, with `, ` in between.
pub open spec fn listed(parameters: Seq<Entry>) -> Seq<char>
    decreases parameters.len(),
{
    if parameters.len() == 0 {
        Seq::<char>::empty()
    } else if parameters.len() == 1 {
        parameters[0].0 + ": "@ + parameters[0].1
    } else {
        listed(parameters.drop_last()) + ", "@ + parameters.last().0 + ": "@ + parameters.last().1
    }
}

/// How a kind is written in the outline of a tree.
pub open spec fn kind_label(kind: TextNodeKindView) -> Seq<char> {
    match kind {
        TextNodeKindView::Root => "[Root]"@,
        TextNodeKindView::Text { src } => "[Text]("@ + src + ")"@,
        TextNodeKindView::Bold => "[Bold]"@,
        TextNodeKindView::Italic => "[Italic]"@,
        TextNodeKindView::Code => "[Code]"@,
        TextNodeKindView::Link { target } => "[Link]("@ + target + ")"@,
        TextNodeKindView::Image { src } => "[Image]("@ + src + ")"@,
        TextNodeKindView::Function { name, parameters } => "[Function]("@ + name + ", "@ + listed(
            parameters,
        ) + ")"@,
    }
}

/// The line of a node in the outline of a text tree: two spaces for each level, a dash, and
/// the kind.
pub open spec fn text_line(item: TextItem, level: nat) -> Seq<char> {
    repeated("  "@, level) + "- "@ + kind_label(item.kind) + "\n"@
}

pub open spec fn text_line_fn() -> spec_fn(TextItem, nat) -> Seq<char> {
    |item: TextItem, level: nat| text_line(item, level)
}

/// The outline of a text tree: one line for each node, the children of a node below it.
pub open spec fn text_outline(nodes: Seq<Node<TextItem>>) -> Seq<char> {
    outline(nodes, text_line_fn(), 0, 0)
}

impl TextNodeKind {
    /// Appends the way this kind is written in an outline.
    pub fn write_label(&self, out: &mut Vec<char>)
        ensures
            final(out)@ == old(out)@ + kind_label(self@),
    {
        match self {
            TextNodeKind::Root => {
                push_str(out, "[Root]");
            },
            TextNodeKind::Text { src } => {
                push_str(out, "[Text](");
                push_str(out, src.as_str());
                push_str(out, ")");
                assert(out@ =~= old(out)@ + kind_label(self@));
            },
            TextNodeKind::Bold => {
                push_str(out, "[Bold]");
            },
            TextNodeKind::Italic => {
                push_str(out, "[Italic]");
            },
            TextNodeKind::Code => {
                push_str(out, "[Code]");
            },
            TextNodeKind::Link { target } => {
                push_str(out, "[Link](");
                push_str(out, target.as_str());
                push_str(out, ")");
                assert(out@ =~= old(out)@ + kind_label(self@));
            },
            TextNodeKind::Image { src } => {
                push_str(out, "[Image](");
                push_str(out, src.as_str());
                push_str(out, ")");
                assert(out@ =~= old(out)@ + kind_label(self@));
            },
            TextNodeKind::Function { name, parameters } => {
                push_str(out, "[Function](");
                push_str(out, name.as_str());
                push_str(out, ", ");
                let ghost head = out@;
                let mut i: usize = 0;
                assert(parameters@.take(0) =~= Seq::<Entry>::empty());
                assert(head + listed(parameters@.take(0)) =~= head);
                while i < parameters.len()
                    invariant
                        i <= parameters@.len(),
                        out@ == head + listed(parameters@.take(i as int)),
                    decreases parameters@.len() - i,
                {
                    let ghost before = parameters@.take(i as int);
                    let ghost now = parameters@.take(i + 1);
                    assert(now.drop_last() =~= before);
                    assert(now.last() == parameters@[i as int]);
                    if i > 0 {
                        push_str(out, ", ");
                    }
                    push_str(out, parameters.name_at(i).as_str());
                    push_str(out, ": ");
                    push_str(out, parameters.value_at(i).as_str());
                    assert(out@ =~= head + listed(now)) by {
                        if i == 0 {
                            assert(now.len() == 1);
                            assert(now[0] == parameters@[0]);
                        }
                    }
                    i += 1;
                }
                assert(parameters@.take(i as int) =~= parameters@);
                push_str(out, ")");
                assert(out@ =~= old(out)@ + kind_label(self@));
            },
        }
    }

    /// A copy of this kind.
    pub fn duplicate(&self) -> (k: Self)
        ensures
            k@ == self@,
    {
        match self {
            TextNodeKind::Root => TextNodeKind::Root,
            TextNodeKind::Text { src } => TextNodeKind::Text { src: src.clone() },
            TextNodeKind::Bold => TextNodeKind::Bold,
            TextNodeKind::Italic => TextNodeKind::Italic,
            TextNodeKind::Code => TextNodeKind::Code,
            TextNodeKind::Link { target } => TextNodeKind::Link { target: target.clone() },
            TextNodeKind::Image { src } => TextNodeKind::Image { src: src.clone() },
            TextNodeKind::Function { name, parameters } => TextNodeKind::Function {
                name: name.clone(),
                parameters: parameters.duplicate(),
            },
        }
    }
}

/// A node of a text tree.
#[derive(Debug)]
pub struct TextNode {
    id: TextNodeId,
    kind: TextNodeKind,
    children: Vec<TextNodeId>,
    span: SourceSpan,
    parent: TextNodeId,
}

impl View for TextNode {
    type V = Node<TextItem>;

    closed spec fn view(&self) -> Node<TextItem> {
        Node {
            item: TextItem { kind: self.kind@, span: self.span },
            children: self.children@,
            parent: self.parent,
        }
    }
}

impl TextNode {
    /// A node without children, which is its own parent until it is registered in a tree.
    pub fn new(id: TextNodeId, kind: TextNodeKind, span: SourceSpan) -> (n: Self)
        ensures
            n@ == (Node {
                item: TextItem { kind: kind@, span },
                children: Seq::<usize>::empty(),
                parent: id,
            }),
            n.spec_id() == id,
    {
        Self { id, kind, children: Vec::new(), span, parent: id }
    }

    pub closed spec fn spec_id(&self) -> TextNodeId {
        self.id
    }

    pub fn id(&self) -> (id: TextNodeId)
        ensures
            id == self.spec_id(),
    {
        self.id
    }

    pub fn kind(&self) -> (k: &TextNodeKind)
        ensures
            k@ == self@.item.kind,
    {
        &self.kind
    }

    pub fn children(&self) -> (c: &Vec<TextNodeId>)
        ensures
            c@ == self@.children,
    {
        &self.children
    }

    pub fn span(&self) -> (s: &SourceSpan)
        ensures
            *s == self@.item.span,
    {
        &self.span
    }

    /// The id of the node that this node is a child of.
    pub fn parent(&self) -> (p: TextNodeId)
        ensures
            p == self@.parent,
    {
        self.parent
    }

    /// Appends the line of this node in an outline at `level`.
    fn write_line(&self, level: usize, out: &mut Vec<char>)
        ensures
            final(out)@ == old(out)@ + text_line(self@.item, level as nat),
    {
        push_repeated(out, "  ", level);
        push_str(out, "- ");
        self.kind.write_label(out);
        push_str(out, "\n");
        assert(out@ =~= old(out)@ + text_line(self@.item, level as nat));
    }

    pub fn register_child(&mut self, child: TextNodeId)
        ensures
            final(self)@ == (Node { children: old(self)@.children.push(child), ..old(self)@ }),
            final(self).spec_id() == old(self).spec_id(),
    {
        self.children.push(child);
    }
}

/// The tree of a piece of inline text: an arena of nodes under a root.
#[derive(Debug)]
pub struct TextTree {
    nodes: Vec<TextNode>,
}

impl View for TextTree {
    type V = Seq<Node<TextItem>>;

    closed spec fn view(&self) -> Seq<Node<TextItem>> {
        self.nodes@.map_values(|n: TextNode| n@)
    }
}

impl TextTree {
    /// The nodes form a tree under the root, which is of the kind `Root`, and every node has
    /// its index as its id.
    pub closed spec fn wf(&self) -> bool {
        &&& is_forest(self@)
        &&& self@[0].item.kind is Root
        &&& forall|i: int| 0 <= i < self.nodes@.len() ==> (#[trigger] self.nodes@[i]).spec_id() == i
    }

    /// A tree is a tree in the sense of the arena.
    pub proof fn lemma_wf(&self)
        requires
            self.wf(),
        ensures
            is_forest(self@),
            self@[0].item.kind is Root,
    {
    }

    /// The tree with a root alone, which stands for `span`.
    pub fn new(span: SourceSpan) -> (t: Self)
        ensures
            t.wf(),
            t@ == root_only(TextItem { kind: TextNodeKindView::Root, span }),
    {
        let mut nodes: Vec<TextNode> = Vec::new();
        nodes.push(TextNode::new(0, TextNodeKind::Root, span));
        let t = Self { nodes };
        assert(t@ =~= root_only(TextItem { kind: TextNodeKindView::Root, span }));
        t
    }

    pub fn root(&self) -> (n: &TextNode)
        requires
            self.wf(),
        ensures
            n@ == self@[0],
            n.spec_id() == 0,
    {
        &self.nodes[0]
    }

    /// The number of nodes.
    pub fn len(&self) -> (n: usize)
        ensures
            n == self@.len(),
    {
        self.nodes.len()
    }

    pub fn get_node(&self, id: TextNodeId) -> (n: &TextNode)
        requires
            self.wf(),
            id < self@.len(),
        ensures
            n@ == self@[id as int],
            n.spec_id() == id,
    {
        &self.nodes[id]
    }

    /// Adds a node as the last child of the node `parent_id`, and gives its id.
    pub fn register_node(
        &mut self,
        parent_id: TextNodeId,
        kind: TextNodeKind,
        span: SourceSpan,
    ) -> (id:
        TextNodeId)
        requires
            old(self).wf(),
            parent_id < old(self)@.len(),
        ensures
            final(self).wf(),
            final(self)@ == registered(
                old(self)@,
                parent_id as int,
                TextItem { kind: kind@, span },
            ),
            id == old(self)@.len(),
    {
        let id = self.nodes.len();
        let mut node = TextNode::new(id, kind, span);
        node.parent = parent_id;
        self.nodes.push(node);
        assert(self.nodes.len() <= usize::MAX);
        let mut parent = self.nodes.remove(parent_id);
        parent.register_child(id);
        self.nodes.insert(parent_id, parent);
        proof {
            let after = registered(old(self)@, parent_id as int, TextItem { kind: kind@, span });
            assert(self@.len() == after.len());
            assert forall|i: int| 0 <= i < after.len() implies self@[i] == after[i] by {
                if i < parent_id {
                    assert(self.nodes@[i] == old(self).nodes@[i]);
                } else if i == parent_id {
                } else if i < id {
                    assert(self.nodes@[i] == old(self).nodes@[i]);
                } else {
                }
            }
            assert(self@ =~= after);
            lemma_registered_is_forest(
                old(self)@,
                parent_id as int,
                TextItem { kind: kind@, span },
            );
            assert forall|i: int| 0 <= i < self.nodes@.len() implies (
            #[trigger] self.nodes@[i]).spec_id() == i by {
                if i < id && i != parent_id {
                    assert(self.nodes@[i] == old(self).nodes@[i]);
                }
            }
        }
        id
    }

    /// Appends the lines of the node `id` and of the nodes below it.
    fn write_outline(&self, id: TextNodeId, level: usize, out: &mut Vec<char>)
        requires
            self.wf(),
            id < self@.len(),
            level + (self@.len() - id) <= usize::MAX,
        ensures
            final(out)@ == old(out)@ + outline(self@, text_line_fn(), id as int, level as nat),
        decreases self@.len() - id,
    {
        let node = &self.nodes[id];
        node.write_line(level, out);
        let ghost head = out@;
        let mut k: usize = 0;
        while k < node.children.len()
            invariant
                self.wf(),
                id < self@.len(),
                level + (self@.len() - id) <= usize::MAX,
                node == &self.nodes@[id as int],
                k <= node.children@.len(),
                head + outline_children(self@, text_line_fn(), id as int, 0, (level + 1) as nat)
                    == out@ + outline_children(
                    self@,
                    text_line_fn(),
                    id as int,
                    k as int,
                    (level + 1) as nat,
                ),
            decreases node.children@.len() - k,
        {
            let child = node.children[k];
            assert(self@[id as int].children[k as int] == child);
            assert(id < child < self@.len());
            let ghost before = out@;
            self.write_outline(child, level + 1, out);
            assert(before + (outline(self@, text_line_fn(), child as int, (level + 1) as nat)
                + outline_children(
                self@,
                text_line_fn(),
                id as int,
                k + 1,
                (level + 1) as nat,
            )) =~= out@ + outline_children(
                self@,
                text_line_fn(),
                id as int,
                k + 1,
                (level + 1) as nat,
            ));
            k += 1;
        }
        assert(out@ =~= old(out)@ + (text_line(self@[id as int].item, level as nat)
            + outline_children(self@, text_line_fn(), id as int, 0, (level + 1) as nat)));
    }

    /// The outline of the tree, as characters.
    pub fn outline_chars(&self) -> (out: Vec<char>)
        requires
            self.wf(),
        ensures
            out@ == text_outline(self@),
    {
        let mut out: Vec<char> = Vec::new();
        assert(self.nodes.len() <= usize::MAX);
        self.write_outline(0, 0, &mut out);
        assert(out@ =~= text_outline(self@));
        out
    }

    /// The outline of the tree: one line for each node, the children of a node below it and
    /// two spaces further in.
    pub fn to_string(&self) -> (s: String)
        requires
            self.wf(),
        ensures
            s@ == text_outline(self@),
    {
        let out = self.outline_chars();
        whole_string(&out)
    }
}

} // verus!
