//! The tree of a document, and the way it is written out.

use vstd::prelude::*;
use crate::arena::{
    framed, framed_children, is_forest, lemma_registered_is_forest, registered, root_only, Node,
};
use crate::chars::{push_all, push_str, to_chars, whole_string};
use crate::parameters::{lemma_upsert_ascends, names_ascend, upsert, Entry, FunctionParameters};
use crate::source_position::SourcePosition;
use crate::source_span::SourceSpan;
use crate::text_tree::{push_repeated, repeated};

verus! {

pub type LetterScriptNodeId = usize;

/// What a node of a document is.
#[derive(Debug)]
pub enum LetterScriptNodeKind {
    Root,
    Text(String),
    Heading,
    Paragraph,
    Section,
    Image { src: String },
    Quote,
    List { ordered: bool },
    ListItem,
    HorizontalRule,
    Link { target: String },
    Bold,
    Italic,
    Code { language: Option<String> },
    Table,
    TableHeaderRow,
    TableRow,
    TableCell,
    Function { name: String, parameters: FunctionParameters },
}

/// A document node kind with its texts as character sequences.
pub enum ScriptKind {
    Root,
    Text(Seq<char>),
    Heading,
    Paragraph,
    Section,
    Image { src: Seq<char> },
    Quote,
    List { ordered: bool },
    ListItem,
    HorizontalRule,
    Link { target: Seq<char> },
    Bold,
    Italic,
    Code { language: Option<Seq<char>> },
    Table,
    TableHeaderRow,
    TableRow,
    TableCell,
    Function { name: Seq<char>, parameters: Seq<Entry> },
}

impl View for LetterScriptNodeKind {
    type V = ScriptKind;

    open spec fn view(&self) -> ScriptKind {
        match self {
            LetterScriptNodeKind::Root => ScriptKind::Root,
            LetterScriptNodeKind::Text(text) => ScriptKind::Text(text@),
            LetterScriptNodeKind::Heading => ScriptKind::Heading,
            LetterScriptNodeKind::Paragraph => ScriptKind::Paragraph,
            LetterScriptNodeKind::Section => ScriptKind::Section,
            LetterScriptNodeKind::Image { src } => ScriptKind::Image { src: src@ },
            LetterScriptNodeKind::Quote => ScriptKind::Quote,
            LetterScriptNodeKind::List { ordered } => ScriptKind::List { ordered: *ordered },
            LetterScriptNodeKind::ListItem => ScriptKind::ListItem,
            LetterScriptNodeKind::HorizontalRule => ScriptKind::HorizontalRule,
            LetterScriptNodeKind::Link { target } => ScriptKind::Link { target: target@ },
            LetterScriptNodeKind::Bold => ScriptKind::Bold,
            LetterScriptNodeKind::Italic => ScriptKind::Italic,
            LetterScriptNodeKind::Code { language } => ScriptKind::Code {
                language: match language {
                    Some(l) => Some(l@),
                    None => None,
                },
            },
            LetterScriptNodeKind::Table => ScriptKind::Table,
            LetterScriptNodeKind::TableHeaderRow => ScriptKind::TableHeaderRow,
            LetterScriptNodeKind::TableRow => ScriptKind::TableRow,
            LetterScriptNodeKind::TableCell => ScriptKind::TableCell,
            LetterScriptNodeKind::Function { name, parameters } => ScriptKind::Function {
                name: name@,
                parameters: parameters@,
            },
        }
    }
}

/// What a node of a document carries: its kind and the region of the source it stands for.
pub struct ScriptItem {
    pub kind: ScriptKind,
    pub span: SourceSpan,
}

/// The indent of one level.
pub open spec fn pad(level: nat) -> Seq<char> {
    repeated("    "@, level)
}

/// `text` with the indent `indent` behind each of its line feeds.
pub open spec fn reindented(text: Seq<char>, indent: Seq<char>) -> Seq<char>
    decreases text.len(),
{
    if text.len() == 0 {
        text
    } else if text.last() == '\n' {
        reindented(text.drop_last(), indent).push('\n') + indent
    } else {
        reindented(text.drop_last(), indent).push(text.last())
    }
}

/// The entries in the order of their names, each name once with its last value.
pub open spec fn in_order(entries: Seq<Entry>) -> Seq<Entry>
    decreases entries.len(),
{
    if entries.len() == 0 {
        entries
    } else {
        upsert(in_order(entries.drop_last()), entries.last().0, entries.last().1)
    }
}

/// The names of entries in order ascend.
pub proof fn lemma_in_order_ascends(entries: Seq<Entry>)
    ensures
        names_ascend(in_order(entries)),
    decreases entries.len(),
{
    if entries.len() > 0 {
        lemma_in_order_ascends(entries.drop_last());
        lemma_upsert_ascends(in_order(entries.drop_last()), entries.last().0, entries.last().1);
    }
}

/// The entries as attributes: each as ` name="value"`.
pub open spec fn attributes(entries: Seq<Entry>) -> Seq<char>
    decreases entries.len(),
{
    if entries.len() == 0 {
        Seq::<char>::empty()
    } else {
        attributes(entries.drop_last()) + " "@ + entries.last().0 + "=\""@ + entries.last().1
            + "\""@
    }
}

/// The opening tag of a kind, or the text of a text, whose further lines stand behind
/// `indent`. The attributes of a function stand in the order of their names.
pub open spec fn opening(kind: ScriptKind, indent: Seq<char>) -> Seq<char> {
    match kind {
        ScriptKind::Root => Seq::<char>::empty(),
        ScriptKind::Text(text) => reindented(text, indent),
        ScriptKind::Heading => "<heading>"@,
        ScriptKind::Paragraph => "<paragraph>"@,
        ScriptKind::Section => "<section>"@,
        ScriptKind::Image { src } => "<image src=\""@ + src + "\">"@,
        ScriptKind::Quote => "<quote>"@,
        ScriptKind::List { ordered } => if ordered {
            "<list ordered=\"true\">"@
        } else {
            "<list>"@
        },
        ScriptKind::ListItem => "<list-item>"@,
        ScriptKind::HorizontalRule => "<horizontal-rule/>"@,
        ScriptKind::Link { target } => "<link target=\""@ + target + "\">"@,
        ScriptKind::Bold => "<b>"@,
        ScriptKind::Italic => "<i>"@,
        ScriptKind::Code { language } => "<code"@ + (match language {
            Some(l) => " language=\""@ + l + "\""@,
            None => Seq::<char>::empty(),
        }) + ">"@,
        ScriptKind::Table => "<table>"@,
        ScriptKind::TableHeaderRow => "<table-header-row>"@,
        ScriptKind::TableRow => "<table-row>"@,
        ScriptKind::TableCell => "<table-cell>"@,
        ScriptKind::Function { name, parameters } => "<"@ + name + attributes(in_order(parameters))
            + ">"@,
    }
}

/// The closing tag of a kind; empty for a kind that has none.
pub open spec fn closing(kind: ScriptKind) -> Seq<char> {
    match kind {
        ScriptKind::Heading => "</heading>"@,
        ScriptKind::Paragraph => "</paragraph>"@,
        ScriptKind::Section => "</section>"@,
        ScriptKind::Image { .. } => "</image>"@,
        ScriptKind::Quote => "</quote>"@,
        ScriptKind::List { .. } => "</list>"@,
        ScriptKind::ListItem => "</list-item>"@,
        ScriptKind::Link { .. } => "</link>"@,
        ScriptKind::Bold => "</b>"@,
        ScriptKind::Italic => "</i>"@,
        ScriptKind::Code { .. } => "</code>"@,
        ScriptKind::Table => "</table>"@,
        ScriptKind::TableHeaderRow => "</table-header-row>"@,
        ScriptKind::TableRow => "</table-row>"@,
        ScriptKind::TableCell => "</table-cell>"@,
        ScriptKind::Function { name, .. } => "</"@ + name + ">"@,
        _ => Seq::<char>::empty(),
    }
}

/// What stands in front of the children of a node: the indent of its level, its opening tag
/// or text, and a line feed.
pub open spec fn node_start(item: ScriptItem, level: nat) -> Seq<char> {
    pad(level) + opening(item.kind, pad(level)) + "\n"@
}

/// What stands behind the children of a node: its closing tag on a line of its own, or
/// nothing for a kind without one.
pub open spec fn node_end(item: ScriptItem, level: nat) -> Seq<char> {
    if closing(item.kind).len() == 0 {
        Seq::<char>::empty()
    } else {
        pad(level) + closing(item.kind) + "\n"@
    }
}

pub open spec fn node_start_fn() -> spec_fn(ScriptItem, nat) -> Seq<char> {
    |item: ScriptItem, level: nat| node_start(item, level)
}

pub open spec fn node_end_fn() -> spec_fn(ScriptItem, nat) -> Seq<char> {
    |item: ScriptItem, level: nat| node_end(item, level)
}

/// The document as it is written out: the nodes below the root in their order, each with
/// its opening tag on a line, its children four spaces further in, and its closing tag on a
/// line.
pub open spec fn written(nodes: Seq<Node<ScriptItem>>) -> Seq<char> {
    framed_children(nodes, node_start_fn(), node_end_fn(), 0, 0, 0)
}

/// Appends `text` with `indent` behind each of its line feeds.
fn push_reindented(out: &mut Vec<char>, text: &str, indent: &Vec<char>)
    ensures
        final(out)@ == old(out)@ + reindented(text@, indent@),
{
    let chars = to_chars(text);
    let mut i: usize = 0;
    assert(chars@.take(0) =~= Seq::<char>::empty());
    assert(old(out)@ + reindented(chars@.take(0), indent@) =~= old(out)@);
    while i < chars.len()
        invariant
            i <= chars@.len(),
            out@ == old(out)@ + reindented(chars@.take(i as int), indent@),
        decreases chars@.len() - i,
    {
        let ghost before = chars@.take(i as int);
        assert(chars@.take(i + 1).drop_last() =~= before);
        let c = chars[i];
        out.push(c);
        if c == '\n' {
            push_all(out, indent);
            assert(out@ =~= old(out)@ + (reindented(before, indent@).push('\n') + indent@));
        } else {
            assert(out@ =~= old(out)@ + reindented(before, indent@).push(c));
        }
        i += 1;
    }
    assert(chars@.take(i as int) =~= chars@);
}

/// The parameters in the order of their names.
fn sorted(parameters: &FunctionParameters) -> (r: FunctionParameters)
    ensures
        r@ == in_order(parameters@),
{
    let mut r = FunctionParameters::new();
    let mut i: usize = 0;
    assert(parameters@.take(0) =~= Seq::<Entry>::empty());
    while i < parameters.len()
        invariant
            i <= parameters@.len(),
            r@ == in_order(parameters@.take(i as int)),
        decreases parameters@.len() - i,
    {
        assert(parameters@.take(i + 1).drop_last() =~= parameters@.take(i as int));
        r.insert(parameters.name_at(i).clone(), parameters.value_at(i).clone());
        i += 1;
    }
    assert(parameters@.take(i as int) =~= parameters@);
    r
}

/// Appends the entries as attributes.
fn push_attributes(out: &mut Vec<char>, entries: &FunctionParameters)
    ensures
        final(out)@ == old(out)@ + attributes(entries@),
{
    let mut i: usize = 0;
    assert(entries@.take(0) =~= Seq::<Entry>::empty());
    assert(old(out)@ + attributes(entries@.take(0)) =~= old(out)@);
    while i < entries.len()
        invariant
            i <= entries@.len(),
            out@ == old(out)@ + attributes(entries@.take(i as int)),
        decreases entries@.len() - i,
    {
        let ghost before = entries@.take(i as int);
        assert(entries@.take(i + 1).drop_last() =~= before);
        push_str(out, " ");
        push_str(out, entries.name_at(i).as_str());
        push_str(out, "=\"");
        push_str(out, entries.value_at(i).as_str());
        push_str(out, "\"");
        assert(out@ =~= old(out)@ + (attributes(before) + " "@ + entries@[i as int].0 + "=\""@
            + entries@[i as int].1 + "\""@));
        i += 1;
    }
    assert(entries@.take(i as int) =~= entries@);
}

impl LetterScriptNodeKind {
    /// Appends the opening tag of this kind, or the text of a text.
    fn write_opening(&self, out: &mut Vec<char>, indent: &Vec<char>)
        ensures
            final(out)@ == old(out)@ + opening(self@, indent@),
    {
        match self {
            LetterScriptNodeKind::Root => {
                assert(out@ =~= old(out)@ + Seq::<char>::empty());
            },
            LetterScriptNodeKind::Text(text) => {
                push_reindented(out, text.as_str(), indent);
            },
            LetterScriptNodeKind::Heading => push_str(out, "<heading>"),
            LetterScriptNodeKind::Paragraph => push_str(out, "<paragraph>"),
            LetterScriptNodeKind::Section => push_str(out, "<section>"),
            LetterScriptNodeKind::Image { src } => {
                push_str(out, "<image src=\"");
                push_str(out, src.as_str());
                push_str(out, "\">");
                assert(out@ =~= old(out)@ + opening(self@, indent@));
            },
            LetterScriptNodeKind::Quote => push_str(out, "<quote>"),
            LetterScriptNodeKind::List { ordered } => {
                if *ordered {
                    push_str(out, "<list ordered=\"true\">");
                } else {
                    push_str(out, "<list>");
                }
            },
            LetterScriptNodeKind::ListItem => push_str(out, "<list-item>"),
            LetterScriptNodeKind::HorizontalRule => push_str(out, "<horizontal-rule/>"),
            LetterScriptNodeKind::Link { target } => {
                push_str(out, "<link target=\"");
                push_str(out, target.as_str());
                push_str(out, "\">");
                assert(out@ =~= old(out)@ + opening(self@, indent@));
            },
            LetterScriptNodeKind::Bold => push_str(out, "<b>"),
            LetterScriptNodeKind::Italic => push_str(out, "<i>"),
            LetterScriptNodeKind::Code { language } => {
                push_str(out, "<code");
                let ghost head = out@;
                match language {
                    Some(l) => {
                        push_str(out, " language=\"");
                        push_str(out, l.as_str());
                        push_str(out, "\"");
                        assert(out@ =~= head + (" language=\""@ + l@ + "\""@));
                    },
                    None => {
                        assert(out@ =~= head + Seq::<char>::empty());
                    },
                }
                push_str(out, ">");
                assert(out@ =~= old(out)@ + opening(self@, indent@));
            },
            LetterScriptNodeKind::Table => push_str(out, "<table>"),
            LetterScriptNodeKind::TableHeaderRow => push_str(out, "<table-header-row>"),
            LetterScriptNodeKind::TableRow => push_str(out, "<table-row>"),
            LetterScriptNodeKind::TableCell => push_str(out, "<table-cell>"),
            LetterScriptNodeKind::Function { name, parameters } => {
                push_str(out, "<");
                push_str(out, name.as_str());
                let entries = sorted(parameters);
                push_attributes(out, &entries);
                push_str(out, ">");
                assert(out@ =~= old(out)@ + opening(self@, indent@));
            },
        }
    }

    /// The closing tag of this kind, as characters; empty for a kind that has none.
    fn closing_tag(&self) -> (tag: Vec<char>)
        ensures
            tag@ == closing(self@),
    {
        let mut tag: Vec<char> = Vec::new();
        match self {
            LetterScriptNodeKind::Heading => push_str(&mut tag, "</heading>"),
            LetterScriptNodeKind::Paragraph => push_str(&mut tag, "</paragraph>"),
            LetterScriptNodeKind::Section => push_str(&mut tag, "</section>"),
            LetterScriptNodeKind::Image { .. } => push_str(&mut tag, "</image>"),
            LetterScriptNodeKind::Quote => push_str(&mut tag, "</quote>"),
            LetterScriptNodeKind::List { .. } => push_str(&mut tag, "</list>"),
            LetterScriptNodeKind::ListItem => push_str(&mut tag, "</list-item>"),
            LetterScriptNodeKind::Link { .. } => push_str(&mut tag, "</link>"),
            LetterScriptNodeKind::Bold => push_str(&mut tag, "</b>"),
            LetterScriptNodeKind::Italic => push_str(&mut tag, "</i>"),
            LetterScriptNodeKind::Code { .. } => push_str(&mut tag, "</code>"),
            LetterScriptNodeKind::Table => push_str(&mut tag, "</table>"),
            LetterScriptNodeKind::TableHeaderRow => push_str(&mut tag, "</table-header-row>"),
            LetterScriptNodeKind::TableRow => push_str(&mut tag, "</table-row>"),
            LetterScriptNodeKind::TableCell => push_str(&mut tag, "</table-cell>"),
            LetterScriptNodeKind::Function { name, .. } => {
                push_str(&mut tag, "</");
                push_str(&mut tag, name.as_str());
                push_str(&mut tag, ">");
            },
            _ => {},
        }
        assert(tag@ =~= closing(self@));
        tag
    }
}

/// A node of a document.
#[derive(Debug)]
pub struct LetterScriptNode {
    id: LetterScriptNodeId,
    kind: LetterScriptNodeKind,
    children: Vec<LetterScriptNodeId>,
    span: SourceSpan,
    parent: LetterScriptNodeId,
}

impl View for LetterScriptNode {
    type V = Node<ScriptItem>;

    closed spec fn view(&self) -> Node<ScriptItem> {
        Node {
            item: ScriptItem { kind: self.kind@, span: self.span },
            children: self.children@,
            parent: self.parent,
        }
    }
}

impl LetterScriptNode {
    /// A node without children, which is its own parent until it is registered in a tree.
    pub fn new(id: LetterScriptNodeId, kind: LetterScriptNodeKind, span: SourceSpan) -> (n: Self)
        ensures
            n@ == (Node {
                item: ScriptItem { kind: kind@, span },
                children: Seq::<usize>::empty(),
                parent: id,
            }),
            n.spec_id() == id,
    {
        Self { id, kind, children: Vec::new(), span, parent: id }
    }

    pub closed spec fn spec_id(&self) -> LetterScriptNodeId {
        self.id
    }

    pub fn id(&self) -> (id: LetterScriptNodeId)
        ensures
            id == self.spec_id(),
    {
        self.id
    }

    pub fn kind(&self) -> (k: &LetterScriptNodeKind)
        ensures
            k@ == self@.item.kind,
    {
        &self.kind
    }

    pub fn children(&self) -> (c: &Vec<LetterScriptNodeId>)
        ensures
            c@ == self@.children,
    {
        &self.children
    }

    pub fn span(&self) -> (s: &SourceSpan)
        ensures
            *s == self@.item.span,
    {
        &self.span
    }

    /// The id of the node that this node is a child of.
    pub fn parent(&self) -> (p: LetterScriptNodeId)
        ensures
            p == self@.parent,
    {
        self.parent
    }

    pub fn register_child(&mut self, child: LetterScriptNodeId)
        ensures
            final(self)@ == (Node { children: old(self)@.children.push(child), ..old(self)@ }),
            final(self).spec_id() == old(self).spec_id(),
    {
        self.children.push(child);
    }

    /// Appends what stands in front of the children of this node at `level`.
    fn stringify_node_start(&self, result: &mut Vec<char>, level: usize)
        ensures
            final(result)@ == old(result)@ + node_start(self@.item, level as nat),
    {
        let mut indent: Vec<char> = Vec::new();
        push_repeated(&mut indent, "    ", level);
        assert(indent@ =~= pad(level as nat));
        push_all(result, &indent);
        self.kind.write_opening(result, &indent);
        result.push('\n');
        proof {
            reveal_strlit("\n");
            assert("\n"@ =~= seq!['\n']);
        }
        assert(result@ =~= old(result)@ + node_start(self@.item, level as nat));
    }

    /// Appends what stands behind the children of this node at `level`.
    fn stringify_node_end(&self, result: &mut Vec<char>, level: usize)
        ensures
            final(result)@ == old(result)@ + node_end(self@.item, level as nat),
    {
        let tag = self.kind.closing_tag();
        if tag.len() > 0 {
            push_repeated(result, "    ", level);
            push_all(result, &tag);
            push_str(result, "\n");
            assert(result@ =~= old(result)@ + node_end(self@.item, level as nat));
        } else {
            assert(result@ =~= old(result)@ + Seq::<char>::empty());
        }
    }
}

/// The tree of a document: an arena of nodes under a root.
#[derive(Debug)]
pub struct LetterScriptTree {
    node_lookup: Vec<LetterScriptNode>,
}

impl View for LetterScriptTree {
    type V = Seq<Node<ScriptItem>>;

    closed spec fn view(&self) -> Seq<Node<ScriptItem>> {
        self.node_lookup@.map_values(|n: LetterScriptNode| n@)
    }
}

/// The span of the root of a document.
pub open spec fn root_span() -> SourceSpan {
    SourceSpan {
        start: SourcePosition { line: 1, column: 1 },
        end: SourcePosition { line: 1, column: 1 },
    }
}

impl LetterScriptTree {
    /// The nodes form a tree under the root, which is of the kind `Root`, and every node has
    /// its index as its id.
    pub closed spec fn wf(&self) -> bool {
        &&& is_forest(self@)
        &&& self@[0].item.kind is Root
        &&& forall|i: int|
            0 <= i < self.node_lookup@.len() ==> (#[trigger] self.node_lookup@[i]).spec_id() == i
    }

    /// A tree is a tree in the sense of the arena.
    pub proof fn lemma_wf(&self)
        requires
            self.wf(),
        ensures
            is_forest(self@),
            self@[0].item.kind is Root,
    {
    }

    /// The tree with a root alone.
    pub fn new() -> (t: Self)
        ensures
            t.wf(),
            t@ == root_only(ScriptItem { kind: ScriptKind::Root, span: root_span() }),
    {
        let mut node_lookup: Vec<LetterScriptNode> = Vec::new();
        node_lookup.push(
            LetterScriptNode::new(
                0,
                LetterScriptNodeKind::Root,
                SourceSpan::new(SourcePosition::zero(), SourcePosition::zero()),
            ),
        );
        let t = Self { node_lookup };
        assert(t@ =~= root_only(ScriptItem { kind: ScriptKind::Root, span: root_span() }));
        t
    }

    pub fn root_id(&self) -> (id: LetterScriptNodeId)
        ensures
            id == 0,
    {
        0
    }

    /// The number of nodes.
    pub fn len(&self) -> (n: usize)
        ensures
            n == self@.len(),
    {
        self.node_lookup.len()
    }

    pub fn get_node(&self, id: LetterScriptNodeId) -> (n: &LetterScriptNode)
        requires
            self.wf(),
            id < self@.len(),
        ensures
            n@ == self@[id as int],
            n.spec_id() == id,
    {
        &self.node_lookup[id]
    }

    /// Adds a node as the last child of the node `parent_id`, and gives its id.
    pub fn register_node(
        &mut self,
        parent_id: LetterScriptNodeId,
        kind: LetterScriptNodeKind,
        span: SourceSpan,
    ) -> (id: LetterScriptNodeId)
        requires
            old(self).wf(),
            parent_id < old(self)@.len(),
        ensures
            final(self).wf(),
            final(self)@ == registered(
                old(self)@,
                parent_id as int,
                ScriptItem { kind: kind@, span },
            ),
            id == old(self)@.len(),
    {
        let id = self.node_lookup.len();
        let mut node = LetterScriptNode::new(id, kind, span);
        node.parent = parent_id;
        self.node_lookup.push(node);
        assert(self.node_lookup.len() <= usize::MAX);
        let mut parent = self.node_lookup.remove(parent_id);
        parent.register_child(id);
        self.node_lookup.insert(parent_id, parent);
        proof {
            let after = registered(old(self)@, parent_id as int, ScriptItem { kind: kind@, span });
            assert(self@.len() == after.len());
            assert forall|i: int| 0 <= i < after.len() implies self@[i] == after[i] by {
                if i < parent_id {
                    assert(self.node_lookup@[i] == old(self).node_lookup@[i]);
                } else if i == parent_id {
                } else if i < id {
                    assert(self.node_lookup@[i] == old(self).node_lookup@[i]);
                } else {
                }
            }
            assert(self@ =~= after);
            lemma_registered_is_forest(
                old(self)@,
                parent_id as int,
                ScriptItem { kind: kind@, span },
            );
            assert forall|i: int| 0 <= i < self.node_lookup@.len() implies (
            #[trigger] self.node_lookup@[i]).spec_id() == i by {
                if i < id && i != parent_id {
                    assert(self.node_lookup@[i] == old(self).node_lookup@[i]);
                }
            }
        }
        id
    }

    /// Appends the children of the node `id` from the `from`-th on, each at `level`.
    fn stringify_children(&self, id: LetterScriptNodeId, result: &mut Vec<char>, level: usize)
        requires
            self.wf(),
            id < self@.len(),
            level + (self@.len() - id) <= usize::MAX,
        ensures
            final(result)@ == old(result)@ + framed_children(
                self@,
                node_start_fn(),
                node_end_fn(),
                id as int,
                0,
                level as nat,
            ),
        decreases self@.len() - id, 1int,
    {
        let node = &self.node_lookup[id];
        let mut k: usize = 0;
        assert(old(result)@ + Seq::<char>::empty() =~= old(result)@);
        while k < node.children.len()
            invariant
                self.wf(),
                id < self@.len(),
                level + (self@.len() - id) <= usize::MAX,
                node == &self.node_lookup@[id as int],
                k <= node.children@.len(),
                old(result)@ + framed_children(
                    self@,
                    node_start_fn(),
                    node_end_fn(),
                    id as int,
                    0,
                    level as nat,
                ) == result@ + framed_children(
                    self@,
                    node_start_fn(),
                    node_end_fn(),
                    id as int,
                    k as int,
                    level as nat,
                ),
            decreases node.children@.len() - k,
        {
            let child = node.children[k];
            assert(self@[id as int].children[k as int] == child);
            assert(id < child < self@.len());
            let ghost before = result@;
            self.stringify_node(child, result, level);
            assert(before + (framed(self@, node_start_fn(), node_end_fn(), child as int, level as nat)
                + framed_children(
                self@,
                node_start_fn(),
                node_end_fn(),
                id as int,
                k + 1,
                level as nat,
            )) =~= result@ + framed_children(
                self@,
                node_start_fn(),
                node_end_fn(),
                id as int,
                k + 1,
                level as nat,
            ));
            k += 1;
        }
        assert(result@ + Seq::<char>::empty() =~= result@);
    }

    /// Appends the node `node_id` and the nodes below it, at `level`.
    fn stringify_node(&self, node_id: LetterScriptNodeId, result: &mut Vec<char>, level: usize)
        requires
            self.wf(),
            0 < node_id < self@.len(),
            level + 1 + (self@.len() - node_id) <= usize::MAX,
        ensures
            final(result)@ == old(result)@ + framed(
                self@,
                node_start_fn(),
                node_end_fn(),
                node_id as int,
                level as nat,
            ),
        decreases self@.len() - node_id, 2int,
    {
        let node = &self.node_lookup[node_id];
        node.stringify_node_start(result, level);
        let ghost head = result@;
        self.stringify_children(node_id, result, level + 1);
        let ghost body = result@;
        node.stringify_node_end(result, level);
        assert(result@ =~= old(result)@ + (node_start(self@[node_id as int].item, level as nat)
            + framed_children(
            self@,
            node_start_fn(),
            node_end_fn(),
            node_id as int,
            0,
            (level + 1) as nat,
        ) + node_end(self@[node_id as int].item, level as nat)));
    }

    /// The document as it is written out.
    pub fn to_string(&self) -> (s: String)
        requires
            self.wf(),
        ensures
            s@ == written(self@),
    {
        let mut result: Vec<char> = Vec::new();
        assert(self.node_lookup.len() <= usize::MAX);
        self.stringify_children(0, &mut result, 0);
        assert(result@ =~= written(self@));
        whole_string(&result)
    }
}

} // verus!
