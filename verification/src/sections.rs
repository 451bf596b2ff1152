//! Headings and the sections that they stand in: what holds of the document tree of every
//! sequence of blocks.

use vstd::prelude::*;
use crate::arena::{all_above, depth, registered, Node};
use crate::block::{ParsedBlockKindView, ParsedBlockView, TextNodes};
use crate::list_tree::{ListItem, ListNodeKindView};
use crate::quote_tree::{QuoteItem, QuoteNodeKindView};
use crate::script_tree::{ScriptItem, ScriptKind};
use crate::source_span::SourceSpan;
use crate::transformer::{
    block_added, blocks_added, cells_added, leveled, list_children_added, list_node_added,
    quote_children_added, quote_node_added, row_added, rows_added, script_item, sections_opened,
    table_added, text_children_copied, text_node_copied, transformed, with_text,
    Building, ScriptNodes,
};

verus! {

/// `after` holds the nodes of `before` with what they carry and with their parents, and
/// maybe more nodes behind them.
pub open spec fn extends(before: ScriptNodes, after: ScriptNodes) -> bool {
    &&& before.len() <= after.len()
    &&& forall|i: int|
        0 <= i < before.len() ==> (#[trigger] after[i]).item == before[i].item && after[i].parent
            == before[i].parent
}

pub proof fn lemma_extends_chain(a: ScriptNodes, b: ScriptNodes, c: ScriptNodes)
    requires
        extends(a, b),
        extends(b, c),
    ensures
        extends(a, c),
{
    assert forall|i: int| 0 <= i < a.len() implies (#[trigger] c[i]).item == a[i].item
        && c[i].parent == a[i].parent by {
        assert(b[i].item == a[i].item);
    }
}

pub proof fn lemma_registered_extends(nodes: ScriptNodes, parent: int, item: ScriptItem)
    requires
        0 <= parent < nodes.len(),
    ensures
        extends(nodes, registered(nodes, parent, item)),
        registered(nodes, parent, item).len() == nodes.len() + 1,
        registered(nodes, parent, item)[nodes.len() as int].item == item,
        registered(nodes, parent, item)[nodes.len() as int].parent == parent as usize,
{
}

pub proof fn lemma_text_node_copied(nodes: ScriptNodes, parent: int, text: TextNodes, id: int)
    requires
        0 <= parent < nodes.len(),
    ensures
        extends(nodes, text_node_copied(nodes, parent, text, id)),
    decreases text.len() - id, text[id].children.len() + 1,
{
    if 0 <= id < text.len() {
        let item = script_item(crate::transformer::text_kind(text[id].item.kind), text[id].item.span);
        let first = registered(nodes, parent, item);
        lemma_registered_extends(nodes, parent, item);
        lemma_text_children_copied(first, nodes.len() as int, text, id, 0);
        lemma_extends_chain(nodes, first, text_node_copied(nodes, parent, text, id));
    }
}

pub proof fn lemma_text_children_copied(
    nodes: ScriptNodes,
    parent: int,
    text: TextNodes,
    id: int,
    k: int,
)
    requires
        0 <= parent < nodes.len(),
    ensures
        extends(nodes, text_children_copied(nodes, parent, text, id, k)),
    decreases text.len() - id, text[id].children.len() - k,
{
    if 0 <= id < text.len() && 0 <= k < text[id].children.len() {
        let c = text[id].children[k] as int;
        let first = if id < c < text.len() {
            text_node_copied(nodes, parent, text, c)
        } else {
            nodes
        };
        if id < c < text.len() {
            lemma_text_node_copied(nodes, parent, text, c);
        }
        lemma_text_children_copied(first, parent, text, id, k + 1);
        lemma_extends_chain(nodes, first, text_children_copied(nodes, parent, text, id, k));
    }
}

pub proof fn lemma_with_text(
    nodes: ScriptNodes,
    parent: int,
    kind: ScriptKind,
    span: SourceSpan,
    text: TextNodes,
)
    requires
        0 <= parent < nodes.len(),
    ensures
        extends(nodes, with_text(nodes, parent, kind, span, text)),
        nodes.len() < with_text(nodes, parent, kind, span, text).len(),
        with_text(nodes, parent, kind, span, text)[nodes.len() as int].item == script_item(
            kind,
            span,
        ),
        with_text(nodes, parent, kind, span, text)[nodes.len() as int].parent == parent as usize,
{
    let first = registered(nodes, parent, script_item(kind, span));
    lemma_registered_extends(nodes, parent, script_item(kind, span));
    lemma_text_children_copied(first, nodes.len() as int, text, 0, 0);
    lemma_extends_chain(nodes, first, with_text(nodes, parent, kind, span, text));
}

pub proof fn lemma_list_node_added(
    nodes: ScriptNodes,
    parent: int,
    list: Seq<Node<ListItem>>,
    id: int,
    span: SourceSpan,
)
    requires
        0 <= parent < nodes.len(),
    ensures
        extends(nodes, list_node_added(nodes, parent, list, id, span)),
    decreases list.len() - id, list[id].children.len() + 1,
{
    if 0 <= id < list.len() {
        match list[id].item.kind {
            ListNodeKindView::Parent => {
                let item = script_item(
                    ScriptKind::List {
                        ordered: list[id].item.style == crate::list_tree::ListNodeStyle::Ordered,
                    },
                    span,
                );
                let first = registered(nodes, parent, item);
                lemma_registered_extends(nodes, parent, item);
                lemma_list_children_added(first, nodes.len() as int, list, id, 0, span);
                lemma_extends_chain(nodes, first, list_node_added(nodes, parent, list, id, span));
            },
            ListNodeKindView::Leaf { text_tree } => {
                lemma_with_text(nodes, parent, ScriptKind::ListItem, span, text_tree);
            },
        }
    }
}

pub proof fn lemma_list_children_added(
    nodes: ScriptNodes,
    parent: int,
    list: Seq<Node<ListItem>>,
    id: int,
    k: int,
    span: SourceSpan,
)
    requires
        0 <= parent < nodes.len(),
    ensures
        extends(nodes, list_children_added(nodes, parent, list, id, k, span)),
    decreases list.len() - id, list[id].children.len() - k,
{
    if 0 <= id < list.len() && 0 <= k < list[id].children.len() {
        let c = list[id].children[k] as int;
        let first = if id < c < list.len() {
            list_node_added(nodes, parent, list, c, span)
        } else {
            nodes
        };
        if id < c < list.len() {
            lemma_list_node_added(nodes, parent, list, c, span);
        }
        lemma_list_children_added(first, parent, list, id, k + 1, span);
        lemma_extends_chain(nodes, first, list_children_added(nodes, parent, list, id, k, span));
    }
}

pub proof fn lemma_quote_node_added(
    nodes: ScriptNodes,
    parent: int,
    quote: Seq<Node<QuoteItem>>,
    id: int,
    span: SourceSpan,
)
    requires
        0 <= parent < nodes.len(),
    ensures
        extends(nodes, quote_node_added(nodes, parent, quote, id, span)),
    decreases quote.len() - id, quote[id].children.len() + 1,
{
    if 0 <= id < quote.len() {
        match quote[id].item.kind {
            QuoteNodeKindView::Parent => {
                let item = script_item(ScriptKind::Quote, span);
                let first = registered(nodes, parent, item);
                lemma_registered_extends(nodes, parent, item);
                lemma_quote_children_added(first, nodes.len() as int, quote, id, 0, span);
                lemma_extends_chain(nodes, first, quote_node_added(nodes, parent, quote, id, span));
            },
            QuoteNodeKindView::Leaf { text_tree } => {
                lemma_text_children_copied(nodes, parent, text_tree, 0, 0);
            },
        }
    }
}

pub proof fn lemma_quote_children_added(
    nodes: ScriptNodes,
    parent: int,
    quote: Seq<Node<QuoteItem>>,
    id: int,
    k: int,
    span: SourceSpan,
)
    requires
        0 <= parent < nodes.len(),
    ensures
        extends(nodes, quote_children_added(nodes, parent, quote, id, k, span)),
    decreases quote.len() - id, quote[id].children.len() - k,
{
    if 0 <= id < quote.len() && 0 <= k < quote[id].children.len() {
        let c = quote[id].children[k] as int;
        let first = if id < c < quote.len() {
            quote_node_added(nodes, parent, quote, c, span)
        } else {
            nodes
        };
        if id < c < quote.len() {
            lemma_quote_node_added(nodes, parent, quote, c, span);
        }
        lemma_quote_children_added(first, parent, quote, id, k + 1, span);
        lemma_extends_chain(nodes, first, quote_children_added(nodes, parent, quote, id, k, span));
    }
}

pub proof fn lemma_cells_added(
    nodes: ScriptNodes,
    parent: int,
    cells: Seq<TextNodes>,
    k: int,
    span: SourceSpan,
)
    requires
        0 <= parent < nodes.len(),
    ensures
        extends(nodes, cells_added(nodes, parent, cells, k, span)),
    decreases cells.len() - k,
{
    if 0 <= k < cells.len() {
        let first = with_text(nodes, parent, ScriptKind::TableCell, span, cells[k]);
        lemma_with_text(nodes, parent, ScriptKind::TableCell, span, cells[k]);
        lemma_cells_added(first, parent, cells, k + 1, span);
        lemma_extends_chain(nodes, first, cells_added(nodes, parent, cells, k, span));
    }
}

pub proof fn lemma_row_added(
    nodes: ScriptNodes,
    parent: int,
    kind: ScriptKind,
    cells: Seq<TextNodes>,
    span: SourceSpan,
)
    requires
        0 <= parent < nodes.len(),
    ensures
        extends(nodes, row_added(nodes, parent, kind, cells, span)),
{
    let first = registered(nodes, parent, script_item(kind, span));
    lemma_registered_extends(nodes, parent, script_item(kind, span));
    lemma_cells_added(first, nodes.len() as int, cells, 0, span);
    lemma_extends_chain(nodes, first, row_added(nodes, parent, kind, cells, span));
}

pub proof fn lemma_rows_added(
    nodes: ScriptNodes,
    parent: int,
    rows: Seq<Seq<TextNodes>>,
    k: int,
    span: SourceSpan,
)
    requires
        0 <= parent < nodes.len(),
    ensures
        extends(nodes, rows_added(nodes, parent, rows, k, span)),
    decreases rows.len() - k,
{
    if 0 <= k < rows.len() {
        let first = row_added(nodes, parent, ScriptKind::TableRow, rows[k], span);
        lemma_row_added(nodes, parent, ScriptKind::TableRow, rows[k], span);
        lemma_rows_added(first, parent, rows, k + 1, span);
        lemma_extends_chain(nodes, first, rows_added(nodes, parent, rows, k, span));
    }
}

pub proof fn lemma_table_added(
    nodes: ScriptNodes,
    parent: int,
    header: Seq<TextNodes>,
    rows: Seq<Seq<TextNodes>>,
    span: SourceSpan,
)
    requires
        0 <= parent < nodes.len(),
    ensures
        extends(nodes, table_added(nodes, parent, header, rows, span)),
{
    let table = nodes.len() as int;
    let first = registered(nodes, parent, script_item(ScriptKind::Table, span));
    lemma_registered_extends(nodes, parent, script_item(ScriptKind::Table, span));
    let second = row_added(first, table, ScriptKind::TableHeaderRow, header, span);
    lemma_row_added(first, table, ScriptKind::TableHeaderRow, header, span);
    lemma_rows_added(second, table, rows, 0, span);
    lemma_extends_chain(first, second, table_added(nodes, parent, header, rows, span));
    lemma_extends_chain(nodes, first, table_added(nodes, parent, header, rows, span));
}

/// What stands above a node stays above it where only nodes are added.
pub proof fn lemma_depth_kept(
    before: ScriptNodes,
    after: ScriptNodes,
    id: int,
    good: spec_fn(ScriptItem) -> bool,
)
    requires
        extends(before, after),
        0 <= id < before.len(),
    ensures
        depth(after, id) == depth(before, id),
        all_above(after, id, good) == all_above(before, id, good),
    decreases id,
{
    assert(after[id].parent == before[id].parent);
    if 0 < id && before[id].parent < id {
        lemma_depth_kept(before, after, before[id].parent as int, good);
        let p = before[id].parent as int;
        assert(after[p].item == before[p].item);
    }
}

pub open spec fn is_section() -> spec_fn(ScriptItem) -> bool {
    |item: ScriptItem| item.kind is Section
}

/// The stack of the building holds ids of its nodes.
pub open spec fn stack_valid(b: Building) -> bool {
    &&& b.stack.len() >= 1
    &&& forall|i: int| 0 <= i < b.stack.len() ==> #[trigger] b.stack[i] < b.nodes.len()
}

/// The open sections stand one in the other: the stack holds the root and then sections,
/// each of which is a child of the one before it in the stack.
pub open spec fn sections_nest(b: Building) -> bool {
    &&& stack_valid(b)
    &&& b.stack[0] == 0
    &&& forall|i: int|
        1 <= i < b.stack.len() ==> b.nodes[(#[trigger] b.stack[i]) as int].item.kind is Section
            && b.nodes[b.stack[i] as int].parent == b.stack[i - 1] && b.stack[i - 1] < b.stack[i]
}

/// Every heading among the blocks has a level of 1 or more.
pub open spec fn levels_count(blocks: Seq<ParsedBlockView>) -> bool {
    forall|i: int|
        0 <= i < blocks.len() ==> ((#[trigger] blocks[i]).kind matches ParsedBlockKindView::Heading {
            level,
            ..
        } ==> level >= 1)
}

/// The `i`-th node of the stack has `i` nodes above it, which are sections but for the root.
pub proof fn lemma_nesting_depth(b: Building, i: int)
    requires
        sections_nest(b),
        0 <= i < b.stack.len(),
    ensures
        depth(b.nodes, b.stack[i] as int) == i,
        all_above(b.nodes, b.stack[i] as int, is_section()),
    decreases i,
{
    if i > 0 {
        lemma_nesting_depth(b, i - 1);
        assert(b.nodes[b.stack[i] as int].parent == b.stack[i - 1]);
        if i > 1 {
            assert(b.stack[i - 1] > b.stack[i - 2]);
            assert(b.nodes[b.stack[i - 1] as int].item.kind is Section);
        }
    }
}

pub proof fn lemma_valid_kept(b: Building, after: ScriptNodes)
    requires
        stack_valid(b),
        extends(b.nodes, after),
    ensures
        stack_valid(Building { nodes: after, stack: b.stack }),
{
    let c = Building { nodes: after, stack: b.stack };
    assert forall|i: int| 0 <= i < c.stack.len() implies #[trigger] c.stack[i] < c.nodes.len() by {
        assert(b.stack[i] < b.nodes.len());
    }
}

pub proof fn lemma_nesting_kept(b: Building, after: ScriptNodes)
    requires
        sections_nest(b),
        extends(b.nodes, after),
    ensures
        sections_nest(Building { nodes: after, stack: b.stack }),
{
    let c = Building { nodes: after, stack: b.stack };
    lemma_valid_kept(b, after);
    assert forall|i: int| 1 <= i < c.stack.len() implies c.nodes[(#[trigger] c.stack[i]) as int].item.kind is Section
        && c.nodes[c.stack[i] as int].parent == c.stack[i - 1] && c.stack[i - 1] < c.stack[i] by {
        assert(b.stack[i] < b.nodes.len());
        assert(after[b.stack[i] as int].item == b.nodes[b.stack[i] as int].item);
    }
}

/// The building with one more section opened.
pub open spec fn section_opened(b: Building, span: SourceSpan) -> Building {
    Building {
        nodes: registered(b.nodes, b.stack.last() as int, script_item(ScriptKind::Section, span)),
        stack: b.stack.push(b.nodes.len() as usize),
    }
}

pub proof fn lemma_section_opened_valid(b: Building, span: SourceSpan)
    requires
        stack_valid(b),
    ensures
        stack_valid(section_opened(b, span)),
        extends(b.nodes, section_opened(b, span).nodes),
{
    let first = section_opened(b, span);
    assert(b.stack[b.stack.len() - 1] < b.nodes.len());
    lemma_registered_extends(b.nodes, b.stack.last() as int, script_item(ScriptKind::Section, span));
    assert forall|i: int| 0 <= i < first.stack.len() implies #[trigger] first.stack[i]
        < first.nodes.len() by {
        if i < b.stack.len() {
            assert(first.stack[i] == b.stack[i]);
            assert(b.stack[i] < b.nodes.len());
        }
    }
}

pub proof fn lemma_sections_opened_valid(b: Building, n: nat, span: SourceSpan)
    requires
        stack_valid(b),
    ensures
        stack_valid(sections_opened(b, n, span)),
        extends(b.nodes, sections_opened(b, n, span).nodes),
    decreases n,
{
    if n > 0 {
        let first = section_opened(b, span);
        lemma_section_opened_valid(b, span);
        lemma_sections_opened_valid(first, (n - 1) as nat, span);
        lemma_extends_chain(b.nodes, first.nodes, sections_opened(b, n, span).nodes);
    }
}

pub proof fn lemma_sections_opened_nest(b: Building, n: nat, span: SourceSpan)
    requires
        sections_nest(b),
        sections_opened(b, n, span).nodes.len() <= usize::MAX,
    ensures
        sections_nest(sections_opened(b, n, span)),
        sections_opened(b, n, span).stack.len() == b.stack.len() + n,
    decreases n,
{
    if n > 0 {
        let first = section_opened(b, span);
        lemma_section_opened_valid(b, span);
        lemma_sections_opened_valid(first, (n - 1) as nat, span);
        let parent = b.stack.last() as int;
        assert(b.stack[b.stack.len() - 1] < b.nodes.len());
        lemma_registered_extends(b.nodes, parent, script_item(ScriptKind::Section, span));
        assert forall|i: int| 1 <= i < first.stack.len() implies first.nodes[(
        #[trigger] first.stack[i]) as int].item.kind is Section && first.nodes[first.stack[i] as int].parent
            == first.stack[i - 1] && first.stack[i - 1] < first.stack[i] by {
            assert(first.stack[i - 1] == b.stack[i - 1]);
            assert(b.stack[i - 1] < b.nodes.len());
            if i < b.stack.len() {
                assert(first.stack[i] == b.stack[i]);
                assert(b.stack[i] < b.nodes.len());
                assert(b.nodes[b.stack[i] as int].item.kind is Section);
            }
        }
        lemma_sections_opened_nest(first, (n - 1) as nat, span);
    }
}

pub proof fn lemma_leveled_valid(b: Building, level: usize, span: SourceSpan)
    requires
        stack_valid(b),
        level >= 1,
    ensures
        stack_valid(leveled(b, level, span)),
        extends(b.nodes, leveled(b, level, span).nodes),
{
    if level > b.stack.len() {
        lemma_sections_opened_valid(b, (level - b.stack.len()) as nat, span);
    } else {
        let c = leveled(b, level, span);
        assert forall|i: int| 0 <= i < c.stack.len() implies #[trigger] c.stack[i] < c.nodes.len() by {
            assert(c.stack[i] == b.stack[i]);
            assert(b.stack[i] < b.nodes.len());
        }
    }
}

pub proof fn lemma_leveled_nest(b: Building, level: usize, span: SourceSpan)
    requires
        sections_nest(b),
        level >= 1,
        leveled(b, level, span).nodes.len() <= usize::MAX,
    ensures
        sections_nest(leveled(b, level, span)),
        leveled(b, level, span).stack.len() == level,
{
    if level > b.stack.len() {
        lemma_sections_opened_nest(b, (level - b.stack.len()) as nat, span);
    } else {
        let c = leveled(b, level, span);
        lemma_leveled_valid(b, level, span);
        assert(c.stack[0] == b.stack[0]);
        assert forall|i: int| 1 <= i < c.stack.len() implies c.nodes[(#[trigger] c.stack[i]) as int].item.kind is Section
            && c.nodes[c.stack[i] as int].parent == c.stack[i - 1] && c.stack[i - 1] < c.stack[i] by {
            assert(c.stack[i] == b.stack[i]);
            assert(c.stack[i - 1] == b.stack[i - 1]);
            assert(b.nodes[b.stack[i] as int].item.kind is Section);
        }
    }
}

/// The building in which the heading of a block has found its level; the building itself for
/// a block that is no heading.
pub open spec fn level_found(b0: Building, block: ParsedBlockView) -> Building {
    match block.kind {
        ParsedBlockKindView::Heading { level, .. } => leveled(b0, level, block.span),
        _ => b0,
    }
}

/// A block only adds nodes, and leaves the stack as its heading has set it.
pub proof fn lemma_block_added_valid(b0: Building, block: ParsedBlockView)
    requires
        stack_valid(b0),
        block.kind matches ParsedBlockKindView::Heading { level, .. } ==> level >= 1,
    ensures
        stack_valid(level_found(b0, block)),
        extends(b0.nodes, level_found(b0, block).nodes),
        extends(level_found(b0, block).nodes, block_added(b0, block).nodes),
        block_added(b0, block).stack == level_found(b0, block).stack,
        stack_valid(block_added(b0, block)),
        block.kind is Heading ==> level_found(b0, block).nodes.len() < block_added(
            b0,
            block,
        ).nodes.len(),
{
    let span = block.span;
    let b = level_found(b0, block);
    match block.kind {
        ParsedBlockKindView::Heading { level, .. } => {
            lemma_leveled_valid(b0, level, span);
        },
        _ => {},
    }
    let after = block_added(b0, block).nodes;
    assert(b.stack[b.stack.len() - 1] < b.nodes.len());
    let parent = b.stack.last() as int;
    match block.kind {
        ParsedBlockKindView::Text(text) => {
            lemma_with_text(b.nodes, parent, ScriptKind::Paragraph, span, text);
        },
        ParsedBlockKindView::List(list) => {
            lemma_list_node_added(b.nodes, parent, list, 0, span);
        },
        ParsedBlockKindView::Heading { level, text } => {
            lemma_with_text(b.nodes, parent, ScriptKind::Heading, span, text);
        },
        ParsedBlockKindView::Table { header, rows } => {
            lemma_table_added(b.nodes, parent, header, rows, span);
        },
        ParsedBlockKindView::Image { label, src } => {
            lemma_with_text(b.nodes, parent, ScriptKind::Image { src }, span, label);
        },
        ParsedBlockKindView::Quote(quote) => {
            lemma_quote_node_added(b.nodes, parent, quote, 0, span);
        },
        ParsedBlockKindView::Code { language, src } => {
            let first = registered(b.nodes, parent, script_item(ScriptKind::Code { language }, span));
            lemma_registered_extends(
                b.nodes,
                parent,
                script_item(ScriptKind::Code { language }, span),
            );
            lemma_registered_extends(
                first,
                b.nodes.len() as int,
                script_item(ScriptKind::Text(src), span),
            );
            lemma_extends_chain(b.nodes, first, after);
        },
        ParsedBlockKindView::Function { name, parameters } => {
            lemma_registered_extends(
                b.nodes,
                parent,
                script_item(ScriptKind::Function { name, parameters }, span),
            );
        },
        ParsedBlockKindView::HorizontalRule => {
            lemma_registered_extends(b.nodes, parent, script_item(ScriptKind::HorizontalRule, span));
        },
    }
    lemma_valid_kept(b, after);
}

/// The buildings of a sequence of blocks only grow.
pub proof fn lemma_blocks_added_valid(blocks: Seq<ParsedBlockView>, n: int, m: int)
    requires
        0 <= n <= m <= blocks.len(),
        levels_count(blocks),
    ensures
        stack_valid(blocks_added(blocks, m)),
        extends(blocks_added(blocks, n).nodes, blocks_added(blocks, m).nodes),
    decreases m,
{
    if m == 0 {
    } else {
        lemma_blocks_added_valid(blocks, if n == m {
            m - 1
        } else {
            n
        }, m - 1);
        let before = blocks_added(blocks, m - 1);
        lemma_block_added_valid(before, blocks[m - 1]);
        lemma_extends_chain(
            before.nodes,
            level_found(before, blocks[m - 1]).nodes,
            blocks_added(blocks, m).nodes,
        );
        if n < m {
            lemma_extends_chain(
                blocks_added(blocks, n).nodes,
                before.nodes,
                blocks_added(blocks, m).nodes,
            );
        }
    }
}

/// After a block the sections still nest, and the heading of a heading block has as many
/// nodes above it as its level says, which are sections but for the root.
pub proof fn lemma_block_added_nest(b0: Building, block: ParsedBlockView)
    requires
        sections_nest(b0),
        block.kind matches ParsedBlockKindView::Heading { level, .. } ==> level >= 1,
        block_added(b0, block).nodes.len() <= usize::MAX,
    ensures
        sections_nest(block_added(b0, block)),
        block.kind matches ParsedBlockKindView::Heading { level, .. } ==> {
            let h = level_found(b0, block).nodes.len() as int;
            let after = block_added(b0, block).nodes;
            &&& h < after.len()
            &&& after[h].item.kind is Heading
            &&& depth(after, h) == level
            &&& all_above(after, h, is_section())
        },
{
    let span = block.span;
    let b = level_found(b0, block);
    let after = block_added(b0, block).nodes;
    lemma_block_added_valid(b0, block);
    match block.kind {
        ParsedBlockKindView::Heading { level, text } => {
            lemma_leveled_nest(b0, level, span);
            let parent = b.stack.last() as int;
            let h = b.nodes.len() as int;
            lemma_nesting_depth(b, b.stack.len() - 1);
            let first = registered(b.nodes, parent, script_item(ScriptKind::Heading, span));
            assert(b.stack[b.stack.len() - 1] < b.nodes.len());
            lemma_registered_extends(b.nodes, parent, script_item(ScriptKind::Heading, span));
            lemma_depth_kept(b.nodes, first, parent, is_section());
            assert(first[h].parent == b.stack.last());
            assert(depth(first, h) == 1 + depth(first, parent));
            assert(all_above(first, h, is_section())) by {
                if parent > 0 {
                    assert(b.stack.len() > 1);
                    assert(b.nodes[b.stack[b.stack.len() - 1] as int].item.kind is Section);
                    assert(first[parent].item == b.nodes[parent].item);
                }
            }
            lemma_text_children_copied(first, h, text, 0, 0);
            lemma_depth_kept(first, after, h, is_section());
        },
        _ => {},
    }
    lemma_nesting_kept(b, after);
}

/// The sections of the building of a sequence of blocks nest.
pub proof fn lemma_blocks_added_nest(blocks: Seq<ParsedBlockView>, m: int)
    requires
        0 <= m <= blocks.len(),
        levels_count(blocks),
        blocks_added(blocks, m).nodes.len() <= usize::MAX,
    ensures
        sections_nest(blocks_added(blocks, m)),
    decreases m,
{
    if m > 0 {
        lemma_blocks_added_valid(blocks, m - 1, m);
        lemma_blocks_added_nest(blocks, m - 1);
        lemma_block_added_nest(blocks_added(blocks, m - 1), blocks[m - 1]);
    }
}

/// The id of the node that the heading of the `j`-th block becomes in the document of
/// `blocks`.
pub open spec fn heading_node(blocks: Seq<ParsedBlockView>, j: int) -> int {
    level_found(blocks_added(blocks, j), blocks[j]).nodes.len() as int
}

/// In the document of any sequence of blocks, the heading of a block of level `h` stands in
/// exactly `h - 1` sections: it has `h` nodes above it, and all of them but the root are
/// sections.
pub proof fn lemma_heading_in_sections(blocks: Seq<ParsedBlockView>, j: int)
    requires
        0 <= j < blocks.len(),
        levels_count(blocks),
        blocks[j].kind is Heading,
        transformed(blocks).len() <= usize::MAX,
    ensures
        heading_node(blocks, j) < transformed(blocks).len(),
        transformed(blocks)[heading_node(blocks, j)].item.kind is Heading,
        depth(transformed(blocks), heading_node(blocks, j)) == blocks[j].kind->Heading_level,
        all_above(transformed(blocks), heading_node(blocks, j), is_section()),
{
    let all = transformed(blocks);
    let after = blocks_added(blocks, j + 1).nodes;
    lemma_blocks_added_valid(blocks, j + 1, blocks.len() as int);
    lemma_blocks_added_valid(blocks, j, blocks.len() as int);
    lemma_blocks_added_nest(blocks, j);
    lemma_blocks_added_valid(blocks, j, j + 1);
    lemma_block_added_nest(blocks_added(blocks, j), blocks[j]);
    let h = heading_node(blocks, j);
    lemma_depth_kept(after, all, h, is_section());
    assert(all[h].item == after[h].item);
}

} // verus!
