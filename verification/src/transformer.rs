//! Makes the document tree of the parsed blocks of a document.

use vstd::prelude::*;
use vstd::string::StringExecFns;
use crate::arena::{registered, root_only, Node};
use crate::block::{
    row_texts, row_wf, rows_texts, CodeBlock, FunctionBlock, HeadingBlock, ImageBlock, ListBlock,
    ParsedBlock, ParsedBlockKind, ParsedBlockKindView, ParsedBlockView, QuoteBlock, TableBlock,
    TableCell, TableRow, TextBlock, TextNodes,
};
use crate::list_tree::{
    ListItem, ListNodeId, ListNodeKind, ListNodeKindView, ListNodeStyle, ListTree,
};
use crate::quote_tree::{QuoteItem, QuoteNodeId, QuoteNodeKind, QuoteNodeKindView, QuoteTree};
use crate::script_tree::{
    root_span, LetterScriptNodeId, LetterScriptNodeKind, LetterScriptTree, ScriptItem, ScriptKind,
};
use crate::source_span::SourceSpan;
use crate::text_tree::{TextNodeId, TextNodeKind, TextNodeKindView, TextTree};

verus! {

/// The nodes of a document tree.
pub type ScriptNodes = Seq<Node<ScriptItem>>;

/// Why a block could not be made part of the document. No block fails so far.
#[derive(Debug)]
pub struct TransformError {
    pub message: String,
    pub block: ParsedBlock,
}

pub type TransformResult<T> = Result<T, TransformError>;

pub open spec fn script_item(kind: ScriptKind, span: SourceSpan) -> ScriptItem {
    ScriptItem { kind, span }
}

/// The kind of the document node that stands for a text node of `kind`.
pub open spec fn text_kind(kind: TextNodeKindView) -> ScriptKind {
    match kind {
        TextNodeKindView::Root => ScriptKind::Root,
        TextNodeKindView::Text { src } => ScriptKind::Text(src),
        TextNodeKindView::Bold => ScriptKind::Bold,
        TextNodeKindView::Italic => ScriptKind::Italic,
        TextNodeKindView::Code => ScriptKind::Code { language: None },
        TextNodeKindView::Link { target } => ScriptKind::Link { target },
        TextNodeKindView::Image { src } => ScriptKind::Image { src },
        TextNodeKindView::Function { name, parameters } => ScriptKind::Function { name, parameters },
    }
}

/// The document after the text node `id` and the nodes below it were copied to below
/// `parent`.
pub open spec fn text_node_copied(
    nodes: ScriptNodes,
    parent: int,
    text: TextNodes,
    id: int,
) -> ScriptNodes
    decreases text.len() - id, text[id].children.len() + 1,
{
    if 0 <= id < text.len() {
        text_children_copied(
            registered(
                nodes,
                parent,
                script_item(text_kind(text[id].item.kind), text[id].item.span),
            ),
            nodes.len() as int,
            text,
            id,
            0,
        )
    } else {
        nodes
    }
}

/// The document after the children of the text node `id` from the `k`-th on, and the nodes
/// below them, were copied to below `parent`.
pub open spec fn text_children_copied(
    nodes: ScriptNodes,
    parent: int,
    text: TextNodes,
    id: int,
    k: int,
) -> ScriptNodes
    decreases text.len() - id, text[id].children.len() - k,
{
    if 0 <= id < text.len() && 0 <= k < text[id].children.len() {
        let c = text[id].children[k] as int;
        text_children_copied(
            if id < c < text.len() {
                text_node_copied(nodes, parent, text, c)
            } else {
                nodes
            },
            parent,
            text,
            id,
            k + 1,
        )
    } else {
        nodes
    }
}

/// The document after the text was copied to below `parent`: all nodes of the text but its
/// root.
pub open spec fn text_copied(nodes: ScriptNodes, parent: int, text: TextNodes) -> ScriptNodes {
    text_children_copied(nodes, parent, text, 0, 0)
}

/// The document after a node of `kind` was added below `parent`, with `text` below it.
pub open spec fn with_text(
    nodes: ScriptNodes,
    parent: int,
    kind: ScriptKind,
    span: SourceSpan,
    text: TextNodes,
) -> ScriptNodes {
    text_copied(registered(nodes, parent, script_item(kind, span)), nodes.len() as int, text)
}

/// The document after the list node `id` and the nodes below it were added below `parent`:
/// a list for a parent, with its children below it, and an item with its text for a leaf.
pub open spec fn list_node_added(
    nodes: ScriptNodes,
    parent: int,
    list: Seq<Node<ListItem>>,
    id: int,
    span: SourceSpan,
) -> ScriptNodes
    decreases list.len() - id, list[id].children.len() + 1,
{
    if 0 <= id < list.len() {
        match list[id].item.kind {
            ListNodeKindView::Parent => list_children_added(
                registered(
                    nodes,
                    parent,
                    script_item(
                        ScriptKind::List { ordered: list[id].item.style == ListNodeStyle::Ordered },
                        span,
                    ),
                ),
                nodes.len() as int,
                list,
                id,
                0,
                span,
            ),
            ListNodeKindView::Leaf { text_tree } => with_text(
                nodes,
                parent,
                ScriptKind::ListItem,
                span,
                text_tree,
            ),
        }
    } else {
        nodes
    }
}

pub open spec fn list_children_added(
    nodes: ScriptNodes,
    parent: int,
    list: Seq<Node<ListItem>>,
    id: int,
    k: int,
    span: SourceSpan,
) -> ScriptNodes
    decreases list.len() - id, list[id].children.len() - k,
{
    if 0 <= id < list.len() && 0 <= k < list[id].children.len() {
        let c = list[id].children[k] as int;
        list_children_added(
            if id < c < list.len() {
                list_node_added(nodes, parent, list, c, span)
            } else {
                nodes
            },
            parent,
            list,
            id,
            k + 1,
            span,
        )
    } else {
        nodes
    }
}

/// The document after the quote node `id` and the nodes below it were added below `parent`:
/// a quote for a parent, with its children below it; the text of a leaf goes below `parent`
/// itself.
pub open spec fn quote_node_added(
    nodes: ScriptNodes,
    parent: int,
    quote: Seq<Node<QuoteItem>>,
    id: int,
    span: SourceSpan,
) -> ScriptNodes
    decreases quote.len() - id, quote[id].children.len() + 1,
{
    if 0 <= id < quote.len() {
        match quote[id].item.kind {
            QuoteNodeKindView::Parent => quote_children_added(
                registered(nodes, parent, script_item(ScriptKind::Quote, span)),
                nodes.len() as int,
                quote,
                id,
                0,
                span,
            ),
            QuoteNodeKindView::Leaf { text_tree } => text_copied(nodes, parent, text_tree),
        }
    } else {
        nodes
    }
}

pub open spec fn quote_children_added(
    nodes: ScriptNodes,
    parent: int,
    quote: Seq<Node<QuoteItem>>,
    id: int,
    k: int,
    span: SourceSpan,
) -> ScriptNodes
    decreases quote.len() - id, quote[id].children.len() - k,
{
    if 0 <= id < quote.len() && 0 <= k < quote[id].children.len() {
        let c = quote[id].children[k] as int;
        quote_children_added(
            if id < c < quote.len() {
                quote_node_added(nodes, parent, quote, c, span)
            } else {
                nodes
            },
            parent,
            quote,
            id,
            k + 1,
            span,
        )
    } else {
        nodes
    }
}

/// The document after the cells from the `k`-th on were added below `parent`.
pub open spec fn cells_added(
    nodes: ScriptNodes,
    parent: int,
    cells: Seq<TextNodes>,
    k: int,
    span: SourceSpan,
) -> ScriptNodes
    decreases cells.len() - k,
{
    if 0 <= k < cells.len() {
        cells_added(
            with_text(nodes, parent, ScriptKind::TableCell, span, cells[k]),
            parent,
            cells,
            k + 1,
            span,
        )
    } else {
        nodes
    }
}

/// The document after a row of `kind` with `cells` was added below `parent`.
pub open spec fn row_added(
    nodes: ScriptNodes,
    parent: int,
    kind: ScriptKind,
    cells: Seq<TextNodes>,
    span: SourceSpan,
) -> ScriptNodes {
    cells_added(
        registered(nodes, parent, script_item(kind, span)),
        nodes.len() as int,
        cells,
        0,
        span,
    )
}

/// The document after the rows from the `k`-th on were added below `parent`.
pub open spec fn rows_added(
    nodes: ScriptNodes,
    parent: int,
    rows: Seq<Seq<TextNodes>>,
    k: int,
    span: SourceSpan,
) -> ScriptNodes
    decreases rows.len() - k,
{
    if 0 <= k < rows.len() {
        rows_added(
            row_added(nodes, parent, ScriptKind::TableRow, rows[k], span),
            parent,
            rows,
            k + 1,
            span,
        )
    } else {
        nodes
    }
}

/// The document after a table was added below `parent`: the row of its headers, then the
/// rows of its body.
pub open spec fn table_added(
    nodes: ScriptNodes,
    parent: int,
    header: Seq<TextNodes>,
    rows: Seq<Seq<TextNodes>>,
    span: SourceSpan,
) -> ScriptNodes {
    let table = nodes.len() as int;
    rows_added(
        row_added(
            registered(nodes, parent, script_item(ScriptKind::Table, span)),
            table,
            ScriptKind::TableHeaderRow,
            header,
            span,
        ),
        table,
        rows,
        0,
        span,
    )
}

/// A document that is being built: its nodes, and the ids of the root and of the sections
/// that are open, one below the other.
pub struct Building {
    pub nodes: ScriptNodes,
    pub stack: Seq<usize>,
}

/// The building after `n` more sections were opened, each in the one before.
pub open spec fn sections_opened(b: Building, n: nat, span: SourceSpan) -> Building
    decreases n,
{
    if n == 0 {
        b
    } else {
        sections_opened(
            Building {
                nodes: registered(
                    b.nodes,
                    b.stack.last() as int,
                    script_item(ScriptKind::Section, span),
                ),
                stack: b.stack.push(b.nodes.len() as usize),
            },
            (n - 1) as nat,
            span,
        )
    }
}

/// The building with sections opened or closed so that a heading of `level` comes to stand
/// in `level - 1` sections.
pub open spec fn leveled(b: Building, level: usize, span: SourceSpan) -> Building {
    if level > b.stack.len() {
        sections_opened(b, (level - b.stack.len()) as nat, span)
    } else {
        Building { stack: b.stack.take(level as int), ..b }
    }
}

/// The building after one more block. A heading opens or closes sections first. Every block
/// goes below the section that is open, or below the root.
pub open spec fn block_added(b0: Building, block: ParsedBlockView) -> Building {
    let span = block.span;
    let b = match block.kind {
        ParsedBlockKindView::Heading { level, .. } => leveled(b0, level, span),
        _ => b0,
    };
    let parent = b.stack.last() as int;
    Building {
        nodes: match block.kind {
            ParsedBlockKindView::Text(text) => with_text(
                b.nodes,
                parent,
                ScriptKind::Paragraph,
                span,
                text,
            ),
            ParsedBlockKindView::List(list) => list_node_added(b.nodes, parent, list, 0, span),
            ParsedBlockKindView::Heading { text, .. } => with_text(
                b.nodes,
                parent,
                ScriptKind::Heading,
                span,
                text,
            ),
            ParsedBlockKindView::Table { header, rows } => table_added(
                b.nodes,
                parent,
                header,
                rows,
                span,
            ),
            ParsedBlockKindView::Image { label, src } => with_text(
                b.nodes,
                parent,
                ScriptKind::Image { src },
                span,
                label,
            ),
            ParsedBlockKindView::Quote(quote) => quote_node_added(b.nodes, parent, quote, 0, span),
            ParsedBlockKindView::Code { language, src } => registered(
                registered(b.nodes, parent, script_item(ScriptKind::Code { language }, span)),
                b.nodes.len() as int,
                script_item(ScriptKind::Text(src), span),
            ),
            ParsedBlockKindView::Function { name, parameters } => registered(
                b.nodes,
                parent,
                script_item(ScriptKind::Function { name, parameters }, span),
            ),
            ParsedBlockKindView::HorizontalRule => registered(
                b.nodes,
                parent,
                script_item(ScriptKind::HorizontalRule, span),
            ),
        },
        ..b
    }
}

/// The building after the first `n` of `blocks`.
pub open spec fn blocks_added(blocks: Seq<ParsedBlockView>, n: int) -> Building
    decreases n,
{
    if n <= 0 {
        Building {
            nodes: root_only(script_item(ScriptKind::Root, root_span())),
            stack: seq![0usize],
        }
    } else {
        block_added(blocks_added(blocks, n - 1), blocks[n - 1])
    }
}

/// The nodes of the document of `blocks`.
pub open spec fn transformed(blocks: Seq<ParsedBlockView>) -> ScriptNodes {
    blocks_added(blocks, blocks.len() as int).nodes
}

/// The blocks as their views.
pub open spec fn block_views(blocks: Seq<ParsedBlock>) -> Seq<ParsedBlockView> {
    blocks.map_values(|b: ParsedBlock| b@)
}

/// Makes the document tree of `blocks`.
pub fn transform(blocks: Vec<ParsedBlock>) -> (r: TransformResult<LetterScriptTree>)
    requires
        forall|i: int| 0 <= i < blocks@.len() ==> (#[trigger] blocks@[i]).wf(),
    ensures
        r matches Ok(tree) && tree.wf() && tree@ == transformed(block_views(blocks@)),
{
    let mut tree = LetterScriptTree::new();
    transform_blocks(&mut tree, &blocks);
    Ok(tree)
}

/// The stack holds ids of nodes of the tree.
spec fn stack_fits(stack: Seq<usize>, tree: ScriptNodes) -> bool {
    &&& stack.len() >= 1
    &&& forall|i: int| 0 <= i < stack.len() ==> #[trigger] stack[i] < tree.len()
}

fn transform_blocks(tree: &mut LetterScriptTree, blocks: &Vec<ParsedBlock>)
    requires
        old(tree).wf(),
        old(tree)@ == root_only(script_item(ScriptKind::Root, root_span())),
        forall|i: int| 0 <= i < blocks@.len() ==> (#[trigger] blocks@[i]).wf(),
    ensures
        final(tree).wf(),
        final(tree)@ == transformed(block_views(blocks@)),
{
    let mut node_stack: Vec<LetterScriptNodeId> = Vec::new();
    node_stack.push(tree.root_id());
    assert(node_stack@ =~= seq![0usize]);
    let ghost views = block_views(blocks@);
    let mut n: usize = 0;
    while n < blocks.len()
        invariant
            n <= blocks@.len(),
            views == block_views(blocks@),
            forall|i: int| 0 <= i < blocks@.len() ==> (#[trigger] blocks@[i]).wf(),
            tree.wf(),
            stack_fits(node_stack@, tree@),
            blocks_added(views, n as int) == (Building { nodes: tree@, stack: node_stack@ }),
        decreases blocks@.len() - n,
    {
        transform_block(tree, &mut node_stack, &blocks[n]);
        n += 1;
    }
}

fn transform_block(
    tree: &mut LetterScriptTree,
    node_stack: &mut Vec<LetterScriptNodeId>,
    block: &ParsedBlock,
)
    requires
        old(tree).wf(),
        stack_fits(old(node_stack)@, old(tree)@),
        block.wf(),
    ensures
        final(tree).wf(),
        stack_fits(final(node_stack)@, final(tree)@),
        (Building { nodes: final(tree)@, stack: final(node_stack)@ }) == block_added(
            Building { nodes: old(tree)@, stack: old(node_stack)@ },
            block@,
        ),
{
    let span = *block.span();
    match block.kind() {
        ParsedBlockKind::Text(text_block) => {
            let parent = node_stack[node_stack.len() - 1];
            transform_text_block(tree, parent, text_block, span)
        },
        ParsedBlockKind::List(list_block) => {
            let parent = node_stack[node_stack.len() - 1];
            transform_list_block(tree, parent, list_block, span)
        },
        ParsedBlockKind::Heading(heading_block) => {
            transform_heading_block(tree, node_stack, heading_block, span)
        },
        ParsedBlockKind::Table(table_block) => {
            let parent = node_stack[node_stack.len() - 1];
            transform_table_block(tree, parent, table_block, span)
        },
        ParsedBlockKind::Image(image_block) => {
            let parent = node_stack[node_stack.len() - 1];
            transform_image_block(tree, parent, image_block, span)
        },
        ParsedBlockKind::Quote(quote_block) => {
            let parent = node_stack[node_stack.len() - 1];
            transform_quote_block(tree, parent, quote_block, span)
        },
        ParsedBlockKind::Code(code_block) => {
            let parent = node_stack[node_stack.len() - 1];
            transform_code_block(tree, parent, code_block, span)
        },
        ParsedBlockKind::Function(function_block) => {
            let parent = node_stack[node_stack.len() - 1];
            transform_function_block(tree, parent, function_block, span)
        },
        ParsedBlockKind::HorizontalRule => {
            let parent = node_stack[node_stack.len() - 1];
            transform_horizontal_rule(tree, parent, span)
        },
    }
}

fn transform_list_block(
    tree: &mut LetterScriptTree,
    parent: LetterScriptNodeId,
    block: &ListBlock,
    span: SourceSpan,
)
    requires
        old(tree).wf(),
        parent < old(tree)@.len(),
        block.wf(),
    ensures
        final(tree).wf(),
        final(tree)@.len() >= old(tree)@.len(),
        final(tree)@ == list_node_added(old(tree)@, parent as int, block.spec_tree()@, 0, span),
{
    let list_tree = block.tree();
    proof {
        list_tree.lemma_wf();
    }
    transform_list_item(tree, parent, list_tree, 0, span);
}

fn transform_list_item(
    tree: &mut LetterScriptTree,
    parent: LetterScriptNodeId,
    list_tree: &ListTree,
    item_node_id: ListNodeId,
    span: SourceSpan,
)
    requires
        old(tree).wf(),
        parent < old(tree)@.len(),
        list_tree.wf(),
        item_node_id < list_tree@.len(),
    ensures
        final(tree).wf(),
        final(tree)@.len() >= old(tree)@.len(),
        final(tree)@ == list_node_added(
            old(tree)@,
            parent as int,
            list_tree@,
            item_node_id as int,
            span,
        ),
    decreases list_tree@.len() - item_node_id,
{
    let list_node = list_tree.get_node(item_node_id);
    match list_node.kind() {
        ListNodeKind::Parent => {
            let is_ordered = matches!(list_node.style(), ListNodeStyle::Ordered);
            let list_node_id = tree.register_node(
                parent,
                LetterScriptNodeKind::List { ordered: is_ordered },
                span,
            );
            let children = list_node.children();
            let mut k: usize = 0;
            let ghost start = tree@;
            while k < children.len()
                invariant
                    tree.wf(),
                    list_tree.wf(),
                    item_node_id < list_tree@.len(),
                    list_node_id < start.len() <= tree@.len(),
                    children@ == list_tree@[item_node_id as int].children,
                    k <= children@.len(),
                    list_children_added(
                        start,
                        list_node_id as int,
                        list_tree@,
                        item_node_id as int,
                        0,
                        span,
                    ) == list_children_added(
                        tree@,
                        list_node_id as int,
                        list_tree@,
                        item_node_id as int,
                        k as int,
                        span,
                    ),
                decreases children@.len() - k,
            {
                let child = children[k];
                proof {
                    list_tree.lemma_wf();
                    assert(list_tree@[item_node_id as int].children[k as int] == child);
                }
                transform_list_item(tree, list_node_id, list_tree, child, span);
                k += 1;
            }
        },
        ListNodeKind::Leaf { text_tree } => {
            let list_item_node_id = tree.register_node(parent, LetterScriptNodeKind::ListItem, span);
            transform_text_tree(tree, list_item_node_id, text_tree);
        },
    }
}

fn transform_heading_block(
    tree: &mut LetterScriptTree,
    node_stack: &mut Vec<LetterScriptNodeId>,
    block: &HeadingBlock,
    span: SourceSpan,
)
    requires
        old(tree).wf(),
        stack_fits(old(node_stack)@, old(tree)@),
        block.wf(),
        block.spec_level() >= 1,
    ensures
        final(tree).wf(),
        stack_fits(final(node_stack)@, final(tree)@),
        (Building { nodes: final(tree)@, stack: final(node_stack)@ }) == block_added(
            Building { nodes: old(tree)@, stack: old(node_stack)@ },
            ParsedBlockView {
                kind: ParsedBlockKindView::Heading {
                    level: block.spec_level(),
                    text: block.spec_text_tree()@,
                },
                span,
            },
        ),
{
    let level = block.level();
    let current_level = node_stack.len();
    let ghost b0 = Building { nodes: tree@, stack: node_stack@ };
    if level > current_level {
        let mut left: usize = level - current_level;
        while left > 0
            invariant
                tree.wf(),
                stack_fits(node_stack@, tree@),
                sections_opened(b0, (level - current_level) as nat, span) == sections_opened(
                    Building { nodes: tree@, stack: node_stack@ },
                    left as nat,
                    span,
                ),
            decreases left,
        {
            let parent = node_stack[node_stack.len() - 1];
            let section_node_id = tree.register_node(parent, LetterScriptNodeKind::Section, span);
            node_stack.push(section_node_id);
            left -= 1;
        }
    } else {
        node_stack.truncate(level);
        assert(node_stack@ =~= b0.stack.take(level as int));
    }
    let parent = node_stack[node_stack.len() - 1];
    let heading_node_id = tree.register_node(parent, LetterScriptNodeKind::Heading, span);
    transform_text_tree(tree, heading_node_id, block.text_tree());
}

fn transform_table_block(
    tree: &mut LetterScriptTree,
    parent: LetterScriptNodeId,
    block: &TableBlock,
    span: SourceSpan,
)
    requires
        old(tree).wf(),
        parent < old(tree)@.len(),
        block.wf(),
    ensures
        final(tree).wf(),
        final(tree)@.len() >= old(tree)@.len(),
        final(tree)@ == table_added(
            old(tree)@,
            parent as int,
            row_texts(block.spec_header_row()),
            rows_texts(block.spec_rows()),
            span,
        ),
{
    let table_node_id = tree.register_node(parent, LetterScriptNodeKind::Table, span);
    transform_table_header_row(tree, table_node_id, block.header_row(), span);
    let ghost start = tree@;
    let ghost rows = rows_texts(block.spec_rows());
    let mut row_index: usize = 0;
    while row_index < block.row_count()
        invariant
            tree.wf(),
            block.wf(),
            table_node_id < start.len() <= tree@.len(),
            rows == rows_texts(block.spec_rows()),
            row_index <= block.spec_rows().len(),
            rows_added(start, table_node_id as int, rows, 0, span) == rows_added(
                tree@,
                table_node_id as int,
                rows,
                row_index as int,
                span,
            ),
        decreases block.spec_rows().len() - row_index,
    {
        match block.get_row(row_index) {
            Some(row) => {
                assert(rows[row_index as int] == row_texts(row@));
                transform_table_row(tree, table_node_id, row, span);
            },
            None => {},
        }
        row_index += 1;
    }
}

/// Adds the cells of a row below the node `row_id`.
fn transform_cells(
    tree: &mut LetterScriptTree,
    row_id: LetterScriptNodeId,
    row: &TableRow,
    span: SourceSpan,
)
    requires
        old(tree).wf(),
        row_id < old(tree)@.len(),
        row_wf(row@),
    ensures
        final(tree).wf(),
        final(tree)@.len() >= old(tree)@.len(),
        final(tree)@ == cells_added(old(tree)@, row_id as int, row_texts(row@), 0, span),
{
    let ghost cells = row_texts(row@);
    let mut k: usize = 0;
    while k < row.len()
        invariant
            tree.wf(),
            row_wf(row@),
            row_id < old(tree)@.len() <= tree@.len(),
            cells == row_texts(row@),
            k <= row@.len(),
            cells_added(old(tree)@, row_id as int, cells, 0, span) == cells_added(
                tree@,
                row_id as int,
                cells,
                k as int,
                span,
            ),
        decreases row@.len() - k,
    {
        assert(cells[k as int] == row@[k as int].spec_text_tree()@);
        transform_table_cell(tree, row_id, &row[k], span);
        k += 1;
    }
}

fn transform_table_row(
    tree: &mut LetterScriptTree,
    parent: LetterScriptNodeId,
    row: &TableRow,
    span: SourceSpan,
)
    requires
        old(tree).wf(),
        parent < old(tree)@.len(),
        row_wf(row@),
    ensures
        final(tree).wf(),
        final(tree)@.len() >= old(tree)@.len(),
        final(tree)@ == row_added(
            old(tree)@,
            parent as int,
            ScriptKind::TableRow,
            row_texts(row@),
            span,
        ),
{
    let table_row_node_id = tree.register_node(parent, LetterScriptNodeKind::TableRow, span);
    transform_cells(tree, table_row_node_id, row, span);
}

fn transform_table_header_row(
    tree: &mut LetterScriptTree,
    parent: LetterScriptNodeId,
    header_row: &TableRow,
    span: SourceSpan,
)
    requires
        old(tree).wf(),
        parent < old(tree)@.len(),
        row_wf(header_row@),
    ensures
        final(tree).wf(),
        final(tree)@.len() >= old(tree)@.len(),
        final(tree)@ == row_added(
            old(tree)@,
            parent as int,
            ScriptKind::TableHeaderRow,
            row_texts(header_row@),
            span,
        ),
{
    let table_header_node_id = tree.register_node(
        parent,
        LetterScriptNodeKind::TableHeaderRow,
        span,
    );
    transform_cells(tree, table_header_node_id, header_row, span);
}

fn transform_table_cell(
    tree: &mut LetterScriptTree,
    parent: LetterScriptNodeId,
    cell: &TableCell,
    span: SourceSpan,
)
    requires
        old(tree).wf(),
        parent < old(tree)@.len(),
        cell.wf(),
    ensures
        final(tree).wf(),
        final(tree)@.len() >= old(tree)@.len(),
        final(tree)@ == with_text(
            old(tree)@,
            parent as int,
            ScriptKind::TableCell,
            span,
            cell.spec_text_tree()@,
        ),
{
    let table_cell_node_id = tree.register_node(parent, LetterScriptNodeKind::TableCell, span);
    transform_text_tree(tree, table_cell_node_id, cell.text_tree());
}

fn transform_image_block(
    tree: &mut LetterScriptTree,
    parent: LetterScriptNodeId,
    block: &ImageBlock,
    span: SourceSpan,
)
    requires
        old(tree).wf(),
        parent < old(tree)@.len(),
        block.wf(),
    ensures
        final(tree).wf(),
        final(tree)@.len() >= old(tree)@.len(),
        final(tree)@ == with_text(
            old(tree)@,
            parent as int,
            ScriptKind::Image { src: block.spec_src() },
            span,
            block.spec_text_tree()@,
        ),
{
    let src = String::from_str(block.src());
    let node_id = tree.register_node(parent, LetterScriptNodeKind::Image { src }, span);
    transform_text_tree(tree, node_id, block.text_tree());
}

fn transform_quote_block(
    tree: &mut LetterScriptTree,
    parent: LetterScriptNodeId,
    block: &QuoteBlock,
    span: SourceSpan,
)
    requires
        old(tree).wf(),
        parent < old(tree)@.len(),
        block.wf(),
    ensures
        final(tree).wf(),
        final(tree)@.len() >= old(tree)@.len(),
        final(tree)@ == quote_node_added(old(tree)@, parent as int, block.spec_tree()@, 0, span),
{
    let quote_tree = block.tree();
    proof {
        quote_tree.lemma_wf();
    }
    transform_quote_node(tree, parent, quote_tree, 0, &span);
}

fn transform_quote_node(
    tree: &mut LetterScriptTree,
    parent: LetterScriptNodeId,
    quote_tree: &QuoteTree,
    quote_node_id: QuoteNodeId,
    span: &SourceSpan,
)
    requires
        old(tree).wf(),
        parent < old(tree)@.len(),
        quote_tree.wf(),
        quote_node_id < quote_tree@.len(),
    ensures
        final(tree).wf(),
        final(tree)@.len() >= old(tree)@.len(),
        final(tree)@ == quote_node_added(
            old(tree)@,
            parent as int,
            quote_tree@,
            quote_node_id as int,
            *span,
        ),
    decreases quote_tree@.len() - quote_node_id,
{
    let quote_node = quote_tree.get_node(quote_node_id);
    match quote_node.kind() {
        QuoteNodeKind::Parent => {
            let node_id = tree.register_node(parent, LetterScriptNodeKind::Quote, *span);
            let children = quote_node.children();
            let mut k: usize = 0;
            let ghost start = tree@;
            while k < children.len()
                invariant
                    tree.wf(),
                    quote_tree.wf(),
                    quote_node_id < quote_tree@.len(),
                    node_id < start.len() <= tree@.len(),
                    children@ == quote_tree@[quote_node_id as int].children,
                    k <= children@.len(),
                    quote_children_added(
                        start,
                        node_id as int,
                        quote_tree@,
                        quote_node_id as int,
                        0,
                        *span,
                    ) == quote_children_added(
                        tree@,
                        node_id as int,
                        quote_tree@,
                        quote_node_id as int,
                        k as int,
                        *span,
                    ),
                decreases children@.len() - k,
            {
                let child = children[k];
                proof {
                    quote_tree.lemma_wf();
                    assert(quote_tree@[quote_node_id as int].children[k as int] == child);
                }
                transform_quote_node(tree, node_id, quote_tree, child, span);
                k += 1;
            }
        },
        QuoteNodeKind::Leaf { text_tree } => {
            transform_text_tree(tree, parent, text_tree);
        },
    }
}

fn transform_code_block(
    tree: &mut LetterScriptTree,
    parent: LetterScriptNodeId,
    block: &CodeBlock,
    span: SourceSpan,
)
    requires
        old(tree).wf(),
        parent < old(tree)@.len(),
    ensures
        final(tree).wf(),
        final(tree)@.len() >= old(tree)@.len(),
        final(tree)@ == registered(
            registered(
                old(tree)@,
                parent as int,
                script_item(ScriptKind::Code { language: block.spec_language() }, span),
            ),
            old(tree)@.len() as int,
            script_item(ScriptKind::Text(block.spec_src()), span),
        ),
{
    let language = match block.language() {
        Some(l) => Some(l.clone()),
        None => None,
    };
    let src = String::from_str(block.src());
    let node_id = tree.register_node(parent, LetterScriptNodeKind::Code { language }, span);
    tree.register_node(node_id, LetterScriptNodeKind::Text(src), span);
}

fn transform_function_block(
    tree: &mut LetterScriptTree,
    parent: LetterScriptNodeId,
    block: &FunctionBlock,
    span: SourceSpan,
)
    requires
        old(tree).wf(),
        parent < old(tree)@.len(),
    ensures
        final(tree).wf(),
        final(tree)@.len() >= old(tree)@.len(),
        final(tree)@ == registered(
            old(tree)@,
            parent as int,
            script_item(
                ScriptKind::Function {
                    name: block.spec_name(),
                    parameters: block.spec_parameters(),
                },
                span,
            ),
        ),
{
    let name = String::from_str(block.name());
    let parameters = block.parameters().duplicate();
    tree.register_node(parent, LetterScriptNodeKind::Function { name, parameters }, span);
}

fn transform_horizontal_rule(
    tree: &mut LetterScriptTree,
    parent: LetterScriptNodeId,
    span: SourceSpan,
)
    requires
        old(tree).wf(),
        parent < old(tree)@.len(),
    ensures
        final(tree).wf(),
        final(tree)@.len() >= old(tree)@.len(),
        final(tree)@ == registered(
            old(tree)@,
            parent as int,
            script_item(ScriptKind::HorizontalRule, span),
        ),
{
    tree.register_node(parent, LetterScriptNodeKind::HorizontalRule, span);
}

fn transform_text_block(
    tree: &mut LetterScriptTree,
    parent: LetterScriptNodeId,
    block: &TextBlock,
    span: SourceSpan,
)
    requires
        old(tree).wf(),
        parent < old(tree)@.len(),
        block.wf(),
    ensures
        final(tree).wf(),
        final(tree)@.len() >= old(tree)@.len(),
        final(tree)@ == with_text(
            old(tree)@,
            parent as int,
            ScriptKind::Paragraph,
            span,
            block.spec_tree()@,
        ),
{
    let paragraph_node_id = tree.register_node(parent, LetterScriptNodeKind::Paragraph, span);
    transform_text_tree(tree, paragraph_node_id, block.tree());
}

fn transform_text_tree(
    tree: &mut LetterScriptTree,
    parent: LetterScriptNodeId,
    text_tree: &TextTree,
)
    requires
        old(tree).wf(),
        parent < old(tree)@.len(),
        text_tree.wf(),
    ensures
        final(tree).wf(),
        final(tree)@.len() >= old(tree)@.len(),
        final(tree)@ == text_copied(old(tree)@, parent as int, text_tree@),
{
    proof {
        text_tree.lemma_wf();
    }
    transform_text_children(tree, parent, text_tree, 0);
}

/// Copies the children of the text node `text_node_id`, and the nodes below them, to below
/// `parent`.
fn transform_text_children(
    tree: &mut LetterScriptTree,
    parent: LetterScriptNodeId,
    text_tree: &TextTree,
    text_node_id: TextNodeId,
)
    requires
        old(tree).wf(),
        parent < old(tree)@.len(),
        text_tree.wf(),
        text_node_id < text_tree@.len(),
    ensures
        final(tree).wf(),
        final(tree)@.len() >= old(tree)@.len(),
        final(tree)@ == text_children_copied(
            old(tree)@,
            parent as int,
            text_tree@,
            text_node_id as int,
            0,
        ),
    decreases text_tree@.len() - text_node_id, 1int,
{
    let children = text_tree.get_node(text_node_id).children();
    let mut k: usize = 0;
    while k < children.len()
        invariant
            tree.wf(),
            text_tree.wf(),
            text_node_id < text_tree@.len(),
            parent < old(tree)@.len() <= tree@.len(),
            children@ == text_tree@[text_node_id as int].children,
            k <= children@.len(),
            text_children_copied(old(tree)@, parent as int, text_tree@, text_node_id as int, 0)
                == text_children_copied(
                tree@,
                parent as int,
                text_tree@,
                text_node_id as int,
                k as int,
            ),
        decreases children@.len() - k,
    {
        let child = children[k];
        proof {
            text_tree.lemma_wf();
            assert(text_tree@[text_node_id as int].children[k as int] == child);
        }
        transform_text_node(tree, parent, text_tree, child);
        k += 1;
    }
}

fn transform_text_node(
    tree: &mut LetterScriptTree,
    parent: LetterScriptNodeId,
    text_tree: &TextTree,
    text_node_id: TextNodeId,
)
    requires
        old(tree).wf(),
        parent < old(tree)@.len(),
        text_tree.wf(),
        0 < text_node_id < text_tree@.len(),
    ensures
        final(tree).wf(),
        final(tree)@.len() >= old(tree)@.len(),
        final(tree)@ == text_node_copied(
            old(tree)@,
            parent as int,
            text_tree@,
            text_node_id as int,
        ),
    decreases text_tree@.len() - text_node_id, 2int,
{
    let text_node = text_tree.get_node(text_node_id);
    let span = *text_node.span();
    let node_kind = match text_node.kind() {
        TextNodeKind::Root => LetterScriptNodeKind::Root,
        TextNodeKind::Text { src } => LetterScriptNodeKind::Text(src.clone()),
        TextNodeKind::Bold => LetterScriptNodeKind::Bold,
        TextNodeKind::Italic => LetterScriptNodeKind::Italic,
        TextNodeKind::Code => LetterScriptNodeKind::Code { language: None },
        TextNodeKind::Link { target } => LetterScriptNodeKind::Link { target: target.clone() },
        TextNodeKind::Image { src } => LetterScriptNodeKind::Image { src: src.clone() },
        TextNodeKind::Function { name, parameters } => LetterScriptNodeKind::Function {
            name: name.clone(),
            parameters: parameters.duplicate(),
        },
    };
    let node_id = tree.register_node(parent, node_kind, span);
    transform_text_children(tree, node_id, text_tree, text_node_id);
}

} // verus!
