//! The parser of lists.

use vstd::prelude::*;
use vstd::string::StringExecFns;
use crate::arena::{registered, root_only, Node};
use crate::block::{
    ListBlock, ParseError, ParseResult, ParsedBlock, ParsedBlockKind, ParsedBlockKindView,
    ParsedBlockView,
};
use crate::chars::{as_ranges, find_lines, line_ranges, push_all, slice_of, to_chars, whole_string};
use crate::inline::{peek};
use crate::list_tree::{
    ListItem, ListNodeId, ListNodeKind, ListNodeKindView, ListNodeStyle, ListTree,
};
use crate::source_position::SourcePosition;
use crate::source_span::SourceSpan;
use crate::text_parser::{
    is_block_outcome, parse_text, parse_text_block, parsed_text, text_of, Failure,
};

verus! {

/// How far a line is indented, and with what.
#[derive(Debug, Clone, Copy, PartialEq, Eq, Structural)]
pub enum Indent {
    Zero,
    Tab(usize),
    Space(usize),
}

impl Indent {
    pub open spec fn spec_count(&self) -> usize {
        match self {
            Indent::Zero => 0,
            Indent::Tab(count) => *count,
            Indent::Space(count) => *count,
        }
    }

    /// The number of characters of the indent.
    pub fn count(&self) -> (n: usize)
        ensures
            n == self.spec_count(),
    {
        match self {
            Indent::Zero => 0,
            Indent::Tab(count) => *count,
            Indent::Space(count) => *count,
        }
    }
}

/// The indent of the line in `from..to`, after `indent` was read of it: where it ends and
/// what it is. `None` where tabs and spaces are mixed in it.
pub open spec fn indent_end(
    s: Seq<char>,
    from: int,
    to: int,
    indent: Indent,
) -> Option<(int, Indent)>
    decreases to - from,
{
    if from >= to {
        Some((to, indent))
    } else if s[from] == '\t' {
        match indent {
            Indent::Space(_) => None,
            _ => indent_end(s, from + 1, to, Indent::Tab((indent.spec_count() + 1) as usize)),
        }
    } else if s[from] == ' ' {
        match indent {
            Indent::Tab(_) => None,
            _ => indent_end(s, from + 1, to, Indent::Space((indent.spec_count() + 1) as usize)),
        }
    } else {
        Some((from, indent))
    }
}

pub open spec fn is_digit(c: char) -> bool {
    '0' <= c <= '9'
}

/// What the start of a line says of it: whether an item starts with the line, how the line
/// is indented, how long the sign of the item is, and whether the item is numbered.
pub struct LineStart {
    pub is_start_of_new_item: bool,
    pub indent: Indent,
    pub symbol_len: int,
    pub is_ordered: bool,
}

pub open spec fn mixed_indent_message() -> Seq<char> {
    "Mixed tab and space in list item indentation. Started indenting with tab and then encountered space."@
}

/// What the start of the line in `range` says of it. An item starts with a line that holds,
/// behind its indent, a sign and a space: the sign is `-`, `*` or `+`, or a digit and a
/// period. Tabs and spaces mixed in the indent are an error at the start of the line.
pub open spec fn line_start(
    s: Seq<char>,
    range: (int, int),
    line_number: int,
) -> Result<LineStart, Failure> {
    match indent_end(s, range.0, range.1, Indent::Zero) {
        None => Err(
            Failure {
                message: mixed_indent_message(),
                source_position: SourcePosition { line: line_number as usize, column: 1 },
            },
        ),
        Some((at, indent)) => {
            let line = s.subrange(0, range.1);
            let unordered = at < range.1 && (s[at] == '-' || s[at] == '*' || s[at] == '+');
            let ordered = at < range.1 && is_digit(s[at]) && peek(line, at, 1) == Some('.');
            let symbol_len = if unordered {
                1int
            } else if ordered {
                2int
            } else {
                0int
            };
            Ok(
                LineStart {
                    is_start_of_new_item: (unordered || ordered) && peek(line, at, symbol_len)
                        == Some(' '),
                    indent,
                    symbol_len,
                    is_ordered: ordered,
                },
            )
        },
    }
}

/// An item of a list as it stands in the source.
pub struct Item {
    pub indent: Indent,
    pub is_ordered: bool,
    pub content: Seq<char>,
    pub span: SourceSpan,
}

pub open spec fn line_span_end(range: (int, int), line_number: int) -> SourcePosition {
    SourcePosition { line: line_number as usize, column: (range.1 - range.0 + 1) as usize }
}

/// The items of a list from the `k`-th of `ranges` on, behind the items `done`. A line with
/// which no item starts goes on with the item before it, one space behind what is there.
/// The text of an item starts behind its sign and one space.
pub open spec fn items_from(
    s: Seq<char>,
    ranges: Seq<(int, int)>,
    first_line: int,
    k: int,
    done: Seq<Item>,
) -> Result<Seq<Item>, Failure>
    decreases ranges.len() - k,
{
    if 0 <= k < ranges.len() {
        let range = ranges[k];
        match line_start(s, range, first_line + k) {
            Err(e) => Err(e),
            Ok(start) => if start.is_start_of_new_item {
                items_from(
                    s,
                    ranges,
                    first_line,
                    k + 1,
                    done.push(
                        Item {
                            indent: start.indent,
                            is_ordered: start.is_ordered,
                            content: s.subrange(
                                range.0 + start.indent.spec_count() + start.symbol_len + 1,
                                range.1,
                            ),
                            span: SourceSpan {
                                start: SourcePosition {
                                    line: (first_line + k) as usize,
                                    column: 1,
                                },
                                end: line_span_end(range, first_line + k),
                            },
                        },
                    ),
                )
            } else if done.len() > 0 {
                items_from(
                    s,
                    ranges,
                    first_line,
                    k + 1,
                    done.drop_last().push(
                        Item {
                            content: done.last().content.push(' ') + s.subrange(range.0, range.1),
                            span: SourceSpan {
                                start: done.last().span.start,
                                end: line_span_end(range, first_line + k),
                            },
                            ..done.last()
                        },
                    ),
                )
            } else {
                items_from(s, ranges, first_line, k + 1, done)
            },
        }
    } else {
        Ok(done)
    }
}

/// A list tree that is being built.
pub struct ListFolding {
    pub nodes: Seq<Node<ListItem>>,
    /// The ids of the lists that are open, the root first.
    pub parents: Seq<usize>,
    /// The indents of the items of the lists that are open.
    pub indents: Seq<Indent>,
}

/// The folding with the lists closed whose items are indented further than `count`
/// characters; the root stays open.
pub open spec fn lists_closed_to(f: ListFolding, count: usize) -> ListFolding
    decreases f.indents.len(),
{
    if f.indents.len() > 1 && f.parents.len() > 1 && f.indents.last().spec_count() > count {
        lists_closed_to(
            ListFolding { indents: f.indents.drop_last(), parents: f.parents.drop_last(), ..f },
            count,
        )
    } else {
        f
    }
}

pub open spec fn style_of(ordered: bool) -> ListNodeStyle {
    if ordered {
        ListNodeStyle::Ordered
    } else {
        ListNodeStyle::Unordered
    }
}

/// The folding after one more item. The lists whose items are indented further are closed.
/// An item that is indented further than the items of the list that is open then opens a
/// list in it, which has the style of the item. The item becomes a leaf of the list that is
/// open.
pub open spec fn list_step(f0: ListFolding, item: Item) -> Result<ListFolding, Failure> {
    match text_of(item.content, item.span) {
        Err(e) => Err(e),
        Ok(text_tree) => {
            let f = lists_closed_to(f0, item.indent.spec_count());
            let style = style_of(item.is_ordered);
            let leaf = ListItem { kind: ListNodeKindView::Leaf { text_tree }, style };
            if item.indent.spec_count() > f.indents.last().spec_count() {
                let opened = registered(
                    f.nodes,
                    f.parents.last() as int,
                    ListItem { kind: ListNodeKindView::Parent, style },
                );
                Ok(
                    ListFolding {
                        nodes: registered(opened, f.nodes.len() as int, leaf),
                        parents: f.parents.push(f.nodes.len() as usize),
                        indents: f.indents.push(item.indent),
                    },
                )
            } else {
                Ok(ListFolding { nodes: registered(f.nodes, f.parents.last() as int, leaf), ..f })
            }
        },
    }
}

/// The folding after the items from the `k`-th on.
pub open spec fn list_fold(f: ListFolding, items: Seq<Item>, k: int) -> Result<ListFolding, Failure>
    decreases items.len() - k,
{
    if 0 <= k < items.len() {
        match list_step(f, items[k]) {
            Ok(g) => list_fold(g, items, k + 1),
            Err(e) => Err(e),
        }
    } else {
        Ok(f)
    }
}

/// Whether an item starts with the first line of `src`; a text without lines counts.
pub open spec fn starts_with_item(src: Seq<char>, first_line: int) -> bool {
    line_ranges(src, 0).len() == 0 || match line_start(src, line_ranges(src, 0)[0], first_line) {
        Ok(start) => start.is_start_of_new_item,
        Err(_) => true,
    }
}

/// The list with the text `src` at `span`. A text that does not start with an item is no
/// list and is parsed as text.
pub open spec fn parsed_list(src: Seq<char>, span: SourceSpan) -> Result<ParsedBlockView, Failure> {
    if !starts_with_item(src, span.start.line as int) {
        parsed_text(src, span)
    } else {
        match items_from(src, line_ranges(src, 0), span.start.line as int, 0, Seq::<Item>::empty()) {
            Err(e) => Err(e),
            Ok(items) => match list_fold(
                ListFolding {
                    nodes: root_only(
                        ListItem { kind: ListNodeKindView::Parent, style: ListNodeStyle::Unordered },
                    ),
                    parents: seq![0usize],
                    indents: seq![Indent::Zero],
                },
                items,
                0,
            ) {
                Ok(f) => Ok(ParsedBlockView { kind: ParsedBlockKindView::List(f.nodes), span }),
                Err(e) => Err(e),
            },
        }
    }
}

/// An item of a list as it stands in the source.
struct ItemInSource {
    indent: Indent,
    is_ordered: bool,
    content: Vec<char>,
    span: SourceSpan,
}

impl View for ItemInSource {
    type V = Item;

    closed spec fn view(&self) -> Item {
        Item {
            indent: self.indent,
            is_ordered: self.is_ordered,
            content: self.content@,
            span: self.span,
        }
    }
}

closed spec fn item_views(items: Seq<ItemInSource>) -> Seq<Item> {
    items.map_values(|i: ItemInSource| i@)
}

/// What the start of a line says of it.
struct IsStartOfNewLineResult {
    is_start_of_new_item: bool,
    indent: Indent,
    symbol_len: usize,
    is_ordered: bool,
    /// The index behind the indent.
    at: usize,
}

/// Parses a list.
pub struct ListParser {
    src: String,
    span: SourceSpan,
}

impl ListParser {
    pub closed spec fn spec_src(&self) -> Seq<char> {
        self.src@
    }

    pub closed spec fn spec_span(&self) -> SourceSpan {
        self.span
    }

    pub fn new(src: String, span: SourceSpan) -> (p: Self)
        ensures
            p.spec_src() == src@,
            p.spec_span() == span,
    {
        Self { src, span }
    }

    /// Parses the list: the lists in it and their items.
    pub fn parse(self) -> (r: ParseResult<ParsedBlock>)
        requires
            self.spec_span().start.has_room(3 * self.spec_src().len() as int + 2),
        ensures
            is_block_outcome(r, parsed_list(self.spec_src(), self.spec_span())),
    {
        let chars = to_chars(self.src.as_str());
        let found = match Self::find_items_in_src(&chars, self.span.start.line) {
            Ok(found) => found,
            Err(e) => {
                return Err(e);
            },
        };
        let items = match found {
            Some(items) => items,
            None => {
                return parse_text_block(self.src, self.span);
            },
        };
        let mut tree = ListTree::new();
        let mut parents: Vec<ListNodeId> = Vec::new();
        parents.push(0);
        let mut indents: Vec<Indent> = Vec::new();
        indents.push(Indent::Zero);
        let ghost all = item_views(items@);
        let ghost first = ListFolding { nodes: tree@, parents: parents@, indents: indents@ };
        assert(parents@ =~= seq![0usize]);
        assert(indents@ =~= seq![Indent::Zero]);
        let ghost expected = parsed_list(self.spec_src(), self.spec_span());
        let total = items.len();
        let mut k: usize = 0;
        while k < total
            invariant
                k <= total == items@.len(),
                all == item_views(items@),
                forall|j: int|
                    0 <= j < items@.len() ==> (#[trigger] items@[j]).span.start.has_room(
                        items@[j].content@.len() as int,
                    ),
                tree.wf(),
                parents@.len() >= 1,
                parents@.len() == indents@.len(),
                forall|i: int| 0 <= i < parents@.len() ==> #[trigger] parents@[i] < tree@.len(),
                expected == parsed_list(self.spec_src(), self.spec_span()),
                expected == (match list_fold(first, all, 0) {
                    Ok(f) => Ok::<ParsedBlockView, Failure>(
                        ParsedBlockView {
                            kind: ParsedBlockKindView::List(f.nodes),
                            span: self.spec_span(),
                        },
                    ),
                    Err(e) => Err::<ParsedBlockView, Failure>(e),
                }),
                list_fold(first, all, 0) == list_fold(
                    ListFolding { nodes: tree@, parents: parents@, indents: indents@ },
                    all,
                    k as int,
                ),
            decreases total - k,
        {
            let item = &items[k];
            assert(item@ == all[k as int]);
            let style = if item.is_ordered {
                ListNodeStyle::Ordered
            } else {
                ListNodeStyle::Unordered
            };
            let count = item.indent.count();
            let text_tree = match parse_text(whole_string(&item.content), item.span) {
                Ok(text_tree) => text_tree,
                Err(e) => {
                    return Err(e);
                },
            };
            let ghost f0 = ListFolding { nodes: tree@, parents: parents@, indents: indents@ };
            while indents.len() > 1 && parents.len() > 1 && indents[indents.len() - 1].count()
                > count
                invariant
                    parents@.len() >= 1,
                    parents@.len() == indents@.len(),
                    forall|i: int| 0 <= i < parents@.len() ==> #[trigger] parents@[i] < tree@.len(),
                    lists_closed_to(f0, count) == lists_closed_to(
                        ListFolding { nodes: tree@, parents: parents@, indents: indents@ },
                        count,
                    ),
                decreases indents@.len(),
            {
                indents.pop();
                parents.pop();
            }
            let parent = parents[parents.len() - 1];
            if count > indents[indents.len() - 1].count() {
                let opened = tree.register_node(parent, ListNodeKind::Parent, style);
                parents.push(opened);
                indents.push(item.indent);
                tree.register_node(opened, ListNodeKind::Leaf { text_tree }, style);
            } else {
                tree.register_node(parent, ListNodeKind::Leaf { text_tree }, style);
            }
            k += 1;
        }
        Ok(ParsedBlock::new(ParsedBlockKind::List(ListBlock::new(tree)), self.span))
    }

    /// The items of the list; `None` where the text does not start with an item.
    fn find_items_in_src(src: &Vec<char>, first_line: usize) -> (r: ParseResult<
        Option<Vec<ItemInSource>>,
    >)
        requires
            first_line + 3 * src@.len() + 2 <= usize::MAX,
        ensures
            match r {
                Ok(Some(items)) => starts_with_item(src@, first_line as int) && items_from(
                    src@,
                    line_ranges(src@, 0),
                    first_line as int,
                    0,
                    Seq::<Item>::empty(),
                ) == Ok::<Seq<Item>, Failure>(item_views(items@)) && (forall|j: int|
                    0 <= j < items@.len() ==> (#[trigger] items@[j]).span.start.has_room(
                        items@[j].content@.len() as int,
                    )),
                Ok(None) => !starts_with_item(src@, first_line as int),
                Err(e) => starts_with_item(src@, first_line as int) && items_from(
                    src@,
                    line_ranges(src@, 0),
                    first_line as int,
                    0,
                    Seq::<Item>::empty(),
                ) == Err::<Seq<Item>, Failure>(
                    Failure { message: e.message@, source_position: e.source_position },
                ),
            },
    {
        let ranges = find_lines(src);
        let mut items: Vec<ItemInSource> = Vec::new();
        let ghost all = line_ranges(src@, 0);
        let limit = src.len();
        let mut k: usize = 0;
        assert(item_views(items@) =~= Seq::<Item>::empty());
        while k < ranges.len()
            invariant
                k <= ranges@.len(),
                limit == src@.len(),
                all == line_ranges(src@, 0),
                as_ranges(ranges@) == all,
                ranges@.len() <= src@.len(),
                first_line + 3 * src@.len() + 2 <= usize::MAX,
                forall|j: int|
                    0 <= j < ranges@.len() ==> (#[trigger] ranges@[j]).0 <= ranges@[j].1
                        <= src@.len(),
                forall|i: int, j: int|
                    0 <= i < j < ranges@.len() ==> (#[trigger] ranges@[i]).1 < (
                    #[trigger] ranges@[j]).0,
                k > 0 ==> starts_with_item(src@, first_line as int) && items@.len() > 0,
                items@.len() <= k,
                items_from(src@, all, first_line as int, 0, Seq::<Item>::empty()) == items_from(
                    src@,
                    all,
                    first_line as int,
                    k as int,
                    item_views(items@),
                ),
                forall|j: int|
                    0 <= j < items@.len() ==> (#[trigger] items@[j]).span.start.line <= first_line
                        + k && items@[j].span.start.column == 1 && items@[j].content@.len() <= 2
                        * limit,
                items@.len() > 0 ==> items@[items@.len() - 1].content@.len() <= ranges@[k - 1].1
                    + k,
            decreases ranges@.len() - k,
        {
            let (from, to) = ranges[k];
            assert(all[k as int] == (from as int, to as int));
            let line_number = first_line + k;
            let start = match Self::is_start_of_new_item(src, from, to, line_number) {
                Ok(start) => start,
                Err(e) => {
                    return Err(e);
                },
            };
            let end = SourcePosition::new(line_number, to - from + 1);
            let ghost before = item_views(items@);
            if start.is_start_of_new_item {
                let content_start = start.at + start.symbol_len + 1;
                let item = ItemInSource {
                    indent: start.indent,
                    is_ordered: start.is_ordered,
                    content: slice_of(src, content_start, to),
                    span: SourceSpan::new(SourcePosition::new(line_number, 1), end),
                };
                items.push(item);
                assert(item_views(items@) =~= before.push(item@));
            } else if items.len() > 0 {
                let mut item = items.pop().unwrap();
                let ghost last = item@;
                item.content.push(' ');
                let line = slice_of(src, from, to);
                push_all(&mut item.content, &line);
                item.span = SourceSpan::new(item.span.start, end);
                assert(item.content@ =~= last.content.push(' ') + src@.subrange(
                    from as int,
                    to as int,
                ));
                items.push(item);
                assert(item_views(items@) =~= before.drop_last().push(item@));
            } else {
                return Ok(None);
            }
            k += 1;
        }
        Ok(Some(items))
    }

    /// What the start of the line in `from..to` says of it.
    fn is_start_of_new_item(src: &Vec<char>, from: usize, to: usize, line_number: usize) -> (r:
        ParseResult<IsStartOfNewLineResult>)
        requires
            from <= to <= src@.len(),
        ensures
            match r {
                Ok(start) => line_start(src@, (from as int, to as int), line_number as int) == Ok::<
                    LineStart,
                    Failure,
                >(
                    LineStart {
                        is_start_of_new_item: start.is_start_of_new_item,
                        indent: start.indent,
                        symbol_len: start.symbol_len as int,
                        is_ordered: start.is_ordered,
                    },
                ) && from <= start.at <= to && start.at == from + start.indent.spec_count()
                    && start.symbol_len <= 2 && (start.is_start_of_new_item ==> start.at
                    + start.symbol_len + 1 <= to),
                Err(e) => line_start(src@, (from as int, to as int), line_number as int) == Err::<
                    LineStart,
                    Failure,
                >(Failure { message: e.message@, source_position: e.source_position }),
            },
    {
        let mut indent = Indent::Zero;
        let mut at: usize = from;
        while at < to && (src[at] == '\t' || src[at] == ' ')
            invariant
                from <= at <= to <= src@.len(),
                at == from + indent.spec_count(),
                indent_end(src@, from as int, to as int, Indent::Zero) == indent_end(
                    src@,
                    at as int,
                    to as int,
                    indent,
                ),
            decreases to - at,
        {
            let mixed = if src[at] == '\t' {
                matches!(indent, Indent::Space(_))
            } else {
                matches!(indent, Indent::Tab(_))
            };
            if mixed {
                return Err(
                    ParseError {
                        message: String::from_str(
                            "Mixed tab and space in list item indentation. Started indenting with tab and then encountered space.",
                        ),
                        source_position: SourcePosition::new(line_number, 1),
                    },
                );
            }
            indent = if src[at] == '\t' {
                Indent::Tab(indent.count() + 1)
            } else {
                Indent::Space(indent.count() + 1)
            };
            at += 1;
        }
        let ghost line = src@.subrange(0, to as int);
        let unordered = at < to && (src[at] == '-' || src[at] == '*' || src[at] == '+');
        let next = if at < to && to - at > 1 {
            Some(src[at + 1])
        } else {
            None
        };
        assert(next == peek(line, at as int, 1));
        let ordered = at < to && '0' <= src[at] && src[at] <= '9' && next == Some('.');
        let symbol_len: usize = if unordered {
            1
        } else if ordered {
            2
        } else {
            0
        };
        let behind = if at < to && to - at > symbol_len {
            Some(src[at + symbol_len])
        } else {
            None
        };
        assert(behind == peek(line, at as int, symbol_len as int));
        Ok(
            IsStartOfNewLineResult {
                is_start_of_new_item: (unordered || ordered) && behind == Some(' '),
                indent,
                symbol_len,
                is_ordered: ordered,
                at,
            },
        )
    }
}

} // verus!
