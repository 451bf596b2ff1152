//! The parser of quotes.

use vstd::prelude::*;
use crate::arena::{registered, root_only, Node};
use crate::block::{
    ParseError, ParseResult, ParsedBlock, ParsedBlockKind, ParsedBlockKindView, ParsedBlockView,
    QuoteBlock,
};
use crate::chars::{
    as_ranges, decimal, find_lines, line_ranges, push_all, push_decimal, push_str, slice_of,
    to_chars, whole_string,
};
use crate::quote_tree::{QuoteItem, QuoteNodeId, QuoteNodeKind, QuoteNodeKindView, QuoteTree};
use crate::source_position::SourcePosition;
use crate::source_span::SourceSpan;
use crate::text_parser::{is_block_outcome, parse_text, text_of, Failure};

verus! {

/// A line of a quote: its text behind the quote signs, the number of its line, how many
/// quote signs it starts with, and how many characters stand in front of its text.
pub struct QuoteLine {
    pub line: Seq<char>,
    pub line_number: int,
    pub indent: nat,
    pub offset: int,
}

/// Where the quote signs of the line in `from..to` end, and how many they are, after
/// `indent` of them were counted. Spaces and tabs may stand between them.
pub open spec fn signs_end(s: Seq<char>, from: int, to: int, indent: nat) -> (int, nat)
    decreases to - from,
{
    if from >= to {
        (to, indent)
    } else if s[from] == ' ' || s[from] == '\t' {
        signs_end(s, from + 1, to, indent)
    } else if s[from] == '>' {
        signs_end(s, from + 1, to, indent + 1)
    } else {
        (from, indent)
    }
}

/// The message for a line without a quote sign.
pub open spec fn no_sign_message(line_number: int) -> Seq<char> {
    "Found no quote line start character '>' in line "@ + decimal(line_number as nat)
}

/// The line of a quote that stands in `range` of `s` and has the number `line_number`. A
/// line without a quote sign is an error at the character behind its white space.
pub open spec fn quote_line(
    s: Seq<char>,
    range: (int, int),
    line_number: int,
) -> Result<QuoteLine, Failure> {
    let (end, indent) = signs_end(s, range.0, range.1, 0);
    if indent == 0 {
        Err(
            Failure {
                message: no_sign_message(line_number),
                source_position: SourcePosition {
                    line: line_number as usize,
                    column: (end - range.0 + 1) as usize,
                },
            },
        )
    } else {
        Ok(
            QuoteLine {
                line: s.subrange(end, range.1),
                line_number,
                indent,
                offset: end - range.0,
            },
        )
    }
}

/// The lines of a quote from the `k`-th of `ranges` on, behind the lines `done`; or the
/// error of the first line that is none.
pub open spec fn quote_lines(
    s: Seq<char>,
    ranges: Seq<(int, int)>,
    first_line: int,
    k: int,
    done: Seq<QuoteLine>,
) -> Result<Seq<QuoteLine>, Failure>
    decreases ranges.len() - k,
{
    if 0 <= k < ranges.len() {
        match quote_line(s, ranges[k], first_line + k) {
            Ok(line) => quote_lines(s, ranges, first_line, k + 1, done.push(line)),
            Err(e) => Err(e),
        }
    } else {
        Ok(done)
    }
}

/// A quote tree that is being built.
pub struct QuoteFolding {
    pub nodes: Seq<Node<QuoteItem>>,
    /// The ids of the quotes that are open, the root first.
    pub parents: Seq<usize>,
    /// The numbers of quote signs of the quotes that are open; empty before the first line.
    pub indents: Seq<nat>,
    /// The text of the lines that were read since the last text was registered.
    pub buffer: Seq<char>,
    /// The number of the line at which the text in the buffer starts.
    pub start_line: int,
    /// How many characters stand in front of the text in that line.
    pub start_offset: int,
}

/// The span of the text in the buffer, which ends with `line`.
pub open spec fn buffer_span(f: QuoteFolding, line: QuoteLine) -> SourceSpan {
    SourceSpan {
        start: SourcePosition { line: f.start_line as usize, column: (f.start_offset + 1) as usize },
        end: SourcePosition {
            line: line.line_number as usize,
            column: (line.offset + 1 + line.line.len()) as usize,
        },
    }
}

/// The folding after the text in the buffer was parsed and registered as a leaf of the quote
/// that is open.
pub open spec fn flushed(f: QuoteFolding, line: QuoteLine) -> Result<QuoteFolding, Failure> {
    match text_of(f.buffer, buffer_span(f, line)) {
        Ok(text_tree) => Ok(
            QuoteFolding {
                nodes: registered(
                    f.nodes,
                    f.parents.last() as int,
                    QuoteItem { kind: QuoteNodeKindView::Leaf { text_tree } },
                ),
                buffer: Seq::<char>::empty(),
                ..f
            },
        ),
        Err(e) => Err(e),
    }
}

/// The folding with the quotes closed that have more quote signs than `indent`; the first
/// quote stays open.
pub open spec fn closed_to(f: QuoteFolding, indent: nat) -> QuoteFolding
    decreases f.indents.len(),
{
    if f.indents.len() > 1 && f.parents.len() > 1 && f.indents.last() > indent {
        closed_to(
            QuoteFolding { indents: f.indents.drop_last(), parents: f.parents.drop_last(), ..f },
            indent,
        )
    } else {
        f
    }
}

/// The folding with `line` as the start of a new text.
pub open spec fn restarted(f: QuoteFolding, line: QuoteLine) -> QuoteFolding {
    QuoteFolding {
        buffer: line.line,
        start_line: line.line_number,
        start_offset: line.offset,
        ..f
    }
}

/// The folding after one more line. A line with as many quote signs as the quote that is
/// open goes on with its text, one space behind what is there. A line with more quote signs
/// ends the text and opens a quote in the open one; a line with less ends the text and
/// closes quotes. The last line ends its text.
pub open spec fn quote_step(
    f0: QuoteFolding,
    line: QuoteLine,
    last: bool,
) -> Result<QuoteFolding, Failure> {
    let f = if f0.indents.len() == 0 {
        QuoteFolding {
            indents: seq![line.indent],
            start_line: line.line_number,
            start_offset: line.offset,
            ..f0
        }
    } else {
        f0
    };
    let current = f.indents.last();
    let read = if current == line.indent {
        Ok(
            QuoteFolding {
                buffer: if f.buffer.len() > 0 {
                    f.buffer.push(' ') + line.line
                } else {
                    line.line
                },
                ..f
            },
        )
    } else {
        match flushed(f, line) {
            Ok(g) => if current < line.indent {
                Ok(
                    restarted(
                        QuoteFolding {
                            nodes: registered(
                                g.nodes,
                                g.parents.last() as int,
                                QuoteItem { kind: QuoteNodeKindView::Parent },
                            ),
                            parents: g.parents.push(g.nodes.len() as usize),
                            indents: g.indents.push(line.indent),
                            ..g
                        },
                        line,
                    ),
                )
            } else {
                Ok(restarted(closed_to(g, line.indent), line))
            },
            Err(e) => Err(e),
        }
    };
    match read {
        Ok(g) => if last {
            flushed(g, line)
        } else {
            Ok(g)
        },
        Err(e) => Err(e),
    }
}

/// The folding after the lines from the `k`-th on.
pub open spec fn quote_fold(
    f: QuoteFolding,
    lines: Seq<QuoteLine>,
    k: int,
) -> Result<QuoteFolding, Failure>
    decreases lines.len() - k,
{
    if 0 <= k < lines.len() {
        match quote_step(f, lines[k], k == lines.len() - 1) {
            Ok(g) => quote_fold(g, lines, k + 1),
            Err(e) => Err(e),
        }
    } else {
        Ok(f)
    }
}

/// The quote with the text `src` at `span`.
pub open spec fn parsed_quote(
    src: Seq<char>,
    span: SourceSpan,
) -> Result<ParsedBlockView, Failure> {
    match quote_lines(src, line_ranges(src, 0), span.start.line as int, 0, Seq::<QuoteLine>::empty()) {
        Ok(lines) => match quote_fold(
            QuoteFolding {
                nodes: root_only(QuoteItem { kind: QuoteNodeKindView::Parent }),
                parents: seq![0usize],
                indents: Seq::<nat>::empty(),
                buffer: Seq::<char>::empty(),
                start_line: 0,
                start_offset: 0,
            },
            lines,
            0,
        ) {
            Ok(f) => Ok(ParsedBlockView { kind: ParsedBlockKindView::Quote(f.nodes), span }),
            Err(e) => Err(e),
        },
        Err(e) => Err(e),
    }
}

/// A line of a quote.
struct IndentedQuoteLine {
    line: Vec<char>,
    line_number: usize,
    indent: usize,
    offset: usize,
    /// Where the line starts in the text of the quote, and where it ends.
    start: usize,
    end: usize,
}

impl View for IndentedQuoteLine {
    type V = QuoteLine;

    closed spec fn view(&self) -> QuoteLine {
        QuoteLine {
            line: self.line@,
            line_number: self.line_number as int,
            indent: self.indent as nat,
            offset: self.offset as int,
        }
    }
}

closed spec fn line_views(lines: Seq<IndentedQuoteLine>) -> Seq<QuoteLine> {
    lines.map_values(|l: IndentedQuoteLine| l@)
}

/// The lines stand in a text of `limit` characters, one behind the other, and are numbered
/// from `first_line` on.
#[verifier::opaque]
closed spec fn lines_fit(lines: Seq<IndentedQuoteLine>, first_line: int, limit: int) -> bool {
    &&& lines.len() <= limit
    &&& forall|j: int|
        0 <= j < lines.len() ==> (#[trigger] lines[j]).line_number == first_line + j
            && lines[j].offset + lines[j].line@.len() == lines[j].end - lines[j].start
            && lines[j].start <= lines[j].end <= limit
    &&& forall|i: int, j: int|
        0 <= i < j < lines.len() ==> (#[trigger] lines[i]).end < (#[trigger] lines[j]).start
}

/// What `lines_fit` says of the line `k` and of the line in front of it.
proof fn lemma_line_fits(lines: Seq<IndentedQuoteLine>, first_line: int, limit: int, k: int)
    requires
        lines_fit(lines, first_line, limit),
        0 <= k < lines.len(),
    ensures
        lines.len() <= limit,
        lines[k].line_number == first_line + k,
        lines[k].offset + lines[k].line@.len() == lines[k].end - lines[k].start,
        lines[k].start <= lines[k].end <= limit,
        k > 0 ==> lines[k - 1].end < lines[k].start,
{
    reveal(lines_fit);
}

/// The state of the parser between two lines.
struct QuoteState {
    tree: QuoteTree,
    parent_node_ids: Vec<QuoteNodeId>,
    indents: Vec<usize>,
    text_buffer: Vec<char>,
    start_line_number: usize,
    start_offset: usize,
}

closed spec fn as_nats(v: Seq<usize>) -> Seq<nat> {
    v.map_values(|x: usize| x as nat)
}

impl View for QuoteState {
    type V = QuoteFolding;

    closed spec fn view(&self) -> QuoteFolding {
        QuoteFolding {
            nodes: self.tree@,
            parents: self.parent_node_ids@,
            indents: as_nats(self.indents@),
            buffer: self.text_buffer@,
            start_line: self.start_line_number as int,
            start_offset: self.start_offset as int,
        }
    }
}

impl QuoteState {
    closed spec fn wf(&self) -> bool {
        &&& self.tree.wf()
        &&& self.parent_node_ids@.len() >= 1
        &&& forall|i: int|
            0 <= i < self.parent_node_ids@.len() ==> #[trigger] self.parent_node_ids@[i]
                < self.tree@.len()
    }
}

/// Parses a quote.
pub struct QuoteParser {
    src: String,
    span: SourceSpan,
}

impl QuoteParser {
    pub closed spec fn spec_src(&self) -> Seq<char> {
        self.src@
    }

    pub closed spec fn spec_span(&self) -> SourceSpan {
        self.span
    }

    pub fn new(src: String, span: SourceSpan) -> (p: Self)
        ensures
            p.spec_src() == src@,
            p.spec_span() == span,
    {
        Self { src, span }
    }

    /// Parses the quote: the quotes in it and their texts.
    pub fn parse(self) -> (r: ParseResult<ParsedBlock>)
        requires
            self.spec_span().start.has_room(3 * self.spec_src().len() as int + 2),
        ensures
            is_block_outcome(r, parsed_quote(self.spec_src(), self.spec_span())),
    {
        let chars = to_chars(self.src.as_str());
        let lines = match Self::find_indented_quote_lines(&chars, self.span.start.line) {
            Ok(lines) => lines,
            Err(e) => {
                return Err(e);
            },
        };
        let mut parent_node_ids: Vec<QuoteNodeId> = Vec::new();
        parent_node_ids.push(0);
        let mut state = QuoteState {
            tree: QuoteTree::new(),
            parent_node_ids,
            indents: Vec::new(),
            text_buffer: Vec::new(),
            start_line_number: 0,
            start_offset: 0,
        };
        let ghost all = line_views(lines@);
        let ghost first = state@;
        assert(first.parents =~= seq![0usize]);
        assert(first.indents =~= Seq::<nat>::empty());
        let ghost expected = parsed_quote(self.spec_src(), self.spec_span());
        let total = lines.len();
        let limit = chars.len();
        let mut k: usize = 0;
        while k < total
            invariant
                k <= total == lines@.len(),
                expected == parsed_quote(self.spec_src(), self.spec_span()),
                expected == (match quote_fold(first, all, 0) {
                    Ok(f) => Ok::<ParsedBlockView, Failure>(
                        ParsedBlockView {
                            kind: ParsedBlockKindView::Quote(f.nodes),
                            span: self.spec_span(),
                        },
                    ),
                    Err(e) => Err::<ParsedBlockView, Failure>(e),
                }),
                limit == chars@.len(),
                all == line_views(lines@),
                self.spec_span().start.has_room(3 * limit + 2),
                state.wf(),
                quote_fold(first, all, 0) == quote_fold(state@, all, k as int),
                state.text_buffer@.len() <= (if k == 0 {
                    0
                } else {
                    lines@[k - 1].end + k
                }),
                state.start_line_number <= self.spec_span().start.line + limit,
                state.start_offset <= limit,
                lines_fit(lines@, self.spec_span().start.line as int, limit as int),
            decreases total - k,
        {
            let line = &lines[k];
            assert(all[k as int] == line@);
            proof {
                lemma_line_fits(lines@, self.spec_span().start.line as int, limit as int, k as int);
            }
            match Self::read_line(&mut state, line, k == total - 1, Ghost(limit)) {
                Ok(()) => {},
                Err(e) => {
                    return Err(e);
                },
            }
            k += 1;
        }
        Ok(ParsedBlock::new(ParsedBlockKind::Quote(QuoteBlock::new(state.tree)), self.span))
    }

    /// Reads one line into the state.
    fn read_line(
        state: &mut QuoteState,
        line: &IndentedQuoteLine,
        last: bool,
        Ghost(limit): Ghost<usize>,
    ) -> (r: Result<(), ParseError>)
        requires
            old(state).wf(),
            old(state).text_buffer@.len() + 1 + line.line@.len() <= 2 * limit,
            line.line@.len() + line.offset <= limit,
            old(state).start_offset <= limit,
            line.line_number + 2 * limit + 2 <= usize::MAX,
            old(state).start_line_number + 2 * limit + 2 <= usize::MAX,
            3 * limit + 2 <= usize::MAX,
        ensures
            match r {
                Ok(()) => quote_step(old(state)@, line@, last) == Ok::<QuoteFolding, Failure>(
                    final(state)@,
                ) && final(state).wf() && final(state).text_buffer@.len() <= old(
                    state,
                ).text_buffer@.len() + 1 + line.line@.len() && (final(state).start_line_number
                    == old(state).start_line_number || final(state).start_line_number
                    == line.line_number) && final(state).start_offset <= limit,
                Err(e) => quote_step(old(state)@, line@, last) == Err::<QuoteFolding, Failure>(
                    Failure { message: e.message@, source_position: e.source_position },
                ),
            },
    {
        if state.indents.len() == 0 {
            state.indents.push(line.indent);
            state.start_line_number = line.line_number;
            state.start_offset = line.offset;
            assert(as_nats(state.indents@) =~= seq![line.indent as nat]);
        }
        let ghost f = state@;
        let current_indent = state.indents[state.indents.len() - 1];
        assert(f.indents.last() == current_indent as nat);
        if current_indent == line.indent {
            if state.text_buffer.len() > 0 {
                state.text_buffer.push(' ');
            }
            push_all(&mut state.text_buffer, &line.line);
        } else {
            match Self::consume_text_buffer_into_node(state, line, Ghost(limit)) {
                Ok(()) => {},
                Err(e) => {
                    return Err(e);
                },
            }
            let ghost g = state@;
            if current_indent < line.indent {
                let parent = state.parent_node_ids[state.parent_node_ids.len() - 1];
                let id = state.tree.register_node(parent, QuoteNodeKind::Parent);
                state.parent_node_ids.push(id);
                state.indents.push(line.indent);
                assert(as_nats(state.indents@) =~= g.indents.push(line.indent as nat));
            } else {
                while state.indents.len() > 1 && state.parent_node_ids.len() > 1
                    && state.indents[state.indents.len() - 1] > line.indent
                    invariant
                        state.wf(),
                        state.indents@.len() >= 1,
                        closed_to(g, line.indent as nat) == closed_to(state@, line.indent as nat),
                        state.text_buffer@ == g.buffer,
                    decreases state.indents@.len(),
                {
                    let ghost before = state@;
                    state.indents.pop();
                    state.parent_node_ids.pop();
                    assert(as_nats(state.indents@) =~= before.indents.drop_last());
                }
                assert(as_nats(state.indents@).last() == state.indents@.last() as nat);
            }
            push_all(&mut state.text_buffer, &line.line);
            assert(state.text_buffer@ =~= line.line@);
            state.start_line_number = line.line_number;
            state.start_offset = line.offset;
        }
        if last {
            return Self::consume_text_buffer_into_node(state, line, Ghost(limit));
        }
        Ok(())
    }

    /// Registers the text in the buffer as a leaf of the quote that is open.
    fn consume_text_buffer_into_node(
        state: &mut QuoteState,
        line: &IndentedQuoteLine,
        Ghost(limit): Ghost<usize>,
    ) -> (r: Result<(), ParseError>)
        requires
            old(state).wf(),
            old(state).text_buffer@.len() <= 2 * limit,
            line.line@.len() + line.offset <= limit,
            old(state).start_offset <= limit,
            line.line_number + 2 * limit + 2 <= usize::MAX,
            old(state).start_line_number + 2 * limit + 2 <= usize::MAX,
            3 * limit + 2 <= usize::MAX,
        ensures
            match r {
                Ok(()) => flushed(old(state)@, line@) == Ok::<QuoteFolding, Failure>(final(state)@)
                    && final(state).wf() && final(state).indents@ == old(state).indents@
                    && final(state).text_buffer@.len() == 0 && final(state).start_line_number
                    == old(state).start_line_number && final(state).start_offset == old(
                    state,
                ).start_offset,
                Err(e) => flushed(old(state)@, line@) == Err::<QuoteFolding, Failure>(
                    Failure { message: e.message@, source_position: e.source_position },
                ),
            },
    {
        let text = whole_string(&state.text_buffer);
        let span = SourceSpan::new(
            SourcePosition::new(state.start_line_number, state.start_offset + 1),
            SourcePosition::new(line.line_number, line.offset + 1 + line.line.len()),
        );
        match parse_text(text, span) {
            Ok(text_tree) => {
                let parent = state.parent_node_ids[state.parent_node_ids.len() - 1];
                state.tree.register_node(parent, QuoteNodeKind::Leaf { text_tree });
                state.text_buffer.clear();
                assert(state.text_buffer@ =~= Seq::<char>::empty());
                Ok(())
            },
            Err(e) => Err(e),
        }
    }

    /// The lines of the quote, or the error of the first line without a quote sign.
    fn find_indented_quote_lines(src: &Vec<char>, first_line: usize) -> (r: Result<
        Vec<IndentedQuoteLine>,
        ParseError,
    >)
        requires
            first_line + 3 * src@.len() + 2 <= usize::MAX,
        ensures
            match r {
                Ok(lines) => quote_lines(
                    src@,
                    line_ranges(src@, 0),
                    first_line as int,
                    0,
                    Seq::<QuoteLine>::empty(),
                ) == Ok::<Seq<QuoteLine>, Failure>(line_views(lines@)) && lines_fit(
                    lines@,
                    first_line as int,
                    src@.len() as int,
                ),
                Err(e) => quote_lines(
                    src@,
                    line_ranges(src@, 0),
                    first_line as int,
                    0,
                    Seq::<QuoteLine>::empty(),
                ) == Err::<Seq<QuoteLine>, Failure>(
                    Failure { message: e.message@, source_position: e.source_position },
                ),
            },
    {
        let ranges = find_lines(src);
        let mut result: Vec<IndentedQuoteLine> = Vec::new();
        let ghost all = line_ranges(src@, 0);
        let mut k: usize = 0;
        assert(line_views(result@) =~= Seq::<QuoteLine>::empty());
        proof {
            reveal(lines_fit);
        }
        while k < ranges.len()
            invariant
                k <= ranges@.len(),
                k == result@.len(),
                all == line_ranges(src@, 0),
                as_ranges(ranges@) == all,
                ranges@.len() <= src@.len(),
                first_line + 3 * src@.len() + 2 <= usize::MAX,
                forall|j: int|
                    0 <= j < ranges@.len() ==> (#[trigger] ranges@[j]).0 <= ranges@[j].1
                        <= src@.len(),
                forall|i: int, j: int|
                    0 <= i < j < ranges@.len() ==> (#[trigger] ranges@[i]).1 < (
                    #[trigger] ranges@[j]).0,
                quote_lines(src@, all, first_line as int, 0, Seq::<QuoteLine>::empty())
                    == quote_lines(src@, all, first_line as int, k as int, line_views(result@)),
                lines_fit(result@, first_line as int, src@.len() as int),
                forall|j: int|
                    0 <= j < result@.len() ==> (#[trigger] result@[j]).start == ranges@[j].0
                        && result@[j].end == ranges@[j].1,
            decreases ranges@.len() - k,
        {
            let (from, to) = ranges[k];
            assert(all[k as int] == (from as int, to as int));
            let line_number = first_line + k;
            let mut at: usize = from;
            let mut indent: usize = 0;
            while at < to && (src[at] == ' ' || src[at] == '\t' || src[at] == '>')
                invariant
                    from <= at <= to <= src@.len(),
                    indent <= at - from,
                    signs_end(src@, from as int, to as int, 0) == signs_end(
                        src@,
                        at as int,
                        to as int,
                        indent as nat,
                    ),
                decreases to - at,
            {
                if src[at] == '>' {
                    indent += 1;
                }
                at += 1;
            }
            if indent == 0 {
                let mut message: Vec<char> = Vec::new();
                push_str(&mut message, "Found no quote line start character '>' in line ");
                push_decimal(&mut message, line_number);
                assert(message@ =~= no_sign_message(line_number as int));
                return Err(
                    ParseError {
                        message: whole_string(&message),
                        source_position: SourcePosition::new(line_number, at - from + 1),
                    },
                );
            }
            let ghost before = line_views(result@);
            let line = IndentedQuoteLine {
                line: slice_of(src, at, to),
                line_number,
                indent,
                offset: at - from,
                start: from,
                end: to,
            };
            assert(quote_line(src@, all[k as int], first_line + k) == Ok::<QuoteLine, Failure>(
                line@,
            ));
            proof {
                reveal(lines_fit);
            }
            result.push(line);
            assert(line_views(result@) =~= before.push(line@));
            k += 1;
        }
        Ok(result)
    }
}

} // verus!
