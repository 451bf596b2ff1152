//! The parser of tables.

use vstd::prelude::*;
use crate::block::{
    row_texts, row_wf, rows_texts, ParseResult, ParsedBlock, ParsedBlockKind,
    ParsedBlockKindView, ParsedBlockView, TableBlock, TableCell, TableRow, TextNodes,
};
use crate::chars::{
    as_ranges, find_lines, lemma_trim_bounds, line_ranges, to_chars, trim_start_at,
};
use crate::inline::{find_char, index_of, trimmed_range, trimmed_string};
use crate::source_position::SourcePosition;
use crate::source_span::SourceSpan;
use crate::text_parser::{is_block_outcome, parse_text, text_of, Failure};

verus! {

/// What a line of a table is.
#[derive(Debug, Clone, Copy, PartialEq, Eq, Structural)]
pub enum RowKind {
    Header,
    HeaderSeparator,
    Body,
}

impl RowKind {
    pub open spec fn spec_for_line_index(line_index: int) -> RowKind {
        if line_index == 0 {
            RowKind::Header
        } else if line_index == 1 {
            RowKind::HeaderSeparator
        } else {
            RowKind::Body
        }
    }

    /// The first line of a table holds its headers, the second parts them from the body, and
    /// every further line is a row of the body.
    pub fn for_line_index(line_index: usize) -> (k: Self)
        ensures
            k == Self::spec_for_line_index(line_index as int),
    {
        if line_index == 0 {
            RowKind::Header
        } else if line_index == 1 {
            RowKind::HeaderSeparator
        } else {
            RowKind::Body
        }
    }
}

/// The span of the cell whose text stands in `from..to` of the line that starts at
/// `line_start`: from the column of its first character to the column behind its text
/// without the white space around it.
pub open spec fn cell_span(
    s: Seq<char>,
    line_start: int,
    from: int,
    to: int,
    line_number: int,
) -> SourceSpan {
    SourceSpan {
        start: SourcePosition {
            line: line_number as usize,
            column: (from - line_start + 1) as usize,
        },
        end: SourcePosition {
            line: line_number as usize,
            column: (from - line_start + 1 + trimmed_range(s, from, to).len()) as usize,
        },
    }
}

/// The text of the cell in `from..to`.
pub open spec fn cell_text(
    s: Seq<char>,
    line_start: int,
    from: int,
    to: int,
    line_number: int,
) -> Result<TextNodes, Failure> {
    text_of(trimmed_range(s, from, to), cell_span(s, line_start, from, to, line_number))
}

/// The cells of the line that starts at `line_start`, from `at` on, behind the cells `done`.
/// A cell ends in front of a bar; what stands behind the last bar is no cell.
pub open spec fn cells_from(
    s: Seq<char>,
    line_start: int,
    at: int,
    to: int,
    line_number: int,
    done: Seq<TextNodes>,
) -> Result<Seq<TextNodes>, Failure>
    decreases to - at,
{
    let bar = index_of(s, '|', at, to);
    if at <= bar < to {
        match cell_text(s, line_start, at, bar, line_number) {
            Ok(text) => cells_from(s, line_start, bar + 1, to, line_number, done.push(text)),
            Err(e) => Err(e),
        }
    } else {
        Ok(done)
    }
}

/// The cells of the line in `range`: they start behind the first bar of the line.
pub open spec fn row_cells(
    s: Seq<char>,
    range: (int, int),
    line_number: int,
) -> Result<Seq<TextNodes>, Failure> {
    let first = index_of(s, '|', range.0, range.1);
    if first < range.1 {
        cells_from(s, range.0, first + 1, range.1, line_number, Seq::<TextNodes>::empty())
    } else {
        Ok(Seq::<TextNodes>::empty())
    }
}

/// The rows of a table: those of its headers and those of its body.
pub struct Rows {
    pub header: Seq<TextNodes>,
    pub body: Seq<Seq<TextNodes>>,
}

/// The rows of a table from the `k`-th line on, behind the rows `done`. The second line is
/// left out.
pub open spec fn rows_from(
    s: Seq<char>,
    ranges: Seq<(int, int)>,
    first_line: int,
    k: int,
    done: Rows,
) -> Result<Rows, Failure>
    decreases ranges.len() - k,
{
    if 0 <= k < ranges.len() {
        match RowKind::spec_for_line_index(k) {
            RowKind::HeaderSeparator => rows_from(s, ranges, first_line, k + 1, done),
            RowKind::Header => match row_cells(s, ranges[k], first_line + k) {
                Ok(cells) => rows_from(s, ranges, first_line, k + 1, Rows { header: cells, ..done }),
                Err(e) => Err(e),
            },
            RowKind::Body => match row_cells(s, ranges[k], first_line + k) {
                Ok(cells) => rows_from(
                    s,
                    ranges,
                    first_line,
                    k + 1,
                    Rows { body: done.body.push(cells), ..done },
                ),
                Err(e) => Err(e),
            },
        }
    } else {
        Ok(done)
    }
}

/// The table with the text `src` at `span`.
pub open spec fn parsed_table(
    src: Seq<char>,
    span: SourceSpan,
) -> Result<ParsedBlockView, Failure> {
    match rows_from(
        src,
        line_ranges(src, 0),
        span.start.line as int,
        0,
        Rows { header: Seq::<TextNodes>::empty(), body: Seq::<Seq<TextNodes>>::empty() },
    ) {
        Ok(rows) => Ok(
            ParsedBlockView {
                kind: ParsedBlockKindView::Table { header: rows.header, rows: rows.body },
                span,
            },
        ),
        Err(e) => Err(e),
    }
}

/// Parses a table.
pub struct TableParser {
    src: String,
    span: SourceSpan,
}

impl TableParser {
    pub closed spec fn spec_src(&self) -> Seq<char> {
        self.src@
    }

    pub closed spec fn spec_span(&self) -> SourceSpan {
        self.span
    }

    pub fn new(src: String, span: SourceSpan) -> (p: Self)
        ensures
            p.spec_src() == src@,
            p.spec_span() == span,
    {
        Self { src, span }
    }

    /// Parses the table: the row of its headers and the rows of its body.
    pub fn parse(self) -> (r: ParseResult<ParsedBlock>)
        requires
            self.spec_span().start.has_room(3 * self.spec_src().len() as int + 2),
        ensures
            is_block_outcome(r, parsed_table(self.spec_src(), self.spec_span())),
    {
        let chars = to_chars(self.src.as_str());
        let ranges = find_lines(&chars);
        let mut header_row: TableRow = Vec::new();
        let mut rows: Vec<TableRow> = Vec::new();
        let ghost all = line_ranges(chars@, 0);
        let ghost first_line = self.spec_span().start.line as int;
        let ghost expected = parsed_table(self.spec_src(), self.spec_span());
        let ghost start = Rows {
            header: Seq::<TextNodes>::empty(),
            body: Seq::<Seq<TextNodes>>::empty(),
        };
        assert(row_texts(header_row@) =~= start.header);
        assert(rows_texts(rows@) =~= start.body);
        let mut k: usize = 0;
        while k < ranges.len()
            invariant
                k <= ranges@.len(),
                chars@ == self.spec_src(),
                all == line_ranges(chars@, 0),
                as_ranges(ranges@) == all,
                ranges@.len() <= chars@.len(),
                first_line == self.spec_span().start.line,
                self.spec_span().start.has_room(3 * chars@.len() as int + 2),
                forall|j: int|
                    0 <= j < ranges@.len() ==> (#[trigger] ranges@[j]).0 <= ranges@[j].1
                        <= chars@.len(),
                row_wf(header_row@),
                forall|i: int| 0 <= i < rows@.len() ==> row_wf((#[trigger] rows@[i])@),
                expected == parsed_table(self.spec_src(), self.spec_span()),
                start == (Rows {
                    header: Seq::<TextNodes>::empty(),
                    body: Seq::<Seq<TextNodes>>::empty(),
                }),
                rows_from(chars@, all, first_line, 0, start) == rows_from(
                    chars@,
                    all,
                    first_line,
                    k as int,
                    Rows { header: row_texts(header_row@), body: rows_texts(rows@) },
                ),
            decreases ranges@.len() - k,
        {
            let (from, to) = ranges[k];
            assert(all[k as int] == (from as int, to as int));
            let line_number = self.span.start.line + k;
            match RowKind::for_line_index(k) {
                RowKind::HeaderSeparator => {},
                RowKind::Header => {
                    match Self::read_row(&chars, from, to, line_number) {
                        Ok(cells) => {
                            header_row = cells;
                        },
                        Err(e) => {
                            return Err(e);
                        },
                    }
                },
                RowKind::Body => {
                    match Self::read_row(&chars, from, to, line_number) {
                        Ok(cells) => {
                            let ghost before = rows_texts(rows@);
                            let ghost texts = row_texts(cells@);
                            rows.push(cells);
                            assert(rows_texts(rows@) =~= before.push(texts));
                        },
                        Err(e) => {
                            return Err(e);
                        },
                    }
                },
            }
            k += 1;
        }
        let block = TableBlock::new(header_row, rows);
        Ok(ParsedBlock::new(ParsedBlockKind::Table(block), self.span))
    }

    /// The cells of the line in `from..to`.
    fn read_row(src: &Vec<char>, from: usize, to: usize, line_number: usize) -> (r: ParseResult<
        TableRow,
    >)
        requires
            from <= to <= src@.len(),
            line_number + src@.len() + 1 <= usize::MAX,
        ensures
            match r {
                Ok(cells) => row_cells(src@, (from as int, to as int), line_number as int) == Ok::<
                    Seq<TextNodes>,
                    Failure,
                >(row_texts(cells@)) && row_wf(cells@),
                Err(e) => row_cells(src@, (from as int, to as int), line_number as int) == Err::<
                    Seq<TextNodes>,
                    Failure,
                >(Failure { message: e.message@, source_position: e.source_position }),
            },
    {
        let mut cells: TableRow = Vec::new();
        let first = find_char(src, '|', from, to);
        if first >= to {
            assert(row_texts(cells@) =~= Seq::<TextNodes>::empty());
            return Ok(cells);
        }
        let mut at: usize = first + 1;
        assert(row_texts(cells@) =~= Seq::<TextNodes>::empty());
        loop
            invariant
                from < at <= to <= src@.len(),
                line_number + src@.len() + 1 <= usize::MAX,
                row_wf(cells@),
                row_cells(src@, (from as int, to as int), line_number as int) == cells_from(
                    src@,
                    from as int,
                    at as int,
                    to as int,
                    line_number as int,
                    row_texts(cells@),
                ),
            decreases to - at,
        {
            let bar = find_char(src, '|', at, to);
            if bar >= to {
                return Ok(cells);
            }
            match Self::create_cell(src, from, at, bar, line_number) {
                Ok(cell) => {
                    let ghost before = row_texts(cells@);
                    cells.push(cell);
                    assert(row_texts(cells@) =~= before.push(cell.spec_text_tree()@));
                },
                Err(e) => {
                    return Err(e);
                },
            }
            at = bar + 1;
        }
    }

    /// The cell whose text stands in `from..to` of the line that starts at `line_start`.
    fn create_cell(
        src: &Vec<char>,
        line_start: usize,
        from: usize,
        to: usize,
        line_number: usize,
    ) -> (r:
        ParseResult<TableCell>)
        requires
            line_start <= from <= to <= src@.len(),
            line_number + src@.len() + 1 <= usize::MAX,
        ensures
            match r {
                Ok(cell) => cell_text(
                    src@,
                    line_start as int,
                    from as int,
                    to as int,
                    line_number as int,
                ) == Ok::<TextNodes, Failure>(cell.spec_text_tree()@) && cell.wf(),
                Err(e) => cell_text(
                    src@,
                    line_start as int,
                    from as int,
                    to as int,
                    line_number as int,
                ) == Err::<TextNodes, Failure>(
                    Failure { message: e.message@, source_position: e.source_position },
                ),
            },
    {
        let value = trimmed_string(src, from, to);
        proof {
            lemma_trim_bounds(src@, from as int, to as int);
            let a = trim_start_at(src@, from as int, to as int);
            lemma_trim_bounds(src@, a, to as int);
        }
        let column = from - line_start + 1;
        let span = SourceSpan::new(
            SourcePosition::new(line_number, column),
            SourcePosition::new(line_number, column + value.as_str().unicode_len()),
        );
        match parse_text(value, span) {
            Ok(text_tree) => Ok(TableCell::new(text_tree)),
            Err(e) => Err(e),
        }
    }
}

} // verus!
