//! Splits a document into blocks: regions of text that blank lines part from each other.

use vstd::prelude::*;
use crate::chars::{
    is_whitespace, is_whitespace_char, strip_cr, to_string, trim_start_at, without_cr,
};
use crate::decode::{decode, decoded_prefix};
use crate::source_position::SourcePosition;
use crate::source_span::SourceSpan;

verus! {

/// A block as the splitter found it: its text, without the white space around it, and the
/// region of the document that it takes.
#[derive(Debug)]
pub struct SplitterBlock {
    src: String,
    span: SourceSpan,
}

impl SplitterBlock {
    pub closed spec fn spec_src(&self) -> Seq<char> {
        self.src@
    }

    pub closed spec fn spec_span(&self) -> SourceSpan {
        self.span
    }

    pub fn new(src: String, span: SourceSpan) -> (b: Self)
        ensures
            b.spec_src() == src@,
            b.spec_span() == span,
    {
        Self { src, span }
    }

    pub fn src(&self) -> (s: &str)
        ensures
            s@ == self.spec_src(),
    {
        self.src.as_str()
    }

    pub fn into_src(self) -> (s: String)
        ensures
            s@ == self.spec_src(),
    {
        self.src
    }

    pub fn span(&self) -> (s: &SourceSpan)
        ensures
            *s == self.spec_span(),
    {
        &self.span
    }
}

/// What the splitter keeps while it reads a block.
pub struct BlockScan {
    /// The line feeds since the last character that is no white space.
    pub newlines: nat,
    /// The backticks of a fence that is being read.
    pub backticks: nat,
    /// Inside a fenced code block, where blank lines do not part blocks.
    pub in_code: bool,
    /// The index behind the last character that is no white space.
    pub end: int,
}

/// The scan after the character `c` at `j`, which is no white space, in a block that starts
/// at `start`. Three backticks make a fence, which opens or closes a code block. A fence
/// opens only at the start of the block; its backticks may have white space between them.
pub open spec fn after_char(c: char, start: int, j: int, scan: BlockScan) -> BlockScan {
    let counted = c == '`' && (j == start || scan.backticks > 0 || scan.in_code);
    BlockScan {
        newlines: 0,
        backticks: if counted && scan.backticks < 2 {
            scan.backticks + 1
        } else {
            0
        },
        in_code: if counted && scan.backticks == 2 {
            !scan.in_code
        } else {
            scan.in_code
        },
        end: j + 1,
    }
}

/// Where the block that starts at `start` ends, for a scan that has come to `j`: the index
/// behind its last character that is no white space, and the index at which the search for
/// the next block goes on. The block ends in front of the first character that is no white
/// space and has two or more line feeds before it, outside a code block; or with the text.
pub open spec fn block_end(s: Seq<char>, start: int, j: int, scan: BlockScan) -> (int, int)
    decreases s.len() - j,
{
    if j < 0 || j >= s.len() {
        (scan.end, s.len() as int)
    } else if s[j] == '\n' {
        block_end(s, start, j + 1, BlockScan { newlines: scan.newlines + 1, ..scan })
    } else if is_whitespace_char(s[j]) {
        block_end(s, start, j + 1, scan)
    } else if scan.newlines >= 2 && !scan.in_code {
        (scan.end, j)
    } else {
        block_end(s, start, j + 1, after_char(s[j], start, j, scan))
    }
}

/// A block of a text as indices: where it starts, where it ends, and where the search for
/// the next block goes on.
pub struct BlockRange {
    pub start: int,
    pub end: int,
    pub next: int,
}

/// The first block of `s` at or behind `from`: it starts at the first character that is no
/// white space. `None` where only white space is left.
pub open spec fn block_at(s: Seq<char>, from: int) -> Option<BlockRange> {
    let start = trim_start_at(s, from, s.len() as int);
    if 0 <= from <= start < s.len() {
        let (end, next) = block_end(s, start, start, fresh(start));
        Some(BlockRange { start, end, next })
    } else {
        None
    }
}

/// The scan at the start of a block.
pub open spec fn fresh(start: int) -> BlockScan {
    BlockScan { newlines: 0, backticks: 0, in_code: false, end: start }
}

/// The texts of the blocks of `s` from `from` on.
pub open spec fn sources_from(s: Seq<char>, from: int) -> Seq<Seq<char>>
    decreases s.len() - from,
{
    match block_at(s, from) {
        Some(b) => if from < b.next <= s.len() {
            seq![s.subrange(b.start, b.end)] + sources_from(s, b.next)
        } else {
            seq![s.subrange(b.start, b.end)]
        },
        None => Seq::<Seq<char>>::empty(),
    }
}

/// The texts of the blocks of `s`.
pub open spec fn sources(s: Seq<char>) -> Seq<Seq<char>> {
    sources_from(s, 0)
}

/// The position of the character at `index` in the text `s` that starts at line 1, column
/// 1.
pub open spec fn position_at(s: Seq<char>, index: int) -> SourcePosition {
    (SourcePosition { line: 1, column: 1 }).after_all(s.take(index))
}

/// The position of the character in front of `index`, which is the one that was read last
/// when the next one stands at `index`; the start of the text where none was read.
pub open spec fn last_position(s: Seq<char>, index: int) -> SourcePosition {
    if index > 0 {
        position_at(s, index - 1)
    } else {
        SourcePosition { line: 1, column: 1 }
    }
}

/// A block ends behind its start, and the search goes on behind its end.
pub proof fn lemma_block_end_bounds(s: Seq<char>, start: int, j: int, scan: BlockScan)
    requires
        0 <= start <= j <= s.len(),
        start <= scan.end <= j,
        j == start || start < scan.end,
        j < s.len() && j == start ==> !is_whitespace_char(s[j]) && scan.newlines == 0,
    ensures
        start < s.len() ==> start < block_end(s, start, j, scan).0 <= block_end(s, start, j, scan).1
            <= s.len(),
        j <= block_end(s, start, j, scan).1,
    decreases s.len() - j,
{
    if j >= s.len() {
    } else if s[j] == '\n' {
        lemma_block_end_bounds(s, start, j + 1, BlockScan { newlines: scan.newlines + 1, ..scan });
    } else if is_whitespace_char(s[j]) {
        lemma_block_end_bounds(s, start, j + 1, scan);
    } else if scan.newlines >= 2 && !scan.in_code {
    } else {
        lemma_block_end_bounds(s, start, j + 1, after_char(s[j], start, j, scan));
    }
}

/// Gives out the blocks of a document one by one.
pub struct BlockSplitter {
    chars: Vec<char>,
    offset: usize,
    last_char_source_position: SourcePosition,
    next_char_source_position: SourcePosition,
    complete: bool,
}

impl BlockSplitter {
    /// The characters of the document, without carriage returns.
    pub closed spec fn chars(&self) -> Seq<char> {
        self.chars@
    }

    /// The index at which the search for the next block starts.
    pub closed spec fn offset(&self) -> int {
        self.offset as int
    }

    /// Whether all of the input was well-formed UTF-8.
    pub closed spec fn spec_complete(&self) -> bool {
        self.complete
    }

    /// The offset lies in the text, the position is that of the character at the offset, and
    /// the line and column numbers of the text are in the range of `usize`.
    pub closed spec fn wf(&self) -> bool {
        &&& self.offset <= self.chars@.len()
        &&& self.chars@.len() < usize::MAX
        &&& self.next_char_source_position == position_at(self.chars@, self.offset as int)
        &&& self.last_char_source_position == last_position(self.chars@, self.offset as int)
    }

    /// A splitter for the document `input`, which is read as UTF-8 up to the first byte
    /// sequence that is not well formed. Carriage returns are left out.
    pub fn new(input: &[u8]) -> (s: Self)
        requires
            input@.len() < usize::MAX,
        ensures
            s.wf(),
            s.chars() == without_cr(decoded_prefix(input@)),
            s.offset() == 0,
            s.spec_complete() == vstd::utf8::valid_utf8(input@),
    {
        let decoded = decode(input);
        let chars = strip_cr(&decoded.chars);
        assert(chars@.take(0) =~= Seq::<char>::empty());
        Self {
            chars,
            offset: 0,
            last_char_source_position: SourcePosition::zero(),
            next_char_source_position: SourcePosition::zero(),
            complete: decoded.complete,
        }
    }

    /// Whether all of the input was well-formed UTF-8, so that the blocks are those of the
    /// whole document.
    pub fn is_complete(&self) -> (b: bool)
        ensures
            b == self.spec_complete(),
    {
        self.complete
    }

    /// The position of the character that was read last.
    pub fn last_char_source_position(&self) -> (p: SourcePosition)
        requires
            self.wf(),
        ensures
            p == last_position(self.chars(), self.offset()),
    {
        self.last_char_source_position
    }

    /// The position of the character at which the search for the next block starts.
    pub fn next_char_source_position(&self) -> (p: SourcePosition)
        requires
            self.wf(),
        ensures
            p == position_at(self.chars(), self.offset()),
    {
        self.next_char_source_position
    }

    /// Reads the character at the offset.
    fn read_next_char(&mut self) -> (c: char)
        requires
            old(self).wf(),
            old(self).offset() < old(self).chars().len(),
        ensures
            final(self).wf(),
            final(self).chars() == old(self).chars(),
            final(self).spec_complete() == old(self).spec_complete(),
            final(self).offset() == old(self).offset() + 1,
            c == old(self).chars()[old(self).offset()],
    {
        let c = self.chars[self.offset];
        proof {
            let s = self.chars@;
            let i = self.offset as int;
            assert(s.take(i + 1).drop_last() =~= s.take(i));
            lemma_position_bound(s, i);
        }
        let next = self.offset + 1;
        self.last_char_source_position = self.next_char_source_position;
        self.next_char_source_position = self.next_char_source_position.step(c);
        self.offset = next;
        c
    }

    /// The next block of the document, or `None` where only white space is left.
    pub fn next(&mut self) -> (r: Option<SplitterBlock>)
        requires
            old(self).wf(),
        ensures
            final(self).wf(),
            final(self).chars() == old(self).chars(),
            final(self).spec_complete() == old(self).spec_complete(),
            match r {
                Some(block) => {
                    &&& block_at(old(self).chars(), old(self).offset()) matches Some(b)
                    &&& block.spec_src() == old(self).chars().subrange(b.start, b.end)
                    &&& block.spec_span().start == position_at(old(self).chars(), b.start)
                    &&& block.spec_span().end == position_at(old(self).chars(), b.end)
                    &&& final(self).offset() == b.next
                    &&& old(self).offset() <= b.start < b.end <= b.next <= old(self).chars().len()
                },
                None => block_at(old(self).chars(), old(self).offset()).is_none()
                    && final(self).offset() == old(self).chars().len(),
            },
    {
        while self.offset < self.chars.len() && is_whitespace(self.chars[self.offset])
            invariant
                self.wf(),
                self.chars() == old(self).chars(),
                self.spec_complete() == old(self).spec_complete(),
                old(self).offset() <= self.offset(),
                trim_start_at(self.chars(), old(self).offset(), self.chars().len() as int)
                    == trim_start_at(self.chars(), self.offset(), self.chars().len() as int),
            decreases self.chars().len() - self.offset(),
        {
            self.read_next_char();
        }
        if self.offset >= self.chars.len() {
            return None;
        }
        let start = self.offset;
        let start_position = self.next_char_source_position;
        let mut end: usize = start;
        let mut end_position = start_position;
        let mut newlines: usize = 0;
        let mut backticks: usize = 0;
        let mut in_code = false;
        proof {
            lemma_block_end_bounds(
                self.chars(),
                start as int,
                start as int,
                BlockScan { newlines: 0, backticks: 0, in_code: false, end: start as int },
            );
        }
        while self.offset < self.chars.len()
            invariant
                self.wf(),
                self.chars() == old(self).chars(),
                self.spec_complete() == old(self).spec_complete(),
                start <= end <= self.offset() <= self.chars().len(),
                self.offset() == start || start < end,
                start < self.chars().len(),
                !is_whitespace_char(self.chars()[start as int]),
                backticks <= 2,
                newlines <= self.offset() - start,
                end_position == position_at(self.chars(), end as int),
                block_end(
                    self.chars(),
                    start as int,
                    start as int,
                    BlockScan { newlines: 0, backticks: 0, in_code: false, end: start as int },
                ) == block_end(
                    self.chars(),
                    start as int,
                    self.offset(),
                    BlockScan {
                        newlines: newlines as nat,
                        backticks: backticks as nat,
                        in_code,
                        end: end as int,
                    },
                ),
            ensures
                block_end(
                    self.chars(),
                    start as int,
                    start as int,
                    BlockScan { newlines: 0, backticks: 0, in_code: false, end: start as int },
                ) == (end as int, self.offset()),
            decreases self.chars().len() - self.offset(),
        {
            let c = self.chars[self.offset];
            if c == '\n' {
                newlines += 1;
                self.read_next_char();
            } else if is_whitespace(c) {
                self.read_next_char();
            } else {
                if newlines >= 2 && !in_code {
                    break ;
                }
                if c == '`' && (self.offset == start || backticks > 0 || in_code) {
                    if backticks == 2 {
                        in_code = !in_code;
                        backticks = 0;
                    } else {
                        backticks += 1;
                    }
                } else {
                    backticks = 0;
                }
                newlines = 0;
                self.read_next_char();
                end = self.offset;
                end_position = self.next_char_source_position;
            }
        }
        proof {
            lemma_block_end_bounds(
                self.chars(),
                start as int,
                start as int,
                BlockScan { newlines: 0, backticks: 0, in_code: false, end: start as int },
            );
        }
        let src = to_string(&self.chars, start, end);
        Some(SplitterBlock::new(src, SourceSpan::new(start_position, end_position)))
    }
}

/// The line and the column of a position in a text are at most one more than the index.
pub proof fn lemma_position_bound(s: Seq<char>, index: int)
    requires
        0 <= index <= s.len(),
        s.len() < usize::MAX,
    ensures
        1 <= position_at(s, index).line <= index + 1,
        1 <= position_at(s, index).column <= index + 1,
    decreases index,
{
    if index > 0 {
        lemma_position_bound(s, index - 1);
        assert(s.take(index).drop_last() =~= s.take(index - 1));
    }
}

} // verus!
