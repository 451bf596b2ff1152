//! The parser of headings.

use vstd::prelude::*;
use crate::block::{
    HeadingBlock, ParseResult, ParsedBlock, ParsedBlockKind, ParsedBlockKindView, ParsedBlockView,
};
use crate::categorizer::{find_run_end, run_end};
use crate::chars::{to_chars, to_string};
use crate::source_span::SourceSpan;
use crate::text_parser::{
    is_block_outcome, parse_text, parse_text_block, parsed_text, text_of, Failure,
};

verus! {

/// The level of the heading `src`: the number of number signs that it starts with.
pub open spec fn heading_level(src: Seq<char>) -> int {
    run_end(src, '#', 0)
}

/// The text of the heading `src`: what stands behind the number signs and one more
/// character, the space that parts the two.
pub open spec fn heading_text(src: Seq<char>) -> Seq<char> {
    if heading_level(src) + 1 <= src.len() {
        src.subrange(heading_level(src) + 1, src.len() as int)
    } else {
        Seq::<char>::empty()
    }
}

/// The heading with the text `src` at `span`. A text without a number sign at its start is
/// no heading and is parsed as text.
pub open spec fn parsed_heading(
    src: Seq<char>,
    span: SourceSpan,
) -> Result<ParsedBlockView, Failure> {
    if heading_level(src) == 0 {
        parsed_text(src, span)
    } else {
        match text_of(heading_text(src), span) {
            Ok(text) => Ok(
                ParsedBlockView {
                    kind: ParsedBlockKindView::Heading { level: heading_level(src) as usize, text },
                    span,
                },
            ),
            Err(e) => Err(e),
        }
    }
}

/// What was found at the start of a heading.
struct FindHeadingLevelResult {
    heading_level: usize,
    offset: usize,
}

/// Parses a heading.
pub struct HeadingParser {
    src: String,
    span: SourceSpan,
}

impl HeadingParser {
    pub closed spec fn spec_src(&self) -> Seq<char> {
        self.src@
    }

    pub closed spec fn spec_span(&self) -> SourceSpan {
        self.span
    }

    pub fn new(src: String, span: SourceSpan) -> (p: Self)
        ensures
            p.spec_src() == src@,
            p.spec_span() == span,
    {
        Self { src, span }
    }

    /// Parses the heading: its level and its text.
    pub fn parse(self) -> (r: ParseResult<ParsedBlock>)
        requires
            self.spec_span().start.has_room(self.spec_src().len() as int),
        ensures
            is_block_outcome(r, parsed_heading(self.spec_src(), self.spec_span())),
    {
        let chars = to_chars(self.src.as_str());
        let found = Self::find_heading_level(&chars);
        if found.heading_level == 0 {
            return parse_text_block(self.src, self.span);
        }
        let rest = to_string(&chars, found.offset, chars.len());
        match parse_text(rest, self.span) {
            Ok(text_tree) => Ok(
                ParsedBlock::new(
                    ParsedBlockKind::Heading(HeadingBlock::new(found.heading_level, text_tree)),
                    self.span,
                ),
            ),
            Err(e) => Err(e),
        }
    }

    fn find_heading_level(src: &Vec<char>) -> (r: FindHeadingLevelResult)
        ensures
            r.heading_level == heading_level(src@),
            r.offset <= src@.len(),
            src@.subrange(r.offset as int, src@.len() as int) == heading_text(src@),
    {
        let heading_level = find_run_end(src, '#', 0);
        let offset = if heading_level < src.len() {
            heading_level + 1
        } else {
            assert(src@.subrange(src@.len() as int, src@.len() as int) =~= Seq::<char>::empty());
            heading_level
        };
        FindHeadingLevelResult { heading_level, offset }
    }
}

} // verus!
