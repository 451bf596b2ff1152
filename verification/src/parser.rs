//! The parser of blocks: hands each block to the parser of its kind.

use vstd::prelude::*;
use crate::block::{ParseResult, ParsedBlock, ParsedBlockKind, ParsedBlockKindView, ParsedBlockView};
use crate::categorizer::{BlockKind, CategorizedBlock};
use crate::code_parser::{parsed_code, CodeParser};
use crate::function_parser::{parsed_function, FunctionParser};
use crate::heading_parser::{parsed_heading, HeadingParser};
use crate::image_parser::{parsed_image, ImageParser};
use crate::list_parser::{parsed_list, ListParser};
use crate::quote_parser::{parsed_quote, QuoteParser};
use crate::source_span::SourceSpan;
use crate::table_parser::{parsed_table, TableParser};
use crate::text_parser::{is_block_outcome, parsed_text, Failure, TextParser};

verus! {

/// What the block of `kind` with the text `src` at `span` is parsed into.
pub open spec fn parsed_block(
    kind: BlockKind,
    src: Seq<char>,
    span: SourceSpan,
) -> Result<ParsedBlockView, Failure> {
    match kind {
        BlockKind::Text => parsed_text(src, span),
        BlockKind::Heading => parsed_heading(src, span),
        BlockKind::List => parsed_list(src, span),
        BlockKind::HorizontalRule => Ok(
            ParsedBlockView { kind: ParsedBlockKindView::HorizontalRule, span },
        ),
        BlockKind::Code => parsed_code(src, span),
        BlockKind::Table => parsed_table(src, span),
        BlockKind::Image => parsed_image(src, span),
        BlockKind::Quote => parsed_quote(src, span),
        BlockKind::Function => parsed_function(src, span),
    }
}

/// Parses blocks of all kinds.
pub struct BlockParser;

impl BlockParser {
    pub fn new() -> Self {
        Self
    }

    /// Parses the block with the parser of its kind.
    pub fn parse(&self, categorized_block: CategorizedBlock) -> (r: ParseResult<ParsedBlock>)
        requires
            categorized_block.spec_span().start.has_room(
                3 * categorized_block.spec_src().len() as int + 2,
            ),
        ensures
            is_block_outcome(
                r,
                parsed_block(
                    categorized_block.spec_kind(),
                    categorized_block.spec_src(),
                    categorized_block.spec_span(),
                ),
            ),
    {
        let (kind, src, span) = categorized_block.consume();
        match kind {
            BlockKind::Text => TextParser::new(src, span).parse(),
            BlockKind::Heading => HeadingParser::new(src, span).parse(),
            BlockKind::List => ListParser::new(src, span).parse(),
            BlockKind::HorizontalRule => Ok(ParsedBlock::new(ParsedBlockKind::HorizontalRule, span)),
            BlockKind::Code => CodeParser::new(src, span).parse(),
            BlockKind::Table => TableParser::new(src, span).parse(),
            BlockKind::Image => ImageParser::new(src, span).parse(),
            BlockKind::Quote => QuoteParser::new(src, span).parse(),
            BlockKind::Function => FunctionParser::new(src, span).parse(),
        }
    }
}

} // verus!
