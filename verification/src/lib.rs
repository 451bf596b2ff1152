//! Conversion of an extended Markdown dialect into an indented, XML-like document tree.
//!
//! A document is split into blocks, each block is given its kind and parsed by the parser of
//! that kind, the parsed blocks are made into one tree, and the tree is written out.

use vstd::prelude::*;

pub mod arena;
pub mod block;
pub mod categorizer;
pub mod chars;
pub mod code_parser;
pub mod decode;
pub mod emphasis;
pub mod function_parser;
pub mod heading_parser;
pub mod image_parser;
pub mod inline;
pub mod list_parser;
pub mod list_tree;
pub mod parameters;
pub mod parser;
pub mod quote_parser;
pub mod quote_tree;
pub mod rejoin;
pub mod script_tree;
pub mod sections;
pub mod source_position;
pub mod source_span;
pub mod splitter;
pub mod table_parser;
pub mod text_parser;
pub mod text_tree;
pub mod token;
pub mod tokenizer;
pub mod transformer;

use crate::block::{ParseError, ParsedBlock, ParsedBlockView};
use crate::categorizer::{kind_of, BlockCategorizer};
use crate::chars::without_cr;
use crate::decode::decoded_prefix;
use crate::parser::{parsed_block, BlockParser};
use crate::script_tree::written;
use crate::source_span::SourceSpan;
use crate::splitter::{block_at, lemma_position_bound, position_at, BlockSplitter};
use crate::text_parser::Failure;
use crate::transformer::{block_views, transform, transformed};

verus! {

/// Why a document could not be converted.
#[derive(Debug)]
pub enum ConvertError {
    /// The input is not well-formed UTF-8.
    Decode,
    /// A block could not be parsed.
    Parse(ParseError),
}

/// Why a document could not be converted, with the message of a parse error as characters.
pub enum ConvertFailure {
    Decode,
    Parse(Failure),
}

pub type ConvertResult<T> = Result<T, ConvertError>;

/// The parsed block that stands in `b` of the text `s`.
pub open spec fn block_parsed(
    s: Seq<char>,
    b: crate::splitter::BlockRange,
) -> Result<ParsedBlockView, Failure> {
    let src = s.subrange(b.start, b.end);
    parsed_block(
        kind_of(src),
        src,
        SourceSpan { start: position_at(s, b.start), end: position_at(s, b.end) },
    )
}

/// The parsed blocks of the text `s` from `from` on, behind the blocks `done`; or the error
/// of the first block that cannot be parsed.
#[verifier::opaque]
pub open spec fn blocks_parsed(
    s: Seq<char>,
    from: int,
    done: Seq<ParsedBlockView>,
) -> Result<Seq<ParsedBlockView>, Failure>
    decreases s.len() - from,
{
    match block_at(s, from) {
        None => Ok(done),
        Some(b) => match block_parsed(s, b) {
            Err(e) => Err(e),
            Ok(block) => if from < b.next <= s.len() {
                blocks_parsed(s, b.next, done.push(block))
            } else {
                Ok(done.push(block))
            },
        },
    }
}

/// What `blocks_parsed` is in terms of the next block.
pub proof fn lemma_blocks_parsed_step(s: Seq<char>, from: int, done: Seq<ParsedBlockView>)
    ensures
        blocks_parsed(s, from, done) == (match block_at(s, from) {
            None => Ok::<Seq<ParsedBlockView>, Failure>(done),
            Some(b) => match block_parsed(s, b) {
                Err(e) => Err::<Seq<ParsedBlockView>, Failure>(e),
                Ok(block) => if from < b.next <= s.len() {
                    blocks_parsed(s, b.next, done.push(block))
                } else {
                    Ok::<Seq<ParsedBlockView>, Failure>(done.push(block))
                },
            },
        }),
{
    reveal(blocks_parsed);
}

/// What the document `input` is converted into: the document tree of its parsed blocks,
/// written out. Input that is not well-formed UTF-8 is an error, and so is a block that
/// cannot be parsed. Carriage returns do not count.
pub open spec fn converted(input: Seq<u8>) -> Result<Seq<char>, ConvertFailure> {
    if !vstd::utf8::valid_utf8(input) {
        Err(ConvertFailure::Decode)
    } else {
        match blocks_parsed(
            without_cr(vstd::utf8::decode_utf8(input)),
            0,
            Seq::<ParsedBlockView>::empty(),
        ) {
            Ok(blocks) => Ok(written(transformed(blocks))),
            Err(e) => Err(ConvertFailure::Parse(e)),
        }
    }
}

/// Whether `r` is the outcome `expected` of a conversion.
pub open spec fn is_convert_outcome(
    r: ConvertResult<String>,
    expected: Result<Seq<char>, ConvertFailure>,
) -> bool {
    match r {
        Ok(text) => expected == Ok::<Seq<char>, ConvertFailure>(text@),
        Err(ConvertError::Decode) => expected == Err::<Seq<char>, ConvertFailure>(
            ConvertFailure::Decode,
        ),
        Err(ConvertError::Parse(e)) => expected == Err::<Seq<char>, ConvertFailure>(
            ConvertFailure::Parse(
                Failure { message: e.message@, source_position: e.source_position },
            ),
        ),
    }
}

/// Splits off the next block and parses it; `None` where no block is left.
fn parse_next(splitter: &mut BlockSplitter) -> (r: Option<Result<ParsedBlock, ParseError>>)
    requires
        old(splitter).wf(),
        3 * old(splitter).chars().len() + 3 <= usize::MAX,
    ensures
        final(splitter).wf(),
        final(splitter).chars() == old(splitter).chars(),
        match r {
            None => block_at(old(splitter).chars(), old(splitter).offset()).is_none(),
            Some(parsed) => {
                &&& block_at(old(splitter).chars(), old(splitter).offset()) matches Some(b)
                &&& crate::text_parser::is_block_outcome(
                    parsed,
                    block_parsed(old(splitter).chars(), b),
                )
                &&& final(splitter).offset() == b.next
                &&& old(splitter).offset() < b.next <= old(splitter).chars().len()
            },
        },
{
    let ghost s = splitter.chars();
    let ghost from = splitter.offset();
    let block = match splitter.next() {
        Some(block) => block,
        None => {
            return None;
        },
    };
    proof {
        let b = block_at(s, from).unwrap();
        lemma_position_bound(s, b.start);
    }
    let categorized = BlockCategorizer::new().categorize(block);
    Some(BlockParser::new().parse(categorized))
}

/// Converts the document `input`, which is read as UTF-8, into its written document tree.
pub fn convert(input: &[u8]) -> (r: ConvertResult<String>)
    requires
        3 * input@.len() + 3 <= usize::MAX,
    ensures
        is_convert_outcome(r, converted(input@)),
{
    let mut splitter = BlockSplitter::new(input);
    if !splitter.is_complete() {
        return Err(ConvertError::Decode);
    }
    let mut blocks: Vec<ParsedBlock> = Vec::new();
    let ghost s = splitter.chars();
    let ghost expected = blocks_parsed(s, 0, Seq::<ParsedBlockView>::empty());
    assert(block_views(blocks@) =~= Seq::<ParsedBlockView>::empty());
    proof {
        crate::chars::lemma_without_cr_len(decoded_prefix(input@));
        crate::decode::lemma_decoded_prefix_len(input@);
        crate::decode::lemma_decoded_prefix_of_valid(input@);
    }
    loop
        invariant_except_break
            expected == blocks_parsed(s, splitter.offset(), block_views(blocks@)),
        invariant
            splitter.wf(),
            splitter.chars() == s,
            3 * s.len() + 3 <= usize::MAX,
            forall|i: int| 0 <= i < blocks@.len() ==> (#[trigger] blocks@[i]).wf(),
            vstd::utf8::valid_utf8(input@),
            s == without_cr(vstd::utf8::decode_utf8(input@)),
            expected == blocks_parsed(s, 0, Seq::<ParsedBlockView>::empty()),
        ensures
            forall|i: int| 0 <= i < blocks@.len() ==> (#[trigger] blocks@[i]).wf(),
            expected == Ok::<Seq<ParsedBlockView>, Failure>(block_views(blocks@)),
        decreases s.len() - splitter.offset(),
    {
        let ghost from = splitter.offset();
        let ghost before = block_views(blocks@);
        proof {
            lemma_blocks_parsed_step(s, from, before);
        }
        match parse_next(&mut splitter) {
            None => {
                break ;
            },
            Some(Ok(parsed)) => {
                blocks.push(parsed);
                assert(block_views(blocks@) =~= before.push(parsed@));
            },
            Some(Err(e)) => {
                return Err(ConvertError::Parse(e));
            },
        }
    }
    match transform(blocks) {
        Ok(tree) => Ok(tree.to_string()),
        Err(e) => Err(
            ConvertError::Parse(
                ParseError { message: e.message, source_position: e.block.span().start },
            ),
        ),
    }
}

} // verus!
