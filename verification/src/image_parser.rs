//! The parser of images that stand as blocks of their own.

use vstd::prelude::*;
use crate::block::{
    ImageBlock, ParseResult, ParsedBlock, ParsedBlockKind, ParsedBlockKindView, ParsedBlockView,
};
use crate::chars::{
    lemma_trim_bounds, to_chars, to_string, trim_end, trim_end_at, trim_start, trim_start_at,
};
use crate::inline::{find_char, index_of, trimmed_range, trimmed_string};
use crate::source_position::SourcePosition;
use crate::source_span::SourceSpan;
use crate::text_parser::{is_block_outcome, parse_text, text_of, Failure};

verus! {

/// The index in `from..to` of the bracket that closes the label, where `depth` brackets were
/// opened inside the label and not closed yet; or `to` where the label is not closed.
pub open spec fn closing_bracket(s: Seq<char>, from: int, to: int, depth: nat) -> int
    decreases to - from,
{
    if from >= to {
        to
    } else if s[from] == '[' {
        closing_bracket(s, from + 1, to, depth + 1)
    } else if s[from] == ']' {
        if depth == 0 {
            from
        } else {
            closing_bracket(s, from + 1, to, (depth - 1) as nat)
        }
    } else {
        closing_bracket(s, from + 1, to, depth)
    }
}

/// An image as indices into its text: where the label starts and ends, and where the source
/// of the image starts and ends.
pub struct ImageShape {
    pub label_start: int,
    pub label_end: int,
    pub src_start: int,
    pub src_end: int,
}

/// The image in `start..end`: the label stands behind the first two characters and runs up
/// to the bracket that closes it, or is empty where none does. The source of the image
/// stands two characters behind the label and runs up to the first closing parenthesis, or
/// to the end.
pub open spec fn image_shape(s: Seq<char>, start: int, end: int) -> ImageShape {
    let label_start = if start + 2 <= end {
        start + 2
    } else {
        end
    };
    let closing = closing_bracket(s, label_start, end, 0);
    let label_end = if closing < end {
        closing
    } else {
        label_start
    };
    let src_start = if label_end + 2 <= end {
        label_end + 2
    } else {
        end
    };
    ImageShape { label_start, label_end, src_start, src_end: index_of(s, ')', src_start, end) }
}

/// The span of the label of an image: on the line on which the block starts, from the
/// column of the label's start in the text to the column of its end.
pub open spec fn label_span(span: SourceSpan, start: int, shape: ImageShape) -> SourceSpan {
    SourceSpan {
        start: SourcePosition { line: span.start.line, column: (start + 2) as usize },
        end: SourcePosition {
            line: span.start.line,
            column: (start + 2 + (shape.label_end - shape.label_start)) as usize,
        },
    }
}

/// The image that stands as a block with the text `src` at `span`: its label, parsed as
/// text without the white space around it, and the source of the image.
pub open spec fn parsed_image(
    src: Seq<char>,
    span: SourceSpan,
) -> Result<ParsedBlockView, Failure> {
    let start = trim_start_at(src, 0, src.len() as int);
    let end = trim_end_at(src, start, src.len() as int);
    let shape = image_shape(src, start, end);
    match text_of(
        trimmed_range(src, shape.label_start, shape.label_end),
        label_span(span, start, shape),
    ) {
        Ok(label) => Ok(
            ParsedBlockView {
                kind: ParsedBlockKindView::Image {
                    label,
                    src: src.subrange(shape.src_start, shape.src_end),
                },
                span,
            },
        ),
        Err(e) => Err(e),
    }
}

/// Parses an image that stands as a block of its own.
pub struct ImageParser {
    src: String,
    span: SourceSpan,
}

impl ImageParser {
    pub closed spec fn spec_src(&self) -> Seq<char> {
        self.src@
    }

    pub closed spec fn spec_span(&self) -> SourceSpan {
        self.span
    }

    pub fn new(src: String, span: SourceSpan) -> (p: Self)
        ensures
            p.spec_src() == src@,
            p.spec_span() == span,
    {
        Self { src, span }
    }

    /// Parses the image: its label and its source.
    pub fn parse(self) -> (r: ParseResult<ParsedBlock>)
        requires
            self.spec_span().start.has_room(self.spec_src().len() as int + 2),
        ensures
            is_block_outcome(r, parsed_image(self.spec_src(), self.spec_span())),
    {
        let chars = to_chars(self.src.as_str());
        let start = trim_start(&chars, 0, chars.len());
        let end = trim_end(&chars, start, chars.len());
        let label_start = if end - start >= 2 {
            start + 2
        } else {
            end
        };
        let mut closing: usize = label_start;
        let mut depth: usize = 0;
        while closing < end
            invariant
                label_start <= closing <= end <= chars@.len(),
                depth <= closing - label_start,
                closing_bracket(chars@, label_start as int, end as int, 0) == closing_bracket(
                    chars@,
                    closing as int,
                    end as int,
                    depth as nat,
                ),
            ensures
                closing_bracket(chars@, label_start as int, end as int, 0) == closing,
                label_start <= closing <= end,
            decreases end - closing,
        {
            let c = chars[closing];
            if c == '[' {
                depth += 1;
            } else if c == ']' {
                if depth == 0 {
                    break ;
                }
                depth -= 1;
            }
            closing += 1;
        }
        let label_end = if closing < end {
            closing
        } else {
            label_start
        };
        let src_start = if end - label_end >= 2 {
            label_end + 2
        } else {
            end
        };
        let src_end = find_char(&chars, ')', src_start, end);
        let ghost shape = image_shape(chars@, start as int, end as int);
        assert(shape == ImageShape {
            label_start: label_start as int,
            label_end: label_end as int,
            src_start: src_start as int,
            src_end: src_end as int,
        });
        let label = trimmed_string(&chars, label_start, label_end);
        proof {
            lemma_trim_bounds(chars@, label_start as int, label_end as int);
            let a = trim_start_at(chars@, label_start as int, label_end as int);
            lemma_trim_bounds(chars@, a, label_end as int);
        }
        let label_span = SourceSpan::new(
            SourcePosition::new(self.span.start.line, start + 2),
            SourcePosition::new(self.span.start.line, start + 2 + (label_end - label_start)),
        );
        match parse_text(label, label_span) {
            Ok(text_tree) => Ok(
                ParsedBlock::new(
                    ParsedBlockKind::Image(
                        ImageBlock::new(text_tree, to_string(&chars, src_start, src_end)),
                    ),
                    self.span,
                ),
            ),
            Err(e) => Err(e),
        }
    }
}

} // verus!
