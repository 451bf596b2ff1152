//! The parser of functions that stand as blocks of their own.

use vstd::prelude::*;
use vstd::string::StringExecFns;
use crate::block::{
    FunctionBlock, ParseError, ParseResult, ParsedBlock, ParsedBlockKind, ParsedBlockKindView,
    ParsedBlockView,
};
use crate::chars::{to_chars, trim, trimmed, whole_string};
use crate::inline::{find_char, index_of, parameters_in, read_parameters};
use crate::parameters::{Entry, FunctionParameters};
use crate::source_span::SourceSpan;
use crate::text_parser::{is_block_outcome, Failure};

verus! {

/// `s` without its number signs.
pub open spec fn without_signs(s: Seq<char>) -> Seq<char>
    decreases s.len(),
{
    if s.len() == 0 {
        s
    } else if s.last() == '#' {
        without_signs(s.drop_last())
    } else {
        without_signs(s.drop_last()).push(s.last())
    }
}

/// Whether `s` holds a space or a tab before `to`.
pub open spec fn has_blank(s: Seq<char>, to: int) -> bool {
    exists|i: int| 0 <= i < to && (s[i] == ' ' || s[i] == '\t')
}

/// The function that stands as a block with the text `src` at `span`. Its name runs up to
/// the first opening parenthesis, or to the end; number signs do not count, and a space or a
/// tab in it is an error, as is an empty name. Behind a parenthesis the parameters follow,
/// up to the closing parenthesis at the end; an entry without a colon is left out.
pub open spec fn parsed_function(
    src: Seq<char>,
    span: SourceSpan,
) -> Result<ParsedBlockView, Failure> {
    let s = trimmed(src);
    let j = index_of(s, '(', 0, s.len() as int);
    let name = without_signs(s.subrange(0, j));
    if has_blank(s, j) {
        Err(
            Failure {
                message: "Unexpected whitespace in function name"@,
                source_position: span.start,
            },
        )
    } else if name.len() == 0 {
        Err(Failure { message: "Function name is empty"@, source_position: span.start })
    } else if j < s.len() && s.last() != ')' {
        Err(
            Failure {
                message: "Expected closing parenthesis for function parameters"@,
                source_position: span.start,
            },
        )
    } else {
        Ok(
            ParsedBlockView {
                kind: ParsedBlockKindView::Function {
                    name,
                    parameters: if j < s.len() {
                        parameters_in(s, j + 1, s.len() - 1, true, true, Seq::<Entry>::empty())
                    } else {
                        Seq::<Entry>::empty()
                    },
                },
                span,
            },
        )
    }
}

/// Parses a function that stands as a block of its own.
pub struct FunctionParser {
    src: String,
    span: SourceSpan,
}

impl FunctionParser {
    pub closed spec fn spec_src(&self) -> Seq<char> {
        self.src@
    }

    pub closed spec fn spec_span(&self) -> SourceSpan {
        self.span
    }

    pub fn new(src: String, span: SourceSpan) -> (p: Self)
        ensures
            p.spec_src() == src@,
            p.spec_span() == span,
    {
        Self { src, span }
    }

    /// Parses the function: its name and its parameters.
    #[verifier::loop_isolation(false)]
    pub fn parse(self) -> (r: ParseResult<ParsedBlock>)
        ensures
            is_block_outcome(r, parsed_function(self.spec_src(), self.spec_span())),
    {
        let all = to_chars(self.src.as_str());
        let src = trim(&all);
        let end = find_char(&src, '(', 0, src.len());
        let mut name: Vec<char> = Vec::new();
        let mut i: usize = 0;
        assert(src@.subrange(0, 0) =~= Seq::<char>::empty());
        while i < end
            invariant
                i <= end <= src@.len(),
                name@ == without_signs(src@.subrange(0, i as int)),
                !has_blank(src@, i as int),
            decreases end - i,
        {
            let c = src[i];
            assert(src@.subrange(0, i + 1).drop_last() =~= src@.subrange(0, i as int));
            if c == ' ' || c == '\t' {
                assert(has_blank(src@, end as int));
                return Err(
                    ParseError {
                        message: String::from_str("Unexpected whitespace in function name"),
                        source_position: self.span.start,
                    },
                );
            }
            if c != '#' {
                name.push(c);
            }
            i += 1;
        }
        if name.len() == 0 {
            return Err(
                ParseError {
                    message: String::from_str("Function name is empty"),
                    source_position: self.span.start,
                },
            );
        }
        let mut parameters = FunctionParameters::new();
        if end < src.len() {
            if src[src.len() - 1] != ')' {
                return Err(
                    ParseError {
                        message: String::from_str(
                            "Expected closing parenthesis for function parameters",
                        ),
                        source_position: self.span.start,
                    },
                );
            }
            parameters = read_parameters(&src, end + 1, src.len() - 1, true, true);
        }
        Ok(
            ParsedBlock::new(
                ParsedBlockKind::Function(FunctionBlock::new(whole_string(&name), parameters)),
                self.span,
            ),
        )
    }
}

} // verus!
