//! The parser of blocks of code.

use vstd::prelude::*;
use vstd::string::StringExecFns;
use crate::block::{
    CodeBlock, ParseError, ParseResult, ParsedBlock, ParsedBlockKind, ParsedBlockKindView,
    ParsedBlockView,
};
use crate::chars::{
    is_whitespace, is_whitespace_char, to_chars, to_string, trim_end, trim_end_at, trim_start,
    trim_start_at,
};
use crate::source_span::SourceSpan;
use crate::text_parser::{is_block_outcome, Failure};

verus! {

/// Whether `s` holds three backticks from `at` on.
pub open spec fn fence_at(s: Seq<char>, at: int) -> bool {
    0 <= at && at + 3 <= s.len() && s[at] == '`' && s[at + 1] == '`' && s[at + 2] == '`'
}

/// The end of the run of characters from `from` on that are neither white space nor a
/// backtick.
pub open spec fn word_end(s: Seq<char>, from: int, to: int) -> int
    decreases to - from,
{
    if 0 <= from < to && from < s.len() && !is_whitespace_char(s[from]) && s[from] != '`' {
        word_end(s, from + 1, to)
    } else {
        from
    }
}

/// The header of a block of code as indices: where the language starts and ends, and where
/// the code starts.
pub struct CodeHeader {
    pub language_start: int,
    pub language_end: int,
    pub code_start: int,
}

/// The header of the block of code that starts, behind white space, at `start` and ends at
/// `end`. The word behind the opening fence names the language, if white space ends it; a
/// space or a tab behind the language belongs to the header. A word that a backtick ends is
/// code.
pub open spec fn code_header(s: Seq<char>, start: int, end: int) -> CodeHeader {
    let w = word_end(s, start + 3, end);
    if w < end && s[w] != '`' {
        CodeHeader {
            language_start: start + 3,
            language_end: w,
            code_start: if s[w] == ' ' || s[w] == '\t' {
                w + 1
            } else {
                w
            },
        }
    } else {
        CodeHeader { language_start: start + 3, language_end: start + 3, code_start: start + 3 }
    }
}

/// The code in `from..to`: all of it but one line feed at its start and one at its end.
pub open spec fn code_between(s: Seq<char>, from: int, to: int) -> Seq<char> {
    let a = if from < to && s[from] == '\n' {
        from + 1
    } else {
        from
    };
    let b = if a < to && s[to - 1] == '\n' {
        to - 1
    } else {
        to
    };
    s.subrange(a, b)
}

/// The block of code with the text `src` at `span`. Apart from white space around it, the
/// text starts with a fence of three backticks and ends with another.
pub open spec fn parsed_code(src: Seq<char>, span: SourceSpan) -> Result<ParsedBlockView, Failure> {
    let start = trim_start_at(src, 0, src.len() as int);
    let end = trim_end_at(src, start, src.len() as int);
    let header = code_header(src, start, end - 3);
    if !fence_at(src, start) || start + 3 > end {
        Err(
            Failure {
                message: "Code block must be started with '```'"@,
                source_position: span.start,
            },
        )
    } else if !fence_at(src, end - 3) || end - 3 < start + 3 {
        Err(Failure { message: "Code block must be ended with '```'"@, source_position: span.end })
    } else {
        Ok(
            ParsedBlockView {
                kind: ParsedBlockKindView::Code {
                    language: if header.language_start < header.language_end {
                        Some(src.subrange(header.language_start, header.language_end))
                    } else {
                        None
                    },
                    src: code_between(src, header.code_start, end - 3),
                },
                span,
            },
        )
    }
}

/// Where the header of a block of code ends, and the language that it names.
struct CodeBlockHeader {
    offset: usize,
    language_identifier: Option<String>,
}

/// Where the footer of a block of code starts.
struct CodeBlockFooter {
    offset: usize,
}

/// Parses a block of code.
pub struct CodeParser {
    src: String,
    span: SourceSpan,
}

fn has_fence(v: &Vec<char>, at: usize) -> (r: bool)
    ensures
        r == fence_at(v@, at as int),
{
    v.len() >= 3 && at <= v.len() - 3 && v[at] == '`' && v[at + 1] == '`' && v[at + 2] == '`'
}

impl CodeParser {
    pub closed spec fn spec_src(&self) -> Seq<char> {
        self.src@
    }

    pub closed spec fn spec_span(&self) -> SourceSpan {
        self.span
    }

    pub fn new(src: String, span: SourceSpan) -> (p: Self)
        ensures
            p.spec_src() == src@,
            p.spec_span() == span,
    {
        Self { src, span }
    }

    /// Parses the block of code: the language that its header names, and the code between
    /// its fences.
    pub fn parse(self) -> (r: ParseResult<ParsedBlock>)
        ensures
            is_block_outcome(r, parsed_code(self.spec_src(), self.spec_span())),
    {
        let chars = to_chars(self.src.as_str());
        let start = trim_start(&chars, 0, chars.len());
        let end = trim_end(&chars, start, chars.len());
        let footer = match Self::find_footer(&chars, start, end) {
            Ok(footer) => footer,
            Err(at_start) => {
                if at_start {
                    return Err(
                        ParseError {
                            message: String::from_str("Code block must be started with '```'"),
                            source_position: self.span.start,
                        },
                    );
                }
                return Err(
                    ParseError {
                        message: String::from_str("Code block must be ended with '```'"),
                        source_position: self.span.end,
                    },
                );
            },
        };
        let header = Self::find_header(&chars, start, footer.offset);
        let mut from = header.offset;
        let mut to = footer.offset;
        if from < to && chars[from] == '\n' {
            from += 1;
        }
        if from < to && chars[to - 1] == '\n' {
            to -= 1;
        }
        let code = to_string(&chars, from, to);
        Ok(
            ParsedBlock::new(
                ParsedBlockKind::Code(CodeBlock::new(header.language_identifier, code)),
                self.span,
            ),
        )
    }

    /// The header of the block whose opening fence stands at `start` and whose closing fence
    /// stands at `end`.
    fn find_header(src: &Vec<char>, start: usize, end: usize) -> (r: CodeBlockHeader)
        requires
            start + 3 <= end <= src@.len(),
        ensures
            r.offset == code_header(src@, start as int, end as int).code_start,
            start + 3 <= r.offset <= end,
            match r.language_identifier {
                Some(l) => l@ == src@.subrange(
                    code_header(src@, start as int, end as int).language_start,
                    code_header(src@, start as int, end as int).language_end,
                ) && l@.len() > 0,
                None => code_header(src@, start as int, end as int).language_start
                    >= code_header(src@, start as int, end as int).language_end,
            },
    {
        let mut w: usize = start + 3;
        while w < end && !is_whitespace(src[w]) && src[w] != '`'
            invariant
                start + 3 <= w <= end <= src@.len(),
                word_end(src@, start + 3, end as int) == word_end(src@, w as int, end as int),
            decreases end - w,
        {
            w += 1;
        }
        if w < end && src[w] != '`' {
            let language = if start + 3 < w {
                Some(to_string(src, start + 3, w))
            } else {
                None
            };
            let offset = if src[w] == ' ' || src[w] == '\t' {
                w + 1
            } else {
                w
            };
            CodeBlockHeader { offset, language_identifier: language }
        } else {
            CodeBlockHeader { offset: start + 3, language_identifier: None }
        }
    }

    /// The footer of the block that stands in `start..end`, or which of the two fences is
    /// missing: `true` for the opening one.
    fn find_footer(src: &Vec<char>, start: usize, end: usize) -> (r: Result<CodeBlockFooter, bool>)
        requires
            start <= end <= src@.len(),
        ensures
            match r {
                Ok(footer) => fence_at(src@, start as int) && fence_at(src@, end - 3) && start + 3
                    <= end - 3 && footer.offset == end - 3,
                Err(at_start) => at_start == (!fence_at(src@, start as int) || start + 3 > end)
                    && (at_start || !fence_at(src@, end - 3) || end - 3 < start + 3),
            },
    {
        if !has_fence(src, start) || end - start < 3 {
            return Err(true);
        }
        if end - start < 6 || !has_fence(src, end - 3) {
            return Err(false);
        }
        Ok(CodeBlockFooter { offset: end - 3 })
    }
}

} // verus!
