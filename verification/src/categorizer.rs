//! Tells the kinds of blocks apart by the way they start.

use vstd::prelude::*;
use crate::chars::to_chars;
use crate::inline::{find_char, index_of};
use crate::source_span::SourceSpan;
use crate::splitter::SplitterBlock;

verus! {

/// The kinds of blocks.
#[derive(Debug, Clone, Copy, PartialEq, Eq, Structural)]
pub enum BlockKind {
    Text,
    Heading,
    List,
    Table,
    Image,
    Quote,
    Code,
    Function,
    HorizontalRule,
}

/// A block with its kind.
#[derive(Debug)]
pub struct CategorizedBlock {
    kind: BlockKind,
    src: String,
    span: SourceSpan,
}

impl CategorizedBlock {
    pub closed spec fn spec_kind(&self) -> BlockKind {
        self.kind
    }

    pub closed spec fn spec_src(&self) -> Seq<char> {
        self.src@
    }

    pub closed spec fn spec_span(&self) -> SourceSpan {
        self.span
    }

    pub fn new(kind: BlockKind, src: String, span: SourceSpan) -> (b: Self)
        ensures
            b.spec_kind() == kind,
            b.spec_src() == src@,
            b.spec_span() == span,
    {
        Self { kind, src, span }
    }

    pub fn kind(&self) -> (k: &BlockKind)
        ensures
            *k == self.spec_kind(),
    {
        &self.kind
    }

    pub fn src(&self) -> (s: &str)
        ensures
            s@ == self.spec_src(),
    {
        self.src.as_str()
    }

    pub fn span(&self) -> (s: &SourceSpan)
        ensures
            *s == self.spec_span(),
    {
        &self.span
    }

    pub fn consume(self) -> (r: (BlockKind, String, SourceSpan))
        ensures
            r.0 == self.spec_kind(),
            r.1@ == self.spec_src(),
            r.2 == self.spec_span(),
    {
        (self.kind, self.src, self.span)
    }
}

/// The end of the run of `c` that starts at `from`.
pub open spec fn run_end(s: Seq<char>, c: char, from: int) -> int
    decreases s.len() - from,
{
    if 0 <= from < s.len() && s[from] == c {
        run_end(s, c, from + 1)
    } else {
        from
    }
}

/// Whether `s` holds nothing from `from` on but spaces and tabs and, if `lines`, line feeds.
pub open spec fn only_blank(s: Seq<char>, from: int, lines: bool) -> bool
    decreases s.len() - from,
{
    if 0 <= from < s.len() {
        (s[from] == ' ' || s[from] == '\t' || (lines && s[from] == '\n')) && only_blank(
            s,
            from + 1,
            lines,
        )
    } else {
        true
    }
}

/// The index behind the first `c` at or behind `from`, or the length of `s`.
pub open spec fn behind(s: Seq<char>, c: char, from: int) -> int {
    let i = index_of(s, c, from, s.len() as int);
    if i < s.len() {
        i + 1
    } else {
        s.len() as int
    }
}

/// A block of code starts with three backticks.
pub open spec fn is_code_block(s: Seq<char>) -> bool {
    run_end(s, '`', 0) >= 3
}

/// An ordered list starts with a number sign of one digit, a period and a space.
pub open spec fn is_ordered_list(s: Seq<char>) -> bool {
    s.len() >= 3 && s[1] == '.' && s[2] == ' '
}

/// An unordered list has a space behind its first character.
pub open spec fn is_unordered_list(s: Seq<char>) -> bool {
    s.len() >= 2 && s[1] == ' '
}

/// A horizontal rule is three or more of `c`, with nothing but spaces and tabs behind them.
pub open spec fn is_horizontal_rule(s: Seq<char>, c: char) -> bool {
    run_end(s, c, 0) >= 3 && only_blank(s, run_end(s, c, 0), false)
}

/// An image has an opening bracket behind its first character, then somewhere a closing
/// bracket, an opening parenthesis and a closing parenthesis, in this order, and nothing but
/// white space behind that.
pub open spec fn is_image(s: Seq<char>) -> bool {
    let a = behind(s, ']', 2);
    let b = behind(s, '(', a);
    let m = index_of(s, ')', b, s.len() as int);
    s.len() >= 2 && s[1] == '[' && m < s.len() && only_blank(s, m + 1, true)
}

/// Whether `c` ends the name of a function.
pub open spec fn ends_name(c: char) -> bool {
    c == '(' || c == '\t' || c == '#' || c == ' '
}

/// The end of the name that starts at `from`.
pub open spec fn block_name_end(s: Seq<char>, from: int) -> int
    decreases s.len() - from,
{
    if 0 <= from < s.len() && !ends_name(s[from]) {
        block_name_end(s, from + 1)
    } else {
        from
    }
}

/// A function has a name behind its first character, which a tab or a number sign does not
/// end. Parameters in parentheses may follow the name, and nothing but white space follows
/// them, or the name where there are none.
pub open spec fn is_function_block(s: Seq<char>) -> bool {
    let j = block_name_end(s, 1);
    let k = index_of(s, ')', j + 1, s.len() as int);
    if j <= 1 {
        false
    } else if j >= s.len() {
        true
    } else if s[j] == '(' {
        k < s.len() && only_blank(s, k + 1, true)
    } else if s[j] == ' ' {
        only_blank(s, j + 1, true)
    } else {
        false
    }
}

/// A heading has nothing but number signs behind its first character, and then a space.
pub open spec fn is_heading(s: Seq<char>) -> bool {
    let j = run_end(s, '#', 1);
    1 <= j < s.len() && s[j] == ' '
}

/// The kind of the block with the text `s`, which its first character decides at first and
/// the characters behind it in the end. What fits no other kind is text.
pub open spec fn kind_of(s: Seq<char>) -> BlockKind {
    if s.len() == 0 {
        BlockKind::Text
    } else if s[0] == '#' {
        if is_heading(s) {
            BlockKind::Heading
        } else if is_function_block(s) {
            BlockKind::Function
        } else {
            BlockKind::Text
        }
    } else if s[0] == '!' {
        if is_image(s) {
            BlockKind::Image
        } else {
            BlockKind::Text
        }
    } else if '1' <= s[0] <= '9' {
        if is_ordered_list(s) {
            BlockKind::List
        } else {
            BlockKind::Text
        }
    } else if s[0] == '-' || s[0] == '+' || s[0] == '*' {
        if is_horizontal_rule(s, s[0]) {
            BlockKind::HorizontalRule
        } else if is_unordered_list(s) {
            BlockKind::List
        } else {
            BlockKind::Text
        }
    } else if s[0] == '_' {
        if is_horizontal_rule(s, s[0]) {
            BlockKind::HorizontalRule
        } else {
            BlockKind::Text
        }
    } else if s[0] == '>' {
        BlockKind::Quote
    } else if s[0] == '|' {
        BlockKind::Table
    } else if s[0] == '`' {
        if is_code_block(s) {
            BlockKind::Code
        } else {
            BlockKind::Text
        }
    } else {
        BlockKind::Text
    }
}

pub fn find_run_end(v: &Vec<char>, c: char, from: usize) -> (r: usize)
    requires
        from <= v.len(),
    ensures
        r == run_end(v@, c, from as int),
        from <= r <= v.len(),
{
    let mut i: usize = from;
    while i < v.len() && v[i] == c
        invariant
            from <= i <= v.len(),
            run_end(v@, c, from as int) == run_end(v@, c, i as int),
        decreases v.len() - i,
    {
        i += 1;
    }
    i
}

fn check_only_blank(v: &Vec<char>, from: usize, lines: bool) -> (r: bool)
    requires
        from <= v.len(),
    ensures
        r == only_blank(v@, from as int, lines),
{
    let mut i: usize = from;
    while i < v.len()
        invariant
            from <= i <= v.len(),
            only_blank(v@, from as int, lines) == only_blank(v@, i as int, lines),
        decreases v.len() - i,
    {
        let c = v[i];
        if !(c == ' ' || c == '\t' || (lines && c == '\n')) {
            return false;
        }
        i += 1;
    }
    true
}

fn find_behind(v: &Vec<char>, c: char, from: usize) -> (r: usize)
    requires
        from <= v.len(),
    ensures
        r == behind(v@, c, from as int),
        from <= r <= v.len(),
{
    let i = find_char(v, c, from, v.len());
    if i < v.len() {
        i + 1
    } else {
        i
    }
}

/// Tells the kinds of blocks apart.
pub struct BlockCategorizer;

impl BlockCategorizer {
    pub fn new() -> Self {
        Self
    }

    /// Gives the block its kind. The kind depends on the text of the block alone; the text
    /// and the span are handed on as they are.
    pub fn categorize(&self, block: SplitterBlock) -> (r: CategorizedBlock)
        ensures
            r.spec_kind() == kind_of(block.spec_src()),
            r.spec_src() == block.spec_src(),
            r.spec_span() == block.spec_span(),
    {
        let span = *block.span();
        let src = block.into_src();
        let chars = to_chars(src.as_str());
        let kind = if chars.len() == 0 {
            BlockKind::Text
        } else {
            let first = chars[0];
            if first == '#' {
                if self.is_heading(&chars) {
                    BlockKind::Heading
                } else if self.is_function_block(&chars) {
                    BlockKind::Function
                } else {
                    BlockKind::Text
                }
            } else if first == '!' {
                if self.is_image(&chars) {
                    BlockKind::Image
                } else {
                    BlockKind::Text
                }
            } else if '1' <= first && first <= '9' {
                if self.is_ordered_list(&chars) {
                    BlockKind::List
                } else {
                    BlockKind::Text
                }
            } else if first == '-' || first == '+' || first == '*' {
                if self.is_horizontal_rule(&chars, first) {
                    BlockKind::HorizontalRule
                } else if self.is_unordered_list(&chars, first) {
                    BlockKind::List
                } else {
                    BlockKind::Text
                }
            } else if first == '_' {
                if self.is_horizontal_rule(&chars, first) {
                    BlockKind::HorizontalRule
                } else {
                    BlockKind::Text
                }
            } else if first == '>' {
                BlockKind::Quote
            } else if first == '|' {
                BlockKind::Table
            } else if first == '`' {
                if self.is_code_block(&chars) {
                    BlockKind::Code
                } else {
                    BlockKind::Text
                }
            } else {
                BlockKind::Text
            }
        };
        CategorizedBlock::new(kind, src, span)
    }

    fn is_code_block(&self, src: &Vec<char>) -> (r: bool)
        ensures
            r == is_code_block(src@),
    {
        find_run_end(src, '`', 0) >= 3
    }

    fn is_ordered_list(&self, src: &Vec<char>) -> (r: bool)
        ensures
            r == is_ordered_list(src@),
    {
        src.len() >= 3 && src[1] == '.' && src[2] == ' '
    }

    fn is_unordered_list(&self, src: &Vec<char>, _char: char) -> (r: bool)
        ensures
            r == is_unordered_list(src@),
    {
        src.len() >= 2 && src[1] == ' '
    }

    fn is_horizontal_rule(&self, src: &Vec<char>, c: char) -> (r: bool)
        ensures
            r == is_horizontal_rule(src@, c),
    {
        let end = find_run_end(src, c, 0);
        end >= 3 && check_only_blank(src, end, false)
    }

    fn is_image(&self, src: &Vec<char>) -> (r: bool)
        ensures
            r == is_image(src@),
    {
        if !(src.len() >= 2 && src[1] == '[') {
            return false;
        }
        let a = find_behind(src, ']', 2);
        let b = find_behind(src, '(', a);
        let m = find_char(src, ')', b, src.len());
        m < src.len() && check_only_blank(src, m + 1, true)
    }

    fn is_function_block(&self, src: &Vec<char>) -> (r: bool)
        requires
            src@.len() >= 1,
        ensures
            r == is_function_block(src@),
    {
        let mut j: usize = 1;
        while j < src.len() && !(src[j] == '(' || src[j] == '\t' || src[j] == '#' || src[j] == ' ')
            invariant
                1 <= j <= src.len(),
                block_name_end(src@, 1) == block_name_end(src@, j as int),
            decreases src.len() - j,
        {
            j += 1;
        }
        if j <= 1 {
            false
        } else if j >= src.len() {
            true
        } else if src[j] == '(' {
            let k = find_char(src, ')', j + 1, src.len());
            k < src.len() && check_only_blank(src, k + 1, true)
        } else if src[j] == ' ' {
            check_only_blank(src, j + 1, true)
        } else {
            false
        }
    }

    fn is_heading(&self, src: &Vec<char>) -> (r: bool)
        requires
            src@.len() >= 1,
        ensures
            r == is_heading(src@),
    {
        let j = find_run_end(src, '#', 1);
        j < src.len() && src[j] == ' '
    }
}

} // verus!
