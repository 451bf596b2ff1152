//! The tokenizer of inline text.

use vstd::prelude::*;
use vstd::string::StringExecFns;
use crate::chars::{strip_cr, to_chars, to_string, whole_string, without_cr};
use crate::emphasis::{find_formatting_pair, formatting_pair, FormatKind, FutureToken};
use crate::inline::{
    find_char, find_function, find_link, function_at, function_parameters, index_of, link_at,
    read_function_parameters,
};
use crate::source_position::SourcePosition;
use crate::source_span::SourceSpan;
use crate::token::{Token, TokenKind, TokenKindView, TokenView};

verus! {

/// The state of a tokenizer between two tokens.
pub struct TokenizerState {
    /// The text, without carriage returns.
    pub src: Seq<char>,
    /// How many characters of the text were read.
    pub offset: int,
    /// The position of the character at `offset`.
    pub position: SourcePosition,
    /// The position of the character that was read last; the start where none was read.
    pub last: SourcePosition,
    /// A code span was opened and not closed yet.
    pub in_code: bool,
    /// The text of the code span was given out; its closing backtick comes next.
    pub code_end_pending: bool,
    /// The formatting tokens that are due at stars further on.
    pub future: Seq<FutureToken>,
}

impl TokenizerState {
    /// The state after reading the character at the offset.
    pub open spec fn step(self) -> TokenizerState {
        TokenizerState {
            offset: self.offset + 1,
            position: self.position.after(self.src[self.offset]),
            last: self.position,
            ..self
        }
    }

    /// The state after reading `n` more characters, or the rest of the text if that is less.
    pub open spec fn skip(self, n: int) -> TokenizerState
        decreases n,
    {
        if n <= 0 || self.offset < 0 || self.offset >= self.src.len() {
            self
        } else {
            self.step().skip(n - 1)
        }
    }

    /// A bound on the number of tokens that are still to come.
    pub open spec fn steps_left(self) -> int {
        2 * (self.src.len() - self.offset) + if self.code_end_pending {
            0int
        } else {
            1int
        }
    }
}

/// The first token of `future` that is due at `offset`.
pub open spec fn due_at(future: Seq<FutureToken>, offset: int) -> Option<FormatKind>
    decreases future.len(),
{
    if future.len() == 0 {
        None
    } else if future[0].offset == offset {
        Some(future[0].token_kind)
    } else {
        due_at(future.drop_first(), offset)
    }
}

/// `future` without the tokens that are due at `offset`.
pub open spec fn not_due_at(future: Seq<FutureToken>, offset: int) -> Seq<FutureToken>
    decreases future.len(),
{
    if future.len() == 0 {
        future
    } else if future.last().offset == offset {
        not_due_at(future.drop_last(), offset)
    } else {
        not_due_at(future.drop_last(), offset).push(future.last())
    }
}

/// The token kind that a formatting token stands for.
pub open spec fn format_token(kind: FormatKind) -> TokenKindView {
    match kind {
        FormatKind::BoldStart => TokenKindView::BoldStart,
        FormatKind::BoldEnd => TokenKindView::BoldEnd,
        FormatKind::ItalicStart => TokenKindView::ItalicStart,
        FormatKind::ItalicEnd => TokenKindView::ItalicEnd,
    }
}

/// `buf` with one space added, unless it ends with a space already.
pub open spec fn with_space(buf: Seq<char>) -> Seq<char> {
    if buf.len() > 0 && buf.last() == ' ' {
        buf
    } else {
        buf.push(' ')
    }
}

pub open spec fn token(
    kind: TokenKindView,
    start: SourcePosition,
    end: SourcePosition,
) -> TokenView {
    TokenView { kind, span: SourceSpan { start, end } }
}

/// What can start at a character of inline text that is neither escaped nor inside a code
/// span.
pub enum Construct {
    Function { name_end: int, end: int },
    Image { label_end: int, target_end: int },
    Link { label_end: int, target_end: int },
    /// A formatting token that an earlier search has found for this star.
    Due(FormatKind),
    /// The formatting pair that this star opens.
    Pair(Seq<FutureToken>),
    CodeStart,
    /// A backtick that no other backtick follows.
    UnclosedCode,
}

/// What starts at the offset of `st`, if anything does. A star stands for the first future
/// token that is due at it; where none is due, it may open a formatting pair.
pub open spec fn construct_at(st: TokenizerState) -> Option<Construct> {
    let i = st.offset;
    let c = st.src[i];
    if c == '#' {
        match function_at(st.src, i) {
            Some(f) => Some(Construct::Function { name_end: f.name_end, end: f.end }),
            None => None,
        }
    } else if c == '!' {
        match link_at(st.src, i + 1) {
            Some(l) => Some(Construct::Image { label_end: l.label_end, target_end: l.target_end }),
            None => None,
        }
    } else if c == '[' {
        match link_at(st.src, i) {
            Some(l) => Some(Construct::Link { label_end: l.label_end, target_end: l.target_end }),
            None => None,
        }
    } else if c == '*' {
        match due_at(st.future, i) {
            Some(kind) => Some(Construct::Due(kind)),
            None => match formatting_pair(st.src, i) {
                Some(found) => Some(Construct::Pair(found)),
                None => None,
            },
        }
    } else if c == '`' {
        if index_of(st.src, '`', i + 1, st.src.len() as int) < st.src.len() {
            Some(Construct::CodeStart)
        } else {
            Some(Construct::UnclosedCode)
        }
    } else {
        None
    }
}

/// The kind of the token that `construct` gives at the offset of `st`, and the state behind
/// the token. A function, an image and a link are read whole. A bold token takes two stars
/// and an italic token one. The start of a pair makes the rest of the pair due. An unclosed
/// code span is an error at its backtick.
pub open spec fn emitted(
    st: TokenizerState,
    construct: Construct,
) -> (TokenKindView, TokenizerState) {
    let i = st.offset;
    match construct {
        Construct::Function { name_end, end } => (
            TokenKindView::Function {
                name: st.src.subrange(i + 1, name_end),
                parameters: function_parameters(st.src, name_end),
            },
            st.skip(end - i),
        ),
        Construct::Image { label_end, target_end } => (
            TokenKindView::Image {
                label: st.src.subrange(i + 2, label_end),
                src: st.src.subrange(label_end + 2, target_end),
            },
            st.skip(target_end + 1 - i),
        ),
        Construct::Link { label_end, target_end } => (
            TokenKindView::Link {
                label: st.src.subrange(i + 1, label_end),
                target: st.src.subrange(label_end + 2, target_end),
            },
            st.skip(target_end + 1 - i),
        ),
        Construct::Due(kind) => (
            format_token(kind),
            (TokenizerState { future: not_due_at(st.future, i), ..st }).skip(
                if kind == FormatKind::BoldEnd {
                    2
                } else {
                    1
                },
            ),
        ),
        Construct::Pair(found) => {
            let bold = found[0].token_kind == FormatKind::BoldStart;
            (
                if bold {
                    TokenKindView::BoldStart
                } else {
                    TokenKindView::ItalicStart
                },
                (TokenizerState { future: st.future + found.skip(1), ..st }).skip(
                    if bold {
                        2
                    } else {
                        1
                    },
                ),
            )
        },
        Construct::CodeStart => (TokenKindView::CodeStart, TokenizerState { in_code: true, ..st.step() }),
        Construct::UnclosedCode => (
            TokenKindView::Error {
                message: "Could not find closing backtick"@,
                source_position: st.position,
            },
            st.step(),
        ),
    }
}

/// The next token and the state behind it, for a tokenizer in state `st` that began this
/// token at `start`, has gathered the text `buf` for it and, if `escaped`, has just read a
/// backslash. `None` once the text is used up.
///
/// A backslash makes the next character text. Inside a code span everything is text up to the
/// closing backtick. Elsewhere a space, a tab or a line feed becomes one space, and none
/// where the text gathered so far ends with a space. Where something else than text starts,
/// the text gathered so far is given out first, and the state stays in front of it.
pub open spec fn scan(st: TokenizerState, start: SourcePosition, buf: Seq<char>, escaped: bool) -> (
    Option<TokenView>,
    TokenizerState,
)
    decreases st.src.len() - st.offset,
{
    let text = Some(token(TokenKindView::Text(buf), start, st.position));
    if st.offset < 0 || st.offset >= st.src.len() {
        if buf.len() == 0 {
            (None, st)
        } else {
            (text, st)
        }
    } else {
        let c = st.src[st.offset];
        if escaped {
            scan(st.step(), start, buf.push(c), false)
        } else if st.in_code {
            if st.code_end_pending {
                (
                    Some(token(TokenKindView::CodeEnd, start, st.step().position)),
                    TokenizerState { in_code: false, code_end_pending: false, ..st.step() },
                )
            } else if c == '`' {
                (text, TokenizerState { code_end_pending: true, ..st })
            } else {
                scan(st.step(), start, buf.push(c), false)
            }
        } else if c == '\\' {
            scan(st.step(), start, buf, true)
        } else if c == ' ' || c == '\t' || c == '\n' {
            scan(st.step(), start, with_space(buf), false)
        } else {
            match construct_at(st) {
                Some(construct) => if buf.len() > 0 {
                    (text, st)
                } else {
                    let (kind, end) = emitted(st, construct);
                    (Some(token(kind, start, end.position)), end)
                },
                None => scan(st.step(), start, buf.push(c), false),
            }
        }
    }
}

/// The next token of a tokenizer in state `st`, and the state behind it.
pub open spec fn next_token(st: TokenizerState) -> (Option<TokenView>, TokenizerState) {
    scan(st, st.position, Seq::<char>::empty(), false)
}

/// The first `limit` tokens that a tokenizer in state `st` gives out, up to the end of the
/// text.
pub open spec fn tokens_from(st: TokenizerState, limit: nat) -> Seq<TokenView>
    decreases limit,
{
    if limit == 0 {
        Seq::<TokenView>::empty()
    } else {
        match next_token(st).0 {
            Some(t) => seq![t] + tokens_from(next_token(st).1, (limit - 1) as nat),
            None => Seq::<TokenView>::empty(),
        }
    }
}

/// The state in which a tokenizer starts on `src` at `start`.
pub open spec fn initial_state(src: Seq<char>, start: SourcePosition) -> TokenizerState {
    TokenizerState {
        src: without_cr(src),
        offset: 0,
        position: start,
        last: start,
        in_code: false,
        code_end_pending: false,
        future: Seq::<FutureToken>::empty(),
    }
}

/// All the tokens of the text `src` that starts at `start`.
pub open spec fn tokens_of(src: Seq<char>, start: SourcePosition) -> Seq<TokenView> {
    let st = initial_state(src, start);
    tokens_from(st, st.steps_left() as nat)
}

/// What was found to start at the offset of a tokenizer, with the indices that say where it
/// ends.
enum Detected {
    Function { name_end: usize, end: usize },
    Image { label_end: usize, target_end: usize },
    Link { label_end: usize, target_end: usize },
    Due(FormatKind),
    Pair(Vec<FutureToken>),
    CodeStart,
    UnclosedCode,
}

impl View for Detected {
    type V = Construct;

    closed spec fn view(&self) -> Construct {
        match self {
            Detected::Function { name_end, end } => Construct::Function {
                name_end: *name_end as int,
                end: *end as int,
            },
            Detected::Image { label_end, target_end } => Construct::Image {
                label_end: *label_end as int,
                target_end: *target_end as int,
            },
            Detected::Link { label_end, target_end } => Construct::Link {
                label_end: *label_end as int,
                target_end: *target_end as int,
            },
            Detected::Due(kind) => Construct::Due(*kind),
            Detected::Pair(found) => Construct::Pair(found@),
            Detected::CodeStart => Construct::CodeStart,
            Detected::UnclosedCode => Construct::UnclosedCode,
        }
    }
}

impl Detected {
    /// The indices lie in the text behind the offset of `st`, and a pair is not empty.
    closed spec fn fits(&self, st: TokenizerState) -> bool {
        match self {
            Detected::Function { name_end, end } => st.offset + 1 < *name_end < *end
                <= st.src.len(),
            Detected::Image { label_end, target_end } => st.offset + 2 < *label_end
                && *label_end + 2 < *target_end < st.src.len(),
            Detected::Link { label_end, target_end } => st.offset + 1 < *label_end
                && *label_end + 2 < *target_end < st.src.len(),
            Detected::Pair(found) => found@.len() >= 1,
            _ => true,
        }
    }
}

/// Splits inline text into tokens.
pub struct Tokenizer {
    src: Vec<char>,
    offset: usize,
    offset_source_position: SourcePosition,
    last_char_source_position: SourcePosition,
    is_in_code_emphasis: bool,
    next_token_is_code_emphasis: bool,
    future_closing_formatting_tokens: Vec<FutureToken>,
}

impl View for Tokenizer {
    type V = TokenizerState;

    closed spec fn view(&self) -> TokenizerState {
        TokenizerState {
            src: self.src@,
            offset: self.offset as int,
            position: self.offset_source_position,
            last: self.last_char_source_position,
            in_code: self.is_in_code_emphasis,
            code_end_pending: self.next_token_is_code_emphasis,
            future: self.future_closing_formatting_tokens@,
        }
    }
}

impl Tokenizer {
    /// The offset is inside the text, the line and column numbers of the rest of the text
    /// are in the range of `usize`, and the end of a code span is due only inside one.
    pub open spec fn wf(&self) -> bool {
        &&& 0 <= self@.offset <= self@.src.len()
        &&& self@.position.has_room(self@.src.len() - self@.offset)
        &&& self@.code_end_pending ==> self@.in_code
    }

    /// A tokenizer for `src`, whose first character stands at the start of `span`.
    pub fn new(src: String, span: SourceSpan) -> (t: Self)
        requires
            span.start.has_room(src@.len() as int),
        ensures
            t.wf(),
            t@ == initial_state(src@, span.start),
    {
        let chars = to_chars(src.as_str());
        let stripped = strip_cr(&chars);
        Self {
            src: stripped,
            offset: 0,
            offset_source_position: span.start,
            last_char_source_position: span.start,
            is_in_code_emphasis: false,
            next_token_is_code_emphasis: false,
            future_closing_formatting_tokens: Vec::new(),
        }
    }

    /// The position of the character that is read next.
    pub fn next_char_source_position(&self) -> (p: SourcePosition)
        ensures
            p == self@.position,
    {
        self.offset_source_position
    }

    /// The position of the character that was read last; the start of the text where none
    /// was read.
    pub fn last_char_source_position(&self) -> (p: SourcePosition)
        ensures
            p == self@.last,
    {
        self.last_char_source_position
    }

    /// How many characters were read.
    pub fn offset(&self) -> (n: usize)
        ensures
            n == self@.offset,
    {
        self.offset
    }

    /// Reads one character.
    fn read_char(&mut self)
        requires
            old(self).wf(),
            old(self)@.offset < old(self)@.src.len(),
        ensures
            final(self).wf(),
            final(self)@ == old(self)@.step(),
    {
        let c = self.src[self.offset];
        assert(self.offset < self.src.len());
        let next = self.offset + 1;
        self.last_char_source_position = self.offset_source_position;
        self.offset_source_position = self.offset_source_position.step(c);
        self.offset = next;
    }

    /// Reads `count` characters, or the rest of the text if that is less.
    fn ignore_next_chars(&mut self, count: usize)
        requires
            old(self).wf(),
        ensures
            final(self).wf(),
            final(self)@ == old(self)@.skip(count as int),
            final(self)@.offset >= old(self)@.offset,
            count > 0 && old(self)@.offset < old(self)@.src.len() ==> final(self)@.offset > old(
                self,
            )@.offset,
            final(self)@.src == old(self)@.src,
            final(self)@.in_code == old(self)@.in_code,
            final(self)@.code_end_pending == old(self)@.code_end_pending,
            final(self)@.future == old(self)@.future,
    {
        let mut left: usize = count;
        while left > 0 && self.offset < self.src.len()
            invariant
                self.wf(),
                self@.skip(left as int) == old(self)@.skip(count as int),
                self@.offset >= old(self)@.offset,
                left < count ==> self@.offset > old(self)@.offset,
                left <= count,
                self@.src == old(self)@.src,
                self@.in_code == old(self)@.in_code,
                self@.code_end_pending == old(self)@.code_end_pending,
                self@.future == old(self)@.future,
            decreases left,
        {
            self.read_char();
            left -= 1;
        }
    }

    /// The first future token due at `offset`.
    fn find_due(&self, offset: usize) -> (r: Option<FormatKind>)
        ensures
            r == due_at(self@.future, offset as int),
    {
        let mut i: usize = 0;
        assert(self@.future.skip(0) =~= self@.future);
        while i < self.future_closing_formatting_tokens.len()
            invariant
                i <= self@.future.len(),
                due_at(self@.future, offset as int) == due_at(
                    self@.future.skip(i as int),
                    offset as int,
                ),
            decreases self.future_closing_formatting_tokens.len() - i,
        {
            assert(self@.future.skip(i as int).drop_first() =~= self@.future.skip(i + 1));
            if self.future_closing_formatting_tokens[i].offset == offset {
                return Some(self.future_closing_formatting_tokens[i].token_kind);
            }
            i += 1;
        }
        None
    }

    /// Drops the future tokens due at `offset`.
    fn drop_due(&mut self, offset: usize)
        ensures
            final(self)@ == (TokenizerState {
                future: not_due_at(old(self)@.future, offset as int),
                ..old(self)@
            }),
    {
        let mut kept: Vec<FutureToken> = Vec::new();
        let mut i: usize = 0;
        while i < self.future_closing_formatting_tokens.len()
            invariant
                i <= self@.future.len(),
                *self == *old(self),
                kept@ == not_due_at(self@.future.take(i as int), offset as int),
            decreases self.future_closing_formatting_tokens.len() - i,
        {
            let t = self.future_closing_formatting_tokens[i];
            assert(self@.future.take(i + 1).drop_last() =~= self@.future.take(i as int));
            if t.offset != offset {
                kept.push(t);
            }
            i += 1;
        }
        assert(self@.future.take(i as int) =~= self@.future);
        self.future_closing_formatting_tokens = kept;
    }

    /// Makes the tokens of `found` behind its first one due.
    fn add_due(&mut self, found: &Vec<FutureToken>)
        requires
            found@.len() >= 1,
        ensures
            final(self)@ == (TokenizerState {
                future: old(self)@.future + found@.skip(1),
                ..old(self)@
            }),
    {
        let mut k: usize = 1;
        assert(self@.future + found@.subrange(1, 1) =~= self@.future);
        while k < found.len()
            invariant
                1 <= k <= found.len(),
                self@ == (TokenizerState {
                    future: old(self)@.future + found@.subrange(1, k as int),
                    ..old(self)@
                }),
            decreases found.len() - k,
        {
            self.future_closing_formatting_tokens.push(found[k]);
            assert(old(self)@.future + found@.subrange(1, k + 1) =~= (old(self)@.future
                + found@.subrange(1, k as int)).push(found@[k as int]));
            k += 1;
        }
        assert(found@.subrange(1, found.len() as int) =~= found@.skip(1));
    }

    /// What starts at the offset.
    fn detect(&self) -> (r: Option<Detected>)
        requires
            self.wf(),
            self@.offset < self@.src.len(),
        ensures
            match r {
                Some(d) => construct_at(self@) == Some(d@) && d.fits(self@),
                None => construct_at(self@).is_none(),
            },
    {
        let i = self.offset;
        let c = self.src[i];
        assert(i < self.src.len());
        if c == '#' {
            match find_function(&self.src, i) {
                Some((name_end, end)) => Some(Detected::Function { name_end, end }),
                None => None,
            }
        } else if c == '!' {
            if i + 1 < self.src.len() {
                match find_link(&self.src, i + 1) {
                    Some((label_end, target_end)) => Some(Detected::Image { label_end, target_end }),
                    None => None,
                }
            } else {
                None
            }
        } else if c == '[' {
            match find_link(&self.src, i) {
                Some((label_end, target_end)) => Some(Detected::Link { label_end, target_end }),
                None => None,
            }
        } else if c == '*' {
            match self.find_due(i) {
                Some(kind) => Some(Detected::Due(kind)),
                None => match find_formatting_pair(&self.src, i) {
                    Some(found) => Some(Detected::Pair(found)),
                    None => None,
                },
            }
        } else if c == '`' {
            if find_char(&self.src, '`', i + 1, self.src.len()) < self.src.len() {
                Some(Detected::CodeStart)
            } else {
                Some(Detected::UnclosedCode)
            }
        } else {
            None
        }
    }

    /// Reads what was detected at the offset and gives the kind of its token.
    fn emit(&mut self, detected: Detected) -> (kind: TokenKind)
        requires
            old(self).wf(),
            old(self)@.offset < old(self)@.src.len(),
            detected.fits(old(self)@),
        ensures
            final(self).wf(),
            (kind@, final(self)@) == emitted(old(self)@, detected@),
            final(self)@.offset > old(self)@.offset,
            final(self)@.src == old(self)@.src,
            final(self)@.code_end_pending == old(self)@.code_end_pending,
    {
        let i = self.offset;
        match detected {
            Detected::Function { name_end, end } => {
                let name = to_string(&self.src, i + 1, name_end);
                let parameters = read_function_parameters(&self.src, name_end);
                self.ignore_next_chars(end - i);
                TokenKind::Function { name, parameters }
            },
            Detected::Image { label_end, target_end } => {
                let label = to_string(&self.src, i + 2, label_end);
                let src = to_string(&self.src, label_end + 2, target_end);
                self.ignore_next_chars(target_end - i + 1);
                TokenKind::Image { label, src }
            },
            Detected::Link { label_end, target_end } => {
                let label = to_string(&self.src, i + 1, label_end);
                let target = to_string(&self.src, label_end + 2, target_end);
                self.ignore_next_chars(target_end - i + 1);
                TokenKind::Link { label, target }
            },
            Detected::Due(kind) => {
                self.drop_due(i);
                if kind == FormatKind::BoldEnd {
                    self.ignore_next_chars(2);
                } else {
                    self.ignore_next_chars(1);
                }
                match kind {
                    FormatKind::BoldStart => TokenKind::BoldStart,
                    FormatKind::BoldEnd => TokenKind::BoldEnd,
                    FormatKind::ItalicStart => TokenKind::ItalicStart,
                    FormatKind::ItalicEnd => TokenKind::ItalicEnd,
                }
            },
            Detected::Pair(found) => {
                let bold = found[0].token_kind == FormatKind::BoldStart;
                self.add_due(&found);
                if bold {
                    self.ignore_next_chars(2);
                    TokenKind::BoldStart
                } else {
                    self.ignore_next_chars(1);
                    TokenKind::ItalicStart
                }
            },
            Detected::CodeStart => {
                self.read_char();
                self.is_in_code_emphasis = true;
                TokenKind::CodeStart
            },
            Detected::UnclosedCode => {
                let at = self.offset_source_position;
                self.read_char();
                TokenKind::Error {
                    message: String::from_str("Could not find closing backtick"),
                    source_position: at,
                }
            },
        }
    }

    /// The next token, or `None` at the end of the text.
    pub fn next(&mut self) -> (r: Option<Token>)
        requires
            old(self).wf(),
        ensures
            final(self).wf(),
            final(self)@ == next_token(old(self)@).1,
            match r {
                Some(t) => next_token(old(self)@).0 == Some(t@) && final(self)@.steps_left() < old(
                    self,
                )@.steps_left(),
                None => next_token(old(self)@).0.is_none(),
            },
            final(self)@.src == old(self)@.src,
    {
        let start = self.offset_source_position;
        let mut buf: Vec<char> = Vec::new();
        let mut escaped = false;
        loop
            invariant
                self.wf(),
                self@.src == old(self)@.src,
                self@.offset >= old(self)@.offset,
                buf@.len() > 0 ==> self@.offset > old(self)@.offset,
                self@.code_end_pending == old(self)@.code_end_pending,
                self@.in_code == old(self)@.in_code,
                start == old(self)@.position,
                scan(self@, start, buf@, escaped) == next_token(old(self)@),
            decreases self@.src.len() - self@.offset,
        {
            if self.offset >= self.src.len() {
                if buf.len() == 0 {
                    return None;
                }
                return Some(self.text_token(&buf, start));
            }
            let c = self.src[self.offset];
            if escaped {
                escaped = false;
                buf.push(c);
                self.read_char();
            } else if self.is_in_code_emphasis {
                if self.next_token_is_code_emphasis {
                    self.read_char();
                    self.next_token_is_code_emphasis = false;
                    self.is_in_code_emphasis = false;
                    return Some(
                        Token::new(
                            TokenKind::CodeEnd,
                            SourceSpan::new(start, self.offset_source_position),
                        ),
                    );
                }
                if c == '`' {
                    let t = self.text_token(&buf, start);
                    self.next_token_is_code_emphasis = true;
                    return Some(t);
                }
                buf.push(c);
                self.read_char();
            } else if c == '\\' {
                escaped = true;
                self.read_char();
            } else if c == ' ' || c == '\t' || c == '\n' {
                if !(buf.len() > 0 && buf[buf.len() - 1] == ' ') {
                    buf.push(' ');
                }
                self.read_char();
            } else {
                match self.detect() {
                    Some(detected) => {
                        if buf.len() > 0 {
                            return Some(self.text_token(&buf, start));
                        }
                        let kind = self.emit(detected);
                        return Some(
                            Token::new(kind, SourceSpan::new(start, self.offset_source_position)),
                        );
                    },
                    None => {
                        buf.push(c);
                        self.read_char();
                    },
                }
            }
        }
    }

    /// The text token for the gathered text `buf`, from `start` to the current position.
    fn text_token(&self, buf: &Vec<char>, start: SourcePosition) -> (t: Token)
        ensures
            t@ == token(TokenKindView::Text(buf@), start, self@.position),
    {
        Token::new(
            TokenKind::Text(whole_string(buf)),
            SourceSpan::new(start, self.offset_source_position),
        )
    }
}

/// Text without tabs, line feeds and carriage returns, and without two spaces in a row.
pub open spec fn is_tidy(text: Seq<char>) -> bool
    decreases text.len(),
{
    text.len() == 0 || (is_tidy(text.drop_last()) && text.last() != '\t' && text.last() != '\n'
        && text.last() != '\r' && !(text.last() == ' ' && text.len() >= 2 && text[text.len() - 2]
        == ' '))
}

/// Whether `c` is a character that the tokenizer reads as white space.
pub open spec fn is_gap(c: char) -> bool {
    c == ' ' || c == '\t' || c == '\n'
}

/// Text in which no white space is escaped: no backslash stands in front of a space, a tab or
/// a line feed.
pub open spec fn escapes_no_gap(text: Seq<char>) -> bool {
    forall|i: int|
        0 < i < text.len() && text[i - 1] == '\\' ==> !is_gap(#[trigger] text[i])
}

pub open spec fn has_no_cr(text: Seq<char>) -> bool {
    forall|i: int| 0 <= i < text.len() ==> #[trigger] text[i] != '\r'
}

/// Leaving out the carriage returns leaves none.
pub proof fn lemma_without_cr_has_none(text: Seq<char>)
    ensures
        has_no_cr(without_cr(text)),
    decreases text.len(),
{
    if text.len() > 0 {
        lemma_without_cr_has_none(text.drop_last());
    }
}

/// Reading characters changes neither the text nor what is known of code spans.
pub proof fn lemma_skip_keeps(st: TokenizerState, n: int)
    ensures
        st.skip(n).src == st.src,
        st.skip(n).in_code == st.in_code,
        st.skip(n).code_end_pending == st.code_end_pending,
        st.skip(n).future == st.future,
        st.offset <= st.skip(n).offset,
    decreases n,
{
    if n > 0 && 0 <= st.offset < st.src.len() {
        lemma_skip_keeps(st.step(), n - 1);
    }
}

/// The text of a code span is being read: the span was opened, and its text was not given
/// out yet.
pub open spec fn code_open(st: TokenizerState) -> bool {
    st.in_code && !st.code_end_pending
}

/// What holds of the state of a tokenizer between two tokens, where `opened` says whether
/// the last token started a code span: the end of a code span is due only inside one, and
/// the text of a code span is read only behind the token that started it and in front of
/// the backtick that ends it.
pub open spec fn between_tokens(st: TokenizerState, opened: bool) -> bool {
    &&& 0 <= st.offset
    &&& st.code_end_pending ==> st.in_code
    &&& code_open(st) ==> opened && index_of(st.src, '`', st.offset, st.src.len() as int)
        < st.src.len()
}

/// Outside a code span, the next text token is tidy where no white space is escaped; and the
/// text of a code span is read next only where the token starts a code span.
pub proof fn lemma_scan_tidy(st: TokenizerState, start: SourcePosition, buf: Seq<char>, escaped: bool)
    requires
        escapes_no_gap(st.src),
        has_no_cr(st.src),
        0 <= st.offset,
        !st.in_code,
        !st.code_end_pending,
        is_tidy(buf),
        escaped ==> st.offset > 0 && st.src[st.offset - 1] == '\\',
    ensures
        scan(st, start, buf, escaped).1.src == st.src,
        scan(st, start, buf, escaped).0 matches Some(t) ==> (t.kind matches TokenKindView::Text(x)
            ==> is_tidy(x)),
        scan(st, start, buf, escaped).0 matches Some(t) ==> between_tokens(
            scan(st, start, buf, escaped).1,
            t.kind is CodeStart,
        ),
    decreases st.src.len() - st.offset,
{
    if 0 <= st.offset < st.src.len() {
        let c = st.src[st.offset];
        if escaped {
            assert(buf.push(c).drop_last() =~= buf);
            lemma_scan_tidy(st.step(), start, buf.push(c), false);
        } else if c == '\\' {
            lemma_scan_tidy(st.step(), start, buf, true);
        } else if c == ' ' || c == '\t' || c == '\n' {
            let next = with_space(buf);
            if !(buf.len() > 0 && buf.last() == ' ') {
                assert(next.drop_last() =~= buf);
            }
            lemma_scan_tidy(st.step(), start, next, false);
        } else {
            match construct_at(st) {
                Some(construct) => {
                    if buf.len() == 0 {
                        let i = st.offset;
                        match construct {
                            Construct::Function { name_end, end } => {
                                lemma_skip_keeps(st, end - i);
                            },
                            Construct::Image { label_end, target_end } => {
                                lemma_skip_keeps(st, target_end + 1 - i);
                            },
                            Construct::Link { label_end, target_end } => {
                                lemma_skip_keeps(st, target_end + 1 - i);
                            },
                            Construct::Due(kind) => {
                                lemma_skip_keeps(
                                    TokenizerState { future: not_due_at(st.future, i), ..st },
                                    if kind == FormatKind::BoldEnd {
                                        2
                                    } else {
                                        1
                                    },
                                );
                            },
                            Construct::Pair(found) => {
                                lemma_skip_keeps(
                                    TokenizerState { future: st.future + found.skip(1), ..st },
                                    if found[0].token_kind == FormatKind::BoldStart {
                                        2
                                    } else {
                                        1
                                    },
                                );
                            },
                            _ => {},
                        }
                    }
                },
                None => {
                    assert(buf.push(c).drop_last() =~= buf);
                    lemma_scan_tidy(st.step(), start, buf.push(c), false);
                },
            }
        }
    }
}

/// Where no white space is escaped, every text token is tidy but the text of a code span,
/// which stands behind the token that starts the span.
pub proof fn lemma_tokens_tidy(st: TokenizerState, opened: bool, limit: nat, i: int)
    requires
        escapes_no_gap(st.src),
        has_no_cr(st.src),
        between_tokens(st, opened),
        0 <= i < tokens_from(st, limit).len(),
    ensures
        tokens_from(st, limit)[i].kind matches TokenKindView::Text(x) ==> (if i == 0 {
            opened
        } else {
            tokens_from(st, limit)[i - 1].kind is CodeStart
        }) || is_tidy(x),
    decreases limit,
{
    if limit > 0 {
        let first = next_token(st).0.unwrap();
        let next = next_token(st).1;
        if code_open(st) {
            lemma_scan_code(st, st.position, Seq::<char>::empty());
        } else if st.in_code {
            if 0 <= st.offset < st.src.len() {
            }
        } else {
            lemma_scan_tidy(st, st.position, Seq::<char>::empty(), false);
        }
        if i > 0 {
            assert(between_tokens(next, first.kind is CodeStart));
            lemma_tokens_tidy(next, first.kind is CodeStart, (limit - 1) as nat, i - 1);
            let rest = tokens_from(next, (limit - 1) as nat);
            assert(tokens_from(st, limit)[i] == rest[i - 1]);
            if i > 1 {
                assert(tokens_from(st, limit)[i - 1] == rest[i - 2]);
            }
        }
    }
}

/// White space collapses. In the tokens of a text no text holds a tab, a line feed or a
/// carriage return, nor two spaces in a row; but for the text of a code span, which stands
/// behind the token that starts the span, and where no white space is escaped: in the text
/// without its carriage returns no backslash stands in front of a space, a tab or a line
/// feed.
pub proof fn lemma_texts_are_tidy(src: Seq<char>, start: SourcePosition, i: int)
    requires
        escapes_no_gap(without_cr(src)),
        0 <= i < tokens_of(src, start).len(),
    ensures
        tokens_of(src, start)[i].kind matches TokenKindView::Text(x) ==> (i > 0 && tokens_of(
            src,
            start,
        )[i - 1].kind is CodeStart) || is_tidy(x),
{
    let st = initial_state(src, start);
    lemma_without_cr_has_none(src);
    lemma_tokens_tidy(st, false, st.steps_left() as nat, i);
}

/// Inside a code span, the text of the span runs up to the backtick that closes it.
pub proof fn lemma_scan_code(st: TokenizerState, start: SourcePosition, buf: Seq<char>)
    requires
        st.in_code,
        !st.code_end_pending,
        0 <= st.offset,
        index_of(st.src, '`', st.offset, st.src.len() as int) < st.src.len(),
    ensures
        scan(st, start, buf, false).0 matches Some(t) && t.kind is Text,
        scan(st, start, buf, false).1.in_code,
        scan(st, start, buf, false).1.code_end_pending,
        scan(st, start, buf, false).1.src == st.src,
        0 <= scan(st, start, buf, false).1.offset < st.src.len(),
        st.offset <= scan(st, start, buf, false).1.offset,
    decreases st.src.len() - st.offset,
{
    if st.offset < st.src.len() && st.src[st.offset] != '`' {
        lemma_scan_code(st.step(), start, buf.push(st.src[st.offset]));
    }
}

/// Code spans are balanced: a token that starts a code span is followed by the text of the
/// span and by the token that ends it.
pub proof fn lemma_code_span_closes(st: TokenizerState)
    requires
        0 <= st.offset,
        st.code_end_pending ==> st.in_code,
        next_token(st).0 matches Some(t) && t.kind is CodeStart,
    ensures
        next_token(next_token(st).1).0 matches Some(t) && t.kind is Text,
        next_token(next_token(next_token(st).1).1).0 matches Some(t) && t.kind is CodeEnd,
        !next_token(next_token(next_token(st).1).1).1.in_code,
{
    lemma_first_is_code_start(st, st.position, Seq::<char>::empty(), false);
    let opened = next_token(st).1;
    lemma_scan_code(opened, opened.position, Seq::<char>::empty());
}

/// A token that starts a code span is given out for the backtick at the offset, which another
/// backtick follows.
proof fn lemma_first_is_code_start(
    st: TokenizerState,
    start: SourcePosition,
    buf: Seq<char>,
    escaped: bool,
)
    requires
        0 <= st.offset,
        st.code_end_pending ==> st.in_code,
        scan(st, start, buf, escaped).0 matches Some(t) && t.kind is CodeStart,
    ensures
        buf.len() == 0 ==> !escaped && scan(st, start, buf, escaped).1 == (TokenizerState {
            in_code: true,
            ..st.step()
        }) && !st.in_code && st.offset < st.src.len() && index_of(
            st.src,
            '`',
            st.offset + 1,
            st.src.len() as int,
        ) < st.src.len(),
        buf.len() > 0 ==> false,
    decreases st.src.len() - st.offset,
{
    if 0 <= st.offset < st.src.len() {
        let c = st.src[st.offset];
        if escaped {
            lemma_first_is_code_start(st.step(), start, buf.push(c), false);
        } else if st.in_code {
            if !st.code_end_pending && c != '`' {
                lemma_first_is_code_start(st.step(), start, buf.push(c), false);
            }
        } else if c == '\\' {
            lemma_first_is_code_start(st.step(), start, buf, true);
        } else if c == ' ' || c == '\t' || c == '\n' {
            lemma_first_is_code_start(st.step(), start, with_space(buf), false);
        } else {
            match construct_at(st) {
                Some(construct) => {},
                None => {
                    lemma_first_is_code_start(st.step(), start, buf.push(c), false);
                },
            }
        }
    }
}

} // verus!
