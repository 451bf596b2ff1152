//! The tokens of inline text.

use vstd::prelude::*;
use crate::parameters::{Entry, FunctionParameters};
use crate::source_position::SourcePosition;
use crate::source_span::SourceSpan;

verus! {

/// What a token is.
#[derive(Debug, PartialEq)]
pub enum TokenKind {
    Error { message: String, source_position: SourcePosition },
    Text(String),
    Link { label: String, target: String },
    Image { label: String, src: String },
    Function { name: String, parameters: FunctionParameters },
    BoldStart,
    BoldEnd,
    ItalicStart,
    ItalicEnd,
    CodeStart,
    CodeEnd,
}

/// A token kind with its texts as character sequences.
pub enum TokenKindView {
    Error { message: Seq<char>, source_position: SourcePosition },
    Text(Seq<char>),
    Link { label: Seq<char>, target: Seq<char> },
    Image { label: Seq<char>, src: Seq<char> },
    Function { name: Seq<char>, parameters: Seq<Entry> },
    BoldStart,
    BoldEnd,
    ItalicStart,
    ItalicEnd,
    CodeStart,
    CodeEnd,
}

impl View for TokenKind {
    type V = TokenKindView;

    open spec fn view(&self) -> TokenKindView {
        match self {
            TokenKind::Error { message, source_position } => TokenKindView::Error {
                message: message@,
                source_position: *source_position,
            },
            TokenKind::Text(text) => TokenKindView::Text(text@),
            TokenKind::Link { label, target } => TokenKindView::Link {
                label: label@,
                target: target@,
            },
            TokenKind::Image { label, src } => TokenKindView::Image { label: label@, src: src@ },
            TokenKind::Function { name, parameters } => TokenKindView::Function {
                name: name@,
                parameters: parameters@,
            },
            TokenKind::BoldStart => TokenKindView::BoldStart,
            TokenKind::BoldEnd => TokenKindView::BoldEnd,
            TokenKind::ItalicStart => TokenKindView::ItalicStart,
            TokenKind::ItalicEnd => TokenKindView::ItalicEnd,
            TokenKind::CodeStart => TokenKindView::CodeStart,
            TokenKind::CodeEnd => TokenKindView::CodeEnd,
        }
    }
}

/// A token: its kind and the region of the source that it was read from.
#[derive(Debug, PartialEq)]
pub struct Token {
    kind: TokenKind,
    span: SourceSpan,
}

/// A token with its texts as character sequences.
pub struct TokenView {
    pub kind: TokenKindView,
    pub span: SourceSpan,
}

impl View for Token {
    type V = TokenView;

    closed spec fn view(&self) -> TokenView {
        TokenView { kind: self.kind@, span: self.span }
    }
}

impl Token {
    pub fn new(kind: TokenKind, span: SourceSpan) -> (t: Self)
        ensures
            t@ == (TokenView { kind: kind@, span }),
    {
        Self { kind, span }
    }

    pub fn kind(&self) -> (k: &TokenKind)
        ensures
            k@ == self@.kind,
    {
        &self.kind
    }

    pub fn into_kind(self) -> (k: TokenKind)
        ensures
            k@ == self@.kind,
    {
        self.kind
    }

    pub fn span(&self) -> (s: &SourceSpan)
        ensures
            *s == self@.span,
    {
        &self.span
    }
}

} // verus!
