//! The parser of inline text: folds the tokens of a text into a text tree.

use vstd::prelude::*;
use crate::arena::{registered, root_only};
use crate::block::{
    ParseError, ParseResult, ParsedBlock, ParsedBlockKind, ParsedBlockKindView, ParsedBlockView,
    TextBlock, TextNodes,
};
use crate::source_position::SourcePosition;
use crate::source_span::SourceSpan;
use crate::text_tree::{TextItem, TextNodeKind, TextNodeKindView, TextTree};
use crate::token::{TokenKind, TokenKindView, TokenView};
use crate::tokenizer::{initial_state, tokens_from, Tokenizer, TokenizerState};

verus! {

/// A text tree that is being built: its nodes, and the ids of the nodes that are open, the
/// root first and the node that takes the next child last.
pub struct Folding {
    pub nodes: TextNodes,
    pub open: Seq<usize>,
}

/// An error as a message and a position.
pub struct Failure {
    pub message: Seq<char>,
    pub source_position: SourcePosition,
}

pub open spec fn text_item(kind: TextNodeKindView, span: SourceSpan) -> TextItem {
    TextItem { kind, span }
}

/// The folding after one more token, which is no error. A text and a function become a child
/// of the node that is open; so do a link and an image, with their label as a text below
/// them. The start of bold, italic or code becomes a child and is open from then on; the end
/// closes the node that is open, but never the root.
pub open spec fn fold_token(f: Folding, t: TokenView) -> Folding {
    let parent = f.open.last() as int;
    let id = f.nodes.len() as usize;
    match t.kind {
        TokenKindView::Error { .. } => f,
        TokenKindView::Text(src) => Folding {
            nodes: registered(f.nodes, parent, text_item(TextNodeKindView::Text { src }, t.span)),
            ..f
        },
        TokenKindView::Link { label, target } => Folding {
            nodes: registered(
                registered(f.nodes, parent, text_item(TextNodeKindView::Link { target }, t.span)),
                id as int,
                text_item(TextNodeKindView::Text { src: label }, t.span),
            ),
            ..f
        },
        TokenKindView::Image { label, src } => Folding {
            nodes: registered(
                registered(f.nodes, parent, text_item(TextNodeKindView::Image { src }, t.span)),
                id as int,
                text_item(TextNodeKindView::Text { src: label }, t.span),
            ),
            ..f
        },
        TokenKindView::Function { name, parameters } => Folding {
            nodes: registered(
                f.nodes,
                parent,
                text_item(TextNodeKindView::Function { name, parameters }, t.span),
            ),
            ..f
        },
        TokenKindView::BoldStart => Folding {
            nodes: registered(f.nodes, parent, text_item(TextNodeKindView::Bold, t.span)),
            open: f.open.push(id),
        },
        TokenKindView::ItalicStart => Folding {
            nodes: registered(f.nodes, parent, text_item(TextNodeKindView::Italic, t.span)),
            open: f.open.push(id),
        },
        TokenKindView::CodeStart => Folding {
            nodes: registered(f.nodes, parent, text_item(TextNodeKindView::Code, t.span)),
            open: f.open.push(id),
        },
        _ => Folding {
            open: if f.open.len() > 1 {
                f.open.drop_last()
            } else {
                f.open
            },
            ..f
        },
    }
}

/// The folding after all of `tokens`, or the first error among them.
pub open spec fn fold_tokens(f: Folding, tokens: Seq<TokenView>) -> Result<Folding, Failure>
    decreases tokens.len(),
{
    if tokens.len() == 0 {
        Ok(f)
    } else {
        match tokens[0].kind {
            TokenKindView::Error { message, source_position } => Err(
                Failure { message, source_position },
            ),
            _ => fold_tokens(fold_token(f, tokens[0]), tokens.drop_first()),
        }
    }
}

/// The text tree of the tokens that a tokenizer in state `st` gives out, under a root that
/// stands for `span`; or the first error among the tokens.
pub open spec fn text_from(st: TokenizerState, span: SourceSpan) -> Result<TextNodes, Failure> {
    match fold_tokens(
        Folding {
            nodes: root_only(text_item(TextNodeKindView::Root, span)),
            open: seq![0usize],
        },
        tokens_from(st, st.steps_left() as nat),
    ) {
        Ok(f) => Ok(f.nodes),
        Err(e) => Err(e),
    }
}

/// The text tree of the text `src` that stands at `span`, or the first error in it.
pub open spec fn text_of(src: Seq<char>, span: SourceSpan) -> Result<TextNodes, Failure> {
    text_from(initial_state(src, span.start), span)
}

/// Whether `r` is the outcome `expected` of parsing a text: the tree with these nodes, or the
/// error with this message at this position.
pub open spec fn is_text_outcome(
    r: Result<TextTree, ParseError>,
    expected: Result<TextNodes, Failure>,
) -> bool {
    match r {
        Ok(tree) => expected == Ok::<TextNodes, Failure>(tree@) && tree.wf(),
        Err(e) => expected == Err::<TextNodes, Failure>(
            Failure { message: e.message@, source_position: e.source_position },
        ),
    }
}

/// Whether `r` is the outcome `expected` of parsing a block: the block with this view, or
/// the error with this message at this position.
pub open spec fn is_block_outcome(
    r: ParseResult<ParsedBlock>,
    expected: Result<ParsedBlockView, Failure>,
) -> bool {
    match r {
        Ok(block) => expected == Ok::<ParsedBlockView, Failure>(block@) && block.wf(),
        Err(e) => expected == Err::<ParsedBlockView, Failure>(
            Failure { message: e.message@, source_position: e.source_position },
        ),
    }
}

/// The block of text with the text `src` at `span`.
pub open spec fn parsed_text(src: Seq<char>, span: SourceSpan) -> Result<ParsedBlockView, Failure> {
    match text_of(src, span) {
        Ok(nodes) => Ok(ParsedBlockView { kind: ParsedBlockKindView::Text(nodes), span }),
        Err(e) => Err(e),
    }
}

/// Parses the text `src` at `span` into a block of text.
pub fn parse_text_block(src: String, span: SourceSpan) -> (r: ParseResult<ParsedBlock>)
    requires
        span.start.has_room(src@.len() as int),
    ensures
        is_block_outcome(r, parsed_text(src@, span)),
{
    match parse_text(src, span) {
        Ok(tree) => Ok(ParsedBlock::new(ParsedBlockKind::Text(TextBlock::new(tree)), span)),
        Err(e) => Err(e),
    }
}

/// Parses a block of text.
pub struct TextParser {
    tokenizer: Tokenizer,
    tree: TextTree,
}

impl TextParser {
    /// The state of the tokenizer.
    pub closed spec fn state(&self) -> TokenizerState {
        self.tokenizer@
    }

    /// The region that the text stands for.
    pub closed spec fn span(&self) -> SourceSpan {
        self.tree@[0].item.span
    }

    /// The tokenizer is well formed, and the tree holds its root alone.
    pub closed spec fn wf(&self) -> bool {
        &&& self.tokenizer.wf()
        &&& self.tree.wf()
        &&& self.tree@ == root_only(text_item(TextNodeKindView::Root, self.span()))
    }

    /// A parser for the text `src`, whose first character stands at the start of `span`.
    pub fn new(src: String, span: SourceSpan) -> (p: Self)
        requires
            span.start.has_room(src@.len() as int),
        ensures
            p.wf(),
            p.state() == initial_state(src@, span.start),
            p.span() == span,
    {
        Self { tokenizer: Tokenizer::new(src, span), tree: TextTree::new(span) }
    }

    /// Folds the tokens of the text into a tree.
    fn into_tree(self) -> (r: Result<TextTree, ParseError>)
        requires
            self.wf(),
        ensures
            is_text_outcome(r, text_from(self.state(), self.span())),
    {
        let ghost expected = text_from(self.state(), self.span());
        let mut tokenizer = self.tokenizer;
        let mut tree = self.tree;
        let mut open: Vec<usize> = Vec::new();
        open.push(0);
        assert(open@ =~= seq![0usize]);
        let ghost mut limit: nat = tokenizer@.steps_left() as nat;
        let ghost all = fold_tokens(
            Folding { nodes: tree@, open: open@ },
            tokens_from(tokenizer@, limit),
        );
        loop
            invariant
                tokenizer.wf(),
                tree.wf(),
                open@.len() >= 1,
                forall|k: int| 0 <= k < open@.len() ==> #[trigger] open@[k] < tree@.len(),
                limit >= tokenizer@.steps_left(),
                expected == text_from(self.state(), self.span()),
                expected == (match all {
                    Ok(f) => Ok::<TextNodes, Failure>(f.nodes),
                    Err(e) => Err::<TextNodes, Failure>(e),
                }),
                all == fold_tokens(
                    Folding { nodes: tree@, open: open@ },
                    tokens_from(tokenizer@, limit),
                ),
            decreases tokenizer@.steps_left(),
        {
            let ghost before = tokenizer@;
            let next = tokenizer.next();
            let token = match next {
                None => {
                    return Ok(tree);
                },
                Some(token) => token,
            };
            proof {
                assert(tokens_from(before, limit) =~= seq![token@] + tokens_from(
                    tokenizer@,
                    (limit - 1) as nat,
                ));
                assert((seq![token@] + tokens_from(tokenizer@, (limit - 1) as nat)).drop_first()
                    =~= tokens_from(tokenizer@, (limit - 1) as nat));
                limit = (limit - 1) as nat;
            }
            let parent = open[open.len() - 1];
            let span = *token.span();
            match token.into_kind() {
                TokenKind::Error { message, source_position } => {
                    return Err(ParseError { message, source_position });
                },
                TokenKind::Text(src) => {
                    tree.register_node(parent, TextNodeKind::Text { src }, span);
                },
                TokenKind::Link { label, target } => {
                    let id = tree.register_node(parent, TextNodeKind::Link { target }, span);
                    tree.register_node(id, TextNodeKind::Text { src: label }, span);
                },
                TokenKind::Image { label, src } => {
                    let id = tree.register_node(parent, TextNodeKind::Image { src }, span);
                    tree.register_node(id, TextNodeKind::Text { src: label }, span);
                },
                TokenKind::Function { name, parameters } => {
                    tree.register_node(parent, TextNodeKind::Function { name, parameters }, span);
                },
                TokenKind::BoldStart => {
                    let id = tree.register_node(parent, TextNodeKind::Bold, span);
                    open.push(id);
                },
                TokenKind::ItalicStart => {
                    let id = tree.register_node(parent, TextNodeKind::Italic, span);
                    open.push(id);
                },
                TokenKind::CodeStart => {
                    let id = tree.register_node(parent, TextNodeKind::Code, span);
                    open.push(id);
                },
                TokenKind::BoldEnd | TokenKind::ItalicEnd | TokenKind::CodeEnd => {
                    if open.len() > 1 {
                        open.pop();
                    }
                },
            }
        }
    }

    /// The block of text of the tokens that the tokenizer gives out from now on.
    pub open spec fn block(&self) -> Result<ParsedBlockView, Failure> {
        match text_from(self.state(), self.span()) {
            Ok(nodes) => Ok(
                ParsedBlockView { kind: ParsedBlockKindView::Text(nodes), span: self.span() },
            ),
            Err(e) => Err(e),
        }
    }

    /// Parses the text into a block of text. An error token of the tokenizer ends the parsing
    /// with its message and position.
    pub fn parse(self) -> (r: ParseResult<ParsedBlock>)
        requires
            self.wf(),
        ensures
            is_block_outcome(r, self.block()),
    {
        let span = *self.tree.root().span();
        match self.into_tree() {
            Ok(tree) => {
                Ok(ParsedBlock::new(ParsedBlockKind::Text(TextBlock::new(tree)), span))
            },
            Err(e) => Err(e),
        }
    }
}

/// Parses the text `src` that stands at `span` into a text tree.
pub fn parse_text(src: String, span: SourceSpan) -> (r: Result<TextTree, ParseError>)
    requires
        span.start.has_room(src@.len() as int),
    ensures
        is_text_outcome(r, text_of(src@, span)),
{
    TextParser::new(src, span).into_tree()
}

} // verus!
