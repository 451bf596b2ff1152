//! Parsed blocks: what the parsers make of the blocks of a document.

use vstd::prelude::*;
use crate::arena::Node;
use crate::list_tree::{ListItem, ListTree};
use crate::parameters::{Entry, FunctionParameters};
use crate::quote_tree::{QuoteItem, QuoteTree};
use crate::source_position::SourcePosition;
use crate::source_span::SourceSpan;
use crate::text_tree::{TextItem, TextTree};

verus! {

/// Why a block could not be parsed, and where.
#[derive(Debug)]
pub struct ParseError {
    pub message: String,
    pub source_position: SourcePosition,
}

pub type ParseResult<T> = Result<T, ParseError>;

/// The nodes of a text tree.
pub type TextNodes = Seq<Node<TextItem>>;

pub type LanguageIdentifier = String;

/// A block of code: the language named behind its opening fence, and the code.
#[derive(Debug)]
pub struct CodeBlock {
    language: Option<LanguageIdentifier>,
    src: String,
}

impl CodeBlock {
    pub closed spec fn spec_language(&self) -> Option<Seq<char>> {
        match self.language {
            Some(l) => Some(l@),
            None => None,
        }
    }

    pub closed spec fn spec_src(&self) -> Seq<char> {
        self.src@
    }

    pub fn new(language: Option<LanguageIdentifier>, src: String) -> (b: Self)
        ensures
            b.spec_language() == match language {
                Some(l) => Some(l@),
                None => None,
            },
            b.spec_src() == src@,
    {
        Self { language, src }
    }

    pub fn language(&self) -> (l: &Option<LanguageIdentifier>)
        ensures
            match l {
                Some(l) => self.spec_language() == Some(l@),
                None => self.spec_language().is_none(),
            },
    {
        &self.language
    }

    pub fn src(&self) -> (s: &str)
        ensures
            s@ == self.spec_src(),
    {
        self.src.as_str()
    }
}

pub type FunctionName = String;

/// A function that stands as a block of its own.
#[derive(Debug)]
pub struct FunctionBlock {
    name: FunctionName,
    parameters: FunctionParameters,
}

impl FunctionBlock {
    pub closed spec fn spec_name(&self) -> Seq<char> {
        self.name@
    }

    pub closed spec fn spec_parameters(&self) -> Seq<Entry> {
        self.parameters@
    }

    pub fn new(name: FunctionName, parameters: FunctionParameters) -> (b: Self)
        ensures
            b.spec_name() == name@,
            b.spec_parameters() == parameters@,
    {
        Self { name, parameters }
    }

    pub fn name(&self) -> (s: &str)
        ensures
            s@ == self.spec_name(),
    {
        self.name.as_str()
    }

    pub fn parameters(&self) -> (p: &FunctionParameters)
        ensures
            p@ == self.spec_parameters(),
    {
        &self.parameters
    }
}

/// A heading: its level, from 1 on, and its text.
#[derive(Debug)]
pub struct HeadingBlock {
    level: usize,
    text_tree: TextTree,
}

impl HeadingBlock {
    pub closed spec fn spec_level(&self) -> usize {
        self.level
    }

    pub closed spec fn spec_text_tree(&self) -> TextTree {
        self.text_tree
    }

    pub open spec fn wf(&self) -> bool {
        self.spec_text_tree().wf()
    }

    pub fn new(level: usize, text_tree: TextTree) -> (b: Self)
        ensures
            b.spec_level() == level,
            b.spec_text_tree() == text_tree,
    {
        Self { level, text_tree }
    }

    pub fn level(&self) -> (l: usize)
        ensures
            l == self.spec_level(),
    {
        self.level
    }

    pub fn text_tree(&self) -> (t: &TextTree)
        ensures
            *t == self.spec_text_tree(),
    {
        &self.text_tree
    }
}

pub type ImageSource = String;

/// An image that stands as a block of its own: its label and where the image is found.
#[derive(Debug)]
pub struct ImageBlock {
    text_tree: TextTree,
    src: ImageSource,
}

impl ImageBlock {
    pub closed spec fn spec_text_tree(&self) -> TextTree {
        self.text_tree
    }

    pub closed spec fn spec_src(&self) -> Seq<char> {
        self.src@
    }

    pub open spec fn wf(&self) -> bool {
        self.spec_text_tree().wf()
    }

    pub fn new(text_tree: TextTree, src: ImageSource) -> (b: Self)
        ensures
            b.spec_text_tree() == text_tree,
            b.spec_src() == src@,
    {
        Self { text_tree, src }
    }

    pub fn text_tree(&self) -> (t: &TextTree)
        ensures
            *t == self.spec_text_tree(),
    {
        &self.text_tree
    }

    pub fn src(&self) -> (s: &str)
        ensures
            s@ == self.spec_src(),
    {
        self.src.as_str()
    }
}

/// A list.
#[derive(Debug)]
pub struct ListBlock {
    tree: ListTree,
}

impl ListBlock {
    pub closed spec fn spec_tree(&self) -> ListTree {
        self.tree
    }

    pub open spec fn wf(&self) -> bool {
        self.spec_tree().wf()
    }

    pub fn new(tree: ListTree) -> (b: Self)
        ensures
            b.spec_tree() == tree,
    {
        Self { tree }
    }

    pub fn tree(&self) -> (t: &ListTree)
        ensures
            *t == self.spec_tree(),
    {
        &self.tree
    }

    pub fn into_tree(self) -> (t: ListTree)
        ensures
            t == self.spec_tree(),
    {
        self.tree
    }
}

/// A quote.
#[derive(Debug)]
pub struct QuoteBlock {
    tree: QuoteTree,
}

impl QuoteBlock {
    pub closed spec fn spec_tree(&self) -> QuoteTree {
        self.tree
    }

    pub open spec fn wf(&self) -> bool {
        self.spec_tree().wf()
    }

    pub fn new(tree: QuoteTree) -> (b: Self)
        ensures
            b.spec_tree() == tree,
    {
        Self { tree }
    }

    pub fn tree(&self) -> (t: &QuoteTree)
        ensures
            *t == self.spec_tree(),
    {
        &self.tree
    }

    pub fn into_tree(self) -> (t: QuoteTree)
        ensures
            t == self.spec_tree(),
    {
        self.tree
    }
}

/// A cell of a table.
#[derive(Debug)]
pub struct TableCell {
    text_tree: TextTree,
}

impl TableCell {
    pub closed spec fn spec_text_tree(&self) -> TextTree {
        self.text_tree
    }

    pub open spec fn wf(&self) -> bool {
        self.spec_text_tree().wf()
    }

    pub fn new(text_tree: TextTree) -> (c: Self)
        ensures
            c.spec_text_tree() == text_tree,
    {
        Self { text_tree }
    }

    pub fn text_tree(&self) -> (t: &TextTree)
        ensures
            *t == self.spec_text_tree(),
    {
        &self.text_tree
    }
}

pub type TableRow = Vec<TableCell>;

/// The texts of the cells of a row.
pub open spec fn row_texts(row: Seq<TableCell>) -> Seq<TextNodes> {
    row.map_values(|c: TableCell| c.spec_text_tree()@)
}

/// The texts of the cells of some rows.
pub open spec fn rows_texts(rows: Seq<TableRow>) -> Seq<Seq<TextNodes>> {
    rows.map_values(|r: TableRow| row_texts(r@))
}

pub open spec fn row_wf(row: Seq<TableCell>) -> bool {
    forall|i: int| 0 <= i < row.len() ==> (#[trigger] row[i]).wf()
}

/// A table: the row of its headers and the rows of its body.
#[derive(Debug)]
pub struct TableBlock {
    header_row: TableRow,
    rows: Vec<TableRow>,
}

impl TableBlock {
    pub closed spec fn spec_header_row(&self) -> Seq<TableCell> {
        self.header_row@
    }

    pub closed spec fn spec_rows(&self) -> Seq<TableRow> {
        self.rows@
    }

    pub open spec fn wf(&self) -> bool {
        &&& row_wf(self.spec_header_row())
        &&& forall|i: int|
            0 <= i < self.spec_rows().len() ==> row_wf((#[trigger] self.spec_rows()[i])@)
    }

    pub fn new(header_row: TableRow, rows: Vec<TableRow>) -> (b: Self)
        ensures
            b.spec_header_row() == header_row@,
            b.spec_rows() == rows@,
    {
        Self { header_row, rows }
    }

    pub fn header_row(&self) -> (r: &TableRow)
        ensures
            r@ == self.spec_header_row(),
    {
        &self.header_row
    }

    pub fn get_row(&self, index: usize) -> (r: Option<&TableRow>)
        ensures
            match r {
                Some(row) => index < self.spec_rows().len() && *row == self.spec_rows()[index as int],
                None => index >= self.spec_rows().len(),
            },
    {
        if index < self.rows.len() {
            Some(&self.rows[index])
        } else {
            None
        }
    }

    pub fn row_count(&self) -> (n: usize)
        ensures
            n == self.spec_rows().len(),
    {
        self.rows.len()
    }
}

/// A paragraph of text.
#[derive(Debug)]
pub struct TextBlock {
    tree: TextTree,
}

impl TextBlock {
    pub closed spec fn spec_tree(&self) -> TextTree {
        self.tree
    }

    pub open spec fn wf(&self) -> bool {
        self.spec_tree().wf()
    }

    pub fn new(tree: TextTree) -> (b: Self)
        ensures
            b.spec_tree() == tree,
    {
        Self { tree }
    }

    pub fn tree(&self) -> (t: &TextTree)
        ensures
            *t == self.spec_tree(),
    {
        &self.tree
    }

    pub fn into_tree(self) -> (t: TextTree)
        ensures
            t == self.spec_tree(),
    {
        self.tree
    }
}

/// What a parsed block is.
#[derive(Debug)]
pub enum ParsedBlockKind {
    Text(TextBlock),
    List(ListBlock),
    Heading(HeadingBlock),
    Table(TableBlock),
    Image(ImageBlock),
    Quote(QuoteBlock),
    Code(CodeBlock),
    Function(FunctionBlock),
    HorizontalRule,
}

/// A parsed block kind with its trees as nodes and its texts as character sequences.
pub enum ParsedBlockKindView {
    Text(TextNodes),
    List(Seq<Node<ListItem>>),
    Heading { level: usize, text: TextNodes },
    Table { header: Seq<TextNodes>, rows: Seq<Seq<TextNodes>> },
    Image { label: TextNodes, src: Seq<char> },
    Quote(Seq<Node<QuoteItem>>),
    Code { language: Option<Seq<char>>, src: Seq<char> },
    Function { name: Seq<char>, parameters: Seq<Entry> },
    HorizontalRule,
}

impl View for ParsedBlockKind {
    type V = ParsedBlockKindView;

    open spec fn view(&self) -> ParsedBlockKindView {
        match self {
            ParsedBlockKind::Text(b) => ParsedBlockKindView::Text(b.spec_tree()@),
            ParsedBlockKind::List(b) => ParsedBlockKindView::List(b.spec_tree()@),
            ParsedBlockKind::Heading(b) => ParsedBlockKindView::Heading {
                level: b.spec_level(),
                text: b.spec_text_tree()@,
            },
            ParsedBlockKind::Table(b) => ParsedBlockKindView::Table {
                header: row_texts(b.spec_header_row()),
                rows: rows_texts(b.spec_rows()),
            },
            ParsedBlockKind::Image(b) => ParsedBlockKindView::Image {
                label: b.spec_text_tree()@,
                src: b.spec_src(),
            },
            ParsedBlockKind::Quote(b) => ParsedBlockKindView::Quote(b.spec_tree()@),
            ParsedBlockKind::Code(b) => ParsedBlockKindView::Code {
                language: b.spec_language(),
                src: b.spec_src(),
            },
            ParsedBlockKind::Function(b) => ParsedBlockKindView::Function {
                name: b.spec_name(),
                parameters: b.spec_parameters(),
            },
            ParsedBlockKind::HorizontalRule => ParsedBlockKindView::HorizontalRule,
        }
    }
}

impl ParsedBlockKind {
    /// The trees in the block are well formed, and a heading has a level of 1 or more.
    pub open spec fn wf(&self) -> bool {
        match self {
            ParsedBlockKind::Text(b) => b.wf(),
            ParsedBlockKind::List(b) => b.wf(),
            ParsedBlockKind::Heading(b) => b.wf() && b.spec_level() >= 1,
            ParsedBlockKind::Table(b) => b.wf(),
            ParsedBlockKind::Image(b) => b.wf(),
            ParsedBlockKind::Quote(b) => b.wf(),
            ParsedBlockKind::Code(_) => true,
            ParsedBlockKind::Function(_) => true,
            ParsedBlockKind::HorizontalRule => true,
        }
    }
}

/// A parsed block: what it is, and the region of the source that it was read from.
#[derive(Debug)]
pub struct ParsedBlock {
    kind: ParsedBlockKind,
    span: SourceSpan,
}

/// A parsed block with its trees as nodes.
pub struct ParsedBlockView {
    pub kind: ParsedBlockKindView,
    pub span: SourceSpan,
}

impl View for ParsedBlock {
    type V = ParsedBlockView;

    closed spec fn view(&self) -> ParsedBlockView {
        ParsedBlockView { kind: self.kind@, span: self.span }
    }
}

impl ParsedBlock {
    pub closed spec fn spec_kind(&self) -> ParsedBlockKind {
        self.kind
    }

    pub open spec fn wf(&self) -> bool {
        self.spec_kind().wf()
    }

    pub fn new(kind: ParsedBlockKind, span: SourceSpan) -> (b: Self)
        ensures
            b.spec_kind() == kind,
            b@ == (ParsedBlockView { kind: kind@, span }),
    {
        Self { kind, span }
    }

    pub fn kind(&self) -> (k: &ParsedBlockKind)
        ensures
            *k == self.spec_kind(),
            k@ == self@.kind,
    {
        &self.kind
    }

    pub fn into_kind(self) -> (k: ParsedBlockKind)
        ensures
            k == self.spec_kind(),
            k@ == self@.kind,
    {
        self.kind
    }

    pub fn span(&self) -> (s: &SourceSpan)
        ensures
            *s == self@.span,
    {
        &self.span
    }

    pub fn is_text(&self) -> (b: bool)
        ensures
            b == (self@.kind is Text),
    {
        matches!(self.kind, ParsedBlockKind::Text(_))
    }

    pub fn is_list(&self) -> (b: bool)
        ensures
            b == (self@.kind is List),
    {
        matches!(self.kind, ParsedBlockKind::List(_))
    }

    pub fn is_heading(&self) -> (b: bool)
        ensures
            b == (self@.kind is Heading),
    {
        matches!(self.kind, ParsedBlockKind::Heading(_))
    }

    pub fn is_table(&self) -> (b: bool)
        ensures
            b == (self@.kind is Table),
    {
        matches!(self.kind, ParsedBlockKind::Table(_))
    }

    pub fn is_image(&self) -> (b: bool)
        ensures
            b == (self@.kind is Image),
    {
        matches!(self.kind, ParsedBlockKind::Image(_))
    }

    pub fn is_quote(&self) -> (b: bool)
        ensures
            b == (self@.kind is Quote),
    {
        matches!(self.kind, ParsedBlockKind::Quote(_))
    }

    pub fn is_code(&self) -> (b: bool)
        ensures
            b == (self@.kind is Code),
    {
        matches!(self.kind, ParsedBlockKind::Code(_))
    }

    pub fn is_function(&self) -> (b: bool)
        ensures
            b == (self@.kind is Function),
    {
        matches!(self.kind, ParsedBlockKind::Function(_))
    }

    pub fn is_horizontal_rule(&self) -> (b: bool)
        ensures
            b == (self@.kind is HorizontalRule),
    {
        matches!(self.kind, ParsedBlockKind::HorizontalRule)
    }
}

} // verus!
