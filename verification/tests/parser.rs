use md2letter_convert::categorizer::{BlockKind, CategorizedBlock};
use md2letter_convert::parser::BlockParser;
use md2letter_convert::source_position::SourcePosition;
use md2letter_convert::source_span::SourceSpan;

#[test]
fn should_parse_text_block() {
    let src = "This is a paragraph.";
    let span = SourceSpan::new(SourcePosition::zero(), SourcePosition::new(1, 21));
    let categorized_block = CategorizedBlock::new(BlockKind::Text, src.to_string(), span);

    let parser = BlockParser::new();
    let result = parser.parse(categorized_block);

    assert!(result.is_ok());

    let parsed_block = result.unwrap();
    assert!(parsed_block.is_text());
}

#[test]
fn should_parse_heading_block() {
    let src = "# This is a heading";
    let span = SourceSpan::new(SourcePosition::zero(), SourcePosition::new(1, 20));
    let categorized_block = CategorizedBlock::new(BlockKind::Heading, src.to_string(), span);

    let parser = BlockParser::new();
    let result = parser.parse(categorized_block);

    assert!(result.is_ok());

    let parsed_block = result.unwrap();
    assert!(parsed_block.is_heading());
}

#[test]
fn should_parse_list_block() {
    let src = "- This is a list item";
    let span = SourceSpan::new(SourcePosition::zero(), SourcePosition::new(1, 22));
    let categorized_block = CategorizedBlock::new(BlockKind::List, src.to_string(), span);

    let parser = BlockParser::new();
    let result = parser.parse(categorized_block);

    assert!(result.is_ok());

    let parsed_block = result.unwrap();
    assert!(parsed_block.is_list());
}

#[test]
fn should_parse_horizontal_rule_block() {
    let src = "---";
    let span = SourceSpan::new(SourcePosition::zero(), SourcePosition::new(1, 4));
    let categorized_block =
        CategorizedBlock::new(BlockKind::HorizontalRule, src.to_string(), span);

    let parser = BlockParser::new();
    let result = parser.parse(categorized_block);

    assert!(result.is_ok());

    let parsed_block = result.unwrap();
    assert!(parsed_block.is_horizontal_rule());
}

#[test]
fn should_parse_code_block() {
    let src = "```js
console.log('Hello World');
```";
    let span = SourceSpan::new(SourcePosition::zero(), SourcePosition::new(3, 4));
    let categorized_block = CategorizedBlock::new(BlockKind::Code, src.to_string(), span);

    let parser = BlockParser::new();
    let result = parser.parse(categorized_block);

    assert!(result.is_ok());

    let parsed_block = result.unwrap();
    assert!(parsed_block.is_code());
}

#[test]
fn should_parse_table_block() {
    let src = "| Small | Table |
| ----- | ----- |
| 1     | 2     |
| 3     | 4     |";
    let span = SourceSpan::new(SourcePosition::zero(), SourcePosition::new(4, 19));
    let categorized_block = CategorizedBlock::new(BlockKind::Table, src.to_string(), span);

    let parser = BlockParser::new();
    let result = parser.parse(categorized_block);

    assert!(result.is_ok());

    let parsed_block = result.unwrap();
    assert!(parsed_block.is_table());
}

#[test]
fn should_parse_image_block() {
    let src = "![alt text](image.jpg)";
    let span = SourceSpan::new(SourcePosition::zero(), SourcePosition::new(1, 23));
    let categorized_block = CategorizedBlock::new(BlockKind::Image, src.to_string(), span);

    let parser = BlockParser::new();
    let result = parser.parse(categorized_block);

    assert!(result.is_ok());

    let parsed_block = result.unwrap();
    assert!(parsed_block.is_image());
}

#[test]
fn should_parse_quote_block() {
    let src = "> This is a quote";
    let span = SourceSpan::new(SourcePosition::zero(), SourcePosition::new(1, 18));
    let categorized_block = CategorizedBlock::new(BlockKind::Quote, src.to_string(), span);

    let parser = BlockParser::new();
    let result = parser.parse(categorized_block);

    assert!(result.is_ok());

    let parsed_block = result.unwrap();
    assert!(parsed_block.is_quote());
}

#[test]
fn should_parse_function_block() {
    let src = "#TableOfContents";
    let span = SourceSpan::new(SourcePosition::zero(), SourcePosition::new(1, 17));
    let categorized_block = CategorizedBlock::new(BlockKind::Function, src.to_string(), span);

    let parser = BlockParser::new();
    let result = parser.parse(categorized_block);

    assert!(result.is_ok());

    let parsed_block = result.unwrap();
    assert!(parsed_block.is_function());
}
