use md2letter_convert::block::ParsedBlockKind;
use md2letter_convert::heading_parser::HeadingParser;
use md2letter_convert::source_position::SourcePosition;
use md2letter_convert::source_span::SourceSpan;

#[test]
fn should_parse_first_level_heading() {
    let src = "# This is a heading";
    let span = SourceSpan::new(SourcePosition::zero(), SourcePosition::new(1, 20));

    let parser = HeadingParser::new(src.to_string(), span.clone());
    let result = parser.parse();

    assert!(result.is_ok());

    let parsed_block = result.unwrap();
    assert!(parsed_block.is_heading());

    assert_eq!(span, parsed_block.span().clone());

    let heading_block = if let ParsedBlockKind::Heading(b) = parsed_block.into_kind() {
        b
    } else {
        panic!("Expected heading block");
    };

    assert_eq!(heading_block.level(), 1);

    assert_eq!(
        heading_block.text_tree().to_string(),
        "- [Root]
  - [Text](This is a heading)
"
    );
}

#[test]
fn should_parse_multi_level_heading() {
    let src = "### This is third level heading";
    let span = SourceSpan::new(SourcePosition::zero(), SourcePosition::new(1, 20));

    let parser = HeadingParser::new(src.to_string(), span.clone());
    let result = parser.parse();

    assert!(result.is_ok());

    let parsed_block = result.unwrap();
    assert!(parsed_block.is_heading());

    assert_eq!(span, parsed_block.span().clone());

    let heading_block = if let ParsedBlockKind::Heading(b) = parsed_block.into_kind() {
        b
    } else {
        panic!("Expected heading block");
    };

    assert_eq!(heading_block.level(), 3);

    assert_eq!(
        heading_block.text_tree().to_string(),
        "- [Root]
  - [Text](This is third level heading)
"
    );
}

#[test]
fn should_parse_crazy_heading() {
    let src = "########## This is a **crazy** [heading](https://example.com)
with `multiple` *lines*!!!";
    let span = SourceSpan::new(SourcePosition::zero(), SourcePosition::new(2, 27));

    let parser = HeadingParser::new(src.to_string(), span.clone());
    let result = parser.parse();

    assert!(result.is_ok());

    let parsed_block = result.unwrap();
    assert!(parsed_block.is_heading());

    assert_eq!(span, parsed_block.span().clone());

    let heading_block = if let ParsedBlockKind::Heading(b) = parsed_block.into_kind() {
        b
    } else {
        panic!("Expected heading block");
    };

    assert_eq!(heading_block.level(), 10);

    assert_eq!(
        heading_block.text_tree().to_string(),
        "- [Root]
  - [Text](This is a )
  - [Bold]
    - [Text](crazy)
  - [Text]( )
  - [Link](https://example.com)
    - [Text](heading)
  - [Text]( with )
  - [Code]
    - [Text](multiple)
  - [Text]( )
  - [Italic]
    - [Text](lines)
  - [Text](!!!)
"
    );
}
