use md2letter_convert::block::ParsedBlockKind;
use md2letter_convert::image_parser::ImageParser;
use md2letter_convert::source_position::SourcePosition;
use md2letter_convert::source_span::SourceSpan;

#[test]
fn should_parse_image() {
    let src = "![Label](image.jpg)";
    let span = SourceSpan::new(SourcePosition::zero(), SourcePosition::new(1, 20));
    let parser = ImageParser::new(src.to_string(), span);

    let result = parser.parse();
    assert!(result.is_ok());

    let parsed_block = result.unwrap();
    assert!(parsed_block.is_image());

    let image_block = if let ParsedBlockKind::Image(image_block) = parsed_block.into_kind() {
        image_block
    } else {
        panic!("Expected image block");
    };

    assert_eq!(image_block.src(), "image.jpg");

    let text_tree = image_block.text_tree();
    assert_eq!(
        text_tree.to_string(),
        "- [Root]
  - [Text](Label)
"
    );
}

#[test]
fn should_parse_image_with_formatting_in_label() {
    let src = "![Label **with** formatting](image.jpg)";
    let span = SourceSpan::new(SourcePosition::zero(), SourcePosition::new(1, 20));
    let parser = ImageParser::new(src.to_string(), span);

    let result = parser.parse();
    assert!(result.is_ok());

    let parsed_block = result.unwrap();
    assert!(parsed_block.is_image());

    let image_block = if let ParsedBlockKind::Image(image_block) = parsed_block.into_kind() {
        image_block
    } else {
        panic!("Expected image block");
    };

    assert_eq!(image_block.src(), "image.jpg");

    let text_tree = image_block.text_tree();
    assert_eq!(
        text_tree.to_string(),
        "- [Root]
  - [Text](Label )
  - [Bold]
    - [Text](with)
  - [Text]( formatting)
"
    );
}
