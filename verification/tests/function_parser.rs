use md2letter_convert::block::ParsedBlockKind;
use md2letter_convert::function_parser::FunctionParser;
use md2letter_convert::source_position::SourcePosition;
use md2letter_convert::source_span::SourceSpan;

#[test]
fn should_parse_function_block_without_params_1() {
    let src = "#TableOfContents";
    let span = SourceSpan::new(SourcePosition::zero(), SourcePosition::new(1, 17));
    let parser = FunctionParser::new(src.to_string(), span);

    let result = parser.parse();
    assert!(result.is_ok());

    let parsed_block = result.unwrap();
    assert!(parsed_block.is_function());

    let function_block =
        if let ParsedBlockKind::Function(function_block) = parsed_block.into_kind() {
            function_block
        } else {
            panic!("Expected function block");
        };

    assert_eq!(function_block.name(), "TableOfContents");
    assert!(function_block.parameters().is_empty());
}

#[test]
fn should_parse_function_block_without_params_2() {
    let src = "#TableOfContents()";
    let span = SourceSpan::new(SourcePosition::zero(), SourcePosition::new(1, 17));
    let parser = FunctionParser::new(src.to_string(), span);

    let result = parser.parse();
    assert!(result.is_ok());

    let parsed_block = result.unwrap();
    assert!(parsed_block.is_function());

    let function_block =
        if let ParsedBlockKind::Function(function_block) = parsed_block.into_kind() {
            function_block
        } else {
            panic!("Expected function block");
        };

    assert_eq!(function_block.name(), "TableOfContents");
    assert!(function_block.parameters().is_empty());
}

#[test]
fn should_parse_function_block_with_params() {
    let src = "#Image(
  width: 100px,
  height: 200px,
  src: image.jpg
)";
    let span = SourceSpan::new(SourcePosition::zero(), SourcePosition::new(5, 2));
    let parser = FunctionParser::new(src.to_string(), span);

    let result = parser.parse();
    assert!(result.is_ok());

    let parsed_block = result.unwrap();
    assert!(parsed_block.is_function());

    let function_block =
        if let ParsedBlockKind::Function(function_block) = parsed_block.into_kind() {
            function_block
        } else {
            panic!("Expected function block");
        };

    assert_eq!(function_block.name(), "Image");

    let parameters = function_block.parameters();
    assert_eq!(parameters.len(), 3);
    assert_eq!(parameters.get("width").unwrap(), "100px");
    assert_eq!(parameters.get("height").unwrap(), "200px");
    assert_eq!(parameters.get("src").unwrap(), "image.jpg");
}
