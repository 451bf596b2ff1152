use md2letter_convert::block::ParsedBlockKind;
use md2letter_convert::code_parser::CodeParser;
use md2letter_convert::source_position::SourcePosition;
use md2letter_convert::source_span::SourceSpan;

#[test]
fn parse_code_block_without_language_identifier() {
    let src = "```
console.log('Hello World');
```";
    let span = SourceSpan::new(SourcePosition::zero(), SourcePosition::new(3, 4));
    let parser = CodeParser::new(src.to_string(), span);

    let result = parser.parse();
    assert!(result.is_ok());

    let parsed_block = result.unwrap();
    assert!(parsed_block.is_code());

    let code_block = if let ParsedBlockKind::Code(code_block) = parsed_block.into_kind() {
        code_block
    } else {
        panic!("Expected code block");
    };

    assert!(code_block.language().is_none());

    let code_src = code_block.src();
    assert_eq!(code_src, "console.log('Hello World');");
}

#[test]
fn parse_code_block_with_language_identifier() {
    let src = "```js
console.log('Hello World');
```";
    let span = SourceSpan::new(SourcePosition::zero(), SourcePosition::new(3, 4));
    let parser = CodeParser::new(src.to_string(), span);

    let result = parser.parse();
    assert!(result.is_ok());

    let parsed_block = result.unwrap();
    assert!(parsed_block.is_code());

    let code_block = if let ParsedBlockKind::Code(code_block) = parsed_block.into_kind() {
        code_block
    } else {
        panic!("Expected code block");
    };

    assert_eq!(*code_block.language(), Some("js".to_string()));

    let code_src = code_block.src();
    assert_eq!(code_src, "console.log('Hello World');");
}

#[test]
fn parse_multi_line_code_block() {
    let src = "```md
# Title

This is a simple paragraph.

I want it formatted in **bold** and as inline `code`.
```";
    let span = SourceSpan::new(SourcePosition::zero(), SourcePosition::new(7, 4));
    let parser = CodeParser::new(src.to_string(), span);

    let result = parser.parse();
    assert!(result.is_ok());

    let parsed_block = result.unwrap();
    assert!(parsed_block.is_code());

    let code_block = if let ParsedBlockKind::Code(code_block) = parsed_block.into_kind() {
        code_block
    } else {
        panic!("Expected code block");
    };

    assert_eq!(*code_block.language(), Some("md".to_string()));

    let code_src = code_block.src();
    assert_eq!(
        code_src,
        "# Title

This is a simple paragraph.

I want it formatted in **bold** and as inline `code`."
    );
}

#[test]
fn parse_weird_header_and_footer() {
    let src = "```md # Title

This is a simple paragraph.

I want it formatted in **bold** and as inline `code`.```";
    let span = SourceSpan::new(SourcePosition::zero(), SourcePosition::new(5, 57));
    let parser = CodeParser::new(src.to_string(), span);

    let result = parser.parse();
    assert!(result.is_ok());

    let parsed_block = result.unwrap();
    assert!(parsed_block.is_code());

    let code_block = if let ParsedBlockKind::Code(code_block) = parsed_block.into_kind() {
        code_block
    } else {
        panic!("Expected code block");
    };

    assert_eq!(*code_block.language(), Some("md".to_string()));

    let code_src = code_block.src();
    assert_eq!(
        code_src,
        "# Title

This is a simple paragraph.

I want it formatted in **bold** and as inline `code`."
    );
}

#[test]
fn fail_on_missing_footer() {
    let src = "```md # Title

This is a simple paragraph.

I want it formatted in **bold** and as inline `code`.";
    let span = SourceSpan::new(SourcePosition::zero(), SourcePosition::new(5, 54));
    let parser = CodeParser::new(src.to_string(), span);

    let result = parser.parse();
    assert!(result.is_err());
    assert_eq!(
        result.unwrap_err().message,
        "Code block must be ended with '```'"
    );
}

#[test]
fn fail_on_incorrect_footer() {
    let src = "```md # Title

This is a simple paragraph.

I want it formatted in **bold** and as inline `code`.``";
    let span = SourceSpan::new(SourcePosition::zero(), SourcePosition::new(5, 56));
    let parser = CodeParser::new(src.to_string(), span);

    let result = parser.parse();
    assert!(result.is_err());
    assert_eq!(
        result.unwrap_err().message,
        "Code block must be ended with '```'"
    );
}

#[test]
fn fail_on_missing_header() {
    let src = "# Title

This is a simple paragraph.

I want it formatted in **bold** and as inline `code`.
```";
    let span = SourceSpan::new(SourcePosition::zero(), SourcePosition::new(6, 4));
    let parser = CodeParser::new(src.to_string(), span);

    let result = parser.parse();
    assert!(result.is_err());
    assert_eq!(
        result.unwrap_err().message,
        "Code block must be started with '```'"
    );
}

#[test]
fn fail_on_incorrect_header() {
    let src = "``# Title

This is a simple paragraph.

I want it formatted in **bold** and as inline `code`.
```";
    let span = SourceSpan::new(SourcePosition::zero(), SourcePosition::new(6, 4));
    let parser = CodeParser::new(src.to_string(), span);

    let result = parser.parse();
    assert!(result.is_err());
    assert_eq!(
        result.unwrap_err().message,
        "Code block must be started with '```'"
    );
}

#[test]
fn parse_empty_code_block() {
    let src = "``````";
    let span = SourceSpan::new(SourcePosition::zero(), SourcePosition::new(1, 7));
    let parser = CodeParser::new(src.to_string(), span);

    let result = parser.parse();
    assert!(result.is_ok());

    let parsed_block = result.unwrap();
    assert!(parsed_block.is_code());

    let code_block = if let ParsedBlockKind::Code(code_block) = parsed_block.into_kind() {
        code_block
    } else {
        panic!("Expected code block");
    };

    assert_eq!(*code_block.language(), None);

    let code_src = code_block.src();
    assert_eq!(code_src, "");
}

#[test]
fn parse_minimal_code_block() {
    let src = "```a```";
    let span = SourceSpan::new(SourcePosition::zero(), SourcePosition::new(1, 8));
    let parser = CodeParser::new(src.to_string(), span);

    let result = parser.parse();
    assert!(result.is_ok());

    let parsed_block = result.unwrap();
    assert!(parsed_block.is_code());

    let code_block = if let ParsedBlockKind::Code(code_block) = parsed_block.into_kind() {
        code_block
    } else {
        panic!("Expected code block");
    };

    assert_eq!(*code_block.language(), None);

    let code_src = code_block.src();
    assert_eq!(code_src, "a");
}
