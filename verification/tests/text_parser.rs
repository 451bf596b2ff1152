use md2letter_convert::block::ParsedBlockKind;
use md2letter_convert::categorizer::BlockKind;
use md2letter_convert::categorizer::CategorizedBlock;
use md2letter_convert::source_position::SourcePosition;
use md2letter_convert::source_span::SourceSpan;
use md2letter_convert::text_parser::TextParser;
use md2letter_convert::text_tree::TextNodeKind;

#[test]
fn mod_should_parse_trivial_text_block() {
    let src = "This is a paragraph.";
    let span = SourceSpan::new(SourcePosition::zero(), SourcePosition::new(1, 21));

    let parser = TextParser::new(src.to_string(), span.clone());
    let result = parser.parse();

    assert!(result.is_ok());

    let parsed_block = result.unwrap();
    assert!(parsed_block.is_text());

    assert_eq!(span, parsed_block.span().clone());

    let tree = if let ParsedBlockKind::Text(b) = parsed_block.kind() {
        b.tree()
    } else {
        panic!("Expected text block");
    };

    assert_eq!(
        tree.to_string(),
        "- [Root]
  - [Text](This is a paragraph.)
"
    );
}

#[test]
fn should_parse_text_block_with_simple_formatting() {
    let src = "Column *A*";
    let span = SourceSpan::new(SourcePosition::zero(), SourcePosition::new(1, 21));

    let parser = TextParser::new(src.to_string(), span.clone());
    let result = parser.parse();

    assert!(result.is_ok());

    let parsed_block = result.unwrap();
    assert!(parsed_block.is_text());

    assert_eq!(span, parsed_block.span().clone());

    let tree = if let ParsedBlockKind::Text(b) = parsed_block.kind() {
        b.tree()
    } else {
        panic!("Expected text block");
    };

    assert_eq!(
        tree.to_string(),
        "- [Root]
  - [Text](Column )
  - [Italic]
    - [Text](A)
"
    );
}

#[test]
fn should_parse_text_block_with_formatting() {
    let src = "This is **bold** and this is *italic* and this is ***both***, while *this is **mixed** and this is not*.";
    let span = SourceSpan::new(SourcePosition::zero(), SourcePosition::new(1, 105));

    let parser = TextParser::new(src.to_string(), span.clone());
    let result = parser.parse();

    assert!(result.is_ok());

    let parsed_block = result.unwrap();
    assert!(parsed_block.is_text());

    assert_eq!(span, parsed_block.span().clone());

    let tree = if let ParsedBlockKind::Text(b) = parsed_block.kind() {
        b.tree()
    } else {
        panic!("Expected text block");
    };

    assert_eq!(
        tree.to_string(),
        "- [Root]
  - [Text](This is )
  - [Bold]
    - [Text](bold)
  - [Text]( and this is )
  - [Italic]
    - [Text](italic)
  - [Text]( and this is )
  - [Italic]
    - [Bold]
      - [Text](both)
  - [Text](, while )
  - [Italic]
    - [Text](this is )
    - [Bold]
      - [Text](mixed)
    - [Text]( and this is not)
  - [Text](.)
"
    );
}

#[test]
fn should_parse_text_block_with_link() {
    let src = "This is a **[link](https://example.com)**.";
    let span = SourceSpan::new(SourcePosition::zero(), SourcePosition::new(1, 43));

    let parser = TextParser::new(src.to_string(), span.clone());
    let result = parser.parse();

    assert!(result.is_ok());

    let parsed_block = result.unwrap();
    assert!(parsed_block.is_text());

    assert_eq!(span, parsed_block.span().clone());

    let tree = if let ParsedBlockKind::Text(b) = parsed_block.kind() {
        b.tree()
    } else {
        panic!("Expected text block");
    };

    assert_eq!(
        tree.to_string(),
        "- [Root]
  - [Text](This is a )
  - [Bold]
    - [Link](https://example.com)
      - [Text](link)
  - [Text](.)
"
    );
}

#[test]
fn should_parse_text_block_with_image() {
    let src = "This is a **![my-image](my-image.png)**.";
    let span = SourceSpan::new(SourcePosition::zero(), SourcePosition::new(1, 43));

    let parser = TextParser::new(src.to_string(), span.clone());
    let result = parser.parse();

    assert!(result.is_ok());

    let parsed_block = result.unwrap();
    assert!(parsed_block.is_text());

    assert_eq!(span, parsed_block.span().clone());

    let tree = if let ParsedBlockKind::Text(b) = parsed_block.kind() {
        b.tree()
    } else {
        panic!("Expected text block");
    };

    assert_eq!(
        tree.to_string(),
        "- [Root]
  - [Text](This is a )
  - [Bold]
    - [Image](my-image.png)
      - [Text](my-image)
  - [Text](.)
"
    );
}

#[test]
fn should_parse_text_block_with_function() {
    let src = "This is a function: #Image(
  src: my-image.png,
  width: 200px,
  height: 100px
).";
    let span = SourceSpan::new(SourcePosition::zero(), SourcePosition::new(5, 4));

    let parser = TextParser::new(src.to_string(), span.clone());
    let result = parser.parse();

    assert!(result.is_ok());

    let parsed_block = result.unwrap();
    assert!(parsed_block.is_text());

    assert_eq!(span, parsed_block.span().clone());

    let tree = if let ParsedBlockKind::Text(b) = parsed_block.kind() {
        b.tree()
    } else {
        panic!("Expected text block");
    };

    assert_eq!(
        tree.to_string(),
        "- [Root]
  - [Text](This is a function: )
  - [Function](Image, height: 100px, src: my-image.png, width: 200px)
  - [Text](.)
"
    );
}

#[test]
fn text_should_parse_trivial_text_block() {
    let src = "This is a paragraph.";
    let span = SourceSpan::new(SourcePosition::new(1, 1), SourcePosition::new(1, src.len()));
    let block = CategorizedBlock::new(BlockKind::Text, src.to_string(), span.clone());

    let (_, block_src, block_span) = block.consume();
    let parser = TextParser::new(block_src, block_span);
    let result = parser.parse();

    assert!(result.is_ok());

    let parsed_block = result.unwrap();
    assert!(parsed_block.is_text());

    assert_eq!(span, parsed_block.span().clone());

    let tree = if let ParsedBlockKind::Text(b) = parsed_block.kind() {
        b.tree()
    } else {
        panic!("Expected text block");
    };

    assert_eq!(1, tree.root().children().len());
    let first = tree.get_node(tree.root().children()[0]);
    if let TextNodeKind::Text { src: text } = first.kind() {
        assert_eq!(src, text);
    } else {
        panic!("Expected text node");
    }
}
