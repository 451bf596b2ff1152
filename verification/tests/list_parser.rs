use md2letter_convert::block::ParsedBlockKind;
use md2letter_convert::list_parser::ListParser;
use md2letter_convert::source_position::SourcePosition;
use md2letter_convert::source_span::SourceSpan;

#[test]
fn should_parse_simple_unordered_list() {
    let src = "- Item 1
- Item 2
- Item 3";
    let span = SourceSpan::new(SourcePosition::zero(), SourcePosition::new(3, 9));
    let parser = ListParser::new(src.to_string(), span);

    let result = parser.parse();

    assert!(result.is_ok());

    let parsed_block = result.unwrap();
    assert!(parsed_block.is_list());

    let list_block = if let ParsedBlockKind::List(list_block) = parsed_block.into_kind() {
        list_block
    } else {
        panic!("Expected list block");
    };

    let tree = list_block.into_tree();
    assert_eq!(
        tree.to_string(),
        "- [Parent]
  - unordered [Item]
    - [Text](Item 1)
  - unordered [Item]
    - [Text](Item 2)
  - unordered [Item]
    - [Text](Item 3)
"
    );
}

#[test]
fn should_parse_simple_ordered_list() {
    let src = "1. Item 1
2. Item 2
3. Item 3";
    let span = SourceSpan::new(SourcePosition::zero(), SourcePosition::new(3, 9));
    let parser = ListParser::new(src.to_string(), span);

    let result = parser.parse();

    assert!(result.is_ok());

    let parsed_block = result.unwrap();
    assert!(parsed_block.is_list());

    let list_block = if let ParsedBlockKind::List(list_block) = parsed_block.into_kind() {
        list_block
    } else {
        panic!("Expected list block");
    };

    let tree = list_block.into_tree();
    assert_eq!(
        tree.to_string(),
        "- [Parent]
  - ordered [Item]
    - [Text](Item 1)
  - ordered [Item]
    - [Text](Item 2)
  - ordered [Item]
    - [Text](Item 3)
"
    );
}

#[test]
fn should_parse_nested_list() {
    let src = r#"- Item 1
  1. Item 1.1
  2. Item 1.2
- Item 2
- Item 3"#;
    let span = SourceSpan::new(SourcePosition::zero(), SourcePosition::new(3, 9));
    let parser = ListParser::new(src.to_string(), span);

    let result = parser.parse();

    assert!(result.is_ok());

    let parsed_block = result.unwrap();
    assert!(parsed_block.is_list());

    let list_block = if let ParsedBlockKind::List(list_block) = parsed_block.into_kind() {
        list_block
    } else {
        panic!("Expected list block");
    };

    let tree = list_block.into_tree();
    assert_eq!(
        tree.to_string(),
        "- [Parent]
  - unordered [Item]
    - [Text](Item 1)
  - [Parent]
    - ordered [Item]
      - [Text](Item 1.1)
    - ordered [Item]
      - [Text](Item 1.2)
  - unordered [Item]
    - [Text](Item 2)
  - unordered [Item]
    - [Text](Item 3)
"
    );
}

#[test]
fn should_parse_crazy_list() {
    let src = r#"- Item **1**
  1. Item 1.1
    * Item 1.1.1
    * Item 1.1.2
  2. Item 1.2
    + Item 1.2.1
    + Item 1.2.2
      1. Another Item 1
      1. Another Item 2
    + Item 1.2.3
- Item `2`
- Item 3"#;
    let span = SourceSpan::new(SourcePosition::zero(), SourcePosition::new(3, 9));
    let parser = ListParser::new(src.to_string(), span);

    let result = parser.parse();

    assert!(result.is_ok());

    let parsed_block = result.unwrap();
    assert!(parsed_block.is_list());

    let list_block = if let ParsedBlockKind::List(list_block) = parsed_block.into_kind() {
        list_block
    } else {
        panic!("Expected list block");
    };

    let tree = list_block.into_tree();
    assert_eq!(
        tree.to_string(),
        "- [Parent]
  - unordered [Item]
    - [Text](Item )
    - [Bold]
      - [Text](1)
  - [Parent]
    - ordered [Item]
      - [Text](Item 1.1)
    - [Parent]
      - unordered [Item]
        - [Text](Item 1.1.1)
      - unordered [Item]
        - [Text](Item 1.1.2)
    - ordered [Item]
      - [Text](Item 1.2)
    - [Parent]
      - unordered [Item]
        - [Text](Item 1.2.1)
      - unordered [Item]
        - [Text](Item 1.2.2)
      - [Parent]
        - ordered [Item]
          - [Text](Another Item 1)
        - ordered [Item]
          - [Text](Another Item 2)
      - unordered [Item]
        - [Text](Item 1.2.3)
  - unordered [Item]
    - [Text](Item )
    - [Code]
      - [Text](2)
  - unordered [Item]
    - [Text](Item 3)
"
    );
}
