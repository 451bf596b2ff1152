use md2letter_convert::block::ParsedBlockKind;
use md2letter_convert::source_position::SourcePosition;
use md2letter_convert::source_span::SourceSpan;
use md2letter_convert::table_parser::TableParser;

#[test]
fn should_parse_simple_table() {
    let src = "| Column A | Column B |
| -------- | -------- |
| 1        | 2        |
| 3        | 4        |";
    let span = SourceSpan::new(SourcePosition::zero(), SourcePosition::new(4, 24));
    let parser = TableParser::new(src.to_string(), span);

    let result = parser.parse();
    assert!(result.is_ok());

    let parsed_block = result.unwrap();
    assert!(parsed_block.is_table());

    let table_block = if let ParsedBlockKind::Table(table_block) = parsed_block.into_kind() {
        table_block
    } else {
        panic!("Expected table block");
    };

    let header_row = table_block.header_row();
    assert_eq!(header_row.len(), 2);

    assert_eq!(
        header_row.get(0).unwrap().text_tree().to_string(),
        "- [Root]
  - [Text](Column A)
"
    );
    assert_eq!(
        header_row.get(1).unwrap().text_tree().to_string(),
        "- [Root]
  - [Text](Column B)
"
    );

    assert_eq!(table_block.row_count(), 2);

    let row_1 = table_block.get_row(0).unwrap();
    assert_eq!(row_1.len(), 2);

    assert_eq!(
        row_1.get(0).unwrap().text_tree().to_string(),
        "- [Root]
  - [Text](1)
"
    );
    assert_eq!(
        row_1.get(1).unwrap().text_tree().to_string(),
        "- [Root]
  - [Text](2)
"
    );

    let row_2 = table_block.get_row(1).unwrap();
    assert_eq!(row_2.len(), 2);

    assert_eq!(
        row_2.get(0).unwrap().text_tree().to_string(),
        "- [Root]
  - [Text](3)
"
    );
    assert_eq!(
        row_2.get(1).unwrap().text_tree().to_string(),
        "- [Root]
  - [Text](4)
"
    );
}

#[test]
fn should_parse_table_with_formatting() {
    let src = "| Column *A* | Column *B* |
| --- | --- |
| 1        | Some **bold** text |
| 3        | 4        |";
    let span = SourceSpan::new(SourcePosition::zero(), SourcePosition::new(4, 24));
    let parser = TableParser::new(src.to_string(), span);

    let result = parser.parse();
    assert!(result.is_ok());

    let parsed_block = result.unwrap();
    assert!(parsed_block.is_table());

    let table_block = if let ParsedBlockKind::Table(table_block) = parsed_block.into_kind() {
        table_block
    } else {
        panic!("Expected table block");
    };

    let header_row = table_block.header_row();
    assert_eq!(header_row.len(), 2);

    assert_eq!(
        header_row.get(0).unwrap().text_tree().to_string(),
        "- [Root]
  - [Text](Column )
  - [Italic]
    - [Text](A)
"
    );
    assert_eq!(
        header_row.get(1).unwrap().text_tree().to_string(),
        "- [Root]
  - [Text](Column )
  - [Italic]
    - [Text](B)
"
    );

    assert_eq!(table_block.row_count(), 2);

    let row_1 = table_block.get_row(0).unwrap();
    assert_eq!(row_1.len(), 2);

    assert_eq!(
        row_1.get(0).unwrap().text_tree().to_string(),
        "- [Root]
  - [Text](1)
"
    );
    assert_eq!(
        row_1.get(1).unwrap().text_tree().to_string(),
        "- [Root]
  - [Text](Some )
  - [Bold]
    - [Text](bold)
  - [Text]( text)
"
    );

    let row_2 = table_block.get_row(1).unwrap();
    assert_eq!(row_2.len(), 2);

    assert_eq!(
        row_2.get(0).unwrap().text_tree().to_string(),
        "- [Root]
  - [Text](3)
"
    );
    assert_eq!(
        row_2.get(1).unwrap().text_tree().to_string(),
        "- [Root]
  - [Text](4)
"
    );
}
