use md2letter_convert::block::ParsedBlockKind;
use md2letter_convert::quote_parser::QuoteParser;
use md2letter_convert::source_position::SourcePosition;
use md2letter_convert::source_span::SourceSpan;

#[test]
fn should_parse_trivial_quote_block() {
    let src = "> This is a quote!";
    let span = SourceSpan::new(SourcePosition::zero(), SourcePosition::new(1, 19));
    let parser = QuoteParser::new(src.to_string(), span);

    let result = parser.parse();
    assert!(result.is_ok());

    let parsed_block = result.unwrap();
    assert!(parsed_block.is_quote());

    let quote_block = if let ParsedBlockKind::Quote(quote_block) = parsed_block.into_kind() {
        quote_block
    } else {
        panic!("Expected quote block");
    };

    let quote_tree = quote_block.into_tree();

    assert_eq!(
        quote_tree.to_string(),
        "- [Parent]
  - [Leaf]
    - [Text](This is a quote!)
"
    );
}

#[test]
fn should_parse_multilevel_quote_block_1() {
    let src = "> This is
> a quote!
>> And this as well!
> Another first-level quote.";
    let span = SourceSpan::new(SourcePosition::zero(), SourcePosition::new(4, 29));
    let parser = QuoteParser::new(src.to_string(), span);

    let result = parser.parse();
    assert!(result.is_ok());

    let parsed_block = result.unwrap();
    assert!(parsed_block.is_quote());

    let quote_block = if let ParsedBlockKind::Quote(quote_block) = parsed_block.into_kind() {
        quote_block
    } else {
        panic!("Expected quote block");
    };

    let quote_tree = quote_block.into_tree();

    assert_eq!(
        quote_tree.to_string(),
        "- [Parent]
  - [Leaf]
    - [Text](This is a quote!)
  - [Parent]
    - [Leaf]
      - [Text](And this as well!)
  - [Leaf]
    - [Text](Another first-level quote.)
"
    );
}

#[test]
fn should_parse_multilevel_quote_block_2() {
    let src = "> This is
> a quote!
>> And **this** as well!
>> > > Wow
>>>> Hey hey
> Another first-level quote.";
    let span = SourceSpan::new(SourcePosition::zero(), SourcePosition::new(6, 29));
    let parser = QuoteParser::new(src.to_string(), span);

    let result = parser.parse();
    assert!(result.is_ok());

    let parsed_block = result.unwrap();
    assert!(parsed_block.is_quote());

    let quote_block = if let ParsedBlockKind::Quote(quote_block) = parsed_block.into_kind() {
        quote_block
    } else {
        panic!("Expected quote block");
    };

    let quote_tree = quote_block.into_tree();

    assert_eq!(
        quote_tree.to_string(),
        "- [Parent]
  - [Leaf]
    - [Text](This is a quote!)
  - [Parent]
    - [Leaf]
      - [Text](And )
      - [Bold]
        - [Text](this)
      - [Text]( as well!)
    - [Parent]
      - [Leaf]
        - [Text](Wow Hey hey)
  - [Leaf]
    - [Text](Another first-level quote.)
"
    );
}
