use md2letter_convert::categorizer::BlockCategorizer;
use md2letter_convert::categorizer::BlockKind::{
    Code, Function, Heading, HorizontalRule, Image, List, Quote, Table, Text,
};
use md2letter_convert::source_position::SourcePosition;
use md2letter_convert::source_span::SourceSpan;
use md2letter_convert::splitter::SplitterBlock;

#[test]
fn categorize_text() {
    let text_block = SplitterBlock::new(
        "Hello World [click here](https://example.com) - it's **cool**!".to_string(),
        SourceSpan::new(SourcePosition::zero(), SourcePosition::new(1, 63)),
    );

    let categorizer = BlockCategorizer::new();

    let categorized_block = categorizer.categorize(text_block);

    assert_eq!(categorized_block.kind(), &Text);
    assert_eq!(
        categorized_block.src(),
        "Hello World [click here](https://example.com) - it's **cool**!"
    );
    assert_eq!(
        categorized_block.span(),
        &SourceSpan::new(SourcePosition::zero(), SourcePosition::new(1, 63))
    );
}

#[test]
fn categorize_code() {
    let code_block = SplitterBlock::new(
        "```js
console.log('test');
```"
        .to_string(),
        SourceSpan::new(SourcePosition::zero(), SourcePosition::new(3, 4)),
    );

    let categorizer = BlockCategorizer::new();

    let categorized_block = categorizer.categorize(code_block);

    assert_eq!(categorized_block.kind(), &Code);
    assert_eq!(
        categorized_block.src(),
        "```js
console.log('test');
```"
    );
    assert_eq!(
        categorized_block.span(),
        &SourceSpan::new(SourcePosition::zero(), SourcePosition::new(3, 4))
    );
}

#[test]
fn categorize_faulty_code_as_text() {
    let code_block = SplitterBlock::new(
        "` ``js
console.log('test');
```"
        .to_string(),
        SourceSpan::new(SourcePosition::zero(), SourcePosition::new(3, 4)),
    );

    let categorizer = BlockCategorizer::new();

    let categorized_block = categorizer.categorize(code_block);

    assert_eq!(categorized_block.kind(), &Text);
    assert_eq!(
        categorized_block.src(),
        "` ``js
console.log('test');
```"
    );
    assert_eq!(
        categorized_block.span(),
        &SourceSpan::new(SourcePosition::zero(), SourcePosition::new(3, 4))
    );
}

#[test]
fn categorize_quote() {
    let quote_block = SplitterBlock::new(
        "> Hello World".to_string(),
        SourceSpan::new(SourcePosition::zero(), SourcePosition::new(3, 14)),
    );

    let categorizer = BlockCategorizer::new();

    let categorized_block = categorizer.categorize(quote_block);

    assert_eq!(categorized_block.kind(), &Quote);
    assert_eq!(categorized_block.src(), "> Hello World");
    assert_eq!(
        categorized_block.span(),
        &SourceSpan::new(SourcePosition::zero(), SourcePosition::new(3, 14))
    );
}

#[test]
fn categorize_table() {
    let table_block = SplitterBlock::new(
        "| First Header  | Second Header |
| ------------- | ------------- |
| Content Cell  | Content Cell  |"
            .to_string(),
        SourceSpan::new(SourcePosition::zero(), SourcePosition::new(3, 34)),
    );

    let categorizer = BlockCategorizer::new();

    let categorized_block = categorizer.categorize(table_block);

    assert_eq!(categorized_block.kind(), &Table);
    assert_eq!(
        categorized_block.src(),
        "| First Header  | Second Header |
| ------------- | ------------- |
| Content Cell  | Content Cell  |"
    );
    assert_eq!(
        categorized_block.span(),
        &SourceSpan::new(SourcePosition::zero(), SourcePosition::new(3, 34))
    );
}

#[test]
fn categorize_ordered_list() {
    let list_block = SplitterBlock::new(
        "1. First item
2. Second item
3. Third item"
            .to_string(),
        SourceSpan::new(SourcePosition::zero(), SourcePosition::new(3, 14)),
    );

    let categorizer = BlockCategorizer::new();

    let categorized_block = categorizer.categorize(list_block);

    assert_eq!(categorized_block.kind(), &List);
    assert_eq!(
        categorized_block.src(),
        "1. First item
2. Second item
3. Third item"
    );
    assert_eq!(
        categorized_block.span(),
        &SourceSpan::new(SourcePosition::zero(), SourcePosition::new(3, 14))
    );
}

#[test]
fn categorize_unordered_list_with_minus_char() {
    let list_block = SplitterBlock::new(
        "- First item
- Second item
- Third item"
            .to_string(),
        SourceSpan::new(SourcePosition::zero(), SourcePosition::new(3, 13)),
    );

    let categorizer = BlockCategorizer::new();

    let categorized_block = categorizer.categorize(list_block);

    assert_eq!(categorized_block.kind(), &List);
    assert_eq!(
        categorized_block.src(),
        "- First item
- Second item
- Third item"
    );
    assert_eq!(
        categorized_block.span(),
        &SourceSpan::new(SourcePosition::zero(), SourcePosition::new(3, 13))
    );
}

#[test]
fn categorize_unordered_list_with_plus_char() {
    let list_block = SplitterBlock::new(
        "+ First item
+ Second item
+ Third item"
            .to_string(),
        SourceSpan::new(SourcePosition::zero(), SourcePosition::new(3, 13)),
    );

    let categorizer = BlockCategorizer::new();

    let categorized_block = categorizer.categorize(list_block);

    assert_eq!(categorized_block.kind(), &List);
    assert_eq!(
        categorized_block.src(),
        "+ First item
+ Second item
+ Third item"
    );
    assert_eq!(
        categorized_block.span(),
        &SourceSpan::new(SourcePosition::zero(), SourcePosition::new(3, 13))
    );
}

#[test]
fn categorize_unordered_list_with_star_char() {
    let list_block = SplitterBlock::new(
        "* First item
* Second item
* Third item"
            .to_string(),
        SourceSpan::new(SourcePosition::zero(), SourcePosition::new(3, 13)),
    );

    let categorizer = BlockCategorizer::new();

    let categorized_block = categorizer.categorize(list_block);

    assert_eq!(categorized_block.kind(), &List);
    assert_eq!(
        categorized_block.src(),
        "* First item
* Second item
* Third item"
    );
    assert_eq!(
        categorized_block.span(),
        &SourceSpan::new(SourcePosition::zero(), SourcePosition::new(3, 13))
    );
}

#[test]
fn categorize_nested_list() {
    let list_block = SplitterBlock::new(
        "- First item
    - Second item
    - Third item"
            .to_string(),
        SourceSpan::new(SourcePosition::zero(), SourcePosition::new(3, 17)),
    );

    let categorizer = BlockCategorizer::new();

    let categorized_block = categorizer.categorize(list_block);

    assert_eq!(categorized_block.kind(), &List);
    assert_eq!(
        categorized_block.src(),
        "- First item
    - Second item
    - Third item"
    );
    assert_eq!(
        categorized_block.span(),
        &SourceSpan::new(SourcePosition::zero(), SourcePosition::new(3, 17))
    );
}

#[test]
fn categorize_list_with_first_item_indented_as_text() {
    let list_block = SplitterBlock::new(
        "   - First item
    - Second item
    - Third item"
            .to_string(),
        SourceSpan::new(SourcePosition::zero(), SourcePosition::new(3, 17)),
    );

    let categorizer = BlockCategorizer::new();

    let categorized_block = categorizer.categorize(list_block);

    assert_eq!(categorized_block.kind(), &Text);
    assert_eq!(
        categorized_block.src(),
        "   - First item
    - Second item
    - Third item"
    );
    assert_eq!(
        categorized_block.span(),
        &SourceSpan::new(SourcePosition::zero(), SourcePosition::new(3, 17))
    );
}

#[test]
fn categorize_horizontal_rule_with_minus_char() {
    let horizontal_rule_block = SplitterBlock::new(
        "---".to_string(),
        SourceSpan::new(SourcePosition::zero(), SourcePosition::new(1, 4)),
    );

    let categorizer = BlockCategorizer::new();

    let categorized_block = categorizer.categorize(horizontal_rule_block);

    assert_eq!(categorized_block.kind(), &HorizontalRule);
    assert_eq!(categorized_block.src(), "---");
    assert_eq!(
        categorized_block.span(),
        &SourceSpan::new(SourcePosition::zero(), SourcePosition::new(1, 4))
    );
}

#[test]
fn categorize_horizontal_rule_with_star_char() {
    let horizontal_rule_block = SplitterBlock::new(
        "***".to_string(),
        SourceSpan::new(SourcePosition::zero(), SourcePosition::new(1, 4)),
    );

    let categorizer = BlockCategorizer::new();

    let categorized_block = categorizer.categorize(horizontal_rule_block);

    assert_eq!(categorized_block.kind(), &HorizontalRule);
    assert_eq!(categorized_block.src(), "***");
    assert_eq!(
        categorized_block.span(),
        &SourceSpan::new(SourcePosition::zero(), SourcePosition::new(1, 4))
    );
}

#[test]
fn categorize_faulty_horizontal_rule_with_stars_as_text() {
    let horizontal_rule_block = SplitterBlock::new(
        "***Some text***".to_string(),
        SourceSpan::new(SourcePosition::zero(), SourcePosition::new(1, 16)),
    );

    let categorizer = BlockCategorizer::new();

    let categorized_block = categorizer.categorize(horizontal_rule_block);

    assert_eq!(categorized_block.kind(), &Text);
    assert_eq!(categorized_block.src(), "***Some text***");
    assert_eq!(
        categorized_block.span(),
        &SourceSpan::new(SourcePosition::zero(), SourcePosition::new(1, 16))
    );
}

#[test]
fn categorize_horizontal_rule_with_plus_char() {
    let horizontal_rule_block = SplitterBlock::new(
        "+++".to_string(),
        SourceSpan::new(SourcePosition::zero(), SourcePosition::new(1, 4)),
    );

    let categorizer = BlockCategorizer::new();

    let categorized_block = categorizer.categorize(horizontal_rule_block);

    assert_eq!(categorized_block.kind(), &HorizontalRule);
    assert_eq!(categorized_block.src(), "+++");
    assert_eq!(
        categorized_block.span(),
        &SourceSpan::new(SourcePosition::zero(), SourcePosition::new(1, 4))
    );
}

#[test]
fn categorize_horizontal_rule_with_underscore_char() {
    let horizontal_rule_block = SplitterBlock::new(
        "___".to_string(),
        SourceSpan::new(SourcePosition::zero(), SourcePosition::new(1, 4)),
    );

    let categorizer = BlockCategorizer::new();

    let categorized_block = categorizer.categorize(horizontal_rule_block);

    assert_eq!(categorized_block.kind(), &HorizontalRule);
    assert_eq!(categorized_block.src(), "___");
    assert_eq!(
        categorized_block.span(),
        &SourceSpan::new(SourcePosition::zero(), SourcePosition::new(1, 4))
    );
}

#[test]
fn categorize_horizontal_rule_with_a_lot_of_chars() {
    let horizontal_rule_block = SplitterBlock::new(
        "--------------------------".to_string(),
        SourceSpan::new(SourcePosition::zero(), SourcePosition::new(1, 27)),
    );

    let categorizer = BlockCategorizer::new();

    let categorized_block = categorizer.categorize(horizontal_rule_block);

    assert_eq!(categorized_block.kind(), &HorizontalRule);
    assert_eq!(categorized_block.src(), "--------------------------");
    assert_eq!(
        categorized_block.span(),
        &SourceSpan::new(SourcePosition::zero(), SourcePosition::new(1, 27))
    );
}

#[test]
fn categorize_horizontal_rule_with_less_than_three_chars_as_text() {
    let horizontal_rule_block = SplitterBlock::new(
        "--".to_string(),
        SourceSpan::new(SourcePosition::zero(), SourcePosition::new(1, 3)),
    );

    let categorizer = BlockCategorizer::new();

    let categorized_block = categorizer.categorize(horizontal_rule_block);

    assert_eq!(categorized_block.kind(), &Text);
    assert_eq!(categorized_block.src(), "--");
    assert_eq!(
        categorized_block.span(),
        &SourceSpan::new(SourcePosition::zero(), SourcePosition::new(1, 3))
    );
}

#[test]
fn categorize_heading() {
    let heading_block = SplitterBlock::new(
        "# This is a heading".to_string(),
        SourceSpan::new(SourcePosition::zero(), SourcePosition::new(1, 20)),
    );

    let categorizer = BlockCategorizer::new();

    let categorized_block = categorizer.categorize(heading_block);

    assert_eq!(categorized_block.kind(), &Heading);
    assert_eq!(categorized_block.src(), "# This is a heading");
    assert_eq!(
        categorized_block.span(),
        &SourceSpan::new(SourcePosition::zero(), SourcePosition::new(1, 20))
    );
}

#[test]
fn categorize_image() {
    let image_block = SplitterBlock::new(
        "![This is an image](https://example.com/image.png)".to_string(),
        SourceSpan::new(SourcePosition::zero(), SourcePosition::new(1, 51)),
    );

    let categorizer = BlockCategorizer::new();

    let categorized_block = categorizer.categorize(image_block);

    assert_eq!(categorized_block.kind(), &Image);
    assert_eq!(
        categorized_block.src(),
        "![This is an image](https://example.com/image.png)"
    );
    assert_eq!(
        categorized_block.span(),
        &SourceSpan::new(SourcePosition::zero(), SourcePosition::new(1, 51))
    );
}

#[test]
fn categorize_image_with_empty_tag() {
    let image_block = SplitterBlock::new(
        "![](https://example.com/image.png)".to_string(),
        SourceSpan::new(SourcePosition::zero(), SourcePosition::new(1, 35)),
    );

    let categorizer = BlockCategorizer::new();

    let categorized_block = categorizer.categorize(image_block);

    assert_eq!(categorized_block.kind(), &Image);
    assert_eq!(
        categorized_block.src(),
        "![](https://example.com/image.png)"
    );
    assert_eq!(
        categorized_block.span(),
        &SourceSpan::new(SourcePosition::zero(), SourcePosition::new(1, 35))
    );
}

#[test]
fn categorize_faulty_image_as_text() {
    let image_block = SplitterBlock::new(
        "!(https://example.com/image.png)".to_string(),
        SourceSpan::new(SourcePosition::zero(), SourcePosition::new(1, 33)),
    );

    let categorizer = BlockCategorizer::new();

    let categorized_block = categorizer.categorize(image_block);

    assert_eq!(categorized_block.kind(), &Text);
    assert_eq!(categorized_block.src(), "!(https://example.com/image.png)");
    assert_eq!(
        categorized_block.span(),
        &SourceSpan::new(SourcePosition::zero(), SourcePosition::new(1, 33))
    );
}

#[test]
fn categorize_faulty_image_as_text_2() {
    let image_block = SplitterBlock::new(
        "!".to_string(),
        SourceSpan::new(SourcePosition::zero(), SourcePosition::new(1, 2)),
    );

    let categorizer = BlockCategorizer::new();

    let categorized_block = categorizer.categorize(image_block);

    assert_eq!(categorized_block.kind(), &Text);
    assert_eq!(categorized_block.src(), "!");
    assert_eq!(
        categorized_block.span(),
        &SourceSpan::new(SourcePosition::zero(), SourcePosition::new(1, 2))
    );
}

#[test]
fn categorize_faulty_image_as_text_3() {
    let image_block = SplitterBlock::new(
        "![tag]".to_string(),
        SourceSpan::new(SourcePosition::zero(), SourcePosition::new(1, 7)),
    );

    let categorizer = BlockCategorizer::new();

    let categorized_block = categorizer.categorize(image_block);

    assert_eq!(categorized_block.kind(), &Text);
    assert_eq!(categorized_block.src(), "![tag]");
    assert_eq!(
        categorized_block.span(),
        &SourceSpan::new(SourcePosition::zero(), SourcePosition::new(1, 7))
    );
}

#[test]
fn categorize_image_followed_by_text_as_text() {
    let image_block = SplitterBlock::new(
        "![tag](of_image_src) hello world".to_string(),
        SourceSpan::new(SourcePosition::zero(), SourcePosition::new(1, 33)),
    );

    let categorizer = BlockCategorizer::new();

    let categorized_block = categorizer.categorize(image_block);

    assert_eq!(categorized_block.kind(), &Text);
    assert_eq!(categorized_block.src(), "![tag](of_image_src) hello world");
    assert_eq!(
        categorized_block.span(),
        &SourceSpan::new(SourcePosition::zero(), SourcePosition::new(1, 33))
    );
}

#[test]
fn categorize_text_starting_with_function() {
    let text_block = SplitterBlock::new(
        "#fn(test) Hello World".to_string(),
        SourceSpan::new(SourcePosition::zero(), SourcePosition::new(1, 22)),
    );

    let categorizer = BlockCategorizer::new();

    let categorized_block = categorizer.categorize(text_block);

    assert_eq!(categorized_block.kind(), &Text);
    assert_eq!(categorized_block.src(), "#fn(test) Hello World");
    assert_eq!(
        categorized_block.span(),
        &SourceSpan::new(SourcePosition::zero(), SourcePosition::new(1, 22))
    );
}

#[test]
fn categorize_function_without_name_as_text() {
    let text_block = SplitterBlock::new(
        "#(test)".to_string(),
        SourceSpan::new(SourcePosition::zero(), SourcePosition::new(1, 8)),
    );

    let categorizer = BlockCategorizer::new();

    let categorized_block = categorizer.categorize(text_block);

    assert_eq!(categorized_block.kind(), &Text);
    assert_eq!(categorized_block.src(), "#(test)");
    assert_eq!(
        categorized_block.span(),
        &SourceSpan::new(SourcePosition::zero(), SourcePosition::new(1, 8))
    );
}

#[test]
fn categorize_function_without_params_followed_by_text_as_text() {
    let text_block = SplitterBlock::new(
        "#break and some text".to_string(),
        SourceSpan::new(SourcePosition::zero(), SourcePosition::new(1, 21)),
    );

    let categorizer = BlockCategorizer::new();

    let categorized_block = categorizer.categorize(text_block);

    assert_eq!(categorized_block.kind(), &Text);
    assert_eq!(categorized_block.src(), "#break and some text");
    assert_eq!(
        categorized_block.span(),
        &SourceSpan::new(SourcePosition::zero(), SourcePosition::new(1, 21))
    );
}

#[test]
fn categorize_function() {
    let function_block = SplitterBlock::new(
        "\
#image(
    width: 100px, 
    height: 100px, 
    src: \"test.jpg\"
)\
"
        .to_string(),
        SourceSpan::new(SourcePosition::zero(), SourcePosition::new(5, 1)),
    );

    let categorizer = BlockCategorizer::new();

    let categorized_block = categorizer.categorize(function_block);

    assert_eq!(categorized_block.kind(), &Function);
    assert_eq!(
        categorized_block.src(),
        "\
#image(
    width: 100px, 
    height: 100px, 
    src: \"test.jpg\"
)\
"
    );
    assert_eq!(
        categorized_block.span(),
        &SourceSpan::new(SourcePosition::zero(), SourcePosition::new(5, 1))
    );
}

#[test]
fn categorize_function_without_params() {
    let function_block = SplitterBlock::new(
        "#break".to_string(),
        SourceSpan::new(SourcePosition::zero(), SourcePosition::new(1, 7)),
    );

    let categorizer = BlockCategorizer::new();

    let categorized_block = categorizer.categorize(function_block);

    assert_eq!(categorized_block.kind(), &Function);
    assert_eq!(categorized_block.src(), "#break");
    assert_eq!(
        categorized_block.span(),
        &SourceSpan::new(SourcePosition::zero(), SourcePosition::new(1, 7))
    );
}
