use md2letter_convert::{convert, ConvertError};

fn converted(src: &str) -> String {
    convert(src.as_bytes()).unwrap()
}

#[test]
fn converts_a_heading() {
    assert_eq!(converted("# Hi"), "<heading>\n    Hi\n</heading>\n");
}

#[test]
fn converts_a_list_with_a_nested_ordered_list() {
    assert_eq!(
        converted("- a\n- b\n  1. c"),
        "\
<list>
    <list-item>
        a
    </list-item>
    <list-item>
        b
    </list-item>
    <list ordered=\"true\">
        <list-item>
            c
        </list-item>
    </list>
</list>
"
    );
}

#[test]
fn converts_a_quote_with_a_nested_quote() {
    assert_eq!(
        converted("> a\n>> b\n> c"),
        "\
<quote>
    a
    <quote>
        b
    </quote>
    c
</quote>
"
    );
}

#[test]
fn converts_a_code_block_with_a_language() {
    assert_eq!(
        converted("```js\nx\n```"),
        "<code language=\"js\">\n    x\n</code>\n"
    );
}

#[test]
fn converts_bold_inside_italic() {
    assert_eq!(
        converted("a *b **c** d*"),
        "<paragraph>\n    a \n    <i>\n        b \n        <b>\n            c\n        </b>\n         d\n    </i>\n</paragraph>\n"
    );
}

#[test]
fn converts_a_function_with_attributes_in_the_order_of_their_names() {
    assert_eq!(
        converted("#image(src: x, width: 2)"),
        "<image src=\"x\" width=\"2\">\n</image>\n"
    );
    assert_eq!(
        converted("#image(width: 2, src: x)"),
        "<image src=\"x\" width=\"2\">\n</image>\n"
    );
}

#[test]
fn converts_an_empty_document_to_nothing() {
    assert_eq!(converted(""), "");
    assert_eq!(converted(" \n\t\n  \n"), "");
}

#[test]
fn reads_crlf_like_lf() {
    assert_eq!(
        converted("# Hi\r\n\r\nsome\r\ntext\r\n"),
        converted("# Hi\n\nsome\ntext\n")
    );
    assert_eq!(
        converted("# Hi\r\n\r\nsome\r\ntext\r\n"),
        "<heading>\n    Hi\n</heading>\n<paragraph>\n    some text\n</paragraph>\n"
    );
}

#[test]
fn keeps_characters_outside_ascii() {
    assert_eq!(
        converted("Grüße, 世界 🎉"),
        "<paragraph>\n    Grüße, 世界 🎉\n</paragraph>\n"
    );
}

#[test]
fn refuses_input_that_is_not_utf8() {
    let result = convert(&[b'a', 0xff, b'b']);
    assert!(matches!(result, Err(ConvertError::Decode)));

    // an encoding that is longer than it has to be
    let result = convert(&[0xc1, 0xbf]);
    assert!(matches!(result, Err(ConvertError::Decode)));

    // a character that ends too early
    let result = convert(&[b'a', 0xe4, 0xb8]);
    assert!(matches!(result, Err(ConvertError::Decode)));
}

#[test]
fn reports_the_first_block_that_cannot_be_parsed() {
    let result = convert("fine\n\nan `open code span\n\n# later".as_bytes());
    match result {
        Err(ConvertError::Parse(e)) => {
            assert_eq!(e.message, "Could not find closing backtick");
            assert_eq!(e.source_position.line, 3);
            assert_eq!(e.source_position.column, 4);
        }
        _ => panic!("Expected a parse error"),
    }
}

#[test]
fn puts_headings_into_sections_by_their_levels() {
    assert_eq!(
        converted("# One\n\n### Three\n\n## Two\n\n# Again"),
        "\
<heading>
    One
</heading>
<section>
    <section>
        <heading>
            Three
        </heading>
    </section>
    <heading>
        Two
    </heading>
</section>
<heading>
    Again
</heading>
"
    );
}

#[test]
fn converts_a_table_an_image_and_a_rule() {
    assert_eq!(
        converted("| A | B |\n| - | - |\n| 1 | 2 |\n\n![The *label*](pic.png)\n\n___"),
        "\
<table>
    <table-header-row>
        <table-cell>
            A
        </table-cell>
        <table-cell>
            B
        </table-cell>
    </table-header-row>
    <table-row>
        <table-cell>
            1
        </table-cell>
        <table-cell>
            2
        </table-cell>
    </table-row>
</table>
<image src=\"pic.png\">
    The 
    <i>
        label
    </i>
</image>
<horizontal-rule/>
"
    );
}

#[test]
fn indents_the_lines_of_code() {
    assert_eq!(
        converted("# T\n\n## S\n\n```\na\n\n  b\n```"),
        "\
<heading>
    T
</heading>
<section>
    <heading>
        S
    </heading>
    <code>
        a
        
          b
    </code>
</section>
"
    );
}
