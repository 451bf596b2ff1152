use md2letter_convert::categorizer::BlockCategorizer;
use md2letter_convert::parser::BlockParser;
use md2letter_convert::splitter::BlockSplitter;
use md2letter_convert::transformer::transform;

fn to_letter_script_str(src: &'static str) -> String {
    let mut splitter = BlockSplitter::new(src.as_bytes());
    let categorizer = BlockCategorizer::new();
    let parser = BlockParser::new();

    let mut parsed_blocks = Vec::new();
    while let Some(block) = splitter.next() {
        let categorized_block = categorizer.categorize(block);
        parsed_blocks.push(parser.parse(categorized_block).unwrap());
    }

    let letter_script_tree = transform(parsed_blocks).unwrap();
    letter_script_tree.to_string()
}

#[test]
fn should_transform_trivial_heading() {
    assert_eq!(
        to_letter_script_str("# This is a heading"),
        "\
<heading>
    This is a heading
</heading>
"
    );
}

#[test]
fn should_transform_nested_headings() {
    assert_eq!(
        to_letter_script_str(
            "\
# This is a heading

## This is a subheading

With some content.

### This is a subsubheading

Here is some content.
"
        ),
        "\
<heading>
    This is a heading
</heading>
<section>
    <heading>
        This is a subheading
    </heading>
    <paragraph>
        With some content.
    </paragraph>
    <section>
        <heading>
            This is a subsubheading
        </heading>
        <paragraph>
            Here is some content.
        </paragraph>
    </section>
</section>
"
    );
}

#[test]
fn should_transform_text() {
    assert_eq!(
        to_letter_script_str(
            "\
Hello World, this is **bold text**.
We can also format in *italic* or even both ***bold and italic***.
"
        ),
        "\
<paragraph>
    Hello World, this is 
    <b>
        bold text
    </b>
    . We can also format in 
    <i>
        italic
    </i>
     or even both 
    <i>
        <b>
            bold and italic
        </b>
    </i>
    .
</paragraph>
"
    );
}

#[test]
fn should_transform_list() {
    assert_eq!(
        to_letter_script_str(
            "\
- A simple list item
- And another one
    - Now we are nested - yeehaw!
- And a third one
    - and
        - nesting
            1. even
            2. further
"
        ),
        "\
<list>
    <list-item>
        A simple list item
    </list-item>
    <list-item>
        And another one
    </list-item>
    <list>
        <list-item>
            Now we are nested - yeehaw!
        </list-item>
    </list>
    <list-item>
        And a third one
    </list-item>
    <list>
        <list-item>
            and
        </list-item>
        <list>
            <list-item>
                nesting
            </list-item>
            <list ordered=\"true\">
                <list-item>
                    even
                </list-item>
                <list-item>
                    further
                </list-item>
            </list>
        </list>
    </list>
</list>
"
    );
}

#[test]
fn should_transform_horizontal_rule() {
    assert_eq!(
        to_letter_script_str(
            "\
This is a paragraph.

---

This is another paragraph.
"
        ),
        "\
<paragraph>
    This is a paragraph.
</paragraph>
<horizontal-rule/>
<paragraph>
    This is another paragraph.
</paragraph>
"
    );
}

#[test]
fn should_transform_code_block() {
    assert_eq!(
        to_letter_script_str(
            "\
This is a paragraph.

```
This is a code block.

console.log('Hello World!');
```

This is another paragraph.
"
        ),
        "\
<paragraph>
    This is a paragraph.
</paragraph>
<code>
    This is a code block.
    
    console.log('Hello World!');
</code>
<paragraph>
    This is another paragraph.
</paragraph>
"
    );
}

#[test]
fn should_transform_quote() {
    assert_eq!(
        to_letter_script_str(
            "\
This is a paragraph.

> This is a quote.
> It can span multiple lines.
>> And it can be nested.
"
        ),
        "\
<paragraph>
    This is a paragraph.
</paragraph>
<quote>
    This is a quote. It can span multiple lines.
    <quote>
        And it can be nested.
    </quote>
</quote>
"
    );
}

#[test]
fn should_transform_table() {
    assert_eq!(
        to_letter_script_str(
            "\
| Column 1 | Column 2 |
| -------- | -------- |
| Cell 1   | Cell 2   |
| Cell 3   | Cell 4   |
"
        ),
        "\
<table>
    <table-header-row>
        <table-cell>
            Column 1
        </table-cell>
        <table-cell>
            Column 2
        </table-cell>
    </table-header-row>
    <table-row>
        <table-cell>
            Cell 1
        </table-cell>
        <table-cell>
            Cell 2
        </table-cell>
    </table-row>
    <table-row>
        <table-cell>
            Cell 3
        </table-cell>
        <table-cell>
            Cell 4
        </table-cell>
    </table-row>
</table>
"
    );
}

#[test]
fn should_transform_image() {
    assert_eq!(
        to_letter_script_str(
            "\
This is a paragraph.

![This is an image](image.png)
"
        ),
        "\
<paragraph>
    This is a paragraph.
</paragraph>
<image src=\"image.png\">
    This is an image
</image>
"
    );
}

#[test]
fn should_transform_link() {
    assert_eq!(
        to_letter_script_str(
            "\
This is a [link](https://example.com).
"
        ),
        "\
<paragraph>
    This is a 
    <link target=\"https://example.com\">
        link
    </link>
    .
</paragraph>
"
    );
}

#[test]
fn should_transform_function() {
    assert_eq!(
        to_letter_script_str(
            "\
#image(
    width: 100px,
    height: 200px,
    src: image.png
)
"
        ),
        "\
<image height=\"200px\" src=\"image.png\" width=\"100px\">
</image>
"
    );
}
