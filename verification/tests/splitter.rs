use md2letter_convert::splitter::BlockSplitter;

#[test]
fn single_block() {
    let src = r#"This is a simple paragraph.
It contains of two lines and sentences."#;

    let mut splitter = BlockSplitter::new(src.as_bytes());

    let block = splitter.next().unwrap();
    assert_eq!(block.src(), src);
    assert_eq!(block.span().start.line, 1);
    assert_eq!(block.span().start.column, 1);
    assert_eq!(block.span().end.line, 2);
    assert_eq!(block.span().end.column, 40);

    assert!(splitter.next().is_none());
}

#[test]
fn multiple_blocks() {
    let src = r#"This is a simple paragraph.
It contains of two lines and sentences.

This is a second paragraph.
It contains of three lines and sentences.
The paragraph is finalized by this sentence."#;

    let mut splitter = BlockSplitter::new(src.as_bytes());

    let first_block = splitter.next().unwrap();
    assert_eq!(
        first_block.src(),
        r#"This is a simple paragraph.
It contains of two lines and sentences."#
    );
    assert_eq!(first_block.span().start.line, 1);
    assert_eq!(first_block.span().start.column, 1);
    assert_eq!(first_block.span().end.line, 2);
    assert_eq!(first_block.span().end.column, 40);

    let second_block = splitter.next().unwrap();
    assert_eq!(
        second_block.src(),
        r#"This is a second paragraph.
It contains of three lines and sentences.
The paragraph is finalized by this sentence."#
    );
    assert_eq!(second_block.span().start.line, 4);
    assert_eq!(second_block.span().start.column, 1);
    assert_eq!(second_block.span().end.line, 6);
    assert_eq!(second_block.span().end.column, 45);

    assert!(splitter.next().is_none());
}

#[test]
fn empty_source() {
    let src = "";

    let mut splitter = BlockSplitter::new(src.as_bytes());

    assert!(splitter.next().is_none());
}

#[test]
fn ignore_consecutive_empty_lines() {
    let src = r#"Somewhere



over


the

rainbow!"#;

    let mut splitter = BlockSplitter::new(src.as_bytes());

    let block = splitter.next().unwrap();
    assert_eq!(block.src(), "Somewhere");
    assert_eq!(block.span().start.line, 1);
    assert_eq!(block.span().start.column, 1);
    assert_eq!(block.span().end.line, 1);
    assert_eq!(block.span().end.column, 10);

    let block = splitter.next().unwrap();
    assert_eq!(block.src(), "over");
    assert_eq!(block.span().start.line, 5);
    assert_eq!(block.span().start.column, 1);
    assert_eq!(block.span().end.line, 5);
    assert_eq!(block.span().end.column, 5);

    let block = splitter.next().unwrap();
    assert_eq!(block.src(), "the");
    assert_eq!(block.span().start.line, 8);
    assert_eq!(block.span().start.column, 1);
    assert_eq!(block.span().end.line, 8);
    assert_eq!(block.span().end.column, 4);

    let block = splitter.next().unwrap();
    assert_eq!(block.src(), "rainbow!");
    assert_eq!(block.span().start.line, 10);
    assert_eq!(block.span().start.column, 1);
    assert_eq!(block.span().end.line, 10);
    assert_eq!(block.span().end.column, 9);

    assert!(splitter.next().is_none());
}

#[test]
fn allow_empty_lines_in_code_block() {
    let src = r#"```
const test = "test";

console.log(test);
```"#;

    let mut splitter = BlockSplitter::new(src.as_bytes());

    let block = splitter.next().unwrap();
    assert_eq!(
        block.src(),
        r#"```
const test = "test";

console.log(test);
```"#
    );
    assert_eq!(block.span().start.line, 1);
    assert_eq!(block.span().start.column, 1);
    assert_eq!(block.span().end.line, 5);
    assert_eq!(block.span().end.column, 4);

    assert!(splitter.next().is_none());
}
