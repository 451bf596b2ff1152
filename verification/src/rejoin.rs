//! Splitting is complete: the blocks of a text, joined with a blank line between them, split
//! into the same blocks again.

use vstd::prelude::*;
use crate::chars::{is_whitespace_char, trim_start_at};
use crate::splitter::{
    after_char, block_at, block_end, fresh, lemma_block_end_bounds, sources, sources_from,
    BlockRange, BlockScan,
};

verus! {

/// The blocks with a blank line between each two of them.
pub open spec fn joined(blocks: Seq<Seq<char>>) -> Seq<char>
    decreases blocks.len(),
{
    if blocks.len() == 0 {
        Seq::<char>::empty()
    } else if blocks.len() == 1 {
        blocks[0]
    } else {
        blocks[0] + seq!['\n', '\n'] + joined(blocks.drop_first())
    }
}

/// The scan `scan` of a block that stands `d` characters further on.
pub open spec fn moved(scan: BlockScan, d: int) -> BlockScan {
    BlockScan { end: scan.end + d, ..scan }
}

pub open spec fn moved_option(scan: Option<BlockScan>, d: int) -> Option<BlockScan> {
    match scan {
        Some(x) => Some(moved(x, d)),
        None => None,
    }
}

/// The scan of the block that starts at `start` after the characters of `j..to`, for the
/// scan `scan` at `j`; `None` where the block ends in front of one of these characters.
pub open spec fn scan_through(
    s: Seq<char>,
    start: int,
    j: int,
    to: int,
    scan: BlockScan,
) -> Option<BlockScan>
    decreases to - j,
{
    if j >= to {
        Some(scan)
    } else if s[j] == '\n' {
        scan_through(s, start, j + 1, to, BlockScan { newlines: scan.newlines + 1, ..scan })
    } else if is_whitespace_char(s[j]) {
        scan_through(s, start, j + 1, to, scan)
    } else if scan.newlines >= 2 && !scan.in_code {
        None
    } else {
        scan_through(s, start, j + 1, to, after_char(s[j], start, j, scan))
    }
}

/// A scan over `j..to` is a scan over `j..mid` and then one over `mid..to`.
pub proof fn lemma_through_chain(
    s: Seq<char>,
    start: int,
    j: int,
    mid: int,
    to: int,
    scan: BlockScan,
)
    requires
        j <= mid <= to,
    ensures
        scan_through(s, start, j, to, scan) == (match scan_through(s, start, j, mid, scan) {
            Some(x) => scan_through(s, start, mid, to, x),
            None => None,
        }),
    decreases mid - j,
{
    if j < mid {
        if s[j] == '\n' {
            lemma_through_chain(
                s,
                start,
                j + 1,
                mid,
                to,
                BlockScan { newlines: scan.newlines + 1, ..scan },
            );
        } else if is_whitespace_char(s[j]) {
            lemma_through_chain(s, start, j + 1, mid, to, scan);
        } else if scan.newlines >= 2 && !scan.in_code {
        } else {
            lemma_through_chain(s, start, j + 1, mid, to, after_char(s[j], start, j, scan));
        }
    }
}

/// Where the block did not end in `j..to`, it ends where it ends for the scan at `to`.
pub proof fn lemma_end_behind(s: Seq<char>, start: int, j: int, to: int, scan: BlockScan)
    requires
        0 <= j <= to <= s.len(),
        scan_through(s, start, j, to, scan).is_some(),
    ensures
        block_end(s, start, j, scan) == block_end(
            s,
            start,
            to,
            scan_through(s, start, j, to, scan).unwrap(),
        ),
    decreases to - j,
{
    if j < to {
        if s[j] == '\n' {
            lemma_end_behind(s, start, j + 1, to, BlockScan { newlines: scan.newlines + 1, ..scan });
        } else if is_whitespace_char(s[j]) {
            lemma_end_behind(s, start, j + 1, to, scan);
        } else if scan.newlines >= 2 && !scan.in_code {
        } else {
            lemma_end_behind(s, start, j + 1, to, after_char(s[j], start, j, scan));
        }
    }
}

/// The scan over characters does not depend on where they stand: the same characters `d`
/// places further on in another text give the same scan, `d` places further on.
pub proof fn lemma_through_moved(
    s: Seq<char>,
    t: Seq<char>,
    d: int,
    start: int,
    j: int,
    to: int,
    scan: BlockScan,
)
    requires
        0 <= j <= to <= s.len(),
        0 <= j + d,
        to + d <= t.len(),
        forall|i: int| j <= i < to ==> t[i + d] == #[trigger] s[i],
    ensures
        scan_through(t, start + d, j + d, to + d, moved(scan, d)) == moved_option(
            scan_through(s, start, j, to, scan),
            d,
        ),
    decreases to - j,
{
    if j < to {
        assert(t[j + d] == s[j]);
        if s[j] == '\n' {
            lemma_through_moved(
                s,
                t,
                d,
                start,
                j + 1,
                to,
                BlockScan { newlines: scan.newlines + 1, ..scan },
            );
            assert(moved(BlockScan { newlines: scan.newlines + 1, ..scan }, d) == (BlockScan {
                newlines: moved(scan, d).newlines + 1,
                ..moved(scan, d)
            }));
        } else if is_whitespace_char(s[j]) {
            lemma_through_moved(s, t, d, start, j + 1, to, scan);
        } else if scan.newlines >= 2 && !scan.in_code {
        } else {
            lemma_through_moved(s, t, d, start, j + 1, to, after_char(s[j], start, j, scan));
            assert(moved(after_char(s[j], start, j, scan), d) == after_char(
                t[j + d],
                start + d,
                j + d,
                moved(scan, d),
            ));
        }
    }
}

/// The end of a block does not depend on where the block stands: the same characters up to
/// the end of the text, `d` places further on in another text, end the block `d` places
/// further on.
pub proof fn lemma_end_moved(
    s: Seq<char>,
    t: Seq<char>,
    d: int,
    start: int,
    j: int,
    scan: BlockScan,
)
    requires
        0 <= j <= s.len(),
        0 <= j + d,
        t.len() == s.len() + d,
        forall|i: int| j <= i < s.len() ==> t[i + d] == #[trigger] s[i],
    ensures
        block_end(t, start + d, j + d, moved(scan, d)) == (
            block_end(s, start, j, scan).0 + d,
            block_end(s, start, j, scan).1 + d,
        ),
    decreases s.len() - j,
{
    if j < s.len() {
        assert(t[j + d] == s[j]);
        if s[j] == '\n' {
            lemma_end_moved(s, t, d, start, j + 1, BlockScan { newlines: scan.newlines + 1, ..scan });
            assert(moved(BlockScan { newlines: scan.newlines + 1, ..scan }, d) == (BlockScan {
                newlines: moved(scan, d).newlines + 1,
                ..moved(scan, d)
            }));
        } else if is_whitespace_char(s[j]) {
            lemma_end_moved(s, t, d, start, j + 1, scan);
        } else if scan.newlines >= 2 && !scan.in_code {
        } else {
            lemma_end_moved(s, t, d, start, j + 1, after_char(s[j], start, j, scan));
            assert(moved(after_char(s[j], start, j, scan), d) == after_char(
                t[j + d],
                start + d,
                j + d,
                moved(scan, d),
            ));
        }
    }
}

/// Where the white space at the start ends does not depend on where the text stands.
pub proof fn lemma_trim_moved(s: Seq<char>, t: Seq<char>, d: int, from: int)
    requires
        0 <= from <= s.len(),
        0 <= from + d,
        t.len() == s.len() + d,
        forall|i: int| from <= i < s.len() ==> t[i + d] == #[trigger] s[i],
    ensures
        trim_start_at(t, from + d, t.len() as int) == trim_start_at(s, from, s.len() as int) + d,
        from <= trim_start_at(s, from, s.len() as int) <= s.len(),
        trim_start_at(s, from, s.len() as int) < s.len() ==> !is_whitespace_char(
            s[trim_start_at(s, from, s.len() as int)],
        ),
    decreases s.len() - from,
{
    if from < s.len() {
        assert(t[from + d] == s[from]);
        if is_whitespace_char(s[from]) {
            lemma_trim_moved(s, t, d, from + 1);
        }
    }
}

/// The blocks of a text do not depend on where the text stands: the same characters up to
/// the end of the text, `d` places further on in another text, are split into the same
/// blocks.
pub proof fn lemma_sources_moved(s: Seq<char>, t: Seq<char>, d: int, from: int)
    requires
        0 <= from <= s.len(),
        0 <= d,
        t.len() == s.len() + d,
        forall|i: int| from <= i < s.len() ==> t[i + d] == #[trigger] s[i],
    ensures
        sources_from(t, from + d) == sources_from(s, from),
    decreases s.len() - from,
{
    lemma_trim_moved(s, t, d, from);
    let start = trim_start_at(s, from, s.len() as int);
    if start < s.len() {
        let b = block_at(s, from).unwrap();
        let c = block_at(t, from + d).unwrap();
        assert forall|i: int| start <= i < s.len() implies t[i + d] == #[trigger] s[i] by {}
        lemma_end_moved(s, t, d, start, start, fresh(start));
        assert(moved(fresh(start), d) == fresh(start + d));
        lemma_block_end_bounds(s, start, start, fresh(start));
        assert(c.start == b.start + d && c.end == b.end + d && c.next == b.next + d);
        assert(t.subrange(c.start, c.end) =~= s.subrange(b.start, b.end));
        assert forall|i: int| b.next <= i < s.len() implies t[i + d] == #[trigger] s[i] by {}
        lemma_sources_moved(s, t, d, b.next);
    }
}

/// What is known of the scan `scan` at `j` in the block that starts at `start`: it is the
/// scan of the characters from the start on, and the scan at the end of the block so far has
/// read no line feed behind that end and knows the same of code blocks.
pub open spec fn scan_known(s: Seq<char>, start: int, j: int, scan: BlockScan) -> bool {
    &&& 0 <= start <= scan.end <= j <= s.len()
    &&& scan_through(s, start, start, j, fresh(start)) == Some(scan)
    &&& scan_through(s, start, start, scan.end, fresh(start)) matches Some(y) && y.end == scan.end
        && y.newlines == 0 && y.in_code == scan.in_code
}

/// At the end of a block the scan has read no line feed behind the last character of the
/// block, and is outside a code block where the text goes on behind the block.
pub proof fn lemma_scan_at_end(s: Seq<char>, start: int, j: int, scan: BlockScan)
    requires
        scan_known(s, start, j, scan),
    ensures
        scan_through(s, start, start, block_end(s, start, j, scan).0, fresh(start)) matches Some(x)
            && x.end == block_end(s, start, j, scan).0 && x.newlines == 0 && (block_end(
            s,
            start,
            j,
            scan,
        ).1 < s.len() ==> !x.in_code),
    decreases s.len() - j,
{
    if j < s.len() {
        lemma_through_chain(s, start, start, j, j + 1, fresh(start));
        if s[j] == '\n' {
            let next = BlockScan { newlines: scan.newlines + 1, ..scan };
            assert(scan_through(s, start, j + 1, j + 1, next) == Some(next));
            assert(scan_through(s, start, j, j + 1, scan) == Some(next));
            lemma_scan_at_end(s, start, j + 1, next);
        } else if is_whitespace_char(s[j]) {
            assert(scan_through(s, start, j + 1, j + 1, scan) == Some(scan));
            assert(scan_through(s, start, j, j + 1, scan) == Some(scan));
            lemma_scan_at_end(s, start, j + 1, scan);
        } else if scan.newlines >= 2 && !scan.in_code {
        } else {
            let next = after_char(s[j], start, j, scan);
            assert(scan_through(s, start, j + 1, j + 1, next) == Some(next));
            assert(scan_through(s, start, j, j + 1, scan) == Some(next));
            lemma_scan_at_end(s, start, j + 1, next);
        }
    }
}

/// A text that starts with `first` and goes on with a blank line and a character that is no
/// white space has `first` as its first block, where `first` is a block by itself and does
/// not end inside a code block.
proof fn lemma_first_block(u: Seq<char>, len: int, x: BlockScan)
    requires
        0 < len,
        len + 2 < u.len(),
        !is_whitespace_char(u[0]),
        u[len] == '\n',
        u[len + 1] == '\n',
        !is_whitespace_char(u[len + 2]),
        scan_through(u, 0, 0, len, fresh(0)) == Some(x),
        x.end == len,
        x.newlines == 0,
        !x.in_code,
    ensures
        block_at(u, 0) == Some(BlockRange { start: 0, end: len, next: len + 2 }),
{
    lemma_end_behind(u, 0, 0, len, fresh(0));
    let one = BlockScan { newlines: 1, ..x };
    let two = BlockScan { newlines: 2, ..x };
    assert(block_end(u, 0, len, x) == block_end(u, 0, len + 1, one));
    assert(block_end(u, 0, len + 1, one) == block_end(u, 0, len + 2, two));
    assert(block_end(u, 0, len + 2, two) == (len, len + 2));
}

/// The blocks joined start with the first block, and go on with a blank line and the other
/// blocks joined.
proof fn lemma_joined_parts(blocks: Seq<Seq<char>>)
    requires
        blocks.len() >= 2,
        blocks[0].len() > 0,
        blocks[1].len() > 0,
    ensures
        joined(blocks).len() == blocks[0].len() + 2 + joined(blocks.drop_first()).len(),
        joined(blocks).subrange(0, blocks[0].len() as int) == blocks[0],
        joined(blocks)[blocks[0].len() as int] == '\n',
        joined(blocks)[blocks[0].len() as int + 1] == '\n',
        joined(blocks.drop_first()).len() > 0,
        joined(blocks)[blocks[0].len() as int + 2] == blocks[1][0],
        forall|i: int|
            0 <= i < joined(blocks.drop_first()).len() ==> joined(blocks)[i + blocks[0].len() as int + 2]
                == #[trigger] joined(blocks.drop_first())[i],
{
    let rest = blocks.drop_first();
    assert(rest[0] == blocks[1]);
    assert(joined(blocks).subrange(0, blocks[0].len() as int) =~= blocks[0]);
    if rest.len() == 1 {
        assert(joined(rest) == rest[0]);
    } else {
        assert(joined(rest) == rest[0] + seq!['\n', '\n'] + joined(rest.drop_first()));
    }
}

/// The blocks of a text, joined with a blank line between each two of them, split into the
/// same blocks again.
pub proof fn lemma_rejoined_from(s: Seq<char>, from: int)
    requires
        0 <= from <= s.len(),
    ensures
        sources(joined(sources_from(s, from))) == sources_from(s, from),
        sources_from(s, from).len() > 0 ==> sources_from(s, from)[0].len() > 0
            && !is_whitespace_char(sources_from(s, from)[0][0]),
    decreases s.len() - from,
{
    lemma_trim_moved(s, s, 0, from);
    let start = trim_start_at(s, from, s.len() as int);
    if start < s.len() {
        let b = block_at(s, from).unwrap();
        lemma_block_end_bounds(s, start, start, fresh(start));
        let first = s.subrange(b.start, b.end);
        let len = first.len() as int;
        assert(first[0] == s[start]);
        lemma_rejoined_from(s, b.next);
        let rest = sources_from(s, b.next);
        let blocks = sources_from(s, from);
        assert(blocks =~= seq![first] + rest);
        assert(blocks.drop_first() =~= rest);
        let u = joined(blocks);
        // the scan at the end of the block, in the text and in the block by itself
        assert(scan_through(s, start, start, start, fresh(start)) == Some(fresh(start)));
        lemma_scan_at_end(s, start, start, fresh(start));
        let x = scan_through(s, start, start, b.end, fresh(start)).unwrap();
        if rest.len() == 0 {
            assert(u == first);
            lemma_through_moved(s, u, -start, start, start, b.end, fresh(start));
            assert(moved(fresh(start), -start) == fresh(0));
            lemma_end_behind(u, 0, 0, len, fresh(0));
            assert(block_end(u, 0, len, moved(x, -start)) == (len, len));
            assert(trim_start_at(u, 0, len) == 0);
            assert(block_at(u, 0) == Some(BlockRange { start: 0, end: len, next: len }));
            assert(block_at(u, len).is_none());
            assert(sources_from(u, len) =~= Seq::<Seq<char>>::empty());
            assert(u.subrange(0, len) =~= first);
            assert(sources_from(u, 0) =~= seq![first]);
        } else {
            assert(b.next < s.len()) by {
                if b.next >= s.len() {
                    assert(block_at(s, b.next).is_none());
                }
            }
            lemma_joined_parts(blocks);
            let tail = joined(rest);
            assert forall|i: int| start <= i < b.end implies u[i + (-start)] == #[trigger] s[i] by {
                assert(u.subrange(0, len)[i - start] == first[i - start]);
            }
            lemma_through_moved(s, u, -start, start, start, b.end, fresh(start));
            assert(moved(fresh(start), -start) == fresh(0));
            assert(u[0] == first[0]) by {
                assert(u.subrange(0, len)[0] == first[0]);
            }
            lemma_first_block(u, len, moved(x, -start));
            assert(u.subrange(0, len) =~= first);
            lemma_sources_moved(tail, u, len + 2, 0);
            assert(sources_from(u, 0) =~= seq![first] + sources_from(u, len + 2));
        }
    } else {
        assert(block_at(s, from).is_none());
        let u = joined(sources_from(s, from));
        assert(u =~= Seq::<char>::empty());
        assert(block_at(u, 0).is_none());
    }
}

/// Splitting is complete: the blocks of a text, joined with a blank line between each two
/// of them, split into the same blocks again.
pub proof fn lemma_rejoined(s: Seq<char>)
    ensures
        sources(joined(sources(s))) == sources(s),
{
    lemma_rejoined_from(s, 0);
}

} // verus!
