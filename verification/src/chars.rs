//! Character sequences: conversion from and to strings, whitespace, trimming, lines and order.

use vstd::prelude::*;

verus! {

/// `String::push` of std: appends one character to the string.
#[verifier::external_body]
fn push_char(s: &mut String, c: char)
    ensures
        final(s)@ == old(s)@.push(c),
{
    s.push(c)
}

/// The characters of a string, in order.
pub fn to_chars(s: &str) -> (v: Vec<char>)
    ensures
        v@ == s@,
{
    let mut v: Vec<char> = Vec::new();
    for c in it: s.chars()
        invariant
            it.seq() == s@,
            v@ == it.seq().take(it.index() as int),
    {
        v.push(c);
    }
    assert(v@ =~= s@);
    v
}

/// The string made of the characters `v[from..to]`.
pub fn to_string(v: &Vec<char>, from: usize, to: usize) -> (s: String)
    requires
        from <= to <= v.len(),
    ensures
        s@ == v@.subrange(from as int, to as int),
{
    let mut s = String::new();
    let mut i: usize = from;
    while i < to
        invariant
            from <= i <= to <= v.len(),
            s@ == v@.subrange(from as int, i as int),
        decreases to - i,
    {
        push_char(&mut s, v[i]);
        assert(v@.subrange(from as int, i as int).push(v@[i as int]) =~= v@.subrange(
            from as int,
            i + 1,
        ));
        i += 1;
    }
    s
}

/// The string made of all the characters of `v`.
pub fn whole_string(v: &Vec<char>) -> (s: String)
    ensures
        s@ == v@,
{
    let s = to_string(v, 0, v.len());
    assert(v@.subrange(0, v.len() as int) =~= v@);
    s
}

/// Appends the characters of `text` to `out`.
pub fn push_all(out: &mut Vec<char>, text: &Vec<char>)
    ensures
        final(out)@ == old(out)@ + text@,
{
    let mut i: usize = 0;
    while i < text.len()
        invariant
            i <= text.len(),
            out@ == old(out)@ + text@.take(i as int),
        decreases text.len() - i,
    {
        out.push(text[i]);
        assert(text@.take(i as int).push(text@[i as int]) =~= text@.take(i + 1));
        assert(out@ =~= old(out)@ + text@.take(i + 1));
        i += 1;
    }
    assert(text@.take(text.len() as int) =~= text@);
}

/// Appends the characters of `text` to `out`.
pub fn push_str(out: &mut Vec<char>, text: &str)
    ensures
        final(out)@ == old(out)@ + text@,
{
    let chars = to_chars(text);
    push_all(out, &chars);
}

/// The characters that count as white space: those with the Unicode property `White_Space`.
pub open spec fn is_whitespace_char(c: char) -> bool {
    let u = c as u32;
    ||| 0x09 <= u <= 0x0D
    ||| u == 0x20
    ||| u == 0x85
    ||| u == 0xA0
    ||| u == 0x1680
    ||| 0x2000 <= u <= 0x200A
    ||| u == 0x2028
    ||| u == 0x2029
    ||| u == 0x202F
    ||| u == 0x205F
    ||| u == 0x3000
}

pub fn is_whitespace(c: char) -> (b: bool)
    ensures
        b == is_whitespace_char(c),
{
    let u: u32 = c as u32;
    (0x09 <= u && u <= 0x0D) || u == 0x20 || u == 0x85 || u == 0xA0 || u == 0x1680 || (0x2000 <= u
        && u <= 0x200A) || u == 0x2028 || u == 0x2029 || u == 0x202F || u == 0x205F || u == 0x3000
}

/// The first index in `from..to` whose character is no white space, or `to`.
pub open spec fn trim_start_at(s: Seq<char>, from: int, to: int) -> int
    decreases to - from,
{
    if from < to && is_whitespace_char(s[from]) {
        trim_start_at(s, from + 1, to)
    } else {
        from
    }
}

/// The end of `from..to` once the white space at its end is left out.
pub open spec fn trim_end_at(s: Seq<char>, from: int, to: int) -> int
    decreases to - from,
{
    if from < to && is_whitespace_char(s[to - 1]) {
        trim_end_at(s, from, to - 1)
    } else {
        to
    }
}

/// `s` without the white space at its start and at its end.
pub open spec fn trimmed(s: Seq<char>) -> Seq<char> {
    let a = trim_start_at(s, 0, s.len() as int);
    s.subrange(a, trim_end_at(s, a, s.len() as int))
}

pub proof fn lemma_trim_bounds(s: Seq<char>, from: int, to: int)
    requires
        0 <= from <= to <= s.len(),
    ensures
        from <= trim_start_at(s, from, to) <= to,
        from <= trim_end_at(s, from, to) <= to,
    decreases to - from,
{
    if from < to {
        lemma_trim_bounds(s, from + 1, to);
        lemma_trim_bounds(s, from, to - 1);
    }
}

pub fn trim_start(v: &Vec<char>, from: usize, to: usize) -> (r: usize)
    requires
        from <= to <= v.len(),
    ensures
        r == trim_start_at(v@, from as int, to as int),
        from <= r <= to,
{
    let mut i: usize = from;
    while i < to && is_whitespace(v[i])
        invariant
            from <= i <= to <= v.len(),
            trim_start_at(v@, from as int, to as int) == trim_start_at(v@, i as int, to as int),
        decreases to - i,
    {
        i += 1;
    }
    i
}

pub fn trim_end(v: &Vec<char>, from: usize, to: usize) -> (r: usize)
    requires
        from <= to <= v.len(),
    ensures
        r == trim_end_at(v@, from as int, to as int),
        from <= r <= to,
{
    let mut j: usize = to;
    while from < j && is_whitespace(v[j - 1])
        invariant
            from <= j <= to <= v.len(),
            trim_end_at(v@, from as int, to as int) == trim_end_at(v@, from as int, j as int),
        decreases j - from,
    {
        j -= 1;
    }
    j
}

/// The trimmed characters of `v`, as a vector of their own.
pub fn trim(v: &Vec<char>) -> (r: Vec<char>)
    ensures
        r@ == trimmed(v@),
{
    let a = trim_start(v, 0, v.len());
    let b = trim_end(v, a, v.len());
    slice_of(v, a, b)
}

/// The characters `v[from..to]`, as a vector of their own.
pub fn slice_of(v: &Vec<char>, from: usize, to: usize) -> (r: Vec<char>)
    requires
        from <= to <= v.len(),
    ensures
        r@ == v@.subrange(from as int, to as int),
{
    let mut r: Vec<char> = Vec::new();
    let mut i: usize = from;
    while i < to
        invariant
            from <= i <= to <= v.len(),
            r@ == v@.subrange(from as int, i as int),
        decreases to - i,
    {
        r.push(v[i]);
        assert(v@.subrange(from as int, i as int).push(v@[i as int]) =~= v@.subrange(
            from as int,
            i + 1,
        ));
        i += 1;
    }
    r
}

/// `s` without its carriage returns.
pub open spec fn without_cr(s: Seq<char>) -> Seq<char>
    decreases s.len(),
{
    if s.len() == 0 {
        s
    } else if s.last() == '\r' {
        without_cr(s.drop_last())
    } else {
        without_cr(s.drop_last()).push(s.last())
    }
}

pub proof fn lemma_without_cr_len(s: Seq<char>)
    ensures
        without_cr(s).len() <= s.len(),
    decreases s.len(),
{
    if s.len() > 0 {
        lemma_without_cr_len(s.drop_last());
    }
}

pub fn strip_cr(v: &Vec<char>) -> (r: Vec<char>)
    ensures
        r@ == without_cr(v@),
        r@.len() <= v@.len(),
{
    let mut r: Vec<char> = Vec::new();
    let mut i: usize = 0;
    while i < v.len()
        invariant
            i <= v.len(),
            r@ == without_cr(v@.take(i as int)),
        decreases v.len() - i,
    {
        assert(v@.take(i + 1).drop_last() =~= v@.take(i as int));
        if v[i] != '\r' {
            r.push(v[i]);
        }
        i += 1;
    }
    assert(v@.take(v.len() as int) =~= v@);
    proof {
        lemma_without_cr_len(v@);
    }
    r
}

/// The index of the first line feed of `s` at or after `from`, or the length of `s`.
pub open spec fn line_end(s: Seq<char>, from: int) -> int
    decreases s.len() - from,
{
    if from >= s.len() {
        s.len() as int
    } else if s[from] == '\n' {
        from
    } else {
        line_end(s, from + 1)
    }
}

/// Where the content of the line ends that starts at `from`: before its line feed, and before
/// a carriage return that stands directly in front of that line feed.
pub open spec fn line_content_end(s: Seq<char>, from: int) -> int {
    let e = line_end(s, from);
    if e < s.len() && from < e && s[e - 1] == '\r' {
        e - 1
    } else {
        e
    }
}

/// The lines of `s` from `from` on, each as the range of its content. A line ends at a line
/// feed or at the end of `s`; no line follows a final line feed.
pub open spec fn line_ranges(s: Seq<char>, from: int) -> Seq<(int, int)>
    decreases s.len() - from,
{
    let e = line_end(s, from);
    if 0 <= from < s.len() && from <= e < s.len() {
        seq![(from, line_content_end(s, from))].add(line_ranges(s, e + 1))
    } else if 0 <= from < s.len() {
        seq![(from, line_content_end(s, from))]
    } else {
        seq![]
    }
}

/// The end of the line that starts at `from`.
pub fn find_line_end(v: &Vec<char>, from: usize) -> (r: usize)
    requires
        from <= v.len(),
    ensures
        r == line_end(v@, from as int),
        from <= r <= v.len(),
{
    let mut i: usize = from;
    while i < v.len() && v[i] != '\n'
        invariant
            from <= i <= v.len(),
            line_end(v@, from as int) == line_end(v@, i as int),
        decreases v.len() - i,
    {
        i += 1;
    }
    i
}

/// Ranges of indices as ranges of integers.
pub open spec fn as_ranges(r: Seq<(usize, usize)>) -> Seq<(int, int)> {
    r.map_values(|x: (usize, usize)| (x.0 as int, x.1 as int))
}

/// `s` without the white space at its end.
pub open spec fn end_trimmed(s: Seq<char>) -> Seq<char> {
    s.subrange(0, trim_end_at(s, 0, s.len() as int))
}

/// The lines of `text` from the `k`-th of `ranges` on, each behind `prefix` and with a line
/// feed behind it.
pub open spec fn prefixed_lines(
    text: Seq<char>,
    ranges: Seq<(int, int)>,
    k: int,
    prefix: Seq<char>,
) -> Seq<
    char,
>
    decreases ranges.len() - k,
{
    if 0 <= k < ranges.len() {
        prefix + text.subrange(ranges[k].0, ranges[k].1) + seq!['\n'] + prefixed_lines(
            text,
            ranges,
            k + 1,
            prefix,
        )
    } else {
        Seq::<char>::empty()
    }
}

/// The lines of `text` behind its first line, each behind `prefix`, without the white space
/// at the end of the whole.
pub open spec fn indented_rest(text: Seq<char>, prefix: Seq<char>) -> Seq<char> {
    end_trimmed(prefixed_lines(text, line_ranges(text, 0), 1, prefix))
}

/// Appends to `out` the lines of `text` behind its first line, each behind `prefix`, without
/// the white space at the end of the whole.
pub fn push_indented_rest(out: &mut Vec<char>, text: &Vec<char>, prefix: &Vec<char>)
    ensures
        final(out)@ == old(out)@ + indented_rest(text@, prefix@),
{
    let ranges = find_lines(text);
    let mut body: Vec<char> = Vec::new();
    let mut k: usize = 1;
    let ghost all = line_ranges(text@, 0);
    while k < ranges.len()
        invariant
            1 <= k,
            all == line_ranges(text@, 0),
            as_ranges(ranges@) == all,
            forall|j: int| 0 <= j < ranges@.len() ==> (#[trigger] ranges@[j]).0 <= ranges@[j].1 <= text@.len(),
            prefixed_lines(text@, all, 1, prefix@) == body@ + prefixed_lines(
                text@,
                all,
                k as int,
                prefix@,
            ),
        decreases ranges.len() - k,
    {
        let (from, to) = ranges[k];
        assert(all[k as int] == (from as int, to as int));
        let ghost before = body@;
        push_all(&mut body, prefix);
        let line = slice_of(text, from, to);
        push_all(&mut body, &line);
        body.push('\n');
        assert(body@ =~= before + (prefix@ + text@.subrange(from as int, to as int) + seq!['\n']));
        assert(before + (prefix@ + text@.subrange(from as int, to as int) + seq!['\n']
            + prefixed_lines(text@, all, k + 1, prefix@)) =~= body@ + prefixed_lines(
            text@,
            all,
            k + 1,
            prefix@,
        ));
        k += 1;
    }
    assert(body@ =~= prefixed_lines(text@, all, 1, prefix@));
    let end = trim_end(&body, 0, body.len());
    let kept = slice_of(&body, 0, end);
    push_all(out, &kept);
}

/// The character of the digit `d`.
pub open spec fn digit_char(d: nat) -> char {
    if d == 0 {
        '0'
    } else if d == 1 {
        '1'
    } else if d == 2 {
        '2'
    } else if d == 3 {
        '3'
    } else if d == 4 {
        '4'
    } else if d == 5 {
        '5'
    } else if d == 6 {
        '6'
    } else if d == 7 {
        '7'
    } else if d == 8 {
        '8'
    } else {
        '9'
    }
}

/// The number `n` in decimal digits.
pub open spec fn decimal(n: nat) -> Seq<char>
    decreases n,
{
    if n < 10 {
        seq![digit_char(n)]
    } else {
        decimal(n / 10).push(digit_char(n % 10))
    }
}

/// Appends the number `n` in decimal digits.
pub fn push_decimal(out: &mut Vec<char>, n: usize)
    ensures
        final(out)@ == old(out)@ + decimal(n as nat),
    decreases n,
{
    if n >= 10 {
        push_decimal(out, n / 10);
    }
    let d = n % 10;
    let c = if d == 0 {
        '0'
    } else if d == 1 {
        '1'
    } else if d == 2 {
        '2'
    } else if d == 3 {
        '3'
    } else if d == 4 {
        '4'
    } else if d == 5 {
        '5'
    } else if d == 6 {
        '6'
    } else if d == 7 {
        '7'
    } else if d == 8 {
        '8'
    } else {
        '9'
    };
    out.push(c);
    assert(out@ =~= old(out)@ + decimal(n as nat));
}

/// The ranges of the lines of `v`.
pub fn find_lines(v: &Vec<char>) -> (r: Vec<(usize, usize)>)
    ensures
        as_ranges(r@) == line_ranges(v@, 0),
        forall|i: int, j: int|
            0 <= i < j < r@.len() ==> (#[trigger] r@[i]).1 < (#[trigger] r@[j]).0,
        r@.len() == line_ranges(v@, 0).len(),
        r@.len() <= v@.len(),
        forall|k: int|
            0 <= k < r@.len() ==> (#[trigger] r@[k]).0 == line_ranges(v@, 0)[k].0 && r@[k].1
                == line_ranges(v@, 0)[k].1 && r@[k].0 <= r@[k].1 <= v@.len(),
{
    let mut r: Vec<(usize, usize)> = Vec::new();
    let mut start: usize = 0;
    while start < v.len()
        invariant
            start <= v.len(),
            r@.len() <= start,
            forall|i: int| 0 <= i < r@.len() ==> (#[trigger] r@[i]).1 < start || start == v.len(),
            forall|i: int, j: int|
                0 <= i < j < r@.len() ==> (#[trigger] r@[i]).1 < (#[trigger] r@[j]).0,
            r@.len() <= v@.len(),
            line_ranges(v@, 0).len() == r@.len() + line_ranges(v@, start as int).len(),
            forall|k: int|
                0 <= k < r@.len() ==> (#[trigger] r@[k]).0 == line_ranges(v@, 0)[k].0 && r@[k].1
                    == line_ranges(v@, 0)[k].1 && r@[k].0 <= r@[k].1 <= v@.len(),
            forall|k: int|
                0 <= k < line_ranges(v@, start as int).len() ==> line_ranges(v@, 0)[r@.len() + k]
                    == #[trigger] line_ranges(v@, start as int)[k],
        decreases v.len() - start,
    {
        let e = find_line_end(v, start);
        let content_end = if e < v.len() && start < e && v[e - 1] == '\r' {
            e - 1
        } else {
            e
        };
        proof {
            let rest = line_ranges(v@, start as int);
            let next = line_ranges(v@, e + 1);
            if e < v.len() {
                assert(rest =~= seq![(start as int, content_end as int)] + next);
                assert(forall|k: int| 0 <= k < next.len() ==> rest[k + 1] == #[trigger] next[k]);
            } else {
                assert(rest =~= seq![(start as int, content_end as int)]);
            }
            assert(rest[0] == (start as int, content_end as int));
        }
        r.push((start, content_end));
        if e < v.len() {
            start = e + 1;
        } else {
            start = e;
        }
    }
    assert(as_ranges(r@) =~= line_ranges(v@, 0));
    r
}

/// The result of comparing two character sequences.
#[derive(Debug, Clone, Copy, PartialEq, Eq, Structural)]
pub enum Order {
    Less,
    Equal,
    Greater,
}

/// Whether `a` comes before `b` in the order of strings: at the first index where they differ
/// `a` has the smaller character, or `a` is a proper prefix of `b`.
pub open spec fn comes_before(a: Seq<char>, b: Seq<char>) -> bool
    decreases a.len(),
{
    if b.len() == 0 {
        false
    } else if a.len() == 0 {
        true
    } else if a[0] != b[0] {
        (a[0] as u32) < (b[0] as u32)
    } else {
        comes_before(a.drop_first(), b.drop_first())
    }
}

pub proof fn lemma_comes_before_irreflexive(a: Seq<char>)
    ensures
        !comes_before(a, a),
    decreases a.len(),
{
    if a.len() > 0 {
        lemma_comes_before_irreflexive(a.drop_first());
    }
}

pub proof fn lemma_comes_before_transitive(a: Seq<char>, b: Seq<char>, c: Seq<char>)
    requires
        comes_before(a, b),
        comes_before(b, c),
    ensures
        comes_before(a, c),
    decreases a.len(),
{
    if a.len() > 0 && b.len() > 0 && c.len() > 0 {
        if a[0] == b[0] && b[0] == c[0] {
            lemma_comes_before_transitive(a.drop_first(), b.drop_first(), c.drop_first());
        }
    }
}

/// Of two different sequences one comes before the other.
pub proof fn lemma_comes_before_total(a: Seq<char>, b: Seq<char>)
    ensures
        a == b || comes_before(a, b) || comes_before(b, a),
    decreases a.len(),
{
    if a.len() > 0 && b.len() > 0 {
        if a[0] == b[0] {
            lemma_comes_before_total(a.drop_first(), b.drop_first());
            if a.drop_first() == b.drop_first() {
                assert(a =~= seq![a[0]] + a.drop_first());
                assert(b =~= seq![b[0]] + b.drop_first());
            }
        } else {
            vstd::utf8::char_u32_cast(a[0], a[0] as u32);
            vstd::utf8::char_u32_cast(b[0], b[0] as u32);
        }
    } else if a.len() == 0 && b.len() == 0 {
        assert(a =~= b);
    }
}

/// The order of `a[i..]` against `b[i..]`, stated for the whole comparison from a common
/// prefix of length `i`.
proof fn lemma_common_prefix(a: Seq<char>, b: Seq<char>, i: int)
    requires
        0 <= i <= a.len(),
        i <= b.len(),
        forall|k: int| 0 <= k < i ==> a[k] == b[k],
    ensures
        comes_before(a, b) == comes_before(a.skip(i), b.skip(i)),
        comes_before(b, a) == comes_before(b.skip(i), a.skip(i)),
        (a == b) == (a.skip(i) == b.skip(i)),
    decreases i,
{
    if i == 0 {
        assert(a.skip(0) =~= a);
        assert(b.skip(0) =~= b);
    } else {
        lemma_common_prefix(a, b, i - 1);
        let x = a.skip(i - 1);
        let y = b.skip(i - 1);
        assert(x[0] == y[0]);
        assert(x.drop_first() =~= a.skip(i));
        assert(y.drop_first() =~= b.skip(i));
        if a.skip(i) == b.skip(i) {
            assert(x.len() == y.len());
            assert forall|k: int| 0 <= k < x.len() implies x[k] == y[k] by {
                if k > 0 {
                    assert(x[k] == a.skip(i)[k - 1]);
                    assert(y[k] == b.skip(i)[k - 1]);
                }
            }
            assert(x =~= y);
        }
    }
}

/// Compares two character sequences in the order of strings.
pub fn compare(a: &Vec<char>, b: &Vec<char>) -> (r: Order)
    ensures
        r == Order::Less <==> comes_before(a@, b@),
        r == Order::Equal <==> a@ == b@,
        r == Order::Greater <==> comes_before(b@, a@),
{
    let mut i: usize = 0;
    while i < a.len() && i < b.len() && a[i] == b[i]
        invariant
            i <= a.len(),
            i <= b.len(),
            forall|k: int| 0 <= k < i ==> a@[k] == b@[k],
        decreases a.len() - i,
    {
        i += 1;
    }
    proof {
        lemma_common_prefix(a@, b@, i as int);
        let x = a@.skip(i as int);
        let y = b@.skip(i as int);
        if x.len() == 0 && y.len() == 0 {
            assert(x =~= y);
        }
        lemma_comes_before_irreflexive(x);
        if i < a.len() && i < b.len() {
            vstd::utf8::char_u32_cast(a@[i as int], a@[i as int] as u32);
            vstd::utf8::char_u32_cast(b@[i as int], b@[i as int] as u32);
        }
    }
    if i == a.len() {
        if i == b.len() {
            Order::Equal
        } else {
            Order::Less
        }
    } else if i == b.len() {
        Order::Greater
    } else if (a[i] as u32) < (b[i] as u32) {
        Order::Less
    } else {
        Order::Greater
    }
}

} // verus!
