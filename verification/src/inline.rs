//! The constructs of inline text that are found by looking ahead: links, images, functions
//! and their parameters.

use vstd::prelude::*;
use crate::chars::{
    is_whitespace, is_whitespace_char, to_string, trim_end, trim_end_at, trim_start,
    trim_start_at,
};
use crate::parameters::{upsert, Entry, FunctionParameters};

verus! {

/// The first index in `from..to` at which `s` holds `c`, or `to`.
pub open spec fn index_of(s: Seq<char>, c: char, from: int, to: int) -> int
    decreases to - from,
{
    if from >= to {
        to
    } else if s[from] == c {
        from
    } else {
        index_of(s, c, from + 1, to)
    }
}

pub fn find_char(v: &Vec<char>, c: char, from: usize, to: usize) -> (r: usize)
    requires
        from <= to <= v.len(),
    ensures
        r == index_of(v@, c, from as int, to as int),
        from <= r <= to,
        r < to ==> v@[r as int] == c,
{
    let mut i: usize = from;
    while i < to && v[i] != c
        invariant
            from <= i <= to <= v.len(),
            index_of(v@, c, from as int, to as int) == index_of(v@, c, i as int, to as int),
        decreases to - i,
    {
        i += 1;
    }
    i
}

/// The character `k` places after index `i`, if the text reaches that far.
pub open spec fn peek(s: Seq<char>, i: int, k: int) -> Option<char> {
    if 0 <= i + k < s.len() {
        Some(s[i + k])
    } else {
        None
    }
}

pub fn look_ahead(v: &Vec<char>, i: usize, k: usize) -> (r: Option<char>)
    ensures
        r == peek(v@, i as int, k as int),
{
    if k < v.len() && i < v.len() - k {
        Some(v[i + k])
    } else {
        None
    }
}

/// A link that starts at an opening bracket: where its label ends and where its target ends.
pub struct LinkShape {
    pub label_end: int,
    pub target_end: int,
}

/// The link `[label](target)` whose opening bracket stands at `i`: the label runs up to the
/// first `]`, an opening parenthesis follows at once, and the target runs up to the first `)`.
/// Label and target are not empty.
pub open spec fn link_at(s: Seq<char>, i: int) -> Option<LinkShape> {
    let j = index_of(s, ']', i + 1, s.len() as int);
    let k = index_of(s, ')', j + 2, s.len() as int);
    if 0 <= i && i + 1 < j < s.len() && j + 1 < s.len() && s[j + 1] == '(' && j + 2 < k < s.len() {
        Some(LinkShape { label_end: j, target_end: k })
    } else {
        None
    }
}

/// The link at `i`, as the indices of its closing bracket and of its closing parenthesis.
pub fn find_link(v: &Vec<char>, i: usize) -> (r: Option<(usize, usize)>)
    requires
        i < v.len(),
    ensures
        match r {
            Some((j, k)) => link_at(v@, i as int) == Some(
                LinkShape { label_end: j as int, target_end: k as int },
            ) && i + 1 < j && j + 2 < k < v.len(),
            None => link_at(v@, i as int).is_none(),
        },
{
    let j = find_char(v, ']', i + 1, v.len());
    if !(i + 1 < j && j < v.len()) {
        return None;
    }
    if !(j + 1 < v.len() && v[j + 1] == '(') {
        return None;
    }
    let k = find_char(v, ')', j + 2, v.len());
    if j + 2 < k && k < v.len() {
        Some((j, k))
    } else {
        None
    }
}

/// Whether `c` can stand in the name of a function.
pub open spec fn is_name_char(c: char) -> bool {
    !is_whitespace_char(c) && c != '(' && c != '#'
}

/// The end of the run of name characters that starts at `from`.
pub open spec fn name_end(s: Seq<char>, from: int) -> int
    decreases s.len() - from,
{
    if 0 <= from < s.len() && is_name_char(s[from]) {
        name_end(s, from + 1)
    } else {
        from
    }
}

pub fn find_name_end(v: &Vec<char>, from: usize) -> (r: usize)
    requires
        from <= v.len(),
    ensures
        r == name_end(v@, from as int),
        from <= r <= v.len(),
{
    let mut i: usize = from;
    while i < v.len() && !is_whitespace(v[i]) && v[i] != '(' && v[i] != '#'
        invariant
            from <= i <= v.len(),
            name_end(v@, from as int) == name_end(v@, i as int),
        decreases v.len() - i,
    {
        i += 1;
    }
    i
}

/// The characters of `from..to` without the white space at both ends.
pub open spec fn trimmed_range(s: Seq<char>, from: int, to: int) -> Seq<char> {
    let a = trim_start_at(s, from, to);
    s.subrange(a, trim_end_at(s, a, to))
}

pub fn trimmed_string(v: &Vec<char>, from: usize, to: usize) -> (r: String)
    requires
        from <= to <= v.len(),
    ensures
        r@ == trimmed_range(v@, from as int, to as int),
{
    let a = trim_start(v, from, to);
    let b = trim_end(v, a, to);
    to_string(v, a, b)
}

/// The parameters written in `from..to`, added to `acc` in their order. Commas part the
/// entries and the first colon of an entry parts its name from its value; both are trimmed.
/// An entry in front of a comma counts where its value is not empty. The last entry counts
/// where the list was closed, its name is not empty and, if `colon_needed`, it holds a colon.
pub open spec fn parameters_in(
    s: Seq<char>,
    from: int,
    to: int,
    closed: bool,
    colon_needed: bool,
    acc: Seq<Entry>,
) -> Seq<Entry>
    decreases to - from,
{
    let e = index_of(s, ',', from, to);
    let c = index_of(s, ':', from, e);
    let name = trimmed_range(s, from, c);
    let value = if c < e {
        trimmed_range(s, c + 1, e)
    } else {
        Seq::<char>::empty()
    };
    if from <= e < to {
        parameters_in(
            s,
            e + 1,
            to,
            closed,
            colon_needed,
            if value.len() > 0 {
                upsert(acc, name, value)
            } else {
                acc
            },
        )
    } else if closed && name.len() > 0 && (c < e || !colon_needed) {
        upsert(acc, name, value)
    } else {
        acc
    }
}

/// Reads the parameters written in `from..to`.
pub fn read_parameters(
    v: &Vec<char>,
    from: usize,
    to: usize,
    closed: bool,
    colon_needed: bool,
) -> (r:
    FunctionParameters)
    requires
        from <= to <= v.len(),
    ensures
        r@ == parameters_in(
            v@,
            from as int,
            to as int,
            closed,
            colon_needed,
            Seq::<Entry>::empty(),
        ),
{
    let mut parameters = FunctionParameters::new();
    let mut start: usize = from;
    loop
        invariant
            from <= start <= to <= v.len(),
            parameters_in(v@, from as int, to as int, closed, colon_needed, Seq::<Entry>::empty())
                == parameters_in(v@, start as int, to as int, closed, colon_needed, parameters@),
        decreases to - start,
    {
        let e = find_char(v, ',', start, to);
        let c = find_char(v, ':', start, e);
        let name = trimmed_string(v, start, c);
        let value = if c < e {
            trimmed_string(v, c + 1, e)
        } else {
            String::new()
        };
        if e < to {
            if value.as_str().unicode_len() > 0 {
                parameters.insert(name, value);
            }
            start = e + 1;
        } else {
            if closed && name.as_str().unicode_len() > 0 && (c < e || !colon_needed) {
                parameters.insert(name, value);
            }
            return parameters;
        }
    }
}

/// A function that starts at a number sign: where its name ends and where it ends itself.
pub struct FunctionShape {
    pub name_end: int,
    pub end: int,
}

/// The function `#name(…)` whose number sign stands at `i`: at least one name character,
/// then an opening parenthesis. It ends behind the first `)`, or with the text where none
/// follows.
pub open spec fn function_at(s: Seq<char>, i: int) -> Option<FunctionShape> {
    let j = name_end(s, i + 1);
    let k = index_of(s, ')', j + 1, s.len() as int);
    if 0 <= i && i + 1 < j < s.len() && s[j] == '(' {
        Some(
            FunctionShape {
                name_end: j,
                end: if k < s.len() {
                    k + 1
                } else {
                    s.len() as int
                },
            },
        )
    } else {
        None
    }
}

/// The parameters of the function in `s` whose name ends at `name_end`.
pub open spec fn function_parameters(s: Seq<char>, name_end: int) -> Seq<Entry> {
    let k = index_of(s, ')', name_end + 1, s.len() as int);
    parameters_in(s, name_end + 1, k, k < s.len(), false, Seq::<Entry>::empty())
}

/// The function at `i`, as the index where its name ends and the index where it ends.
pub fn find_function(v: &Vec<char>, i: usize) -> (r: Option<(usize, usize)>)
    requires
        i < v.len(),
    ensures
        match r {
            Some((j, end)) => function_at(v@, i as int) == Some(
                FunctionShape { name_end: j as int, end: end as int },
            ) && i + 1 < j < end <= v.len(),
            None => function_at(v@, i as int).is_none(),
        },
{
    let j = find_name_end(v, i + 1);
    if i + 1 < j && j < v.len() && v[j] == '(' {
        let k = find_char(v, ')', j + 1, v.len());
        if k < v.len() {
            Some((j, k + 1))
        } else {
            Some((j, k))
        }
    } else {
        None
    }
}

/// Reads the parameters of the function whose name ends at `name_end`.
pub fn read_function_parameters(v: &Vec<char>, name_end: usize) -> (r: FunctionParameters)
    requires
        name_end < v.len(),
    ensures
        r@ == function_parameters(v@, name_end as int),
{
    let k = find_char(v, ')', name_end + 1, v.len());
    read_parameters(v, name_end + 1, k, k < v.len(), false)
}

} // verus!
