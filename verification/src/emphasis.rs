//! Bold and italic: the forward search that pairs the stars of inline text.

use vstd::prelude::*;
use crate::inline::{find_char, index_of, look_ahead, peek};

verus! {

/// The formatting tokens that a run of stars can stand for.
#[derive(Debug, Clone, Copy, PartialEq, Eq, Structural)]
pub enum FormatKind {
    BoldStart,
    BoldEnd,
    ItalicStart,
    ItalicEnd,
}

/// A formatting token that is due at the star at `offset`.
#[derive(Debug, Clone, Copy, PartialEq, Eq, Structural)]
pub struct FutureToken {
    pub token_kind: FormatKind,
    pub offset: usize,
}

/// Which of bold and italic was opened first and so closes last.
#[derive(Debug, Clone, Copy, PartialEq, Eq, Structural)]
pub enum Precedence {
    Bold,
    Italic,
    Undecided,
}

/// The state of the search for the end of a formatting pair.
pub struct PairSearch {
    /// The index of the character looked at next.
    pub at: int,
    pub italic: bool,
    pub bold: bool,
    /// Inside a code span, where stars do not count.
    pub in_code: bool,
    /// Behind a backslash, which takes the next star out.
    pub escaped: bool,
    pub precedence: Precedence,
    /// What was found so far, in the order in which it is due.
    pub found: Seq<FutureToken>,
}

pub open spec fn future(token_kind: FormatKind, offset: int) -> FutureToken {
    FutureToken { token_kind, offset: offset as usize }
}

/// The search from state `st` on for the pair opened at `open`: the tokens of the whole pair,
/// or `None` where the text ends before the pair is closed.
pub open spec fn search_pair(s: Seq<char>, open: int, st: PairSearch) -> Option<Seq<FutureToken>>
    decreases s.len() - st.at,
{
    let j = st.at;
    if j < 0 || j >= s.len() {
        None
    } else if st.in_code {
        search_pair(s, open, PairSearch { at: j + 1, in_code: s[j] != '`', ..st })
    } else if s[j] == '\\' {
        search_pair(s, open, PairSearch { at: j + 1, escaped: true, ..st })
    } else if s[j] == '`' {
        search_pair(
            s,
            open,
            PairSearch {
                at: j + 1,
                in_code: index_of(s, '`', j + 1, s.len() as int) < s.len(),
                ..st
            },
        )
    } else if s[j] != '*' {
        search_pair(s, open, PairSearch { at: j + 1, escaped: false, ..st })
    } else if st.escaped {
        search_pair(s, open, PairSearch { at: j + 1, escaped: false, ..st })
    } else if st.italic && st.bold {
        if peek(s, j, 1) == Some('*') {
            if peek(s, j, 2) == Some('*') {
                // three stars close both
                Some(
                    match st.precedence {
                        Precedence::Bold => st.found.push(future(FormatKind::ItalicEnd, j)).push(
                            future(FormatKind::BoldEnd, j + 1),
                        ),
                        Precedence::Italic => st.found.push(
                            future(FormatKind::BoldEnd, j + 1),
                        ).push(future(FormatKind::ItalicEnd, j + 2)),
                        Precedence::Undecided => st.found.push(
                            future(FormatKind::BoldEnd, j + 1),
                        ).insert(0, future(FormatKind::ItalicStart, open)).push(
                            future(FormatKind::ItalicEnd, j + 2),
                        ),
                    },
                )
            } else {
                // two stars close bold
                let found = st.found.push(future(FormatKind::BoldEnd, j));
                search_pair(
                    s,
                    open,
                    PairSearch {
                        at: j + 2,
                        bold: false,
                        precedence: if st.precedence == Precedence::Undecided {
                            Precedence::Italic
                        } else {
                            st.precedence
                        },
                        found: if st.precedence == Precedence::Undecided {
                            found.insert(0, future(FormatKind::ItalicStart, open)).insert(
                                1,
                                future(FormatKind::BoldStart, open + 2),
                            )
                        } else {
                            found
                        },
                        ..st
                    },
                )
            }
        } else {
            // one star closes italic
            let found = st.found.push(future(FormatKind::ItalicEnd, j));
            search_pair(
                s,
                open,
                PairSearch {
                    at: j + 1,
                    italic: false,
                    precedence: if st.precedence == Precedence::Undecided {
                        Precedence::Bold
                    } else {
                        st.precedence
                    },
                    found: if st.precedence == Precedence::Undecided {
                        found.insert(0, future(FormatKind::BoldStart, open)).insert(
                            1,
                            future(FormatKind::ItalicStart, open + 2),
                        )
                    } else {
                        found
                    },
                    ..st
                },
            )
        }
    } else if st.italic {
        if peek(s, j, 1) == Some('*') {
            // bold opens inside italic
            search_pair(
                s,
                open,
                PairSearch {
                    at: j + 2,
                    bold: true,
                    found: st.found.push(future(FormatKind::BoldStart, j + 1)),
                    ..st
                },
            )
        } else {
            Some(st.found.push(future(FormatKind::ItalicEnd, j)))
        }
    } else if st.bold {
        if peek(s, j, 1) != Some('*') {
            // italic opens inside bold
            search_pair(
                s,
                open,
                PairSearch {
                    at: j + 1,
                    italic: true,
                    found: st.found.push(future(FormatKind::ItalicStart, j)),
                    ..st
                },
            )
        } else {
            Some(st.found.push(future(FormatKind::BoldEnd, j)))
        }
    } else {
        search_pair(s, open, PairSearch { at: j + 1, ..st })
    }
}

/// How the search starts at the star at `open`: two characters must follow it. One star opens
/// italic, two open bold, and three open both, with the order of the two still undecided. The
/// search goes on behind the opening stars.
pub open spec fn search_start(s: Seq<char>, open: int) -> Option<PairSearch> {
    if peek(s, open, 1).is_none() || peek(s, open, 2).is_none() {
        None
    } else if peek(s, open, 1) != Some('*') {
        Some(
            PairSearch {
                at: open + 1,
                italic: true,
                bold: false,
                in_code: false,
                escaped: false,
                precedence: Precedence::Italic,
                found: seq![future(FormatKind::ItalicStart, open)],
            },
        )
    } else if peek(s, open, 2) != Some('*') {
        Some(
            PairSearch {
                at: open + 2,
                italic: false,
                bold: true,
                in_code: false,
                escaped: false,
                precedence: Precedence::Bold,
                found: seq![future(FormatKind::BoldStart, open)],
            },
        )
    } else {
        Some(
            PairSearch {
                at: open + 3,
                italic: true,
                bold: true,
                in_code: false,
                escaped: false,
                precedence: Precedence::Undecided,
                found: seq![],
            },
        )
    }
}

/// The formatting pair that the star at `open` opens: its start token first, then the tokens
/// of the pairs nested in it and its end token, in the order of the text. `None` where the
/// star opens nothing.
pub open spec fn formatting_pair(s: Seq<char>, open: int) -> Option<Seq<FutureToken>> {
    match search_start(s, open) {
        Some(st) => search_pair(s, open, st),
        None => None,
    }
}

/// A pair that was found starts with the token of the star at `open`.
pub proof fn lemma_search_pair_starts(s: Seq<char>, open: int, st: PairSearch)
    requires
        0 <= open,
        st.precedence == Precedence::Undecided ==> st.found.len() == 0 && st.italic && st.bold,
        st.precedence != Precedence::Undecided ==> st.found.len() > 0 && st.found[0].offset
            == open && (st.found[0].token_kind == FormatKind::BoldStart || st.found[0].token_kind
            == FormatKind::ItalicStart),
        open + 2 < s.len() <= usize::MAX,
    ensures
        search_pair(s, open, st) matches Some(found) ==> found.len() >= 2 && found[0].offset
            == open && (found[0].token_kind == FormatKind::BoldStart || found[0].token_kind
            == FormatKind::ItalicStart),
    decreases s.len() - st.at,
{
    let j = st.at;
    if j < 0 || j >= s.len() {
    } else if st.in_code {
        lemma_search_pair_starts(s, open, PairSearch { at: j + 1, in_code: s[j] != '`', ..st });
    } else if s[j] == '\\' {
        lemma_search_pair_starts(s, open, PairSearch { at: j + 1, escaped: true, ..st });
    } else if s[j] == '`' {
        lemma_search_pair_starts(
            s,
            open,
            PairSearch {
                at: j + 1,
                in_code: index_of(s, '`', j + 1, s.len() as int) < s.len(),
                ..st
            },
        );
    } else if s[j] != '*' {
        lemma_search_pair_starts(s, open, PairSearch { at: j + 1, escaped: false, ..st });
    } else if st.escaped {
        lemma_search_pair_starts(s, open, PairSearch { at: j + 1, escaped: false, ..st });
    } else if st.italic && st.bold {
        if peek(s, j, 1) == Some('*') {
            if peek(s, j, 2) == Some('*') {
            } else {
                let found = st.found.push(future(FormatKind::BoldEnd, j));
                lemma_search_pair_starts(
                    s,
                    open,
                    PairSearch {
                        at: j + 2,
                        bold: false,
                        precedence: if st.precedence == Precedence::Undecided {
                            Precedence::Italic
                        } else {
                            st.precedence
                        },
                        found: if st.precedence == Precedence::Undecided {
                            found.insert(0, future(FormatKind::ItalicStart, open)).insert(
                                1,
                                future(FormatKind::BoldStart, open + 2),
                            )
                        } else {
                            found
                        },
                        ..st
                    },
                );
            }
        } else {
            let found = st.found.push(future(FormatKind::ItalicEnd, j));
            lemma_search_pair_starts(
                s,
                open,
                PairSearch {
                    at: j + 1,
                    italic: false,
                    precedence: if st.precedence == Precedence::Undecided {
                        Precedence::Bold
                    } else {
                        st.precedence
                    },
                    found: if st.precedence == Precedence::Undecided {
                        found.insert(0, future(FormatKind::BoldStart, open)).insert(
                            1,
                            future(FormatKind::ItalicStart, open + 2),
                        )
                    } else {
                        found
                    },
                    ..st
                },
            );
        }
    } else if st.italic {
        if peek(s, j, 1) == Some('*') {
            lemma_search_pair_starts(
                s,
                open,
                PairSearch {
                    at: j + 2,
                    bold: true,
                    found: st.found.push(future(FormatKind::BoldStart, j + 1)),
                    ..st
                },
            );
        }
    } else if st.bold {
        if peek(s, j, 1) != Some('*') {
            lemma_search_pair_starts(
                s,
                open,
                PairSearch {
                    at: j + 1,
                    italic: true,
                    found: st.found.push(future(FormatKind::ItalicStart, j)),
                    ..st
                },
            );
        }
    } else {
        lemma_search_pair_starts(s, open, PairSearch { at: j + 1, ..st });
    }
}

/// Searches the formatting pair that the star at `open` opens.
pub fn find_formatting_pair(v: &Vec<char>, open: usize) -> (r: Option<Vec<FutureToken>>)
    requires
        open < v.len(),
    ensures
        match r {
            Some(found) => formatting_pair(v@, open as int) == Some(found@) && found@.len() >= 2
                && found@[0].offset == open && (found@[0].token_kind == FormatKind::BoldStart
                || found@[0].token_kind == FormatKind::ItalicStart),
            None => formatting_pair(v@, open as int).is_none(),
        },
{
    let next_1 = look_ahead(v, open, 1);
    let next_2 = look_ahead(v, open, 2);
    if next_1.is_none() || next_2.is_none() {
        return None;
    }
    let mut italic = true;
    let mut bold = false;
    let mut found: Vec<FutureToken> = Vec::new();
    let mut precedence = Precedence::Undecided;
    let mut at: usize = open + 3;
    if next_1.unwrap() != '*' {
        found.push(FutureToken { token_kind: FormatKind::ItalicStart, offset: open });
        precedence = Precedence::Italic;
        at = open + 1;
    } else if next_2.unwrap() != '*' {
        italic = false;
        bold = true;
        found.push(FutureToken { token_kind: FormatKind::BoldStart, offset: open });
        precedence = Precedence::Bold;
        at = open + 2;
    } else {
        bold = true;
    }
    let mut in_code = false;
    let mut escaped = false;
    proof {
        lemma_search_pair_starts(
            v@,
            open as int,
            PairSearch { at: at as int, italic, bold, in_code, escaped, precedence, found: found@ },
        );
    }
    while at < v.len()
        invariant
            open + 2 < v.len(),
            open < at <= v.len() + 1,
            formatting_pair(v@, open as int) == search_pair(
                v@,
                open as int,
                PairSearch {
                    at: at as int,
                    italic,
                    bold,
                    in_code,
                    escaped,
                    precedence,
                    found: found@,
                },
            ),
            formatting_pair(v@, open as int) matches Some(f) ==> f.len() >= 2 && f[0].offset
                == open && (f[0].token_kind == FormatKind::BoldStart || f[0].token_kind
                == FormatKind::ItalicStart),
        decreases v.len() + 1 - at,
    {
        let c = v[at];
        if in_code {
            if c == '`' {
                in_code = false;
            }
            at += 1;
        } else if c == '\\' {
            escaped = true;
            at += 1;
        } else if c == '`' {
            let closing = find_char(v, '`', at + 1, v.len());
            in_code = closing < v.len();
            at += 1;
        } else if c != '*' {
            escaped = false;
            at += 1;
        } else if escaped {
            escaped = false;
            at += 1;
        } else if italic && bold {
            let after_1 = look_ahead(v, at, 1);
            let after_2 = look_ahead(v, at, 2);
            if after_1 == Some('*') {
                if after_2 == Some('*') {
                    match precedence {
                        Precedence::Bold => {
                            found.push(FutureToken { token_kind: FormatKind::ItalicEnd, offset: at });
                            found.push(
                                FutureToken { token_kind: FormatKind::BoldEnd, offset: at + 1 },
                            );
                        },
                        Precedence::Italic => {
                            found.push(
                                FutureToken { token_kind: FormatKind::BoldEnd, offset: at + 1 },
                            );
                            found.push(
                                FutureToken { token_kind: FormatKind::ItalicEnd, offset: at + 2 },
                            );
                        },
                        Precedence::Undecided => {
                            found.push(
                                FutureToken { token_kind: FormatKind::BoldEnd, offset: at + 1 },
                            );
                            found.insert(
                                0,
                                FutureToken { token_kind: FormatKind::ItalicStart, offset: open },
                            );
                            found.push(
                                FutureToken { token_kind: FormatKind::ItalicEnd, offset: at + 2 },
                            );
                        },
                    }
                    return Some(found);
                }
                bold = false;
                found.push(FutureToken { token_kind: FormatKind::BoldEnd, offset: at });
                if precedence == Precedence::Undecided {
                    found.insert(
                        0,
                        FutureToken { token_kind: FormatKind::ItalicStart, offset: open },
                    );
                    found.insert(
                        1,
                        FutureToken { token_kind: FormatKind::BoldStart, offset: open + 2 },
                    );
                    precedence = Precedence::Italic;
                }
                at += 2;
            } else {
                italic = false;
                found.push(FutureToken { token_kind: FormatKind::ItalicEnd, offset: at });
                if precedence == Precedence::Undecided {
                    found.insert(0, FutureToken { token_kind: FormatKind::BoldStart, offset: open });
                    found.insert(
                        1,
                        FutureToken { token_kind: FormatKind::ItalicStart, offset: open + 2 },
                    );
                    precedence = Precedence::Bold;
                }
                at += 1;
            }
        } else if italic {
            if look_ahead(v, at, 1) == Some('*') {
                bold = true;
                found.push(FutureToken { token_kind: FormatKind::BoldStart, offset: at + 1 });
                at += 2;
            } else {
                found.push(FutureToken { token_kind: FormatKind::ItalicEnd, offset: at });
                return Some(found);
            }
        } else if bold {
            if look_ahead(v, at, 1) != Some('*') {
                italic = true;
                found.push(FutureToken { token_kind: FormatKind::ItalicStart, offset: at });
                at += 1;
            } else {
                found.push(FutureToken { token_kind: FormatKind::BoldEnd, offset: at });
                return Some(found);
            }
        } else {
            at += 1;
        }
    }
    None
}

} // verus!
