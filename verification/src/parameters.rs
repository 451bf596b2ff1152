//! The parameters of a function: values by name, kept in the order of their names.

use vstd::prelude::*;
use crate::chars::{comes_before, compare, lemma_comes_before_transitive, to_chars, Order};

verus! {

/// One parameter as a pair of character sequences: its name and its value.
pub type Entry = (Seq<char>, Seq<char>);

/// `s` with `name` set to `value`: the entry of that name is replaced where there is one, and
/// otherwise the new entry goes in front of the first entry whose name comes after `name`.
pub open spec fn upsert(s: Seq<Entry>, name: Seq<char>, value: Seq<char>) -> Seq<Entry>
    decreases s.len(),
{
    if s.len() == 0 {
        seq![(name, value)]
    } else if s[0].0 == name {
        seq![(name, value)] + s.drop_first()
    } else if comes_before(name, s[0].0) {
        seq![(name, value)] + s
    } else {
        seq![s[0]] + upsert(s.drop_first(), name, value)
    }
}

/// The names of `s` come in strictly ascending order.
pub open spec fn names_ascend(s: Seq<Entry>) -> bool {
    forall|i: int, j: int| 0 <= i < j < s.len() ==> comes_before(#[trigger] s[i].0, #[trigger] s[j].0)
}

/// The value that `s` holds for `name`: that of the first entry of this name.
pub open spec fn lookup(s: Seq<Entry>, name: Seq<char>) -> Option<Seq<char>>
    decreases s.len(),
{
    if s.len() == 0 {
        None
    } else if s[0].0 == name {
        Some(s[0].1)
    } else {
        lookup(s.drop_first(), name)
    }
}

/// Setting a name keeps ascending names ascending, which also says that no name occurs twice.
pub proof fn lemma_upsert_ascends(s: Seq<Entry>, name: Seq<char>, value: Seq<char>)
    requires
        names_ascend(s),
    ensures
        names_ascend(upsert(s, name, value)),
        upsert(s, name, value).len() <= s.len() + 1,
        forall|i: int|
            0 <= i < upsert(s, name, value).len() ==> (#[trigger] upsert(s, name, value)[i]).0
                == name || (exists|j: int| 0 <= j < s.len() && s[j] == upsert(s, name, value)[i]),
    decreases s.len(),
{
    let r = upsert(s, name, value);
    if s.len() == 0 {
    } else if s[0].0 == name {
        assert forall|i: int, j: int| 0 <= i < j < r.len() implies comes_before(
            #[trigger] r[i].0,
            #[trigger] r[j].0,
        ) by {
            assert(r[j] == s[j]);
            if i > 0 {
                assert(r[i] == s[i]);
            } else {
                assert(comes_before(s[0].0, s[j].0));
            }
        }
        assert forall|i: int| 0 <= i < r.len() implies (#[trigger] r[i]).0 == name || (exists|
            j: int,
        |
            0 <= j < s.len() && s[j] == r[i]) by {
            if i > 0 {
                assert(s[i] == r[i]);
            }
        }
    } else if comes_before(name, s[0].0) {
        assert forall|i: int, j: int| 0 <= i < j < r.len() implies comes_before(
            #[trigger] r[i].0,
            #[trigger] r[j].0,
        ) by {
            assert(r[j] == s[j - 1]);
            if i > 0 {
                assert(r[i] == s[i - 1]);
            } else if j > 1 {
                assert(comes_before(s[0].0, s[j - 1].0));
                lemma_comes_before_transitive(name, s[0].0, s[j - 1].0);
            }
        }
        assert forall|i: int| 0 <= i < r.len() implies (#[trigger] r[i]).0 == name || (exists|
            j: int,
        |
            0 <= j < s.len() && s[j] == r[i]) by {
            if i > 0 {
                assert(s[i - 1] == r[i]);
            }
        }
    } else {
        let t = s.drop_first();
        let u = upsert(t, name, value);
        assert forall|i: int, j: int| 0 <= i < j < t.len() implies comes_before(
            #[trigger] t[i].0,
            #[trigger] t[j].0,
        ) by {
            assert(t[i] == s[i + 1] && t[j] == s[j + 1]);
        }
        lemma_upsert_ascends(t, name, value);
        assert(r =~= seq![s[0]] + u);
        assert forall|i: int| 0 <= i < r.len() implies (#[trigger] r[i]).0 == name || (exists|
            j: int,
        |
            0 <= j < s.len() && s[j] == r[i]) by {
            if i > 0 {
                assert(r[i] == u[i - 1]);
                if u[i - 1].0 != name {
                    let j = choose|j: int| 0 <= j < t.len() && t[j] == u[i - 1];
                    assert(s[j + 1] == r[i]);
                }
            } else {
                assert(s[0] == r[0]);
            }
        }
        assert forall|i: int, j: int| 0 <= i < j < r.len() implies comes_before(
            #[trigger] r[i].0,
            #[trigger] r[j].0,
        ) by {
            assert(r[j] == u[j - 1]);
            if i > 0 {
                assert(r[i] == u[i - 1]);
            } else {
                // r[0] is s[0]; r[j] is the new entry or an entry of the rest of s
                if u[j - 1].0 == name {
                    // name is neither equal to nor in front of s[0].0
                    crate::chars::lemma_comes_before_total(name, s[0].0);
                } else {
                    let k = choose|k: int| 0 <= k < t.len() && t[k] == u[j - 1];
                    assert(comes_before(s[0].0, s[k + 1].0));
                }
            }
        }
    }
}

/// After setting a name it is found with the new value, and every other name as before.
pub proof fn lemma_upsert_lookup(s: Seq<Entry>, name: Seq<char>, value: Seq<char>, other: Seq<char>)
    ensures
        lookup(upsert(s, name, value), name) == Some(value),
        other != name ==> lookup(upsert(s, name, value), other) == lookup(s, other),
    decreases s.len(),
{
    let r = upsert(s, name, value);
    if s.len() == 0 {
        assert(r.drop_first() =~= s);
    } else if s[0].0 == name {
        assert(r.drop_first() =~= s.drop_first());
    } else if comes_before(name, s[0].0) {
        assert(r.drop_first() =~= s);
    } else {
        lemma_upsert_lookup(s.drop_first(), name, value, other);
        assert(r.drop_first() =~= upsert(s.drop_first(), name, value));
    }
}

/// The parameters of a function.
#[derive(Debug, PartialEq, Eq)]
pub struct FunctionParameters {
    entries: Vec<(String, String)>,
}

impl View for FunctionParameters {
    type V = Seq<Entry>;

    /// The entries, each as characters, in the order in which they are kept.
    closed spec fn view(&self) -> Seq<Entry> {
        self.entries@.map_values(|e: (String, String)| (e.0@, e.1@))
    }
}

impl FunctionParameters {
    /// No parameters.
    pub fn new() -> (p: Self)
        ensures
            p@ == Seq::<Entry>::empty(),
    {
        let p = Self { entries: Vec::new() };
        assert(p@ =~= Seq::<Entry>::empty());
        p
    }

    /// The number of parameters.
    pub fn len(&self) -> (n: usize)
        ensures
            n == self@.len(),
    {
        self.entries.len()
    }

    pub fn is_empty(&self) -> (b: bool)
        ensures
            b == (self@.len() == 0),
    {
        self.entries.len() == 0
    }

    /// The name of the entry at `index`.
    pub fn name_at(&self, index: usize) -> (name: &String)
        requires
            index < self@.len(),
        ensures
            name@ == self@[index as int].0,
    {
        &self.entries[index].0
    }

    /// The value of the entry at `index`.
    pub fn value_at(&self, index: usize) -> (value: &String)
        requires
            index < self@.len(),
        ensures
            value@ == self@[index as int].1,
    {
        &self.entries[index].1
    }

    /// Sets `name` to `value`. A value that the name had before is replaced.
    pub fn insert(&mut self, name: String, value: String)
        ensures
            final(self)@ == upsert(old(self)@, name@, value@),
    {
        let wanted = to_chars(name.as_str());
        let mut i: usize = 0;
        assert(self@.skip(0) =~= self@);
        assert(self@.take(0) + upsert(self@, name@, value@) =~= upsert(self@, name@, value@));
        while i < self.entries.len()
            invariant
                i <= self.entries.len(),
                *self == *old(self),
                wanted@ == name@,
                upsert(self@, name@, value@) == self@.take(i as int) + upsert(
                    self@.skip(i as int),
                    name@,
                    value@,
                ),
            decreases self.entries.len() - i,
        {
            let ghost rest = self@.skip(i as int);
            assert(rest[0] == self@[i as int]);
            assert(rest.drop_first() =~= self@.skip(i + 1));
            assert(self@.take(i + 1) =~= self@.take(i as int) + seq![self@[i as int]]);
            let here = to_chars(self.entries[i].0.as_str());
            match compare(&wanted, &here) {
                Order::Equal => {
                    let ghost before = self@;
                    self.entries.set(i, (name, value));
                    assert(self@ =~= before.take(i as int) + (seq![(name@, value@)]
                        + rest.drop_first()));
                    return ;
                },
                Order::Less => {
                    let ghost before = self@;
                    self.entries.insert(i, (name, value));
                    assert(self@ =~= before.take(i as int) + (seq![(name@, value@)] + rest));
                    return ;
                },
                Order::Greater => {
                    assert(upsert(rest, name@, value@) =~= seq![rest[0]] + upsert(
                        rest.drop_first(),
                        name@,
                        value@,
                    ));
                    assert(self@.take(i as int) + (seq![rest[0]] + upsert(
                        rest.drop_first(),
                        name@,
                        value@,
                    )) =~= self@.take(i + 1) + upsert(self@.skip(i + 1), name@, value@));
                },
            }
            i += 1;
        }
        let ghost before = self@;
        assert(before.skip(i as int) =~= Seq::<Entry>::empty());
        self.entries.push((name, value));
        assert(self@ =~= before.take(i as int) + seq![(name@, value@)]);
    }

    /// The value of `name`, if it has one.
    pub fn get(&self, name: &str) -> (value: Option<&String>)
        ensures
            match value {
                Some(v) => lookup(self@, name@) == Some(v@),
                None => lookup(self@, name@).is_none(),
            },
    {
        let mut i: usize = 0;
        assert(self@.skip(0) =~= self@);
        while i < self.entries.len()
            invariant
                i <= self.entries.len(),
                lookup(self@, name@) == lookup(self@.skip(i as int), name@),
            decreases self.entries.len() - i,
        {
            let ghost rest = self@.skip(i as int);
            assert(rest[0] == self@[i as int]);
            assert(rest.drop_first() =~= self@.skip(i + 1));
            if str_equal(self.entries[i].0.as_str(), name) {
                return Some(&self.entries[i].1);
            }
            i += 1;
        }
        assert(self@.skip(i as int) =~= Seq::<Entry>::empty());
        None
    }

    /// A copy of these parameters.
    pub fn duplicate(&self) -> (p: Self)
        ensures
            p@ == self@,
    {
        let mut entries: Vec<(String, String)> = Vec::new();
        let mut i: usize = 0;
        while i < self.entries.len()
            invariant
                i <= self.entries.len(),
                entries@.len() == i,
                forall|k: int|
                    0 <= k < i ==> (#[trigger] entries@[k]).0@ == self.entries@[k].0@
                        && entries@[k].1@ == self.entries@[k].1@,
            decreases self.entries.len() - i,
        {
            entries.push((self.entries[i].0.clone(), self.entries[i].1.clone()));
            i += 1;
        }
        let p = Self { entries };
        assert(p@ =~= self@);
        p
    }
}

/// Whether two strings hold the same characters.
pub fn str_equal(a: &str, b: &str) -> (r: bool)
    ensures
        r == (a@ == b@),
{
    let x = to_chars(a);
    let y = to_chars(b);
    compare(&x, &y) == Order::Equal
}

} // verus!
