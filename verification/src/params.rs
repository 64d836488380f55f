//! The parameter map handed to extractors: string keys to string values,
//! carrying out-of-band inputs such as file paths and flags.

use vstd::prelude::*;

verus! {

/// Whether two string slices spell the same characters.
pub(crate) fn str_eq(a: &str, b: &str) -> (r: bool)
    ensures
        r == (a@ == b@),
{
    let na = a.unicode_len();
    let nb = b.unicode_len();
    if na != nb {
        proof {
            if a@ == b@ {
                assert(a@.len() == b@.len());
            }
        }
        return false;
    }
    let mut i: usize = 0;
    while i < na
        invariant
            na == a@.len() == b@.len(),
            i <= na,
            forall|j: int| 0 <= j < i ==> a@[j] == b@[j],
        decreases na - i,
    {
        if a.get_char(i) != b.get_char(i) {
            proof {
                if a@ == b@ {
                    assert(a@[i as int] == b@[i as int]);
                }
            }
            return false;
        }
        i += 1;
    }
    proof {
        assert(a@ =~= b@);
    }
    true
}

/// The key-to-value map that `entries` spells out, later entries winning.
pub(crate) open spec fn entries_map(s: Seq<(String, String)>) -> Map<Seq<char>, Seq<char>>
    decreases s.len(),
{
    if s.len() == 0 {
        Map::empty()
    } else {
        entries_map(s.drop_last()).insert(s.last().0@, s.last().1@)
    }
}

/// No two entries share a key.
pub(crate) open spec fn unique_keys(s: Seq<(String, String)>) -> bool {
    forall|i: int, j: int| 0 <= i < j < s.len() ==> s[i].0@ != s[j].0@
}

pub(crate) proof fn lemma_entries_map(s: Seq<(String, String)>)
    requires
        unique_keys(s),
    ensures
        forall|k: Seq<char>|
            #[trigger] entries_map(s).contains_key(k) <==> exists|i: int|
                0 <= i < s.len() && s[i].0@ == k,
        forall|i: int|
            0 <= i < s.len() ==> entries_map(s).contains_key(#[trigger] s[i].0@) && entries_map(s)[
                s[i].0@
            ] == s[i].1@,
    decreases s.len(),
{
    if s.len() > 0 {
        lemma_entries_map(s.drop_last());
        assert forall|i: int| 0 <= i < s.len() implies entries_map(s).contains_key(
            #[trigger] s[i].0@,
        ) && entries_map(s)[s[i].0@] == s[i].1@ by {
            if i < s.len() - 1 {
                assert(s.drop_last()[i] == s[i]);
                assert(s[i].0@ != s.last().0@);
            }
        }
        assert forall|k: Seq<char>| #[trigger] entries_map(s).contains_key(k) implies exists|i: int|
            0 <= i < s.len() && s[i].0@ == k by {
            if k != s.last().0@ {
                assert(entries_map(s.drop_last()).contains_key(k));
                let i = choose|i: int| 0 <= i < s.drop_last().len() && s.drop_last()[i].0@ == k;
                assert(s.drop_last()[i] == s[i]);
                assert(s[i].0@ == k);
            } else {
                assert(s[s.len() - 1].0@ == k);
            }
        }
    }
}

/// A map from parameter names to values. Keys are unique; insertion
/// overwrites.
pub struct ParamMap {
    entries: Vec<(String, String)>,
}

impl View for ParamMap {
    type V = Map<Seq<char>, Seq<char>>;

    closed spec fn view(&self) -> Map<Seq<char>, Seq<char>> {
        entries_map(self.entries@)
    }
}

impl ParamMap {
    /// Keys are pairwise distinct. Constructors establish this and every
    /// method preserves it.
    pub closed spec fn well_formed(&self) -> bool {
        unique_keys(self.entries@)
    }

    /// An empty map.
    pub fn new() -> (r: ParamMap)
        ensures
            r@ == Map::<Seq<char>, Seq<char>>::empty(),
            r.well_formed(),
    {
        ParamMap { entries: Vec::new() }
    }

    /// Binds `key` to `value`, replacing any earlier binding of `key`.
    pub fn insert(&mut self, key: String, value: String)
        requires
            old(self).well_formed(),
        ensures
            final(self).well_formed(),
            final(self)@ == old(self)@.insert(key@, value@),
    {
        proof {
            lemma_entries_map(self.entries@);
        }
        let n = self.entries.len();
        let mut i: usize = 0;
        while i < n
            invariant
                n == self.entries.len(),
                i <= n,
                forall|j: int| 0 <= j < i ==> self.entries@[j].0@ != key@,
                unique_keys(self.entries@),
                self.entries@ == old(self).entries@,
            decreases n - i,
        {
            if str_eq(self.entries[i].0.as_str(), key.as_str()) {
                self.entries[i] = (key, value);
                proof {
                    lemma_entries_map(self.entries@);
                    lemma_entries_map(old(self).entries@);
                    assert forall|k: Seq<char>| true implies entries_map(self.entries@).contains_key(
                        k,
                    ) == old(self)@.insert(key@, value@).contains_key(k) by {
                        if entries_map(self.entries@).contains_key(k) {
                            let m = choose|m: int|
                                0 <= m < self.entries@.len() && self.entries@[m].0@ == k;
                            if m != i {
                                assert(old(self).entries@[m].0@ == k);
                            }
                        }
                        if old(self)@.insert(key@, value@).contains_key(k) {
                            if k == key@ {
                                assert(self.entries@[i as int].0@ == k);
                            } else {
                                let m = choose|m: int|
                                    0 <= m < old(self).entries@.len() && old(
                                        self,
                                    ).entries@[m].0@ == k;
                                assert(self.entries@[m].0@ == k);
                            }
                        }
                    }
                    assert forall|k: Seq<char>|
                        entries_map(self.entries@).contains_key(k) implies entries_map(
                        self.entries@,
                    )[k] == old(self)@.insert(key@, value@)[k] by {
                        let m = choose|m: int|
                            0 <= m < self.entries@.len() && self.entries@[m].0@ == k;
                        if m != i {
                            assert(old(self).entries@[m].0@ == k);
                            assert(old(self).entries@[m].1@ == self.entries@[m].1@);
                        }
                    }
                    assert(entries_map(self.entries@) =~= old(self)@.insert(key@, value@));
                }
                return ;
            }
            i += 1;
        }
        self.entries.push((key, value));
        proof {
            assert(self.entries@.drop_last() =~= old(self).entries@);
        }
    }

    /// The value bound to `key`, or `None` when `key` is absent.
    pub fn get(&self, key: &str) -> (r: Option<&String>)
        requires
            self.well_formed(),
        ensures
            r matches Some(v) ==> self@.contains_key(key@) && v@ == self@[key@],
            r is None ==> !self@.contains_key(key@),
    {
        proof {
            lemma_entries_map(self.entries@);
        }
        let n = self.entries.len();
        let mut i: usize = 0;
        while i < n
            invariant
                self.well_formed(),
                n == self.entries.len(),
                i <= n,
                forall|j: int| 0 <= j < i ==> self.entries@[j].0@ != key@,
            decreases n - i,
        {
            if str_eq(self.entries[i].0.as_str(), key) {
                proof {
                    lemma_entries_map(self.entries@);
                    assert(self.entries@[i as int].0@ == key@);
                }
                return Some(&self.entries[i].1);
            }
            i += 1;
        }
        None
    }

    /// Whether `key` is bound.
    pub fn contains(&self, key: &str) -> (r: bool)
        requires
            self.well_formed(),
        ensures
            r == self@.contains_key(key@),
    {
        proof {
            lemma_entries_map(self.entries@);
        }
        let n = self.entries.len();
        let mut i: usize = 0;
        while i < n
            invariant
                self.well_formed(),
                n == self.entries.len(),
                i <= n,
                forall|j: int| 0 <= j < i ==> self.entries@[j].0@ != key@,
            decreases n - i,
        {
            if str_eq(self.entries[i].0.as_str(), key) {
                proof {
                    lemma_entries_map(self.entries@);
                    assert(self.entries@[i as int].0@ == key@);
                }
                return true;
            }
            i += 1;
        }
        false
    }
}

} // verus!
