//! The cache of verified reference values: the single latest value per
//! artifact name, last write wins. The in-memory [`Cache`] is the
//! reference backend; persistent backends implement the same interface.

use vstd::prelude::*;
use crate::error::{Error, ErrorView};
use crate::params::str_eq;
use crate::reference_value::{ReferenceValue, ReferenceValueView};

verus! {

/// The cache entries spelled out as a name-to-value map.
pub(crate) open spec fn rv_entries_map(s: Seq<(String, ReferenceValue)>) -> Map<
    Seq<char>,
    ReferenceValueView,
>
    decreases s.len(),
{
    if s.len() == 0 {
        Map::empty()
    } else {
        rv_entries_map(s.drop_last()).insert(s.last().0@, s.last().1@)
    }
}

pub(crate) open spec fn rv_unique_keys(s: Seq<(String, ReferenceValue)>) -> bool {
    forall|i: int, j: int| 0 <= i < j < s.len() ==> s[i].0@ != s[j].0@
}

pub(crate) proof fn lemma_rv_entries_map(s: Seq<(String, ReferenceValue)>)
    requires
        rv_unique_keys(s),
    ensures
        forall|k: Seq<char>|
            #[trigger] rv_entries_map(s).contains_key(k) <==> exists|i: int|
                0 <= i < s.len() && s[i].0@ == k,
        forall|i: int|
            0 <= i < s.len() ==> rv_entries_map(s).contains_key(#[trigger] s[i].0@)
                && rv_entries_map(s)[s[i].0@] == s[i].1@,
        rv_entries_map(s).dom().finite(),
        rv_entries_map(s).dom().len() == s.len(),
    decreases s.len(),
{
    if s.len() == 0 {
        assert(rv_entries_map(s).dom() =~= Set::<Seq<char>>::empty());
    }
    if s.len() > 0 {
        lemma_rv_entries_map(s.drop_last());
        assert forall|i: int| 0 <= i < s.len() implies rv_entries_map(s).contains_key(
            #[trigger] s[i].0@,
        ) && rv_entries_map(s)[s[i].0@] == s[i].1@ by {
            if i < s.len() - 1 {
                assert(s.drop_last()[i] == s[i]);
                assert(s[i].0@ != s.last().0@);
            }
        }
        assert forall|k: Seq<char>| #[trigger] rv_entries_map(s).contains_key(k) implies exists|
            i: int,
        |
            0 <= i < s.len() && s[i].0@ == k by {
            if k != s.last().0@ {
                assert(rv_entries_map(s.drop_last()).contains_key(k));
                let i = choose|i: int| 0 <= i < s.drop_last().len() && s.drop_last()[i].0@ == k;
                assert(s.drop_last()[i] == s[i]);
                assert(s[i].0@ == k);
            } else {
                assert(s[s.len() - 1].0@ == k);
            }
        }
        let prev = rv_entries_map(s.drop_last());
        assert(rv_entries_map(s).dom() =~= prev.dom().insert(s.last().0@));
        assert(!prev.contains_key(s.last().0@)) by {
            if prev.contains_key(s.last().0@) {
                let i = choose|i: int|
                    0 <= i < s.drop_last().len() && s.drop_last()[i].0@ == s.last().0@;
                assert(s[i].0@ == s[s.len() - 1].0@);
            }
        }
        vstd::set::axiom_set_insert_len(prev.dom(), s.last().0@);
    }
}

/// The views of a vector of reference values, elementwise.
pub open spec fn rv_views(vs: Seq<ReferenceValue>) -> Seq<ReferenceValueView> {
    Seq::new(vs.len(), |i: int| vs[i]@)
}

/// `vs` is a snapshot of the entries of `m`: one element per stored
/// name, every element is some name's current value, and every name's
/// current value appears.
pub open spec fn snapshot_of(
    m: Map<Seq<char>, ReferenceValueView>,
    vs: Seq<ReferenceValueView>,
) -> bool {
    &&& vs.len() == m.dom().len()
    &&& forall|i: int|
        #![trigger vs[i]]
        0 <= i < vs.len() ==> exists|k: Seq<char>|
            #![trigger m.contains_key(k)]
            m.contains_key(k) && m[k] == vs[i]
    &&& forall|k: Seq<char>|
        #![trigger m.contains_key(k)]
        m.contains_key(k) ==> exists|i: int|
            #![trigger vs[i]]
            0 <= i < vs.len() && vs[i] == m[k]
}

/// The interface every cache backend offers: unconditional upsert, point
/// lookup, and a snapshot of all current entries.
pub trait CacheAPI: Sized {
    /// The current entries: artifact name to latest reference value.
    spec fn cache_view(&self) -> Map<Seq<char>, ReferenceValueView>;

    /// The backend's internal invariant.
    spec fn cache_well_formed(&self) -> bool;

    /// Whether this backend can fail at all; the in-memory backend
    /// cannot, so success is owed wherever this holds.
    spec fn backend_infallible(&self) -> bool;

    /// Stores `reference_value` under `artifact_name`, replacing any
    /// earlier value of that name. Only a backend fault fails.
    fn put(&mut self, artifact_name: String, reference_value: ReferenceValue) -> (r: Result<
        (),
        Error,
    >)
        requires
            old(self).cache_well_formed(),
        ensures
            final(self).cache_well_formed(),
            final(self).backend_infallible() == old(self).backend_infallible(),
            old(self).backend_infallible() ==> r is Ok,
            r is Ok ==> final(self).cache_view() == old(self).cache_view().insert(
                artifact_name@,
                reference_value@,
            ),
            r matches Err(e) ==> e@ == ErrorView::CacheBackendError && final(self).cache_view()
                == old(self).cache_view(),
    ;

    /// The latest value stored under `name`; an absent name yields
    /// `None` rather than failing.
    fn get(&self, name: &str) -> (r: Result<Option<ReferenceValue>, Error>)
        requires
            self.cache_well_formed(),
        ensures
            self.backend_infallible() ==> r is Ok,
            r matches Ok(Some(v)) ==> self.cache_view().contains_key(name@) && v@
                == self.cache_view()[name@],
            r matches Ok(None) ==> !self.cache_view().contains_key(name@),
            r matches Err(e) ==> e@ == ErrorView::CacheBackendError,
    ;

    /// A snapshot copy of all current entries, in unspecified order:
    /// every element is some name's current value, and every name's
    /// current value is some element.
    fn get_all(&self) -> (r: Result<Vec<ReferenceValue>, Error>)
        requires
            self.cache_well_formed(),
        ensures
            self.backend_infallible() ==> r is Ok,
            r matches Ok(vs) ==> snapshot_of(self.cache_view(), rv_views(vs@)),
            r matches Err(e) ==> e@ == ErrorView::CacheBackendError,
    ;
}

/// Last write wins: storing one value and then another under the same
/// name leaves exactly the second bound to that name, as if the first
/// store had never happened.
pub proof fn lemma_last_write_wins(
    m: Map<Seq<char>, ReferenceValueView>,
    n: Seq<char>,
    v1: ReferenceValueView,
    v2: ReferenceValueView,
)
    ensures
        m.insert(n, v1).insert(n, v2) == m.insert(n, v2),
        m.insert(n, v2)[n] == v2,
        m.insert(n, v2).contains_key(n),
{
    assert(m.insert(n, v1).insert(n, v2) =~= m.insert(n, v2));
}

/// A snapshot never holds a superseded value: every element of a
/// `get_all` result is some name's current value, so a value that is no
/// name's current value is absent from the snapshot.
pub proof fn lemma_snapshot_excludes_superseded(
    m: Map<Seq<char>, ReferenceValueView>,
    vs: Seq<ReferenceValueView>,
    v: ReferenceValueView,
)
    requires
        snapshot_of(m, vs),
        forall|k: Seq<char>| #[trigger] m.contains_key(k) ==> m[k] != v,
    ensures
        forall|i: int| 0 <= i < vs.len() ==> #[trigger] vs[i] != v,
{
    assert forall|i: int| 0 <= i < vs.len() implies #[trigger] vs[i] != v by {
        let k = choose|k: Seq<char>| m.contains_key(k) && m[k] == vs[i];
        assert(m[k] != v);
    }
}

/// The in-memory cache backend. Unbounded by design; production
/// deployments substitute a persistent backend behind [`CacheAPI`].
pub struct Cache {
    inner: Vec<(String, ReferenceValue)>,
}

impl Cache {
    /// An empty cache.
    pub fn new() -> (r: Cache)
        ensures
            r.cache_well_formed(),
            r.backend_infallible(),
            r.cache_view() == Map::<Seq<char>, ReferenceValueView>::empty(),
    {
        Cache { inner: Vec::new() }
    }
}

impl CacheAPI for Cache {
    closed spec fn cache_view(&self) -> Map<Seq<char>, ReferenceValueView> {
        rv_entries_map(self.inner@)
    }

    closed spec fn cache_well_formed(&self) -> bool {
        rv_unique_keys(self.inner@)
    }

    closed spec fn backend_infallible(&self) -> bool {
        true
    }

    fn put(&mut self, artifact_name: String, reference_value: ReferenceValue) -> (r: Result<
        (),
        Error,
    >) {
        proof {
            lemma_rv_entries_map(self.inner@);
        }
        let n = self.inner.len();
        let mut i: usize = 0;
        while i < n
            invariant
                n == self.inner.len(),
                i <= n,
                forall|j: int| 0 <= j < i ==> self.inner@[j].0@ != artifact_name@,
                rv_unique_keys(self.inner@),
                self.inner@ == old(self).inner@,
            decreases n - i,
        {
            if str_eq(self.inner[i].0.as_str(), artifact_name.as_str()) {
                self.inner[i] = (artifact_name, reference_value);
                proof {
                    lemma_rv_entries_map(self.inner@);
                    lemma_rv_entries_map(old(self).inner@);
                    assert forall|k: Seq<char>| true implies rv_entries_map(
                        self.inner@,
                    ).contains_key(k) == old(self).cache_view().insert(
                        self.inner@[i as int].0@,
                        self.inner@[i as int].1@,
                    ).contains_key(k) by {
                        if rv_entries_map(self.inner@).contains_key(k) {
                            let m = choose|m: int|
                                0 <= m < self.inner@.len() && self.inner@[m].0@ == k;
                            if m != i {
                                assert(old(self).inner@[m].0@ == k);
                            }
                        }
                        if old(self).cache_view().insert(
                            self.inner@[i as int].0@,
                            self.inner@[i as int].1@,
                        ).contains_key(k) {
                            if k == self.inner@[i as int].0@ {
                                assert(self.inner@[i as int].0@ == k);
                            } else {
                                let m = choose|m: int|
                                    0 <= m < old(self).inner@.len() && old(self).inner@[m].0@ == k;
                                assert(self.inner@[m].0@ == k);
                            }
                        }
                    }
                    assert forall|k: Seq<char>|
                        rv_entries_map(self.inner@).contains_key(k) implies rv_entries_map(
                        self.inner@,
                    )[k] == old(self).cache_view().insert(
                        self.inner@[i as int].0@,
                        self.inner@[i as int].1@,
                    )[k] by {
                        let m = choose|m: int| 0 <= m < self.inner@.len() && self.inner@[m].0@ == k;
                        if m != i {
                            assert(old(self).inner@[m].0@ == k);
                            assert(old(self).inner@[m].1@ == self.inner@[m].1@);
                        }
                    }
                    assert(rv_entries_map(self.inner@) =~= old(self).cache_view().insert(
                        self.inner@[i as int].0@,
                        self.inner@[i as int].1@,
                    ));
                }
                return Ok(());
            }
            i += 1;
        }
        self.inner.push((artifact_name, reference_value));
        proof {
            assert(self.inner@.drop_last() =~= old(self).inner@);
        }
        Ok(())
    }

    fn get(&self, name: &str) -> (r: Result<Option<ReferenceValue>, Error>) {
        let n = self.inner.len();
        let mut i: usize = 0;
        while i < n
            invariant
                self.cache_well_formed(),
                n == self.inner.len(),
                i <= n,
                forall|j: int| 0 <= j < i ==> self.inner@[j].0@ != name@,
            decreases n - i,
        {
            if str_eq(self.inner[i].0.as_str(), name) {
                proof {
                    lemma_rv_entries_map(self.inner@);
                    assert(self.inner@[i as int].0@ == name@);
                }
                return Ok(Some(self.inner[i].1.clone()));
            }
            i += 1;
        }
        proof {
            lemma_rv_entries_map(self.inner@);
        }
        Ok(None)
    }

    fn get_all(&self) -> (r: Result<Vec<ReferenceValue>, Error>) {
        proof {
            lemma_rv_entries_map(self.inner@);
        }
        let n = self.inner.len();
        let mut res: Vec<ReferenceValue> = Vec::new();
        let mut i: usize = 0;
        while i < n
            invariant
                self.cache_well_formed(),
                n == self.inner.len(),
                i <= n,
                res@.len() == i,
                forall|j: int| 0 <= j < i ==> res@[j]@ == self.inner@[j].1@,
            decreases n - i,
        {
            res.push(self.inner[i].1.clone());
            i += 1;
        }
        proof {
            lemma_rv_entries_map(self.inner@);
            let views = rv_views(res@);
            assert forall|j: int| #![trigger views[j]] 0 <= j < views.len() implies exists|
                k: Seq<char>,
            |
                #![trigger self.cache_view().contains_key(k)]
                self.cache_view().contains_key(k) && self.cache_view()[k] == views[j] by {
                assert(self.cache_view().contains_key(self.inner@[j].0@) && self.cache_view()[
                    self.inner@[j].0@
                ] == views[j]);
            }
            assert forall|k: Seq<char>|
                self.cache_view().contains_key(k) implies exists|j: int|
                #![trigger views[j]]
                0 <= j < views.len() && views[j] == self.cache_view()[k] by {
                let m = choose|m: int| 0 <= m < self.inner@.len() && self.inner@[m].0@ == k;
                assert(views[m] == self.cache_view()[k]);
            }
            assert(rv_views(res@).len() == self.cache_view().dom().len());
            assert(snapshot_of(self.cache_view(), rv_views(res@)));
        }
        Ok(res)
    }
}

} // verus!
