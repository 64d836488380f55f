//! The canonical reference value: the trusted, versioned record of an
//! artifact's expected digests and validity window, consumed by an
//! attestation service.

use vstd::prelude::*;
use crate::clock;
use crate::timestamp::Timestamp;

verus! {

/// Default version of a reference value's format.
pub const REFERENCE_VALUE_VERSION: &'static str = "0.1";

/// The default version as a `String`.
pub fn default_version() -> (r: String)
    ensures
        r@ == REFERENCE_VALUE_VERSION@,
{
    String::from_str(REFERENCE_VALUE_VERSION)
}

/// A hash algorithm name and the artifact's digest under that algorithm.
#[derive(Debug)]
pub struct HashValuePair {
    alg: String,
    value: String,
}

impl View for HashValuePair {
    type V = (Seq<char>, Seq<char>);

    closed spec fn view(&self) -> (Seq<char>, Seq<char>) {
        (self.alg@, self.value@)
    }
}

impl Clone for HashValuePair {
    fn clone(&self) -> (r: Self)
        ensures
            r@ == self@,
    {
        HashValuePair { alg: self.alg.clone(), value: self.value.clone() }
    }
}

impl PartialEq for HashValuePair {
    fn eq(&self, other: &HashValuePair) -> (r: bool) {
        self.alg == other.alg && self.value == other.value
    }
}

impl vstd::std_specs::cmp::PartialEqSpecImpl for HashValuePair {
    open spec fn obeys_eq_spec() -> bool {
        true
    }

    open spec fn eq_spec(&self, other: &HashValuePair) -> bool {
        self@ == other@
    }
}

impl HashValuePair {
    pub fn new(alg: String, value: String) -> (r: Self)
        ensures
            r@ == (alg@, value@),
    {
        Self { alg, value }
    }

    pub fn alg(&self) -> (r: &String)
        ensures
            r@ == self@.0,
    {
        &self.alg
    }

    pub fn value(&self) -> (r: &String)
        ensures
            r@ == self@.1,
    {
        &self.value
    }
}

/// The mathematical shape of a [`ReferenceValue`].
pub struct ReferenceValueView {
    pub version: Seq<char>,
    pub name: Seq<char>,
    pub expired: Timestamp,
    pub hash_values: Seq<(Seq<char>, Seq<char>)>,
}

/// A reference value: format version, artifact name, expiration instant,
/// and the ordered list of (algorithm, digest) pairs. Immutable after
/// construction apart from the builder-style setters.
#[derive(Debug)]
pub struct ReferenceValue {
    version: String,
    name: String,
    expired: Timestamp,
    hash_value: Vec<HashValuePair>,
}

impl View for ReferenceValue {
    type V = ReferenceValueView;

    closed spec fn view(&self) -> ReferenceValueView {
        ReferenceValueView {
            version: self.version@,
            name: self.name@,
            expired: self.expired,
            hash_values: Seq::new(self.hash_value@.len(), |i: int| self.hash_value@[i]@),
        }
    }
}

impl Clone for ReferenceValue {
    fn clone(&self) -> (r: Self)
        ensures
            r@ == self@,
    {
        let mut pairs: Vec<HashValuePair> = Vec::new();
        let n = self.hash_value.len();
        let mut i: usize = 0;
        while i < n
            invariant
                n == self.hash_value.len(),
                i <= n,
                pairs@.len() == i,
                forall|j: int| 0 <= j < i ==> pairs@[j]@ == self.hash_value@[j]@,
            decreases n - i,
        {
            pairs.push(self.hash_value[i].clone());
            i += 1;
        }
        let r = ReferenceValue {
            version: self.version.clone(),
            name: self.name.clone(),
            expired: self.expired,
            hash_value: pairs,
        };
        proof {
            assert(r@.hash_values =~= self@.hash_values);
        }
        r
    }
}

impl PartialEq for ReferenceValue {
    fn eq(&self, other: &ReferenceValue) -> (r: bool) {
        if !(self.version == other.version && self.name == other.name && self.expired
            == other.expired && self.hash_value.len() == other.hash_value.len()) {
            proof {
                if self@ == other@ {
                    assert(self@.hash_values.len() == other@.hash_values.len());
                }
            }
            return false;
        }
        let n = self.hash_value.len();
        let mut i: usize = 0;
        while i < n
            invariant
                n == self.hash_value.len(),
                n == other.hash_value.len(),
                i <= n,
                forall|j: int| 0 <= j < i ==> self.hash_value@[j]@ == other.hash_value@[j]@,
            decreases n - i,
        {
            if !(self.hash_value[i] == other.hash_value[i]) {
                proof {
                    if self@ == other@ {
                        assert(self@.hash_values[i as int] == other@.hash_values[i as int]);
                    }
                }
                return false;
            }
            i += 1;
        }
        proof {
            assert(self@.hash_values =~= other@.hash_values);
        }
        true
    }
}

impl vstd::std_specs::cmp::PartialEqSpecImpl for ReferenceValue {
    open spec fn obeys_eq_spec() -> bool {
        true
    }

    open spec fn eq_spec(&self, other: &ReferenceValue) -> bool {
        self@ == other@
    }
}

impl ReferenceValue {
    /// The expiration instant fits the fixed-width wire pattern.
    pub open spec fn well_formed(&self) -> bool {
        self@.expired.well_formed()
    }

    /// A fresh reference value: default version, empty name, no digests,
    /// and an expiration of the current wall-clock time.
    pub fn new() -> (r: Self)
        ensures
            r@.version == REFERENCE_VALUE_VERSION@,
            r@.name == Seq::<char>::empty(),
            r@.hash_values == Seq::<(Seq<char>, Seq<char>)>::empty(),
            r.well_formed(),
    {
        let r = ReferenceValue {
            version: default_version(),
            name: String::new(),
            expired: clock::now_timestamp(),
            hash_value: Vec::new(),
        };
        proof {
            assert(r@.hash_values =~= Seq::<(Seq<char>, Seq<char>)>::empty());
        }
        r
    }

    /// Replaces the format version.
    pub fn set_version(self, version: &str) -> (r: Self)
        ensures
            r@ == (ReferenceValueView { version: version@, ..self@ }),
    {
        let r = ReferenceValue {
            version: String::from_str(version),
            name: self.name,
            expired: self.expired,
            hash_value: self.hash_value,
        };
        proof {
            assert(r@.hash_values =~= self@.hash_values);
        }
        r
    }

    /// The format version.
    pub fn version(&self) -> (r: &String)
        ensures
            r@ == self@.version,
    {
        &self.version
    }

    /// Replaces the expiration instant.
    pub fn set_expired(self, expired: Timestamp) -> (r: Self)
        ensures
            r@ == (ReferenceValueView { expired: expired, ..self@ }),
    {
        let r = ReferenceValue {
            version: self.version,
            name: self.name,
            expired,
            hash_value: self.hash_value,
        };
        proof {
            assert(r@.hash_values =~= self@.hash_values);
        }
        r
    }

    /// The expiration instant.
    pub fn expired(&self) -> (r: &Timestamp)
        ensures
            *r == self@.expired,
    {
        &self.expired
    }

    /// Appends one (algorithm, digest) pair.
    pub fn add_hash_value(self, alg: String, value: String) -> (r: Self)
        ensures
            r@ == (ReferenceValueView {
                hash_values: self@.hash_values.push((alg@, value@)),
                ..self@
            }),
    {
        let ghost before = self@;
        let mut hash_value = self.hash_value;
        hash_value.push(HashValuePair::new(alg, value));
        let r = ReferenceValue {
            version: self.version,
            name: self.name,
            expired: self.expired,
            hash_value,
        };
        proof {
            assert(r@.hash_values =~= before.hash_values.push((alg@, value@)));
        }
        r
    }

    /// The (algorithm, digest) pairs, in insertion order.
    pub fn hash_values(&self) -> (r: &Vec<HashValuePair>)
        ensures
            r@.len() == self@.hash_values.len(),
            forall|i: int| 0 <= i < r@.len() ==> r@[i]@ == self@.hash_values[i],
    {
        &self.hash_value
    }

    /// Replaces the artifact name.
    pub fn set_name(self, name: &str) -> (r: Self)
        ensures
            r@ == (ReferenceValueView { name: name@, ..self@ }),
    {
        let r = ReferenceValue {
            version: self.version,
            name: String::from_str(name),
            expired: self.expired,
            hash_value: self.hash_value,
        };
        proof {
            assert(r@.hash_values =~= self@.hash_values);
        }
        r
    }

    /// The artifact name.
    pub fn name(&self) -> (r: &String)
        ensures
            r@ == self@.name,
    {
        &self.name
    }
}

} // verus!
