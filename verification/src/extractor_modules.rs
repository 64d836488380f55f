//! The extractor registry: a map from a provenance-type name to the
//! factory for that format's extractor, and the instances it builds.
//! A new compiled-in provenance format is added by registering one more
//! factory in [`ExtractorModuleList::new`].

use vstd::prelude::*;
use crate::error::{Error, ErrorView};
use crate::in_toto::{in_toto_result_spec, InTotoExtractor, InTotoVerifier};
use crate::params::{str_eq, ParamMap};

verus! {

/// The provenance-type name the in-toto extractor is registered under.
pub const IN_TOTO_NAME: &'static str = "in-toto";

/// The characters of [`IN_TOTO_NAME`].
pub open spec fn in_toto_name() -> Seq<char> {
    seq!['i', 'n', '-', 't', 'o', 't', 'o']
}

pub(crate) proof fn lemma_in_toto_name_chars()
    ensures
        IN_TOTO_NAME@ == in_toto_name(),
{
    reveal_strlit("in-toto");
    assert(IN_TOTO_NAME@ =~= in_toto_name());
}

/// A factory: which extractor a provenance type instantiates.
#[derive(Clone, Copy, Debug, PartialEq, Eq, Structural)]
pub enum ExtractorKind {
    InToto,
}

/// A standard interface that every provenance extractor implements:
/// verify the provenance, then extract the artifact's digest. The
/// verifier port carries the outside cryptographic check.
pub trait Extractor<V: InTotoVerifier> {
    fn verify_and_extract(
        &self,
        provenance: String,
        parameters: &ParamMap,
        verifier: &mut V,
    ) -> Result<String, Error>
        requires
            parameters.well_formed(),
    ;
}

/// One instantiated extractor, owned by the registry's instance map.
#[derive(Clone, Copy, Debug, PartialEq, Eq, Structural)]
pub enum ExtractorInstance {
    InToto(InTotoExtractor),
}

impl ExtractorInstance {
    /// The instance a factory yields.
    pub open spec fn spec_create(kind: ExtractorKind) -> ExtractorInstance {
        match kind {
            ExtractorKind::InToto => ExtractorInstance::InToto(InTotoExtractor {  }),
        }
    }

    /// Runs `kind`'s factory.
    pub fn create(kind: ExtractorKind) -> (r: ExtractorInstance)
        ensures
            r == ExtractorInstance::spec_create(kind),
    {
        match kind {
            ExtractorKind::InToto => ExtractorInstance::InToto(InTotoExtractor::new()),
        }
    }

    /// Verifies the provenance through the instance's format and
    /// extracts the digest; in-toto's extraction is deliberately
    /// unimplemented, so the in-toto instance never yields a digest.
    pub fn verify_and_extract<V: InTotoVerifier>(
        &self,
        provenance: String,
        parameters: &ParamMap,
        verifier: &mut V,
    ) -> (r: Result<String, Error>)
        requires
            parameters.well_formed(),
            parameters@.contains_key(crate::extractors::working_dir_key()),
        ensures
            in_toto_result_spec(parameters@, r),
    {
        match self {
            ExtractorInstance::InToto(e) => e.verify_and_extract(provenance, parameters, verifier),
        }
    }
}

/// The map entries spelled out as a key-to-factory map.
pub(crate) open spec fn kind_entries_map(s: Seq<(String, ExtractorKind)>) -> Map<
    Seq<char>,
    ExtractorKind,
>
    decreases s.len(),
{
    if s.len() == 0 {
        Map::empty()
    } else {
        kind_entries_map(s.drop_last()).insert(s.last().0@, s.last().1)
    }
}

pub(crate) open spec fn kind_unique_keys(s: Seq<(String, ExtractorKind)>) -> bool {
    forall|i: int, j: int| 0 <= i < j < s.len() ==> s[i].0@ != s[j].0@
}

pub(crate) proof fn lemma_kind_entries_map(s: Seq<(String, ExtractorKind)>)
    requires
        kind_unique_keys(s),
    ensures
        forall|k: Seq<char>|
            #[trigger] kind_entries_map(s).contains_key(k) <==> exists|i: int|
                0 <= i < s.len() && s[i].0@ == k,
        forall|i: int|
            0 <= i < s.len() ==> kind_entries_map(s).contains_key(#[trigger] s[i].0@)
                && kind_entries_map(s)[s[i].0@] == s[i].1,
    decreases s.len(),
{
    if s.len() > 0 {
        lemma_kind_entries_map(s.drop_last());
        assert forall|i: int| 0 <= i < s.len() implies kind_entries_map(s).contains_key(
            #[trigger] s[i].0@,
        ) && kind_entries_map(s)[s[i].0@] == s[i].1 by {
            if i < s.len() - 1 {
                assert(s.drop_last()[i] == s[i]);
                assert(s[i].0@ != s.last().0@);
            }
        }
        assert forall|k: Seq<char>| #[trigger] kind_entries_map(s).contains_key(k) implies exists|
            i: int,
        |
            0 <= i < s.len() && s[i].0@ == k by {
            if k != s.last().0@ {
                assert(kind_entries_map(s.drop_last()).contains_key(k));
                let i = choose|i: int|
                    0 <= i < s.drop_last().len() && s.drop_last()[i].0@ == k;
                assert(s.drop_last()[i] == s[i]);
                assert(s[i].0@ == k);
            } else {
                assert(s[s.len() - 1].0@ == k);
            }
        }
    }
}

/// The table of registered factories, keyed by provenance-type name.
pub struct ExtractorModuleList {
    mod_list: Vec<(String, ExtractorKind)>,
}

impl ExtractorModuleList {
    /// The registered factories.
    pub closed spec fn factories(&self) -> Map<Seq<char>, ExtractorKind> {
        kind_entries_map(self.mod_list@)
    }

    pub closed spec fn well_formed(&self) -> bool {
        kind_unique_keys(self.mod_list@)
    }

    /// The registry with every compiled-in format: in-toto.
    pub fn new() -> (r: ExtractorModuleList)
        ensures
            r.well_formed(),
            r.factories() == Map::<Seq<char>, ExtractorKind>::empty().insert(
                in_toto_name(),
                ExtractorKind::InToto,
            ),
    {
        let mut mod_list: Vec<(String, ExtractorKind)> = Vec::new();
        mod_list.push((String::from_str(IN_TOTO_NAME), ExtractorKind::InToto));
        let r = ExtractorModuleList { mod_list };
        proof {
            lemma_in_toto_name_chars();
            assert(r.mod_list@.drop_last() =~= Seq::<(String, ExtractorKind)>::empty());
            assert(kind_entries_map(Seq::<(String, ExtractorKind)>::empty()) =~= Map::<
                Seq<char>,
                ExtractorKind,
            >::empty());
            assert(r.mod_list@.last().0@ == in_toto_name());
            assert(r.factories() =~= Map::<Seq<char>, ExtractorKind>::empty().insert(
                in_toto_name(),
                ExtractorKind::InToto,
            ));
        }
        r
    }

    /// The factory registered for `extractor_name`; fails with
    /// [`Error::UnsupportedProvenanceType`] exactly when none is.
    pub fn get_func(&self, extractor_name: &str) -> (r: Result<ExtractorKind, Error>)
        requires
            self.well_formed(),
        ensures
            r matches Ok(k) ==> self.factories().contains_key(extractor_name@) && k
                == self.factories()[extractor_name@],
            r matches Err(e) ==> !self.factories().contains_key(extractor_name@) && e@
                == ErrorView::UnsupportedProvenanceType(extractor_name@),
    {
        let n = self.mod_list.len();
        let mut i: usize = 0;
        while i < n
            invariant
                self.well_formed(),
                n == self.mod_list.len(),
                i <= n,
                forall|j: int| 0 <= j < i ==> self.mod_list@[j].0@ != extractor_name@,
            decreases n - i,
        {
            if str_eq(self.mod_list[i].0.as_str(), extractor_name) {
                proof {
                    lemma_kind_entries_map(self.mod_list@);
                    assert(self.mod_list@[i as int].0@ == extractor_name@);
                }
                return Ok(self.mod_list[i].1);
            }
            i += 1;
        }
        proof {
            lemma_kind_entries_map(self.mod_list@);
        }
        Err(Error::UnsupportedProvenanceType(String::from_str(extractor_name)))
    }
}

} // verus!
