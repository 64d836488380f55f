//! The extraction coordinator: resolves the extractor for a provenance
//! type (instantiating it on first use and reusing it afterwards), runs
//! it inside a scoped working-directory sandbox that is restored on every
//! exit path, and turns the extracted digest into a reference value.

use vstd::prelude::*;
use crate::error::{Error, ErrorView};
use crate::extractor_modules::{ExtractorInstance, ExtractorKind, ExtractorModuleList};
use crate::extractor_modules::in_toto_name;
use crate::in_toto::{in_toto_result_spec, InTotoVerifier};
use crate::params::{str_eq, ParamMap};
use crate::reference_value::{ReferenceValue, REFERENCE_VALUE_VERSION};
use crate::workdir::ProcessDir;

verus! {

/// The parameter that names the sandbox directory for an extraction.
pub const WORKING_DIR_KEY: &'static str = "working_dir";

/// The characters of [`WORKING_DIR_KEY`].
pub open spec fn working_dir_key() -> Seq<char> {
    seq!['w', 'o', 'r', 'k', 'i', 'n', 'g', '_', 'd', 'i', 'r']
}

pub(crate) proof fn lemma_working_dir_key_chars()
    ensures
        WORKING_DIR_KEY@ == working_dir_key(),
{
    reveal_strlit("working_dir");
    assert(WORKING_DIR_KEY@ =~= working_dir_key());
}

/// The algorithm name recorded for a digest whose extractor does not
/// report one.
pub const DEFAULT_HASH_ALG: &'static str = "sha512";

/// The characters of [`DEFAULT_HASH_ALG`].
pub open spec fn default_hash_alg() -> Seq<char> {
    seq!['s', 'h', 'a', '5', '1', '2']
}

pub(crate) proof fn lemma_default_hash_alg_chars()
    ensures
        DEFAULT_HASH_ALG@ == default_hash_alg(),
{
    reveal_strlit("sha512");
    assert(DEFAULT_HASH_ALG@ =~= default_hash_alg());
}

pub(crate) open spec fn instance_entries_map(s: Seq<(String, ExtractorInstance)>) -> Map<
    Seq<char>,
    ExtractorInstance,
>
    decreases s.len(),
{
    if s.len() == 0 {
        Map::empty()
    } else {
        instance_entries_map(s.drop_last()).insert(s.last().0@, s.last().1)
    }
}

pub(crate) open spec fn instance_unique_keys(s: Seq<(String, ExtractorInstance)>) -> bool {
    forall|i: int, j: int| 0 <= i < j < s.len() ==> s[i].0@ != s[j].0@
}

pub(crate) proof fn lemma_instance_entries_map(s: Seq<(String, ExtractorInstance)>)
    requires
        instance_unique_keys(s),
    ensures
        forall|k: Seq<char>|
            #[trigger] instance_entries_map(s).contains_key(k) <==> exists|i: int|
                0 <= i < s.len() && s[i].0@ == k,
        forall|i: int|
            0 <= i < s.len() ==> instance_entries_map(s).contains_key(#[trigger] s[i].0@)
                && instance_entries_map(s)[s[i].0@] == s[i].1,
    decreases s.len(),
{
    if s.len() > 0 {
        lemma_instance_entries_map(s.drop_last());
        assert forall|i: int| 0 <= i < s.len() implies instance_entries_map(s).contains_key(
            #[trigger] s[i].0@,
        ) && instance_entries_map(s)[s[i].0@] == s[i].1 by {
            if i < s.len() - 1 {
                assert(s.drop_last()[i] == s[i]);
                assert(s[i].0@ != s.last().0@);
            }
        }
        assert forall|k: Seq<char>| #[trigger] instance_entries_map(s).contains_key(k) implies exists|
            i: int,
        |
            0 <= i < s.len() && s[i].0@ == k by {
            if k != s.last().0@ {
                assert(instance_entries_map(s.drop_last()).contains_key(k));
                let i = choose|i: int|
                    0 <= i < s.drop_last().len() && s.drop_last()[i].0@ == k;
                assert(s.drop_last()[i] == s[i]);
                assert(s[i].0@ == k);
            } else {
                assert(s[s.len() - 1].0@ == k);
            }
        }
    }
}

/// The interface of the extraction coordinator.
pub trait ExtratorsAPI: Sized {
    /// The registered factories, by provenance-type name.
    spec fn registry_factories(&self) -> Map<Seq<char>, ExtractorKind>;

    /// The extractors instantiated so far, by provenance-type name.
    spec fn registry_instances(&self) -> Map<Seq<char>, ExtractorInstance>;

    /// The registry's internal invariant.
    spec fn registry_well_formed(&self) -> bool;

    /// Handles one provenance document: resolves the extractor for
    /// `provenance_type` (instantiating it on first use), requires the
    /// sandbox directory parameter before any extractor code runs,
    /// executes the extractor inside the sandbox, restores the working
    /// directory on every exit path, and on success returns the
    /// reference value for `provenance_name`. Extractor failures
    /// propagate unchanged.
    fn handle_provenance<V: InTotoVerifier>(
        &mut self,
        provenance_type: String,
        provenance_name: String,
        provenance: String,
        parameters: &ParamMap,
        dir: &mut ProcessDir,
        verifier: &mut V,
    ) -> (r: Result<ReferenceValue, Error>)
        requires
            old(self).registry_well_formed(),
            parameters.well_formed(),
        ensures
            final(self).registry_well_formed(),
            final(dir)@ == old(dir)@,
            final(self).registry_factories() == old(self).registry_factories(),
            !old(self).registry_factories().contains_key(provenance_type@) ==> (r matches Err(e)
                && e@ == ErrorView::UnsupportedProvenanceType(provenance_type@) && final(self).registry_instances() == old(self).registry_instances()),
            old(self).registry_factories().contains_key(provenance_type@) ==> final(self).registry_instances() == if old(self).registry_instances().contains_key(
                provenance_type@,
            ) {
                old(self).registry_instances()
            } else {
                old(self).registry_instances().insert(
                    provenance_type@,
                    ExtractorInstance::spec_create(
                        old(self).registry_factories()[provenance_type@],
                    ),
                )
            },
            old(self).registry_factories().contains_key(provenance_type@)
                && !parameters@.contains_key(working_dir_key()) ==> (r matches Err(e) && e@
                == ErrorView::MissingParameter(working_dir_key())),
            old(self).registry_factories().contains_key(provenance_type@)
                && parameters@.contains_key(working_dir_key()) ==> exists|
                inner: Result<String, Error>,
            |
                #[trigger] in_toto_result_spec(parameters@, inner) && match inner {
                    Ok(digest) => r matches Ok(rv) && rv@.name == provenance_name@ && rv@.version
                        == REFERENCE_VALUE_VERSION@ && rv@.hash_values == seq![
                        (default_hash_alg(), digest@),
                    ] && rv.well_formed(),
                    Err(e) => r matches Err(e2) && e2@ == e@,
                },
    ;
}

/// Instance-on-demand: the first request of a provenance type installs
/// the factory's instance; a second request of the same type finds that
/// instance already installed and yields the very same one, with the
/// instance map unchanged — the factory never runs twice for one type.
pub proof fn lemma_instance_on_demand(
    factories: Map<Seq<char>, ExtractorKind>,
    instances: Map<Seq<char>, ExtractorInstance>,
    t: Seq<char>,
)
    requires
        factories.contains_key(t),
        !instances.contains_key(t),
    ensures
        ({
            let first = ExtractorInstance::spec_create(factories[t]);
            let installed = instances.insert(t, first);
            &&& installed.contains_key(t)
            &&& installed[t] == first
            &&& installed.insert(t, installed[t]) == installed
        }),
{
    let first = ExtractorInstance::spec_create(factories[t]);
    let installed = instances.insert(t, first);
    assert(installed.insert(t, installed[t]) =~= installed);
}

/// The extraction coordinator: the factory table and the instance map
/// that together realize instance-on-demand extractor reuse.
pub struct Extrators {
    extractors_module_list: ExtractorModuleList,
    extractors_instance_map: Vec<(String, ExtractorInstance)>,
}

impl Extrators {
    /// A coordinator with the compiled-in factories and no instances.
    pub fn new() -> (r: Self)
        ensures
            r.registry_well_formed(),
            r.registry_factories() == Map::<Seq<char>, ExtractorKind>::empty().insert(
                in_toto_name(),
                ExtractorKind::InToto,
            ),
            r.registry_instances() == Map::<Seq<char>, ExtractorInstance>::empty(),
    {
        let extractors_module_list = ExtractorModuleList::new();
        let extractors_instance_map: Vec<(String, ExtractorInstance)> = Vec::new();
        Extrators { extractors_module_list, extractors_instance_map }
    }

    /// Records an instantiated extractor under its provenance-type name.
    fn register_instance(
        &mut self,
        extractor_name: String,
        extractor_instance: ExtractorInstance,
    )
        requires
            old(self).registry_well_formed(),
            !old(self).registry_instances().contains_key(extractor_name@),
            old(self).registry_factories().contains_key(extractor_name@),
        ensures
            final(self).registry_well_formed(),
            final(self).registry_factories() == old(self).registry_factories(),
            final(self).registry_instances() == old(self).registry_instances().insert(
                extractor_name@,
                extractor_instance,
            ),
    {
        let ghost namev = extractor_name@;
        proof {
            lemma_instance_entries_map(self.extractors_instance_map@);
        }
        self.extractors_instance_map.push((extractor_name, extractor_instance));
        proof {
            assert(self.extractors_instance_map@.drop_last() =~= old(self).extractors_instance_map@);
            assert forall|i: int, j: int|
                0 <= i < j < self.extractors_instance_map@.len() implies self.extractors_instance_map@[i].0@
                != self.extractors_instance_map@[j].0@ by {
                if j < self.extractors_instance_map@.len() - 1 {
                } else {
                    assert(old(self).extractors_instance_map@[i]
                        == self.extractors_instance_map@[i]);
                }
            }
        }
    }

    /// Instantiates the extractor for `extractor_name` via its factory
    /// and registers it.
    fn instantiate_extractor(&mut self, extractor_name: String) -> (r: Result<
        ExtractorInstance,
        Error,
    >)
        requires
            old(self).registry_well_formed(),
            !old(self).registry_instances().contains_key(extractor_name@),
        ensures
            final(self).registry_well_formed(),
            final(self).registry_factories() == old(self).registry_factories(),
            old(self).registry_factories().contains_key(extractor_name@) ==> r == Ok::<
                ExtractorInstance,
                Error,
            >(ExtractorInstance::spec_create(old(self).registry_factories()[extractor_name@]))
                && final(self).registry_instances() == old(self).registry_instances().insert(
                extractor_name@,
                ExtractorInstance::spec_create(old(self).registry_factories()[extractor_name@]),
            ),
            !old(self).registry_factories().contains_key(extractor_name@) ==> (r matches Err(e)
                && e@ == ErrorView::UnsupportedProvenanceType(extractor_name@) && final(self).registry_instances() == old(self).registry_instances()),
    {
        let ghost namev = extractor_name@;
        let instantiate_func = match self.extractors_module_list.get_func(extractor_name.as_str()) {
            Ok(k) => k,
            Err(e) => {
                return Err(e);
            },
        };
        let extractor_instance = ExtractorInstance::create(instantiate_func);
        self.register_instance(extractor_name, extractor_instance);
        Ok(extractor_instance)
    }

    /// The extractor instance for `extractor_name`: built by the factory
    /// on the first request of that type, returned unchanged on every
    /// later one. The factory never runs for a type that already has an
    /// instance.
    pub fn get_or_create_instance(&mut self, extractor_name: &str) -> (r: Result<
        ExtractorInstance,
        Error,
    >)
        requires
            old(self).registry_well_formed(),
        ensures
            final(self).registry_well_formed(),
            final(self).registry_factories() == old(self).registry_factories(),
            old(self).registry_instances().contains_key(extractor_name@) ==> final(self).registry_instances() == old(self).registry_instances() && r == Ok::<
                ExtractorInstance,
                Error,
            >(old(self).registry_instances()[extractor_name@]),
            !old(self).registry_instances().contains_key(extractor_name@) && old(self).registry_factories().contains_key(extractor_name@) ==> final(self).registry_instances() == old(self).registry_instances().insert(
                extractor_name@,
                ExtractorInstance::spec_create(old(self).registry_factories()[extractor_name@]),
            ) && r == Ok::<ExtractorInstance, Error>(
                ExtractorInstance::spec_create(old(self).registry_factories()[extractor_name@]),
            ),
            !old(self).registry_instances().contains_key(extractor_name@) && !old(self).registry_factories().contains_key(extractor_name@) ==> final(self).registry_instances() == old(self).registry_instances() && (r matches Err(e) && e@
                == ErrorView::UnsupportedProvenanceType(extractor_name@)),
    {
        let n = self.extractors_instance_map.len();
        let mut i: usize = 0;
        while i < n
            invariant
                self.registry_well_formed(),
                self == old(self),
                n == self.extractors_instance_map.len(),
                i <= n,
                forall|j: int| 0 <= j < i ==> self.extractors_instance_map@[j].0@ != extractor_name@,
            decreases n - i,
        {
            if str_eq(self.extractors_instance_map[i].0.as_str(), extractor_name) {
                proof {
                    lemma_instance_entries_map(self.extractors_instance_map@);
                    assert(self.extractors_instance_map@[i as int].0@ == extractor_name@);
                }
                return Ok(self.extractors_instance_map[i].1);
            }
            i += 1;
        }
        proof {
            lemma_instance_entries_map(self.extractors_instance_map@);
        }
        self.instantiate_extractor(String::from_str(extractor_name))
    }
}

impl Default for Extrators {
    fn default() -> (r: Self)
        ensures
            r.registry_well_formed(),
            r.registry_factories() == Map::<Seq<char>, ExtractorKind>::empty().insert(
                in_toto_name(),
                ExtractorKind::InToto,
            ),
            r.registry_instances() == Map::<Seq<char>, ExtractorInstance>::empty(),
    {
        Extrators::new()
    }
}

impl ExtratorsAPI for Extrators {
    closed spec fn registry_factories(&self) -> Map<Seq<char>, ExtractorKind> {
        self.extractors_module_list.factories()
    }

    closed spec fn registry_instances(&self) -> Map<Seq<char>, ExtractorInstance> {
        instance_entries_map(self.extractors_instance_map@)
    }

    closed spec fn registry_well_formed(&self) -> bool {
        &&& self.extractors_module_list.well_formed()
        &&& instance_unique_keys(self.extractors_instance_map@)
        &&& forall|k: Seq<char>|
            #[trigger] instance_entries_map(self.extractors_instance_map@).contains_key(k)
                ==> self.extractors_module_list.factories().contains_key(k)
    }

    fn handle_provenance<V: InTotoVerifier>(
        &mut self,
        provenance_type: String,
        provenance_name: String,
        provenance: String,
        parameters: &ParamMap,
        dir: &mut ProcessDir,
        verifier: &mut V,
    ) -> (r: Result<ReferenceValue, Error>) {
        proof {
            lemma_working_dir_key_chars();
            lemma_default_hash_alg_chars();
        }
        let extractor_instance = match self.get_or_create_instance(provenance_type.as_str()) {
            Ok(inst) => inst,
            Err(e) => {
                return Err(e);
            },
        };

        // Record the ambient working directory, switch into the sandbox,
        // and restore the recorded directory on every exit path below.
        let cwd = dir.current().clone();
        let working_dir = match parameters.get(WORKING_DIR_KEY) {
            Some(w) => w.clone(),
            None => {
                return Err(Error::MissingParameter(String::from_str(WORKING_DIR_KEY)));
            },
        };
        dir.set(working_dir);

        let res = extractor_instance.verify_and_extract(provenance, parameters, verifier);
        let ghost resg = res;

        // Restore the working directory whether or not the extractor
        // succeeded.
        dir.set(cwd);

        match res {
            Ok(hash_value) => {
                let ghost d = hash_value@;
                let rv = ReferenceValue::new().set_name(provenance_name.as_str()).add_hash_value(
                    String::from_str(DEFAULT_HASH_ALG),
                    hash_value,
                );
                proof {
                    assert(rv@.hash_values =~= seq![(default_hash_alg(), d)]);
                    assert(in_toto_result_spec(parameters@, resg));
                }
                Ok(rv)
            },
            Err(e) => {
                proof {
                    assert(in_toto_result_spec(parameters@, resg));
                }
                Err(e)
            },
        }
    }
}

} // verus!
