//! The in-toto extractor: validates the parameter map, hands the layout,
//! keys and link files to the outside in-toto verifier, and concludes.
//! Digest extraction for verified in-toto provenance is deliberately
//! unimplemented: a successful verification still ends in
//! [`Error::ExtractionNotImplemented`], a valid terminal state.

use vstd::prelude::*;
use crate::error::{Error, ErrorView};
use crate::json::{parse_string_list, spec_parse_string_list};
use crate::params::{str_eq, ParamMap};

verus! {

/// What the in-toto verifier needs: the layout, the keys that sign it,
/// intermediate certificates, the directory of link files, and whether
/// line endings are normalized before hashing.
pub struct InTotoArgs {
    pub layout_path: String,
    pub pub_key_paths: Vec<String>,
    pub intermediate_paths: Vec<String>,
    pub link_dir: String,
    pub line_normalization: bool,
}

/// The outside in-toto verification, as a port the embedding program
/// implements. `Ok` carries whatever text the verifier returns on
/// success; `Err` carries the rejection reason. Nothing is assumed of
/// either: the verdict depends on key material and files on disk.
pub trait InTotoVerifier {
    fn verify(&mut self, args: &InTotoArgs) -> Result<String, String>;
}

pub const LAYOUT_PATH_KEY: &'static str = "layout_path";

pub const PUB_KEY_PATHS_KEY: &'static str = "pub_key_paths";

pub const INTERMEDIATE_PATHS_KEY: &'static str = "intermediate_paths";

pub const LINK_DIR_KEY: &'static str = "link_dir";

pub const LINE_NORMALIZATION_KEY: &'static str = "line_normalization";

pub open spec fn layout_path_key() -> Seq<char> {
    seq!['l', 'a', 'y', 'o', 'u', 't', '_', 'p', 'a', 't', 'h']
}

pub open spec fn pub_key_paths_key() -> Seq<char> {
    seq!['p', 'u', 'b', '_', 'k', 'e', 'y', '_', 'p', 'a', 't', 'h', 's']
}

pub open spec fn intermediate_paths_key() -> Seq<char> {
    seq!['i', 'n', 't', 'e', 'r', 'm', 'e', 'd', 'i', 'a', 't', 'e', '_', 'p', 'a', 't', 'h', 's']
}

pub open spec fn link_dir_key() -> Seq<char> {
    seq!['l', 'i', 'n', 'k', '_', 'd', 'i', 'r']
}

pub open spec fn line_normalization_key() -> Seq<char> {
    seq!['l', 'i', 'n', 'e', '_', 'n', 'o', 'r', 'm', 'a', 'l', 'i', 'z', 'a', 't', 'i', 'o', 'n']
}

pub open spec fn true_chars() -> Seq<char> {
    seq!['t', 'r', 'u', 'e']
}

pub open spec fn false_chars() -> Seq<char> {
    seq!['f', 'a', 'l', 's', 'e']
}

pub(crate) proof fn lemma_in_toto_keys()
    ensures
        LAYOUT_PATH_KEY@ == layout_path_key(),
        PUB_KEY_PATHS_KEY@ == pub_key_paths_key(),
        INTERMEDIATE_PATHS_KEY@ == intermediate_paths_key(),
        LINK_DIR_KEY@ == link_dir_key(),
        LINE_NORMALIZATION_KEY@ == line_normalization_key(),
        "true"@ == true_chars(),
        "false"@ == false_chars(),
{
    reveal_strlit("layout_path");
    reveal_strlit("pub_key_paths");
    reveal_strlit("intermediate_paths");
    reveal_strlit("link_dir");
    reveal_strlit("line_normalization");
    reveal_strlit("true");
    reveal_strlit("false");
    assert(LAYOUT_PATH_KEY@ =~= layout_path_key());
    assert(PUB_KEY_PATHS_KEY@ =~= pub_key_paths_key());
    assert(INTERMEDIATE_PATHS_KEY@ =~= intermediate_paths_key());
    assert(LINK_DIR_KEY@ =~= link_dir_key());
    assert(LINE_NORMALIZATION_KEY@ =~= line_normalization_key());
    assert("true"@ =~= true_chars());
    assert("false"@ =~= false_chars());
}

/// What the in-toto extractor returns for every parameter map: it never
/// yields a digest; each required parameter missing fails with that key,
/// in a fixed checking order; a parameter that should hold a JSON string
/// array or a boolean but does not fails the read; with everything in
/// place, the outcome is the verifier's rejection or the unimplemented
/// extraction.
pub open spec fn in_toto_result_spec(
    params: Map<Seq<char>, Seq<char>>,
    r: Result<String, Error>,
) -> bool {
    let has_layout = params.contains_key(layout_path_key());
    let has_keys = params.contains_key(pub_key_paths_key());
    let keys_ok = spec_parse_string_list(params[pub_key_paths_key()]) is Some;
    let has_inter = params.contains_key(intermediate_paths_key());
    let inter_ok = spec_parse_string_list(params[intermediate_paths_key()]) is Some;
    let has_link = params.contains_key(link_dir_key());
    let has_norm = params.contains_key(line_normalization_key());
    let norm_ok = params[line_normalization_key()] == true_chars() || params[
        line_normalization_key()
    ] == false_chars();
    &&& r !is Ok
    &&& !has_layout ==> (r matches Err(e) && e@ == ErrorView::MissingParameter(layout_path_key()))
    &&& has_layout && !has_keys ==> (r matches Err(e) && e@ == ErrorView::MissingParameter(
        pub_key_paths_key(),
    ))
    &&& has_layout && has_keys && !keys_ok ==> r == Err::<String, Error>(
        Error::SerializationFailed,
    )
    &&& has_layout && has_keys && keys_ok && !has_inter ==> (r matches Err(e) && e@
        == ErrorView::MissingParameter(intermediate_paths_key()))
    &&& has_layout && has_keys && keys_ok && has_inter && !inter_ok ==> r == Err::<String, Error>(
        Error::SerializationFailed,
    )
    &&& has_layout && has_keys && keys_ok && has_inter && inter_ok && !has_link ==> (r matches Err(
    e) && e@ == ErrorView::MissingParameter(link_dir_key()))
    &&& has_layout && has_keys && keys_ok && has_inter && inter_ok && has_link && !has_norm ==> (
    r matches Err(e) && e@ == ErrorView::MissingParameter(line_normalization_key()))
    &&& has_layout && has_keys && keys_ok && has_inter && inter_ok && has_link && has_norm
        && !norm_ok ==> r == Err::<String, Error>(Error::SerializationFailed)
    &&& has_layout && has_keys && keys_ok && has_inter && inter_ok && has_link && has_norm
        && norm_ok ==> (r matches Err(e) && (e@ == ErrorView::ExtractionNotImplemented
        || e@ is VerificationFailed))
}

/// The extractor for in-toto provenance.
#[derive(Clone, Copy, Debug, PartialEq, Eq, Structural)]
pub struct InTotoExtractor {}

impl InTotoExtractor {
    pub fn new() -> (r: Self) {
        InTotoExtractor {  }
    }

    /// What follows the outside verification: a rejection propagates as
    /// [`Error::VerificationFailed`] with the verifier's reason; a
    /// success ends in [`Error::ExtractionNotImplemented`], because
    /// digest extraction for in-toto does not exist yet.
    pub fn conclude(verdict: Result<String, String>) -> (r: Result<String, Error>)
        ensures
            r !is Ok,
            verdict matches Ok(_) ==> r matches Err(e) && e@
                == ErrorView::ExtractionNotImplemented,
            verdict matches Err(m) ==> r matches Err(e) && e@ == ErrorView::VerificationFailed(
                m@,
            ),
    {
        match verdict {
            Ok(_) => Err(Error::ExtractionNotImplemented),
            Err(m) => Err(Error::VerificationFailed(m)),
        }
    }

    /// Validates the parameters, runs the outside verification, and
    /// concludes; see [`in_toto_result_spec`] for the full outcome map.
    pub fn verify_and_extract<V: InTotoVerifier>(
        &self,
        _provenance: String,
        parameters: &ParamMap,
        verifier: &mut V,
    ) -> (r: Result<String, Error>)
        requires
            parameters.well_formed(),
            parameters@.contains_key(crate::extractors::working_dir_key()),
        ensures
            in_toto_result_spec(parameters@, r),
    {
        proof {
            lemma_in_toto_keys();
        }
        let layout_path = match parameters.get(LAYOUT_PATH_KEY) {
            Some(v) => v.clone(),
            None => {
                return Err(Error::MissingParameter(String::from_str(LAYOUT_PATH_KEY)));
            },
        };
        let pub_key_paths_str = match parameters.get(PUB_KEY_PATHS_KEY) {
            Some(v) => v.clone(),
            None => {
                return Err(Error::MissingParameter(String::from_str(PUB_KEY_PATHS_KEY)));
            },
        };
        let pub_key_paths = match parse_string_list(pub_key_paths_str.as_str()) {
            Some(v) => v,
            None => {
                return Err(Error::SerializationFailed);
            },
        };
        let intermediate_paths_str = match parameters.get(INTERMEDIATE_PATHS_KEY) {
            Some(v) => v.clone(),
            None => {
                return Err(Error::MissingParameter(String::from_str(INTERMEDIATE_PATHS_KEY)));
            },
        };
        let intermediate_paths = match parse_string_list(intermediate_paths_str.as_str()) {
            Some(v) => v,
            None => {
                return Err(Error::SerializationFailed);
            },
        };
        let link_dir = match parameters.get(LINK_DIR_KEY) {
            Some(v) => v.clone(),
            None => {
                return Err(Error::MissingParameter(String::from_str(LINK_DIR_KEY)));
            },
        };
        let line_normalization_str = match parameters.get(LINE_NORMALIZATION_KEY) {
            Some(v) => v.clone(),
            None => {
                return Err(Error::MissingParameter(String::from_str(LINE_NORMALIZATION_KEY)));
            },
        };
        let line_normalization = if str_eq(line_normalization_str.as_str(), "true") {
            true
        } else if str_eq(line_normalization_str.as_str(), "false") {
            false
        } else {
            return Err(Error::SerializationFailed);
        };
        let args = InTotoArgs {
            layout_path,
            pub_key_paths,
            intermediate_paths,
            link_dir,
            line_normalization,
        };
        let verdict = verifier.verify(&args);
        InTotoExtractor::conclude(verdict)
    }
}

impl<V: InTotoVerifier> crate::extractor_modules::Extractor<V> for InTotoExtractor {
    fn verify_and_extract(
        &self,
        provenance: String,
        parameters: &ParamMap,
        verifier: &mut V,
    ) -> Result<String, Error> {
        if !parameters.contains(crate::extractors::WORKING_DIR_KEY) {
            return Err(Error::MissingParameter(String::from_str(
                crate::extractors::WORKING_DIR_KEY,
            )));
        }
        proof {
            crate::extractors::lemma_working_dir_key_chars();
        }
        InTotoExtractor::verify_and_extract(self, provenance, parameters, verifier)
    }
}

} // verus!
