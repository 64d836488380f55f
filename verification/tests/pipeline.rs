//! The extraction pipeline: registry reuse, the sandboxed coordinator,
//! the cache, and the broadcaster.

use rvps::broadcaster::{Broadcaster, MemoryChannel};
use rvps::cache::{Cache, CacheAPI};
use rvps::in_toto::{InTotoArgs, InTotoVerifier};
use rvps::json::to_json;
use rvps::params::ParamMap;
use rvps::reference_value::ReferenceValue;
use rvps::timestamp::Timestamp;
use rvps::workdir::ProcessDir;
use rvps::{Error, Extrators, ExtratorsAPI, WORKING_DIR_KEY};

/// A verifier that accepts everything, as the outside library does when
/// layout, keys and link files check out.
struct AcceptAll;

impl InTotoVerifier for AcceptAll {
    fn verify(&mut self, _args: &InTotoArgs) -> Result<String, String> {
        Ok(String::new())
    }
}

/// A verifier that rejects everything with one reason.
struct RejectAll;

impl InTotoVerifier for RejectAll {
    fn verify(&mut self, _args: &InTotoArgs) -> Result<String, String> {
        Err("signature did not verify".to_string())
    }
}

fn full_parameters() -> ParamMap {
    let mut parameters = ParamMap::new();
    parameters.insert(WORKING_DIR_KEY.to_string(), "../tests/in-toto".to_string());
    parameters.insert("layout_path".to_string(), "demo.layout".to_string());
    parameters.insert("pub_key_paths".to_string(), "[\"./alice.pub\"]".to_string());
    parameters.insert("intermediate_paths".to_string(), "[]".to_string());
    parameters.insert("link_dir".to_string(), ".".to_string());
    parameters.insert("line_normalization".to_string(), "true".to_string());
    parameters
}

#[test]
fn get_or_create_reuses_the_instance() {
    let mut extractors = Extrators::new();
    let first = extractors.get_or_create_instance("in-toto").unwrap();
    let second = extractors.get_or_create_instance("in-toto").unwrap();
    assert_eq!(first, second);
}

#[test]
fn get_or_create_rejects_unknown_type() {
    let mut extractors = Extrators::new();
    let r = extractors.get_or_create_instance("foo");
    assert_eq!(r.unwrap_err(), Error::UnsupportedProvenanceType("foo".to_string()));
}

#[test]
fn unsupported_type_fails_handle_provenance() {
    let mut extractors = Extrators::new();
    let mut dir = ProcessDir::new("/start".to_string());
    let mut verifier = AcceptAll;
    let r = extractors.handle_provenance(
        "foo".to_string(),
        "artifact".to_string(),
        String::new(),
        &full_parameters(),
        &mut dir,
        &mut verifier,
    );
    assert_eq!(r.unwrap_err(), Error::UnsupportedProvenanceType("foo".to_string()));
    assert_eq!(dir.current(), "/start");
}

#[test]
fn missing_working_dir_fails_before_the_extractor_runs() {
    let mut extractors = Extrators::new();
    let mut dir = ProcessDir::new("/start".to_string());
    let mut verifier = AcceptAll;
    let mut parameters = ParamMap::new();
    parameters.insert("layout_path".to_string(), "demo.layout".to_string());
    parameters.insert("pub_key_paths".to_string(), "[\"./alice.pub\"]".to_string());
    parameters.insert("intermediate_paths".to_string(), "[]".to_string());
    parameters.insert("link_dir".to_string(), ".".to_string());
    parameters.insert("line_normalization".to_string(), "true".to_string());
    let r = extractors.handle_provenance(
        "in-toto".to_string(),
        "artifact".to_string(),
        String::new(),
        &parameters,
        &mut dir,
        &mut verifier,
    );
    assert_eq!(r.unwrap_err(), Error::MissingParameter("working_dir".to_string()));
    assert_eq!(dir.current(), "/start");
}

#[test]
fn verified_provenance_still_fails_extraction() {
    let mut extractors = Extrators::new();
    let mut dir = ProcessDir::new("/start".to_string());
    let mut verifier = AcceptAll;
    let r = extractors.handle_provenance(
        "in-toto".to_string(),
        "foo.tar.gz".to_string(),
        String::new(),
        &full_parameters(),
        &mut dir,
        &mut verifier,
    );
    let e = r.unwrap_err();
    assert_eq!(e, Error::ExtractionNotImplemented);
    assert_eq!(e.describe(), "Can not extract hash value using in-toto");
    assert_eq!(dir.current(), "/start");
}

#[test]
fn rejected_provenance_reports_the_reason() {
    let mut extractors = Extrators::new();
    let mut dir = ProcessDir::new("/elsewhere".to_string());
    let mut verifier = RejectAll;
    let r = extractors.handle_provenance(
        "in-toto".to_string(),
        "artifact".to_string(),
        String::new(),
        &full_parameters(),
        &mut dir,
        &mut verifier,
    );
    assert_eq!(
        r.unwrap_err(),
        Error::VerificationFailed("signature did not verify".to_string())
    );
    assert_eq!(dir.current(), "/elsewhere");
}

#[test]
fn missing_extractor_parameters_fail_in_order() {
    let mut extractors = Extrators::new();
    let mut verifier = AcceptAll;
    let mut dir = ProcessDir::new("/".to_string());
    let mut parameters = ParamMap::new();
    parameters.insert(WORKING_DIR_KEY.to_string(), "/tmp".to_string());
    let run = |ex: &mut Extrators, p: &ParamMap, d: &mut ProcessDir, v: &mut AcceptAll| {
        ex.handle_provenance(
            "in-toto".to_string(),
            "a".to_string(),
            String::new(),
            p,
            d,
            v,
        )
    };
    let r = run(&mut extractors, &parameters, &mut dir, &mut verifier);
    assert_eq!(r.unwrap_err(), Error::MissingParameter("layout_path".to_string()));

    parameters.insert("layout_path".to_string(), "demo.layout".to_string());
    let r = run(&mut extractors, &parameters, &mut dir, &mut verifier);
    assert_eq!(r.unwrap_err(), Error::MissingParameter("pub_key_paths".to_string()));

    parameters.insert("pub_key_paths".to_string(), "[\"k\"]".to_string());
    let r = run(&mut extractors, &parameters, &mut dir, &mut verifier);
    assert_eq!(r.unwrap_err(), Error::MissingParameter("intermediate_paths".to_string()));

    parameters.insert("intermediate_paths".to_string(), "[]".to_string());
    let r = run(&mut extractors, &parameters, &mut dir, &mut verifier);
    assert_eq!(r.unwrap_err(), Error::MissingParameter("link_dir".to_string()));

    parameters.insert("link_dir".to_string(), ".".to_string());
    let r = run(&mut extractors, &parameters, &mut dir, &mut verifier);
    assert_eq!(r.unwrap_err(), Error::MissingParameter("line_normalization".to_string()));
}

#[test]
fn malformed_extractor_parameters_fail_the_read() {
    let mut extractors = Extrators::new();
    let mut verifier = AcceptAll;
    let mut dir = ProcessDir::new("/".to_string());
    let mut parameters = full_parameters();
    parameters.insert("pub_key_paths".to_string(), "oops".to_string());
    let r = extractors.handle_provenance(
        "in-toto".to_string(),
        "a".to_string(),
        String::new(),
        &parameters,
        &mut dir,
        &mut verifier,
    );
    assert_eq!(r.unwrap_err(), Error::SerializationFailed);

    let mut parameters = full_parameters();
    parameters.insert("line_normalization".to_string(), "yes".to_string());
    let r = extractors.handle_provenance(
        "in-toto".to_string(),
        "a".to_string(),
        String::new(),
        &parameters,
        &mut dir,
        &mut verifier,
    );
    assert_eq!(r.unwrap_err(), Error::SerializationFailed);
}

fn named_value(name: &str, digest: &str) -> ReferenceValue {
    ReferenceValue::new()
        .set_name(name)
        .set_expired(Timestamp::new(1970, 1, 1, 0, 0, 0).unwrap())
        .add_hash_value("sha512".to_string(), digest.to_string())
}

#[test]
fn cache_last_write_wins() {
    let mut cache = Cache::new();
    let v1 = named_value("n", "111");
    let v2 = named_value("n", "222");
    cache.put("n".to_string(), v1.clone()).unwrap();
    cache.put("n".to_string(), v2.clone()).unwrap();

    let got = cache.get("n").unwrap().unwrap();
    assert_eq!(got, v2);
    assert!(got != v1);

    let all = cache.get_all().unwrap();
    assert_eq!(all.len(), 1);
    assert_eq!(all[0], v2);
}

#[test]
fn cache_get_absent_name_is_none() {
    let cache = Cache::new();
    assert!(cache.get("missing").unwrap().is_none());
}

#[test]
fn store_and_publish_stores_then_notifies() {
    let cache = Cache::new();
    let channel = MemoryChannel::new(true);
    let mut broadcaster = Broadcaster::new(cache, channel);
    let v = named_value("artifact", "123");
    broadcaster.store_and_publish(v.clone()).unwrap();
    assert_eq!(broadcaster.cache().get("artifact").unwrap().unwrap(), v);
}

#[test]
fn publish_failure_still_leaves_the_value_stored() {
    let cache = Cache::new();
    let channel = MemoryChannel::new(false);
    let mut broadcaster = Broadcaster::new(cache, channel);
    let v = named_value("artifact", "123");
    let r = broadcaster.store_and_publish(v.clone());
    assert_eq!(r.unwrap_err(), Error::ChannelUnavailable);
    assert_eq!(broadcaster.cache().get("artifact").unwrap().unwrap(), v);
}

#[test]
fn published_message_is_the_wire_form() {
    let cache = Cache::new();
    let channel = MemoryChannel::new(true);
    let mut broadcaster = Broadcaster::new(cache, channel);
    let v = named_value("artifact", "123");
    let expected = to_json(&v);
    broadcaster.store_and_publish(v).unwrap();
    let messages = broadcaster.channel().messages();
    assert_eq!(messages.len(), 1);
    assert_eq!(messages[0], expected);
}

#[test]
fn param_map_overwrites_and_looks_up() {
    let mut p = ParamMap::new();
    assert!(!p.contains("k"));
    p.insert("k".to_string(), "a".to_string());
    p.insert("k".to_string(), "b".to_string());
    assert!(p.contains("k"));
    assert_eq!(p.get("k").unwrap(), "b");
    assert!(p.get("absent").is_none());
}
