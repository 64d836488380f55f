//! Reference Value Provider Service: verifies software-supply-chain
//! provenance documents through pluggable extractors, turns them into
//! canonical reference values, caches them, and publishes them to
//! subscribers such as an attestation service.

mod clock;

pub mod broadcaster;
pub mod cache;
pub mod error;
pub mod extractor_modules;
pub mod extractors;
pub mod in_toto;
pub mod json;
pub mod params;
pub mod reference_value;
pub mod timestamp;
pub mod workdir;

pub use broadcaster::{ASAPI, Broadcaster, MemoryChannel};
pub use cache::{Cache, CacheAPI};
pub use error::Error;
pub use extractors::{Extrators, ExtratorsAPI, WORKING_DIR_KEY};
pub use reference_value::ReferenceValue;
