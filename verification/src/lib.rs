//! NetFlow v5 / v9, IPFIX, and sFlow v5 flow-export datagram decoders plus the
//! template cache that is their scan state.
//!
//! All wire-format correctness, the template-state engine, the bundled IANA /
//! enterprise Information Element registries and the normalized cross-version
//! schema live here. Every function is proved free of panics: reads are
//! bounds-checked through [`buf::Cursor`], declared lengths are validated before
//! slicing, and a malformed datagram yields a row (or a
//! [`wellformed::WellFormed`]) with a diagnostic.

use vstd::prelude::*;

pub mod arrow_map;
pub mod buf;
pub mod cache;
pub mod catalog;
pub mod columns;
pub mod decode;
pub mod fault;
pub mod fixtures;
pub mod flows;
pub mod inet;
pub mod keymap;
pub mod laws;
pub mod meta;
pub mod normalize;
pub mod num;
pub mod registry;
pub mod scalar;
pub mod templates;
pub mod text;
pub mod wellformed;

pub use cache::TemplateCache;
pub use decode::{decode_datagram, flush_pending, retry_pending, DecodeOptions, Mode, Restrict};
pub use inet::InetVal;
pub use normalize::FlowRecord;
pub use wellformed::{well_formed, WellFormed};

verus! {

/// The build version of the crate.
pub const VERSION: &'static str = "0.1.0";

/// The worker's build version (the crate's version), surfaced by the
/// `netflow_version()` scalar.
pub fn version() -> (r: &'static str)
    ensures
        r@ == VERSION@,
{
    VERSION
}

} // verus!
