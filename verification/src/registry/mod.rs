//! Bundled Information-Element registries: the standard IANA IPFIX snapshot and
//! the enterprise-scoped (per-PEN) vendor tables.

use vstd::prelude::*;

pub mod enterprise;
pub mod iana_ie;

pub use iana_ie::{IeDef, IeType};

verus! {

/// The row of an element: the standard one without an enterprise number, else
/// the vendor's.
pub open spec fn element(enterprise_number: u32, id: u16) -> Option<IeDef> {
    if enterprise_number == 0 {
        iana_ie::row_with(iana_ie::REGISTRY@, id)
    } else {
        enterprise::vendor_row(enterprise_number, id)
    }
}

/// Resolve an element to its `(name, type)`, honoring the enterprise bit.
///
/// `enterprise_number` is `0` for a standard IANA element, or the PEN for an
/// enterprise element. Returns `None` when the element is not in the bundled
/// tables; the caller then degrades to `e<PEN>id<n>` / `id<n>` naming.
pub fn resolve(enterprise_number: u32, id: u16) -> (r: Option<IeDef>)
    ensures
        r == element(enterprise_number, id),
{
    if enterprise_number == 0 {
        iana_ie::lookup(id)
    } else {
        enterprise::lookup(enterprise_number, id)
    }
}

} // verus!
