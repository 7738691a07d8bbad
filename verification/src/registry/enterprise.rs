//! Enterprise-scoped Information Elements (RFC 7011 §3.4.3): elements whose id
//! has the enterprise bit set and are scoped by a 4-byte Private Enterprise
//! Number (PEN).
//!
//! A curated table for common vendors (VMware PEN 6876, Nokia PEN 637). An
//! enterprise element that is not in it falls through to `e<PEN>id<n>` naming
//! with the raw bytes preserved in `raw_fields` and an `enterprise-unmapped`
//! diagnostic note.

use vstd::prelude::*;

use crate::registry::iana_ie::{find_row, row_with, IeDef, IeType};

verus! {

/// VMware Private Enterprise Number.
pub const PEN_VMWARE: u32 = 6876;

/// Nokia Private Enterprise Number.
pub const PEN_NOKIA: u32 = 637;

/// The element of a vendor.
pub open spec fn vendor_row(pen: u32, id: u16) -> Option<IeDef> {
    if pen == PEN_VMWARE {
        row_with(VMWARE@, id)
    } else if pen == PEN_NOKIA {
        row_with(NOKIA@, id)
    } else {
        None
    }
}

/// Look up an enterprise element by `(pen, id)` (id with the enterprise bit
/// already cleared). Returns `None` for an unknown vendor/element.
pub fn lookup(pen: u32, id: u16) -> (r: Option<IeDef>)
    ensures
        r == vendor_row(pen, id),
{
    if pen == PEN_VMWARE {
        find_row(&VMWARE, id)
    } else if pen == PEN_NOKIA {
        find_row(&NOKIA, id)
    } else {
        None
    }
}

/// VMware NSX / vSphere enterprise elements (PEN 6876), curated subset.
pub const VMWARE: [(u16, &'static str, IeType); 8] = [
    (880, "vmware.tenantProtocol", IeType::Unsigned8),
    (881, "vmware.tenantSourceIPv4", IeType::Ipv4Address),
    (882, "vmware.tenantDestIPv4", IeType::Ipv4Address),
    (883, "vmware.tenantSourceIPv6", IeType::Ipv6Address),
    (884, "vmware.tenantDestIPv6", IeType::Ipv6Address),
    (886, "vmware.tenantSourcePort", IeType::Unsigned16),
    (888, "vmware.tenantDestPort", IeType::Unsigned16),
    (890, "vmware.virtualObsID", IeType::String),
];

/// Nokia / ALU enterprise elements (PEN 637), curated subset.
pub const NOKIA: [(u16, &'static str, IeType); 2] = [
    (91, "nokia.applicationId", IeType::Unsigned32),
    (92, "nokia.applicationName", IeType::String),
];

} // verus!
