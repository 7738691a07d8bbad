//! `well_formed()` validation: structural soundness without full decode.
//!
//! Never panics: a hostile / garbage blob returns `ok = false` with a `kind`
//! rather than crashing the scan.

use vstd::prelude::*;
use vstd::slice::slice_subrange;

use crate::buf::{at16, read16};
use crate::decode::header::{format_of, parse_header, probe_format, sflow_header, Format};
use crate::text::opt_view;

verus! {

/// The result of [`well_formed`].
#[derive(Clone, Debug, PartialEq)]
pub struct WellFormed {
    pub ok: bool,
    /// `"5"`/`"9"`/`"10"`/`"sflow5"`, or `None` for an unrecognized datagram.
    pub version: Option<String>,
    pub error: Option<String>,
    /// `truncated` | `set-length-overrun` | `bad-ipfix-set` | `short-record` |
    /// `not-a-flow-datagram`, or `None` when `ok`.
    pub kind: Option<String>,
}

/// What a verdict holds.
#[verifier::ext_equal]
pub struct VerdictView {
    pub ok: bool,
    pub version: Option<Seq<char>>,
    pub error: Option<Seq<char>>,
    pub kind: Option<Seq<char>>,
}

impl View for WellFormed {
    type V = VerdictView;

    open spec fn view(&self) -> VerdictView {
        VerdictView {
            ok: self.ok,
            version: opt_view(self.version),
            error: opt_view(self.error),
            kind: opt_view(self.kind),
        }
    }
}

/// The verdict that a datagram is sound.
pub open spec fn sound(version: Seq<char>) -> VerdictView {
    VerdictView { ok: true, version: Some(version), error: None, kind: None }
}

/// The verdict that a datagram is not sound.
pub open spec fn unsound(
    version: Option<Seq<char>>,
    error: Seq<char>,
    kind: Seq<char>,
) -> VerdictView {
    VerdictView { ok: false, version, error: Some(error), kind: Some(kind) }
}

/// The verdict on a region of sets: their declared lengths have to cover it
/// exactly.
pub open spec fn sets_verdict(
    region: Seq<u8>,
    version: Seq<char>,
    overrun_kind: Seq<char>,
) -> VerdictView
    decreases region.len(),
{
    if region.len() == 0 {
        sound(version)
    } else if region.len() < 4 {
        unsound(Some(version), "trailing bytes shorter than a set header"@, "truncated"@)
    } else {
        let length = at16(region, 2) as int;
        if length < 4 {
            unsound(Some(version), "set length below the 4-byte minimum"@, overrun_kind)
        } else if length > region.len() {
            unsound(Some(version), "set length exceeds remaining datagram"@, overrun_kind)
        } else {
            sets_verdict(region.skip(length), version, overrun_kind)
        }
    }
}

/// The verdict on a v5 datagram.
pub open spec fn v5_verdict(data: Seq<u8>) -> VerdictView {
    if data.len() < 24 {
        unsound(Some("5"@), "datagram shorter than v5 header"@, "truncated"@)
    } else if data.len() < 24 + at16(data, 2) * 48 {
        unsound(Some("5"@), "declared record count exceeds datagram length"@, "short-record"@)
    } else {
        sound("5"@)
    }
}

/// The verdict on a v9 datagram.
pub open spec fn v9_verdict(data: Seq<u8>) -> VerdictView {
    if data.len() < 20 {
        unsound(Some("9"@), "datagram shorter than v9 header"@, "truncated"@)
    } else {
        sets_verdict(data.skip(20), "9"@, "set-length-overrun"@)
    }
}

/// The verdict on an IPFIX datagram, whose header carries a total length.
pub open spec fn ipfix_verdict(data: Seq<u8>) -> VerdictView {
    let declared = at16(data, 2) as int;
    if data.len() < 16 {
        unsound(Some("10"@), "datagram shorter than IPFIX header"@, "truncated"@)
    } else if declared < 16 || declared > data.len() {
        unsound(Some("10"@), "IPFIX header length out of range"@, "bad-ipfix-set"@)
    } else {
        sets_verdict(data.subrange(16, declared), "10"@, "bad-ipfix-set"@)
    }
}

/// The verdict on an sFlow datagram: its header is there.
pub open spec fn sflow_verdict(data: Seq<u8>) -> VerdictView {
    if sflow_header(data) is Some {
        sound("sflow5"@)
    } else {
        unsound(Some("sflow5"@), "sFlow header truncated"@, "truncated"@)
    }
}

/// The verdict on a datagram.
pub open spec fn verdict(data: Seq<u8>) -> VerdictView {
    match format_of(data) {
        None => unsound(
            None,
            "leading bytes match no known flow header"@,
            "not-a-flow-datagram"@,
        ),
        Some(Format::V5) => v5_verdict(data),
        Some(Format::V9) => v9_verdict(data),
        Some(Format::Ipfix) => ipfix_verdict(data),
        Some(Format::Sflow) => sflow_verdict(data),
    }
}

impl WellFormed {
    fn ok(version: &str) -> (r: Self)
        ensures
            r@ == sound(version@),
    {
        WellFormed { ok: true, version: Some(version.to_string()), error: None, kind: None }
    }

    fn bad(version: Option<&str>, error: &str, kind: &str) -> (r: Self)
        ensures
            r@ == unsound(
                match version {
                    Some(v) => Some(v@),
                    None => None,
                },
                error@,
                kind@,
            ),
    {
        let version = match version {
            Some(v) => Some(v.to_string()),
            None => None,
        };
        WellFormed {
            ok: false,
            version,
            error: Some(error.to_string()),
            kind: Some(kind.to_string()),
        }
    }
}

/// Validate a flow-export datagram's structure.
pub fn well_formed(data: &[u8]) -> (r: WellFormed)
    ensures
        r@ == verdict(data@),
{
    match probe_format(data) {
        None => WellFormed::bad(
            None,
            "leading bytes match no known flow header",
            "not-a-flow-datagram",
        ),
        Some(Format::V5) => validate_v5(data),
        Some(Format::V9) => validate_v9(data),
        Some(Format::Ipfix) => validate_ipfix(data),
        Some(Format::Sflow) => validate_sflow(data),
    }
}

fn validate_v5(data: &[u8]) -> (r: WellFormed)
    ensures
        r@ == v5_verdict(data@),
{
    if data.len() < 24 {
        return WellFormed::bad(Some("5"), "datagram shorter than v5 header", "truncated");
    }
    let count: usize = read16(data, 2) as usize;
    let need: usize = 24 + count * 48;
    if data.len() < need {
        return WellFormed::bad(
            Some("5"),
            "declared record count exceeds datagram length",
            "short-record",
        );
    }
    WellFormed::ok("5")
}

fn validate_v9(data: &[u8]) -> (r: WellFormed)
    ensures
        r@ == v9_verdict(data@),
{
    if data.len() < 20 {
        return WellFormed::bad(Some("9"), "datagram shorter than v9 header", "truncated");
    }
    let region = slice_subrange(data, 20, data.len());
    assert(region@ =~= data@.skip(20));
    validate_sets(region, "9", "set-length-overrun")
}

fn validate_ipfix(data: &[u8]) -> (r: WellFormed)
    ensures
        r@ == ipfix_verdict(data@),
{
    if data.len() < 16 {
        return WellFormed::bad(Some("10"), "datagram shorter than IPFIX header", "truncated");
    }
    // IPFIX header carries a total `length`; validate it against the buffer.
    let declared: usize = read16(data, 2) as usize;
    if declared < 16 || declared > data.len() {
        return WellFormed::bad(Some("10"), "IPFIX header length out of range", "bad-ipfix-set");
    }
    validate_sets(slice_subrange(data, 16, declared), "10", "bad-ipfix-set")
}

/// Walk Set/FlowSet headers, validating each declared length.
fn validate_sets(sets: &[u8], version: &str, overrun_kind: &str) -> (r: WellFormed)
    ensures
        r@ == sets_verdict(sets@, version@, overrun_kind@),
{
    let mut region = sets;
    while region.len() > 0
        invariant
            sets_verdict(region@, version@, overrun_kind@) == sets_verdict(
                sets@,
                version@,
                overrun_kind@,
            ),
        decreases region@.len(),
    {
        if region.len() < 4 {
            return WellFormed::bad(
                Some(version),
                "trailing bytes shorter than a set header",
                "truncated",
            );
        }
        let length: usize = read16(region, 2) as usize;
        if length < 4 {
            return WellFormed::bad(
                Some(version),
                "set length below the 4-byte minimum",
                overrun_kind,
            );
        }
        if length > region.len() {
            return WellFormed::bad(
                Some(version),
                "set length exceeds remaining datagram",
                overrun_kind,
            );
        }
        let rest = slice_subrange(region, length, region.len());
        assert(rest@ =~= region@.skip(length as int));
        region = rest;
    }
    WellFormed::ok(version)
}

fn validate_sflow(data: &[u8]) -> (r: WellFormed)
    requires
        format_of(data@) == Some(Format::Sflow),
    ensures
        r@ == sflow_verdict(data@),
{
    match parse_header(data) {
        Some(_) => WellFormed::ok("sflow5"),
        None => WellFormed::bad(Some("sflow5"), "sFlow header truncated", "truncated"),
    }
}

} // verus!
