//! Export-header parsing and the cheap version probe.

use vstd::prelude::*;

use crate::buf::{at16, at32, Cursor};

verus! {

broadcast use crate::buf::group_offsets;

/// The four flow-export formats.
#[derive(Clone, Copy, Debug, PartialEq, Eq, Structural)]
pub enum Format {
    V5,
    V9,
    Ipfix,
    Sflow,
}

impl Format {
    /// The format's label in decoded rows.
    pub open spec fn text(self) -> Seq<char> {
        match self {
            Format::V5 => "5"@,
            Format::V9 => "9"@,
            Format::Ipfix => "10"@,
            Format::Sflow => "sflow5"@,
        }
    }

    /// The format's label in decoded rows.
    pub fn label(self) -> (r: &'static str)
        ensures
            r@ == self.text(),
    {
        match self {
            Format::V5 => "5",
            Format::V9 => "9",
            Format::Ipfix => "10",
            Format::Sflow => "sflow5",
        }
    }
}

/// A decoded export header, normalized across the four formats. Fields that a
/// given format does not carry are `None`.
#[derive(Clone, Debug, PartialEq)]
pub struct ExportHeader {
    pub version: u16,
    pub count: Option<u16>,
    pub sys_uptime: Option<u32>,
    /// Microseconds since the Unix epoch (UTC).
    pub export_time: Option<i64>,
    pub sequence: Option<u64>,
    pub obs_domain: Option<u32>,
}

impl Default for ExportHeader {
    fn default() -> (r: Self)
        ensures
            r == (ExportHeader {
                version: 0,
                count: None,
                sys_uptime: None,
                export_time: None,
                sequence: None,
                obs_domain: None,
            }),
    {
        ExportHeader {
            version: 0,
            count: None,
            sys_uptime: None,
            export_time: None,
            sequence: None,
            obs_domain: None,
        }
    }
}

/// The format that the leading bytes show. NetFlow v5/v9/IPFIX put a 2-byte
/// version first (5 / 9 / 10). sFlow v5 puts a 4-byte version (5), followed by
/// the type of the agent address (1 = IPv4, 2 = IPv6).
pub open spec fn format_of(data: Seq<u8>) -> Option<Format> {
    if data.len() < 2 {
        None
    } else if at16(data, 0) == 5 {
        Some(Format::V5)
    } else if at16(data, 0) == 9 {
        Some(Format::V9)
    } else if at16(data, 0) == 10 {
        Some(Format::Ipfix)
    } else if at16(data, 0) == 0 && data.len() >= 8 && at16(data, 2) == 5 && (at32(data, 4) == 1
        || at32(data, 4) == 2) {
        Some(Format::Sflow)
    } else {
        None
    }
}

/// Recognize the format by the leading bytes.
pub fn probe_format(data: &[u8]) -> (r: Option<Format>)
    ensures
        r == format_of(data@),
{
    let mut c = Cursor::new(data);
    let v16: u16 = c.u16()?;
    match v16 {
        5 => Some(Format::V5),
        9 => Some(Format::V9),
        10 => Some(Format::Ipfix),
        0 => {
            let lo: u16 = c.u16()?;
            if lo == 5 {
                match c.u32() {
                    Some(addr_type) => if addr_type == 1 || addr_type == 2 {
                        Some(Format::Sflow)
                    } else {
                        None
                    },
                    None => None,
                }
            } else {
                None
            }
        },
        _ => None,
    }
}

/// Cheap leading-bytes probe: `"5"`, `"9"`, `"10"`, `"sflow5"`, or `None`.
pub fn probe_version(data: &[u8]) -> (r: Option<&'static str>)
    ensures
        r is Some <==> format_of(data@) is Some,
        r matches Some(v) ==> v@ == format_of(data@)->0.text(),
{
    match probe_format(data) {
        Some(f) => Some(f.label()),
        None => None,
    }
}

/// The header of a v5 datagram.
pub open spec fn v5_header(data: Seq<u8>) -> Option<ExportHeader> {
    if data.len() < 22 {
        None
    } else {
        Some(
            ExportHeader {
                version: at16(data, 0),
                count: Some(at16(data, 2)),
                sys_uptime: Some(at32(data, 4)),
                export_time: Some(
                    (at32(data, 8) * 1_000_000 + at32(data, 12) as int / 1_000) as i64,
                ),
                sequence: Some(at32(data, 16) as u64),
                obs_domain: Some(data[21] as u32),
            },
        )
    }
}

/// The header of a v9 datagram.
pub open spec fn v9_header(data: Seq<u8>) -> Option<ExportHeader> {
    if data.len() < 20 {
        None
    } else {
        Some(
            ExportHeader {
                version: at16(data, 0),
                count: Some(at16(data, 2)),
                sys_uptime: Some(at32(data, 4)),
                export_time: Some((at32(data, 8) * 1_000_000) as i64),
                sequence: Some(at32(data, 12) as u64),
                obs_domain: Some(at32(data, 16)),
            },
        )
    }
}

/// The header of an IPFIX datagram.
pub open spec fn ipfix_header(data: Seq<u8>) -> Option<ExportHeader> {
    if data.len() < 16 {
        None
    } else {
        Some(
            ExportHeader {
                version: at16(data, 0),
                count: None,
                sys_uptime: None,
                export_time: Some((at32(data, 4) * 1_000_000) as i64),
                sequence: Some(at32(data, 8) as u64),
                obs_domain: Some(at32(data, 12)),
            },
        )
    }
}

/// How many bytes the agent address of an sFlow header takes.
pub open spec fn agent_len(data: Seq<u8>) -> int {
    if at32(data, 4) == 1 {
        4
    } else {
        16
    }
}

/// The header of an sFlow datagram: version, agent address, sub-agent id,
/// sequence, uptime and number of samples.
pub open spec fn sflow_header(data: Seq<u8>) -> Option<ExportHeader> {
    let n = agent_len(data);
    if data.len() < 8 || (at32(data, 4) != 1 && at32(data, 4) != 2) || data.len() < 8 + n + 16 {
        None
    } else {
        let samples = at32(data, 8 + n + 12);
        Some(
            ExportHeader {
                version: 5,
                count: Some(
                    if samples < 0xFFFF {
                        samples as u16
                    } else {
                        0xFFFF
                    },
                ),
                sys_uptime: Some(at32(data, 8 + n + 8)),
                export_time: None,
                sequence: Some(at32(data, 8 + n + 4) as u64),
                obs_domain: Some(at32(data, 8 + n)),
            },
        )
    }
}

/// The header of a datagram.
pub open spec fn header_of(data: Seq<u8>) -> Option<ExportHeader> {
    match format_of(data) {
        Some(Format::V5) => v5_header(data),
        Some(Format::V9) => v9_header(data),
        Some(Format::Ipfix) => ipfix_header(data),
        Some(Format::Sflow) => sflow_header(data),
        None => None,
    }
}

/// Parse the export header.
pub fn parse_header(data: &[u8]) -> (r: Option<ExportHeader>)
    ensures
        r == header_of(data@),
{
    match probe_format(data)? {
        Format::V5 => parse_v5(data),
        Format::V9 => parse_v9(data),
        Format::Ipfix => parse_ipfix(data),
        Format::Sflow => parse_sflow(data),
    }
}

fn parse_v5(data: &[u8]) -> (r: Option<ExportHeader>)
    ensures
        r == v5_header(data@),
{
    let mut c = Cursor::new(data);
    let version: u16 = c.u16()?;
    let count: u16 = c.u16()?;
    let sys_uptime: u32 = c.u32()?;
    let unix_secs: u32 = c.u32()?;
    let unix_nsecs: u32 = c.u32()?;
    let sequence: u32 = c.u32()?;
    let _engine_type: u8 = c.u8()?;
    let engine_id: u8 = c.u8()?;
    let export_time: i64 = unix_secs as i64 * 1_000_000 + (unix_nsecs / 1_000) as i64;
    Some(
        ExportHeader {
            version,
            count: Some(count),
            sys_uptime: Some(sys_uptime),
            export_time: Some(export_time),
            sequence: Some(sequence as u64),
            obs_domain: Some(engine_id as u32),
        },
    )
}

fn parse_v9(data: &[u8]) -> (r: Option<ExportHeader>)
    ensures
        r == v9_header(data@),
{
    let mut c = Cursor::new(data);
    let version: u16 = c.u16()?;
    let count: u16 = c.u16()?;
    let sys_uptime: u32 = c.u32()?;
    let unix_secs: u32 = c.u32()?;
    let sequence: u32 = c.u32()?;
    let source_id: u32 = c.u32()?;
    Some(
        ExportHeader {
            version,
            count: Some(count),
            sys_uptime: Some(sys_uptime),
            export_time: Some(unix_secs as i64 * 1_000_000),
            sequence: Some(sequence as u64),
            obs_domain: Some(source_id),
        },
    )
}

fn parse_ipfix(data: &[u8]) -> (r: Option<ExportHeader>)
    ensures
        r == ipfix_header(data@),
{
    let mut c = Cursor::new(data);
    let version: u16 = c.u16()?;
    let _length: u16 = c.u16()?;
    let export_secs: u32 = c.u32()?;
    let sequence: u32 = c.u32()?;
    let obs_domain: u32 = c.u32()?;
    Some(
        ExportHeader {
            version,
            count: None,
            sys_uptime: None,
            export_time: Some(export_secs as i64 * 1_000_000),
            sequence: Some(sequence as u64),
            obs_domain: Some(obs_domain),
        },
    )
}

fn parse_sflow(data: &[u8]) -> (r: Option<ExportHeader>)
    ensures
        r == sflow_header(data@),
{
    let mut c = Cursor::new(data);
    let _version: u32 = c.u32()?;
    let addr_type: u32 = c.u32()?;
    if addr_type == 1 {
        c.skip(4);
    } else if addr_type == 2 {
        c.skip(16);
    } else {
        return None;
    }
    let sub_agent_id: u32 = c.u32()?;
    let sequence: u32 = c.u32()?;
    let uptime: u32 = c.u32()?;
    let num_samples: u32 = c.u32()?;
    Some(
        ExportHeader {
            version: 5,
            count: Some(
                if num_samples < 0xFFFF {
                    num_samples as u16
                } else {
                    0xFFFF
                },
            ),
            sys_uptime: Some(uptime),
            export_time: None,
            sequence: Some(sequence as u64),
            obs_domain: Some(sub_agent_id),
        },
    )
}

} // verus!
