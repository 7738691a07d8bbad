//! What the decode functions say of themselves: titles, descriptions, examples and
//! result columns.

use vstd::prelude::*;

use crate::arrow_map::{Column, FLOW_COLUMNS};
use crate::meta::{
    columns_text, object_tags, object_tags_view, one_example_json, one_example_text, push_tag,
    result_columns_schema_json, tags_view, Example, SAMPLE_IPFIX_HEX, SAMPLE_SFLOW_HEX,
    SAMPLE_V5_HEX, SAMPLE_V9_HEX,
};
use crate::text::{concat3, same_text};

verus! {

/// The decode functions, told apart by name.
#[derive(Clone, Copy, Debug, PartialEq, Eq, Structural)]
pub enum Decoder {
    Flows,
    Netflow,
    Ipfix,
    Sflow,
    Other,
}

/// The decode function of a name.
pub open spec fn decoder_of(name: Seq<char>) -> Decoder {
    if name == "flows"@ {
        Decoder::Flows
    } else if name == "netflow_decode"@ {
        Decoder::Netflow
    } else if name == "ipfix_decode"@ {
        Decoder::Ipfix
    } else if name == "sflow_decode"@ {
        Decoder::Sflow
    } else {
        Decoder::Other
    }
}

/// The decode function of a name.
fn decoder(name: &str) -> (r: Decoder)
    ensures
        r == decoder_of(name@),
{
    if same_text(name, "flows") {
        Decoder::Flows
    } else if same_text(name, "netflow_decode") {
        Decoder::Netflow
    } else if same_text(name, "ipfix_decode") {
        Decoder::Ipfix
    } else if same_text(name, "sflow_decode") {
        Decoder::Sflow
    } else {
        Decoder::Other
    }
}

/// In one line: `flows`.
pub const FLOWS_DESCRIPTION: &'static str =
    "Decode captured flow-export datagrams (NetFlow v5/v9, IPFIX, sFlow v5) to normalized \
    flow rows";

/// The title of `flows`.
pub const FLOWS_TITLE: &'static str = "Unified Flow Decode (relation in)";

/// In prose: `flows`.
pub const FLOWS_DOC_LLM: &'static str =
    "Auto-detect the version of each captured flow-export datagram (NetFlow v5/v9, IPFIX, \
    sFlow v5) and decode it to one normalized wide flow row per record: src/dst as INET, \
    ports, protocol, byte/packet counts, TCP flags, resolved flow start/end timestamps, AS \
    numbers, interfaces, next hop, ToS, sampling, plus a raw_fields MAP of every unmapped \
    Information Element. Threads a per-exporter, per-observation-domain template cache \
    across rows and scan batches so v9/IPFIX data decodes against templates seen in \
    earlier datagrams. Pass a relation carrying a `datagram` column of captured bytes (and \
    optionally an `exporter` column so template ids do not collide across devices); the \
    runnable example shows the exact call shape. Feed datagrams in capture order.";

/// In short: `flows`.
pub const FLOWS_DOC_MD: &'static str =
    "Decode any flow-export datagram to normalized flow rows (the wide schema). Pass a \
    relation with a `datagram` BLOB column (and optional `exporter` / `obs_domain` / \
    `mode`). Auto-detects v5/v9/IPFIX/sFlow and threads the template cache.";

/// The keywords of `flows`.
pub const FLOWS_KEYWORDS: &'static str =
    "netflow, ipfix, sflow, flow, flows, decode, network, security, observability, \
    template, datagram, normalize, relation, lateral";

/// What the runnable example of `flows` shows.
pub const FLOWS_RUNNABLE: &'static str =
    "Auto-detect and decode a captured NetFlow v5 datagram (two records) to normalized flow \
    rows.";

/// The runnable example of `flows`, up to the datagram.
pub const FLOWS_RUNNABLE_HEAD: &'static str =
    "SELECT flow_version, dst_port, protocol, bytes, packets FROM \
    netflow.main.flows((SELECT from_hex('";

/// The runnable example of `flows`, from the datagram on.
pub const FLOWS_RUNNABLE_TAIL: &'static str = "') AS datagram)) ORDER BY dst_port";

/// What the shown example of `flows` shows.
pub const FLOWS_EXAMPLE: &'static str =
    "Decode a datagram with a per-row exporter id (cache scope) and aggregate the decoded \
    flows by exporter.";

/// The shown example of `flows`, up to the datagram.
pub const FLOWS_EXAMPLE_HEAD: &'static str =
    "SELECT exporter, count(*) AS flows, sum(bytes) AS total_bytes FROM \
    netflow.main.flows((SELECT from_hex('";

/// The shown example of `flows`, from the datagram on.
pub const FLOWS_EXAMPLE_TAIL: &'static str =
    "') AS datagram, 'router-1' AS exporter)) GROUP BY exporter";

/// In one line: `netflow_decode`.
pub const NETFLOW_DESCRIPTION: &'static str =
    "Decode NetFlow v5 / v9 datagrams to normalized flow rows";

/// The title of `netflow_decode`.
pub const NETFLOW_TITLE: &'static str = "NetFlow v5/v9 Decode (relation in)";

/// In prose: `netflow_decode`.
pub const NETFLOW_DOC_LLM: &'static str =
    "Decode NetFlow v5 (fixed) and NetFlow v9 (RFC 3954, template-based) datagrams from a \
    relation's `datagram` BLOB column to the normalized flow schema. v9 threads the \
    template cache; an IPFIX or sFlow datagram yields a decode-error diagnostic. Pass an \
    optional `exporter` column for per-device cache scoping.";

/// In short: `netflow_decode`.
pub const NETFLOW_DOC_MD: &'static str =
    "Decode NetFlow v5/v9 datagrams from a relation's `datagram` column to normalized flow \
    rows. v9 is template-stateful.";

/// The keywords of `netflow_decode`.
pub const NETFLOW_KEYWORDS: &'static str =
    "netflow, v5, v9, rfc3954, decode, flow, template, network, relation";

/// What the runnable example of `netflow_decode` shows.
pub const NETFLOW_RUNNABLE: &'static str =
    "Decode a NetFlow v9 datagram that carries its template and one data record.";

/// The runnable example of `netflow_decode`, up to the datagram.
pub const NETFLOW_RUNNABLE_HEAD: &'static str =
    "SELECT flow_version, dst_port, protocol, packets FROM \
    netflow.main.netflow_decode((SELECT from_hex('";

/// The runnable example of `netflow_decode`, from the datagram on.
pub const NETFLOW_RUNNABLE_TAIL: &'static str = "') AS datagram))";

/// What the shown example of `netflow_decode` shows.
pub const NETFLOW_EXAMPLE: &'static str =
    "Decode a NetFlow v9 datagram, scoping the template cache to exporter 'router-1' so \
    template ids never collide across devices.";

/// The shown example of `netflow_decode`, up to the datagram.
pub const NETFLOW_EXAMPLE_HEAD: &'static str =
    "SELECT exporter, flow_version, src_port, dst_port, packets FROM \
    netflow.main.netflow_decode((SELECT from_hex('";

/// The shown example of `netflow_decode`, from the datagram on.
pub const NETFLOW_EXAMPLE_TAIL: &'static str = "') AS datagram, 'router-1' AS exporter))";

/// In one line: `ipfix_decode`.
pub const IPFIX_DESCRIPTION: &'static str =
    "Decode IPFIX (v10) datagrams to normalized flow rows";

/// The title of `ipfix_decode`.
pub const IPFIX_TITLE: &'static str = "IPFIX Decode (relation in)";

/// In prose: `ipfix_decode`.
pub const IPFIX_DOC_LLM: &'static str =
    "Decode IPFIX (RFC 7011, version 10) datagrams from a relation's `datagram` BLOB column \
    to the normalized flow schema with full template, options-template, enterprise-IE \
    (private enterprise number) and variable-length IE handling. The headline \
    template-stateful decoder. A non-IPFIX datagram yields a decode-error diagnostic.";

/// In short: `ipfix_decode`.
pub const IPFIX_DOC_MD: &'static str =
    "Decode IPFIX (v10) datagrams from a relation's `datagram` column — templates, \
    enterprise + variable-length IEs.";

/// The keywords of `ipfix_decode`.
pub const IPFIX_KEYWORDS: &'static str =
    "ipfix, rfc7011, decode, flow, template, enterprise, variable-length, network, relation";

/// What the runnable example of `ipfix_decode` shows.
pub const IPFIX_RUNNABLE: &'static str =
    "Decode an IPFIX (v10) datagram: a Template Set plus one fully-decodable IPv4/TCP flow.";

/// The runnable example of `ipfix_decode`, up to the datagram.
pub const IPFIX_RUNNABLE_HEAD: &'static str =
    "SELECT flow_version, dst_port, protocol, bytes, packets FROM \
    netflow.main.ipfix_decode((SELECT from_hex('";

/// The runnable example of `ipfix_decode`, from the datagram on.
pub const IPFIX_RUNNABLE_TAIL: &'static str = "') AS datagram))";

/// What the shown example of `ipfix_decode` shows.
pub const IPFIX_EXAMPLE: &'static str =
    "Decode an IPFIX datagram and read the mapped 5-tuple plus byte/packet counters.";

/// The shown example of `ipfix_decode`, up to the datagram.
pub const IPFIX_EXAMPLE_HEAD: &'static str =
    "SELECT flow_version, src_port, dst_port, bytes, packets FROM \
    netflow.main.ipfix_decode((SELECT from_hex('";

/// The shown example of `ipfix_decode`, from the datagram on.
pub const IPFIX_EXAMPLE_TAIL: &'static str = "') AS datagram))";

/// In one line: `sflow_decode`.
pub const SFLOW_DESCRIPTION: &'static str = "Decode sFlow v5 datagrams to normalized flow rows";

/// The title of `sflow_decode`.
pub const SFLOW_TITLE: &'static str = "sFlow v5 Decode (relation in)";

/// In prose: `sflow_decode`.
pub const SFLOW_DOC_LLM: &'static str =
    "Decode sFlow v5 (sflow.org / InMon) packet-sampling datagrams from a relation's \
    `datagram` BLOB column to the normalized flow schema. Flow samples (sampled headers / \
    sampled IPv4/IPv6) yield 5-tuple rows with byte/packet counts scaled by the sampling \
    rate; counter samples yield rows with the counters in raw_fields. Stateless.";

/// In short: `sflow_decode`.
pub const SFLOW_DOC_MD: &'static str =
    "Decode sFlow v5 datagrams from a relation's `datagram` column. Stateless; sampled \
    counts scaled by the sampling rate.";

/// The keywords of `sflow_decode`.
pub const SFLOW_KEYWORDS: &'static str =
    "sflow, sflow5, sampling, decode, flow, counters, network, inmon, relation";

/// What the runnable example of `sflow_decode` shows.
pub const SFLOW_RUNNABLE: &'static str =
    "Decode an sFlow v5 datagram (one flow sample + one counter sample).";

/// The runnable example of `sflow_decode`, up to the datagram.
pub const SFLOW_RUNNABLE_HEAD: &'static str =
    "SELECT flow_version, dst_port, protocol FROM netflow.main.sflow_decode((SELECT \
    from_hex('";

/// The runnable example of `sflow_decode`, from the datagram on.
pub const SFLOW_RUNNABLE_TAIL: &'static str = "') AS datagram)) WHERE dst_port IS NOT NULL";

/// What the shown example of `sflow_decode` shows.
pub const SFLOW_EXAMPLE: &'static str =
    "Decode an sFlow v5 datagram; flow-sample rows carry the sampled 5-tuple (counter \
    samples have NULL ports).";

/// The shown example of `sflow_decode`, up to the datagram.
pub const SFLOW_EXAMPLE_HEAD: &'static str =
    "SELECT flow_version, src_port, dst_port, protocol FROM \
    netflow.main.sflow_decode((SELECT from_hex('";

/// The shown example of `sflow_decode`, from the datagram on.
pub const SFLOW_EXAMPLE_TAIL: &'static str = "') AS datagram)) WHERE dst_port IS NOT NULL";

/// In one line: any other decoder.
pub const OTHER_DESCRIPTION: &'static str = "Decode flow-export datagrams";

/// The title of any other decoder.
pub const OTHER_TITLE: &'static str = "Flow Decode";

/// In prose: any other decoder.
pub const OTHER_DOC_LLM: &'static str = "Decode flow datagrams.";

/// In short: any other decoder.
pub const OTHER_DOC_MD: &'static str = "Decode flow datagrams.";

/// The keywords of any other decoder.
pub const OTHER_KEYWORDS: &'static str = "flow, decode";

/// What the runnable example of any other decoder shows.
pub const OTHER_RUNNABLE: &'static str =
    "Decode a captured NetFlow v5 datagram to normalized flow rows.";

/// The runnable example of any other decoder, up to the datagram.
pub const OTHER_RUNNABLE_HEAD: &'static str =
    "SELECT flow_version, dst_port FROM netflow.main.flows((SELECT from_hex('";

/// The runnable example of any other decoder, from the datagram on.
pub const OTHER_RUNNABLE_TAIL: &'static str = "') AS datagram))";

/// What the shown example of any other decoder shows.
pub const OTHER_EXAMPLE: &'static str =
    "Decode captured flow-export datagrams to normalized flow rows.";

/// The shown example of any other decoder, up to the datagram.
pub const OTHER_EXAMPLE_HEAD: &'static str =
    "SELECT flow_version, dst_port FROM netflow.main.flows((SELECT from_hex('";

/// The shown example of any other decoder, from the datagram on.
pub const OTHER_EXAMPLE_TAIL: &'static str = "') AS datagram))";

/// What the input relation of a decoder with observation domains is.
pub const STATEFUL_RELATION: &'static str =
    "A relation carrying a `datagram` column of raw captured bytes (exporter datagrams or \
    UDP payloads carved out of pcap), and optionally an `exporter` column (cache scope / \
    source device id, read per row so template ids never collide across exporters), an \
    `obs_domain` column (override the header observation domain), and a `mode` column \
    ('auto' / 'flows-only' / 'all'). Feed datagrams in capture order so a Template Set is \
    seen before the Data Sets that reference it.";

/// What the input relation of a decoder without observation domains is.
pub const STATELESS_RELATION: &'static str =
    "A relation carrying a `datagram` column of raw captured sFlow v5 bytes (exporter \
    datagrams or UDP payloads carved out of pcap), and optionally an `exporter` column \
    used purely as a source-device label copied onto each output row. sFlow v5 is \
    self-contained per datagram — there is no template cache and no observation domain — \
    so datagrams may be decoded in any order and independently of one another.";

/// How DuckDB names the physical struct of an `INET`.
pub const INET_STRUCT: &'static str =
    "STRUCT(ip_type UTINYINT, address HUGEINT, mask USMALLINT)";

/// The result columns as DuckDB describes them: name, type and description, in the
/// order of the flow schema. The address columns surface as the physical `INET`
/// struct.
pub const FLOW_RESULT_COLUMNS: [(&'static str, &'static str, &'static str); 28] = [
    ("exporter", "VARCHAR", "Cache key / source device (as supplied via the exporter column or derived)."),
    ("flow_version", "VARCHAR", "Wire format of the source datagram: '5', '9', '10' (IPFIX), or 'sflow5'."),
    ("obs_domain", "UINTEGER", "v9 source-id / IPFIX observation domain (the template-id namespace)."),
    ("template_id", "USMALLINT", "v9/IPFIX template id the record decoded against; NULL for v5 / sFlow."),
    ("export_time", "TIMESTAMP WITH TIME ZONE", "Datagram export time taken from the export header."),
    ("sequence", "UBIGINT", "Export sequence number (used for gap / loss detection)."),
    ("src_addr", INET_STRUCT, "Source IP; cast ::INET for `<<=` containment joins."),
    ("dst_addr", INET_STRUCT, "Destination IP; cast ::INET for `<<=` containment joins."),
    ("src_port", "USMALLINT", "Layer-4 source port."),
    ("dst_port", "USMALLINT", "Layer-4 destination port."),
    ("protocol", "UTINYINT", "IP protocol number (6 = TCP, 17 = UDP, ...)."),
    ("tcp_flags", "UTINYINT", "Cumulative TCP control flags observed for the flow."),
    ("bytes", "UBIGINT", "Octet count (for sFlow, scaled by the sampling rate)."),
    ("packets", "UBIGINT", "Packet count (for sFlow, the sampling rate)."),
    ("flow_start", "TIMESTAMP WITH TIME ZONE", "Flow start time, resolved to an absolute timestamp."),
    ("flow_end", "TIMESTAMP WITH TIME ZONE", "Flow end time, resolved to an absolute timestamp."),
    ("src_as", "UINTEGER", "Origin autonomous-system number (when the exporter reports it)."),
    ("dst_as", "UINTEGER", "Peer autonomous-system number (when the exporter reports it)."),
    ("input_snmp", "UINTEGER", "Ingress interface ifIndex."),
    ("output_snmp", "UINTEGER", "Egress interface ifIndex."),
    ("next_hop", INET_STRUCT, "BGP / IP next hop; cast ::INET to use it."),
    ("tos", "UTINYINT", "IP type-of-service / DSCP byte."),
    ("src_mask", "UTINYINT", "Source prefix length in bits (v5 / v9)."),
    ("dst_mask", "UTINYINT", "Destination prefix length in bits (v5 / v9)."),
    ("sampling_rate", "UINTEGER", "sFlow sampling N / IPFIX samplingInterval; NULL when none."),
    ("direction", "UTINYINT", "flowDirection (0 = ingress, 1 = egress) when present."),
    ("raw_fields", "MAP(VARCHAR, BLOB)", "Every Information Element not mapped to a named column, keyed by IE name -> raw bytes."),
    ("diagnostics", "VARCHAR", "NULL on a clean decode; else missing-template / truncated / decode-error / ..."),
];

impl Decoder {
    /// The decoder in one line.
    pub open spec fn description_text(self) -> Seq<char> {
        match self {
            Decoder::Flows => FLOWS_DESCRIPTION@,
            Decoder::Netflow => NETFLOW_DESCRIPTION@,
            Decoder::Ipfix => IPFIX_DESCRIPTION@,
            Decoder::Sflow => SFLOW_DESCRIPTION@,
            Decoder::Other => OTHER_DESCRIPTION@,
        }
    }

    /// The decoder in one line.
    fn description(self) -> (r: &'static str)
        ensures
            r@ == self.description_text(),
    {
        match self {
            Decoder::Flows => FLOWS_DESCRIPTION,
            Decoder::Netflow => NETFLOW_DESCRIPTION,
            Decoder::Ipfix => IPFIX_DESCRIPTION,
            Decoder::Sflow => SFLOW_DESCRIPTION,
            Decoder::Other => OTHER_DESCRIPTION,
        }
    }

    /// The decoder's title.
    pub open spec fn title_text(self) -> Seq<char> {
        match self {
            Decoder::Flows => FLOWS_TITLE@,
            Decoder::Netflow => NETFLOW_TITLE@,
            Decoder::Ipfix => IPFIX_TITLE@,
            Decoder::Sflow => SFLOW_TITLE@,
            Decoder::Other => OTHER_TITLE@,
        }
    }

    /// The decoder's title.
    fn title(self) -> (r: &'static str)
        ensures
            r@ == self.title_text(),
    {
        match self {
            Decoder::Flows => FLOWS_TITLE,
            Decoder::Netflow => NETFLOW_TITLE,
            Decoder::Ipfix => IPFIX_TITLE,
            Decoder::Sflow => SFLOW_TITLE,
            Decoder::Other => OTHER_TITLE,
        }
    }

    /// The decoder in prose.
    pub open spec fn doc_llm_text(self) -> Seq<char> {
        match self {
            Decoder::Flows => FLOWS_DOC_LLM@,
            Decoder::Netflow => NETFLOW_DOC_LLM@,
            Decoder::Ipfix => IPFIX_DOC_LLM@,
            Decoder::Sflow => SFLOW_DOC_LLM@,
            Decoder::Other => OTHER_DOC_LLM@,
        }
    }

    /// The decoder in prose.
    fn doc_llm(self) -> (r: &'static str)
        ensures
            r@ == self.doc_llm_text(),
    {
        match self {
            Decoder::Flows => FLOWS_DOC_LLM,
            Decoder::Netflow => NETFLOW_DOC_LLM,
            Decoder::Ipfix => IPFIX_DOC_LLM,
            Decoder::Sflow => SFLOW_DOC_LLM,
            Decoder::Other => OTHER_DOC_LLM,
        }
    }

    /// The decoder in short.
    pub open spec fn doc_md_text(self) -> Seq<char> {
        match self {
            Decoder::Flows => FLOWS_DOC_MD@,
            Decoder::Netflow => NETFLOW_DOC_MD@,
            Decoder::Ipfix => IPFIX_DOC_MD@,
            Decoder::Sflow => SFLOW_DOC_MD@,
            Decoder::Other => OTHER_DOC_MD@,
        }
    }

    /// The decoder in short.
    fn doc_md(self) -> (r: &'static str)
        ensures
            r@ == self.doc_md_text(),
    {
        match self {
            Decoder::Flows => FLOWS_DOC_MD,
            Decoder::Netflow => NETFLOW_DOC_MD,
            Decoder::Ipfix => IPFIX_DOC_MD,
            Decoder::Sflow => SFLOW_DOC_MD,
            Decoder::Other => OTHER_DOC_MD,
        }
    }

    /// The decoder's keywords.
    pub open spec fn keywords_text(self) -> Seq<char> {
        match self {
            Decoder::Flows => FLOWS_KEYWORDS@,
            Decoder::Netflow => NETFLOW_KEYWORDS@,
            Decoder::Ipfix => IPFIX_KEYWORDS@,
            Decoder::Sflow => SFLOW_KEYWORDS@,
            Decoder::Other => OTHER_KEYWORDS@,
        }
    }

    /// The decoder's keywords.
    fn keywords(self) -> (r: &'static str)
        ensures
            r@ == self.keywords_text(),
    {
        match self {
            Decoder::Flows => FLOWS_KEYWORDS,
            Decoder::Netflow => NETFLOW_KEYWORDS,
            Decoder::Ipfix => IPFIX_KEYWORDS,
            Decoder::Sflow => SFLOW_KEYWORDS,
            Decoder::Other => OTHER_KEYWORDS,
        }
    }

    /// What the runnable example shows.
    pub open spec fn runnable_text(self) -> Seq<char> {
        match self {
            Decoder::Flows => FLOWS_RUNNABLE@,
            Decoder::Netflow => NETFLOW_RUNNABLE@,
            Decoder::Ipfix => IPFIX_RUNNABLE@,
            Decoder::Sflow => SFLOW_RUNNABLE@,
            Decoder::Other => OTHER_RUNNABLE@,
        }
    }

    /// What the runnable example shows.
    fn runnable(self) -> (r: &'static str)
        ensures
            r@ == self.runnable_text(),
    {
        match self {
            Decoder::Flows => FLOWS_RUNNABLE,
            Decoder::Netflow => NETFLOW_RUNNABLE,
            Decoder::Ipfix => IPFIX_RUNNABLE,
            Decoder::Sflow => SFLOW_RUNNABLE,
            Decoder::Other => OTHER_RUNNABLE,
        }
    }

    /// The runnable example: it decodes an inline datagram.
    pub open spec fn runnable_sql(self) -> Seq<char> {
        match self {
            Decoder::Flows => FLOWS_RUNNABLE_HEAD@ + SAMPLE_V5_HEX@ + FLOWS_RUNNABLE_TAIL@,
            Decoder::Netflow => NETFLOW_RUNNABLE_HEAD@ + SAMPLE_V9_HEX@ + NETFLOW_RUNNABLE_TAIL@,
            Decoder::Ipfix => IPFIX_RUNNABLE_HEAD@ + SAMPLE_IPFIX_HEX@ + IPFIX_RUNNABLE_TAIL@,
            Decoder::Sflow => SFLOW_RUNNABLE_HEAD@ + SAMPLE_SFLOW_HEX@ + SFLOW_RUNNABLE_TAIL@,
            Decoder::Other => OTHER_RUNNABLE_HEAD@ + SAMPLE_V5_HEX@ + OTHER_RUNNABLE_TAIL@,
        }
    }

    /// What the shown example shows.
    pub open spec fn shown_text(self) -> Seq<char> {
        match self {
            Decoder::Flows => FLOWS_EXAMPLE@,
            Decoder::Netflow => NETFLOW_EXAMPLE@,
            Decoder::Ipfix => IPFIX_EXAMPLE@,
            Decoder::Sflow => SFLOW_EXAMPLE@,
            Decoder::Other => OTHER_EXAMPLE@,
        }
    }

    /// What the shown example shows.
    fn shown(self) -> (r: &'static str)
        ensures
            r@ == self.shown_text(),
    {
        match self {
            Decoder::Flows => FLOWS_EXAMPLE,
            Decoder::Netflow => NETFLOW_EXAMPLE,
            Decoder::Ipfix => IPFIX_EXAMPLE,
            Decoder::Sflow => SFLOW_EXAMPLE,
            Decoder::Other => OTHER_EXAMPLE,
        }
    }

    /// The shown example: it decodes an inline datagram.
    pub open spec fn shown_sql(self) -> Seq<char> {
        match self {
            Decoder::Flows => FLOWS_EXAMPLE_HEAD@ + SAMPLE_V5_HEX@ + FLOWS_EXAMPLE_TAIL@,
            Decoder::Netflow => NETFLOW_EXAMPLE_HEAD@ + SAMPLE_V9_HEX@ + NETFLOW_EXAMPLE_TAIL@,
            Decoder::Ipfix => IPFIX_EXAMPLE_HEAD@ + SAMPLE_IPFIX_HEX@ + IPFIX_EXAMPLE_TAIL@,
            Decoder::Sflow => SFLOW_EXAMPLE_HEAD@ + SAMPLE_SFLOW_HEX@ + SFLOW_EXAMPLE_TAIL@,
            Decoder::Other => OTHER_EXAMPLE_HEAD@ + SAMPLE_V5_HEX@ + OTHER_EXAMPLE_TAIL@,
        }
    }
}

/// A function in one line.
pub fn describe(name: &str) -> (r: &'static str)
    ensures
        r@ == decoder_of(name@).description_text(),
{
    decoder(name).description()
}

/// The result columns of every decode function.
pub fn flow_result_columns() -> (r: Vec<(&'static str, &'static str, &'static str)>)
    ensures
        r@ == FLOW_RESULT_COLUMNS@,
{
    let columns = FLOW_RESULT_COLUMNS;
    let mut r: Vec<(&'static str, &'static str, &'static str)> = Vec::new();
    let mut i: usize = 0;
    while i < columns.len()
        invariant
            columns == FLOW_RESULT_COLUMNS,
            i <= columns@.len(),
            r@ == columns@.take(i as int),
        decreases columns.len() - i,
    {
        r.push(columns[i]);
        i = i + 1;
        assert(r@ =~= columns@.take(i as int));
    }
    assert(columns@.take(i as int) =~= columns@);
    r
}

/// How DuckDB names the type of a flow column.
pub open spec fn duckdb_type(c: Column) -> Seq<char> {
    match c {
        Column::Exporter | Column::FlowVersion | Column::Diagnostics => "VARCHAR"@,
        Column::Protocol | Column::TcpFlags | Column::Tos | Column::SrcMask | Column::DstMask
        | Column::Direction => "UTINYINT"@,
        Column::TemplateId | Column::SrcPort | Column::DstPort => "USMALLINT"@,
        Column::ObsDomain | Column::SrcAs | Column::DstAs | Column::InputSnmp | Column::OutputSnmp
        | Column::SamplingRate => "UINTEGER"@,
        Column::Sequence | Column::Octets | Column::Packets => "UBIGINT"@,
        Column::ExportTime | Column::FlowStart | Column::FlowEnd => "TIMESTAMP WITH TIME ZONE"@,
        Column::SrcAddr | Column::DstAddr | Column::NextHop => INET_STRUCT@,
        Column::RawFields => "MAP(VARCHAR, BLOB)"@,
    }
}

/// The described result columns are those of the flow schema: the same names in
/// the same order, each with the DuckDB type of its Arrow type.
pub proof fn lemma_described_as_emitted(i: int)
    requires
        0 <= i < FLOW_COLUMNS@.len(),
    ensures
        FLOW_RESULT_COLUMNS@.len() == FLOW_COLUMNS@.len(),
        FLOW_RESULT_COLUMNS@[i].0@ == FLOW_COLUMNS@[i].0@,
        FLOW_RESULT_COLUMNS@[i].1@ == duckdb_type(FLOW_COLUMNS@[i].1),
{
}

/// A self-contained example that can be run: what it shows and the statement.
pub fn executable_example(name: &str) -> (r: (&'static str, String))
    ensures
        r.0@ == decoder_of(name@).runnable_text(),
        r.1@ == decoder_of(name@).runnable_sql(),
{
    let d = decoder(name);
    let sql = match d {
        Decoder::Flows => concat3(FLOWS_RUNNABLE_HEAD, SAMPLE_V5_HEX, FLOWS_RUNNABLE_TAIL),
        Decoder::Netflow => concat3(NETFLOW_RUNNABLE_HEAD, SAMPLE_V9_HEX, NETFLOW_RUNNABLE_TAIL),
        Decoder::Ipfix => concat3(IPFIX_RUNNABLE_HEAD, SAMPLE_IPFIX_HEX, IPFIX_RUNNABLE_TAIL),
        Decoder::Sflow => concat3(SFLOW_RUNNABLE_HEAD, SAMPLE_SFLOW_HEX, SFLOW_RUNNABLE_TAIL),
        Decoder::Other => concat3(OTHER_RUNNABLE_HEAD, SAMPLE_V5_HEX, OTHER_RUNNABLE_TAIL),
    };
    (d.runnable(), sql)
}

/// A second self-contained example.
pub fn doc_example(name: &str) -> (r: Example)
    ensures
        r@ == (decoder_of(name@).shown_sql(), decoder_of(name@).shown_text()),
{
    let d = decoder(name);
    let sql = match d {
        Decoder::Flows => concat3(FLOWS_EXAMPLE_HEAD, SAMPLE_V5_HEX, FLOWS_EXAMPLE_TAIL),
        Decoder::Netflow => concat3(NETFLOW_EXAMPLE_HEAD, SAMPLE_V9_HEX, NETFLOW_EXAMPLE_TAIL),
        Decoder::Ipfix => concat3(IPFIX_EXAMPLE_HEAD, SAMPLE_IPFIX_HEX, IPFIX_EXAMPLE_TAIL),
        Decoder::Sflow => concat3(SFLOW_EXAMPLE_HEAD, SAMPLE_SFLOW_HEX, SFLOW_EXAMPLE_TAIL),
        Decoder::Other => concat3(OTHER_EXAMPLE_HEAD, SAMPLE_V5_HEX, OTHER_EXAMPLE_TAIL),
    };
    Example { sql, description: d.shown().to_string() }
}

/// The tags of a decode function.
pub open spec fn decoder_tags(d: Decoder) -> Seq<(Seq<char>, Seq<char>)> {
    object_tags_view(d.title_text(), d.doc_llm_text(), d.doc_md_text(), d.keywords_text()) + seq![
        ("vgi.category"@, "decode"@),
        ("vgi.result_columns_schema"@, columns_text(FLOW_RESULT_COLUMNS@)),
        ("vgi.executable_examples"@, one_example_text(d.runnable_text(), d.runnable_sql())),
    ]
}

/// The discovery metadata of a decode function and its result columns.
pub fn tags_for(name: &str) -> (r: Vec<(String, String)>)
    ensures
        tags_view(r@) == decoder_tags(decoder_of(name@)),
{
    let d = decoder(name);
    let mut tags = object_tags(d.title(), d.doc_llm(), d.doc_md(), d.keywords());
    push_tag(&mut tags, "vgi.category", "decode");
    let columns = flow_result_columns();
    push_tag(
        &mut tags,
        "vgi.result_columns_schema",
        result_columns_schema_json(columns.as_slice()).as_str(),
    );
    let (shows, sql) = executable_example(name);
    push_tag(
        &mut tags,
        "vgi.executable_examples",
        one_example_json(shows, sql.as_str()).as_str(),
    );
    assert(tags_view(tags@) =~= decoder_tags(decoder_of(name@)));
    tags
}

} // verus!
