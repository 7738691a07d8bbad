//! The catalog that the worker serves: its description, its one schema, the
//! reference view of supported formats, and the tasks by which an agent's use of it
//! can be tried out.

use vstd::prelude::*;

use crate::meta::{
    agent_test_tasks_json, array_text, example_object, example_queries_json, example_text,
    keywords_json, keywords_text, object_tags, object_tags_view, push_tag, tags_view, tasks_text,
    AgentTask, TaskView, SAMPLE_IPFIX_HEX, SAMPLE_SFLOW_HEX, SAMPLE_V5_HEX, SAMPLE_V9_HEX,
};
use crate::text::{concat3, views};
use crate::{version, VERSION};

verus! {

/// The catalog in one line.
pub const COMMENT: &'static str =
    "Decode captured NetFlow v5/v9, IPFIX, and sFlow v5 flow-export datagrams into \
    normalized flow rows — template-stateful, in-engine, no collector stack.";

/// The catalog's title.
pub const TITLE: &'static str = "NetFlow / IPFIX / sFlow Flow Decoder";

/// The catalog's keywords.
pub const KEYWORDS: &'static str =
    "netflow, ipfix, sflow, flow, flow records, netflow v5, netflow v9, ipfix v10, rfc \
    3954, rfc 7011, sflow v5, template, observation domain, network, security, \
    observability, ndr, netsecops, flow lake, geoip, asn, threat intel, decode, datagram, \
    information element";

/// The catalog in prose.
pub const DOC_LLM: &'static str =
    "Decode raw network flow-export datagrams (NetFlow v5/v9, IPFIX, sFlow v5) from a \
    `BLOB` column into typed, normalized flow rows: src/dst as INET, ports, protocol, \
    byte/packet counts, TCP flags, resolved flow start/end timestamps, AS numbers, \
    interfaces, next hop, ToS, sampling, plus a raw_fields `MAP` of every unmapped \
    Information Element. The hard part — and the value — is template-stateful v9/IPFIX \
    decode: a Data Set carries only a template id, and the matching Template Set may have \
    arrived in a much earlier datagram, so the worker maintains a per-exporter, \
    per-observation-domain template cache as externalized VGI scan state that survives \
    batch boundaries and HTTP rehydration. Use it for SQL forensics over captured flow \
    archives — join flows to geoip/ASN, threat-intel, and asset inventory, at scale, with \
    no collector. Reach for it whenever you have raw exporter datagrams (or UDP payloads \
    carved out of pcap) in a `BLOB` column and want queryable, normalized flow rows \
    without standing up a collector stack.";

/// The catalog in Markdown.
pub const DOC_MD: &'static str =
    "# netflow\n\nDecode captured **flow-export datagrams** — NetFlow **v5** (fixed), \
    NetFlow **v9** (RFC 3954, template-based), **IPFIX** (RFC 7011, template-based, \
    enterprise + variable-length IEs), and **sFlow v5** (packet sampling) — from a `BLOB` \
    column of captured exporter datagrams (or UDP payloads carved out of pcap) into one \
    **normalized** wide flow row per record.\n\nThe moat is correct **template-stateful** \
    v9/IPFIX decode at lake scale: a Data Set carries no field descriptors, only a \
    template id, and the Template Set that defines the layout arrives out-of-band — so the \
    worker keeps a **template cache keyed by (exporter, observation domain, template id)** \
    as serializable VGI scan state that survives scan-batch boundaries and HTTP worker \
    rehydration (a template seen in datagram 1 decodes data in datagram 10,000). A data \
    record that arrives before its template is buffered and retried, or emitted with \
    `diagnostics = 'missing-template:…'` — never dropped.\n\nAddresses are emitted as \
    DuckDB **INET** (`LOAD inet;`), so `src_addr::INET <<= '10.0.0.0/8'::INET` containment \
    joins to geoip / threat-intel work directly. The worker decodes captured bytes only — \
    it opens no UDP socket and makes no egress (collector mode is roadmap).";

/// The author.
pub const AUTHOR: &'static str = "Query.Farm";

/// The copyright notice.
pub const COPYRIGHT: &'static str = "Copyright 2026 Query Farm LLC - https://query.farm";

/// The license.
pub const LICENSE: &'static str = "MIT";

/// Where to ask for support.
pub const SUPPORT_CONTACT: &'static str = "https://github.com/Query-farm/vgi-netflow/issues";

/// Where the support policy is.
pub const SUPPORT_POLICY: &'static str =
    "https://github.com/Query-farm/vgi-netflow/blob/main/README.md";

/// Where the source is.
pub const SOURCE_URL: &'static str = "https://github.com/Query-farm/vgi-netflow";

/// The name of the only schema.
pub const SCHEMA_NAME: &'static str = "main";

/// The schema in one line.
pub const SCHEMA_COMMENT: &'static str =
    "NetFlow / IPFIX / sFlow flow-export decode functions and template-cache introspection.";

/// The schema's title.
pub const SCHEMA_TITLE: &'static str = "NetFlow — main";

/// The schema's keywords.
pub const SCHEMA_KEYWORDS: &'static str =
    "flows, netflow_decode, ipfix_decode, sflow_decode, templates, flow_version, header, \
    well_formed, netflow, ipfix, sflow, template";

/// The schema in prose.
pub const SCHEMA_DOC_LLM: &'static str =
    "The single schema for the netflow worker. It groups flow-export decoders (turn a \
    captured datagram column into normalized flow rows), template-cache introspection, and \
    lightweight probe/validation scalars. The decoders thread a per-exporter, \
    per-observation-domain template cache as externalized scan state so template-based \
    v9/IPFIX data decodes against templates seen in earlier datagrams. Start from \
    `supported_formats` to see which formats decode and which function handles each, then \
    call that decoder.";

/// The schema in Markdown.
pub const SCHEMA_DOC_MD: &'static str =
    "## The `netflow` schema\n\nEverything the worker exposes lives in this one schema — \
    qualify every call as `netflow.main.<name>(...)`. Its job is to turn a column of raw \
    captured flow-export datagrams into normalized, typed flow rows, entirely in-engine \
    and with no collector stack.\n\nThe capabilities fall into a few groups:\n\n- \
    **Decoders** take a relation with a `datagram` `BLOB` column and return the wide \
    normalized flow schema, auto-detecting NetFlow v5/v9, IPFIX, and sFlow v5 (or \
    restricting to a single family).\n- **Template-cache introspection** projects the \
    per-exporter, per-observation-domain templates the stateful v9/IPFIX decoders have \
    learned so far in the session.\n- **Probe / validation scalars** identify or \
    structurally validate a single datagram cheaply, without running a full decode.\n\nA \
    small **reference** table lists the flow-export formats the worker understands and \
    which decoder handles each, so an agent can orient before calling anything. Browse \
    that first, then reach for the matching decoder.";

/// The categories of the schema's objects, as JSON.
pub const SCHEMA_CATEGORIES: &'static str =
    "[{\"name\":\"decode\",\"description\":\"Table functions that decode captured \
    flow-export datagrams (NetFlow v5/v9, IPFIX, sFlow v5) into normalized flow \
    rows.\"},{\"name\":\"introspection\",\"description\":\"Inspect the learned \
    per-exporter, per-observation-domain template cache that stateful v9/IPFIX decode \
    depends on.\"},{\"name\":\"probe\",\"description\":\"Lightweight scalars that identify \
    or validate a datagram without a full \
    decode.\"},{\"name\":\"reference\",\"description\":\"Curated lookup tables an agent \
    can browse to orient — e.g. the flow-export formats this worker decodes and the \
    function that handles each.\"}]";

/// What the first example query of the schema shows.
pub const ROUTE: &'static str =
    "Route a mixed column of captured datagrams: label each by its flow-export version \
    before decoding.";

/// The first example query of the schema.
pub const ROUTE_SQL: &'static str =
    "SELECT netflow.main.flow_version(content) AS version, count(*) FROM \
    read_blob('caps/*.dat') GROUP BY version";

/// What the second example query of the schema shows.
pub const JOIN: &'static str =
    "Decode a capture archive to normalized flow rows and join source addresses to a \
    threat-intel prefix list via INET containment.";

/// The second example query of the schema.
pub const JOIN_SQL: &'static str =
    "SELECT f.src_addr::INET AS src, f.dst_port, f.bytes FROM netflow.main.flows((FROM \
    (SELECT content AS datagram, filename AS exporter FROM read_blob('caps/*.dat')))) f \
    WHERE f.diagnostics IS NULL AND f.src_addr::INET <<= '10.0.0.0/8'::INET";

/// What the third example query of the schema shows.
pub const INSPECT: &'static str =
    "After decoding, inspect which v9/IPFIX templates the worker learned in this session, \
    per exporter.";

/// The third example query of the schema.
pub const INSPECT_SQL: &'static str =
    "SELECT exporter, template_id, kind, field_count FROM netflow.main.templates() ORDER BY \
    exporter, template_id";

/// The name of the reference view.
pub const FORMATS_NAME: &'static str = "supported_formats";

/// The definition of the reference view.
pub const FORMATS_SQL: &'static str =
    "SELECT format, version, rfc, template_stateful, decoder, flow_version, notes FROM \
    (VALUES ('NetFlow', '5', 'Cisco NetFlow v5', false, 'netflow_decode', '5', 'Fixed \
    48-byte records; no templates.'), ('NetFlow', '9', 'RFC 3954', true, 'netflow_decode', \
    '9', 'Template-based; the Template Set may arrive in an earlier datagram.'), ('IPFIX', \
    '10', 'RFC 7011', true, 'ipfix_decode', '10', 'Template-based, with enterprise and \
    variable-length Information Elements.'), ('sFlow', '5', 'sFlow.org v5', false, \
    'sflow_decode', 'sflow5', 'Packet sampling; byte/packet counts scaled by the sampling \
    rate.')) AS t(format, version, rfc, template_stateful, decoder, flow_version, notes)";

/// The reference view in one line.
pub const FORMATS_COMMENT: &'static str =
    "One row per flow-export format the worker decodes, with its version, defining spec, \
    whether decoding is template-stateful, and the decode function that handles it.";

/// The title of the reference view.
pub const FORMATS_TITLE: &'static str = "Supported Flow-Export Formats";

/// The reference view in prose.
pub const FORMATS_DOC_LLM: &'static str =
    "A curated reference listing every flow-export format this worker can decode — NetFlow \
    v5, NetFlow v9, IPFIX (v10), and sFlow v5 — with, for each, its wire version, the RFC \
    or vendor spec that defines it, whether decoding it is template-stateful (needs a \
    previously-seen template, as v9 and IPFIX do), the `flow_version` value it produces in \
    decoded rows, and which `netflow.main` decode function handles it. An agent should \
    browse this table first to learn what is decodable and which function to call, rather \
    than guessing a decoder's arguments up front. It is a static VALUES-backed view, so it \
    always returns these four rows with no input.";

/// The reference view in short.
pub const FORMATS_DOC_MD: &'static str =
    "Reference table of the flow-export formats the worker decodes (NetFlow v5/v9, IPFIX, \
    sFlow v5), each with its version, defining spec, template-stateful flag, produced \
    `flow_version` value, and handling decode function. Browse it to orient before calling \
    a decoder.";

/// The keywords of the reference view.
pub const FORMATS_KEYWORDS: &'static str =
    "supported formats, formats, reference, netflow, ipfix, sflow, versions, decoders, \
    capabilities, catalog, template-stateful";

/// What the first example query of the reference view shows.
pub const STATEFUL: &'static str =
    "List the template-stateful formats (the ones whose decode needs a learned template) \
    and which function decodes each.";

/// The first example query of the reference view.
pub const STATEFUL_SQL: &'static str =
    "SELECT format, version, decoder FROM netflow.main.supported_formats WHERE \
    template_stateful ORDER BY version";

/// What the second example query of the reference view shows.
pub const LOOK_UP: &'static str =
    "Look up which decode function handles IPFIX and the flow_version value it emits.";

/// The second example query of the reference view.
pub const LOOK_UP_SQL: &'static str =
    "SELECT decoder, flow_version, rfc FROM netflow.main.supported_formats WHERE format = \
    'IPFIX'";

/// The domain of the objects.
pub const DOMAIN: &'static str = "network-security";

/// The topic of the objects.
pub const TOPIC: &'static str = "netflow-ipfix-sflow";

/// The columns of the reference view: name and comment.
pub const FORMATS_COLUMNS: [(&'static str, &'static str); 7] = [
    (
        "format",
        "Flow-export protocol family: 'NetFlow', 'IPFIX', or 'sFlow'.",
    ),
    (
        "version",
        "Protocol version as it appears on the wire (e.g. '5', '9', '10').",
    ),
    (
        "rfc",
        "The RFC or vendor specification that defines the format.",
    ),
    (
        "template_stateful",
        "TRUE when decoding needs a previously-seen template (NetFlow v9, IPFIX); FALSE for \
        self-contained formats (NetFlow v5, sFlow).",
    ),
    (
        "decoder",
        "The netflow.main table function that decodes this format (the unified `flows` \
        handles all of them).",
    ),
    (
        "flow_version",
        "The value this format produces in the decoded rows' `flow_version` column.",
    ),
    (
        "notes",
        "One-line summary of the format's decoding characteristics.",
    ),
];

/// The request of task `probe_unknown`.
pub const PROBE_UNKNOWN_PROMPT: &'static str =
    "I have a one-byte blob that is not a flow datagram. Probe its flow-export version; it \
    should come back NULL. Return a single column named v.";

/// The answer to task `probe_unknown`.
pub const PROBE_UNKNOWN_SQL: &'static str =
    "SELECT netflow.main.flow_version('\\x00'::BLOB) AS v";

/// The request of task `validate_garbage`.
pub const VALIDATE_GARBAGE_PROMPT: &'static str =
    "Classify the garbage two-byte blob 0xDEAD with the validator and return just the \
    failure kind as a single column named kind.";

/// The answer to task `validate_garbage`.
pub const VALIDATE_GARBAGE_SQL: &'static str =
    "SELECT netflow.main.well_formed('\\xde\\xad'::BLOB).kind AS kind";

/// The request of task `count_v5_flows`, up to the datagram.
pub const COUNT_V5_FLOWS_PROMPT_HEAD: &'static str =
    "I captured this NetFlow v5 export datagram as a hex string: ";

/// The request of task `count_v5_flows`, from the datagram on.
pub const COUNT_V5_FLOWS_PROMPT_TAIL: &'static str =
    ". Decode it with the unified flow decoder and tell me how many normalized flow rows it \
    yields. Return one row, one column named flow_count.";

/// The answer to task `count_v5_flows`, up to the datagram.
pub const COUNT_V5_FLOWS_SQL_HEAD: &'static str =
    "SELECT count(*) AS flow_count FROM netflow.main.flows((SELECT from_hex('";

/// The answer to task `count_v5_flows`, from the datagram on.
pub const COUNT_V5_FLOWS_SQL_TAIL: &'static str = "') AS datagram))";

/// The request of task `decode_v9_dst_port`, up to the datagram.
pub const DECODE_V9_DST_PORT_PROMPT_HEAD: &'static str =
    "This is a NetFlow v9 export datagram in hex (it carries its template and one data \
    record): ";

/// The request of task `decode_v9_dst_port`, from the datagram on.
pub const DECODE_V9_DST_PORT_PROMPT_TAIL: &'static str =
    ". Decode it with the NetFlow-specific decoder and return the layer-4 destination port \
    of the single decoded flow. One row, one column named dst_port.";

/// The answer to task `decode_v9_dst_port`, up to the datagram.
pub const DECODE_V9_DST_PORT_SQL_HEAD: &'static str =
    "SELECT dst_port FROM netflow.main.netflow_decode((SELECT from_hex('";

/// The answer to task `decode_v9_dst_port`, from the datagram on.
pub const DECODE_V9_DST_PORT_SQL_TAIL: &'static str = "') AS datagram))";

/// The request of task `decode_ipfix_protocol`, up to the datagram.
pub const DECODE_IPFIX_PROTOCOL_PROMPT_HEAD: &'static str =
    "Decode this IPFIX (version 10) datagram given as hex: ";

/// The request of task `decode_ipfix_protocol`, from the datagram on.
pub const DECODE_IPFIX_PROTOCOL_PROMPT_TAIL: &'static str =
    ". Return the IP protocol number of the decoded flow. One row, one column named protocol.";

/// The answer to task `decode_ipfix_protocol`, up to the datagram.
pub const DECODE_IPFIX_PROTOCOL_SQL_HEAD: &'static str =
    "SELECT protocol FROM netflow.main.ipfix_decode((SELECT from_hex('";

/// The answer to task `decode_ipfix_protocol`, from the datagram on.
pub const DECODE_IPFIX_PROTOCOL_SQL_TAIL: &'static str = "') AS datagram))";

/// The request of task `count_sflow_samples`, up to the datagram.
pub const COUNT_SFLOW_SAMPLES_PROMPT_HEAD: &'static str =
    "Decode this sFlow v5 datagram given as hex: ";

/// The request of task `count_sflow_samples`, from the datagram on.
pub const COUNT_SFLOW_SAMPLES_PROMPT_TAIL: &'static str =
    ". Count how many flow-sample rows it produces — that is, decoded rows that carry a \
    non-NULL destination port (counter samples have no ports). One row, one column named \
    flow_samples.";

/// The answer to task `count_sflow_samples`, up to the datagram.
pub const COUNT_SFLOW_SAMPLES_SQL_HEAD: &'static str =
    "SELECT count(*) AS flow_samples FROM netflow.main.sflow_decode((SELECT from_hex('";

/// The answer to task `count_sflow_samples`, from the datagram on.
pub const COUNT_SFLOW_SAMPLES_SQL_TAIL: &'static str =
    "') AS datagram)) WHERE dst_port IS NOT NULL";

/// The request of task `read_export_header`, up to the datagram.
pub const READ_EXPORT_HEADER_PROMPT_HEAD: &'static str =
    "Without fully decoding its records, read just the export header of this NetFlow v5 \
    datagram given as hex: ";

/// The request of task `read_export_header`, from the datagram on.
pub const READ_EXPORT_HEADER_PROMPT_TAIL: &'static str =
    ". Return its protocol version and its record count, in that order — one row, a \
    `version` column then a `records` column.";

/// The answer to task `read_export_header`, up to the datagram.
pub const READ_EXPORT_HEADER_SQL_HEAD: &'static str = "SELECT netflow.main.header(from_hex('";

/// The answer to task `read_export_header`, between the datagrams.
pub const READ_EXPORT_HEADER_SQL_MIDDLE: &'static str =
    "')::BLOB)['version'] AS version, netflow.main.header(from_hex('";

/// The answer to task `read_export_header`, from the datagram on.
pub const READ_EXPORT_HEADER_SQL_TAIL: &'static str = "')::BLOB)['count'] AS records";

/// The request of task `inspect_learned_templates`, up to the datagram.
pub const INSPECT_LEARNED_TEMPLATES_PROMPT_HEAD: &'static str =
    "Two steps, in one session. First decode this IPFIX datagram (hex) scoping the template \
    cache to the exporter id 'sim-tmpl-probe': ";

/// The request of task `inspect_learned_templates`, from the datagram on.
pub const INSPECT_LEARNED_TEMPLATES_PROMPT_TAIL: &'static str =
    ". Then inspect the worker's template cache, filtered to that same exporter, and tell \
    me how many templates it learned. Your final answer is the count — one row, one column \
    named n.";

/// The first statement of task `inspect_learned_templates`, up to the datagram.
pub const INSPECT_LEARNED_TEMPLATES_FIRST_HEAD: &'static str =
    "SELECT count(*) FROM netflow.main.ipfix_decode((SELECT from_hex('";

/// The first statement of task `inspect_learned_templates`, from the datagram on.
pub const INSPECT_LEARNED_TEMPLATES_FIRST_TAIL: &'static str =
    "') AS datagram, 'sim-tmpl-probe' AS exporter))";

/// The last statement of task `inspect_learned_templates`.
pub const INSPECT_LEARNED_TEMPLATES_THEN: &'static str =
    "SELECT count(*) AS n FROM netflow.main.templates(exporter => 'sim-tmpl-probe')";

/// The request of task `browse_stateful_formats`.
pub const BROWSE_STATEFUL_FORMATS_PROMPT: &'static str =
    "Using only the worker's own reference table of supported formats, list the decode \
    functions for the flow-export formats whose decoding is template-stateful (needs a \
    previously-seen template). Return one `decoder` column, ordered alphabetically.";

/// The answer to task `browse_stateful_formats`.
pub const BROWSE_STATEFUL_FORMATS_SQL: &'static str =
    "SELECT decoder FROM netflow.main.supported_formats WHERE template_stateful ORDER BY \
    decoder";

/// A view of the catalog.
#[derive(Clone, Debug)]
pub struct ViewDoc {
    pub name: String,
    pub definition: String,
    pub comment: String,
    pub tags: Vec<(String, String)>,
    pub column_comments: Vec<(String, String)>,
}

/// The texts of a [`ViewDoc`].
#[verifier::ext_equal]
pub struct ViewTexts {
    pub name: Seq<char>,
    pub definition: Seq<char>,
    pub comment: Seq<char>,
    pub tags: Seq<(Seq<char>, Seq<char>)>,
    pub column_comments: Seq<(Seq<char>, Seq<char>)>,
}

impl View for ViewDoc {
    type V = ViewTexts;

    open spec fn view(&self) -> ViewTexts {
        ViewTexts {
            name: self.name@,
            definition: self.definition@,
            comment: self.comment@,
            tags: tags_view(self.tags@),
            column_comments: tags_view(self.column_comments@),
        }
    }
}

/// A schema of the catalog.
#[derive(Clone, Debug)]
pub struct SchemaDoc {
    pub name: String,
    pub comment: String,
    pub tags: Vec<(String, String)>,
    pub views: Vec<ViewDoc>,
}

/// The texts of a [`SchemaDoc`].
#[verifier::ext_equal]
pub struct SchemaTexts {
    pub name: Seq<char>,
    pub comment: Seq<char>,
    pub tags: Seq<(Seq<char>, Seq<char>)>,
    pub views: Seq<ViewTexts>,
}

impl View for SchemaDoc {
    type V = SchemaTexts;

    open spec fn view(&self) -> SchemaTexts {
        SchemaTexts {
            name: self.name@,
            comment: self.comment@,
            tags: tags_view(self.tags@),
            views: views(self.views@),
        }
    }
}

/// A catalog.
#[derive(Clone, Debug)]
pub struct CatalogDoc {
    pub name: String,
    pub comment: String,
    pub tags: Vec<(String, String)>,
    pub source_url: String,
    pub implementation_version: String,
    pub schemas: Vec<SchemaDoc>,
}

/// The texts of a [`CatalogDoc`].
#[verifier::ext_equal]
pub struct CatalogTexts {
    pub name: Seq<char>,
    pub comment: Seq<char>,
    pub tags: Seq<(Seq<char>, Seq<char>)>,
    pub source_url: Seq<char>,
    pub implementation_version: Seq<char>,
    pub schemas: Seq<SchemaTexts>,
}

impl View for CatalogDoc {
    type V = CatalogTexts;

    open spec fn view(&self) -> CatalogTexts {
        CatalogTexts {
            name: self.name@,
            comment: self.comment@,
            tags: tags_view(self.tags@),
            source_url: self.source_url@,
            implementation_version: self.implementation_version@,
            schemas: views(self.schemas@),
        }
    }
}

/// A task whose answer may be compared by values only, or also by column names, and
/// whose rows come in order.
pub open spec fn task(
    name: Seq<char>,
    prompt: Seq<char>,
    reference_sql: Seq<Seq<char>>,
    ignore_column_names: bool,
) -> TaskView {
    TaskView { name, prompt, reference_sql, ignore_column_names, unordered: false }
}

/// The tasks, one per object of the catalog at least.
pub open spec fn task_views() -> Seq<TaskView> {
    seq![
        task(
            "probe_unknown"@,
            PROBE_UNKNOWN_PROMPT@,
            seq![
                PROBE_UNKNOWN_SQL@,
            ],
            false,
        ),
        task(
            "validate_garbage"@,
            VALIDATE_GARBAGE_PROMPT@,
            seq![
                VALIDATE_GARBAGE_SQL@,
            ],
            false,
        ),
        task(
            "count_v5_flows"@,
            COUNT_V5_FLOWS_PROMPT_HEAD@ + SAMPLE_V5_HEX@ + COUNT_V5_FLOWS_PROMPT_TAIL@,
            seq![
                COUNT_V5_FLOWS_SQL_HEAD@ + SAMPLE_V5_HEX@ + COUNT_V5_FLOWS_SQL_TAIL@,
            ],
            true,
        ),
        task(
            "decode_v9_dst_port"@,
            DECODE_V9_DST_PORT_PROMPT_HEAD@ + SAMPLE_V9_HEX@ + DECODE_V9_DST_PORT_PROMPT_TAIL@,
            seq![
                DECODE_V9_DST_PORT_SQL_HEAD@ + SAMPLE_V9_HEX@ + DECODE_V9_DST_PORT_SQL_TAIL@,
            ],
            true,
        ),
        task(
            "decode_ipfix_protocol"@,
            DECODE_IPFIX_PROTOCOL_PROMPT_HEAD@ + SAMPLE_IPFIX_HEX@
                + DECODE_IPFIX_PROTOCOL_PROMPT_TAIL@,
            seq![
                DECODE_IPFIX_PROTOCOL_SQL_HEAD@ + SAMPLE_IPFIX_HEX@
                    + DECODE_IPFIX_PROTOCOL_SQL_TAIL@,
            ],
            true,
        ),
        task(
            "count_sflow_samples"@,
            COUNT_SFLOW_SAMPLES_PROMPT_HEAD@ + SAMPLE_SFLOW_HEX@ + COUNT_SFLOW_SAMPLES_PROMPT_TAIL@,
            seq![
                COUNT_SFLOW_SAMPLES_SQL_HEAD@ + SAMPLE_SFLOW_HEX@ + COUNT_SFLOW_SAMPLES_SQL_TAIL@,
            ],
            true,
        ),
        task(
            "read_export_header"@,
            READ_EXPORT_HEADER_PROMPT_HEAD@ + SAMPLE_V5_HEX@ + READ_EXPORT_HEADER_PROMPT_TAIL@,
            seq![
                READ_EXPORT_HEADER_SQL_HEAD@ + SAMPLE_V5_HEX@ + READ_EXPORT_HEADER_SQL_MIDDLE@
                    + SAMPLE_V5_HEX@ + READ_EXPORT_HEADER_SQL_TAIL@,
            ],
            true,
        ),
        task(
            "inspect_learned_templates"@,
            INSPECT_LEARNED_TEMPLATES_PROMPT_HEAD@ + SAMPLE_IPFIX_HEX@
                + INSPECT_LEARNED_TEMPLATES_PROMPT_TAIL@,
            seq![
                INSPECT_LEARNED_TEMPLATES_FIRST_HEAD@ + SAMPLE_IPFIX_HEX@
                    + INSPECT_LEARNED_TEMPLATES_FIRST_TAIL@,
                INSPECT_LEARNED_TEMPLATES_THEN@,
            ],
            true,
        ),
        task(
            "browse_stateful_formats"@,
            BROWSE_STATEFUL_FORMATS_PROMPT@,
            seq![
                BROWSE_STATEFUL_FORMATS_SQL@,
            ],
            true,
        ),
    ]
}

/// A task.
fn new_task(
    name: &'static str,
    prompt: String,
    reference_sql: Vec<String>,
    ignore_column_names: bool,
) -> (r: AgentTask)
    ensures
        r@ == task(name@, prompt@, views(reference_sql@), ignore_column_names),
{
    AgentTask { name, prompt, reference_sql, ignore_column_names, unordered: false }
}

/// A list of one statement.
fn one(sql: String) -> (r: Vec<String>)
    ensures
        views(r@) == seq![sql@],
{
    let mut r: Vec<String> = Vec::new();
    r.push(sql);
    assert(views(r@) =~= seq![sql@]);
    r
}

/// A list of two statements.
fn two(first: String, then_sql: String) -> (r: Vec<String>)
    ensures
        views(r@) == seq![first@, then_sql@],
{
    let mut r: Vec<String> = Vec::new();
    r.push(first);
    r.push(then_sql);
    assert(views(r@) =~= seq![first@, then_sql@]);
    r
}

/// The tasks by which an agent's use of the catalog can be tried out. Each hands a
/// self-contained input and asks for a small deterministic result.
pub fn agent_test_tasks() -> (r: Vec<AgentTask>)
    ensures
        views(r@) == task_views(),
{
    let mut r: Vec<AgentTask> = Vec::new();
    r.push(
        new_task(
            "probe_unknown",
            PROBE_UNKNOWN_PROMPT.to_string(),
            one(PROBE_UNKNOWN_SQL.to_string()),
            false,
        ),
    );
    r.push(
        new_task(
            "validate_garbage",
            VALIDATE_GARBAGE_PROMPT.to_string(),
            one(VALIDATE_GARBAGE_SQL.to_string()),
            false,
        ),
    );
    r.push(
        new_task(
            "count_v5_flows",
            concat3(COUNT_V5_FLOWS_PROMPT_HEAD, SAMPLE_V5_HEX, COUNT_V5_FLOWS_PROMPT_TAIL),
            one(concat3(COUNT_V5_FLOWS_SQL_HEAD, SAMPLE_V5_HEX, COUNT_V5_FLOWS_SQL_TAIL)),
            true,
        ),
    );
    r.push(
        new_task(
            "decode_v9_dst_port",
            concat3(DECODE_V9_DST_PORT_PROMPT_HEAD, SAMPLE_V9_HEX, DECODE_V9_DST_PORT_PROMPT_TAIL),
            one(concat3(DECODE_V9_DST_PORT_SQL_HEAD, SAMPLE_V9_HEX, DECODE_V9_DST_PORT_SQL_TAIL)),
            true,
        ),
    );
    r.push(
        new_task(
            "decode_ipfix_protocol",
            concat3(
                DECODE_IPFIX_PROTOCOL_PROMPT_HEAD,
                SAMPLE_IPFIX_HEX,
                DECODE_IPFIX_PROTOCOL_PROMPT_TAIL,
            ),
            one(
                concat3(
                    DECODE_IPFIX_PROTOCOL_SQL_HEAD,
                    SAMPLE_IPFIX_HEX,
                    DECODE_IPFIX_PROTOCOL_SQL_TAIL,
                ),
            ),
            true,
        ),
    );
    r.push(
        new_task(
            "count_sflow_samples",
            concat3(
                COUNT_SFLOW_SAMPLES_PROMPT_HEAD,
                SAMPLE_SFLOW_HEX,
                COUNT_SFLOW_SAMPLES_PROMPT_TAIL,
            ),
            one(
                concat3(
                    COUNT_SFLOW_SAMPLES_SQL_HEAD,
                    SAMPLE_SFLOW_HEX,
                    COUNT_SFLOW_SAMPLES_SQL_TAIL,
                ),
            ),
            true,
        ),
    );
    r.push(
        new_task(
            "read_export_header",
            concat3(READ_EXPORT_HEADER_PROMPT_HEAD, SAMPLE_V5_HEX, READ_EXPORT_HEADER_PROMPT_TAIL),
            one(
                concat3(
                    concat3(
                        READ_EXPORT_HEADER_SQL_HEAD,
                        SAMPLE_V5_HEX,
                        READ_EXPORT_HEADER_SQL_MIDDLE,
                    ).as_str(),
                    SAMPLE_V5_HEX,
                    READ_EXPORT_HEADER_SQL_TAIL,
                ),
            ),
            true,
        ),
    );
    r.push(
        new_task(
            "inspect_learned_templates",
            concat3(
                INSPECT_LEARNED_TEMPLATES_PROMPT_HEAD,
                SAMPLE_IPFIX_HEX,
                INSPECT_LEARNED_TEMPLATES_PROMPT_TAIL,
            ),
            two(
                concat3(
                    INSPECT_LEARNED_TEMPLATES_FIRST_HEAD,
                    SAMPLE_IPFIX_HEX,
                    INSPECT_LEARNED_TEMPLATES_FIRST_TAIL,
                ),
                INSPECT_LEARNED_TEMPLATES_THEN.to_string(),
            ),
            true,
        ),
    );
    r.push(
        new_task(
            "browse_stateful_formats",
            BROWSE_STATEFUL_FORMATS_PROMPT.to_string(),
            one(BROWSE_STATEFUL_FORMATS_SQL.to_string()),
            true,
        ),
    );
    assert(views(r@) =~= task_views());
    r
}

/// The JSON array of two examples.
pub open spec fn two_examples(
    a: (Seq<char>, Seq<char>),
    b: (Seq<char>, Seq<char>),
) -> Seq<char> {
    array_text(seq![example_object(a.0, a.1), example_object(b.0, b.1)])
}

/// The tags of the reference view.
pub open spec fn formats_tags() -> Seq<(Seq<char>, Seq<char>)> {
    object_tags_view(FORMATS_TITLE@, FORMATS_DOC_LLM@, FORMATS_DOC_MD@, FORMATS_KEYWORDS@) + seq![
        ("vgi.category"@, "reference"@),
        ("domain"@, DOMAIN@),
        ("topic"@, TOPIC@),
        (
            "vgi.example_queries"@,
            two_examples((STATEFUL@, STATEFUL_SQL@), (LOOK_UP@, LOOK_UP_SQL@)),
        ),
    ]
}

/// The columns of the reference view: name and comment.
pub open spec fn formats_columns() -> Seq<(Seq<char>, Seq<char>)> {
    Seq::new(
        FORMATS_COLUMNS@.len(),
        |i: int| (FORMATS_COLUMNS@[i].0@, FORMATS_COLUMNS@[i].1@),
    )
}

/// The reference view.
pub open spec fn formats_texts() -> ViewTexts {
    ViewTexts {
        name: FORMATS_NAME@,
        definition: FORMATS_SQL@,
        comment: FORMATS_COMMENT@,
        tags: formats_tags(),
        column_comments: formats_columns(),
    }
}

/// A browsable reference view, backed by values: the flow-export formats that are
/// decoded and which decoder handles each.
pub fn formats_view() -> (r: ViewDoc)
    ensures
        r@ == formats_texts(),
{
    let mut tags = object_tags(FORMATS_TITLE, FORMATS_DOC_LLM, FORMATS_DOC_MD, FORMATS_KEYWORDS);
    push_tag(&mut tags, "vgi.category", "reference");
    push_tag(&mut tags, "domain", DOMAIN);
    push_tag(&mut tags, "topic", TOPIC);
    let examples: [(&str, &str); 2] = [(STATEFUL, STATEFUL_SQL), (LOOK_UP, LOOK_UP_SQL)];
    let queries = example_queries_json(examples.as_slice());
    assert(Seq::new(examples@.len(), |i: int| example_text(examples@[i])) =~= seq![
        example_object(STATEFUL@, STATEFUL_SQL@),
        example_object(LOOK_UP@, LOOK_UP_SQL@),
    ]);
    push_tag(&mut tags, "vgi.example_queries", queries.as_str());
    let mut column_comments: Vec<(String, String)> = Vec::new();
    let columns = FORMATS_COLUMNS;
    let mut i: usize = 0;
    assert(tags_view(column_comments@) =~= formats_columns().take(0));
    while i < columns.len()
        invariant
            columns == FORMATS_COLUMNS,
            i <= columns@.len(),
            tags_view(column_comments@) == formats_columns().take(i as int),
        decreases columns.len() - i,
    {
        push_tag(&mut column_comments, columns[i].0, columns[i].1);
        i = i + 1;
        assert(formats_columns().take(i as int) =~= formats_columns().take(i - 1).push(
            formats_columns()[i - 1],
        ));
    }
    assert(formats_columns().take(i as int) =~= formats_columns());
    let r = ViewDoc {
        name: FORMATS_NAME.to_string(),
        definition: FORMATS_SQL.to_string(),
        comment: FORMATS_COMMENT.to_string(),
        tags,
        column_comments,
    };
    assert(r@ =~= formats_texts());
    r
}

/// The tags of the schema.
pub open spec fn schema_tags() -> Seq<(Seq<char>, Seq<char>)> {
    seq![
        ("vgi.title"@, SCHEMA_TITLE@),
        ("vgi.keywords"@, keywords_text(SCHEMA_KEYWORDS@)),
        ("domain"@, DOMAIN@),
        ("category"@, "flow-decode"@),
        ("topic"@, TOPIC@),
        ("vgi.doc_llm"@, SCHEMA_DOC_LLM@),
        ("vgi.doc_md"@, SCHEMA_DOC_MD@),
        ("vgi.categories"@, SCHEMA_CATEGORIES@),
        (
            "vgi.example_queries"@,
            array_text(
                seq![
                    example_object(ROUTE@, ROUTE_SQL@),
                    example_object(JOIN@, JOIN_SQL@),
                    example_object(INSPECT@, INSPECT_SQL@),
                ],
            ),
        ),
    ]
}

/// The schema.
pub open spec fn schema_texts() -> SchemaTexts {
    SchemaTexts {
        name: SCHEMA_NAME@,
        comment: SCHEMA_COMMENT@,
        tags: schema_tags(),
        views: seq![formats_texts()],
    }
}

/// The one schema of the catalog.
pub fn main_schema() -> (r: SchemaDoc)
    ensures
        r@ == schema_texts(),
{
    let mut tags: Vec<(String, String)> = Vec::new();
    assert(tags_view(tags@) =~= Seq::empty());
    push_tag(&mut tags, "vgi.title", SCHEMA_TITLE);
    push_tag(&mut tags, "vgi.keywords", keywords_json(SCHEMA_KEYWORDS).as_str());
    push_tag(&mut tags, "domain", DOMAIN);
    push_tag(&mut tags, "category", "flow-decode");
    push_tag(&mut tags, "topic", TOPIC);
    push_tag(&mut tags, "vgi.doc_llm", SCHEMA_DOC_LLM);
    push_tag(&mut tags, "vgi.doc_md", SCHEMA_DOC_MD);
    push_tag(&mut tags, "vgi.categories", SCHEMA_CATEGORIES);
    let examples: [(&str, &str); 3] = [(ROUTE, ROUTE_SQL), (JOIN, JOIN_SQL), (INSPECT, INSPECT_SQL)];
    let queries = example_queries_json(examples.as_slice());
    assert(Seq::new(examples@.len(), |i: int| example_text(examples@[i])) =~= seq![
        example_object(ROUTE@, ROUTE_SQL@),
        example_object(JOIN@, JOIN_SQL@),
        example_object(INSPECT@, INSPECT_SQL@),
    ]);
    push_tag(&mut tags, "vgi.example_queries", queries.as_str());
    assert(tags_view(tags@) =~= schema_tags());
    let mut vs: Vec<ViewDoc> = Vec::new();
    vs.push(formats_view());
    assert(views(vs@) =~= seq![formats_texts()]);
    SchemaDoc {
        name: SCHEMA_NAME.to_string(),
        comment: SCHEMA_COMMENT.to_string(),
        tags,
        views: vs,
    }
}

/// The tags of the catalog.
pub open spec fn catalog_tags() -> Seq<(Seq<char>, Seq<char>)> {
    seq![
        ("vgi.title"@, TITLE@),
        ("vgi.keywords"@, keywords_text(KEYWORDS@)),
        ("vgi.doc_llm"@, DOC_LLM@),
        ("vgi.doc_md"@, DOC_MD@),
        ("vgi.agent_test_tasks"@, tasks_text(task_views())),
        ("vgi.author"@, AUTHOR@),
        ("vgi.copyright"@, COPYRIGHT@),
        ("vgi.license"@, LICENSE@),
        ("vgi.support_contact"@, SUPPORT_CONTACT@),
        ("vgi.support_policy_url"@, SUPPORT_POLICY@),
    ]
}

/// The catalog under a name.
pub open spec fn catalog_texts(name: Seq<char>) -> CatalogTexts {
    CatalogTexts {
        name,
        comment: COMMENT@,
        tags: catalog_tags(),
        source_url: SOURCE_URL@,
        implementation_version: VERSION@,
        schemas: seq![schema_texts()],
    }
}

/// The catalog and schema metadata that the database sees, under a name.
pub fn catalog_metadata(name: &str) -> (r: CatalogDoc)
    ensures
        r@ == catalog_texts(name@),
{
    let mut tags: Vec<(String, String)> = Vec::new();
    assert(tags_view(tags@) =~= Seq::empty());
    push_tag(&mut tags, "vgi.title", TITLE);
    push_tag(&mut tags, "vgi.keywords", keywords_json(KEYWORDS).as_str());
    push_tag(&mut tags, "vgi.doc_llm", DOC_LLM);
    push_tag(&mut tags, "vgi.doc_md", DOC_MD);
    let tasks = agent_test_tasks();
    push_tag(&mut tags, "vgi.agent_test_tasks", agent_test_tasks_json(tasks.as_slice()).as_str());
    push_tag(&mut tags, "vgi.author", AUTHOR);
    push_tag(&mut tags, "vgi.copyright", COPYRIGHT);
    push_tag(&mut tags, "vgi.license", LICENSE);
    push_tag(&mut tags, "vgi.support_contact", SUPPORT_CONTACT);
    push_tag(&mut tags, "vgi.support_policy_url", SUPPORT_POLICY);
    assert(tags_view(tags@) =~= catalog_tags());
    let mut schemas: Vec<SchemaDoc> = Vec::new();
    schemas.push(main_schema());
    assert(views(schemas@) =~= seq![schema_texts()]);
    CatalogDoc {
        name: name.to_string(),
        comment: COMMENT.to_string(),
        tags,
        source_url: SOURCE_URL.to_string(),
        implementation_version: version().to_string(),
        schemas,
    }
}

} // verus!
