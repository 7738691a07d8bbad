//! What the worker says of itself: JSON helpers, tags, examples and the catalog.

use netflow_core::catalog::{agent_test_tasks, catalog_metadata, formats_view};
use netflow_core::fixtures::{ipfix_basic, netflow_v5, netflow_v9_combined, sflow_basic};
use netflow_core::flows::docs::{
    describe, doc_example, executable_example, flow_result_columns, tags_for,
};
use netflow_core::flows::FlowDecode;
use netflow_core::meta::{
    agent_test_tasks_json, example_queries_json, executable_examples_json, keywords_json,
    object_tags, result_columns_schema_json, AgentTask, SAMPLE_IPFIX_HEX, SAMPLE_SFLOW_HEX,
    SAMPLE_V5_HEX, SAMPLE_V9_HEX,
};
use netflow_core::scalar::{flow_version, header, version, well_formed};
use netflow_core::{arrow_map, templates, Restrict};

fn hex(bytes: &[u8]) -> String {
    bytes.iter().map(|b| format!("{b:02x}")).collect()
}

fn tag<'a>(tags: &'a [(String, String)], name: &str) -> &'a str {
    let found: Vec<&(String, String)> = tags.iter().filter(|t| t.0 == name).collect();
    assert_eq!(found.len(), 1, "{name}");
    &found[0].1
}

fn parses(json: &str) -> serde_json::Value {
    serde_json::from_str(json).unwrap()
}

#[test]
fn samples_are_the_fixtures() {
    assert_eq!(SAMPLE_V5_HEX, hex(&netflow_v5()));
    assert_eq!(SAMPLE_V9_HEX, hex(&netflow_v9_combined()));
    assert_eq!(SAMPLE_IPFIX_HEX, hex(&ipfix_basic()));
    assert_eq!(SAMPLE_SFLOW_HEX, hex(&sflow_basic()));
}

#[test]
fn examples_are_escaped() {
    assert_eq!(executable_examples_json(&[]), "[]");
    assert_eq!(
        executable_examples_json(&[("a\"b", "c\\d\ne"), ("f", "g")]),
        "[{\"description\":\"a\\\"b\",\"sql\":\"c\\\\d\\ne\"},{\"description\":\"f\",\"sql\":\"g\"}]"
    );
    assert_eq!(
        example_queries_json(&[("x", "y")]),
        "[{\"description\":\"x\",\"sql\":\"y\"}]"
    );
    let back = parses(&executable_examples_json(&[("a\"b", "c\\d\ne")]));
    assert_eq!(back[0]["description"], "a\"b");
    assert_eq!(back[0]["sql"], "c\\d\ne");
}

#[test]
fn result_columns_are_objects_in_order() {
    assert_eq!(
        result_columns_schema_json(&[("n", "T", "d\"")]),
        "[{\"name\":\"n\",\"type\":\"T\",\"description\":\"d\\\"\"}]"
    );
}

#[test]
fn keywords_are_split_and_trimmed() {
    assert_eq!(keywords_json(""), "[]");
    assert_eq!(keywords_json(" , ,"), "[]");
    assert_eq!(
        keywords_json(" a b ,c,\u{a0}d\u{3000},\"e\\"),
        "[\"a b\",\"c\",\"d\",\"\\\"e\\\\\"]"
    );
}

#[test]
fn what_was_written_reads_back() {
    let rough = "a\"b\\c\nd/\u{e9}";
    let examples = parses(&example_queries_json(&[(rough, "x"), ("", rough)]));
    assert_eq!(examples.as_array().unwrap().len(), 2);
    assert_eq!(examples[0].as_object().unwrap().len(), 2);
    assert_eq!(examples[0]["description"], rough);
    assert_eq!(examples[0]["sql"], "x");
    assert_eq!(examples[1]["description"], "");
    assert_eq!(examples[1]["sql"], rough);
    let columns = parses(&result_columns_schema_json(&[(rough, "T", "d"), ("n", rough, rough)]));
    assert_eq!(columns[0]["name"], rough);
    assert_eq!(columns[1]["type"], rough);
    assert_eq!(columns[1]["description"], rough);
    let task = AgentTask {
        name: "n",
        prompt: rough.to_string(),
        reference_sql: vec![rough.to_string(), "b".to_string()],
        ignore_column_names: true,
        unordered: false,
    };
    let tasks = parses(&agent_test_tasks_json(&[task]));
    assert_eq!(tasks[0]["prompt"], rough);
    assert_eq!(tasks[0]["reference_sql"][0], rough);
    assert_eq!(tasks[0]["reference_sql"][1], "b");
    assert_eq!(tasks[0]["ignore_column_names"], true);
    assert_eq!(tasks[0].as_object().unwrap().len(), 4);
    let keywords = parses(&keywords_json(" \"q\\ ,, b c"));
    assert_eq!(keywords.as_array().unwrap().len(), 2);
    assert_eq!(keywords[0], "\"q\\");
    assert_eq!(keywords[1], "b c");
}

#[test]
fn object_tags_come_in_order() {
    let tags = object_tags("t", "l", "m", "k, j");
    let want = [
        ("vgi.title", "t"),
        ("vgi.doc_llm", "l"),
        ("vgi.doc_md", "m"),
        ("vgi.keywords", "[\"k\",\"j\"]"),
    ];
    assert_eq!(tags.len(), 4);
    for (t, w) in tags.iter().zip(want) {
        assert_eq!((t.0.as_str(), t.1.as_str()), w);
    }
}

#[test]
fn tasks_have_one_or_more_statements() {
    let task = |sql: Vec<&str>, ignore: bool, unordered: bool| AgentTask {
        name: "n",
        prompt: "p".to_string(),
        reference_sql: sql.into_iter().map(|s| s.to_string()).collect(),
        ignore_column_names: ignore,
        unordered,
    };
    assert_eq!(
        agent_test_tasks_json(&[task(vec!["a"], false, false)]),
        "[{\"name\":\"n\",\"prompt\":\"p\",\"reference_sql\":\"a\"}]"
    );
    assert_eq!(
        agent_test_tasks_json(&[task(vec!["a", "b"], true, true), task(vec![], false, true)]),
        "[{\"name\":\"n\",\"prompt\":\"p\",\"reference_sql\":[\"a\",\"b\"],\
         \"ignore_column_names\":true,\"unordered\":true},\
         {\"name\":\"n\",\"prompt\":\"p\",\"reference_sql\":[],\"unordered\":true}]"
    );
}

#[test]
fn decoders_describe_themselves() {
    assert_eq!(
        describe("sflow_decode"),
        "Decode sFlow v5 datagrams to normalized flow rows"
    );
    assert_eq!(describe("anything else"), "Decode flow-export datagrams");
    let (shows, sql) = executable_example("netflow_decode");
    assert_eq!(
        shows,
        "Decode a NetFlow v9 datagram that carries its template and one data record."
    );
    assert_eq!(
        sql,
        format!(
            "SELECT flow_version, dst_port, protocol, packets FROM \
             netflow.main.netflow_decode((SELECT from_hex('{SAMPLE_V9_HEX}') AS datagram))"
        )
    );
    let e = doc_example("flows");
    assert_eq!(
        e.sql,
        format!(
            "SELECT exporter, count(*) AS flows, sum(bytes) AS total_bytes FROM \
             netflow.main.flows((SELECT from_hex('{SAMPLE_V5_HEX}') AS datagram, \
             'router-1' AS exporter)) GROUP BY exporter"
        )
    );
    let tags = tags_for("ipfix_decode");
    assert_eq!(tag(&tags, "vgi.title"), "IPFIX Decode (relation in)");
    assert_eq!(tag(&tags, "vgi.category"), "decode");
    let columns = parses(tag(&tags, "vgi.result_columns_schema"));
    assert_eq!(columns.as_array().unwrap().len(), 28);
    assert_eq!(columns[6]["type"], "STRUCT(ip_type UTINYINT, address HUGEINT, mask USMALLINT)");
    assert_eq!(parses(tag(&tags, "vgi.executable_examples"))[0]["sql"], executable_example("ipfix_decode").1);
    for (described, emitted) in flow_result_columns().iter().zip(arrow_map::FLOW_COLUMNS) {
        assert_eq!(described.0, emitted.0);
    }
}

#[test]
fn the_stateless_decoder_does_not_speak_of_templates() {
    let s = FlowDecode::new("sflow_decode", Restrict::SflowOnly);
    assert!(s.relation_doc().contains("there is no template cache"));
    let n = FlowDecode::new("netflow_decode", Restrict::NetflowOnly);
    assert!(n.relation_doc().contains("`obs_domain` column"));
    let doc = FlowDecode::flows().metadata();
    assert_eq!(doc.examples.len(), 1);
    assert!(doc.description.starts_with("Decode captured flow-export datagrams"));
}

#[test]
fn scalars_describe_themselves() {
    let d = flow_version::FlowVersion.metadata();
    assert_eq!(d.description, "Probe a flow-export datagram's wire version");
    assert_eq!(
        tag(&d.tags, "vgi.executable_examples"),
        r#"[{"description":"Probe the version of a one-byte non-flow blob (returns NULL).","sql":"SELECT netflow.main.flow_version('\\x00'::BLOB) AS v"}]"#
    );
    let d = header::Header.metadata();
    assert_eq!(
        parses(tag(&d.tags, "vgi.executable_examples"))[0]["sql"],
        "SELECT netflow.main.header('\\x00'::BLOB) AS h"
    );
    let d = version::NetflowVersion.metadata();
    assert_eq!(tag(&d.tags, "vgi.category"), "probe");
    let d = well_formed::WellFormed.metadata();
    let runnable = parses(tag(&d.tags, "vgi.executable_examples"));
    assert_eq!(runnable.as_array().unwrap().len(), 2);
    assert_eq!(
        runnable[1]["sql"],
        "SELECT netflow.main.well_formed('\\xde\\xad'::BLOB).kind AS kind"
    );
    let shown = parses(tag(&d.tags, "vgi.example_queries"));
    assert_eq!(shown[0]["sql"], d.examples[0].sql);
    assert_eq!(
        d.examples[0].sql,
        format!("SELECT netflow.main.well_formed(from_hex('{SAMPLE_V5_HEX}')::BLOB) AS validation")
    );
    let d = templates::Templates.metadata();
    assert!(d.examples.is_empty());
    assert!(tag(&d.tags, "vgi.result_columns_md").starts_with("| column | type | description |\n|---|"));
    assert_eq!(
        parses(tag(&d.tags, "vgi.executable_examples"))[0]["sql"],
        format!(
            "SELECT count(*) FROM netflow.main.ipfix_decode((SELECT from_hex('{SAMPLE_IPFIX_HEX}') \
             AS datagram, 'doc-exporter' AS exporter));\nSELECT exporter, template_id, kind, \
             field_count FROM netflow.main.templates(exporter => 'doc-exporter');"
        )
    );
}

#[test]
fn the_catalog_is_complete() {
    let c = catalog_metadata("mine");
    assert_eq!(c.name, "mine");
    assert_eq!(c.implementation_version, "0.1.0");
    assert_eq!(c.source_url, "https://github.com/Query-farm/vgi-netflow");
    assert_eq!(c.tags.len(), 10);
    assert_eq!(tag(&c.tags, "vgi.license"), "MIT");
    let words = parses(tag(&c.tags, "vgi.keywords"));
    assert_eq!(words.as_array().unwrap().len(), 25);
    assert_eq!(words[24], "information element");
    let tasks = parses(tag(&c.tags, "vgi.agent_test_tasks"));
    assert_eq!(tasks.as_array().unwrap().len(), 9);
    assert_eq!(tasks[0]["reference_sql"], "SELECT netflow.main.flow_version('\\x00'::BLOB) AS v");
    assert_eq!(tasks[7]["reference_sql"].as_array().unwrap().len(), 2);
    assert_eq!(c.schemas.len(), 1);
    let s = &c.schemas[0];
    assert_eq!(s.name, "main");
    assert_eq!(s.tags.len(), 9);
    assert_eq!(parses(tag(&s.tags, "vgi.categories")).as_array().unwrap().len(), 4);
    assert_eq!(parses(tag(&s.tags, "vgi.example_queries")).as_array().unwrap().len(), 3);
    assert_eq!(s.views.len(), 1);
    let v = formats_view();
    assert_eq!(s.views[0].definition, v.definition);
    assert_eq!(v.name, "supported_formats");
    assert_eq!(v.column_comments.len(), 7);
    assert_eq!(v.column_comments[0].0, "format");
    assert_eq!(v.tags.len(), 8);
    assert!(v.definition.contains("('IPFIX', '10', 'RFC 7011', true, 'ipfix_decode', '10', 'Template-based"));
}

#[test]
fn tasks_carry_their_datagrams() {
    let tasks = agent_test_tasks();
    assert_eq!(tasks.len(), 9);
    assert_eq!(tasks[6].name, "read_export_header");
    assert_eq!(
        tasks[6].reference_sql[0],
        format!(
            "SELECT netflow.main.header(from_hex('{SAMPLE_V5_HEX}')::BLOB)['version'] AS version, \
             netflow.main.header(from_hex('{SAMPLE_V5_HEX}')::BLOB)['count'] AS records"
        )
    );
    assert!(tasks[3].prompt.contains(SAMPLE_V9_HEX));
    assert!(!tasks[0].ignore_column_names && tasks[2].ignore_column_names);
    assert!(tasks.iter().all(|t| !t.unordered));
}
