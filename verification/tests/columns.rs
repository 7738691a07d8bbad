//! Arrow batches in and out: the flow schema and its rows, the scalars over BLOB
//! columns, the relation decoders and the template listing.

use std::sync::Arc;

use arrow_array::cast::AsArray;
use arrow_array::types::{
    TimestampMicrosecondType, UInt16Type, UInt32Type, UInt64Type, UInt8Type,
};
use arrow_array::{
    Array, ArrayRef, BinaryArray, BooleanArray, Int16Array, Int32Array, Int64Array, Int8Array,
    LargeBinaryArray, LargeStringArray, RecordBatch, RecordBatchOptions, StringArray, UInt16Array,
    UInt32Array, UInt64Array, UInt8Array,
};
use arrow_schema::{DataType, Field, Schema, TimeUnit};
use netflow_core::arrow_map::{flow_schema, rows_fit, rows_to_batch, FLOW_COLUMNS};
use netflow_core::cache::{FieldSpec, TemplateCache, TemplateEntry, TemplateKey, TemplateKind};
use netflow_core::columns::{texts_fit, Batch};
use netflow_core::fault::Fault;
use netflow_core::fixtures::{
    ipfix_basic, netflow_v5, netflow_v9_combined, netflow_v9_data, netflow_v9_template, sflow_basic,
};
use netflow_core::flows::{
    closing_batches, find_datagram_col, find_named_col, low_word, same_ignoring_case, FlowDecode,
};
use netflow_core::inet::{inet4, inet6};
use netflow_core::scalar::{flow_version, has_argument, header, text_batch, version, well_formed};
use netflow_core::templates::{output_schema, templates_batch, templates_fit, TemplatesProducer};
use netflow_core::{flush_pending, FlowRecord, Restrict};

fn batch(columns: Vec<(&str, ArrayRef)>) -> Batch {
    Batch {
        record_batch: RecordBatch::try_from_iter(columns).unwrap(),
    }
}

fn one_field(ty: DataType) -> Arc<Schema> {
    Arc::new(Schema::new(vec![Field::new("result", ty, true)]))
}

fn value_text(f: Fault) -> String {
    match f {
        Fault::Value(t) => t,
        Fault::Arrow(e) => panic!("not a value fault: {e}"),
    }
}

fn refusal<T>(r: Result<T, Fault>) -> Fault {
    match r {
        Ok(_) => panic!("not refused"),
        Err(e) => e,
    }
}

#[test]
fn batch_round_trip_schema_matches() {
    let mut r = FlowRecord {
        exporter: "r1".into(),
        flow_version: "10".into(),
        obs_domain: 42,
        export_time: Some(1_700_000_000_000_000),
        src_addr: inet4(&[10, 0, 0, 1]),
        ..Default::default()
    };
    r.put_raw("interfaceName".to_string(), b"eth0".to_vec());
    let schema = flow_schema();
    let batch = rows_to_batch(&[r], &schema).unwrap();
    assert_eq!(batch.record_batch.num_rows(), 1);
    assert_eq!(batch.record_batch.schema().fields(), schema.fields());
}

#[test]
fn flow_schema_has_the_documented_columns() {
    let schema = flow_schema();
    let names: Vec<&str> = schema.fields().iter().map(|f| f.name().as_str()).collect();
    assert_eq!(
        names,
        vec![
            "exporter",
            "flow_version",
            "obs_domain",
            "template_id",
            "export_time",
            "sequence",
            "src_addr",
            "dst_addr",
            "src_port",
            "dst_port",
            "protocol",
            "tcp_flags",
            "bytes",
            "packets",
            "flow_start",
            "flow_end",
            "src_as",
            "dst_as",
            "input_snmp",
            "output_snmp",
            "next_hop",
            "tos",
            "src_mask",
            "dst_mask",
            "sampling_rate",
            "direction",
            "raw_fields",
            "diagnostics",
        ]
    );
    let ty = |n: &str| schema.field_with_name(n).unwrap().data_type().clone();
    let utc = DataType::Timestamp(TimeUnit::Microsecond, Some("UTC".into()));
    assert_eq!(ty("exporter"), DataType::Utf8);
    assert_eq!(ty("obs_domain"), DataType::UInt32);
    assert_eq!(ty("template_id"), DataType::UInt16);
    assert_eq!(ty("export_time"), utc);
    assert_eq!(ty("sequence"), DataType::UInt64);
    assert_eq!(ty("protocol"), DataType::UInt8);
    for (i, f) in schema.fields().iter().enumerate() {
        assert!(f.is_nullable());
        assert_eq!(f.metadata().len(), 1);
        assert_eq!(f.metadata()["comment"], FLOW_COLUMNS[i].2);
    }
    match ty("src_addr") {
        DataType::Struct(children) => {
            assert_eq!(children.len(), 3);
            assert_eq!(children[0].as_ref(), &Field::new("ip_type", DataType::UInt8, false));
            assert_eq!(children[1].name(), "address");
            assert_eq!(children[1].data_type(), &DataType::FixedSizeBinary(16));
            assert!(!children[1].is_nullable());
            assert_eq!(children[1].metadata().len(), 2);
            assert_eq!(children[1].metadata()["ARROW:extension:name"], "arrow.opaque");
            assert_eq!(
                children[1].metadata()["ARROW:extension:metadata"],
                "{\"type_name\":\"hugeint\",\"vendor_name\":\"DuckDB\"}"
            );
            assert_eq!(children[2].as_ref(), &Field::new("mask", DataType::UInt16, false));
        }
        other => panic!("{other:?}"),
    }
    match ty("raw_fields") {
        DataType::Map(entries, sorted) => {
            assert!(!sorted);
            assert_eq!(entries.name(), "entries");
            assert!(!entries.is_nullable());
            match entries.data_type() {
                DataType::Struct(kv) => {
                    assert_eq!(kv[0].as_ref(), &Field::new("key", DataType::Utf8, false));
                    assert_eq!(kv[1].as_ref(), &Field::new("value", DataType::Binary, true));
                }
                other => panic!("{other:?}"),
            }
        }
        other => panic!("{other:?}"),
    }
}

/// A row with every column filled.
fn full_row() -> FlowRecord {
    let mut r = FlowRecord {
        exporter: "r1".into(),
        flow_version: "9".into(),
        obs_domain: 7,
        template_id: Some(256),
        export_time: Some(-5),
        sequence: Some(u64::MAX),
        src_addr: inet4(&[10, 0, 0, 1]),
        dst_addr: inet6(&[0x20, 1, 0xd, 0xb8, 0, 0, 0, 0, 0, 0, 0, 0, 0, 0, 0, 1]),
        src_port: Some(1),
        dst_port: Some(2),
        protocol: Some(3),
        tcp_flags: Some(4),
        bytes: Some(5),
        packets: Some(6),
        flow_start: Some(7),
        flow_end: Some(8),
        src_as: Some(9),
        dst_as: Some(10),
        input_snmp: Some(11),
        output_snmp: Some(12),
        next_hop: inet4(&[1, 2, 3, 4]),
        tos: Some(13),
        src_mask: Some(14),
        dst_mask: Some(15),
        sampling_rate: Some(16),
        direction: Some(1),
        ..Default::default()
    };
    r.put_raw("a".to_string(), vec![1]);
    r.put_raw("b".to_string(), vec![]);
    r.note("truncated");
    r
}

#[test]
fn every_cell_lands_in_its_column() {
    let mut third = FlowRecord::default();
    third.put_raw("c".to_string(), vec![7, 8]);
    let rows = vec![full_row(), FlowRecord::default(), third];
    assert!(rows_fit(&rows));
    let b = rows_to_batch(&rows, &flow_schema()).unwrap().record_batch;
    assert_eq!(b.num_rows(), 3);
    let text = |n: &str| b.column_by_name(n).unwrap().as_string::<i32>().clone();
    let u8s = |n: &str| b.column_by_name(n).unwrap().as_primitive::<UInt8Type>().clone();
    let u16s = |n: &str| b.column_by_name(n).unwrap().as_primitive::<UInt16Type>().clone();
    let u32s = |n: &str| b.column_by_name(n).unwrap().as_primitive::<UInt32Type>().clone();
    let u64s = |n: &str| b.column_by_name(n).unwrap().as_primitive::<UInt64Type>().clone();
    let times = |n: &str| {
        b.column_by_name(n).unwrap().as_primitive::<TimestampMicrosecondType>().clone()
    };
    assert_eq!(text("exporter").value(0), "r1");
    assert_eq!(text("exporter").value(1), "");
    assert_eq!(text("flow_version").value(0), "9");
    assert_eq!(text("diagnostics").value(0), "truncated");
    assert!(text("diagnostics").is_null(1));
    assert_eq!(u32s("obs_domain").value(0), 7);
    assert_eq!(u32s("obs_domain").value(1), 0);
    assert!(!u32s("obs_domain").is_null(1));
    assert_eq!(u64s("sequence").value(0), u64::MAX);
    assert_eq!(times("export_time").value(0), -5);
    assert!(times("export_time").is_null(1));
    for (n, v) in [("template_id", 256), ("src_port", 1), ("dst_port", 2)] {
        assert_eq!(u16s(n).value(0), v);
        assert!(u16s(n).is_null(1));
    }
    for (n, v) in [
        ("protocol", 3),
        ("tcp_flags", 4),
        ("tos", 13),
        ("src_mask", 14),
        ("dst_mask", 15),
        ("direction", 1),
    ] {
        assert_eq!(u8s(n).value(0), v);
        assert!(u8s(n).is_null(1));
    }
    for (n, v) in [("bytes", 5), ("packets", 6)] {
        assert_eq!(u64s(n).value(0), v);
        assert!(u64s(n).is_null(2));
    }
    for (n, v) in [("flow_start", 7), ("flow_end", 8)] {
        assert_eq!(times(n).value(0), v);
        assert!(times(n).is_null(1));
    }
    for (n, v) in [
        ("src_as", 9),
        ("dst_as", 10),
        ("input_snmp", 11),
        ("output_snmp", 12),
        ("sampling_rate", 16),
    ] {
        assert_eq!(u32s(n).value(0), v);
        assert!(u32s(n).is_null(1));
    }
    let addr = |n: &str| b.column_by_name(n).unwrap().as_struct().clone();
    assert!(addr("src_addr").is_null(1));
    assert_eq!(addr("src_addr").column(0).as_primitive::<UInt8Type>().value(0), 1);
    assert_eq!(
        addr("src_addr").column(1).as_fixed_size_binary().value(0),
        &[1, 0, 0, 10, 0, 0, 0, 0, 0, 0, 0, 0, 0, 0, 0, 0]
    );
    assert_eq!(addr("src_addr").column(2).as_primitive::<UInt16Type>().value(0), 32);
    assert_eq!(addr("dst_addr").column(0).as_primitive::<UInt8Type>().value(0), 2);
    assert_eq!(
        addr("dst_addr").column(1).as_fixed_size_binary().value(0),
        &[1, 0, 0, 0, 0, 0, 0, 0, 0, 0, 0, 0, 0xb8, 0xd, 1, 0xa0]
    );
    assert_eq!(addr("dst_addr").column(2).as_primitive::<UInt16Type>().value(0), 128);
    assert_eq!(
        addr("next_hop").column(1).as_fixed_size_binary().value(0)[..4],
        [4, 3, 2, 1]
    );
    let raw = b.column_by_name("raw_fields").unwrap().as_map();
    assert_eq!(raw.value_offsets(), &[0, 2, 2, 3]);
    let keys = raw.keys().as_string::<i32>();
    let values = raw.values().as_binary::<i32>();
    assert_eq!((keys.value(0), values.value(0)), ("a", &[1u8][..]));
    assert_eq!((keys.value(1), values.value(1)), ("b", &[][..]));
    assert_eq!((keys.value(2), values.value(2)), ("c", &[7u8, 8][..]));
}

#[test]
fn no_rows_make_an_empty_batch() {
    let b = rows_to_batch(&[], &flow_schema()).unwrap().record_batch;
    assert_eq!(b.num_rows(), 0);
    assert_eq!(b.num_columns(), 28);
}

#[test]
fn a_schema_that_does_not_fit_is_refused() {
    let f = refusal(rows_to_batch(&[], &one_field(DataType::Utf8)));
    assert!(matches!(f, Fault::Arrow(_)));
    let f = refusal(text_batch(vec![Some("x".to_string())], &one_field(DataType::UInt8)));
    assert!(matches!(f, Fault::Arrow(_)));
    let not_null = Arc::new(Schema::new(vec![Field::new("result", DataType::Utf8, false)]));
    assert!(matches!(refusal(text_batch(vec![None], &not_null)), Fault::Arrow(_)));
    assert!(text_batch(vec![Some("x".to_string())], &not_null).is_ok());
}

/// A batch of datagrams: v5, v9, IPFIX, sFlow, garbage, null.
fn datagrams() -> Vec<Option<Vec<u8>>> {
    vec![
        Some(netflow_v5()),
        Some(netflow_v9_template()),
        Some(ipfix_basic()),
        Some(sflow_basic()),
        Some(vec![0xde, 0xad]),
        None,
    ]
}

fn blobs(v: &[Option<Vec<u8>>]) -> ArrayRef {
    Arc::new(BinaryArray::from_iter(v.iter().map(|o| o.as_deref())))
}

fn large_blobs(v: &[Option<Vec<u8>>]) -> ArrayRef {
    Arc::new(LargeBinaryArray::from_iter(v.iter().map(|o| o.as_deref())))
}

#[test]
fn flow_version_probes_each_row() {
    let want = vec![
        Some("5".to_string()),
        Some("9".to_string()),
        Some("10".to_string()),
        Some("sflow5".to_string()),
        None,
        None,
    ];
    for column in [blobs(&datagrams()), large_blobs(&datagrams())] {
        let got = flow_version::FlowVersion.probe_versions(&batch(vec![("d", column)])).unwrap();
        assert_eq!(got, want);
        assert!(texts_fit(&got));
    }
    let b = text_batch(want, &one_field(flow_version::FlowVersion.return_type())).unwrap().record_batch;
    assert_eq!(b.column(0).as_string::<i32>().value(3), "sflow5");
    assert!(b.column(0).is_null(4));
}

#[test]
fn scalars_refuse_what_is_no_blob() {
    let text: ArrayRef = Arc::new(StringArray::from(vec![None, Some("x")]));
    let b = batch(vec![("d", text)]);
    let want = "expected a BLOB (binary) argument, got Utf8";
    assert_eq!(value_text(refusal(flow_version::FlowVersion.probe_versions(&b))), want);
    assert_eq!(value_text(refusal(well_formed::WellFormed.judge(&b))), want);
    assert_eq!(
        value_text(refusal(header::Header.process(&b, &one_field(header::Header.return_type())))),
        want
    );
    // A column without a value is never looked into.
    let nulls: ArrayRef = Arc::new(StringArray::from(vec![None::<&str>, None]));
    let b = batch(vec![("d", nulls)]);
    assert_eq!(flow_version::FlowVersion.probe_versions(&b).unwrap(), vec![None, None]);
}

#[test]
fn header_reads_each_row() {
    let schema = one_field(header::Header.return_type());
    let b = header::Header.process(&batch(vec![("d", blobs(&datagrams()))]), &schema).unwrap();
    let s = b.record_batch.column(0).as_struct().clone();
    let names: Vec<&str> = s.fields().iter().map(|f| f.name().as_str()).collect();
    assert_eq!(
        names,
        vec!["version", "count", "sys_uptime", "export_time", "sequence", "obs_domain"]
    );
    let version = s.column(0).as_primitive::<UInt16Type>();
    let count = s.column(1).as_primitive::<UInt16Type>();
    let uptime = s.column(2).as_primitive::<UInt32Type>();
    let time = s.column(3).as_primitive::<TimestampMicrosecondType>();
    let sequence = s.column(4).as_primitive::<UInt64Type>();
    let domain = s.column(5).as_primitive::<UInt32Type>();
    assert_eq!((version.value(0), count.value(0), uptime.value(0)), (5, 2, 100_000));
    assert_eq!(time.value(0), 1_700_000_000_000_000);
    assert_eq!(time.timezone(), Some("UTC"));
    assert_eq!((version.value(2), sequence.value(2), domain.value(2)), (10, 7, 42));
    assert!(count.is_null(2) && uptime.is_null(2));
    assert_eq!((version.value(3), sequence.value(3), domain.value(3)), (5, 1, 0));
    assert!(count.is_null(3) && uptime.is_null(3) && time.is_null(3));
    assert!(!s.is_null(0) && s.is_null(4) && s.is_null(5));
    let f = refusal(header::Header.process(
        &batch(vec![("d", blobs(&datagrams()))]),
        &one_field(DataType::Utf8),
    ));
    assert!(matches!(f, Fault::Arrow(_)));
}

#[test]
fn well_formed_judges_each_row() {
    let vs = well_formed::WellFormed.judge(&batch(vec![("d", blobs(&datagrams()))])).unwrap();
    assert!(well_formed::verdicts_fit(&vs));
    let schema = one_field(well_formed::WellFormed.return_type());
    let b = well_formed::verdict_batch(&vs, &schema).unwrap().record_batch;
    let s = b.column(0).as_struct();
    let ok: &BooleanArray = s.column(0).as_boolean();
    assert!(ok.value(0) && ok.value(1) && ok.value(2) && ok.value(3) && !ok.value(4));
    assert_eq!(s.column(1).as_string::<i32>().value(0), "5");
    assert!(s.column(1).is_null(4));
    assert_eq!(
        s.column(2).as_string::<i32>().value(4),
        "leading bytes match no known flow header"
    );
    assert!(s.column(2).is_null(0));
    assert_eq!(s.column(3).as_string::<i32>().value(4), "not-a-flow-datagram");
    assert!(!s.is_null(4) && s.is_null(5));
}

#[test]
fn netflow_version_fills_every_row() {
    let options = RecordBatchOptions::new().with_row_count(Some(3));
    let empty = RecordBatch::try_new_with_options(
        Arc::new(Schema::empty()),
        Vec::new(),
        &options,
    )
    .unwrap();
    let empty = Batch { record_batch: empty };
    assert!(!has_argument(&empty));
    assert!(has_argument(&batch(vec![("d", blobs(&[]))])));
    let v = version::NetflowVersion.build_versions(&empty);
    assert_eq!(v, vec![Some("0.1.0".to_string()); 3]);
}

#[test]
fn columns_are_found_by_name_whatever_the_case() {
    assert!(same_ignoring_case("DataGram", "datagram"));
    assert!(!same_ignoring_case("datagram", "datagrams"));
    assert!(!same_ignoring_case("É", "é"));
    let f = |n: &str, t: DataType| Field::new(n, t, true);
    let s = Schema::new(vec![
        f("x", DataType::Binary),
        f("BLOB", DataType::Utf8),
        f("Content", DataType::Utf8),
        f("exporter", DataType::Utf8),
        f("EXPORTER", DataType::Utf8),
    ]);
    assert_eq!(find_datagram_col(&s).unwrap(), 2);
    assert_eq!(find_named_col(&s, "Exporter"), Some(3));
    assert_eq!(find_named_col(&s, "mode"), None);
    let s = Schema::new(vec![f("a", DataType::Utf8), f("b", DataType::LargeBinary)]);
    assert_eq!(find_datagram_col(&s).unwrap(), 1);
    let s = Schema::new(vec![f("a", DataType::Utf8), f("datagram", DataType::Utf8)]);
    assert_eq!(find_datagram_col(&s).unwrap(), 1);
    let s = Schema::new(vec![f("a", DataType::Utf8)]);
    assert_eq!(
        value_text(refusal(find_datagram_col(&s))),
        "input relation must carry a `datagram` BLOB column of captured flow datagrams"
    );
}

#[test]
fn bind_checks_the_relation() {
    let d = FlowDecode::new("ipfix_decode", Restrict::IpfixOnly);
    assert_eq!(
        value_text(refusal(d.bind(None))),
        "ipfix_decode: requires an input relation"
    );
    let none = Schema::new(vec![Field::new("a", DataType::Utf8, true)]);
    assert_eq!(
        value_text(refusal(d.bind(Some(&none)))),
        "input relation must carry a `datagram` BLOB column of captured flow datagrams"
    );
    let some = Schema::new(vec![Field::new("datagram", DataType::Binary, true)]);
    assert_eq!(d.bind(Some(&some)).unwrap(), flow_schema());
}

#[test]
fn low_words_wrap() {
    assert_eq!(low_word(0), 0);
    assert_eq!(low_word(-1), u32::MAX);
    assert_eq!(low_word(0x1_0000_0001), 1);
    assert_eq!(low_word(-0x1_0000_0000), 0);
    assert_eq!(low_word(i64::MIN as i128), 0);
}

#[test]
fn optional_columns_are_read_per_row() {
    let d = FlowDecode::flows();
    let grams = vec![Some(netflow_v9_combined()), None, Some(netflow_v9_combined())];
    let exporters: ArrayRef = Arc::new(StringArray::from(vec![Some("r1"), Some("r2"), None]));
    let big: ArrayRef = Arc::new(LargeStringArray::from(vec![Some("r1"), Some("r2"), None]));
    let domains: Vec<ArrayRef> = vec![
        Arc::new(UInt64Array::from(vec![Some(0x1_0000_0005), None, None])),
        Arc::new(UInt32Array::from(vec![Some(5), None, None])),
        Arc::new(UInt16Array::from(vec![Some(5), None, None])),
        Arc::new(UInt8Array::from(vec![Some(5), None, None])),
        Arc::new(Int64Array::from(vec![Some(0x1_0000_0005), None, None])),
        Arc::new(Int32Array::from(vec![Some(5), None, None])),
        Arc::new(Int16Array::from(vec![Some(5), None, None])),
        Arc::new(Int8Array::from(vec![Some(5), None, None])),
    ];
    for e in [exporters, big] {
        for o in &domains {
            let b = batch(vec![
                ("Datagram", blobs(&grams)),
                ("Exporter", e.clone()),
                ("OBS_DOMAIN", o.clone()),
            ]);
            let mut cache = TemplateCache::new();
            let rows = d.decode_batch(&b, 9, &mut cache).unwrap();
            assert_eq!(rows.len(), 2);
            assert_eq!((rows[0].exporter.as_str(), rows[0].obs_domain), ("r1", 5));
            assert_eq!((rows[1].exporter.as_str(), rows[1].obs_domain), ("", 1));
            assert_eq!(cache.entry_count(), 2);
        }
    }
    // A negative domain keeps its low bits; one that is no integer is passed over.
    let negative: ArrayRef = Arc::new(Int8Array::from(vec![-1]));
    let text: ArrayRef = Arc::new(StringArray::from(vec!["7"]));
    let one = vec![Some(netflow_v9_combined())];
    let mut cache = TemplateCache::new();
    let b = batch(vec![("datagram", blobs(&one)), ("obs_domain", negative.clone())]);
    assert_eq!(d.decode_batch(&b, 0, &mut cache).unwrap()[0].obs_domain, u32::MAX);
    let b = batch(vec![("datagram", blobs(&one)), ("obs_domain", text)]);
    assert_eq!(d.decode_batch(&b, 0, &mut cache).unwrap()[0].obs_domain, 1);
    // The stateless decoder does not read it.
    let s = FlowDecode::new("sflow_decode", Restrict::SflowOnly);
    let sflow = vec![Some(sflow_basic())];
    let b = batch(vec![("datagram", blobs(&sflow)), ("obs_domain", negative)]);
    let rows = s.decode_batch(&b, 0, &mut cache).unwrap();
    assert_eq!((rows.len(), rows[0].obs_domain), (2, 0));
}

#[test]
fn only_the_unified_decoder_reads_the_mode() {
    let grams = vec![Some(sflow_basic())];
    let mode: ArrayRef = Arc::new(StringArray::from(vec!["flows-only"]));
    let b = batch(vec![("datagram", blobs(&grams)), ("mode", mode)]);
    let mut cache = TemplateCache::new();
    assert_eq!(FlowDecode::flows().decode_batch(&b, 0, &mut cache).unwrap().len(), 1);
    let s = FlowDecode::new("sflow_decode", Restrict::SflowOnly);
    assert_eq!(s.decode_batch(&b, 0, &mut cache).unwrap().len(), 2);
}

#[test]
fn a_batch_without_blobs_is_refused_and_changes_nothing() {
    let d = FlowDecode::flows();
    let mut cache = TemplateCache::new();
    let text: ArrayRef = Arc::new(StringArray::from(vec![None, Some("x")]));
    let f = refusal(d.decode_batch(&batch(vec![("datagram", text.clone())]), 0, &mut cache));
    assert_eq!(value_text(f), "expected a BLOB (binary) argument, got Utf8");
    let f = refusal(d.decode_batch(&batch(vec![("other", text)]), 0, &mut cache));
    assert_eq!(
        value_text(f),
        "input relation must carry a `datagram` BLOB column of captured flow datagrams"
    );
    assert_eq!(cache.entry_count(), 0);
    assert!(cache.pending_is_empty());
}

#[test]
fn batches_may_be_split_anywhere() {
    let d = FlowDecode::flows();
    let grams = vec![
        Some(netflow_v9_data()),
        Some(netflow_v9_template()),
        None,
        Some(netflow_v9_data()),
        Some(netflow_v5()),
    ];
    let mut whole = TemplateCache::new();
    let all = d.decode_batch(&batch(vec![("datagram", blobs(&grams))]), 1, &mut whole).unwrap();
    for cut in 0..=grams.len() {
        let mut cache = TemplateCache::new();
        let mut rows = Vec::new();
        for part in [&grams[..cut], &grams[cut..]] {
            let b = batch(vec![("datagram", blobs(part))]);
            rows.extend(d.decode_batch(&b, 1, &mut cache).unwrap());
            cache = TemplateCache::from_dto(cache.to_dto()).unwrap();
        }
        assert_eq!(rows, all);
        assert_eq!(cache.to_dto(), whole.to_dto());
    }
}

#[test]
fn the_end_of_a_scan_gives_up_what_is_buffered() {
    let d = FlowDecode::flows();
    let grams = vec![Some(netflow_v9_data()), Some(netflow_v9_data())];
    let mut cache = TemplateCache::new();
    let b = batch(vec![("datagram", blobs(&grams))]);
    assert_eq!(d.decode_batch(&b, 1, &mut cache).unwrap().len(), 0);
    let rows = flush_pending(&mut cache);
    assert_eq!(rows.len(), 2);
    assert_eq!(rows[0].diagnostics.as_deref(), Some("missing-template:1/256"));
    let out = closing_batches(&rows, &flow_schema()).unwrap();
    assert_eq!(out.len(), 1);
    assert_eq!(out[0].record_batch.num_rows(), 2);
    let rows = flush_pending(&mut cache);
    assert_eq!(closing_batches(&rows, &flow_schema()).unwrap().len(), 0);
    assert_eq!(closing_batches(&rows, &one_field(DataType::Utf8)).unwrap().len(), 0);
}

fn listing_cache() -> TemplateCache {
    let field = |id: u16, pen: u32, name: &str, ty: &str| FieldSpec {
        ie_id: id,
        enterprise_number: pen,
        length: 4,
        name: name.to_string(),
        ie_type: ty.to_string(),
    };
    let key = |e: &str, id: u16| TemplateKey {
        exporter: e.to_string(),
        obs_domain: 3,
        template_id: id,
    };
    let mut c = TemplateCache::new();
    c.upsert(
        key("b", 256),
        TemplateEntry {
            kind: TemplateKind::Data,
            fields: vec![
                field(8, 0, "sourceIPv4Address", "ipv4Address"),
                field(1, 9, "e9id1", "octetArray"),
            ],
            scope_field_count: 0,
            first_seen: 10,
            last_seen: 20,
            use_count: 30,
        },
    );
    c.upsert(
        key("a", 257),
        TemplateEntry {
            kind: TemplateKind::Options,
            fields: vec![field(34, 0, "samplingInterval", "unsigned32")],
            scope_field_count: 1,
            first_seen: 11,
            last_seen: 21,
            use_count: 31,
        },
    );
    c
}

#[test]
fn templates_are_listed_in_key_order() {
    let cache = listing_cache();
    assert!(templates_fit(&cache, &None));
    let b = templates_batch(&cache, &None, &output_schema()).unwrap().record_batch;
    assert_eq!(b.num_rows(), 2);
    let exporter = b.column(0).as_string::<i32>();
    assert_eq!((exporter.value(0), exporter.value(1)), ("a", "b"));
    assert_eq!(b.column(1).as_primitive::<UInt32Type>().value(1), 3);
    assert_eq!(b.column(2).as_primitive::<UInt16Type>().value(0), 257);
    let kind = b.column(3).as_string::<i32>();
    assert_eq!((kind.value(0), kind.value(1)), ("options", "data"));
    assert_eq!(b.column(4).as_primitive::<UInt32Type>().value(1), 2);
    let fields = b.column(5).as_list::<i32>();
    assert_eq!(fields.value_offsets(), &[0, 1, 3]);
    let items = fields.values().as_struct();
    assert_eq!(items.column(0).as_primitive::<UInt16Type>().values(), &[34, 8, 1]);
    assert_eq!(items.column(1).as_primitive::<UInt32Type>().values(), &[0, 0, 9]);
    assert_eq!(items.column(2).as_primitive::<UInt16Type>().values(), &[4, 4, 4]);
    assert_eq!(items.column(3).as_string::<i32>().value(1), "sourceIPv4Address");
    assert_eq!(items.column(4).as_string::<i32>().value(0), "unsigned32");
    assert_eq!(b.column(6).as_primitive::<UInt16Type>().values(), &[1, 0]);
    assert_eq!(b.column(7).as_primitive::<TimestampMicrosecondType>().values(), &[11, 10]);
    assert_eq!(b.column(8).as_primitive::<TimestampMicrosecondType>().values(), &[21, 20]);
    assert_eq!(b.column(9).as_primitive::<UInt64Type>().values(), &[31, 30]);
    let names: Vec<String> = b.schema().fields().iter().map(|f| f.name().clone()).collect();
    assert_eq!(
        names,
        vec![
            "exporter",
            "obs_domain",
            "template_id",
            "kind",
            "field_count",
            "fields",
            "scope_field_count",
            "first_seen",
            "last_seen",
            "use_count",
        ]
    );
}

#[test]
fn the_listing_comes_once_and_can_be_filtered() {
    let filter = Some("b".to_string());
    let mut p = TemplatesProducer::new(output_schema(), listing_cache(), filter);
    let b = p.next_batch().unwrap().unwrap().record_batch;
    assert_eq!(b.num_rows(), 1);
    assert_eq!(b.column(0).as_string::<i32>().value(0), "b");
    assert!(p.next_batch().unwrap().is_none());
    let nobody = Some("nobody".to_string());
    let mut p = TemplatesProducer::new(output_schema(), listing_cache(), nobody);
    assert_eq!(p.next_batch().unwrap().unwrap().record_batch.num_rows(), 0);
    let mut p = TemplatesProducer::new(one_field(DataType::Utf8), listing_cache(), None);
    assert!(matches!(refusal(p.next_batch()), Fault::Arrow(_)));
    assert!(p.next_batch().unwrap().is_none());
}

#[test]
fn merging_caches_keeps_every_layout() {
    let mut global = TemplateCache::new();
    let none = TemplateCache::new();
    global.merge_templates(&listing_cache(), &none);
    global.merge_templates(&none, &none);
    assert_eq!(global.entry_count(), 2);
    assert_eq!(global.to_dto().entries, listing_cache().to_dto().entries);
    // The next batch of the same scan adds what it decoded, and no more.
    let before = listing_cache();
    let mut scan = listing_cache();
    let (k, e) = before.to_dto().entries.remove(0);
    scan.count_records(&k, 99, 5);
    global.merge_templates(&scan, &before);
    let seen = global.peek(&k).unwrap();
    assert_eq!((seen.use_count, seen.last_seen), (e.use_count + 5, 99));
    assert_eq!(seen.first_seen, e.first_seen);
    // Another scan counts from the start.
    global.merge_templates(&scan, &none);
    let again = global.peek(&k).unwrap().use_count;
    assert_eq!(again, (e.use_count + 5) * 2);
}
