//! The byte cursor, the template cache, the registries and the address encoding.

use netflow_core::buf::Cursor;
use netflow_core::cache::{
    FieldSpec, PendingRecord, TemplateCache, TemplateEntry, TemplateKey, TemplateKind,
};
use netflow_core::decode::header::probe_version;
use netflow_core::fixtures::{ipfix_basic, netflow_v5, netflow_v9_template, sflow_basic};
use netflow_core::inet::{encode_ip, inet4, IpAddr};
use netflow_core::registry::enterprise::{self, PEN_VMWARE};
use netflow_core::registry::iana_ie::{lookup, REGISTRY};
use netflow_core::registry::IeType;
use netflow_core::wellformed::well_formed;

#[test]
fn reads_and_bounds() {
    let mut c = Cursor::new(&[0x00, 0x09, 0xff, 0xff]);
    assert_eq!(c.u16(), Some(9));
    assert_eq!(c.u16(), Some(0xffff));
    assert_eq!(c.u16(), None);
    assert!(c.is_empty());
}

#[test]
fn oversized_take_never_panics() {
    let mut c = Cursor::new(&[1, 2, 3]);
    assert_eq!(c.take(4_000_000_000), None);
    assert_eq!(c.remaining(), 3);
}

fn key(exp: &str, dom: u32, tid: u16) -> TemplateKey {
    TemplateKey {
        exporter: exp.to_string(),
        obs_domain: dom,
        template_id: tid,
    }
}

fn entry(now: i64) -> TemplateEntry {
    TemplateEntry {
        kind: TemplateKind::Data,
        fields: vec![FieldSpec {
            ie_id: 8,
            enterprise_number: 0,
            length: 4,
            name: "sourceIPv4Address".to_string(),
            ie_type: "ipv4Address".to_string(),
        }],
        scope_field_count: 0,
        first_seen: now,
        last_seen: now,
        use_count: 0,
    }
}

#[test]
fn serde_round_trips_losslessly() {
    let mut c = TemplateCache::new();
    c.upsert(key("r1", 0, 256), entry(100));
    c.push_pending(
        key("r1", 0, 300),
        PendingRecord {
            export_time: Some(123),
            sequence: Some(9),
            version: "9".to_string(),
            sys_uptime_ms: Some(1000),
            bytes: vec![1, 2, 3, 4],
        },
    );
    let back = TemplateCache::from_dto(c.to_dto()).unwrap();
    assert_eq!(c.entries, back.entries);
    assert_eq!(c.pending, back.pending);
}

#[test]
fn two_exporters_do_not_collide_on_template_256() {
    let mut c = TemplateCache::new();
    let mut e1 = entry(1);
    e1.fields[0].ie_id = 8;
    let mut e2 = entry(2);
    e2.fields[0].ie_id = 27; // different layout, same template id
    c.upsert(key("routerA", 0, 256), e1);
    c.upsert(key("routerB", 0, 256), e2);
    assert_eq!(c.peek(&key("routerA", 0, 256)).unwrap().fields[0].ie_id, 8);
    assert_eq!(c.peek(&key("routerB", 0, 256)).unwrap().fields[0].ie_id, 27);
}

#[test]
fn redefinition_replaces_layout_keeps_first_seen() {
    let mut c = TemplateCache::new();
    c.upsert(key("r", 0, 256), entry(100));
    let mut redef = entry(200);
    redef.fields[0].ie_id = 12;
    c.upsert(key("r", 0, 256), redef);
    let got = c.peek(&key("r", 0, 256)).unwrap();
    assert_eq!(got.fields[0].ie_id, 12);
    assert_eq!(
        got.first_seen, 100,
        "first_seen preserved across redefinition"
    );
}

#[test]
fn pending_buffer_is_bounded() {
    let mut c = TemplateCache::new();
    c.cap_pending_bytes = 8;
    let pr = || PendingRecord {
        export_time: None,
        sequence: None,
        version: "9".to_string(),
        sys_uptime_ms: None,
        bytes: vec![0; 6],
    };
    assert!(c.push_pending(key("r", 0, 1), pr()));
    // Second push would exceed the 8-byte cap → refused.
    assert!(!c.push_pending(key("r", 0, 1), pr()));
}

#[test]
fn lru_eviction_drops_oldest() {
    let mut c = TemplateCache::new();
    c.cap_entries = 2;
    c.upsert(key("r", 0, 1), entry(10));
    c.upsert(key("r", 0, 2), entry(20));
    c.upsert(key("r", 0, 3), entry(30)); // evicts the oldest (last_seen=10)
    assert!(c.peek(&key("r", 0, 1)).is_none());
    assert!(c.peek(&key("r", 0, 2)).is_some());
    assert!(c.peek(&key("r", 0, 3)).is_some());
}

#[test]
fn probe_distinguishes_formats() {
    assert_eq!(probe_version(&[0x00, 0x05]), Some("5"));
    assert_eq!(probe_version(&[0x00, 0x09]), Some("9"));
    assert_eq!(probe_version(&[0x00, 0x0a]), Some("10"));
    // sFlow: version u32 == 5, agent type IPv4.
    assert_eq!(probe_version(&[0, 0, 0, 5, 0, 0, 0, 1]), Some("sflow5"));
    assert_eq!(probe_version(&[0xde, 0xad]), None);
    assert_eq!(probe_version(&[]), None);
}

#[test]
fn fixtures_have_recognizable_headers() {
    assert_eq!(&netflow_v5()[0..2], &[0, 5]);
    assert_eq!(&netflow_v9_template()[0..2], &[0, 9]);
    assert_eq!(&ipfix_basic()[0..2], &[0, 10]);
    assert_eq!(&sflow_basic()[0..4], &[0, 0, 0, 5]);
}

#[test]
fn ipv4_round_trips() {
    let v = inet4(&[203, 0, 113, 5]).unwrap();
    assert_eq!(v.ip_type, 1);
    assert_eq!(v.mask, 32);
    assert_eq!(i128::from_le_bytes(v.address_le), 0xCB00_7105);
    assert_eq!(v.to_ip_string(), "203.0.113.5");
}

#[test]
fn ipv6_sign_bit_flipped_round_trips() {
    // 2001:db8::1
    let v = encode_ip(IpAddr::V6([
        0x20, 0x01, 0x0d, 0xb8, 0, 0, 0, 0, 0, 0, 0, 0, 0, 0, 0, 1,
    ]));
    assert_eq!(v.ip_type, 2);
    assert_eq!(v.address_le[15], 0xa0); // 0x20 ^ 0x80
    assert_eq!(v.to_ip_string(), "2001:db8::1");
}

#[test]
fn vmware_known_pen() {
    assert!(enterprise::lookup(PEN_VMWARE, 881).is_some());
    assert!(enterprise::lookup(99999, 881).is_none());
}

#[test]
fn ids_are_unique_and_sorted() {
    for w in REGISTRY.windows(2) {
        assert!(w[0].0 < w[1].0, "registry must be strictly id-ordered");
    }
}

#[test]
fn key_normalization_ies_present() {
    for id in [1u16, 2, 4, 7, 8, 11, 12, 152, 153] {
        assert!(lookup(id).is_some(), "IE {id} should be present");
    }
    assert_eq!(lookup(8).unwrap().name, "sourceIPv4Address");
    assert_eq!(lookup(8).unwrap().ty, IeType::Ipv4Address);
}

#[test]
fn garbage_is_not_a_flow_datagram() {
    let r = well_formed(&[0xde, 0xad, 0xbe, 0xef]);
    assert!(!r.ok);
    assert_eq!(r.kind.as_deref(), Some("not-a-flow-datagram"));
}

#[test]
fn truncated_v9_header() {
    let r = well_formed(&[0x00, 0x09, 0x00]);
    assert_eq!(r.kind.as_deref(), Some("truncated"));
}
