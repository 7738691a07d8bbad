//! Curated snapshot of the IANA "IPFIX Information Elements" registry
//! (<https://www.iana.org/assignments/ipfix/ipfix.xhtml>, RFC 7012).
//!
//! Maps an IPFIX / NetFlow-v9 Information-Element id to its `(name, abstract
//! data type)`. NetFlow v9 field types share the IANA id space with IPFIX, so a
//! single table serves both decoders. It holds the elements that drive the
//! normalized schema, plus the common observability elements; unmapped ids fall
//! through to `id<n>` naming with the raw bytes preserved in `raw_fields`.

use vstd::prelude::*;

verus! {

/// The abstract data type of an Information Element (RFC 7012 §3.1), reduced to
/// the families needed to render and normalize a value.
#[derive(Clone, Copy, Debug, PartialEq, Eq, Structural)]
pub enum IeType {
    Unsigned8,
    Unsigned16,
    Unsigned32,
    Unsigned64,
    Signed32,
    Signed64,
    Float64,
    Boolean,
    MacAddress,
    Ipv4Address,
    Ipv6Address,
    /// `dateTimeSeconds`: 4-byte seconds since the Unix epoch.
    DateTimeSeconds,
    /// `dateTimeMilliseconds`: 8-byte milliseconds since the Unix epoch.
    DateTimeMilliseconds,
    /// `dateTimeMicroseconds`: NTP-style 8-byte (seconds, fraction).
    DateTimeMicroseconds,
    /// `dateTimeNanoseconds`: NTP-style 8-byte (seconds, fraction).
    DateTimeNanoseconds,
    String,
    OctetArray,
}

/// A single registry row.
#[derive(Clone, Copy, Debug)]
pub struct IeDef {
    pub id: u16,
    pub name: &'static str,
    pub ty: IeType,
}

/// The first row with an id.
pub open spec fn row_with(rows: Seq<(u16, &'static str, IeType)>, id: u16) -> Option<IeDef>
    decreases rows.len(),
{
    if rows.len() == 0 {
        None
    } else if rows[0].0 == id {
        Some(IeDef { id, name: rows[0].1, ty: rows[0].2 })
    } else {
        row_with(rows.drop_first(), id)
    }
}

/// The first row with an id.
pub fn find_row(rows: &[(u16, &'static str, IeType)], id: u16) -> (r: Option<IeDef>)
    ensures
        r == row_with(rows@, id),
{
    let mut i: usize = 0;
    assert(rows@.skip(0) =~= rows@);
    while i < rows.len()
        invariant
            i <= rows@.len(),
            row_with(rows@, id) == row_with(rows@.skip(i as int), id),
        decreases rows.len() - i,
    {
        let (row_id, name, ty) = rows[i];
        if row_id == id {
            return Some(IeDef { id, name, ty });
        }
        assert(rows@.skip(i as int).drop_first() =~= rows@.skip(i + 1));
        i = i + 1;
    }
    None
}

/// Look up a standard (enterprise_number == 0) Information Element by id.
pub fn lookup(id: u16) -> (r: Option<IeDef>)
    ensures
        r == row_with(REGISTRY@, id),
{
    find_row(&REGISTRY, id)
}

/// The rows are in strictly ascending id order, so no id occurs twice.
pub proof fn lemma_registry_ascending(i: int, j: int)
    requires
        0 <= i < j < REGISTRY@.len(),
    ensures
        REGISTRY@[i].0 < REGISTRY@[j].0,
{
}

/// The registry: id, name and type, in id order.
pub const REGISTRY: [(u16, &'static str, IeType); 117] = [
    (1, "octetDeltaCount", IeType::Unsigned64),
    (2, "packetDeltaCount", IeType::Unsigned64),
    (3, "deltaFlowCount", IeType::Unsigned64),
    (4, "protocolIdentifier", IeType::Unsigned8),
    (5, "ipClassOfService", IeType::Unsigned8),
    (6, "tcpControlBits", IeType::Unsigned16),
    (7, "sourceTransportPort", IeType::Unsigned16),
    (8, "sourceIPv4Address", IeType::Ipv4Address),
    (9, "sourceIPv4PrefixLength", IeType::Unsigned8),
    (10, "ingressInterface", IeType::Unsigned32),
    (11, "destinationTransportPort", IeType::Unsigned16),
    (12, "destinationIPv4Address", IeType::Ipv4Address),
    (13, "destinationIPv4PrefixLength", IeType::Unsigned8),
    (14, "egressInterface", IeType::Unsigned32),
    (15, "ipNextHopIPv4Address", IeType::Ipv4Address),
    (16, "bgpSourceAsNumber", IeType::Unsigned32),
    (17, "bgpDestinationAsNumber", IeType::Unsigned32),
    (18, "bgpNextHopIPv4Address", IeType::Ipv4Address),
    (21, "flowEndSysUpTime", IeType::Unsigned32),
    (22, "flowStartSysUpTime", IeType::Unsigned32),
    (23, "postOctetDeltaCount", IeType::Unsigned64),
    (24, "postPacketDeltaCount", IeType::Unsigned64),
    (27, "sourceIPv6Address", IeType::Ipv6Address),
    (28, "destinationIPv6Address", IeType::Ipv6Address),
    (29, "sourceIPv6PrefixLength", IeType::Unsigned8),
    (30, "destinationIPv6PrefixLength", IeType::Unsigned8),
    (31, "flowLabelIPv6", IeType::Unsigned32),
    (32, "icmpTypeCodeIPv4", IeType::Unsigned16),
    (33, "igmpType", IeType::Unsigned8),
    (34, "samplingInterval", IeType::Unsigned32),
    (35, "samplingAlgorithm", IeType::Unsigned8),
    (36, "flowActiveTimeout", IeType::Unsigned16),
    (37, "flowIdleTimeout", IeType::Unsigned16),
    (40, "exportedOctetTotalCount", IeType::Unsigned64),
    (41, "exportedMessageTotalCount", IeType::Unsigned64),
    (42, "exportedFlowRecordTotalCount", IeType::Unsigned64),
    (52, "minimumTTL", IeType::Unsigned8),
    (53, "maximumTTL", IeType::Unsigned8),
    (56, "sourceMacAddress", IeType::MacAddress),
    (57, "postDestinationMacAddress", IeType::MacAddress),
    (58, "vlanId", IeType::Unsigned16),
    (59, "postVlanId", IeType::Unsigned16),
    (60, "ipVersion", IeType::Unsigned8),
    (61, "flowDirection", IeType::Unsigned8),
    (62, "ipNextHopIPv6Address", IeType::Ipv6Address),
    (63, "bgpNextHopIPv6Address", IeType::Ipv6Address),
    (70, "mplsTopLabelStackSection", IeType::OctetArray),
    (80, "destinationMacAddress", IeType::MacAddress),
    (81, "postSourceMacAddress", IeType::MacAddress),
    (82, "interfaceName", IeType::String),
    (83, "interfaceDescription", IeType::String),
    (85, "octetTotalCount", IeType::Unsigned64),
    (86, "packetTotalCount", IeType::Unsigned64),
    (88, "fragmentOffset", IeType::Unsigned16),
    (89, "forwardingStatus", IeType::Unsigned8),
    (128, "bgpNextAdjacentAsNumber", IeType::Unsigned32),
    (129, "bgpPrevAdjacentAsNumber", IeType::Unsigned32),
    (130, "exporterIPv4Address", IeType::Ipv4Address),
    (131, "exporterIPv6Address", IeType::Ipv6Address),
    (136, "flowEndReason", IeType::Unsigned8),
    (139, "icmpTypeCodeIPv6", IeType::Unsigned16),
    (144, "exportingProcessId", IeType::Unsigned32),
    (145, "templateId", IeType::Unsigned16),
    (148, "flowId", IeType::Unsigned64),
    (150, "flowStartSeconds", IeType::DateTimeSeconds),
    (151, "flowEndSeconds", IeType::DateTimeSeconds),
    (152, "flowStartMilliseconds", IeType::DateTimeMilliseconds),
    (153, "flowEndMilliseconds", IeType::DateTimeMilliseconds),
    (154, "flowStartMicroseconds", IeType::DateTimeMicroseconds),
    (155, "flowEndMicroseconds", IeType::DateTimeMicroseconds),
    (156, "flowStartNanoseconds", IeType::DateTimeNanoseconds),
    (157, "flowEndNanoseconds", IeType::DateTimeNanoseconds),
    (160, "systemInitTimeMilliseconds", IeType::DateTimeMilliseconds),
    (161, "flowDurationMilliseconds", IeType::Unsigned32),
    (176, "icmpTypeIPv4", IeType::Unsigned8),
    (177, "icmpCodeIPv4", IeType::Unsigned8),
    (178, "icmpTypeIPv6", IeType::Unsigned8),
    (179, "icmpCodeIPv6", IeType::Unsigned8),
    (180, "udpSourcePort", IeType::Unsigned16),
    (181, "udpDestinationPort", IeType::Unsigned16),
    (182, "tcpSourcePort", IeType::Unsigned16),
    (183, "tcpDestinationPort", IeType::Unsigned16),
    (184, "tcpSequenceNumber", IeType::Unsigned32),
    (185, "tcpAcknowledgementNumber", IeType::Unsigned32),
    (186, "tcpWindowSize", IeType::Unsigned16),
    (187, "tcpUrgentPointer", IeType::Unsigned16),
    (189, "ipHeaderLength", IeType::Unsigned8),
    (192, "ipTTL", IeType::Unsigned8),
    (195, "ipDiffServCodePoint", IeType::Unsigned8),
    (205, "udpMessageLength", IeType::Unsigned16),
    (206, "isMulticast", IeType::Unsigned8),
    (224, "ipTotalLength", IeType::Unsigned64),
    (225, "postNATSourceIPv4Address", IeType::Ipv4Address),
    (226, "postNATDestinationIPv4Address", IeType::Ipv4Address),
    (227, "postNAPTSourceTransportPort", IeType::Unsigned16),
    (228, "postNAPTDestinationTransportPort", IeType::Unsigned16),
    (230, "natEvent", IeType::Unsigned8),
    (233, "firewallEvent", IeType::Unsigned8),
    (234, "ingressVRFID", IeType::Unsigned32),
    (235, "egressVRFID", IeType::Unsigned32),
    (243, "dot1qVlanId", IeType::Unsigned16),
    (244, "dot1qPriority", IeType::Unsigned8),
    (245, "dot1qCustomerVlanId", IeType::Unsigned16),
    (256, "ethernetType", IeType::Unsigned16),
    (277, "observationPointId", IeType::Unsigned64),
    (300, "observationDomainName", IeType::String),
    (302, "selectorId", IeType::Unsigned64),
    (305, "samplingPacketInterval", IeType::Unsigned32),
    (306, "samplingPacketSpace", IeType::Unsigned32),
    (309, "samplingSize", IeType::Unsigned32),
    (318, "selectorIdTotalFlowsObserved", IeType::Unsigned64),
    (322, "observationTimeSeconds", IeType::DateTimeSeconds),
    (323, "observationTimeMilliseconds", IeType::DateTimeMilliseconds),
    (324, "observationTimeMicroseconds", IeType::DateTimeMicroseconds),
    (325, "observationTimeNanoseconds", IeType::DateTimeNanoseconds),
    (351, "layer2OctetDeltaCount", IeType::Unsigned64),
    (352, "layer2OctetTotalCount", IeType::Unsigned64),
];

} // verus!
