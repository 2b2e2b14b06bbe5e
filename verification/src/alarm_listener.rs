//! Alarm reception: RTA-PDU framing over layer 2 (EtherType 0x8892, frame ids
//! 0xFC01 high and 0xFE01 low), the sequence rules of the acyclic transport,
//! and the listener that turns received frames into acknowledgments and
//! notifications. The listener decides; a caller owns the socket and the clock.

use vstd::prelude::*;
use vstd::slice::*;
use vstd::string::*;
use std::collections::VecDeque;
use crate::alarms::{parse_alarm_notification, AlarmNotification};
use crate::bytes::{
    be16, be16_at, be16_of_read, be32, be32_at, bytes_eq, contents, push_all, push_be16, push_be32,
    read_be16, zeros,
};
use crate::util::{eth_type_offset, eth_type_offset_bounds, skip_vlan_tags};

pub use crate::rt::{ETHERTYPE_PROFINET, FRAME_ID_ALARM_HIGH, FRAME_ID_ALARM_LOW};

verus! {

/// UDP port for alarm reception.
pub const ALARM_UDP_PORT: u16 = 34964;

/// RTA AddFlags: window size in bits 0-3.
pub const ADD_FLAGS_WINDOW_1: u8 = 0x01;

/// RTA AddFlags: TACK, "transport-acknowledge this PDU", bit 4.
pub const ADD_FLAGS_TACK: u8 = 0x10;

/// RTA sequence numbers start at 0xFFFF and wrap modulo 0x8000 once
/// acknowledged.
pub const SEQ_NUM_INIT: u16 = 0xFFFF;

/// Initial value of the "previous" counters.
pub const SEQ_NUM_INIT_O: u16 = 0xFFFE;

/// Mask applied after every increment.
pub const SEQ_NUM_MASK: u16 = 0x7FFF;

/// 802.1Q priority tag for high-priority alarm frames: priority 6, VID 0.
pub const VLAN_TAG_ALARM_HIGH: [u8; 4] = [0x81, 0x00, 0xC0, 0x00];

/// 802.1Q priority tag for low-priority alarm frames: priority 5, VID 0.
pub const VLAN_TAG_ALARM_LOW: [u8; 4] = [0x81, 0x00, 0xA0, 0x00];

/// RTA-PDU header (12 bytes, big-endian).
#[derive(Debug, Clone, Copy, PartialEq, Eq, Structural, Default)]
pub struct RtaHeader {
    pub alarm_dst_endpoint: u16,
    pub alarm_src_endpoint: u16,
    /// Version in the high nibble, type in the low one.
    pub pdu_type: u8,
    pub add_flags: u8,
    pub send_seq_num: u16,
    pub ack_seq_num: u16,
    pub var_part_len: u16,
}

/// The header that stands at the start of `data`.
pub open spec fn rta_header_at(data: Seq<u8>) -> RtaHeader {
    RtaHeader {
        alarm_dst_endpoint: be16_at(data, 0),
        alarm_src_endpoint: be16_at(data, 2),
        pdu_type: data[4],
        add_flags: data[5],
        send_seq_num: be16_at(data, 6),
        ack_seq_num: be16_at(data, 8),
        var_part_len: be16_at(data, 10),
    }
}

/// The type byte of a version and a kind.
pub open spec fn pdu_type_byte(version: u8, kind: u8) -> u8 {
    (version % 16 * 16 + kind % 16) as u8
}

impl RtaHeader {
    pub const SIZE: usize = 12;

    pub const RTA_TYPE_DATA: u8 = 0x01;

    pub const RTA_TYPE_NACK: u8 = 0x02;

    pub const RTA_TYPE_ACK: u8 = 0x03;

    pub const RTA_TYPE_ERR: u8 = 0x04;

    pub const VERSION_1: u8 = 0x01;

    pub const VERSION_2: u8 = 0x02;

    /// The header on the wire.
    pub open spec fn bytes(self) -> Seq<u8> {
        be16(self.alarm_dst_endpoint) + be16(self.alarm_src_endpoint) + seq![
            self.pdu_type,
            self.add_flags,
        ] + be16(self.send_seq_num) + be16(self.ack_seq_num) + be16(self.var_part_len)
    }

    /// PDU type: the low nibble of `pdu_type`.
    pub fn kind(&self) -> (r: u8)
        ensures
            r == self.pdu_type % 16,
    {
        self.pdu_type % 16
    }

    /// Protocol version: the high nibble of `pdu_type`.
    pub fn version(&self) -> (r: u8)
        ensures
            r == self.pdu_type / 16,
    {
        self.pdu_type / 16
    }

    /// Encode the `pdu_type` byte: version in the high nibble, type in the low
    /// one.
    pub fn encode_pdu_type(version: u8, kind: u8) -> (r: u8)
        ensures
            r == pdu_type_byte(version, kind),
    {
        version % 16 * 16 + kind % 16
    }

    /// Parse an RTA-PDU header from the first 12 bytes of `data`.
    pub fn from_bytes(data: &[u8]) -> (r: Result<RtaHeader, String>)
        ensures
            r is Ok <==> data@.len() >= 12,
            r matches Ok(h) ==> h == rta_header_at(data@),
            r matches Err(e) ==> e@ == "RTA header too short"@,
    {
        if data.len() < 12 {
            return Err("RTA header too short".to_owned());
        }
        Ok(
            RtaHeader {
                alarm_dst_endpoint: read_be16(data, 0),
                alarm_src_endpoint: read_be16(data, 2),
                pdu_type: data[4],
                add_flags: data[5],
                send_seq_num: read_be16(data, 6),
                ack_seq_num: read_be16(data, 8),
                var_part_len: read_be16(data, 10),
            },
        )
    }

    /// Serialize to the 12-byte wire layout.
    pub fn to_bytes(&self) -> (r: [u8; 12])
        ensures
            r@ == self.bytes(),
    {
        let r = [
            (self.alarm_dst_endpoint / 0x100) as u8,
            (self.alarm_dst_endpoint % 0x100) as u8,
            (self.alarm_src_endpoint / 0x100) as u8,
            (self.alarm_src_endpoint % 0x100) as u8,
            self.pdu_type,
            self.add_flags,
            (self.send_seq_num / 0x100) as u8,
            (self.send_seq_num % 0x100) as u8,
            (self.ack_seq_num / 0x100) as u8,
            (self.ack_seq_num % 0x100) as u8,
            (self.var_part_len / 0x100) as u8,
            (self.var_part_len % 0x100) as u8,
        ];
        assert(r@ =~= self.bytes());
        r
    }
}

/// A header reads back from its bytes, whatever follows them, and twelve bytes
/// that were read are written again as they were.
pub proof fn rta_header_round_trip(h: RtaHeader, rest: Seq<u8>, data: Seq<u8>)
    ensures
        rta_header_at(h.bytes() + rest) == h,
        data.len() >= 12 ==> rta_header_at(data).bytes() == data.take(12),
{
    let b = h.bytes();
    let s = b + rest;
    assert(forall|i: int| 0 <= i < 12 ==> #[trigger] s[i] == b[i]);
    assert(b[0] == be16(h.alarm_dst_endpoint)[0] && b[1] == be16(h.alarm_dst_endpoint)[1]);
    assert(b[2] == be16(h.alarm_src_endpoint)[0] && b[3] == be16(h.alarm_src_endpoint)[1]);
    assert(b[6] == be16(h.send_seq_num)[0] && b[7] == be16(h.send_seq_num)[1]);
    assert(b[8] == be16(h.ack_seq_num)[0] && b[9] == be16(h.ack_seq_num)[1]);
    assert(b[10] == be16(h.var_part_len)[0] && b[11] == be16(h.var_part_len)[1]);
    if data.len() >= 12 {
        be16_of_read(data, 0);
        be16_of_read(data, 2);
        be16_of_read(data, 6);
        be16_of_read(data, 8);
        be16_of_read(data, 10);
        assert(rta_header_at(data).bytes() =~= data.take(12));
    }
}

/// Both nibbles of an encoded type byte come back.
pub proof fn pdu_type_round_trip(version: u8, kind: u8)
    ensures
        pdu_type_byte(version, kind) / 16 == version % 16,
        pdu_type_byte(version, kind) % 16 == kind % 16,
{
}

/// Alarm endpoint configuration: everything needed to set up alarm reception
/// for an established AR.
#[derive(Debug, Clone, PartialEq, Eq)]
pub struct AlarmEndpoint {
    /// Network interface name (e.g. "en0").
    pub interface: String,
    /// Controller's local alarm reference (from AlarmCRBlockReq).
    pub controller_ref: u16,
    /// Device's local alarm reference (from AlarmCRBlockRes).
    pub device_ref: u16,
    /// Device MAC address.
    pub device_mac: [u8; 6],
    /// Transport type: 0 = layer 2 (RTA), 1 = UDP.
    pub transport: u16,
    /// Retransmit interval as factor x 100 ms.
    pub rta_timeout_factor: u16,
    /// Retransmissions before giving up.
    pub rta_retries: u16,
}

impl Default for AlarmEndpoint {
    fn default() -> (r: AlarmEndpoint)
        ensures
            r.interface@ == Seq::<char>::empty(),
            r.controller_ref == 0,
            r.device_ref == 0,
            r.device_mac@ == zeros(6),
            r.transport == 0,
            r.rta_timeout_factor == 1,
            r.rta_retries == 3,
    {
        let device_mac: [u8; 6] = [0u8; 6];
        assert(device_mac@ =~= zeros(6));
        AlarmEndpoint {
            interface: String::new(),
            controller_ref: 0,
            device_ref: 0,
            device_mac,
            transport: 0,
            rta_timeout_factor: 1,
            rta_retries: 3,
        }
    }
}

/// What a frame is as an alarm frame of a device: high priority or not, and
/// the RTA part behind the frame id.
pub open spec fn layer2_alarm(data: Seq<u8>, device_mac: Seq<u8>) -> Option<(bool, Seq<u8>)> {
    let at = eth_type_offset(data, 12);
    if data.len() < 14 || data.subrange(6, 12) != device_mac || data.len() < at + 4 || be16_at(
        data,
        at,
    ) != 0x8892 {
        None
    } else if be16_at(data, at + 2) == 0xFC01 {
        Some((true, data.skip(at + 4)))
    } else if be16_at(data, at + 2) == 0xFE01 {
        Some((false, data.skip(at + 4)))
    } else {
        None
    }
}

/// Filter a raw layer-2 frame: require the PROFINET EtherType, the expected
/// device source MAC and an alarm frame ID. Returns the priority (`true` =
/// high) and the RTA payload after the frame ID, or `None` for frames to
/// ignore. VLAN tags in front of the EtherType are tolerated.
pub fn check_layer2_frame<'a>(data: &'a [u8], device_mac: &[u8; 6]) -> (r: Option<(bool, &'a [u8])>)
    ensures
        match layer2_alarm(data@, device_mac@) {
            Some((high, p)) => r matches Some((h, s)) && h == high && s@ == p,
            None => r is None,
        },
{
    if data.len() < 14 || !bytes_eq(slice_subrange(data, 6, 12), device_mac.as_slice()) {
        return None;
    }
    let at: usize = skip_vlan_tags(data);
    proof {
        eth_type_offset_bounds(data@, 12);
    }
    if data.len() - at < 4 {
        return None;
    }
    if read_be16(data, at) != ETHERTYPE_PROFINET {
        return None;
    }
    let frame_id: u16 = read_be16(data, at + 2);
    let payload = slice_subrange(data, at + 4, data.len());
    assert(payload@ =~= data@.skip(at + 4));
    if frame_id == FRAME_ID_ALARM_HIGH {
        Some((true, payload))
    } else if frame_id == FRAME_ID_ALARM_LOW {
        Some((false, payload))
    } else {
        None
    }
}

/// The bytes of the notification that an RTA part carries for a controller:
/// those behind the header of a version 1 DATA PDU addressed to it, or all of
/// them where there is no header.
pub open spec fn alarm_data(payload: Seq<u8>, controller_ref: u16) -> Option<Seq<u8>> {
    let h = rta_header_at(payload);
    if payload.len() < 12 {
        Some(payload)
    } else if h.alarm_dst_endpoint != controller_ref || h.pdu_type / 16 != 1 || h.pdu_type % 16
        != 1 {
        None
    } else {
        Some(payload.skip(12))
    }
}

/// Parse a layer-2 alarm payload: strip and validate the RTA header when
/// present, then parse the notification. Returns `Ok(None)` when the alarm is
/// addressed to a different controller reference or is no DATA PDU: the others
/// carry no notification.
pub fn process_layer2_alarm(payload: &[u8], controller_ref: u16) -> (r: Result<
    Option<(Option<RtaHeader>, AlarmNotification)>,
    String,
>)
    ensures
        match alarm_data(payload@, controller_ref) {
            None => r matches Ok(None),
            Some(d) => if d.len() < 28 {
                r matches Err(e) && e@ == "AlarmNotification too short"@
            } else {
                r matches Ok(Some((h, n))) && n.read_from(d) && h == (if payload@.len() >= 12 {
                    Some(rta_header_at(payload@))
                } else {
                    None
                })
            },
        },
{
    if payload.len() < 12 {
        return match parse_alarm_notification(payload) {
            Ok(n) => Ok(Some((None, n))),
            Err(e) => Err(e),
        };
    }
    let rta = RtaHeader {
        alarm_dst_endpoint: read_be16(payload, 0),
        alarm_src_endpoint: read_be16(payload, 2),
        pdu_type: payload[4],
        add_flags: payload[5],
        send_seq_num: read_be16(payload, 6),
        ack_seq_num: read_be16(payload, 8),
        var_part_len: read_be16(payload, 10),
    };
    if rta.alarm_dst_endpoint != controller_ref || rta.version() != 1 || rta.kind() != 1 {
        return Ok(None);
    }
    let data = slice_subrange(payload, 12, payload.len());
    assert(data@ =~= payload@.skip(12));
    match parse_alarm_notification(data) {
        Ok(n) => Ok(Some((Some(rta), n))),
        Err(e) => Err(e),
    }
}

/// The alarm specifier that an acknowledgment carries.
pub open spec fn ack_specifier(
    seq_num: u16,
    channel_diagnosis: bool,
    manufacturer_specific: bool,
    submodule_diagnosis_state: bool,
    ar_diagnosis_state: bool,
) -> u16 {
    (seq_num % 0x800 + (if channel_diagnosis {
        0x800int
    } else {
        0
    }) + (if manufacturer_specific {
        0x1000int
    } else {
        0
    }) + (if submodule_diagnosis_state {
        0x2000int
    } else {
        0
    }) + (if ar_diagnosis_state {
        0x8000int
    } else {
        0
    })) as u16
}

/// An AlarmAck-PDU (22 bytes): block header, alarm type, API, slot, subslot,
/// specifier, status OK.
pub open spec fn alarm_ack_bytes(
    high: bool,
    alarm_type: u16,
    api: u32,
    slot: u16,
    subslot: u16,
    specifier: u16,
) -> Seq<u8> {
    be16(
        if high {
            0x8001
        } else {
            0x8002
        },
    ) + be16(18) + seq![0x01u8, 0x00u8] + be16(alarm_type) + be32(api) + be16(slot) + be16(subslot)
        + be16(specifier) + be32(0)
}

/// The acknowledgment of a notification.
pub open spec fn alarm_ack_of(n: AlarmNotification) -> Seq<u8> {
    alarm_ack_bytes(
        n.block_type == 0x0001,
        n.alarm_type,
        n.api,
        n.slot_number,
        n.subslot_number,
        ack_specifier(
            n.alarm_sequence_number,
            n.channel_diagnosis,
            n.manufacturer_specific,
            n.submodule_diagnosis_state,
            n.ar_diagnosis_state,
        ),
    )
}

/// The acknowledgment of the notification that `d` holds.
pub open spec fn alarm_ack_of_data(d: Seq<u8>) -> Seq<u8> {
    let bits = be16_at(d, 24);
    alarm_ack_bytes(
        be16_at(d, 0) == 0x0001,
        be16_at(d, 6),
        be32_at(d, 8),
        be16_at(d, 12),
        be16_at(d, 14),
        ack_specifier(
            (bits % 0x800) as u16,
            bits / 0x0800 % 2 == 1,
            bits / 0x1000 % 2 == 1,
            bits / 0x2000 % 2 == 1,
            bits / 0x4000 % 2 == 1,
        ),
    )
}

/// The specifier of an acknowledgment repeats that of the notification, as long
/// as the notification reports no state of the AR in its two upper bits.
pub proof fn the_ack_repeats_the_specifier(bits: u16)
    requires
        bits < 0x4000,
    ensures
        ack_specifier(
            (bits % 0x800) as u16,
            bits / 0x0800 % 2 == 1,
            bits / 0x1000 % 2 == 1,
            bits / 0x2000 % 2 == 1,
            bits / 0x4000 % 2 == 1,
        ) == bits,
{
}

fn specifier_of(alarm: &AlarmNotification) -> (r: u16)
    ensures
        r == ack_specifier(
            alarm.alarm_sequence_number,
            alarm.channel_diagnosis,
            alarm.manufacturer_specific,
            alarm.submodule_diagnosis_state,
            alarm.ar_diagnosis_state,
        ),
{
    alarm.alarm_sequence_number % 0x800 + (if alarm.channel_diagnosis {
        0x800u16
    } else {
        0
    }) + (if alarm.manufacturer_specific {
        0x1000u16
    } else {
        0
    }) + (if alarm.submodule_diagnosis_state {
        0x2000u16
    } else {
        0
    }) + (if alarm.ar_diagnosis_state {
        0x8000u16
    } else {
        0
    })
}

/// Build the AlarmAck-PDU (22 bytes): block header (6), alarm type (2), API
/// (4), slot (2), subslot (2), alarm specifier (2), PNIO status (4).
pub fn build_alarm_ack(alarm: &AlarmNotification) -> (r: Vec<u8>)
    ensures
        r@ == alarm_ack_of(*alarm),
        r@.len() == 22,
{
    let block_type: u16 = if alarm.is_high_priority() {
        0x8001
    } else {
        0x8002
    };
    let specifier: u16 = specifier_of(alarm);
    let mut out: Vec<u8> = Vec::new();
    push_be16(&mut out, block_type);
    push_be16(&mut out, 18);
    out.push(0x01);
    out.push(0x00);
    assert(out@ =~= be16(block_type) + be16(18) + seq![0x01u8, 0x00u8]);
    push_be16(&mut out, alarm.alarm_type);
    push_be32(&mut out, alarm.api);
    push_be16(&mut out, alarm.slot_number);
    push_be16(&mut out, alarm.subslot_number);
    push_be16(&mut out, specifier);
    push_be32(&mut out, 0);
    out
}

/// A complete frame with an RTA PDU: Ethernet header to the device, priority
/// tag, EtherType, alarm frame id, RTA header, variable part.
pub open spec fn rta_frame_bytes(
    ep: AlarmEndpoint,
    controller_mac: Seq<u8>,
    kind: u8,
    add_flags: u8,
    send_seq_num: u16,
    ack_seq_num: u16,
    var_part: Seq<u8>,
    high: bool,
) -> Seq<u8> {
    ep.device_mac@ + controller_mac + (if high {
        seq![0x81u8, 0x00, 0xC0, 0x00]
    } else {
        seq![0x81u8, 0x00, 0xA0, 0x00]
    }) + be16(0x8892) + be16(
        if high {
            0xFC01
        } else {
            0xFE01
        },
    ) + (RtaHeader {
        alarm_dst_endpoint: ep.device_ref,
        alarm_src_endpoint: ep.controller_ref,
        pdu_type: pdu_type_byte(1, kind),
        add_flags,
        send_seq_num,
        ack_seq_num,
        var_part_len: var_part.len() as u16,
    }).bytes() + var_part
}

fn build_rta_frame(
    endpoint: &AlarmEndpoint,
    controller_mac: &[u8; 6],
    kind: u8,
    add_flags: u8,
    send_seq_num: u16,
    ack_seq_num: u16,
    var_part: &[u8],
    high_priority: bool,
) -> (r: Vec<u8>)
    ensures
        r@ == rta_frame_bytes(
            *endpoint,
            controller_mac@,
            kind,
            add_flags,
            send_seq_num,
            ack_seq_num,
            var_part@,
            high_priority,
        ),
{
    let rta = RtaHeader {
        alarm_dst_endpoint: endpoint.device_ref,
        alarm_src_endpoint: endpoint.controller_ref,
        pdu_type: RtaHeader::encode_pdu_type(1, kind),
        add_flags,
        send_seq_num,
        ack_seq_num,
        var_part_len: var_part.len() as u16,
    };
    let (frame_id, tag) = if high_priority {
        (FRAME_ID_ALARM_HIGH, VLAN_TAG_ALARM_HIGH)
    } else {
        (FRAME_ID_ALARM_LOW, VLAN_TAG_ALARM_LOW)
    };
    proof {
        if high_priority {
            assert(tag@ =~= seq![0x81u8, 0x00, 0xC0, 0x00]);
        } else {
            assert(tag@ =~= seq![0x81u8, 0x00, 0xA0, 0x00]);
        }
    }
    let mut frame: Vec<u8> = Vec::new();
    push_all(&mut frame, endpoint.device_mac.as_slice());
    push_all(&mut frame, controller_mac.as_slice());
    push_all(&mut frame, tag.as_slice());
    push_be16(&mut frame, ETHERTYPE_PROFINET);
    push_be16(&mut frame, frame_id);
    push_all(&mut frame, rta.to_bytes().as_slice());
    push_all(&mut frame, var_part);
    assert(Seq::<u8>::empty() + endpoint.device_mac@ =~= endpoint.device_mac@);
    frame
}

/// Build the complete layer-2 AlarmAck frame: a DATA PDU with the TACK flag
/// set, so that the device transport-acknowledges it in turn.
pub fn build_layer2_ack_frame(
    endpoint: &AlarmEndpoint,
    controller_mac: &[u8; 6],
    send_seq_num: u16,
    ack_seq_num: u16,
    ack_data: &[u8],
    high_priority: bool,
) -> (r: Vec<u8>)
    ensures
        r@ == rta_frame_bytes(
            *endpoint,
            controller_mac@,
            1,
            0x11,
            send_seq_num,
            ack_seq_num,
            ack_data@,
            high_priority,
        ),
{
    build_rta_frame(
        endpoint,
        controller_mac,
        1,
        ADD_FLAGS_WINDOW_1 + ADD_FLAGS_TACK,
        send_seq_num,
        ack_seq_num,
        ack_data,
        high_priority,
    )
}

fn build_rta_control_frame(
    endpoint: &AlarmEndpoint,
    controller_mac: &[u8; 6],
    kind: u8,
    send_seq_num: u16,
    ack_seq_num: u16,
    high_priority: bool,
) -> (r: Vec<u8>)
    ensures
        r@ == rta_frame_bytes(
            *endpoint,
            controller_mac@,
            kind,
            0x01,
            send_seq_num,
            ack_seq_num,
            Seq::empty(),
            high_priority,
        ),
{
    build_rta_frame(
        endpoint,
        controller_mac,
        kind,
        ADD_FLAGS_WINDOW_1,
        send_seq_num,
        ack_seq_num,
        &[],
        high_priority,
    )
}

/// Build a pure RTA transport ACK. Devices retransmit the alarm and then abort
/// the AR when the DATA PDU carrying it is never transport-acknowledged.
pub fn build_transport_ack_frame(
    endpoint: &AlarmEndpoint,
    controller_mac: &[u8; 6],
    send_seq_num: u16,
    ack_seq_num: u16,
    high_priority: bool,
) -> (r: Vec<u8>)
    ensures
        r@ == rta_frame_bytes(
            *endpoint,
            controller_mac@,
            3,
            0x01,
            send_seq_num,
            ack_seq_num,
            Seq::empty(),
            high_priority,
        ),
{
    build_rta_control_frame(
        endpoint,
        controller_mac,
        3,
        send_seq_num,
        ack_seq_num,
        high_priority,
    )
}

/// Build an RTA NACK for an out-of-sequence DATA PDU.
pub fn build_nack_frame(
    endpoint: &AlarmEndpoint,
    controller_mac: &[u8; 6],
    send_seq_num: u16,
    ack_seq_num: u16,
    high_priority: bool,
) -> (r: Vec<u8>)
    ensures
        r@ == rta_frame_bytes(
            *endpoint,
            controller_mac@,
            2,
            0x01,
            send_seq_num,
            ack_seq_num,
            Seq::empty(),
            high_priority,
        ),
{
    build_rta_control_frame(
        endpoint,
        controller_mac,
        2,
        send_seq_num,
        ack_seq_num,
        high_priority,
    )
}

/// What the receiver must do with an incoming RTA PDU.
#[derive(Debug, Clone, Copy, PartialEq, Eq, Structural)]
pub enum RtaAction {
    /// Nothing to do: wrong version, a type without transport meaning, a DATA
    /// PDU that asks for no acknowledgment, or a stale ACK.
    Ignore,
    /// The device acknowledged our last DATA PDU; any pending retransmission
    /// can be dropped.
    OurDataAcked,
    /// The device reports a sequence error on our side.
    DeviceNack,
    /// The device sent an ERR PDU; its variable part carries a PNIO status.
    DeviceError,
    /// Retransmission of a PDU already accepted: acknowledge it again, but do
    /// not process the notification a second time.
    ReAck,
    /// Out of sequence: answer with a NACK and do not process it.
    SendNack,
    /// In sequence: process the notification, then transport-acknowledge it.
    Accept,
}

/// RTA sequence bookkeeping: current and previous counters of both directions.
#[derive(Debug, Clone, Copy, PartialEq, Eq, Structural)]
pub struct RtaSequencer {
    pub send_seq_num: u16,
    pub send_seq_num_o: u16,
    pub exp_seq_num: u16,
    pub exp_seq_num_o: u16,
}

/// The counter behind `x`: one more, modulo 0x8000.
pub open spec fn next_seq(x: u16) -> u16 {
    ((x + 1) % 0x8000) as u16
}

/// The counters after our DATA was acknowledged.
pub open spec fn send_advanced(s: RtaSequencer) -> RtaSequencer {
    RtaSequencer { send_seq_num_o: s.send_seq_num, send_seq_num: next_seq(s.send_seq_num), ..s }
}

/// What a PDU means in a state, and the state after it.
pub open spec fn rta_step(s: RtaSequencer, h: RtaHeader) -> (RtaSequencer, RtaAction) {
    let kind = h.pdu_type % 16;
    if h.pdu_type / 16 != 1 {
        (s, RtaAction::Ignore)
    } else if kind == 3 {
        if h.ack_seq_num == s.send_seq_num {
            (send_advanced(s), RtaAction::OurDataAcked)
        } else {
            (s, RtaAction::Ignore)
        }
    } else if kind == 2 {
        (s, RtaAction::DeviceNack)
    } else if kind == 4 {
        (s, RtaAction::DeviceError)
    } else if kind != 1 || h.add_flags / 16 % 2 == 0 {
        (s, RtaAction::Ignore)
    } else if h.send_seq_num == s.exp_seq_num_o {
        (s, RtaAction::ReAck)
    } else if h.send_seq_num != s.exp_seq_num {
        (s, RtaAction::SendNack)
    } else {
        let t = RtaSequencer {
            exp_seq_num_o: s.exp_seq_num,
            exp_seq_num: next_seq(s.exp_seq_num),
            ..s
        };
        (
            if h.ack_seq_num == s.send_seq_num {
                send_advanced(t)
            } else {
                t
            },
            RtaAction::Accept,
        )
    }
}

/// The counters are ones that a fresh sequencer can reach: each current
/// counter differs from the previous one.
pub open spec fn seq_reachable(s: RtaSequencer) -> bool {
    &&& s.exp_seq_num != s.exp_seq_num_o
    &&& s.send_seq_num != s.send_seq_num_o
    &&& s.exp_seq_num == 0xFFFF || s.exp_seq_num < 0x8000
    &&& s.send_seq_num == 0xFFFF || s.send_seq_num < 0x8000
}

impl Default for RtaSequencer {
    fn default() -> (r: RtaSequencer)
        ensures
            r == fresh_sequencer(),
    {
        RtaSequencer {
            send_seq_num: SEQ_NUM_INIT,
            send_seq_num_o: SEQ_NUM_INIT_O,
            exp_seq_num: SEQ_NUM_INIT,
            exp_seq_num_o: SEQ_NUM_INIT_O,
        }
    }
}

/// The counters before any PDU.
pub open spec fn fresh_sequencer() -> RtaSequencer {
    RtaSequencer {
        send_seq_num: 0xFFFF,
        send_seq_num_o: 0xFFFE,
        exp_seq_num: 0xFFFF,
        exp_seq_num_o: 0xFFFE,
    }
}

impl RtaSequencer {
    pub fn new() -> (r: RtaSequencer)
        ensures
            r == fresh_sequencer(),
    {
        RtaSequencer::default()
    }

    /// Sequence number to put in the next PDU we send.
    pub fn send_seq_num(&self) -> (r: u16)
        ensures
            r == self.send_seq_num,
    {
        self.send_seq_num
    }

    /// Sequence numbers for a transport ACK or NACK: the previous send counter
    /// and the last accepted receive counter.
    pub fn ack_seq_pair(&self) -> (r: (u16, u16))
        ensures
            r == (self.send_seq_num_o, self.exp_seq_num_o),
    {
        (self.send_seq_num_o, self.exp_seq_num_o)
    }

    /// Sequence numbers for a DATA PDU we originate (the AlarmAck): the
    /// current send counter, acknowledging the last PDU we accepted.
    pub fn data_seq_pair(&self) -> (r: (u16, u16))
        ensures
            r == (self.send_seq_num, self.exp_seq_num_o),
    {
        (self.send_seq_num, self.exp_seq_num_o)
    }

    fn advance_send(&mut self)
        ensures
            *final(self) == send_advanced(*old(self)),
    {
        self.send_seq_num_o = self.send_seq_num;
        self.send_seq_num = ((self.send_seq_num as u32 + 1) % 0x8000) as u16;
    }

    /// Classify an incoming PDU and advance the counters accordingly.
    pub fn on_pdu(&mut self, header: &RtaHeader) -> (r: RtaAction)
        ensures
            (*final(self), r) == rta_step(*old(self), *header),
    {
        if header.version() != 1 {
            return RtaAction::Ignore;
        }
        let kind: u8 = header.kind();
        if kind == 3 {
            if header.ack_seq_num == self.send_seq_num {
                self.advance_send();
                return RtaAction::OurDataAcked;
            }
            return RtaAction::Ignore;
        }
        if kind == 2 {
            return RtaAction::DeviceNack;
        }
        if kind == 4 {
            return RtaAction::DeviceError;
        }
        if kind != 1 || header.add_flags / 16 % 2 == 0 {
            return RtaAction::Ignore;
        }
        if header.send_seq_num == self.exp_seq_num_o {
            return RtaAction::ReAck;
        }
        if header.send_seq_num != self.exp_seq_num {
            return RtaAction::SendNack;
        }
        self.exp_seq_num_o = self.exp_seq_num;
        self.exp_seq_num = ((self.exp_seq_num as u32 + 1) % 0x8000) as u16;
        if header.ack_seq_num == self.send_seq_num {
            self.advance_send();
        }
        RtaAction::Accept
    }
}

/// A PDU that was accepted is not accepted again: its retransmission is only
/// acknowledged, and changes nothing.
pub proof fn retransmission_is_only_acknowledged(s: RtaSequencer, h: RtaHeader)
    requires
        rta_step(s, h).1 == RtaAction::Accept,
    ensures
        rta_step(rta_step(s, h).0, h) == (rta_step(s, h).0, RtaAction::ReAck),
{
}

/// Only an accepted PDU and an acknowledgment of ours move the counters, and
/// what is accepted is the number that was due.
pub proof fn counters_move_in_sequence(s: RtaSequencer, h: RtaHeader)
    ensures
        ({
            let (t, a) = rta_step(s, h);
            &&& a != RtaAction::Accept && a != RtaAction::OurDataAcked ==> t == s
            &&& a == RtaAction::Accept ==> h.send_seq_num == s.exp_seq_num && t.exp_seq_num
                == next_seq(s.exp_seq_num) && t.exp_seq_num_o == h.send_seq_num
            &&& a == RtaAction::OurDataAcked ==> h.ack_seq_num == s.send_seq_num && t
                == send_advanced(s)
        }),
{
}

/// From a fresh sequencer on, the counters stay in their range and each
/// differs from its predecessor, so that a PDU is never both due and already
/// accepted.
pub proof fn counters_stay_reachable(s: RtaSequencer, h: RtaHeader)
    ensures
        seq_reachable(fresh_sequencer()),
        seq_reachable(s) ==> seq_reachable(rta_step(s, h).0),
{
}

/// An AlarmAck that awaits its transport ACK: the frame, when to retransmit
/// it (in microseconds), and the retransmissions left.
#[derive(Debug, Clone, PartialEq, Eq)]
pub struct PendingAck {
    pub frame: Vec<u8>,
    pub due_us: u64,
    pub retries_left: u16,
}

/// RTA state for one alarm priority. High and low priority keep their own
/// sequence counters: sharing one set would make a high-priority alarm look
/// like a retransmission of a low-priority one with the same number.
#[derive(Debug, Clone, PartialEq, Eq)]
pub struct AlarmChannel {
    pub seq: RtaSequencer,
    /// AlarmAck awaiting its transport ACK.
    pub pending: Option<PendingAck>,
    /// AlarmAck payloads waiting for the window to free. The send window is
    /// one PDU: a second AlarmAck sent before the first is acknowledged would
    /// carry the same sequence number and be discarded as a duplicate.
    pub queued: VecDeque<Vec<u8>>,
    pub high_priority: bool,
}

/// What an [`AlarmChannel`] holds, as mathematical values.
#[verifier::ext_equal]
pub struct ChannelModel {
    pub seq: RtaSequencer,
    pub pending: Option<(Seq<u8>, u64, u16)>,
    pub queued: Seq<Seq<u8>>,
    pub high: bool,
}

impl View for AlarmChannel {
    type V = ChannelModel;

    open spec fn view(&self) -> ChannelModel {
        ChannelModel {
            seq: self.seq,
            pending: match self.pending {
                Some(p) => Some((p.frame@, p.due_us, p.retries_left)),
                None => None,
            },
            queued: contents(self.queued@),
            high: self.high_priority,
        }
    }
}

/// A channel before any PDU.
pub open spec fn fresh_channel(high: bool) -> ChannelModel {
    ChannelModel { seq: fresh_sequencer(), pending: None, queued: Seq::empty(), high }
}

/// The retransmission that is due, if any retries are left, and what is then
/// pending.
pub open spec fn retransmit_step(c: ChannelModel, after_us: int, now_us: int) -> (
    ChannelModel,
    Seq<Seq<u8>>,
) {
    match c.pending {
        Some((frame, due, retries)) => if now_us < due {
            (c, Seq::empty())
        } else if retries > 0 {
            (
                ChannelModel {
                    pending: Some((frame, (now_us + after_us) as u64, (retries - 1) as u16)),
                    ..c
                },
                seq![frame],
            )
        } else {
            (ChannelModel { pending: None, ..c }, Seq::empty())
        },
        None => (c, Seq::empty()),
    }
}

/// What a channel sends at a time, and its state after it: a retransmission
/// that is due, or the first queued AlarmAck once nothing is pending.
pub open spec fn service_step(
    c: ChannelModel,
    ep: AlarmEndpoint,
    controller_mac: Seq<u8>,
    after_us: int,
    now_us: int,
) -> (ChannelModel, Seq<Seq<u8>>) {
    let (d, sent) = retransmit_step(c, after_us, now_us);
    if d.pending is Some || d.queued.len() == 0 {
        (d, sent)
    } else {
        let frame = rta_frame_bytes(
            ep,
            controller_mac,
            1,
            0x11,
            d.seq.send_seq_num,
            d.seq.exp_seq_num_o,
            d.queued[0],
            d.high,
        );
        (
            ChannelModel {
                pending: Some((frame, (now_us + after_us) as u64, ep.rta_retries)),
                queued: d.queued.skip(1),
                ..d
            },
            seq![frame],
        )
    }
}

impl AlarmChannel {
    pub fn new(high_priority: bool) -> (r: AlarmChannel)
        ensures
            r@ == fresh_channel(high_priority),
    {
        let r = AlarmChannel {
            seq: RtaSequencer::new(),
            pending: None,
            queued: VecDeque::new(),
            high_priority,
        };
        assert(r@ =~= fresh_channel(high_priority));
        r
    }

    /// The frames to send now: an unacknowledged AlarmAck whose deadline has
    /// passed is retransmitted, and the next queued one is sent once the
    /// window is free. Giving up after the configured retries is silent; the
    /// device may then abort the AR.
    pub fn service(
        &mut self,
        endpoint: &AlarmEndpoint,
        controller_mac: &[u8; 6],
        retransmit_after_us: u64,
        now_us: u64,
    ) -> (r: Vec<Vec<u8>>)
        requires
            now_us + retransmit_after_us <= u64::MAX,
        ensures
            (final(self)@, contents(r@)) == service_step(
                old(self)@,
                *endpoint,
                controller_mac@,
                retransmit_after_us as int,
                now_us as int,
            ),
    {
        let ghost before = self@;
        let mut sent: Vec<Vec<u8>> = Vec::new();
        let pending = self.pending.take();
        match pending {
            Some(p) => {
                if now_us < p.due_us {
                    self.pending = Some(p);
                } else if p.retries_left > 0 {
                    sent.push(slice_to_vec(p.frame.as_slice()));
                    self.pending = Some(
                        PendingAck {
                            frame: p.frame,
                            due_us: now_us + retransmit_after_us,
                            retries_left: p.retries_left - 1,
                        },
                    );
                }
            },
            None => {},
        }
        let ghost mid = retransmit_step(before, retransmit_after_us as int, now_us as int);
        proof {
            assert(self@ =~= mid.0);
            assert(contents(sent@) =~= mid.1);
        }
        if self.pending.is_some() {
            return sent;
        }
        let ghost queue = self.queued@;
        let data = match self.queued.pop_front() {
            Some(d) => d,
            None => {
                return sent;
            },
        };
        let (send_seq, ack_seq) = self.seq.data_seq_pair();
        let frame = build_layer2_ack_frame(
            endpoint,
            controller_mac,
            send_seq,
            ack_seq,
            data.as_slice(),
            self.high_priority,
        );
        sent.push(slice_to_vec(frame.as_slice()));
        self.pending = Some(
            PendingAck {
                frame,
                due_us: now_us + retransmit_after_us,
                retries_left: endpoint.rta_retries,
            },
        );
        proof {
            let (want, frames) = service_step(
                before,
                *endpoint,
                controller_mac@,
                retransmit_after_us as int,
                now_us as int,
            );
            assert(contents(queue)[0] == data@);
            assert(contents(self.queued@) =~= contents(queue).skip(1));
            assert(self@ =~= want);
            assert(contents(sent@) =~= frames);
        }
        sent
    }

    /// When the next deadline falls due, so that the receive timeout can be
    /// capped short enough to honour it.
    pub fn next_due(&self) -> (r: Option<u64>)
        ensures
            r == match self@.pending {
                Some((frame, due, retries)) => Some(due),
                None => None,
            },
    {
        match &self.pending {
            Some(p) => Some(p.due_us),
            None => None,
        }
    }
}

/// At most one AlarmAck is in flight: while one is pending and not yet due,
/// nothing is sent, and nothing leaves the queue.
pub proof fn window_is_one_pdu(
    c: ChannelModel,
    ep: AlarmEndpoint,
    controller_mac: Seq<u8>,
    after_us: int,
    now_us: int,
)
    ensures
        c.pending is Some && now_us < (c.pending->0).1 ==> service_step(
            c,
            ep,
            controller_mac,
            after_us,
            now_us,
        ) == (c, Seq::<Seq<u8>>::empty()),
        c.pending is Some && (c.pending->0).2 > 0 ==> service_step(
            c,
            ep,
            controller_mac,
            after_us,
            now_us,
        ).0.queued == c.queued,
        service_step(c, ep, controller_mac, after_us, now_us).1.len() <= 1,
        service_step(c, ep, controller_mac, after_us, now_us).0.seq == c.seq,
{
}

/// Listener for alarm notifications: both channels of an endpoint, and whether
/// reception is on. It turns received frames into the frames to send and the
/// notifications to deliver; the caller receives, sends and keeps the time.
#[derive(Debug, Clone, PartialEq, Eq)]
pub struct AlarmListener {
    pub endpoint: AlarmEndpoint,
    pub controller_mac: [u8; 6],
    pub running: bool,
    pub low: AlarmChannel,
    pub high: AlarmChannel,
    /// The ids of those that every delivered notification goes to, in the order
    /// in which they were added.
    pub callbacks: Vec<usize>,
    pub next_callback_id: usize,
}

/// What one step of the listener produces.
#[derive(Debug, PartialEq, Eq)]
pub struct ListenerStep {
    /// Frames to send, in order.
    pub send: Vec<Vec<u8>>,
    /// The notification to deliver to the application.
    pub alarm: Option<AlarmNotification>,
}

/// What a step of the listener does, as mathematical values: both channels
/// after it, the frames sent, and the bytes of the notification delivered.
#[verifier::ext_equal]
pub struct StepModel {
    pub low: ChannelModel,
    pub high: ChannelModel,
    pub sent: Seq<Seq<u8>>,
    pub alarm: Option<Seq<u8>>,
}

/// A transport ACK (kind 3) or NACK (kind 2) for the state of a channel.
pub open spec fn control_frame(
    ep: AlarmEndpoint,
    controller_mac: Seq<u8>,
    kind: u8,
    seq: RtaSequencer,
    high: bool,
) -> Seq<u8> {
    rta_frame_bytes(
        ep,
        controller_mac,
        kind,
        0x01,
        seq.send_seq_num_o,
        seq.exp_seq_num_o,
        Seq::empty(),
        high,
    )
}

/// The channels with one of them replaced.
pub open spec fn with_channel(
    low: ChannelModel,
    high: ChannelModel,
    is_high: bool,
    c: ChannelModel,
    sent: Seq<Seq<u8>>,
) -> StepModel {
    if is_high {
        StepModel { low, high: c, sent, alarm: None }
    } else {
        StepModel { low: c, high, sent, alarm: None }
    }
}

/// An accepted notification is acknowledged by the application: its AlarmAck
/// queues on the channel that the notification's own priority names, and goes
/// out at once if the window is free.
pub open spec fn deliver(
    s: StepModel,
    ep: AlarmEndpoint,
    controller_mac: Seq<u8>,
    data: Seq<u8>,
    after_us: int,
    now_us: int,
) -> StepModel {
    let ack = alarm_ack_of_data(data);
    if be16_at(data, 0) == 0x0001 {
        let c = ChannelModel { queued: s.high.queued.push(ack), ..s.high };
        let (d, frames) = service_step(c, ep, controller_mac, after_us, now_us);
        StepModel { low: s.low, high: d, sent: s.sent + frames, alarm: Some(data) }
    } else {
        let c = ChannelModel { queued: s.low.queued.push(ack), ..s.low };
        let (d, frames) = service_step(c, ep, controller_mac, after_us, now_us);
        StepModel { low: d, high: s.high, sent: s.sent + frames, alarm: Some(data) }
    }
}

/// What a received frame does.
pub open spec fn frame_step(
    ep: AlarmEndpoint,
    controller_mac: Seq<u8>,
    low: ChannelModel,
    high: ChannelModel,
    frame: Seq<u8>,
    after_us: int,
    now_us: int,
) -> StepModel {
    let idle = StepModel { low, high, sent: Seq::empty(), alarm: None };
    match layer2_alarm(frame, ep.device_mac@) {
        None => idle,
        Some((is_high, payload)) => {
            let h = rta_header_at(payload);
            if payload.len() < 12 || h.alarm_dst_endpoint != ep.controller_ref {
                idle
            } else {
                let c = if is_high {
                    high
                } else {
                    low
                };
                let (seq, action) = rta_step(c.seq, h);
                let d = ChannelModel { seq, ..c };
                match action {
                    RtaAction::OurDataAcked => with_channel(
                        low,
                        high,
                        is_high,
                        ChannelModel { pending: None, ..d },
                        Seq::empty(),
                    ),
                    RtaAction::SendNack => with_channel(
                        low,
                        high,
                        is_high,
                        d,
                        seq![control_frame(ep, controller_mac, 2, seq, is_high)],
                    ),
                    RtaAction::ReAck => with_channel(
                        low,
                        high,
                        is_high,
                        d,
                        seq![control_frame(ep, controller_mac, 3, seq, is_high)],
                    ),
                    RtaAction::Accept => {
                        let s = with_channel(
                            low,
                            high,
                            is_high,
                            d,
                            seq![control_frame(ep, controller_mac, 3, seq, is_high)],
                        );
                        if payload.len() < 40 {
                            s
                        } else {
                            deliver(s, ep, controller_mac, payload.skip(12), after_us, now_us)
                        }
                    },
                    _ => idle,
                }
            }
        },
    }
}

/// The retransmission interval of an endpoint in microseconds: 100 ms times
/// its factor, at least one.
pub open spec fn retransmit_us(ep: AlarmEndpoint) -> int {
    100_000 * (if ep.rta_timeout_factor == 0 {
        1
    } else {
        ep.rta_timeout_factor as int
    })
}

/// How long to wait for a frame: no longer than a second, not past a
/// deadline, and at least a millisecond.
pub open spec fn wait_us(low: ChannelModel, high: ChannelModel, now_us: int) -> int {
    let a = until_due(1_000_000, low, now_us);
    let b = until_due(a, high, now_us);
    if b < 1000 {
        1000
    } else {
        b
    }
}

/// `wait` cut to the deadline of a channel.
pub open spec fn until_due(wait: int, c: ChannelModel, now_us: int) -> int {
    match c.pending {
        Some((frame, due, retries)) => if due <= now_us {
            0
        } else if due - now_us < wait {
            due - now_us
        } else {
            wait
        },
        None => wait,
    }
}

fn cut_to_due(wait: u64, c: &AlarmChannel, now_us: u64) -> (r: u64)
    ensures
        r == until_due(wait as int, c@, now_us as int),
{
    match c.next_due() {
        Some(due) => {
            if due <= now_us {
                0
            } else if due - now_us < wait {
                due - now_us
            } else {
                wait
            }
        },
        None => wait,
    }
}

/// A list of ids without the given one.
pub open spec fn without_id(s: Seq<usize>, id: usize) -> Seq<usize>
    decreases s.len(),
{
    if s.len() == 0 {
        Seq::empty()
    } else if s.last() == id {
        without_id(s.drop_last(), id)
    } else {
        without_id(s.drop_last(), id).push(s.last())
    }
}

impl AlarmListener {
    /// Create a listener for `endpoint`; `controller_mac` is the source MAC of
    /// layer-2 acknowledgments, all zero when not given.
    pub fn new(endpoint: AlarmEndpoint, controller_mac: Option<[u8; 6]>) -> (r: AlarmListener)
        ensures
            r.endpoint == endpoint,
            r.controller_mac@ == match controller_mac {
                Some(m) => m@,
                None => zeros(6),
            },
            !r.running,
            r.low@ == fresh_channel(false),
            r.high@ == fresh_channel(true),
            r.callbacks@ == Seq::<usize>::empty(),
            r.next_callback_id == 0,
            r.callbacks_wf(),
    {
        let mac: [u8; 6] = match controller_mac {
            Some(m) => m,
            None => {
                let none: [u8; 6] = [0u8; 6];
                assert(none@ =~= zeros(6));
                none
            },
        };
        AlarmListener {
            endpoint,
            controller_mac: mac,
            running: false,
            low: AlarmChannel::new(false),
            high: AlarmChannel::new(true),
            callbacks: Vec::new(),
            next_callback_id: 0,
        }
    }

    /// Every id is there once, and lies below the next one to be given.
    pub open spec fn callbacks_wf(self) -> bool {
        &&& self.callbacks@.no_duplicates()
        &&& forall|i: int|
            0 <= i < self.callbacks@.len() ==> #[trigger] self.callbacks@[i]
                < self.next_callback_id
    }

    /// Add one more to those that every delivered notification goes to. Gives
    /// its id, which was never given before, for
    /// [`AlarmListener::remove_callback`].
    pub fn add_callback(&mut self) -> (r: usize)
        requires
            old(self).callbacks_wf(),
            old(self).next_callback_id < usize::MAX,
        ensures
            final(self).callbacks_wf(),
            r == old(self).next_callback_id,
            !old(self).callbacks@.contains(r),
            final(self).callbacks@ == old(self).callbacks@.push(r),
            final(self).next_callback_id == r + 1,
            final(self).same_reception(*old(self)),
    {
        let id: usize = self.next_callback_id;
        self.next_callback_id = id + 1;
        self.callbacks.push(id);
        id
    }

    /// Remove the one with the given id; an unknown id is ignored.
    pub fn remove_callback(&mut self, id: usize)
        requires
            old(self).callbacks_wf(),
        ensures
            final(self).callbacks_wf(),
            final(self).callbacks@ == without_id(old(self).callbacks@, id),
            final(self).next_callback_id == old(self).next_callback_id,
            final(self).same_reception(*old(self)),
    {
        let ghost before = self.callbacks@;
        let mut kept: Vec<usize> = Vec::new();
        let n: usize = self.callbacks.len();
        let mut i: usize = 0;
        assert(before.take(0) =~= Seq::<usize>::empty());
        while i < n
            invariant
                i <= n == before.len(),
                *self == *old(self),
                self.callbacks@ == before,
                before.no_duplicates(),
                kept@ == without_id(before.take(i as int), id),
                kept@.no_duplicates(),
                forall|j: int|
                    0 <= j < kept@.len() ==> before.take(i as int).contains(#[trigger] kept@[j]),
            decreases n - i,
        {
            let k: usize = self.callbacks[i];
            let ghost was = kept@;
            proof {
                assert(before.take(i + 1).drop_last() =~= before.take(i as int));
                assert forall|x: usize| before.take(i as int).contains(x) implies before.take(
                    i + 1,
                ).contains(x) && x != k by {
                    let j = choose|j: int| 0 <= j < i && before.take(i as int)[j] == x;
                    assert(before.take(i + 1)[j] == x);
                    assert(before[j] == x && before[i as int] == k);
                }
                assert(before.take(i + 1)[i as int] == k);
            }
            if k != id {
                kept.push(k);
                assert forall|j: int| 0 <= j < kept@.len() implies before.take(i + 1).contains(
                    #[trigger] kept@[j],
                ) by {
                    if j < was.len() {
                        assert(kept@[j] == was[j]);
                    }
                }
            }
            i = i + 1;
        }
        assert(before.take(i as int) =~= before);
        self.callbacks = kept;
        assert forall|j: int| 0 <= j < self.callbacks@.len() implies #[trigger] self.callbacks@[j]
            < self.next_callback_id by {
            assert(before.contains(self.callbacks@[j]));
        }
    }

    /// How many every delivered notification goes to.
    pub fn callback_count(&self) -> (r: usize)
        ensures
            r == self.callbacks@.len(),
    {
        self.callbacks.len()
    }

    /// Everything but the callbacks is equal.
    pub open spec fn same_reception(self, other: AlarmListener) -> bool {
        &&& self.endpoint == other.endpoint
        &&& self.controller_mac == other.controller_mac
        &&& self.running == other.running
        &&& self.low == other.low
        &&& self.high == other.high
    }

    /// The callbacks are equal.
    pub open spec fn same_callbacks(self, other: AlarmListener) -> bool {
        self.callbacks == other.callbacks && self.next_callback_id == other.next_callback_id
    }

    /// True if the listener is currently running.
    pub fn is_running(&self) -> (r: bool)
        ensures
            r == self.running,
    {
        self.running
    }

    /// Start reception with fresh channels. Nothing changes if it is already
    /// on. Only the layer-2 transport (0) is supported.
    pub fn start(&mut self) -> (r: Result<(), String>)
        ensures
            final(self).endpoint == old(self).endpoint,
            final(self).controller_mac == old(self).controller_mac,
            final(self).same_callbacks(*old(self)),
            if old(self).running {
                r is Ok && *final(self) == *old(self)
            } else if old(self).endpoint.transport != 0 {
                &&& r matches Err(e) && e@
                    == "only Layer-2 (transport 0) alarm reception is supported"@
                &&& *final(self) == *old(self)
            } else {
                &&& r is Ok
                &&& final(self).running
                &&& final(self).low@ == fresh_channel(false)
                &&& final(self).high@ == fresh_channel(true)
            },
    {
        if self.running {
            return Ok(());
        }
        if self.endpoint.transport != 0 {
            return Err("only Layer-2 (transport 0) alarm reception is supported".to_owned());
        }
        self.low = AlarmChannel::new(false);
        self.high = AlarmChannel::new(true);
        self.running = true;
        Ok(())
    }

    /// Stop reception.
    pub fn stop(&mut self)
        ensures
            *final(self) == (AlarmListener { running: false, ..*old(self) }),
    {
        self.running = false;
    }

    fn retransmit_after_us(&self) -> (r: u64)
        ensures
            r == retransmit_us(self.endpoint),
    {
        if self.endpoint.rta_timeout_factor == 0 {
            100_000
        } else {
            100_000 * self.endpoint.rta_timeout_factor as u64
        }
    }

    /// What to send at a time, low priority first, and how long to wait for
    /// the next frame after that.
    pub fn poll(&mut self, now_us: u64) -> (r: (Vec<Vec<u8>>, u64))
        requires
            now_us + retransmit_us(old(self).endpoint) <= u64::MAX,
        ensures
            final(self).endpoint == old(self).endpoint,
            final(self).controller_mac == old(self).controller_mac,
            final(self).running == old(self).running,
            final(self).same_callbacks(*old(self)),
            ({
                let after = retransmit_us(old(self).endpoint);
                let mac = old(self).controller_mac@;
                let (low, a) = service_step(
                    old(self).low@,
                    old(self).endpoint,
                    mac,
                    after,
                    now_us as int,
                );
                let (high, b) = service_step(
                    old(self).high@,
                    old(self).endpoint,
                    mac,
                    after,
                    now_us as int,
                );
                &&& final(self).low@ == low
                &&& final(self).high@ == high
                &&& contents(r.0@) == a + b
                &&& r.1 == wait_us(low, high, now_us as int)
            }),
    {
        let after: u64 = self.retransmit_after_us();
        let mut send = self.low.service(&self.endpoint, &self.controller_mac, after, now_us);
        let ghost a = send@;
        let mut more = self.high.service(&self.endpoint, &self.controller_mac, after, now_us);
        let ghost b = more@;
        send.append(&mut more);
        assert(contents(send@) =~= contents(a) + contents(b));
        let wait: u64 = cut_to_due(cut_to_due(1_000_000, &self.low, now_us), &self.high, now_us);
        let wait: u64 = if wait < 1000 {
            1000
        } else {
            wait
        };
        (send, wait)
    }

    /// Take in a received frame. Frames that are no alarm PDU of the device
    /// for this controller are ignored. A PDU in sequence is
    /// transport-acknowledged before anything else, a retransmission included;
    /// its notification is delivered once, and acknowledged by an AlarmAck.
    pub fn on_frame(&mut self, frame: &[u8], now_us: u64) -> (r: ListenerStep)
        requires
            now_us + retransmit_us(old(self).endpoint) <= u64::MAX,
        ensures
            final(self).endpoint == old(self).endpoint,
            final(self).controller_mac == old(self).controller_mac,
            final(self).running == old(self).running,
            final(self).same_callbacks(*old(self)),
            ({
                let s = frame_step(
                    old(self).endpoint,
                    old(self).controller_mac@,
                    old(self).low@,
                    old(self).high@,
                    frame@,
                    retransmit_us(old(self).endpoint),
                    now_us as int,
                );
                &&& final(self).low@ == s.low
                &&& final(self).high@ == s.high
                &&& contents(r.send@) == s.sent
                &&& match s.alarm {
                    Some(d) => r.alarm matches Some(n) && n.read_from(d),
                    None => r.alarm is None,
                }
            }),
    {
        let after: u64 = self.retransmit_after_us();
        let mut send: Vec<Vec<u8>> = Vec::new();
        assert(contents(send@) =~= Seq::<Seq<u8>>::empty());
        let (is_high, payload) = match check_layer2_frame(frame, &self.endpoint.device_mac) {
            Some(x) => x,
            None => {
                return ListenerStep { send, alarm: None };
            },
        };
        let rta = match RtaHeader::from_bytes(payload) {
            Ok(h) => h,
            Err(_) => {
                return ListenerStep { send, alarm: None };
            },
        };
        if rta.alarm_dst_endpoint != self.endpoint.controller_ref {
            return ListenerStep { send, alarm: None };
        }
        let action = if is_high {
            self.high.seq.on_pdu(&rta)
        } else {
            self.low.seq.on_pdu(&rta)
        };
        if action == RtaAction::OurDataAcked {
            if is_high {
                self.high.pending = None;
            } else {
                self.low.pending = None;
            }
            return ListenerStep { send, alarm: None };
        }
        let (send_seq, ack_seq) = if is_high {
            self.high.seq.ack_seq_pair()
        } else {
            self.low.seq.ack_seq_pair()
        };
        if action == RtaAction::SendNack {
            send.push(
                build_nack_frame(&self.endpoint, &self.controller_mac, send_seq, ack_seq, is_high),
            );
            proof {
                let c = if is_high {
                    self.high.seq
                } else {
                    self.low.seq
                };
                assert(contents(send@) =~= seq![
                    control_frame(self.endpoint, self.controller_mac@, 2, c, is_high),
                ]);
            }
            return ListenerStep { send, alarm: None };
        }
        if action != RtaAction::ReAck && action != RtaAction::Accept {
            return ListenerStep { send, alarm: None };
        }
        send.push(
            build_transport_ack_frame(
                &self.endpoint,
                &self.controller_mac,
                send_seq,
                ack_seq,
                is_high,
            ),
        );
        proof {
            let c = if is_high {
                self.high.seq
            } else {
                self.low.seq
            };
            assert(contents(send@) =~= seq![
                control_frame(self.endpoint, self.controller_mac@, 3, c, is_high),
            ]);
        }
        if action == RtaAction::ReAck {
            return ListenerStep { send, alarm: None };
        }
        let alarm = match process_layer2_alarm(payload, self.endpoint.controller_ref) {
            Ok(Some((_, n))) => n,
            _ => {
                return ListenerStep { send, alarm: None };
            },
        };
        let ghost acked = send@;
        let ack = build_alarm_ack(&alarm);
        assert(ack@ == alarm_ack_of_data(payload@.skip(12)));
        let mut more = if alarm.is_high_priority() {
            let ghost queue = self.high.queued@;
            self.high.queued.push_back(ack);
            assert(contents(self.high.queued@) =~= contents(queue).push(ack@));
            self.high.service(&self.endpoint, &self.controller_mac, after, now_us)
        } else {
            let ghost queue = self.low.queued@;
            self.low.queued.push_back(ack);
            assert(contents(self.low.queued@) =~= contents(queue).push(ack@));
            self.low.service(&self.endpoint, &self.controller_mac, after, now_us)
        };
        let ghost frames = more@;
        send.append(&mut more);
        assert(contents(send@) =~= contents(acked) + contents(frames));
        ListenerStep { send, alarm: Some(alarm) }
    }
}

/// A notification is delivered once: the frame that delivered it, received
/// again, is acknowledged and delivers nothing.
pub proof fn alarm_is_delivered_once(
    ep: AlarmEndpoint,
    controller_mac: Seq<u8>,
    low: ChannelModel,
    high: ChannelModel,
    frame: Seq<u8>,
    after_us: int,
    now_us: int,
    later_us: int,
)
    ensures
        ({
            let first = frame_step(ep, controller_mac, low, high, frame, after_us, now_us);
            let again = frame_step(
                ep,
                controller_mac,
                first.low,
                first.high,
                frame,
                after_us,
                later_us,
            );
            first.alarm is Some ==> again.alarm is None && again.sent.len() == 1 && again.low
                == first.low && again.high == first.high
        }),
{
    let first = frame_step(ep, controller_mac, low, high, frame, after_us, now_us);
    if first.alarm is Some {
        let (is_high, payload) = layer2_alarm(frame, ep.device_mac@)->0;
        let h = rta_header_at(payload);
        let c = if is_high {
            high
        } else {
            low
        };
        retransmission_is_only_acknowledged(c.seq, h);
        let d = if is_high {
            first.high
        } else {
            first.low
        };
        assert(d.seq == rta_step(c.seq, h).0);
        assert(ChannelModel { seq: d.seq, ..d } == d);
    }
}

} // verus!
