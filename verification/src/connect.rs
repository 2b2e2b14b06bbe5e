//! Connect request building: the AR, IOCR, alarm CR and expected submodule
//! blocks, and the two connect requests made of them. Blocks follow each other
//! without padding.

use vstd::prelude::*;
use crate::bytes::{
    be16, be16_at, be16_placed, be32, be32_at, be32_placed, push_all, push_be16, push_be32,
    push_zeros, zeros,
};
use crate::gsdml::IoSlot;
use crate::rpc::{nrd, nrd_bytes, rpc_request, rpc_request_bytes, CONNECT};

verus! {

/// IO controller AR with cyclic data.
pub const AR_TYPE_IOCAR_SINGLE: u16 = 0x0001;

/// IO supervisor AR, used for device access.
pub const AR_TYPE_IOSAR: u16 = 0x0006;

/// State active, parameter server at the CM initiator.
pub const AR_PROPERTIES_IOCAR: u32 = 0x0000_0011;

/// The same with device access.
pub const AR_PROPERTIES_DEVICE_ACCESS: u32 = 0x0000_0111;

/// The fixed local object UUID.
pub const CM_INITIATOR_OBJECT_UUID: [u8; 16] = [
    0xDE, 0xA0, 0x00, 0x00, 0x6C, 0x97, 0x11, 0xD1, 0x82, 0x71, 0x00, 0x01, 0x76, 0x54, 0x32, 0x10,
];

pub const DEFAULT_RTA_TIMEOUT_FACTOR: u16 = 1;
pub const DEFAULT_RTA_RETRIES: u16 = 3;
pub const DEFAULT_MAX_ALARM_DATA_LENGTH: u16 = 200;
pub const DEFAULT_TAG_HEADER_HIGH: u16 = 0xC000;
pub const DEFAULT_TAG_HEADER_LOW: u16 = 0xA000;

/// Configuration of the two IOCRs: slot list plus timing factors.
#[derive(Debug, Clone, PartialEq, Eq)]
pub struct IocrSetup {
    /// IO slots to take part in the cyclic exchange.
    pub io_slots: Vec<IoSlot>,
    /// Base clock multiplier (32 = 1ms base clock).
    pub send_clock_factor: u16,
    /// Cycle time = send_clock_factor * reduction_ratio * 31.25us.
    pub reduction_ratio: u16,
    /// Watchdog timeout = watchdog_factor * cycle time.
    pub watchdog_factor: u16,
    /// Data hold time = data_hold_factor * cycle time.
    pub data_hold_factor: u16,
}

/// A block header of version 1.0.
pub open spec fn header_bytes(block_type: u16, block_length: u16) -> Seq<u8> {
    be16(block_type) + be16(block_length) + seq![0x01u8, 0x00u8]
}

fn block_header(out: &mut Vec<u8>, block_type: u16, block_length: u16)
    ensures
        final(out)@ == old(out)@ + header_bytes(block_type, block_length),
{
    push_be16(out, block_type);
    push_be16(out, block_length);
    out.push(0x01);
    out.push(0x00);
    assert(out@ =~= old(out)@ + header_bytes(block_type, block_length));
}

/// ARBlockReq: header, AR type, AR UUID, session key, MAC and object UUID of
/// the initiator, properties, activity timeout factor (100), UDP port
/// (0x8892), and the station name behind its length.
pub open spec fn ar_block_bytes(
    ar_type: u16,
    ar_uuid: Seq<u8>,
    session_key: u16,
    cm_mac: Seq<u8>,
    ar_properties: u32,
    name: Seq<u8>,
) -> Seq<u8> {
    header_bytes(0x0101, (54 + name.len()) as u16) + be16(ar_type) + ar_uuid + be16(session_key)
        + cm_mac + CM_INITIATOR_OBJECT_UUID@ + be32(ar_properties) + be16(100) + be16(0x8892)
        + be16(name.len() as u16) + name
}

/// ARBlockReq (0x0101) for the given station name; the block length is 54 plus
/// the length of the name.
pub fn ar_block_req(
    ar_type: u16,
    ar_uuid: &[u8; 16],
    session_key: u16,
    cm_mac: &[u8; 6],
    ar_properties: u32,
    cm_station_name: &[u8],
) -> (r: Vec<u8>)
    ensures
        r@ == ar_block_bytes(
            ar_type,
            ar_uuid@,
            session_key,
            cm_mac@,
            ar_properties,
            cm_station_name@,
        ),
        r@.len() == 58 + cm_station_name@.len(),
{
    let mut out: Vec<u8> = Vec::new();
    let block_length: u16 = #[verifier::truncate] ((54u128 + cm_station_name.len() as u128) as u16);
    block_header(&mut out, 0x0101, block_length);
    push_be16(&mut out, ar_type);
    push_all(&mut out, ar_uuid.as_slice());
    push_be16(&mut out, session_key);
    push_all(&mut out, cm_mac.as_slice());
    let object = CM_INITIATOR_OBJECT_UUID;
    push_all(&mut out, object.as_slice());
    push_be32(&mut out, ar_properties);
    push_be16(&mut out, 100);
    push_be16(&mut out, 0x8892);
    push_be16(&mut out, cm_station_name.len() as u16);
    push_all(&mut out, cm_station_name);
    assert(out@ =~= ar_block_bytes(
        ar_type,
        ar_uuid@,
        session_key,
        cm_mac@,
        ar_properties,
        cm_station_name@,
    ));
    out
}

/// Bytes that a submodule carries in the direction of an IOCR: 1 is input,
/// everything else output.
pub open spec fn iocr_data_len(slot: IoSlot, iocr_type: u16) -> int {
    if iocr_type == 1 {
        slot.input_length as int
    } else {
        slot.output_length as int
    }
}

/// Whether a submodule gets a consumer status entry: it carries no data in the
/// direction of the IOCR.
pub open spec fn has_iocs(slot: IoSlot, iocr_type: u16) -> bool {
    !(iocr_type == 1 && slot.input_length > 0) && !(iocr_type == 2 && slot.output_length > 0)
}

/// End of the data objects of the first `n` slots: data plus one provider
/// status byte each.
pub open spec fn data_end(slots: Seq<IoSlot>, iocr_type: u16, n: int) -> int
    decreases n,
{
    if n <= 0 {
        0
    } else if iocr_data_len(slots[n - 1], iocr_type) > 0 {
        data_end(slots, iocr_type, n - 1) + iocr_data_len(slots[n - 1], iocr_type) + 1
    } else {
        data_end(slots, iocr_type, n - 1)
    }
}

/// How many of the first `n` slots carry data.
pub open spec fn data_count(slots: Seq<IoSlot>, iocr_type: u16, n: int) -> int
    decreases n,
{
    if n <= 0 {
        0
    } else if iocr_data_len(slots[n - 1], iocr_type) > 0 {
        data_count(slots, iocr_type, n - 1) + 1
    } else {
        data_count(slots, iocr_type, n - 1)
    }
}

/// How many of the first `n` slots get a consumer status entry.
pub open spec fn iocs_count(slots: Seq<IoSlot>, iocr_type: u16, n: int) -> int
    decreases n,
{
    if n <= 0 {
        0
    } else if has_iocs(slots[n - 1], iocr_type) {
        iocs_count(slots, iocr_type, n - 1) + 1
    } else {
        iocs_count(slots, iocr_type, n - 1)
    }
}

/// Where the consumer status of the `n`-th slot would stand: behind all data,
/// one byte for each entry before it.
pub open spec fn iocs_offset(slots: Seq<IoSlot>, iocr_type: u16, n: int) -> int {
    data_end(slots, iocr_type, slots.len() as int) + iocs_count(slots, iocr_type, n)
}

/// Length of the frame's data: all data objects, then all consumer status.
pub open spec fn iocr_frame_len(slots: Seq<IoSlot>, iocr_type: u16) -> int {
    iocs_offset(slots, iocr_type, slots.len() as int)
}

/// One entry of an IOCR's object lists: slot, subslot, frame offset.
pub open spec fn api_object(slot: u16, subslot: u16, frame_offset: int) -> Seq<u8> {
    be16(slot) + be16(subslot) + be16(frame_offset as u16)
}

/// The data object entries of the first `n` slots.
pub open spec fn data_entries(slots: Seq<IoSlot>, iocr_type: u16, n: int) -> Seq<u8>
    decreases n,
{
    if n <= 0 {
        Seq::empty()
    } else if iocr_data_len(slots[n - 1], iocr_type) > 0 {
        data_entries(slots, iocr_type, n - 1) + api_object(
            slots[n - 1].slot,
            slots[n - 1].subslot,
            data_end(slots, iocr_type, n - 1),
        )
    } else {
        data_entries(slots, iocr_type, n - 1)
    }
}

/// The consumer status entries of the first `n` slots.
pub open spec fn iocs_entries(slots: Seq<IoSlot>, iocr_type: u16, n: int) -> Seq<u8>
    decreases n,
{
    if n <= 0 {
        Seq::empty()
    } else if has_iocs(slots[n - 1], iocr_type) {
        iocs_entries(slots, iocr_type, n - 1) + api_object(
            slots[n - 1].slot,
            slots[n - 1].subslot,
            iocs_offset(slots, iocr_type, n - 1),
        )
    } else {
        iocs_entries(slots, iocr_type, n - 1)
    }
}

/// The frame id that a request carries: the controller proposes one for its
/// input IOCR, and asks the device for one for its output IOCR.
pub open spec fn requested_frame_id(iocr_type: u16, iocr_reference: u16) -> u16 {
    if iocr_type == 1 {
        (0xC000 + iocr_reference) as u16
    } else {
        0xFFFF
    }
}

/// IOCRBlockReq: the 46-byte header and one API with its two object lists.
pub open spec fn iocr_block_bytes(iocr_type: u16, iocr_reference: u16, setup: &IocrSetup) -> Seq<u8> {
    let slots = setup.io_slots@;
    let n = slots.len() as int;
    let objects = data_entries(slots, iocr_type, n);
    let iocs = iocs_entries(slots, iocr_type, n);
    let len = iocr_frame_len(slots, iocr_type);
    header_bytes(0x0102, (50 + objects.len() + iocs.len()) as u16) + be16(iocr_type) + be16(
        iocr_reference,
    ) + be16(0x8892) + be32(1) + be16(
        (if len > 40 {
            len
        } else {
            40
        }) as u16,
    ) + be16(requested_frame_id(iocr_type, iocr_reference)) + be16(setup.send_clock_factor) + be16(
        setup.reduction_ratio,
    ) + be16(1) + be16(0) + be32(0xFFFF_FFFF) + be16(setup.watchdog_factor) + be16(
        setup.data_hold_factor,
    ) + be16(0xC000) + zeros(6) + be16(1) + be32(0) + be16(
        data_count(slots, iocr_type, n) as u16,
    ) + objects + be16(iocs_count(slots, iocr_type, n) as u16) + iocs
}

/// The layouts of both directions fit the counters: at most 65535 slots, and
/// frame offsets that a `usize` holds.
pub open spec fn slots_fit(slots: Seq<IoSlot>) -> bool {
    &&& slots.len() <= 0xFFFF
    &&& iocr_frame_len(slots, 1) <= usize::MAX
    &&& iocr_frame_len(slots, 2) <= usize::MAX
}

proof fn lemma_layout_monotone(slots: Seq<IoSlot>, t: u16, m: int, n: int)
    requires
        0 <= m <= n,
    ensures
        0 <= data_end(slots, t, m) <= data_end(slots, t, n),
        0 <= data_count(slots, t, m) <= data_count(slots, t, n),
        data_count(slots, t, m) <= m,
        0 <= iocs_count(slots, t, m) <= iocs_count(slots, t, n),
        iocs_count(slots, t, m) <= m,
    decreases n,
{
    if m < n {
        lemma_layout_monotone(slots, t, m, n - 1);
    } else if 0 < m {
        lemma_layout_monotone(slots, t, m - 1, n - 1);
    }
}

fn iocr_api_object(out: &mut Vec<u8>, slot: u16, subslot: u16, frame_offset: usize)
    ensures
        final(out)@ == old(out)@ + api_object(slot, subslot, frame_offset as int),
{
    push_be16(out, slot);
    push_be16(out, subslot);
    push_be16(out, frame_offset as u16);
    assert(out@ =~= old(out)@ + api_object(slot, subslot, frame_offset as int));
}

/// IOCRBlockReq (0x0102): fixed 46-byte header plus one API sub-block (api 0)
/// listing a data object per submodule carrying data in this IOCR's
/// direction, then a consumer status entry for every other submodule; frame
/// offsets accumulate data length plus one provider status byte per data
/// object and one byte per consumer status. The data length is at least 40.
/// `iocr_type` is 1 for input or 2 for output.
pub fn iocr_block_req(iocr_type: u16, iocr_reference: u16, setup: &IocrSetup) -> (r: Vec<u8>)
    requires
        setup.io_slots@.len() <= 0xFFFF,
        iocr_frame_len(setup.io_slots@, iocr_type) <= usize::MAX,
        iocr_type == 1 ==> iocr_reference <= 0x3FFF,
    ensures
        r@ == iocr_block_bytes(iocr_type, iocr_reference, setup),
{
    let slots: &Vec<IoSlot> = &setup.io_slots;
    let ghost n = slots@.len() as int;
    let mut objects: Vec<u8> = Vec::new();
    let mut num_objects: u16 = 0;
    let mut frame_offset: usize = 0;
    let mut i: usize = 0;
    proof {
        lemma_layout_monotone(slots@, iocr_type, n, n);
    }
    while i < slots.len()
        invariant
            i <= slots@.len() <= 0xFFFF,
            n == slots@.len(),
            iocr_frame_len(slots@, iocr_type) <= usize::MAX,
            0 <= iocs_count(slots@, iocr_type, n),
            objects@ == data_entries(slots@, iocr_type, i as int),
            num_objects == data_count(slots@, iocr_type, i as int),
            num_objects <= i,
            frame_offset == data_end(slots@, iocr_type, i as int),
        decreases slots@.len() - i,
    {
        let slot = slots[i];
        let data_len: usize = if iocr_type == 1 {
            slot.input_length
        } else {
            slot.output_length
        };
        proof {
            lemma_layout_monotone(slots@, iocr_type, i + 1, n);
        }
        if data_len > 0 {
            iocr_api_object(&mut objects, slot.slot, slot.subslot, frame_offset);
            frame_offset = frame_offset + (data_len + 1);
            num_objects = num_objects + 1;
        }
        i = i + 1;
    }
    let mut iocs: Vec<u8> = Vec::new();
    let mut num_iocs: u16 = 0;
    i = 0;
    while i < slots.len()
        invariant
            i <= slots@.len() <= 0xFFFF,
            n == slots@.len(),
            iocr_frame_len(slots@, iocr_type) <= usize::MAX,
            iocs@ == iocs_entries(slots@, iocr_type, i as int),
            num_iocs == iocs_count(slots@, iocr_type, i as int),
            num_iocs <= i,
            frame_offset == iocs_offset(slots@, iocr_type, i as int),
        decreases slots@.len() - i,
    {
        let slot = slots[i];
        proof {
            lemma_layout_monotone(slots@, iocr_type, i + 1, n);
        }
        if !(iocr_type == 1 && slot.input_length > 0) && !(iocr_type == 2 && slot.output_length
            > 0) {
            iocr_api_object(&mut iocs, slot.slot, slot.subslot, frame_offset);
            frame_offset = frame_offset + 1;
            num_iocs = num_iocs + 1;
        }
        i = i + 1;
    }
    let data_length: u16 = if frame_offset > 40 {
        frame_offset as u16
    } else {
        40
    };
    let frame_id: u16 = if iocr_type == 1 {
        0xC000 + iocr_reference
    } else {
        0xFFFF
    };
    let block_length: u16 = (50u128 + objects.len() as u128 + iocs.len() as u128) as u16;
    let mut out: Vec<u8> = Vec::new();
    block_header(&mut out, 0x0102, block_length);
    push_be16(&mut out, iocr_type);
    push_be16(&mut out, iocr_reference);
    push_be16(&mut out, 0x8892);  // EtherType
    push_be32(&mut out, 0x0000_0001);  // RT_CLASS_1
    push_be16(&mut out, data_length);
    push_be16(&mut out, frame_id);
    push_be16(&mut out, setup.send_clock_factor);
    push_be16(&mut out, setup.reduction_ratio);
    push_be16(&mut out, 1);  // phase, 1-based
    push_be16(&mut out, 0);  // sequence
    push_be32(&mut out, 0xFFFF_FFFF);  // frame send offset
    push_be16(&mut out, setup.watchdog_factor);
    push_be16(&mut out, setup.data_hold_factor);
    push_be16(&mut out, 0xC000);  // tag header
    push_zeros(&mut out, 6);  // multicast MAC
    push_be16(&mut out, 1);  // number of APIs
    push_be32(&mut out, 0);  // API
    push_be16(&mut out, num_objects);
    push_all(&mut out, objects.as_slice());
    push_be16(&mut out, num_iocs);
    push_all(&mut out, iocs.as_slice());
    assert(Seq::<u8>::empty() + header_bytes(0x0102, block_length) =~= header_bytes(
        0x0102,
        block_length,
    ));
    out
}

/// AlarmCRBlockReq: 26 bytes.
pub open spec fn alarm_cr_bytes(local_alarm_reference: u16, transport: u16, priority: u16) -> Seq<u8> {
    header_bytes(0x0103, 22) + be16(1) + be16(
        if transport == 0 {
            0x8892
        } else {
            0x0800
        },
    ) + be32(((transport as u32) << 1) | priority as u32) + be16(1) + be16(3) + be16(
        local_alarm_reference,
    ) + be16(200) + be16(0xC000) + be16(0xA000)
}

/// AlarmCRBlockReq (0x0103): 26 fixed bytes. `transport` 0 is layer 2 (LT
/// 0x8892), 1 is UDP (LT 0x0800), `priority` 0 is low, 1 is high; the
/// properties pack them as (transport << 1) | priority.
pub fn alarm_cr_block(local_alarm_reference: u16, transport: u16, priority: u16) -> (r: Vec<u8>)
    ensures
        r@ == alarm_cr_bytes(local_alarm_reference, transport, priority),
        r@.len() == 26,
{
    let mut out: Vec<u8> = Vec::new();
    block_header(&mut out, 0x0103, 22);
    push_be16(&mut out, 0x0001);
    let lt: u16 = if transport == 0 {
        0x8892
    } else {
        0x0800
    };
    push_be16(&mut out, lt);
    push_be32(&mut out, ((transport as u32) << 1) | priority as u32);
    push_be16(&mut out, DEFAULT_RTA_TIMEOUT_FACTOR);
    push_be16(&mut out, DEFAULT_RTA_RETRIES);
    push_be16(&mut out, local_alarm_reference);
    push_be16(&mut out, DEFAULT_MAX_ALARM_DATA_LENGTH);
    push_be16(&mut out, DEFAULT_TAG_HEADER_HIGH);
    push_be16(&mut out, DEFAULT_TAG_HEADER_LOW);
    assert(out@ =~= alarm_cr_bytes(local_alarm_reference, transport, priority));
    out
}

/// The submodule type that the IO lengths imply: 0 none, 1 input, 2 output, 3
/// both.
pub open spec fn submodule_type(slot: IoSlot) -> u16 {
    if slot.input_length > 0 && slot.output_length > 0 {
        3
    } else if slot.input_length > 0 {
        1
    } else if slot.output_length > 0 {
        2
    } else {
        0
    }
}

/// One data description: direction, length, and one byte of each status.
pub open spec fn data_description(direction: u16, length: usize) -> Seq<u8> {
    be16(direction) + be16(length as u16) + seq![1u8, 1u8]
}

/// One expected submodule: subslot, ident, type, then an input description
/// unless it only has outputs, then an output description if it has outputs.
pub open spec fn submodule_bytes(slot: IoSlot) -> Seq<u8> {
    be16(slot.subslot) + be32(slot.submodule_ident) + be16(submodule_type(slot)) + (if submodule_type(
        slot,
    ) == 2 {
        Seq::empty()
    } else {
        data_description(1, slot.input_length)
    }) + (if slot.output_length > 0 {
        data_description(2, slot.output_length)
    } else {
        Seq::empty()
    })
}

/// The slot numbers among the first `n` entries, in order of first occurrence.
pub open spec fn first_seen(slots: Seq<IoSlot>, n: int) -> Seq<u16>
    decreases n,
{
    if n <= 0 {
        Seq::empty()
    } else {
        let before = first_seen(slots, n - 1);
        if before.contains(slots[n - 1].slot) {
            before
        } else {
            before.push(slots[n - 1].slot)
        }
    }
}

/// The submodules of one slot among the first `n` entries, in order.
pub open spec fn slot_submodules(slots: Seq<IoSlot>, slot: u16, n: int) -> Seq<u8>
    decreases n,
{
    if n <= 0 {
        Seq::empty()
    } else if slots[n - 1].slot == slot {
        slot_submodules(slots, slot, n - 1) + submodule_bytes(slots[n - 1])
    } else {
        slot_submodules(slots, slot, n - 1)
    }
}

/// How many of the first `n` entries belong to one slot.
pub open spec fn slot_submodule_count(slots: Seq<IoSlot>, slot: u16, n: int) -> int
    decreases n,
{
    if n <= 0 {
        0
    } else if slots[n - 1].slot == slot {
        slot_submodule_count(slots, slot, n - 1) + 1
    } else {
        slot_submodule_count(slots, slot, n - 1)
    }
}

/// The module ident of the first entry of one slot.
pub open spec fn slot_module(slots: Seq<IoSlot>, slot: u16, n: int) -> u32
    decreases n,
{
    if n <= 0 {
        0
    } else if slot_submodule_count(slots, slot, n - 1) == 0 && slots[n - 1].slot == slot {
        slots[n - 1].module_ident
    } else {
        slot_module(slots, slot, n - 1)
    }
}

/// The API entry of one slot: API 0, slot, module ident, properties 0, the
/// number of its submodules, the submodules.
pub open spec fn api_entry(slots: Seq<IoSlot>, slot: u16) -> Seq<u8> {
    let n = slots.len() as int;
    be32(0) + be16(slot) + be32(slot_module(slots, slot, n)) + be16(0) + be16(
        slot_submodule_count(slots, slot, n) as u16,
    ) + slot_submodules(slots, slot, n)
}

/// The API entries of the first `k` slot numbers.
pub open spec fn api_entries(slots: Seq<IoSlot>, numbers: Seq<u16>, k: int) -> Seq<u8>
    decreases k,
{
    if k <= 0 {
        Seq::empty()
    } else {
        api_entries(slots, numbers, k - 1) + api_entry(slots, numbers[k - 1])
    }
}

/// ExpectedSubmoduleBlockReq.
pub open spec fn expected_submodule_bytes(slots: Seq<IoSlot>) -> Seq<u8> {
    let numbers = first_seen(slots, slots.len() as int);
    let entries = api_entries(slots, numbers, numbers.len() as int);
    header_bytes(0x0104, (entries.len() + 4) as u16) + be16(numbers.len() as u16) + entries
}

fn push_data_description(out: &mut Vec<u8>, direction: u16, length: usize)
    ensures
        final(out)@ == old(out)@ + data_description(direction, length),
{
    push_be16(out, direction);
    push_be16(out, length as u16);
    out.push(1);
    out.push(1);
    assert(out@ =~= old(out)@ + data_description(direction, length));
}

fn push_submodule(out: &mut Vec<u8>, slot: &IoSlot)
    ensures
        final(out)@ == old(out)@ + submodule_bytes(*slot),
{
    let kind: u16 = if slot.input_length > 0 && slot.output_length > 0 {
        3
    } else if slot.input_length > 0 {
        1
    } else if slot.output_length > 0 {
        2
    } else {
        0
    };
    push_be16(out, slot.subslot);
    push_be32(out, slot.submodule_ident);
    push_be16(out, kind);
    if kind != 2 {
        push_data_description(out, 1, slot.input_length);
    }
    if slot.output_length > 0 {
        push_data_description(out, 2, slot.output_length);
    }
    assert(out@ =~= old(out)@ + submodule_bytes(*slot));
}

fn first_seen_slots(slots: &[IoSlot]) -> (r: Vec<u16>)
    ensures
        r@ == first_seen(slots@, slots@.len() as int),
{
    let mut numbers: Vec<u16> = Vec::new();
    let mut i: usize = 0;
    while i < slots.len()
        invariant
            i <= slots@.len(),
            numbers@ == first_seen(slots@, i as int),
        decreases slots@.len() - i,
    {
        let slot: u16 = slots[i].slot;
        let mut known = false;
        let mut k: usize = 0;
        while k < numbers.len()
            invariant
                k <= numbers@.len(),
                known == exists|w: int| 0 <= w < k && #[trigger] numbers@[w] == slot,
            decreases numbers@.len() - k,
        {
            if numbers[k] == slot {
                known = true;
            }
            k = k + 1;
        }
        if !known {
            numbers.push(slot);
        }
        i = i + 1;
    }
    numbers
}

fn push_api_entry(out: &mut Vec<u8>, slots: &[IoSlot], slot: u16)
    requires
        slots@.len() <= 0xFFFF,
    ensures
        final(out)@ == old(out)@ + api_entry(slots@, slot),
{
    let mut submodules: Vec<u8> = Vec::new();
    let mut count: u16 = 0;
    let mut module_ident: u32 = 0;
    let mut i: usize = 0;
    while i < slots.len()
        invariant
            i <= slots@.len() <= 0xFFFF,
            count <= i,
            count == slot_submodule_count(slots@, slot, i as int),
            submodules@ == slot_submodules(slots@, slot, i as int),
            module_ident == slot_module(slots@, slot, i as int),
        decreases slots@.len() - i,
    {
        let s = slots[i];
        if s.slot == slot {
            if count == 0 {
                module_ident = s.module_ident;
            }
            push_submodule(&mut submodules, &s);
            count = count + 1;
        }
        i = i + 1;
    }
    push_be32(out, 0);
    push_be16(out, slot);
    push_be32(out, module_ident);
    push_be16(out, 0);
    push_be16(out, count);
    push_all(out, submodules.as_slice());
    assert(out@ =~= old(out)@ + api_entry(slots@, slot));
}

/// ExpectedSubmoduleBlockReq (0x0104): submodules are grouped into one API
/// entry per slot in order of first occurrence, the entry's module ident taken
/// from the slot's first submodule. A submodule's type follows from its IO
/// lengths, and its data descriptions from the type: a submodule without IO
/// gets one input description of length 0.
pub fn expected_submodule_block(setup: &IocrSetup) -> (r: Vec<u8>)
    requires
        setup.io_slots@.len() <= 0xFFFF,
    ensures
        r@ == expected_submodule_bytes(setup.io_slots@),
{
    let slots: &[IoSlot] = setup.io_slots.as_slice();
    let numbers = first_seen_slots(slots);
    let mut entries: Vec<u8> = Vec::new();
    let mut k: usize = 0;
    while k < numbers.len()
        invariant
            k <= numbers@.len(),
            slots@.len() <= 0xFFFF,
            entries@ == api_entries(slots@, numbers@, k as int),
        decreases numbers@.len() - k,
    {
        push_api_entry(&mut entries, slots, numbers[k]);
        k = k + 1;
    }
    let mut out: Vec<u8> = Vec::new();
    block_header(&mut out, 0x0104, (entries.len() as u128 + 4) as u16);
    push_be16(&mut out, numbers.len() as u16);
    push_all(&mut out, entries.as_slice());
    assert(out@ =~= expected_submodule_bytes(slots@));
    out
}

/// Each slot has exactly one API entry in the expected submodule block.
pub proof fn first_seen_is_unique(slots: Seq<IoSlot>, n: int)
    requires
        0 <= n <= slots.len(),
    ensures
        first_seen(slots, n).no_duplicates(),
        forall|i: int| 0 <= i < n ==> first_seen(slots, n).contains((#[trigger] slots[i]).slot),
        forall|k: int|
            0 <= k < first_seen(slots, n).len() ==> slot_submodule_count(
                slots,
                #[trigger] first_seen(slots, n)[k],
                n,
            ) > 0,
    decreases n,
{
    if n > 0 {
        first_seen_is_unique(slots, n - 1);
        let before = first_seen(slots, n - 1);
        let after = first_seen(slots, n);
        let last = slots[n - 1].slot;
        assert forall|k: int| 0 <= k < after.len() implies slot_submodule_count(
            slots,
            #[trigger] after[k],
            n,
        ) > 0 by {
            lemma_count_nonneg(slots, after[k], n - 1);
            if k < before.len() {
                assert(after[k] == before[k]);
            }
        }
        if !before.contains(last) {
            assert(after[before.len() as int] == last);
            assert forall|i: int| 0 <= i < n implies after.contains((#[trigger] slots[i]).slot) by {
                if i < n - 1 {
                    let w = choose|w: int| 0 <= w < before.len() && before[w] == slots[i].slot;
                    assert(after[w] == slots[i].slot);
                }
            }
        }
    }
}

proof fn lemma_count_nonneg(slots: Seq<IoSlot>, slot: u16, n: int)
    ensures
        slot_submodule_count(slots, slot, n) >= 0,
    decreases n,
{
    if n > 0 {
        lemma_count_nonneg(slots, slot, n - 1);
    }
}

/// The blocks of a connect request with cyclic data: AR (IOCARSingle), input
/// IOCR (reference 1), output IOCR (reference 2), alarm CR (reference 1),
/// expected submodules.
pub open spec fn connect_blocks(
    ar_uuid: Seq<u8>,
    session_key: u16,
    cm_mac: Seq<u8>,
    name: Seq<u8>,
    setup: &IocrSetup,
) -> Seq<u8> {
    ar_block_bytes(AR_TYPE_IOCAR_SINGLE, ar_uuid, session_key, cm_mac, AR_PROPERTIES_IOCAR, name)
        + iocr_block_bytes(1, 1, setup) + iocr_block_bytes(2, 2, setup) + alarm_cr_bytes(1, 0, 0)
        + expected_submodule_bytes(setup.io_slots@)
}

/// A connect request with cyclic data.
pub open spec fn connect_request_bytes(
    object_uuid: Seq<u8>,
    iface_uuid: Seq<u8>,
    activity_uuid: Seq<u8>,
    ar_uuid: Seq<u8>,
    session_key: u16,
    cm_mac: Seq<u8>,
    name: Seq<u8>,
    setup: &IocrSetup,
    seq: u32,
) -> Seq<u8> {
    rpc_request_bytes(
        object_uuid,
        iface_uuid,
        activity_uuid,
        seq,
        CONNECT,
        nrd_bytes(connect_blocks(ar_uuid, session_key, cm_mac, name, setup)),
    )
}

/// Full Connect request for a fresh connection with cyclic data: ARBlockReq,
/// input IOCRBlockReq, output IOCRBlockReq, AlarmCRBlockReq and
/// ExpectedSubmoduleBlockReq, wrapped in NRD and the RPC request header.
pub fn build_connect_request(
    object_uuid: &[u8; 16],
    iface_uuid: &[u8; 16],
    activity_uuid: &[u8; 16],
    ar_uuid: &[u8; 16],
    session_key: u16,
    cm_mac: &[u8; 6],
    cm_station_name: &[u8],
    setup: &IocrSetup,
    seq: u32,
) -> (r: Vec<u8>)
    requires
        slots_fit(setup.io_slots@),
    ensures
        r@ == connect_request_bytes(
            object_uuid@,
            iface_uuid@,
            activity_uuid@,
            ar_uuid@,
            session_key,
            cm_mac@,
            cm_station_name@,
            setup,
            seq,
        ),
        r@.len() >= 100,
{
    let mut body = ar_block_req(
        AR_TYPE_IOCAR_SINGLE,
        ar_uuid,
        session_key,
        cm_mac,
        AR_PROPERTIES_IOCAR,
        cm_station_name,
    );
    push_all(&mut body, iocr_block_req(1, 1, setup).as_slice());
    push_all(&mut body, iocr_block_req(2, 2, setup).as_slice());
    push_all(&mut body, alarm_cr_block(1, 0, 0).as_slice());
    push_all(&mut body, expected_submodule_block(setup).as_slice());
    let wrapped = nrd(body.as_slice());
    rpc_request(object_uuid, iface_uuid, activity_uuid, seq, CONNECT, wrapped.as_slice())
}

/// A connect request for device access.
pub open spec fn device_access_request_bytes(
    object_uuid: Seq<u8>,
    iface_uuid: Seq<u8>,
    activity_uuid: Seq<u8>,
    ar_uuid: Seq<u8>,
    session_key: u16,
    cm_mac: Seq<u8>,
    name: Seq<u8>,
    seq: u32,
) -> Seq<u8> {
    rpc_request_bytes(
        object_uuid,
        iface_uuid,
        activity_uuid,
        seq,
        CONNECT,
        nrd_bytes(
            ar_block_bytes(
                AR_TYPE_IOSAR,
                ar_uuid,
                session_key,
                cm_mac,
                AR_PROPERTIES_DEVICE_ACCESS,
                name,
            ),
        ),
    )
}

/// Connect request for a Device-Access AR: a lone ARBlockReq with AR type
/// IOSAR and the DeviceAccess properties, no IOCR, AlarmCR or
/// ExpectedSubmodule blocks. This AR carries acyclic reads and writes only.
pub fn build_device_access_connect_request(
    object_uuid: &[u8; 16],
    iface_uuid: &[u8; 16],
    activity_uuid: &[u8; 16],
    ar_uuid: &[u8; 16],
    session_key: u16,
    cm_mac: &[u8; 6],
    cm_station_name: &[u8],
    seq: u32,
) -> (r: Vec<u8>)
    ensures
        r@ == device_access_request_bytes(
            object_uuid@,
            iface_uuid@,
            activity_uuid@,
            ar_uuid@,
            session_key,
            cm_mac@,
            cm_station_name@,
            seq,
        ),
        r@.len() >= 100,
{
    let body = ar_block_req(
        AR_TYPE_IOSAR,
        ar_uuid,
        session_key,
        cm_mac,
        AR_PROPERTIES_DEVICE_ACCESS,
        cm_station_name,
    );
    let wrapped = nrd(body.as_slice());
    rpc_request(object_uuid, iface_uuid, activity_uuid, seq, CONNECT, wrapped.as_slice())
}

/// A submodule as a device reads it from an expected submodule block: subslot,
/// ident, type, and its data descriptions (direction, data length, length of the
/// consumer status, length of the provider status).
#[verifier::ext_equal]
pub struct AnnouncedSubmodule {
    pub subslot: u16,
    pub ident: u32,
    pub kind: u16,
    pub descriptions: Seq<(u16, u16, u8, u8)>,
}

/// A module as a device reads it from an expected submodule block.
#[verifier::ext_equal]
pub struct AnnouncedModule {
    pub api: u32,
    pub slot: u16,
    pub ident: u32,
    pub properties: u16,
    pub submodules: Seq<AnnouncedSubmodule>,
}

/// The data description at `off`.
pub open spec fn description_at(b: Seq<u8>, off: int) -> (u16, u16, u8, u8) {
    (be16_at(b, off), be16_at(b, off + 2), b[off + 4], b[off + 5])
}

/// The submodule at `off`, and the offset behind it: one with inputs and outputs
/// has two descriptions, any other one.
#[verifier::opaque]
pub open spec fn submodule_at(b: Seq<u8>, off: int) -> (AnnouncedSubmodule, int) {
    let kind = be16_at(b, off + 6);
    (
        AnnouncedSubmodule {
            subslot: be16_at(b, off),
            ident: be32_at(b, off + 2),
            kind,
            descriptions: if kind == 3 {
                seq![description_at(b, off + 8), description_at(b, off + 14)]
            } else {
                seq![description_at(b, off + 8)]
            },
        },
        if kind == 3 {
            off + 20
        } else {
            off + 14
        },
    )
}

/// `n` submodules from `off` on, and the offset behind them.
pub open spec fn submodules_at(b: Seq<u8>, off: int, n: nat) -> (Seq<AnnouncedSubmodule>, int)
    decreases n,
{
    if n == 0 {
        (Seq::empty(), off)
    } else {
        let (first, next) = submodule_at(b, off);
        let (rest, end) = submodules_at(b, next, (n - 1) as nat);
        (seq![first] + rest, end)
    }
}

/// The module at `off`, and the offset behind it.
#[verifier::opaque]
pub open spec fn module_at(b: Seq<u8>, off: int) -> (AnnouncedModule, int) {
    let (submodules, end) = submodules_at(b, off + 14, be16_at(b, off + 12) as nat);
    (
        AnnouncedModule {
            api: be32_at(b, off),
            slot: be16_at(b, off + 4),
            ident: be32_at(b, off + 6),
            properties: be16_at(b, off + 10),
            submodules,
        },
        end,
    )
}

/// `n` modules from `off` on, and the offset behind them.
pub open spec fn modules_at(b: Seq<u8>, off: int, n: nat) -> (Seq<AnnouncedModule>, int)
    decreases n,
{
    if n == 0 {
        (Seq::empty(), off)
    } else {
        let (first, next) = module_at(b, off);
        let (rest, end) = modules_at(b, next, (n - 1) as nat);
        (seq![first] + rest, end)
    }
}

/// What a submodule is to be announced as: its inputs with direction 1 and its
/// input length, its outputs with direction 2 and its output length, and without
/// either no inputs.
pub open spec fn announced(s: IoSlot) -> AnnouncedSubmodule {
    let inputs = (1u16, s.input_length as u16, 1u8, 1u8);
    let outputs = (2u16, s.output_length as u16, 1u8, 1u8);
    AnnouncedSubmodule {
        subslot: s.subslot,
        ident: s.submodule_ident,
        kind: if s.input_length > 0 && s.output_length > 0 {
            3
        } else if s.output_length > 0 {
            2
        } else if s.input_length > 0 {
            1
        } else {
            0
        },
        descriptions: if s.input_length > 0 && s.output_length > 0 {
            seq![inputs, outputs]
        } else if s.output_length > 0 {
            seq![outputs]
        } else {
            seq![inputs]
        },
    }
}

/// The entries of one slot, in order.
pub open spec fn of_slot(slots: Seq<IoSlot>, slot: u16) -> Seq<IoSlot> {
    slots.filter(|s: IoSlot| s.slot == slot)
}

/// What a slot is to be announced as: all its submodules, in order, under the
/// module of the first of them.
#[verifier::opaque]
pub open spec fn announced_slot(slots: Seq<IoSlot>, slot: u16) -> AnnouncedModule {
    let own = of_slot(slots, slot);
    AnnouncedModule {
        api: 0,
        slot,
        ident: own[0].module_ident,
        properties: 0,
        submodules: Seq::new(own.len(), |i: int| announced(own[i])),
    }
}

proof fn lemma_description(pre: Seq<u8>, direction: u16, length: usize, post: Seq<u8>)
    ensures
        description_at(pre + data_description(direction, length) + post, pre.len() as int) == (
            direction,
            length as u16,
            1u8,
            1u8,
        ),
        data_description(direction, length).len() == 6,
{
    let b = pre + data_description(direction, length) + post;
    be16_placed(b, pre.len() as int, direction);
    be16_placed(b, pre.len() as int + 2, length as u16);
}

proof fn lemma_submodule(pre: Seq<u8>, s: IoSlot, post: Seq<u8>)
    ensures
        submodule_at(pre + submodule_bytes(s) + post, pre.len() as int) == (
            announced(s),
            (pre.len() + submodule_bytes(s).len()) as int,
        ),
{
    reveal(submodule_at);
    let b = pre + submodule_bytes(s) + post;
    let k = pre.len() as int;
    let head = be16(s.subslot) + be32(s.submodule_ident) + be16(submodule_type(s));
    be16_placed(b, k, s.subslot);
    be32_placed(b, k + 2, s.submodule_ident);
    be16_placed(b, k + 6, submodule_type(s));
    let inputs = data_description(1, s.input_length);
    let outputs = data_description(2, s.output_length);
    let at = pre + head;
    lemma_description(at, 1, s.input_length, outputs + post);
    lemma_description(at, 1, s.input_length, post);
    lemma_description(at, 2, s.output_length, post);
    lemma_description(at + inputs, 2, s.output_length, post);
    if s.input_length > 0 && s.output_length > 0 {
        assert(b =~= at + inputs + (outputs + post));
        assert(b =~= (at + inputs) + outputs + post);
    } else if s.output_length > 0 {
        assert(b =~= at + outputs + post);
    } else {
        assert(b =~= at + inputs + post);
    }
    assert(submodule_at(b, k).0.descriptions =~= announced(s).descriptions);
}

/// The submodules of a list, one behind the other.
pub open spec fn submodules_bytes(s: Seq<IoSlot>) -> Seq<u8>
    decreases s.len(),
{
    if s.len() == 0 {
        Seq::empty()
    } else {
        submodule_bytes(s[0]) + submodules_bytes(s.skip(1))
    }
}

proof fn lemma_submodules_push(s: Seq<IoSlot>, x: IoSlot)
    ensures
        submodules_bytes(s.push(x)) == submodules_bytes(s) + submodule_bytes(x),
    decreases s.len(),
{
    reveal_with_fuel(submodules_bytes, 3);
    if s.len() == 0 {
        assert(s.push(x).skip(1) =~= Seq::empty());
        assert(submodules_bytes(s.push(x)) =~= submodules_bytes(s) + submodule_bytes(x));
    } else {
        lemma_submodules_push(s.skip(1), x);
        assert(s.push(x).skip(1) =~= s.skip(1).push(x));
        assert(submodules_bytes(s.push(x)) =~= submodules_bytes(s) + submodule_bytes(x));
    }
}

proof fn lemma_slot_entries(slots: Seq<IoSlot>, slot: u16, n: int)
    requires
        0 <= n <= slots.len(),
    ensures
        slot_submodules(slots, slot, n) == submodules_bytes(of_slot(slots.take(n), slot)),
        slot_submodule_count(slots, slot, n) == of_slot(slots.take(n), slot).len(),
        of_slot(slots.take(n), slot).len() > 0 ==> slot_module(slots, slot, n) == of_slot(
            slots.take(n),
            slot,
        )[0].module_ident,
    decreases n,
{
    reveal(Seq::filter);
    if n > 0 {
        lemma_slot_entries(slots, slot, n - 1);
        let s = slots[n - 1];
        let before = of_slot(slots.take(n - 1), slot);
        assert(slots.take(n).drop_last() =~= slots.take(n - 1));
        assert(slots.take(n).last() == s);
        if s.slot == slot {
            assert(of_slot(slots.take(n), slot) == before.push(s));
            lemma_submodules_push(before, s);
        }
    } else {
        assert(slots.take(0) =~= Seq::empty());
    }
}

proof fn lemma_submodules(pre: Seq<u8>, s: Seq<IoSlot>, post: Seq<u8>)
    ensures
        submodules_at(pre + submodules_bytes(s) + post, pre.len() as int, s.len()) == (
            Seq::new(s.len(), |i: int| announced(s[i])),
            (pre.len() + submodules_bytes(s).len()) as int,
        ),
    decreases s.len(),
{
    let b = pre + submodules_bytes(s) + post;
    let want = Seq::new(s.len(), |i: int| announced(s[i]));
    if s.len() == 0 {
        assert(want =~= Seq::empty());
    } else {
        let first = submodule_bytes(s[0]);
        let rest = s.skip(1);
        let tail = submodules_bytes(rest);
        lemma_submodule(pre, s[0], tail + post);
        assert(b =~= pre + first + (tail + post));
        lemma_submodules(pre + first, rest, post);
        assert(b =~= (pre + first) + tail + post);
        assert(want =~= seq![announced(s[0])] + Seq::new(rest.len(), |i: int| announced(rest[i])));
    }
}

proof fn lemma_module(pre: Seq<u8>, slots: Seq<IoSlot>, slot: u16, post: Seq<u8>)
    requires
        slots.len() <= 0xFFFF,
        of_slot(slots, slot).len() > 0,
    ensures
        module_at(pre + api_entry(slots, slot) + post, pre.len() as int) == (
            announced_slot(slots, slot),
            (pre.len() + api_entry(slots, slot).len()) as int,
        ),
{
    reveal(module_at);
    reveal(announced_slot);
    let n = slots.len() as int;
    let own = of_slot(slots, slot);
    lemma_slot_entries(slots, slot, n);
    assert(slots.take(n) =~= slots);
    slots.lemma_filter_len(|s: IoSlot| s.slot == slot);
    let b = pre + api_entry(slots, slot) + post;
    let k = pre.len() as int;
    let head = be32(0) + be16(slot) + be32(slot_module(slots, slot, n)) + be16(0) + be16(
        own.len() as u16,
    );
    assert(api_entry(slots, slot) == head + submodules_bytes(own));
    be32_placed(b, k, 0);
    be16_placed(b, k + 4, slot);
    be32_placed(b, k + 6, slot_module(slots, slot, n));
    be16_placed(b, k + 10, 0);
    be16_placed(b, k + 12, own.len() as u16);
    lemma_submodules(pre + head, own, post);
    assert(b =~= (pre + head) + submodules_bytes(own) + post);
}

proof fn lemma_modules(pre: Seq<u8>, slots: Seq<IoSlot>, numbers: Seq<u16>, from: int, post: Seq<u8>)
    requires
        slots.len() <= 0xFFFF,
        0 <= from <= numbers.len(),
        forall|k: int| 0 <= k < numbers.len() ==> of_slot(slots, #[trigger] numbers[k]).len() > 0,
    ensures
        ({
            let all = api_entries(slots, numbers, numbers.len() as int);
            let done = api_entries(slots, numbers, from);
            modules_at(
                pre + all + post,
                (pre.len() + done.len()) as int,
                (numbers.len() - from) as nat,
            ) == (
                Seq::new(
                    (numbers.len() - from) as nat,
                    |i: int| announced_slot(slots, numbers[from + i]),
                ),
                (pre.len() + all.len()) as int,
            )
        }),
    decreases numbers.len() - from,
{
    let n = numbers.len() as int;
    let all = api_entries(slots, numbers, n);
    let done = api_entries(slots, numbers, from);
    let b = pre + all + post;
    let want = Seq::new((n - from) as nat, |i: int| announced_slot(slots, numbers[from + i]));
    if from < n {
        lemma_modules(pre, slots, numbers, from + 1, post);
        let tail = Seq::new(
            (n - from - 1) as nat,
            |i: int| announced_slot(slots, numbers[from + 1 + i]),
        );
        lemma_api_entries_prefix(slots, numbers, from + 1, n);
        let entry = api_entry(slots, numbers[from]);
        let next = api_entries(slots, numbers, from + 1);
        assert(next == done + entry);
        let rest = all.skip(next.len() as int);
        assert(all =~= done + entry + rest);
        lemma_module(pre + done, slots, numbers[from], rest + post);
        assert(b =~= (pre + done) + entry + (rest + post));
        assert(want =~= seq![announced_slot(slots, numbers[from])] + tail);
        assert(modules_at(b, (pre.len() + next.len()) as int, (n - from - 1) as nat).0 == tail);
    } else {
        assert(want =~= Seq::empty());
    }
}

proof fn lemma_api_entries_prefix(slots: Seq<IoSlot>, numbers: Seq<u16>, m: int, n: int)
    requires
        0 <= m <= n <= numbers.len(),
    ensures
        api_entries(slots, numbers, m).len() <= api_entries(slots, numbers, n).len(),
        api_entries(slots, numbers, n).take(api_entries(slots, numbers, m).len() as int)
            == api_entries(slots, numbers, m),
    decreases n - m,
{
    let a = api_entries(slots, numbers, m);
    if m < n {
        lemma_api_entries_prefix(slots, numbers, m, n - 1);
        let b = api_entries(slots, numbers, n - 1);
        assert(api_entries(slots, numbers, n).take(a.len() as int) =~= b.take(a.len() as int));
    } else {
        assert(a.take(a.len() as int) =~= a);
    }
}

/// A device that reads the expected submodule block finds every slot once, in the
/// order of its first occurrence, under the module of its first submodule, and in
/// it every submodule, in order, with its own ident and its own lengths: what is
/// announced with direction 1 is the input length, with direction 2 the output
/// length.
pub proof fn every_submodule_is_announced(slots: Seq<IoSlot>)
    requires
        slots.len() <= 0xFFFF,
        expected_submodule_bytes(slots).len() <= 0xFFFF,
    ensures
        ({
            let b = expected_submodule_bytes(slots);
            let numbers = first_seen(slots, slots.len() as int);
            &&& be16_at(b, 0) == 0x0104
            &&& be16_at(b, 2) == b.len() - 4
            &&& b[4] == 1 && b[5] == 0
            &&& be16_at(b, 6) == numbers.len()
            &&& modules_at(b, 8, numbers.len()) == (
                Seq::new(numbers.len(), |i: int| announced_slot(slots, numbers[i])),
                b.len() as int,
            )
            &&& numbers.no_duplicates()
            &&& forall|i: int| 0 <= i < slots.len() ==> numbers.contains((#[trigger] slots[i]).slot)
        }),
{
    let n = slots.len() as int;
    let b = expected_submodule_bytes(slots);
    let numbers = first_seen(slots, n);
    let entries = api_entries(slots, numbers, numbers.len() as int);
    first_seen_is_unique(slots, n);
    lemma_first_seen_len(slots, n);
    let head = header_bytes(0x0104, (entries.len() + 4) as u16) + be16(numbers.len() as u16);
    assert(b == head + entries);
    be16_placed(b, 0, 0x0104);
    be16_placed(b, 2, (entries.len() + 4) as u16);
    be16_placed(b, 6, numbers.len() as u16);
    assert forall|k: int| 0 <= k < numbers.len() implies of_slot(slots, #[trigger] numbers[k]).len()
        > 0 by {
        lemma_slot_entries(slots, numbers[k], n);
        assert(slots.take(n) =~= slots);
    }
    lemma_modules(head, slots, numbers, 0, Seq::empty());
    assert(head + entries + Seq::empty() =~= b);
    assert(Seq::new(numbers.len(), |i: int| announced_slot(slots, numbers[i])) =~= Seq::new(
        (numbers.len() - 0) as nat,
        |i: int| announced_slot(slots, numbers[0 + i]),
    ));
}

proof fn lemma_first_seen_len(slots: Seq<IoSlot>, n: int)
    requires
        0 <= n <= slots.len(),
    ensures
        first_seen(slots, n).len() <= n,
    decreases n,
{
    if n > 0 {
        lemma_first_seen_len(slots, n - 1);
    }
}

/// Every byte of an AR block: type, length, version, then AR type, AR UUID,
/// session key, the initiator's MAC address and object UUID, properties, activity
/// timeout, port, and the station name behind its length.
pub proof fn ar_blocks_have_their_layout(
    ar_type: u16,
    ar_uuid: Seq<u8>,
    session_key: u16,
    cm_mac: Seq<u8>,
    ar_properties: u32,
    name: Seq<u8>,
)
    requires
        ar_uuid.len() == 16,
        cm_mac.len() == 6,
        name.len() <= 0xFF00,
    ensures
        ({
            let b = ar_block_bytes(ar_type, ar_uuid, session_key, cm_mac, ar_properties, name);
            &&& b.len() == 58 + name.len()
            &&& be16_at(b, 0) == 0x0101
            &&& be16_at(b, 2) == b.len() - 4
            &&& b[4] == 1 && b[5] == 0
            &&& be16_at(b, 6) == ar_type
            &&& b.subrange(8, 24) == ar_uuid
            &&& be16_at(b, 24) == session_key
            &&& b.subrange(26, 32) == cm_mac
            &&& b.subrange(32, 48) == seq![
                0xDEu8,
                0xA0,
                0x00,
                0x00,
                0x6C,
                0x97,
                0x11,
                0xD1,
                0x82,
                0x71,
                0x00,
                0x01,
                0x76,
                0x54,
                0x32,
                0x10,
            ]
            &&& be32_at(b, 48) == ar_properties
            &&& be16_at(b, 52) == 100
            &&& be16_at(b, 54) == 0x8892
            &&& be16_at(b, 56) == name.len()
            &&& b.skip(58) == name
        }),
{
    let b = ar_block_bytes(ar_type, ar_uuid, session_key, cm_mac, ar_properties, name);
    be16_placed(b, 0, 0x0101);
    be16_placed(b, 2, (54 + name.len()) as u16);
    be16_placed(b, 6, ar_type);
    assert(b.subrange(8, 24) =~= ar_uuid);
    be16_placed(b, 24, session_key);
    assert(b.subrange(26, 32) =~= cm_mac);
    assert(b.subrange(32, 48) =~= CM_INITIATOR_OBJECT_UUID@);
    assert(CM_INITIATOR_OBJECT_UUID@ =~= seq![
        0xDEu8,
        0xA0,
        0x00,
        0x00,
        0x6C,
        0x97,
        0x11,
        0xD1,
        0x82,
        0x71,
        0x00,
        0x01,
        0x76,
        0x54,
        0x32,
        0x10,
    ]);
    be32_placed(b, 48, ar_properties);
    be16_placed(b, 52, 100);
    be16_placed(b, 54, 0x8892);
    be16_placed(b, 56, name.len() as u16);
    assert(b.skip(58) =~= name);
}

/// Every byte of an alarm CR block for alarms over layer 2 or UDP, of low or high
/// priority.
pub proof fn alarm_blocks_have_their_layout(reference: u16, transport: u16, priority: u16)
    requires
        transport < 2,
        priority < 2,
    ensures
        ({
            let b = alarm_cr_bytes(reference, transport, priority);
            &&& b.len() == 26
            &&& be16_at(b, 0) == 0x0103
            &&& be16_at(b, 2) == 22
            &&& b[4] == 1 && b[5] == 0
            &&& be16_at(b, 6) == 1
            &&& be16_at(b, 8) == if transport == 0 {
                0x8892u16
            } else {
                0x0800u16
            }
            &&& be32_at(b, 10) == 2 * transport + priority
            &&& be16_at(b, 14) == 1
            &&& be16_at(b, 16) == 3
            &&& be16_at(b, 18) == reference
            &&& be16_at(b, 20) == 200
            &&& be16_at(b, 22) == 0xC000
            &&& be16_at(b, 24) == 0xA000
        }),
{
    let b = alarm_cr_bytes(reference, transport, priority);
    let p: u32 = ((transport as u32) << 1) | priority as u32;
    assert(p == 2 * transport + priority) by (bit_vector)
        requires
            p == ((transport as u32) << 1) | priority as u32,
            transport < 2,
            priority < 2,
    ;
    be16_placed(b, 0, 0x0103);
    be16_placed(b, 2, 22);
    be16_placed(b, 6, 1);
    be16_placed(
        b,
        8,
        if transport == 0 {
            0x8892
        } else {
            0x0800
        },
    );
    be32_placed(b, 10, p);
    be16_placed(b, 14, 1);
    be16_placed(b, 16, 3);
    be16_placed(b, 18, reference);
    be16_placed(b, 20, 200);
    be16_placed(b, 22, 0xC000);
    be16_placed(b, 24, 0xA000);
}

/// A connect request for cyclic data carries the AR block of an IO controller, the
/// input IOCR, the output IOCR, the alarm CR for low priority over layer 2, and
/// the expected submodules, in this order and nothing else.
pub proof fn connect_requests_carry_their_blocks(
    ar_uuid: Seq<u8>,
    session_key: u16,
    cm_mac: Seq<u8>,
    name: Seq<u8>,
    setup: &IocrSetup,
)
    requires
        ar_uuid.len() == 16,
        cm_mac.len() == 6,
        name.len() <= 0xFF00,
    ensures
        ({
            let b = connect_blocks(ar_uuid, session_key, cm_mac, name, setup);
            let ar = ar_block_bytes(0x0001, ar_uuid, session_key, cm_mac, 0x11, name);
            let input = iocr_block_bytes(1, 1, setup);
            let output = iocr_block_bytes(2, 2, setup);
            let expected = expected_submodule_bytes(setup.io_slots@);
            let at_input = ar.len() as int;
            let at_output = at_input + input.len();
            let at_alarm = at_output + output.len();
            &&& b.subrange(0, at_input) == ar
            &&& b.subrange(at_input, at_output) == input
            &&& b.subrange(at_output, at_alarm) == output
            &&& b.subrange(at_alarm, at_alarm + 26) == alarm_cr_bytes(1, 0, 0)
            &&& b.skip(at_alarm + 26) == expected
        }),
{
    let b = connect_blocks(ar_uuid, session_key, cm_mac, name, setup);
    let ar = ar_block_bytes(0x0001, ar_uuid, session_key, cm_mac, 0x11, name);
    let input = iocr_block_bytes(1, 1, setup);
    let output = iocr_block_bytes(2, 2, setup);
    let alarm = alarm_cr_bytes(1, 0, 0);
    let expected = expected_submodule_bytes(setup.io_slots@);
    alarm_blocks_have_their_layout(1, 0, 0);
    lemma_pieces(ar, input, output, alarm, expected);
}

proof fn lemma_pieces(a: Seq<u8>, b: Seq<u8>, c: Seq<u8>, d: Seq<u8>, e: Seq<u8>)
    ensures
        ({
            let s = a + b + c + d + e;
            let i = a.len() as int;
            let j = i + b.len();
            let k = j + c.len();
            let l = k + d.len();
            &&& s.subrange(0, i) == a
            &&& s.subrange(i, j) == b
            &&& s.subrange(j, k) == c
            &&& s.subrange(k, l) == d
            &&& s.skip(l) == e
        }),
{
    let s = a + b + c + d + e;
    let i = a.len() as int;
    let j = i + b.len();
    let k = j + c.len();
    let l = k + d.len();
    assert(s.subrange(0, i) =~= a);
    assert(s.subrange(i, j) =~= b);
    assert(s.subrange(j, k) =~= c);
    assert(s.subrange(k, l) =~= d);
    assert(s.skip(l) =~= e);
}

} // verus!
