//! RT_CLASS_1 real-time framing: the cyclic frame, the layout of its data, and
//! the double-buffered builder of the process image.
//!
//! An [`RtFrame`] covers only the RT payload, from the frame id to the APDU
//! status trailer; [`build_ethernet_frame`] prepends the Ethernet header.

use vstd::prelude::*;
use vstd::slice::*;
use vstd::string::*;
use crate::bytes::{
    be16, be16_at, be16_of_read, be16_placed, be16_round_trip, be32, copy_range, overwrite,
    overwrite_at, push_all, push_be16, push_zeros, read_be16, zeros,
};
use crate::connect::{
    api_object, data_count, data_end, data_entries, has_iocs, header_bytes, iocr_block_bytes,
    iocr_data_len, iocr_frame_len, iocs_count, iocs_entries, iocs_offset, requested_frame_id,
    IocrSetup,
};
use crate::gsdml::IoSlot;
use crate::text::{dec, push_dec};
use crate::util::{eth_type_offset, eth_type_offset_bounds, skip_vlan_tags};

verus! {

/// EtherType for PROFINET RT frames.
pub const ETHERTYPE_PROFINET: u16 = 0x8892;

/// Frame ID range of RT_CLASS_1.
pub const FRAME_ID_RT_CLASS_1_MIN: u16 = 0x8000;
pub const FRAME_ID_RT_CLASS_1_MAX: u16 = 0xFBFF;

/// Whether a frame ID can carry RT_CLASS_1 cyclic data. The device assigns the
/// output frame ID, so its answer is checked before transmitting: 0x0000 (no
/// answer) and 0xFFFF (the request echoed) are both reserved.
pub fn is_rt_class_1_frame_id(frame_id: u16) -> (r: bool)
    ensures
        r == (0x8000 <= frame_id <= 0xFBFF),
{
    FRAME_ID_RT_CLASS_1_MIN <= frame_id && frame_id <= FRAME_ID_RT_CLASS_1_MAX
}

pub const FRAME_ID_ALARM_HIGH: u16 = 0xFC01;
pub const FRAME_ID_ALARM_LOW: u16 = 0xFE01;

/// IOCR types: device to controller, controller to device.
pub const IOCR_TYPE_INPUT: u16 = 1;
pub const IOCR_TYPE_OUTPUT: u16 = 2;

/// RT classes.
pub const RT_CLASS_1: u8 = 0x01;
pub const RT_CLASS_2: u8 = 0x02;
pub const RT_CLASS_3: u8 = 0x03;

/// DataStatus bits: primary, redundancy, valid, reserved, provider running,
/// station ok, ignore.
pub const DATA_STATUS_STATE: u8 = 0x01;
pub const DATA_STATUS_REDUNDANCY: u8 = 0x02;
pub const DATA_STATUS_VALID: u8 = 0x04;
pub const DATA_STATUS_RESERVED: u8 = 0x08;
pub const DATA_STATUS_PROVIDER_RUN: u8 = 0x10;
pub const DATA_STATUS_STATION_OK: u8 = 0x20;
pub const DATA_STATUS_IGNORE: u8 = 0x80;

/// IOxS values. DataState is bit 7 of a status byte and the lower bits carry
/// instance and extension, so a received status is masked with
/// [`IOXS_DATA_STATE_GOOD`] rather than compared with [`IOXS_GOOD`].
pub const IOXS_GOOD: u8 = 0x80;
pub const IOXS_DATA_STATE_GOOD: u8 = 0x80;
pub const IOXS_BAD: u8 = 0x00;
pub const IOXS_EXTENSION: u8 = 0x01;

/// A cyclic real-time frame: frame id, payload, and the APDU status trailer.
#[derive(Debug, Clone, PartialEq, Eq)]
pub struct RtFrame {
    /// Frame ID identifying the IOCR (0x8000-0xFBFF for RT_CLASS_1).
    pub frame_id: u16,
    /// 16-bit cycle counter, increments each cycle.
    pub cycle_counter: u16,
    /// DataStatus byte with validity and state flags.
    pub data_status: u8,
    /// TransferStatus byte (usually 0).
    pub transfer_status: u8,
    /// Process data and provider and consumer status.
    pub payload: Vec<u8>,
}

/// Frame id, payload, cycle counter, data status, transfer status.
pub open spec fn rt_frame_bytes(
    frame_id: u16,
    payload: Seq<u8>,
    cycle_counter: u16,
    data_status: u8,
    transfer_status: u8,
) -> Seq<u8> {
    be16(frame_id) + payload + be16(cycle_counter) + seq![data_status, transfer_status]
}

impl RtFrame {
    /// The frame on the wire.
    pub open spec fn bytes(self) -> Seq<u8> {
        rt_frame_bytes(
            self.frame_id,
            self.payload@,
            self.cycle_counter,
            self.data_status,
            self.transfer_status,
        )
    }

    /// The frame's fields are those that stand in `data`.
    pub open spec fn read_from(self, data: Seq<u8>) -> bool {
        let n = data.len() as int;
        &&& self.frame_id == be16_at(data, 0)
        &&& self.payload@ == data.subrange(2, n - 4)
        &&& self.cycle_counter == be16_at(data, n - 4)
        &&& self.data_status == data[n - 2]
        &&& self.transfer_status == data[n - 1]
    }

    /// Parse an RT frame from the bytes behind the Ethernet header: frame id,
    /// payload, then the 4-byte trailer of cycle counter, data status and
    /// transfer status.
    pub fn from_bytes(data: &[u8]) -> (r: Result<RtFrame, String>)
        ensures
            r is Ok <==> data@.len() >= 6,
            r matches Ok(f) ==> f.read_from(data@),
            r matches Err(e) ==> e@ == "RT frame too short: "@ + dec(data@.len()) + " bytes"@,
    {
        if data.len() < 6 {
            let mut e = "RT frame too short: ".to_owned();
            push_dec(&mut e, data.len() as u128);
            e.append(" bytes");
            return Err(e);
        }
        let n: usize = data.len();
        Ok(
            RtFrame {
                frame_id: read_be16(data, 0),
                cycle_counter: read_be16(data, n - 4),
                data_status: data[n - 2],
                transfer_status: data[n - 1],
                payload: copy_range(data, 2, n - 4),
            },
        )
    }

    /// Serialize: frame id, payload, trailer. The Ethernet header is not part
    /// of it.
    pub fn to_bytes(&self) -> (r: Vec<u8>)
        ensures
            r@ == self.bytes(),
            r@.len() == 6 + self.payload@.len(),
    {
        let mut out: Vec<u8> = Vec::new();
        push_be16(&mut out, self.frame_id);
        push_all(&mut out, self.payload.as_slice());
        push_be16(&mut out, self.cycle_counter);
        out.push(self.data_status);
        out.push(self.transfer_status);
        assert(out@ =~= self.bytes());
        out
    }

    /// True if data is valid (DataStatus bit 2).
    pub fn is_valid(&self) -> (r: bool)
        ensures
            r == (self.data_status & 0x04 != 0),
    {
        self.data_status & DATA_STATUS_VALID != 0
    }

    /// True if provider is running (DataStatus bit 4).
    pub fn is_running(&self) -> (r: bool)
        ensures
            r == (self.data_status & 0x10 != 0),
    {
        self.data_status & DATA_STATUS_PROVIDER_RUN != 0
    }

    /// True if station is OK (DataStatus bit 5).
    pub fn is_ok(&self) -> (r: bool)
        ensures
            r == (self.data_status & 0x20 != 0),
    {
        self.data_status & DATA_STATUS_STATION_OK != 0
    }

    /// True if this is primary data (DataStatus bit 0).
    pub fn is_primary(&self) -> (r: bool)
        ensures
            r == (self.data_status & 0x01 != 0),
    {
        self.data_status & DATA_STATUS_STATE != 0
    }
}

/// A frame read from the bytes of another has the other's fields, and writing
/// a frame that was read gives the bytes it was read from.
pub proof fn rt_frame_round_trip(f: RtFrame, g: RtFrame, data: Seq<u8>)
    ensures
        g.read_from(f.bytes()) ==> g.frame_id == f.frame_id && g.payload@ == f.payload@
            && g.cycle_counter == f.cycle_counter && g.data_status == f.data_status
            && g.transfer_status == f.transfer_status,
        data.len() >= 6 && f.read_from(data) ==> f.bytes() == data,
{
    let b = f.bytes();
    let n = b.len() as int;
    be16_round_trip(Seq::empty(), f.frame_id, b.skip(2));
    assert(Seq::<u8>::empty() + be16(f.frame_id) + b.skip(2) =~= b);
    be16_round_trip(
        be16(f.frame_id) + f.payload@,
        f.cycle_counter,
        seq![f.data_status, f.transfer_status],
    );
    assert(b.subrange(2, n - 4) =~= f.payload@);
    if data.len() >= 6 && f.read_from(data) {
        be16_of_read(data, 0);
        be16_of_read(data, data.len() - 4);
        assert(f.bytes() =~= data);
    }
}

/// Single IO data object: one piece of process data mapped to a slot and
/// subslot.
#[derive(Debug, Clone, Copy, PartialEq, Eq, Structural)]
pub struct IoDataObject {
    /// Slot number.
    pub slot: u16,
    /// Subslot number.
    pub subslot: u16,
    /// Offset of the data within the payload.
    pub frame_offset: usize,
    /// Length of process data in bytes.
    pub data_length: usize,
    /// Offset of the provider status byte.
    pub iops_offset: usize,
    /// Offset of the consumer status byte, for the objects that carry one.
    /// Offset 0 is a real position: an input-only device puts its first
    /// consumer status there.
    pub iocs_offset: Option<usize>,
}

/// IOCR configuration: timing parameters and IO object mappings.
#[derive(Debug, Clone, PartialEq, Eq)]
pub struct IocrConfig {
    /// IOCR type: 1 is input (device to controller), 2 is output.
    pub iocr_type: u16,
    /// Local IOCR reference number.
    pub iocr_reference: u16,
    /// Assigned Frame ID (0x8000-0xFBFF for RT_CLASS_1).
    pub frame_id: u16,
    /// Base clock multiplier (32 = 1ms base).
    pub send_clock_factor: u16,
    /// Update rate reduction (1 = every cycle).
    pub reduction_ratio: u16,
    /// Phase offset within cycle.
    pub phase: u16,
    /// Watchdog multiplier (timeout = watchdog_factor * cycle time).
    pub watchdog_factor: u16,
    /// Total payload length (minimum 40 bytes).
    pub data_length: usize,
    /// IO data objects within this IOCR.
    pub objects: Vec<IoDataObject>,
}

impl IocrConfig {
    /// Cycle time in microseconds: a send clock of 31.25 us, times both
    /// factors, rounded down.
    pub open spec fn cycle_us(self) -> int {
        (self.reduction_ratio * self.send_clock_factor * 125) / 4
    }

    /// New config with the defaults: send clock 32, reduction ratio 32, phase
    /// 0, watchdog factor 3, data length 40, no objects.
    pub fn new(iocr_type: u16, iocr_reference: u16, frame_id: u16) -> (r: IocrConfig)
        ensures
            r.iocr_type == iocr_type,
            r.iocr_reference == iocr_reference,
            r.frame_id == frame_id,
            r.send_clock_factor == 32,
            r.reduction_ratio == 32,
            r.phase == 0,
            r.watchdog_factor == 3,
            r.data_length == 40,
            r.objects@ == Seq::<IoDataObject>::empty(),
    {
        IocrConfig {
            iocr_type,
            iocr_reference,
            frame_id,
            send_clock_factor: 32,
            reduction_ratio: 32,
            phase: 0,
            watchdog_factor: 3,
            data_length: 40,
            objects: Vec::new(),
        }
    }

    /// Cycle time in microseconds: reduction_ratio * send_clock_factor *
    /// 31.25us, computed with integer math.
    pub fn cycle_time_us(&self) -> (r: u64)
        ensures
            r == self.cycle_us(),
            r <= 134_213_632_031,
    {
        let a: u64 = self.reduction_ratio as u64;
        let b: u64 = self.send_clock_factor as u64;
        assert(a * b <= 0xFFFF * 0xFFFF) by (nonlinear_arith)
            requires
                a <= 0xFFFF,
                b <= 0xFFFF,
        ;
        (a * b * 125) / 4
    }

    /// Watchdog timeout in microseconds.
    pub fn watchdog_time_us(&self) -> (r: u64)
        ensures
            r == self.watchdog_factor * self.cycle_us(),
    {
        let f: u64 = self.watchdog_factor as u64;
        let c: u64 = self.cycle_time_us();
        assert(f * c <= 0xFFFF * 134_213_632_031) by (nonlinear_arith)
            requires
                f <= 0xFFFF,
                c <= 134_213_632_031,
        ;
        f * c
    }

    /// True if this is an Input IOCR (device to controller).
    pub fn is_input(&self) -> (r: bool)
        ensures
            r == (self.iocr_type == 1),
    {
        self.iocr_type == IOCR_TYPE_INPUT
    }

    /// True if this is an Output IOCR (controller to device).
    pub fn is_output(&self) -> (r: bool)
        ensures
            r == (self.iocr_type == 2),
    {
        self.iocr_type == IOCR_TYPE_OUTPUT
    }
}

/// Index of the first object of a slot and subslot among `objs[from..]`, or
/// the number of objects.
pub open spec fn find_object(objs: Seq<IoDataObject>, slot: u16, subslot: u16, from: int) -> int
    decreases objs.len() - from,
{
    if from >= objs.len() {
        objs.len() as int
    } else if objs[from].slot == slot && objs[from].subslot == subslot {
        from
    } else {
        find_object(objs, slot, subslot, from + 1)
    }
}

/// The object that a slot and subslot name: the first that matches.
pub open spec fn object_of(objs: Seq<IoDataObject>, slot: u16, subslot: u16) -> Option<IoDataObject> {
    let i = find_object(objs, slot, subslot, 0);
    if 0 <= i < objs.len() {
        Some(objs[i])
    } else {
        None
    }
}

/// Finds the object that a slot and subslot name.
pub fn lookup_object(objs: &[IoDataObject], slot: u16, subslot: u16) -> (r: Option<IoDataObject>)
    ensures
        r == object_of(objs@, slot, subslot),
{
    let mut i: usize = 0;
    while i < objs.len()
        invariant
            i <= objs@.len(),
            find_object(objs@, slot, subslot, i as int) == find_object(objs@, slot, subslot, 0),
        decreases objs@.len() - i,
    {
        if objs[i].slot == slot && objs[i].subslot == subslot {
            return Some(objs[i]);
        }
        i = i + 1;
    }
    None
}

/// The object's data and status bytes lie within `len` bytes.
pub open spec fn object_fits(o: IoDataObject, len: int) -> bool {
    &&& o.frame_offset + o.data_length <= len
    &&& o.data_length > 0 ==> o.iops_offset < len
    &&& (o.iocs_offset matches Some(off) ==> off < len)
}

/// All objects lie within `len` bytes.
pub open spec fn objects_fit(objs: Seq<IoDataObject>, len: int) -> bool {
    forall|i: int| 0 <= i < objs.len() ==> object_fits(#[trigger] objs[i], len)
}

/// Some data-carrying object has its provider status at `p`.
pub open spec fn iops_at(objs: Seq<IoDataObject>, p: int) -> bool {
    exists|i: int| 0 <= i < objs.len() && (#[trigger] objs[i]).data_length > 0 && objs[i].iops_offset == p
}

/// Some object has its consumer status at `p`.
pub open spec fn iocs_at(objs: Seq<IoDataObject>, p: int) -> bool {
    exists|i: int| 0 <= i < objs.len() && (#[trigger] objs[i]).iocs_offset == Some(p as usize) && 0 <= p <= usize::MAX
}

/// The message for a slot and subslot that no object has.
pub open spec fn unknown_slot_message(slot: u16, subslot: u16) -> Seq<char> {
    "Unknown slot/subslot: "@ + dec(slot as nat) + "/"@ + dec(subslot as nat)
}

fn unknown_slot(slot: u16, subslot: u16) -> (e: String)
    ensures
        e@ == unknown_slot_message(slot, subslot),
{
    let mut e = "Unknown slot/subslot: ".to_owned();
    push_dec(&mut e, slot as u128);
    e.append("/");
    push_dec(&mut e, subslot as u128);
    e
}

/// Builds the process image from IO data objects with double-buffering: the
/// application writes into the pending image via
/// [`CyclicDataBuilder::set_data`], the transmit path promotes it with
/// [`CyclicDataBuilder::swap`] and reads it with [`CyclicDataBuilder::build`].
#[derive(Debug, Clone, PartialEq, Eq)]
pub struct CyclicDataBuilder {
    /// IOCR configuration with data length and object mappings.
    pub config: IocrConfig,
    write_buffer: Vec<u8>,
    send_buffer: Vec<u8>,
    dirty: bool,
}

impl CyclicDataBuilder {
    /// The image as the application last wrote it.
    pub closed spec fn pending(self) -> Seq<u8> {
        self.write_buffer@
    }

    /// The image as the transmit path last took it over.
    pub closed spec fn sending(self) -> Seq<u8> {
        self.send_buffer@
    }

    /// Whether the pending image was written since the last take-over.
    pub closed spec fn changed(self) -> bool {
        self.dirty
    }

    /// The IOCR configuration.
    pub closed spec fn layout(self) -> IocrConfig {
        self.config
    }

    /// New builder with zeroed images of `config.data_length` bytes.
    pub fn new(config: IocrConfig) -> (r: CyclicDataBuilder)
        ensures
            r.layout() == config,
            r.pending() == zeros(config.data_length as nat),
            r.sending() == zeros(config.data_length as nat),
            !r.changed(),
    {
        let len: usize = config.data_length;
        let mut a: Vec<u8> = Vec::new();
        push_zeros(&mut a, len);
        let mut b: Vec<u8> = Vec::new();
        push_zeros(&mut b, len);
        assert(a@ =~= zeros(len as nat));
        assert(b@ =~= zeros(len as nat));
        CyclicDataBuilder { config, write_buffer: a, send_buffer: b, dirty: false }
    }

    /// Set process data for a slot and subslot in the pending image. Data
    /// longer than the object is truncated, shorter data writes a prefix.
    pub fn set_data(&mut self, slot: u16, subslot: u16, data: &[u8]) -> (r: Result<(), String>)
        requires
            object_of(old(self).layout().objects@, slot, subslot) matches Some(o)
                ==> o.frame_offset + (if data@.len() < o.data_length { data@.len() } else { o.data_length as nat })
                <= old(self).pending().len(),
        ensures
            final(self).layout() == old(self).layout(),
            final(self).sending() == old(self).sending(),
            match object_of(old(self).layout().objects@, slot, subslot) {
                Some(o) => {
                    &&& r is Ok
                    &&& final(self).changed()
                    &&& final(self).pending() == overwrite(
                        old(self).pending(),
                        o.frame_offset as int,
                        data@.take(
                            if data@.len() < o.data_length {
                                data@.len() as int
                            } else {
                                o.data_length as int
                            },
                        ),
                    )
                },
                None => {
                    &&& r matches Err(e) && e@ == unknown_slot_message(slot, subslot)
                    &&& *final(self) == *old(self)
                },
            },
    {
        match lookup_object(self.config.objects.as_slice(), slot, subslot) {
            Some(o) => {
                let n: usize = if data.len() < o.data_length {
                    data.len()
                } else {
                    o.data_length
                };
                overwrite_at(&mut self.write_buffer, o.frame_offset, data, n);
                self.dirty = true;
                Ok(())
            },
            None => Err(unknown_slot(slot, subslot)),
        }
    }

    /// Get process data for a slot and subslot from the pending image.
    pub fn get_data(&self, slot: u16, subslot: u16) -> (r: Result<Vec<u8>, String>)
        requires
            object_of(self.layout().objects@, slot, subslot) matches Some(o) ==> o.frame_offset
                + o.data_length <= self.pending().len(),
        ensures
            match object_of(self.layout().objects@, slot, subslot) {
                Some(o) => r matches Ok(d) && d@ == self.pending().subrange(
                    o.frame_offset as int,
                    o.frame_offset + o.data_length,
                ),
                None => r matches Err(e) && e@ == unknown_slot_message(slot, subslot),
            },
    {
        let total: usize = self.write_buffer.len();
        match lookup_object(self.config.objects.as_slice(), slot, subslot) {
            Some(o) => Ok(
                copy_range(
                    self.write_buffer.as_slice(),
                    o.frame_offset,
                    o.frame_offset + o.data_length,
                ),
            ),
            None => Err(unknown_slot(slot, subslot)),
        }
    }

    /// Set the provider status of a slot and subslot. Objects without data
    /// have no such byte, and an unknown slot or subslot is ignored.
    pub fn set_iops(&mut self, slot: u16, subslot: u16, status: u8)
        requires
            object_of(old(self).layout().objects@, slot, subslot) matches Some(o) ==> o.data_length
                > 0 ==> o.iops_offset < old(self).pending().len(),
        ensures
            final(self).layout() == old(self).layout(),
            final(self).sending() == old(self).sending(),
            match object_of(old(self).layout().objects@, slot, subslot) {
                Some(o) if o.data_length > 0 => {
                    &&& final(self).changed()
                    &&& final(self).pending() == old(self).pending().update(
                        o.iops_offset as int,
                        status,
                    )
                },
                _ => *final(self) == *old(self),
            },
    {
        if let Some(o) = lookup_object(self.config.objects.as_slice(), slot, subslot) {
            if o.data_length > 0 {
                self.write_buffer[o.iops_offset] = status;
                self.dirty = true;
            }
        }
    }

    /// Set the consumer status of a slot and subslot that carries one; an
    /// unknown slot or subslot is ignored.
    pub fn set_iocs(&mut self, slot: u16, subslot: u16, status: u8)
        requires
            object_of(old(self).layout().objects@, slot, subslot) matches Some(o) ==> (o.iocs_offset
                matches Some(off) ==> off < old(self).pending().len()),
        ensures
            final(self).layout() == old(self).layout(),
            final(self).sending() == old(self).sending(),
            match object_of(old(self).layout().objects@, slot, subslot) {
                Some(o) if o.iocs_offset is Some => {
                    &&& final(self).changed()
                    &&& final(self).pending() == old(self).pending().update(
                        o.iocs_offset->0 as int,
                        status,
                    )
                },
                _ => *final(self) == *old(self),
            },
    {
        if let Some(o) = lookup_object(self.config.objects.as_slice(), slot, subslot) {
            if let Some(off) = o.iocs_offset {
                self.write_buffer[off] = status;
                self.dirty = true;
            }
        }
    }

    /// Set the provider status of every object that carries process data, and
    /// nothing else.
    pub fn set_all_iops(&mut self, status: u8)
        requires
            forall|i: int|
                0 <= i < old(self).layout().objects@.len() && (#[trigger] old(
                    self,
                ).layout().objects@[i]).data_length > 0 ==> old(self).layout().objects@[i].iops_offset
                    < old(self).pending().len(),
        ensures
            final(self).layout() == old(self).layout(),
            final(self).sending() == old(self).sending(),
            final(self).changed(),
            final(self).pending().len() == old(self).pending().len(),
            forall|p: int|
                0 <= p < old(self).pending().len() ==> #[trigger] final(self).pending()[p] == if iops_at(
                    old(self).layout().objects@,
                    p,
                ) {
                    status
                } else {
                    old(self).pending()[p]
                },
    {
        let n: usize = self.config.objects.len();
        let ghost objs = self.config.objects@;
        let ghost before = self.write_buffer@;
        let mut i: usize = 0;
        while i < n
            invariant
                n == objs.len(),
                i <= n,
                self.config == old(self).layout(),
                self.config.objects@ == objs,
                self.send_buffer@ == old(self).send_buffer@,
                self.write_buffer@.len() == before.len(),
                forall|k: int|
                    0 <= k < objs.len() && (#[trigger] objs[k]).data_length > 0
                        ==> objs[k].iops_offset < before.len(),
                forall|p: int|
                    0 <= p < before.len() ==> #[trigger] self.write_buffer@[p] == if iops_at(
                        objs.take(i as int),
                        p,
                    ) {
                        status
                    } else {
                        before[p]
                    },
            decreases n - i,
        {
            let o = self.config.objects[i];
            let ghost mid = self.write_buffer@;
            if o.data_length > 0 {
                self.write_buffer[o.iops_offset] = status;
            }
            proof {
                assert(objs.take(i + 1) =~= objs.take(i as int).push(o));
                assert forall|p: int| 0 <= p < before.len() implies #[trigger] self.write_buffer@[p]
                    == if iops_at(objs.take(i + 1), p) {
                    status
                } else {
                    before[p]
                } by {
                    assert(mid[p] == mid[p]);
                    lemma_iops_push(objs.take(i as int), o, p);
                }
            }
            i = i + 1;
        }
        assert(objs.take(i as int) =~= objs);
        self.dirty = true;
    }

    /// Set the consumer status of every object that carries one, and nothing
    /// else. The image counts as changed only if a byte took another value.
    pub fn set_all_iocs(&mut self, status: u8)
        requires
            forall|i: int|
                0 <= i < old(self).layout().objects@.len() ==> ((#[trigger] old(
                    self,
                ).layout().objects@[i]).iocs_offset matches Some(off) ==> off < old(
                    self,
                ).pending().len()),
        ensures
            final(self).layout() == old(self).layout(),
            final(self).sending() == old(self).sending(),
            final(self).changed() == (old(self).changed() || final(self).pending() != old(
                self,
            ).pending()),
            final(self).pending().len() == old(self).pending().len(),
            forall|p: int|
                0 <= p < old(self).pending().len() ==> #[trigger] final(self).pending()[p] == if iocs_at(
                    old(self).layout().objects@,
                    p,
                ) {
                    status
                } else {
                    old(self).pending()[p]
                },
    {
        let n: usize = self.config.objects.len();
        let ghost objs = self.config.objects@;
        let ghost before = self.write_buffer@;
        let mut i: usize = 0;
        while i < n
            invariant
                n == objs.len(),
                i <= n,
                self.config == old(self).layout(),
                self.config.objects@ == objs,
                self.send_buffer@ == old(self).send_buffer@,
                self.write_buffer@.len() == before.len(),
                self.dirty == (old(self).dirty || self.write_buffer@ != before),
                forall|k: int|
                    0 <= k < objs.len() ==> ((#[trigger] objs[k]).iocs_offset matches Some(off)
                        ==> off < before.len()),
                forall|p: int|
                    0 <= p < before.len() ==> #[trigger] self.write_buffer@[p] == if iocs_at(
                        objs.take(i as int),
                        p,
                    ) {
                        status
                    } else {
                        before[p]
                    },
            decreases n - i,
        {
            let o = self.config.objects[i];
            let ghost mid = self.write_buffer@;
            if let Some(off) = o.iocs_offset {
                if self.write_buffer[off] != status {
                    self.write_buffer[off] = status;
                    self.dirty = true;
                    assert(mid[off as int] == before[off as int]);
                    assert(self.write_buffer@[off as int] != before[off as int]);
                }
            }
            proof {
                assert(objs.take(i + 1) =~= objs.take(i as int).push(o));
                assert forall|p: int| 0 <= p < before.len() implies #[trigger] self.write_buffer@[p]
                    == if iocs_at(objs.take(i + 1), p) {
                    status
                } else {
                    before[p]
                } by {
                    assert(mid[p] == mid[p]);
                    lemma_iocs_push(objs.take(i as int), o, p);
                }
            }
            i = i + 1;
        }
        assert(objs.take(i as int) =~= objs);
    }

    /// Clear all data to zeros.
    pub fn clear(&mut self)
        ensures
            final(self).layout() == old(self).layout(),
            final(self).sending() == old(self).sending(),
            final(self).changed(),
            final(self).pending() == zeros(old(self).pending().len()),
    {
        let n: usize = self.write_buffer.len();
        let mut fresh: Vec<u8> = Vec::new();
        push_zeros(&mut fresh, n);
        assert(fresh@ =~= zeros(n as nat));
        self.write_buffer = fresh;
        self.dirty = true;
    }

    /// Promote the pending image to the one being sent. Called by the transmit
    /// path at the start of each cycle; copies only if the image changed since
    /// the last call.
    pub fn swap(&mut self)
        ensures
            final(self).layout() == old(self).layout(),
            final(self).pending() == old(self).pending(),
            !final(self).changed(),
            final(self).sending() == if old(self).changed() {
                old(self).pending()
            } else {
                old(self).sending()
            },
    {
        if self.dirty {
            self.send_buffer = slice_to_vec(self.write_buffer.as_slice());
            self.dirty = false;
        }
    }

    /// The process image being sent.
    pub fn build(&self) -> (r: Vec<u8>)
        ensures
            r@ == self.sending(),
    {
        slice_to_vec(self.send_buffer.as_slice())
    }

    /// True if the pending image has changes that were not promoted yet.
    pub fn is_dirty(&self) -> (r: bool)
        ensures
            r == self.changed(),
    {
        self.dirty
    }

    /// Load payload data into the pending image, truncating to its size.
    pub fn load(&mut self, payload: &[u8])
        ensures
            final(self).layout() == old(self).layout(),
            final(self).sending() == old(self).sending(),
            final(self).changed(),
            final(self).pending() == overwrite(
                old(self).pending(),
                0,
                payload@.take(
                    if payload@.len() < old(self).pending().len() {
                        payload@.len() as int
                    } else {
                        old(self).pending().len() as int
                    },
                ),
            ),
    {
        let n: usize = if payload.len() < self.write_buffer.len() {
            payload.len()
        } else {
            self.write_buffer.len()
        };
        overwrite_at(&mut self.write_buffer, 0, payload, n);
        self.dirty = true;
    }
}

proof fn lemma_iops_push(objs: Seq<IoDataObject>, o: IoDataObject, p: int)
    ensures
        iops_at(objs.push(o), p) == (iops_at(objs, p) || (o.data_length > 0 && o.iops_offset == p)),
{
    let all = objs.push(o);
    assert(all[objs.len() as int] == o);
    if iops_at(objs, p) {
        let i = choose|i: int|
            0 <= i < objs.len() && (#[trigger] objs[i]).data_length > 0 && objs[i].iops_offset == p;
        assert(all[i] == objs[i]);
    }
    if iops_at(all, p) {
        let i = choose|i: int|
            0 <= i < all.len() && (#[trigger] all[i]).data_length > 0 && all[i].iops_offset == p;
        if i < objs.len() {
            assert(all[i] == objs[i]);
        }
    }
}

proof fn lemma_iocs_push(objs: Seq<IoDataObject>, o: IoDataObject, p: int)
    ensures
        iocs_at(objs.push(o), p) == (iocs_at(objs, p) || (o.iocs_offset == Some(p as usize) && 0
            <= p <= usize::MAX)),
{
    let all = objs.push(o);
    assert(all[objs.len() as int] == o);
    if iocs_at(objs, p) {
        let i = choose|i: int|
            0 <= i < objs.len() && (#[trigger] objs[i]).iocs_offset == Some(p as usize) && 0 <= p
                <= usize::MAX;
        assert(all[i] == objs[i]);
    }
    if iocs_at(all, p) {
        let i = choose|i: int|
            0 <= i < all.len() && (#[trigger] all[i]).iocs_offset == Some(p as usize) && 0 <= p
                <= usize::MAX;
        if i < objs.len() {
            assert(all[i] == objs[i]);
        }
    }
}

/// The data objects of the first `n` slots in one direction.
pub open spec fn data_objects(slots: Seq<IoSlot>, iocr_type: u16, n: int) -> Seq<IoDataObject>
    decreases n,
{
    if n <= 0 {
        Seq::empty()
    } else {
        let len = iocr_data_len(slots[n - 1], iocr_type);
        let at = data_end(slots, iocr_type, n - 1);
        if len > 0 {
            data_objects(slots, iocr_type, n - 1).push(
                IoDataObject {
                    slot: slots[n - 1].slot,
                    subslot: slots[n - 1].subslot,
                    frame_offset: at as usize,
                    data_length: len as usize,
                    iops_offset: (at + len) as usize,
                    iocs_offset: None,
                },
            )
        } else {
            data_objects(slots, iocr_type, n - 1)
        }
    }
}

/// The consumer status objects of the first `n` slots in one direction.
pub open spec fn iocs_objects(slots: Seq<IoSlot>, iocr_type: u16, n: int) -> Seq<IoDataObject>
    decreases n,
{
    if n <= 0 {
        Seq::empty()
    } else if has_iocs(slots[n - 1], iocr_type) {
        let at = iocs_offset(slots, iocr_type, n - 1);
        iocs_objects(slots, iocr_type, n - 1).push(
            IoDataObject {
                slot: slots[n - 1].slot,
                subslot: slots[n - 1].subslot,
                frame_offset: at as usize,
                data_length: 0,
                iops_offset: 0,
                iocs_offset: Some(at as usize),
            },
        )
    } else {
        iocs_objects(slots, iocr_type, n - 1)
    }
}

/// Payload length of a frame: its layout, at least 40 bytes.
pub open spec fn payload_len(slots: Seq<IoSlot>, iocr_type: u16) -> int {
    let len = iocr_frame_len(slots, iocr_type);
    if len > 40 {
        len
    } else {
        40
    }
}

proof fn lemma_layout_bounds(slots: Seq<IoSlot>, t: u16, m: int, n: int)
    requires
        0 <= m <= n,
    ensures
        0 <= data_end(slots, t, m) <= data_end(slots, t, n),
        0 <= iocs_count(slots, t, m) <= iocs_count(slots, t, n),
    decreases n,
{
    if m < n {
        lemma_layout_bounds(slots, t, m, n - 1);
    } else if 0 < m {
        lemma_layout_bounds(slots, t, m - 1, n - 1);
    }
}

/// The data objects of one direction, and the offset behind them.
fn collect_data_objects(slots: &[IoSlot], iocr_type: u16) -> (r: (Vec<IoDataObject>, usize))
    requires
        iocr_frame_len(slots@, iocr_type) <= usize::MAX,
    ensures
        r.0@ == data_objects(slots@, iocr_type, slots@.len() as int),
        r.1 == data_end(slots@, iocr_type, slots@.len() as int),
{
    let mut objects: Vec<IoDataObject> = Vec::new();
    let mut frame_offset: usize = 0;
    let mut i: usize = 0;
    let ghost n = slots@.len() as int;
    while i < slots.len()
        invariant
            n == slots@.len(),
            i <= slots@.len(),
            iocr_frame_len(slots@, iocr_type) <= usize::MAX,
            objects@ == data_objects(slots@, iocr_type, i as int),
            frame_offset == data_end(slots@, iocr_type, i as int),
        decreases slots@.len() - i,
    {
        let s = slots[i];
        proof {
            lemma_layout_bounds(slots@, iocr_type, i + 1, n);
        }
        let len: usize = if iocr_type == 1 {
            s.input_length
        } else {
            s.output_length
        };
        if len > 0 {
            objects.push(
                IoDataObject {
                    slot: s.slot,
                    subslot: s.subslot,
                    frame_offset,
                    data_length: len,
                    iops_offset: frame_offset + len,
                    iocs_offset: None,
                },
            );
            frame_offset = frame_offset + (len + 1);
        }
        i = i + 1;
    }
    (objects, frame_offset)
}

/// Build the (input, output) [`IocrConfig`] pair for the cyclic controller
/// from slot definitions: frame offsets match what the connect IOCR blocks
/// describe, consumer status entries for submodules without data in each
/// direction taking their byte. The output IOCR gets status-only objects
/// (data length 0) for submodules without outputs, so that
/// [`CyclicDataBuilder::set_all_iocs`] can acknowledge received input.
pub fn build_iocr_configs(
    slots: &[IoSlot],
    input_frame_id: u16,
    output_frame_id: u16,
    send_clock_factor: u16,
    reduction_ratio: u16,
    watchdog_factor: u16,
) -> (r: (IocrConfig, IocrConfig))
    requires
        iocr_frame_len(slots@, 1) <= usize::MAX,
        iocr_frame_len(slots@, 2) <= usize::MAX,
    ensures
        r.0.iocr_type == 1,
        r.0.iocr_reference == 1,
        r.0.frame_id == input_frame_id,
        r.0.data_length == payload_len(slots@, 1),
        r.0.objects@ == data_objects(slots@, 1, slots@.len() as int),
        r.1.iocr_type == 2,
        r.1.iocr_reference == 2,
        r.1.frame_id == output_frame_id,
        r.1.data_length == payload_len(slots@, 2),
        r.1.objects@ == data_objects(slots@, 2, slots@.len() as int) + iocs_objects(
            slots@,
            2,
            slots@.len() as int,
        ),
        r.0.send_clock_factor == send_clock_factor,
        r.1.send_clock_factor == send_clock_factor,
        r.0.reduction_ratio == reduction_ratio,
        r.1.reduction_ratio == reduction_ratio,
        r.0.watchdog_factor == watchdog_factor,
        r.1.watchdog_factor == watchdog_factor,
        r.0.phase == 0,
        r.1.phase == 0,
{
    let ghost n = slots@.len() as int;
    let (input_objects, input_end) = collect_data_objects(slots, 1);
    let mut frame_offset: usize = input_end;
    let mut i: usize = 0;
    while i < slots.len()
        invariant
            n == slots@.len(),
            i <= slots@.len(),
            iocr_frame_len(slots@, 1) <= usize::MAX,
            frame_offset == iocs_offset(slots@, 1, i as int),
        decreases slots@.len() - i,
    {
        proof {
            lemma_layout_bounds(slots@, 1, i + 1, n);
        }
        if slots[i].input_length == 0 {
            frame_offset = frame_offset + 1;
        }
        i = i + 1;
    }
    let input_iocr = IocrConfig {
        iocr_type: IOCR_TYPE_INPUT,
        iocr_reference: 1,
        frame_id: input_frame_id,
        send_clock_factor,
        reduction_ratio,
        phase: 0,
        watchdog_factor,
        data_length: if frame_offset > 40 {
            frame_offset
        } else {
            40
        },
        objects: input_objects,
    };
    let (data, output_end) = collect_data_objects(slots, 2);
    let mut output_objects = data;
    let ghost head = output_objects@;
    frame_offset = output_end;
    i = 0;
    assert(head + iocs_objects(slots@, 2, 0) =~= head);
    while i < slots.len()
        invariant
            n == slots@.len(),
            i <= slots@.len(),
            iocr_frame_len(slots@, 2) <= usize::MAX,
            output_objects@ == head + iocs_objects(slots@, 2, i as int),
            frame_offset == iocs_offset(slots@, 2, i as int),
        decreases slots@.len() - i,
    {
        let s = slots[i];
        proof {
            lemma_layout_bounds(slots@, 2, i + 1, n);
        }
        if s.output_length == 0 {
            output_objects.push(
                IoDataObject {
                    slot: s.slot,
                    subslot: s.subslot,
                    frame_offset,
                    data_length: 0,
                    iops_offset: 0,
                    iocs_offset: Some(frame_offset),
                },
            );
            frame_offset = frame_offset + 1;
        }
        i = i + 1;
        assert(output_objects@ =~= head + iocs_objects(slots@, 2, i as int));
    }
    let output_iocr = IocrConfig {
        iocr_type: IOCR_TYPE_OUTPUT,
        iocr_reference: 2,
        frame_id: output_frame_id,
        send_clock_factor,
        reduction_ratio,
        phase: 0,
        watchdog_factor,
        data_length: if frame_offset > 40 {
            frame_offset
        } else {
            40
        },
        objects: output_objects,
    };
    (input_iocr, output_iocr)
}

/// The wire entries (slot, subslot, frame offset) of a list of objects.
pub open spec fn object_entries(objs: Seq<IoDataObject>) -> Seq<u8>
    decreases objs.len(),
{
    if objs.len() == 0 {
        Seq::empty()
    } else {
        object_entries(objs.drop_last()) + api_object(
            objs.last().slot,
            objs.last().subslot,
            objs.last().frame_offset as int,
        )
    }
}

/// The frame offsets that the controller reads and writes at are the ones that
/// the connect request announced for both kinds of entries.
pub proof fn configs_match_connect_request(slots: Seq<IoSlot>, iocr_type: u16, n: int)
    requires
        0 <= n <= slots.len(),
        iocr_frame_len(slots, iocr_type) <= usize::MAX,
    ensures
        object_entries(data_objects(slots, iocr_type, n)) == data_entries(slots, iocr_type, n),
        object_entries(iocs_objects(slots, iocr_type, n)) == iocs_entries(slots, iocr_type, n),
    decreases n,
{
    if n > 0 {
        configs_match_connect_request(slots, iocr_type, n - 1);
        lemma_layout_bounds(slots, iocr_type, n, slots.len() as int);
        lemma_layout_bounds(slots, iocr_type, n - 1, slots.len() as int);
        let d = data_objects(slots, iocr_type, n);
        let c = iocs_objects(slots, iocr_type, n);
        if iocr_data_len(slots[n - 1], iocr_type) > 0 {
            assert(d.drop_last() =~= data_objects(slots, iocr_type, n - 1));
        }
        if has_iocs(slots[n - 1], iocr_type) {
            assert(c.drop_last() =~= iocs_objects(slots, iocr_type, n - 1));
        }
    }
}

/// Every object of a built layout lies inside the frame, and each data object
/// ends, with its status byte, before the next one begins.
pub proof fn built_objects_fit(slots: Seq<IoSlot>, iocr_type: u16, n: int)
    requires
        0 <= n <= slots.len(),
        iocr_frame_len(slots, iocr_type) <= usize::MAX,
    ensures
        objects_fit(data_objects(slots, iocr_type, n), payload_len(slots, iocr_type)),
        objects_fit(iocs_objects(slots, iocr_type, n), payload_len(slots, iocr_type)),
        forall|i: int|
            0 <= i < data_objects(slots, iocr_type, n).len() ==> (#[trigger] data_objects(
                slots,
                iocr_type,
                n,
            )[i]).iops_offset < data_end(slots, iocr_type, n),
        forall|i: int, j: int|
            #![trigger data_objects(slots, iocr_type, n)[i], data_objects(slots, iocr_type, n)[j]]
            0 <= i < j < data_objects(slots, iocr_type, n).len() ==> data_objects(
                slots,
                iocr_type,
                n,
            )[i].iops_offset < data_objects(slots, iocr_type, n)[j].frame_offset,
    decreases n,
{
    if n > 0 {
        let total = slots.len() as int;
        built_objects_fit(slots, iocr_type, n - 1);
        lemma_layout_bounds(slots, iocr_type, n, total);
        lemma_layout_bounds(slots, iocr_type, n - 1, n);
        lemma_layout_bounds(slots, iocr_type, total, total);
        let before = data_objects(slots, iocr_type, n - 1);
        let after = data_objects(slots, iocr_type, n);
        assert forall|i: int| 0 <= i < after.len() implies (#[trigger] after[i]).iops_offset
            < data_end(slots, iocr_type, n) by {
            if i < before.len() {
                assert(after[i] == before[i]);
            }
        }
        assert forall|i: int, j: int|
            #![trigger after[i], after[j]]
            0 <= i < j < after.len() implies after[i].iops_offset < after[j].frame_offset by {
            assert(after[i] == before[i]);
            if j < before.len() {
                assert(after[j] == before[j]);
            }
        }
        assert forall|i: int| 0 <= i < after.len() implies object_fits(
            #[trigger] after[i],
            payload_len(slots, iocr_type),
        ) by {
            if i < before.len() {
                assert(after[i] == before[i]);
            }
        }
        let cb = iocs_objects(slots, iocr_type, n - 1);
        let ca = iocs_objects(slots, iocr_type, n);
        assert forall|i: int| 0 <= i < ca.len() implies object_fits(
            #[trigger] ca[i],
            payload_len(slots, iocr_type),
        ) by {
            if i < cb.len() {
                assert(ca[i] == cb[i]);
            }
        }
    }
}

/// 802.1Q priority tag for cyclic frames: TPID 0x8100, priority 6, VID 0.
/// Devices validate the negotiated priority, and managed switches may drop
/// untagged short frames as runts.
pub const VLAN_TAG_RT: [u8; 4] = [0x81, 0x00, 0xC0, 0x00];

/// Destination, source, VLAN tag, EtherType, RT frame.
pub open spec fn rt_ethernet_bytes(dst_mac: Seq<u8>, src_mac: Seq<u8>, body: Seq<u8>) -> Seq<u8> {
    dst_mac + src_mac + seq![0x81u8, 0x00, 0xC0, 0x00] + be16(0x8892) + body
}

/// Build a complete Ethernet frame with RT payload: destination, source, VLAN
/// tag, EtherType 0x8892, frame.
pub fn build_ethernet_frame(dst_mac: &[u8; 6], src_mac: &[u8; 6], rt_frame: &RtFrame) -> (r: Vec<
    u8,
>)
    ensures
        r@ == rt_ethernet_bytes(dst_mac@, src_mac@, rt_frame.bytes()),
        r@.len() == 24 + rt_frame.payload@.len(),
{
    let body = rt_frame.to_bytes();
    let mut out: Vec<u8> = Vec::new();
    push_all(&mut out, dst_mac.as_slice());
    push_all(&mut out, src_mac.as_slice());
    let tag = VLAN_TAG_RT;
    push_all(&mut out, tag.as_slice());
    push_be16(&mut out, ETHERTYPE_PROFINET);
    push_all(&mut out, body.as_slice());
    assert(tag@ =~= seq![0x81u8, 0x00, 0xC0, 0x00]);
    assert(out@ =~= rt_ethernet_bytes(dst_mac@, src_mac@, rt_frame.bytes()));
    out
}

/// The RT part of an Ethernet frame: behind EtherType 0x8892 and any VLAN
/// tags, at least 6 bytes.
pub open spec fn rt_part(data: Seq<u8>) -> Option<Seq<u8>> {
    let at = eth_type_offset(data, 12);
    if data.len() >= 18 && data.len() >= at + 8 && be16_at(data, at) == 0x8892 {
        Some(data.skip(at + 2))
    } else {
        None
    }
}

/// Parse an Ethernet frame and extract the RT frame: none unless the EtherType
/// is 0x8892 and the RT part parses.
pub fn parse_ethernet_frame(data: &[u8]) -> (r: Option<RtFrame>)
    ensures
        match rt_part(data@) {
            Some(body) => r matches Some(f) && f.read_from(body) && f.bytes() == body,
            None => r is None,
        },
{
    if data.len() < 18 {
        return None;
    }
    let at: usize = skip_vlan_tags(data);
    proof {
        eth_type_offset_bounds(data@, 12);
    }
    if data.len() - at < 2 {
        return None;
    }
    if read_be16(data, at) != ETHERTYPE_PROFINET {
        return None;
    }
    let body = slice_subrange(data, at + 2, data.len());
    assert(body@ =~= data@.skip(at + 2));
    match RtFrame::from_bytes(body) {
        Ok(f) => {
            proof {
                rt_frame_round_trip(f, f, body@);
            }
            Some(f)
        },
        Err(_) => None,
    }
}

/// The RT part of a frame that was built is the one it was built from.
pub proof fn rt_part_of_built(dst_mac: Seq<u8>, src_mac: Seq<u8>, body: Seq<u8>)
    requires
        dst_mac.len() == 6,
        src_mac.len() == 6,
        body.len() >= 6,
    ensures
        rt_part(rt_ethernet_bytes(dst_mac, src_mac, body)) == Some(body),
{
    let data = rt_ethernet_bytes(dst_mac, src_mac, body);
    assert(data[12] == 0x81 && data[13] == 0x00);
    assert(data[16] == be16(0x8892)[0] && data[17] == be16(0x8892)[1]);
    assert(be16_at(data, 12) == 0x8100);
    assert(be16_at(data, 16) == 0x8892);
    reveal_with_fuel(eth_type_offset, 3);
    assert(eth_type_offset(data, 12) == 16);
    assert(data.skip(18) =~= body);
}

/// A frame that was built parses back to the same RT frame.
pub proof fn ethernet_frame_round_trip(dst_mac: Seq<u8>, src_mac: Seq<u8>, f: RtFrame)
    requires
        dst_mac.len() == 6,
        src_mac.len() == 6,
    ensures
        rt_part(rt_ethernet_bytes(dst_mac, src_mac, f.bytes())) == Some(f.bytes()),
{
    rt_part_of_built(dst_mac, src_mac, f.bytes());
}

/// The entry of an object list at a place of a block: slot, subslot, frame
/// offset.
pub open spec fn entry_at(b: Seq<u8>, at: int) -> (u16, u16, u16) {
    (be16_at(b, at), be16_at(b, at + 2), be16_at(b, at + 4))
}

/// The entry that an object has in an object list.
pub open spec fn entry_of(o: IoDataObject) -> (u16, u16, u16) {
    (o.slot, o.subslot, o.frame_offset as u16)
}

/// The submodules that a list of objects stands for.
pub open spec fn object_places(objs: Seq<IoDataObject>) -> Seq<(u16, u16)> {
    Seq::new(objs.len(), |i: int| (objs[i].slot, objs[i].subslot))
}

/// The submodules of a list of slots.
pub open spec fn places(slots: Seq<IoSlot>) -> Seq<(u16, u16)> {
    Seq::new(slots.len(), |i: int| (slots[i].slot, slots[i].subslot))
}

/// The slots that carry data in the direction of an IOCR, in order.
pub open spec fn with_data(slots: Seq<IoSlot>, iocr_type: u16) -> Seq<IoSlot> {
    slots.filter(|s: IoSlot| iocr_data_len(s, iocr_type) > 0)
}

/// The slots that carry none, in order.
pub open spec fn without_data(slots: Seq<IoSlot>, iocr_type: u16) -> Seq<IoSlot> {
    slots.filter(|s: IoSlot| iocr_data_len(s, iocr_type) == 0)
}

/// The objects of a configuration that carry data.
pub open spec fn carrying(objs: Seq<IoDataObject>) -> Seq<IoDataObject> {
    objs.filter(|o: IoDataObject| o.data_length > 0)
}

/// A configuration that [`build_iocr_configs`] gives for one direction, as far
/// as the connect request speaks of it.
pub open spec fn is_built_config(cfg: IocrConfig, slots: Seq<IoSlot>) -> bool {
    let n = slots.len() as int;
    &&& cfg.data_length == payload_len(slots, cfg.iocr_type)
    &&& cfg.objects@ == if cfg.iocr_type == 1 {
        data_objects(slots, 1, n)
    } else {
        data_objects(slots, 2, n) + iocs_objects(slots, 2, n)
    }
}

proof fn lemma_entries(objs: Seq<IoDataObject>, pre: Seq<u8>, post: Seq<u8>)
    ensures
        object_entries(objs).len() == 6 * objs.len(),
        forall|i: int|
            #![trigger objs[i]]
            0 <= i < objs.len() ==> entry_at(
                pre + object_entries(objs) + post,
                pre.len() + 6 * i,
            ) == entry_of(objs[i]),
    decreases objs.len(),
{
    if objs.len() > 0 {
        let rest = objs.drop_last();
        let o = objs.last();
        let head = object_entries(rest);
        let last = api_object(o.slot, o.subslot, o.frame_offset as int);
        lemma_entries(rest, pre, last + post);
        let b = pre + object_entries(objs) + post;
        assert(b =~= pre + head + (last + post));
        let k = pre + head;
        let at = k.len() as int;
        be16_round_trip(k, o.slot, be16(o.subslot) + be16(o.frame_offset as u16) + post);
        assert(b =~= k + be16(o.slot) + (be16(o.subslot) + be16(o.frame_offset as u16) + post));
        be16_round_trip(k + be16(o.slot), o.subslot, be16(o.frame_offset as u16) + post);
        assert(b =~= k + be16(o.slot) + be16(o.subslot) + (be16(o.frame_offset as u16) + post));
        be16_round_trip(k + be16(o.slot) + be16(o.subslot), o.frame_offset as u16, post);
        assert(b =~= k + be16(o.slot) + be16(o.subslot) + be16(o.frame_offset as u16) + post);
        assert(entry_at(b, at) == entry_of(o));
        assert forall|i: int|
            #![trigger objs[i]]
            0 <= i < objs.len() implies entry_at(b, pre.len() + 6 * i) == entry_of(objs[i]) by {
            if i < rest.len() {
                assert(rest[i] == objs[i]);
            }
        }
    }
}

/// The objects of a layout stand for the slots with data and for those without,
/// in order.
proof fn lemma_places(slots: Seq<IoSlot>, t: u16, n: int)
    requires
        t == 1 || t == 2,
        0 <= n <= slots.len(),
    ensures
        object_places(data_objects(slots, t, n)) == places(with_data(slots.take(n), t)),
        object_places(iocs_objects(slots, t, n)) == places(without_data(slots.take(n), t)),
        data_objects(slots, t, n).len() == data_count(slots, t, n),
        iocs_objects(slots, t, n).len() == iocs_count(slots, t, n),
        data_count(slots, t, n) + iocs_count(slots, t, n) == n,
        forall|i: int|
            0 <= i < iocs_objects(slots, t, n).len() ==> (#[trigger] iocs_objects(
                slots,
                t,
                n,
            )[i]).data_length == 0,
    decreases n,
{
    reveal(Seq::filter);
    if n > 0 {
        lemma_places(slots, t, n - 1);
        let s = slots[n - 1];
        let full = with_data(slots.take(n - 1), t);
        let bare = without_data(slots.take(n - 1), t);
        let data = data_objects(slots, t, n - 1);
        let iocs = iocs_objects(slots, t, n - 1);
        assert(slots.take(n).drop_last() =~= slots.take(n - 1));
        assert(slots.take(n).last() == s);
        assert(places(full.push(s)) =~= places(full).push((s.slot, s.subslot)));
        assert(places(bare.push(s)) =~= places(bare).push((s.slot, s.subslot)));
        let d = data_objects(slots, t, n);
        let c = iocs_objects(slots, t, n);
        if iocr_data_len(s, t) > 0 {
            assert(object_places(d) =~= object_places(data).push((s.slot, s.subslot)));
        } else {
            assert(object_places(c) =~= object_places(iocs).push((s.slot, s.subslot)));
        }
    } else {
        assert(slots.take(0) =~= Seq::empty());
        assert(object_places(data_objects(slots, t, 0)) =~= places(with_data(slots.take(0), t)));
        assert(object_places(iocs_objects(slots, t, 0)) =~= places(without_data(slots.take(0), t)));
    }
}

proof fn lemma_filter_keeps_all<A>(s: Seq<A>, pred: spec_fn(A) -> bool)
    requires
        forall|i: int| 0 <= i < s.len() ==> pred(#[trigger] s[i]),
    ensures
        s.filter(pred) == s,
    decreases s.len(),
{
    reveal(Seq::filter);
    if s.len() > 0 {
        assert forall|i: int| 0 <= i < s.drop_last().len() implies pred(
            #[trigger] s.drop_last()[i],
        ) by {
            assert(s.drop_last()[i] == s[i]);
        }
        lemma_filter_keeps_all(s.drop_last(), pred);
        assert(s.drop_last().push(s.last()) =~= s);
    }
}

proof fn lemma_data_objects_have_data(slots: Seq<IoSlot>, t: u16, n: int)
    requires
        0 <= n <= slots.len(),
    ensures
        forall|i: int|
            0 <= i < data_objects(slots, t, n).len() ==> (#[trigger] data_objects(
                slots,
                t,
                n,
            )[i]).data_length > 0,
    decreases n,
{
    if n > 0 {
        lemma_data_objects_have_data(slots, t, n - 1);
    }
}

/// The objects of a configuration that carry data are the data objects of the
/// layout.
proof fn lemma_carrying_objects(cfg: IocrConfig, slots: Seq<IoSlot>)
    requires
        cfg.iocr_type == 1 || cfg.iocr_type == 2,
        is_built_config(cfg, slots),
    ensures
        carrying(cfg.objects@) == data_objects(slots, cfg.iocr_type, slots.len() as int),
{
    let t = cfg.iocr_type;
    let n = slots.len() as int;
    let carries = |o: IoDataObject| o.data_length > 0;
    let data = data_objects(slots, t, n);
    let iocs = iocs_objects(slots, t, n);
    lemma_places(slots, t, n);
    lemma_data_objects_have_data(slots, t, n);
    lemma_filter_keeps_all(data, carries);
    if t == 2 {
        Seq::filter_distributes_over_add(data, iocs, carries);
        assert(iocs.all(|o: IoDataObject| !carries(o)));
        iocs.lemma_all_neg_filter_empty(carries);
        assert(data + iocs.filter(carries) =~= data);
    }
}

/// The bytes of an IOCR block before its object lists.
pub open spec fn iocr_block_head(t: u16, reference: u16, len: u16, length: u16, id: u16, setup: &IocrSetup) -> Seq<u8> {
    header_bytes(0x0102, len) + be16(t) + be16(reference) + be16(0x8892) + be32(1) + be16(length)
        + be16(id) + be16(setup.send_clock_factor) + be16(setup.reduction_ratio) + be16(1) + be16(
        0,
    ) + be32(0xFFFF_FFFF) + be16(setup.watchdog_factor) + be16(setup.data_hold_factor) + be16(
        0xC000,
    ) + zeros(6) + be16(1) + be32(0)
}

proof fn lemma_block_head(t: u16, reference: u16, len: u16, length: u16, id: u16, setup: &IocrSetup)
    ensures
        ({
            let h = iocr_block_head(t, reference, len, length, id, setup);
            &&& h.len() == 50
            &&& be16_at(h, 2) == len
            &&& be16_at(h, 16) == length
            &&& be16_at(h, 18) == id
        }),
{
    let h = iocr_block_head(t, reference, len, length, id, setup);
    assert(h.len() == 50);
    assert(h[2] == be16(len)[0] && h[3] == be16(len)[1]);
    assert(h[16] == be16(length)[0] && h[17] == be16(length)[1]);
    assert(h[18] == be16(id)[0] && h[19] == be16(id)[1]);
}

proof fn lemma_block_lists(head: Seq<u8>, data: Seq<IoDataObject>, iocs: Seq<IoDataObject>)
    requires
        head.len() == 50,
        data.len() <= 0xFFFF,
        iocs.len() <= 0xFFFF,
    ensures
        ({
            let b = head + be16(data.len() as u16) + object_entries(data) + be16(iocs.len() as u16)
                + object_entries(iocs);
            let behind = 52 + 6 * data.len() as int;
            &&& b.len() == 54 + 6 * data.len() + 6 * iocs.len()
            &&& forall|p: int| 0 <= p && p + 2 <= 50 ==> #[trigger] be16_at(b, p) == be16_at(head, p)
            &&& be16_at(b, 50) == data.len()
            &&& be16_at(b, behind) == iocs.len()
            &&& forall|i: int|
                #![trigger data[i]]
                0 <= i < data.len() ==> entry_at(b, 52 + 6 * i) == entry_of(data[i])
            &&& forall|i: int|
                #![trigger iocs[i]]
                0 <= i < iocs.len() ==> entry_at(b, behind + 2 + 6 * i) == entry_of(iocs[i])
        }),
{
    let nd = data.len() as u16;
    let ns = iocs.len() as u16;
    let objects = object_entries(data);
    let status = object_entries(iocs);
    let b = head + be16(nd) + objects + be16(ns) + status;
    let tail = be16(ns) + status;
    lemma_entries(data, head + be16(nd), tail);
    assert(b =~= head + be16(nd) + objects + tail);
    be16_round_trip(head, nd, objects + tail);
    assert(b =~= head + be16(nd) + (objects + tail));
    let before = head + be16(nd) + objects;
    be16_round_trip(before, ns, status);
    lemma_entries(iocs, before + be16(ns), Seq::empty());
    assert(b =~= before + be16(ns) + status + Seq::empty());
}

/// The IOCR block of a connect request announces the configuration that is
/// built from the same slots: the length of the data, and for each object with
/// data, in order, its submodule and its frame offset. Every other submodule is
/// listed once behind them, in order, at the offset of its consumer status. The
/// block's own length covers all of it, and the frame id is the one proposed
/// for an input IOCR, or left to the device for an output IOCR.
pub proof fn iocr_blocks_announce_the_configs(iocr_reference: u16, setup: &IocrSetup, cfg: IocrConfig)
    requires
        cfg.iocr_type == 1 || cfg.iocr_type == 2,
        is_built_config(cfg, setup.io_slots@),
        iocr_reference < 0x4000,
        payload_len(setup.io_slots@, cfg.iocr_type) <= 0xFFFF,
        50 + 6 * setup.io_slots@.len() <= 0xFFFF,
    ensures
        ({
            let slots = setup.io_slots@;
            let t = cfg.iocr_type;
            let b = iocr_block_bytes(t, iocr_reference, setup);
            let data = carrying(cfg.objects@);
            let iocs = iocs_objects(slots, t, slots.len() as int);
            let behind = 52 + 6 * data.len() as int;
            &&& b.len() == 54 + 6 * slots.len()
            &&& be16_at(b, 2) == b.len() - 4
            &&& be16_at(b, 16) == cfg.data_length
            &&& be16_at(b, 18) == if t == 1 {
                0xC000 + iocr_reference
            } else {
                0xFFFF
            }
            &&& be16_at(b, 50) == data.len()
            &&& forall|i: int|
                0 <= i < data.len() ==> entry_at(b, 52 + 6 * i) == (
                    (#[trigger] data[i]).slot,
                    data[i].subslot,
                    data[i].frame_offset as u16,
                ) && data[i].frame_offset <= 0xFFFF
            &&& object_places(data) == places(with_data(slots, t))
            &&& be16_at(b, behind) == iocs.len()
            &&& forall|i: int|
                0 <= i < iocs.len() ==> entry_at(b, behind + 2 + 6 * i) == entry_of(
                    #[trigger] iocs[i],
                )
            &&& object_places(iocs) == places(without_data(slots, t))
            &&& t == 2 ==> cfg.objects@ == data + iocs
        }),
{
    let slots = setup.io_slots@;
    let t = cfg.iocr_type;
    let n = slots.len() as int;
    let b = iocr_block_bytes(t, iocr_reference, setup);
    let data = data_objects(slots, t, n);
    let iocs = iocs_objects(slots, t, n);
    lemma_carrying_objects(cfg, slots);
    lemma_places(slots, t, n);
    assert(slots.take(n) =~= slots);
    configs_match_connect_request(slots, t, n);
    built_objects_fit(slots, t, n);
    let objects = object_entries(data);
    let status = object_entries(iocs);
    lemma_entries(data, Seq::empty(), Seq::empty());
    lemma_entries(iocs, Seq::empty(), Seq::empty());
    let len = (50 + objects.len() + status.len()) as u16;
    let length = payload_len(slots, t) as u16;
    let id = requested_frame_id(t, iocr_reference);
    let nd = data.len() as u16;
    let ns = iocs.len() as u16;
    let head = iocr_block_head(t, iocr_reference, len, length, id, setup);
    lemma_block_head(t, iocr_reference, len, length, id, setup);
    let before = head + be16(nd) + objects;
    assert(b == before + be16(ns) + status);
    lemma_block_lists(head, data, iocs);
    assert(b =~= head + be16(nd) + objects + be16(ns) + status);
    assert forall|i: int| 0 <= i < data.len() implies (#[trigger] data[i]).frame_offset <= 0xFFFF by {
        assert(object_fits(data[i], payload_len(slots, t)));
    }
}

/// The object that is found is the first one of the slot and subslot, and none is
/// found only where there is none.
pub proof fn objects_are_found(objs: Seq<IoDataObject>, slot: u16, subslot: u16)
    ensures
        match object_of(objs, slot, subslot) {
            Some(o) => exists|i: int|
                0 <= i < objs.len() && #[trigger] objs[i] == o && o.slot == slot && o.subslot
                    == subslot && forall|j: int|
                    0 <= j < i ==> !((#[trigger] objs[j]).slot == slot && objs[j].subslot
                        == subslot),
            None => forall|j: int|
                0 <= j < objs.len() ==> !((#[trigger] objs[j]).slot == slot && objs[j].subslot
                    == subslot),
        },
{
    lemma_find_object(objs, slot, subslot, 0);
    let i = find_object(objs, slot, subslot, 0);
    if i < objs.len() {
        assert(objs[i] == object_of(objs, slot, subslot)->0);
    }
}

proof fn lemma_find_object(objs: Seq<IoDataObject>, slot: u16, subslot: u16, from: int)
    requires
        0 <= from <= objs.len(),
    ensures
        ({
            let i = find_object(objs, slot, subslot, from);
            &&& from <= i <= objs.len()
            &&& i < objs.len() ==> objs[i].slot == slot && objs[i].subslot == subslot
            &&& forall|j: int|
                from <= j < i ==> !((#[trigger] objs[j]).slot == slot && objs[j].subslot == subslot)
        }),
    decreases objs.len() - from,
{
    if from < objs.len() && !(objs[from].slot == slot && objs[from].subslot == subslot) {
        lemma_find_object(objs, slot, subslot, from + 1);
    }
}

/// Where the `i`-th of some data objects begins: behind the status byte of the one
/// before it, and the first one at the front.
pub open spec fn begins_behind(objs: Seq<IoDataObject>, i: int) -> int {
    if i <= 0 {
        0
    } else {
        objs[i - 1].frame_offset + objs[i - 1].data_length + 1
    }
}

/// An object begins right behind the one before it, has the given length, and its
/// provider status right behind its data.
pub open spec fn follows_on(objs: Seq<IoDataObject>, i: int, length: int) -> bool {
    &&& objs[i].frame_offset == begins_behind(objs, i)
    &&& objs[i].data_length == length
    &&& objs[i].iops_offset == objs[i].frame_offset + objs[i].data_length
    &&& objs[i].iocs_offset is None
}

/// A layout has no gaps: each data object has the length of its submodule and its
/// provider status right behind its data, and begins right behind the one before
/// it; behind all data, the consumer status bytes follow one by one; and the frame
/// is as long as that, or 40 bytes.
pub proof fn layouts_have_no_gaps(slots: Seq<IoSlot>, iocr_type: u16, n: int)
    requires
        iocr_type == 1 || iocr_type == 2,
        0 <= n <= slots.len(),
        iocr_frame_len(slots, iocr_type) <= usize::MAX,
    ensures
        ({
            let data = data_objects(slots, iocr_type, n);
            let iocs = iocs_objects(slots, iocr_type, n);
            let full = with_data(slots.take(n), iocr_type);
            let all = data_objects(slots, iocr_type, slots.len() as int);
            let end = begins_behind(all, all.len() as int);
            &&& data.len() == full.len()
            &&& forall|i: int|
                0 <= i < data.len() ==> #[trigger] follows_on(data, i, iocr_data_len(full[i], iocr_type))
            &&& begins_behind(data, data.len() as int) == data_end(slots, iocr_type, n)
            &&& forall|i: int|
                0 <= i < iocs.len() ==> (#[trigger] iocs[i]).frame_offset == end + i
                    && iocs[i].iocs_offset == Some((end + i) as usize) && iocs[i].data_length == 0
            &&& n == slots.len() ==> payload_len(slots, iocr_type) == if end + iocs.len() > 40 {
                end + iocs.len()
            } else {
                40
            }
        }),
{
    let total = slots.len() as int;
    lemma_places(slots, iocr_type, n);
    lemma_data_layout(slots, iocr_type, n);
    lemma_data_layout(slots, iocr_type, total);
    lemma_iocs_layout(slots, iocr_type, n);
    if n == total {
        lemma_places(slots, iocr_type, total);
    }
}

proof fn lemma_with_data(slots: Seq<IoSlot>, t: u16, n: int)
    requires
        0 < n <= slots.len(),
    ensures
        with_data(slots.take(n), t) == if iocr_data_len(slots[n - 1], t) > 0 {
            with_data(slots.take(n - 1), t).push(slots[n - 1])
        } else {
            with_data(slots.take(n - 1), t)
        },
{
    reveal(Seq::filter);
    assert(slots.take(n).drop_last() =~= slots.take(n - 1));
    assert(slots.take(n).last() == slots[n - 1]);
}

proof fn lemma_data_layout(slots: Seq<IoSlot>, t: u16, n: int)
    requires
        t == 1 || t == 2,
        0 <= n <= slots.len(),
        iocr_frame_len(slots, t) <= usize::MAX,
    ensures
        ({
            let data = data_objects(slots, t, n);
            let full = with_data(slots.take(n), t);
            &&& data.len() == full.len()
            &&& forall|i: int|
                0 <= i < data.len() ==> #[trigger] follows_on(data, i, iocr_data_len(full[i], t))
            &&& begins_behind(data, data.len() as int) == data_end(slots, t, n)
        }),
    decreases n,
{
    if n > 0 {
        lemma_data_layout(slots, t, n - 1);
        lemma_with_data(slots, t, n);
        lemma_layout_bounds(slots, t, n, slots.len() as int);
        lemma_layout_bounds(slots, t, n - 1, n);
        lemma_layout_bounds(slots, t, slots.len() as int, slots.len() as int);
        let before = data_objects(slots, t, n - 1);
        let data = data_objects(slots, t, n);
        let full = with_data(slots.take(n), t);
        let had = with_data(slots.take(n - 1), t);
        assert forall|i: int| 0 <= i < data.len() implies #[trigger] follows_on(
            data,
            i,
            iocr_data_len(full[i], t),
        ) by {
            if i < before.len() {
                assert(follows_on(before, i, iocr_data_len(had[i], t)));
                assert(data[i] == before[i]);
                assert(full[i] == had[i]);
            }
            if i > 0 {
                assert(data[i - 1] == before[i - 1]);
            }
        }
    } else {
        reveal(Seq::filter);
        assert(slots.take(0) =~= Seq::empty());
    }
}

proof fn lemma_iocs_layout(slots: Seq<IoSlot>, t: u16, n: int)
    requires
        t == 1 || t == 2,
        0 <= n <= slots.len(),
        iocr_frame_len(slots, t) <= usize::MAX,
    ensures
        ({
            let iocs = iocs_objects(slots, t, n);
            let end = data_end(slots, t, slots.len() as int);
            &&& iocs.len() == iocs_count(slots, t, n)
            &&& forall|i: int|
                0 <= i < iocs.len() ==> (#[trigger] iocs[i]).frame_offset == end + i
                    && iocs[i].iocs_offset == Some((end + i) as usize) && iocs[i].data_length == 0
        }),
    decreases n,
{
    if n > 0 {
        lemma_iocs_layout(slots, t, n - 1);
        lemma_layout_bounds(slots, t, n, slots.len() as int);
        lemma_layout_bounds(slots, t, n - 1, n);
        lemma_layout_bounds(slots, t, slots.len() as int, slots.len() as int);
        let before = iocs_objects(slots, t, n - 1);
        let iocs = iocs_objects(slots, t, n);
        let end = data_end(slots, t, slots.len() as int);
        assert forall|i: int| 0 <= i < iocs.len() implies (#[trigger] iocs[i]).frame_offset == end
            + i && iocs[i].iocs_offset == Some((end + i) as usize) && iocs[i].data_length == 0 by {
            if i < before.len() {
                assert(iocs[i] == before[i]);
            }
        }
    }
}

/// An RT frame has its fields in place: the frame id in front, then the payload, and
/// behind it the cycle counter, the data status and the transfer status; and what
/// is read from such bytes is what stands there.
pub proof fn rt_frames_have_their_layout(
    frame_id: u16,
    payload: Seq<u8>,
    cycle_counter: u16,
    data_status: u8,
    transfer_status: u8,
    f: RtFrame,
    i: int,
)
    ensures
        ({
            let b = rt_frame_bytes(frame_id, payload, cycle_counter, data_status, transfer_status);
            let n = payload.len() as int;
            &&& b.len() == n + 6
            &&& be16_at(b, 0) == frame_id
            &&& 0 <= i < n ==> b[2 + i] == payload[i]
            &&& be16_at(b, 2 + n) == cycle_counter
            &&& b[4 + n] == data_status
            &&& b[5 + n] == transfer_status
            &&& f.read_from(b) ==> f.frame_id == frame_id && f.payload@ == payload
                && f.cycle_counter == cycle_counter && f.data_status == data_status
                && f.transfer_status == transfer_status
        }),
{
    let b = rt_frame_bytes(frame_id, payload, cycle_counter, data_status, transfer_status);
    let n = payload.len() as int;
    be16_placed(b, 0, frame_id);
    be16_placed(b, 2 + n, cycle_counter);
    assert(b.subrange(2, b.len() - 4) =~= payload);
}

/// On Ethernet, the frame stands behind both addresses, the priority tag and the
/// EtherType 0x8892.
pub proof fn ethernet_frames_have_their_layout(dst_mac: Seq<u8>, src_mac: Seq<u8>, body: Seq<u8>, i: int)
    requires
        dst_mac.len() == 6,
        src_mac.len() == 6,
    ensures
        ({
            let b = rt_ethernet_bytes(dst_mac, src_mac, body);
            &&& b.len() == 18 + body.len()
            &&& 0 <= i < 6 ==> b[i] == dst_mac[i] && b[6 + i] == src_mac[i]
            &&& be16_at(b, 12) == 0x8100 && be16_at(b, 14) == 0xC000
            &&& be16_at(b, 16) == 0x8892
            &&& 0 <= i < body.len() ==> b[18 + i] == body[i]
        }),
{
    let b = rt_ethernet_bytes(dst_mac, src_mac, body);
    be16_placed(b, 16, 0x8892);
}

/// What a submodule carries: its inputs in the direction to us, its outputs in the
/// direction to the device.
pub proof fn each_direction_has_its_length(slot: IoSlot)
    ensures
        iocr_data_len(slot, 1) == slot.input_length,
        iocr_data_len(slot, 2) == slot.output_length,
{
}

} // verus!
