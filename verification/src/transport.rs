//! The RPC association with a device: parsing of responses and of the
//! device's own control requests, and the connection that composes requests,
//! matches responses and tracks the state of the AR.
//!
//! Header parsing follows the byte order that a packet states (data
//! representation byte at offset 4, 0x10 set means little-endian): some
//! devices answer little-endian. Block payloads stay big-endian.

use vstd::prelude::*;
use vstd::slice::*;
use vstd::string::*;
use crate::blocks::{block_header, block_header_bytes, iod_record, records_have_their_layout};
use crate::bytes::{
    array16, be16, be16_at, be16_placed, be32, be32_at, copy_range, le16, le16_at, le32, le32_at,
    push_all, push_be16, push_be32, push_le16, push_le32, read_be16, read_be32, read_le16,
    read_le32,
};
use crate::errors::{error_message, error_text, PnioError};
use crate::rpc::{
    nrd, nrd_bytes, object_uuid, requests_have_their_layout, rpc_request, rpc_request_bytes,
    wrappers_have_their_layout, CONTROL, RELEASE,
};
use crate::text::{begins_with, dec, hex, push_dec, push_hex};

pub use crate::epm::RPC_PORT;
pub use crate::indices::{
    BLOCK_IOD_CONTROL_APP_READY_REQ, BLOCK_IOD_CONTROL_APP_READY_RES,
    BLOCK_IOD_CONTROL_PRM_END_REQ, BLOCK_IOD_RELEASE_REQ, BLOCK_PRM_BEGIN_REQ,
    CONTROL_CMD_APPLICATION_READY, CONTROL_CMD_DONE, CONTROL_CMD_PRM_BEGIN, CONTROL_CMD_PRM_END,
    CONTROL_CMD_RELEASE,
};

verus! {

/// Default requested record length for reads.
pub const READ_LENGTH: u32 = 4096;

/// RPC packet types.
pub const PACKET_TYPE_REQUEST: u8 = 0x00;
pub const PACKET_TYPE_RESPONSE: u8 = 0x02;
pub const PACKET_TYPE_FAULT: u8 = 0x03;
pub const PACKET_TYPE_REJECT: u8 = 0x06;

/// IOCRBlockRes block type.
pub const IOCR_BLOCK_RES: u16 = 0x8102;

/// The 16-bit value at `off` in the stated byte order.
pub open spec fn u16_in(data: Seq<u8>, off: int, le: bool) -> u16 {
    if le {
        le16_at(data, off)
    } else {
        be16_at(data, off)
    }
}

/// The 32-bit value at `off` in the stated byte order.
pub open spec fn u32_in(data: Seq<u8>, off: int, le: bool) -> u32 {
    if le {
        le32_at(data, off)
    } else {
        be32_at(data, off)
    }
}

/// A 16-bit value in the stated byte order.
pub open spec fn bytes16(v: u16, le: bool) -> Seq<u8> {
    if le {
        le16(v)
    } else {
        be16(v)
    }
}

/// A 32-bit value in the stated byte order.
pub open spec fn bytes32(v: u32, le: bool) -> Seq<u8> {
    if le {
        le32(v)
    } else {
        be32(v)
    }
}

fn rd_u16(data: &[u8], off: usize, le: bool) -> (r: u16)
    requires
        off + 2 <= data@.len(),
    ensures
        r == u16_in(data@, off as int, le),
{
    if le {
        read_le16(data, off)
    } else {
        read_be16(data, off)
    }
}

fn rd_u32(data: &[u8], off: usize, le: bool) -> (r: u32)
    requires
        off + 4 <= data@.len(),
    ensures
        r == u32_in(data@, off as int, le),
{
    if le {
        read_le32(data, off)
    } else {
        read_be32(data, off)
    }
}

fn wr_u16(out: &mut Vec<u8>, v: u16, le: bool)
    ensures
        final(out)@ == old(out)@ + bytes16(v, le),
{
    if le {
        push_le16(out, v);
    } else {
        push_be16(out, v);
    }
}

fn wr_u32(out: &mut Vec<u8>, v: u32, le: bool)
    ensures
        final(out)@ == old(out)@ + bytes32(v, le),
{
    if le {
        push_le32(out, v);
    } else {
        push_be32(out, v);
    }
}

/// DCE/RPC header and body, read in the packet's own byte order.
#[derive(Debug, Clone, PartialEq, Eq)]
pub struct ParsedRpc {
    pub version: u8,
    pub packet_type: u8,
    pub flags1: u8,
    pub flags2: u8,
    pub drep: [u8; 3],
    pub serial_high: u8,
    pub object_uuid: [u8; 16],
    pub interface_uuid: [u8; 16],
    pub activity_uuid: [u8; 16],
    pub server_boot_time: u32,
    pub interface_version: u32,
    pub sequence_number: u32,
    pub operation_number: u16,
    pub interface_hint: u16,
    pub activity_hint: u16,
    pub length_of_body: u16,
    pub fragment_number: u16,
    pub auth_protocol: u8,
    pub serial_low: u8,
    pub is_little_endian: bool,
    pub payload: Vec<u8>,
}

/// What a [`ParsedRpc`] says, as mathematical values.
#[verifier::ext_equal]
pub struct RpcModel {
    pub version: u8,
    pub packet_type: u8,
    pub flags1: u8,
    pub flags2: u8,
    pub drep: Seq<u8>,
    pub serial_high: u8,
    pub object_uuid: Seq<u8>,
    pub interface_uuid: Seq<u8>,
    pub activity_uuid: Seq<u8>,
    pub server_boot_time: u32,
    pub interface_version: u32,
    pub sequence_number: u32,
    pub operation_number: u16,
    pub interface_hint: u16,
    pub activity_hint: u16,
    pub length_of_body: u16,
    pub fragment_number: u16,
    pub auth_protocol: u8,
    pub serial_low: u8,
    pub is_little_endian: bool,
    pub payload: Seq<u8>,
}

impl View for ParsedRpc {
    type V = RpcModel;

    open spec fn view(&self) -> RpcModel {
        RpcModel {
            version: self.version,
            packet_type: self.packet_type,
            flags1: self.flags1,
            flags2: self.flags2,
            drep: self.drep@,
            serial_high: self.serial_high,
            object_uuid: self.object_uuid@,
            interface_uuid: self.interface_uuid@,
            activity_uuid: self.activity_uuid@,
            server_boot_time: self.server_boot_time,
            interface_version: self.interface_version,
            sequence_number: self.sequence_number,
            operation_number: self.operation_number,
            interface_hint: self.interface_hint,
            activity_hint: self.activity_hint,
            length_of_body: self.length_of_body,
            fragment_number: self.fragment_number,
            auth_protocol: self.auth_protocol,
            serial_low: self.serial_low,
            is_little_endian: self.is_little_endian,
            payload: self.payload@,
        }
    }
}

/// The packet that `data` (80 bytes or more) holds.
pub open spec fn rpc_of(data: Seq<u8>) -> RpcModel {
    let le = data[4] / 16 % 2 == 1;
    RpcModel {
        version: data[0],
        packet_type: data[1],
        flags1: data[2],
        flags2: data[3],
        drep: data.subrange(4, 7),
        serial_high: data[7],
        object_uuid: data.subrange(8, 24),
        interface_uuid: data.subrange(24, 40),
        activity_uuid: data.subrange(40, 56),
        server_boot_time: u32_in(data, 56, le),
        interface_version: u32_in(data, 60, le),
        sequence_number: u32_in(data, 64, le),
        operation_number: u16_in(data, 68, le),
        interface_hint: u16_in(data, 70, le),
        activity_hint: u16_in(data, 72, le),
        length_of_body: u16_in(data, 74, le),
        fragment_number: u16_in(data, 76, le),
        auth_protocol: data[78],
        serial_low: data[79],
        is_little_endian: le,
        payload: data.skip(80),
    }
}

fn rest_of(data: &[u8], from: usize) -> (r: Vec<u8>)
    requires
        from <= data@.len(),
    ensures
        r@ == data@.skip(from as int),
{
    let r = copy_range(data, from, data.len());
    assert(r@ =~= data@.skip(from as int));
    r
}

/// Parse an 80-byte DCE/RPC header and body. Single-byte fields and the UUIDs
/// are taken as they are; multi-byte fields follow the stated byte order.
/// Returns None if the packet is shorter than the header.
pub fn parse_rpc_header(data: &[u8]) -> (r: Option<ParsedRpc>)
    ensures
        r is Some <==> data@.len() >= 80,
        r matches Some(h) ==> h@ == rpc_of(data@),
{
    if data.len() < 80 {
        return None;
    }
    let le = data[4] / 16 % 2 == 1;
    let h = ParsedRpc {
        version: data[0],
        packet_type: data[1],
        flags1: data[2],
        flags2: data[3],
        drep: [data[4], data[5], data[6]],
        serial_high: data[7],
        object_uuid: array16(data, 8),
        interface_uuid: array16(data, 24),
        activity_uuid: array16(data, 40),
        server_boot_time: rd_u32(data, 56, le),
        interface_version: rd_u32(data, 60, le),
        sequence_number: rd_u32(data, 64, le),
        operation_number: rd_u16(data, 68, le),
        interface_hint: rd_u16(data, 70, le),
        activity_hint: rd_u16(data, 72, le),
        length_of_body: rd_u16(data, 74, le),
        fragment_number: rd_u16(data, 76, le),
        auth_protocol: data[78],
        serial_low: data[79],
        is_little_endian: le,
        payload: rest_of(data, 80),
    };
    assert(h.drep@ =~= data@.subrange(4, 7));
    Some(h)
}

/// What a received packet is to the sender of a request: nothing if it is an
/// echoed request, a response, or an error.
pub open spec fn response_of(data: Seq<u8>) -> Result<Option<RpcModel>, Seq<char>> {
    let h = rpc_of(data);
    if data.len() < 80 {
        Err("Failed to parse RPC response: data too short ("@ + dec(data.len()) + " bytes)"@)
    } else if h.packet_type == 0x00 {
        Ok(None)
    } else if h.packet_type == 0x02 {
        Ok(Some(h))
    } else if h.packet_type == 0x03 {
        Err(
            "RPC fault from device (fault code 0x"@ + hex(h.operation_number as nat, 4, true)
                + ")"@,
        )
    } else if h.packet_type == 0x06 {
        Err("RPC request rejected by device"@)
    } else {
        Err("Unexpected RPC packet type: 0x"@ + hex(h.packet_type as nat, 2, true))
    }
}

/// Classify one received packet: an echoed REQUEST (our own packet looped
/// back) yields Ok(None), to be skipped; FAULT, REJECT and unexpected types
/// are errors; RESPONSE yields the parsed header.
pub fn parse_rpc_response(data: &[u8]) -> (r: Result<Option<ParsedRpc>, String>)
    ensures
        match response_of(data@) {
            Ok(Some(m)) => r matches Ok(Some(h)) && h@ == m,
            Ok(None) => r matches Ok(None),
            Err(m) => r matches Err(e) && e@ == m,
        },
{
    match parse_rpc_header(data) {
        None => {
            let mut e = "Failed to parse RPC response: data too short (".to_owned();
            push_dec(&mut e, data.len() as u128);
            e.append(" bytes)");
            Err(e)
        },
        Some(h) => {
            if h.packet_type == PACKET_TYPE_REQUEST {
                Ok(None)
            } else if h.packet_type == PACKET_TYPE_RESPONSE {
                Ok(Some(h))
            } else if h.packet_type == PACKET_TYPE_FAULT {
                let mut e = "RPC fault from device (fault code 0x".to_owned();
                push_hex(&mut e, h.operation_number as u64, 4, true);
                e.append(")");
                Err(e)
            } else if h.packet_type == PACKET_TYPE_REJECT {
                Err("RPC request rejected by device".to_owned())
            } else {
                let mut e = "Unexpected RPC packet type: 0x".to_owned();
                push_hex(&mut e, h.packet_type as u64, 2, true);
                Err(e)
            }
        },
    }
}

/// An activity UUID in a form that does not depend on the byte order of the
/// packet: its first three fields big-endian.
pub open spec fn normalized(uuid: Seq<u8>, le: bool) -> Seq<u8> {
    if le {
        seq![uuid[3], uuid[2], uuid[1], uuid[0], uuid[5], uuid[4], uuid[7], uuid[6]] + uuid.skip(8)
    } else {
        uuid
    }
}

/// Normalize an activity UUID for comparison. The UUID's first three fields
/// are serialized in the packet's byte order; the trailing 8 bytes are always
/// big-endian. A request and its response may state opposite byte orders, and
/// both normalize to the same value.
pub fn drep_normalized_uuid(uuid: &[u8; 16], little_endian: bool) -> (r: [u8; 16])
    ensures
        r@ == normalized(uuid@, little_endian),
{
    if !little_endian {
        return *uuid;
    }
    let r = [
        uuid[3],
        uuid[2],
        uuid[1],
        uuid[0],
        uuid[5],
        uuid[4],
        uuid[7],
        uuid[6],
        uuid[8],
        uuid[9],
        uuid[10],
        uuid[11],
        uuid[12],
        uuid[13],
        uuid[14],
        uuid[15],
    ];
    assert(r@ =~= normalized(uuid@, true));
    r
}

/// Swapping the byte order of a UUID and stating the other one does not change
/// what it normalizes to.
pub proof fn opposite_byte_orders_agree(uuid: Seq<u8>)
    requires
        uuid.len() == 16,
    ensures
        normalized(normalized(uuid, true), true) == uuid,
        normalized(normalized(uuid, true), true) == normalized(uuid, false),
        normalized(uuid, true).skip(8) == uuid.skip(8),
{
    assert(normalized(normalized(uuid, true), true) =~= uuid);
    assert(normalized(uuid, true).skip(8) =~= uuid.skip(8));
}

/// NRD: args status, array counts, payload.
#[derive(Debug, Clone, PartialEq, Eq)]
pub struct ParsedNrd {
    /// The args maximum on requests, the PNIO status on responses (non-zero
    /// means an error).
    pub args_status: u32,
    pub args_length: u32,
    pub maximum_count: u32,
    pub offset: u32,
    pub actual_count: u32,
    pub payload: Vec<u8>,
}

impl ParsedNrd {
    /// The fields are those that stand in `data`.
    pub open spec fn read_from(self, data: Seq<u8>, le: bool) -> bool {
        &&& self.args_status == u32_in(data, 0, le)
        &&& self.args_length == u32_in(data, 4, le)
        &&& self.maximum_count == u32_in(data, 8, le)
        &&& self.offset == u32_in(data, 12, le)
        &&& self.actual_count == u32_in(data, 16, le)
        &&& self.payload@ == data.skip(20)
    }
}

/// The message for data shorter than an NRD header.
pub open spec fn short_nrd_message(len: nat) -> Seq<char> {
    "NRD header too short ("@ + dec(len) + " bytes)"@
}

/// Parse a 20-byte NRD header and payload in the given byte order.
pub fn parse_nrd(data: &[u8], little_endian: bool) -> (r: Result<ParsedNrd, String>)
    ensures
        r is Ok <==> data@.len() >= 20,
        r matches Ok(n) ==> n.read_from(data@, little_endian),
        r matches Err(e) ==> e@ == short_nrd_message(data@.len()),
{
    if data.len() < 20 {
        let mut e = "NRD header too short (".to_owned();
        push_dec(&mut e, data.len() as u128);
        e.append(" bytes)");
        return Err(e);
    }
    Ok(
        ParsedNrd {
            args_status: rd_u32(data, 0, little_endian),
            args_length: rd_u32(data, 4, little_endian),
            maximum_count: rd_u32(data, 8, little_endian),
            offset: rd_u32(data, 12, little_endian),
            actual_count: rd_u32(data, 16, little_endian),
            payload: rest_of(data, 20),
        },
    )
}

/// IOD response record (64 fixed bytes and payload), always big-endian.
#[derive(Debug, Clone, PartialEq, Eq)]
pub struct ParsedIod {
    pub block_type: u16,
    pub block_length: u16,
    pub sequence_number: u16,
    pub ar_uuid: [u8; 16],
    pub api: u32,
    pub slot: u16,
    pub subslot: u16,
    pub index: u16,
    pub length: u32,
    pub payload: Vec<u8>,
}

impl ParsedIod {
    /// The fields are those that stand in `data`.
    pub open spec fn read_from(self, data: Seq<u8>) -> bool {
        &&& self.block_type == be16_at(data, 0)
        &&& self.block_length == be16_at(data, 2)
        &&& self.sequence_number == be16_at(data, 6)
        &&& self.ar_uuid@ == data.subrange(8, 24)
        &&& self.api == be32_at(data, 24)
        &&& self.slot == be16_at(data, 28)
        &&& self.subslot == be16_at(data, 30)
        &&& self.index == be16_at(data, 34)
        &&& self.length == be32_at(data, 36)
        &&& self.payload@ == data.skip(64)
    }
}

/// The message for data shorter than an IOD header.
pub open spec fn short_iod_message(len: nat) -> Seq<char> {
    "IOD header too short ("@ + dec(len) + " bytes)"@
}

/// Parse an IOD header (read or write response record) from an NRD payload.
pub fn parse_iod_header(data: &[u8]) -> (r: Result<ParsedIod, String>)
    ensures
        r is Ok <==> data@.len() >= 64,
        r matches Ok(v) ==> v.read_from(data@),
        r matches Err(e) ==> e@ == short_iod_message(data@.len()),
{
    if data.len() < 64 {
        let mut e = "IOD header too short (".to_owned();
        push_dec(&mut e, data.len() as u128);
        e.append(" bytes)");
        return Err(e);
    }
    Ok(
        ParsedIod {
            block_type: read_be16(data, 0),
            block_length: read_be16(data, 2),
            sequence_number: read_be16(data, 6),
            ar_uuid: array16(data, 8),
            api: read_be32(data, 24),
            slot: read_be16(data, 28),
            subslot: read_be16(data, 30),
            index: read_be16(data, 34),
            length: read_be32(data, 36),
            payload: rest_of(data, 64),
        },
    )
}

/// The frame id in the first IOCRBlockRes of a type from `off` on, 0 if there
/// is none. A block reaches 4 bytes plus its length.
pub open spec fn iocr_frame_id(data: Seq<u8>, iocr_type: u16, off: int) -> u16
    decreases
            if off < data.len() {
                data.len() - off
            } else {
                0
            },
{
    if off + 6 > data.len() {
        0
    } else if be16_at(data, off) == 0x8102 && off + 12 <= data.len() && be16_at(data, off + 6)
        == iocr_type {
        be16_at(data, off + 10)
    } else {
        iocr_frame_id(data, iocr_type, off + 4 + be16_at(data, off + 2))
    }
}

/// Walk the connect-response blocks for an IOCRBlockRes (0x8102) of the given
/// type (1 input, 2 output) and return its assigned frame ID, or 0 if not
/// found.
pub fn parse_iocr_block_res(response_data: &[u8], iocr_type: u16) -> (r: u16)
    ensures
        r == iocr_frame_id(response_data@, iocr_type, 0),
{
    let mut offset: usize = 0;
    while response_data.len() - offset >= 6
        invariant
            offset <= response_data@.len(),
            iocr_frame_id(response_data@, iocr_type, offset as int) == iocr_frame_id(
                response_data@,
                iocr_type,
                0,
            ),
        decreases response_data@.len() - offset,
    {
        let left: usize = response_data.len() - offset;
        if read_be16(response_data, offset) == IOCR_BLOCK_RES && left >= 12 && read_be16(
            response_data,
            offset + 6,
        ) == iocr_type {
            return read_be16(response_data, offset + 10);
        }
        let step: usize = 4 + read_be16(response_data, offset + 2) as usize;
        if step > left {
            assert(iocr_frame_id(response_data@, iocr_type, offset + step) == 0);
            return 0;
        }
        offset = offset + step;
    }
    0
}

/// Result of establishing an AR.
#[derive(Debug, Clone, Copy, PartialEq, Eq, Structural)]
pub struct ConnectResult {
    /// Frame ID for input IOCR (device to controller). 0 = not established.
    pub input_frame_id: u16,
    /// Frame ID for output IOCR (controller to device). 0 = not established.
    pub output_frame_id: u16,
    /// True if cyclic IO was established.
    pub has_cyclic: bool,
}

/// A non-zero status as text: the raw hexadecimal digits, which callers match,
/// then the decoded message.
pub open spec fn status_text(status: u32) -> Seq<char> {
    let b = be32(status);
    "0x"@ + hex(status as nat, 8, true) + " ("@ + error_text(
        error_message(b[1], b[2], b[3]),
        b[1],
        b[2],
        b[3],
    ) + ")"@
}

fn pnio_status_str(args_status: u32) -> (r: String)
    ensures
        r@ == status_text(args_status),
{
    let mut b: Vec<u8> = Vec::new();
    push_be32(&mut b, args_status);
    assert(b@ =~= be32(args_status));
    let mut s = "0x".to_owned();
    push_hex(&mut s, args_status as u64, 8, true);
    s.append(" (");
    s.append(PnioError::from_bytes(b.as_slice()).to_text().as_str());
    s.append(")");
    s
}

/// What a connect response says: the assigned frame ids, or why it was
/// rejected.
pub open spec fn connect_outcome(payload: Seq<u8>, le: bool) -> Result<ConnectResult, Seq<char>> {
    let status = u32_in(payload, 0, le);
    if payload.len() < 20 {
        Err(short_nrd_message(payload.len()))
    } else if status != 0 {
        Err("Connect rejected by device: PNIO status "@ + status_text(status))
    } else {
        let i = iocr_frame_id(payload.skip(20), 1, 0);
        let o = iocr_frame_id(payload.skip(20), 2, 0);
        Ok(
            ConnectResult {
                input_frame_id: i,
                output_frame_id: o,
                has_cyclic: i != 0 || o != 0,
            },
        )
    }
}

/// Parse a connect-response RPC body: NRD status check, then extract the frame
/// IDs assigned in the IOCRBlockRes blocks.
pub fn parse_connect_response(rpc_payload: &[u8], little_endian: bool) -> (r: Result<
    ConnectResult,
    String,
>)
    ensures
        match connect_outcome(rpc_payload@, little_endian) {
            Ok(c) => r matches Ok(v) && v == c,
            Err(m) => r matches Err(e) && e@ == m,
        },
{
    let nrd = match parse_nrd(rpc_payload, little_endian) {
        Ok(n) => n,
        Err(e) => {
            return Err(e);
        },
    };
    if nrd.args_status != 0 {
        let mut e = "Connect rejected by device: PNIO status ".to_owned();
        e.append(pnio_status_str(nrd.args_status).as_str());
        return Err(e);
    }
    let input_frame_id: u16 = parse_iocr_block_res(nrd.payload.as_slice(), 1);
    let output_frame_id: u16 = parse_iocr_block_res(nrd.payload.as_slice(), 2);
    Ok(
        ConnectResult {
            input_frame_id,
            output_frame_id,
            has_cyclic: input_frame_id != 0 || output_frame_id != 0,
        },
    )
}

/// What a write or control response says: its NRD payload, or the device's
/// error.
pub open spec fn status_outcome(payload: Seq<u8>, le: bool) -> Result<Seq<u8>, Seq<char>> {
    let status = u32_in(payload, 0, le);
    if payload.len() < 20 {
        Err(short_nrd_message(payload.len()))
    } else if status != 0 {
        Err("PNIO error status "@ + status_text(status))
    } else {
        Ok(payload.skip(20))
    }
}

/// What a read response says: the record, or the device's error.
pub open spec fn read_outcome(payload: Seq<u8>, le: bool) -> Result<Seq<u8>, Seq<char>> {
    match status_outcome(payload, le) {
        Err(m) => Err(m),
        Ok(record) => if record.len() < 64 {
            Err(short_iod_message(record.len()))
        } else {
            Ok(record.skip(64))
        },
    }
}

/// Parse a read-response RPC body: NRD status check (a non-zero status is an
/// error), then the IOD record; returns the record payload.
pub fn parse_read_response(rpc_payload: &[u8], little_endian: bool) -> (r: Result<Vec<u8>, String>)
    ensures
        match read_outcome(rpc_payload@, little_endian) {
            Ok(d) => r matches Ok(v) && v@ == d,
            Err(m) => r matches Err(e) && e@ == m,
        },
{
    match parse_status_response(rpc_payload, little_endian) {
        Err(e) => Err(e),
        Ok(record) => match parse_iod_header(record.as_slice()) {
            Ok(iod) => Ok(iod.payload),
            Err(e) => Err(e),
        },
    }
}

/// Parse a write- or control-response RPC body: NRD status check only,
/// returning the NRD payload.
pub fn parse_status_response(rpc_payload: &[u8], little_endian: bool) -> (r: Result<
    Vec<u8>,
    String,
>)
    ensures
        match status_outcome(rpc_payload@, little_endian) {
            Ok(d) => r matches Ok(v) && v@ == d,
            Err(m) => r matches Err(e) && e@ == m,
        },
{
    let nrd = match parse_nrd(rpc_payload, little_endian) {
        Ok(n) => n,
        Err(e) => {
            return Err(e);
        },
    };
    if nrd.args_status != 0 {
        let mut e = "PNIO error status ".to_owned();
        e.append(pnio_status_str(nrd.args_status).as_str());
        return Err(e);
    }
    Ok(nrd.payload)
}

/// An IODControl block (32 bytes): header, padding, AR UUID, session key,
/// padding, command, properties.
pub open spec fn control_block_bytes(
    block_type: u16,
    ar_uuid: Seq<u8>,
    session_key: u16,
    command: u16,
) -> Seq<u8> {
    block_header_bytes(block_type, 28, 1, 0) + be16(0) + ar_uuid + be16(session_key) + be16(0)
        + be16(command) + be16(0)
}

/// IODControlReq or IODControlRes block.
pub fn iod_control_block(
    block_type: u16,
    ar_uuid: &[u8; 16],
    session_key: u16,
    control_command: u16,
) -> (r: Vec<u8>)
    ensures
        r@ == control_block_bytes(block_type, ar_uuid@, session_key, control_command),
        r@.len() == 32,
{
    let mut out = block_header(block_type, 28, 1, 0);
    push_be16(&mut out, 0);
    push_all(&mut out, ar_uuid.as_slice());
    push_be16(&mut out, session_key);
    push_be16(&mut out, 0);
    push_be16(&mut out, control_command);
    push_be16(&mut out, 0);
    out
}

/// A release request.
pub open spec fn release_request_bytes(
    object_uuid: Seq<u8>,
    iface_uuid: Seq<u8>,
    activity_uuid: Seq<u8>,
    ar_uuid: Seq<u8>,
    session_key: u16,
    seq: u32,
) -> Seq<u8> {
    rpc_request_bytes(
        object_uuid,
        iface_uuid,
        activity_uuid,
        seq,
        RELEASE,
        nrd_bytes(control_block_bytes(0x0114, ar_uuid, session_key, 0x0004)),
    )
}

/// Full RELEASE request frame: a ReleaseBlockReq (0x0114, command 0x0004 =
/// terminate AR) wrapped in NRD and the RPC request header.
pub fn release_request(
    object_uuid: &[u8; 16],
    iface_uuid: &[u8; 16],
    activity_uuid: &[u8; 16],
    ar_uuid: &[u8; 16],
    session_key: u16,
    seq: u32,
) -> (r: Vec<u8>)
    ensures
        r@ == release_request_bytes(
            object_uuid@,
            iface_uuid@,
            activity_uuid@,
            ar_uuid@,
            session_key,
            seq,
        ),
{
    let block = iod_control_block(BLOCK_IOD_RELEASE_REQ, ar_uuid, session_key, CONTROL_CMD_RELEASE);
    let body = nrd(block.as_slice());
    rpc_request(object_uuid, iface_uuid, activity_uuid, seq, RELEASE, body.as_slice())
}

/// A control request that the device initiated.
#[derive(Debug, Clone, PartialEq, Eq)]
pub struct CControlRequest {
    pub block_type: u16,
    pub control_command: u16,
    /// The NRD body (control block and sub-blocks).
    pub nrd_body: Vec<u8>,
}

/// The body of a control request, or why a packet is none.
pub open spec fn ccontrol_body(h: RpcModel) -> Result<Seq<u8>, Seq<char>> {
    let body = h.payload.skip(20);
    if h.packet_type != 0x00 {
        Err("Not a REQUEST (type=0x"@ + hex(h.packet_type as nat, 2, true) + ")"@)
    } else if h.operation_number != 0x04 {
        Err("Not CONTROL opnum (op="@ + dec(h.operation_number as nat) + ")"@)
    } else if h.payload.len() < 20 {
        Err(short_nrd_message(h.payload.len()))
    } else if body.len() < 32 {
        Err("CControl payload too short: "@ + dec(body.len()) + " bytes"@)
    } else {
        Ok(body)
    }
}

/// Validate and extract the control request from a parsed RPC packet: it must
/// be a REQUEST with opnum CONTROL; the control block itself is big-endian,
/// with the command at offset 28.
pub fn parse_ccontrol_request(hdr: &ParsedRpc) -> (r: Result<CControlRequest, String>)
    ensures
        match ccontrol_body(hdr@) {
            Ok(b) => r matches Ok(c) && c.nrd_body@ == b && c.block_type == be16_at(b, 0)
                && c.control_command == be16_at(b, 28),
            Err(m) => r matches Err(e) && e@ == m,
        },
{
    if hdr.packet_type != PACKET_TYPE_REQUEST {
        let mut e = "Not a REQUEST (type=0x".to_owned();
        push_hex(&mut e, hdr.packet_type as u64, 2, true);
        e.append(")");
        return Err(e);
    }
    if hdr.operation_number != CONTROL {
        let mut e = "Not CONTROL opnum (op=".to_owned();
        push_dec(&mut e, hdr.operation_number as u128);
        e.append(")");
        return Err(e);
    }
    let nrd = match parse_nrd(hdr.payload.as_slice(), hdr.is_little_endian) {
        Ok(n) => n,
        Err(e) => {
            return Err(e);
        },
    };
    if nrd.payload.len() < 32 {
        let mut e = "CControl payload too short: ".to_owned();
        push_dec(&mut e, nrd.payload.len() as u128);
        e.append(" bytes");
        return Err(e);
    }
    Ok(
        CControlRequest {
            block_type: read_be16(nrd.payload.as_slice(), 0),
            control_command: read_be16(nrd.payload.as_slice(), 28),
            nrd_body: nrd.payload,
        },
    )
}

/// The confirmation of a device's ApplicationReady: an RPC response in the
/// request's byte order that echoes its representation, UUIDs, sequence number
/// and serials, with a control block 0x8112 that says DONE.
pub open spec fn ccontrol_response_bytes(h: RpcModel, ar_uuid: Seq<u8>, session_key: u16) -> Seq<u8> {
    let le = h.is_little_endian;
    seq![h.version, 0x02u8, 0x00, 0x00] + h.drep + seq![h.serial_high] + h.object_uuid
        + h.interface_uuid + h.activity_uuid + bytes32(0, le) + bytes32(h.interface_version, le)
        + bytes32(h.sequence_number, le) + bytes16(h.operation_number, le) + bytes16(0xFFFF, le)
        + bytes16(0xFFFF, le) + bytes16(52, le) + bytes16(0, le) + seq![0x00u8, h.serial_low]
        + bytes32(0, le) + bytes32(32, le) + bytes32(32, le) + bytes32(0, le) + bytes32(32, le)
        + control_block_bytes(0x8112, ar_uuid, session_key, 0x0008)
}

/// Build the confirmation sent back for the device's ApplicationReady.
pub fn ccontrol_response(req: &ParsedRpc, ar_uuid: &[u8; 16], session_key: u16) -> (r: Vec<u8>)
    ensures
        r@ == ccontrol_response_bytes(req@, ar_uuid@, session_key),
{
    let le = req.is_little_endian;
    let control = iod_control_block(
        BLOCK_IOD_CONTROL_APP_READY_RES,
        ar_uuid,
        session_key,
        CONTROL_CMD_DONE,
    );
    let mut out: Vec<u8> = Vec::new();
    out.push(req.version);
    out.push(PACKET_TYPE_RESPONSE);
    out.push(0x00);  // flags1
    out.push(0x00);  // flags2
    assert(out@ =~= seq![req.version, 0x02u8, 0x00, 0x00]);
    push_all(&mut out, req.drep.as_slice());
    let ghost a = out@;
    out.push(req.serial_high);
    assert(out@ =~= a + seq![req.serial_high]);
    push_all(&mut out, req.object_uuid.as_slice());
    push_all(&mut out, req.interface_uuid.as_slice());
    push_all(&mut out, req.activity_uuid.as_slice());
    wr_u32(&mut out, 0, le);  // server boot time
    wr_u32(&mut out, req.interface_version, le);
    wr_u32(&mut out, req.sequence_number, le);
    wr_u16(&mut out, req.operation_number, le);
    wr_u16(&mut out, 0xFFFF, le);  // interface hint
    wr_u16(&mut out, 0xFFFF, le);  // activity hint
    wr_u16(&mut out, 52, le);  // length of body
    wr_u16(&mut out, 0, le);  // fragment number
    let ghost b = out@;
    out.push(0x00);  // authentication protocol
    out.push(req.serial_low);
    assert(out@ =~= b + seq![0x00u8, req.serial_low]);
    wr_u32(&mut out, 0, le);  // status OK
    wr_u32(&mut out, 32, le);  // args length
    wr_u32(&mut out, 32, le);  // maximum count
    wr_u32(&mut out, 0, le);  // offset
    wr_u32(&mut out, 32, le);  // actual count
    push_all(&mut out, control.as_slice());
    out
}

/// The body of an ApplicationReady that a datagram carries, if it does.
pub open spec fn app_ready_body(data: Seq<u8>) -> Option<Seq<u8>> {
    if data.len() < 80 {
        None
    } else {
        match ccontrol_body(rpc_of(data)) {
            Ok(b) => if be16_at(b, 0) == 0x0112 {
                Some(b)
            } else {
                None
            },
            Err(_) => None,
        }
    }
}

/// Parse one received datagram as a device's ApplicationReady (REQUEST,
/// CONTROL opnum, block type 0x0112); None for anything else.
pub fn extract_app_ready(data: &[u8]) -> (r: Option<(ParsedRpc, CControlRequest)>)
    ensures
        match app_ready_body(data@) {
            Some(b) => r matches Some((h, c)) && h@ == rpc_of(data@) && c.nrd_body@ == b
                && c.block_type == be16_at(b, 0) && c.control_command == be16_at(b, 28),
            None => r is None,
        },
{
    let hdr = match parse_rpc_header(data) {
        Some(h) => h,
        None => {
            return None;
        },
    };
    match parse_ccontrol_request(&hdr) {
        Ok(cc) => {
            if cc.block_type != BLOCK_IOD_CONTROL_APP_READY_REQ {
                None
            } else {
                Some((hdr, cc))
            }
        },
        Err(_) => None,
    }
}

/// A 16-bit value is read where its bytes stand, in the byte order they have.
proof fn lemma_placed16(s: Seq<u8>, off: int, x: u16, le: bool)
    requires
        0 <= off,
        off + 2 <= s.len(),
        s[off] == bytes16(x, le)[0],
        s[off + 1] == bytes16(x, le)[1],
    ensures
        u16_in(s, off, le) == x,
{
}

/// A 32-bit value is read where its bytes stand, in the byte order they have.
proof fn lemma_placed32(s: Seq<u8>, off: int, x: u32, le: bool)
    requires
        0 <= off,
        off + 4 <= s.len(),
        s[off] == bytes32(x, le)[0],
        s[off + 1] == bytes32(x, le)[1],
        s[off + 2] == bytes32(x, le)[2],
        s[off + 3] == bytes32(x, le)[3],
    ensures
        u32_in(s, off, le) == x,
{
}

/// The numbers of an RPC header, 24 bytes in the packet's byte order.
pub open spec fn laid_out_numbers(h: RpcModel) -> Seq<u8> {
    let le = h.is_little_endian;
    bytes32(h.server_boot_time, le) + bytes32(h.interface_version, le) + bytes32(
        h.sequence_number,
        le,
    ) + bytes16(h.operation_number, le) + bytes16(h.interface_hint, le) + bytes16(
        h.activity_hint,
        le,
    ) + bytes16(h.length_of_body, le) + bytes16(h.fragment_number, le) + seq![
        h.auth_protocol,
        h.serial_low,
    ]
}

/// An RPC packet as a device lays it out, in the byte order that it states.
pub open spec fn laid_out_rpc(h: RpcModel) -> Seq<u8> {
    seq![h.version, h.packet_type, h.flags1, h.flags2] + h.drep + seq![h.serial_high]
        + h.object_uuid + h.interface_uuid + h.activity_uuid + laid_out_numbers(h) + h.payload
}

/// The parts of a packet have their lengths, and it states the byte order that it
/// has.
pub open spec fn valid_rpc(h: RpcModel) -> bool {
    &&& h.drep.len() == 3
    &&& h.object_uuid.len() == 16
    &&& h.interface_uuid.len() == 16
    &&& h.activity_uuid.len() == 16
    &&& h.is_little_endian == (h.drep[0] / 16 % 2 == 1)
}

proof fn lemma_numbers(h: RpcModel)
    ensures
        ({
            let n = laid_out_numbers(h);
            let le = h.is_little_endian;
            &&& n.len() == 24
            &&& u32_in(n, 0, le) == h.server_boot_time
            &&& u32_in(n, 4, le) == h.interface_version
            &&& u32_in(n, 8, le) == h.sequence_number
            &&& u16_in(n, 12, le) == h.operation_number
            &&& u16_in(n, 14, le) == h.interface_hint
            &&& u16_in(n, 16, le) == h.activity_hint
            &&& u16_in(n, 18, le) == h.length_of_body
            &&& u16_in(n, 20, le) == h.fragment_number
            &&& n[22] == h.auth_protocol
            &&& n[23] == h.serial_low
        }),
{
    let n = laid_out_numbers(h);
    let le = h.is_little_endian;
    lemma_placed32(n, 0, h.server_boot_time, le);
    lemma_placed32(n, 4, h.interface_version, le);
    lemma_placed32(n, 8, h.sequence_number, le);
    lemma_placed16(n, 12, h.operation_number, le);
    lemma_placed16(n, 14, h.interface_hint, le);
    lemma_placed16(n, 16, h.activity_hint, le);
    lemma_placed16(n, 18, h.length_of_body, le);
    lemma_placed16(n, 20, h.fragment_number, le);
}

/// What is read from within some bytes is read at their place in the whole.
proof fn lemma_shifted(whole: Seq<u8>, part: Seq<u8>, at: int)
    requires
        0 <= at,
        at + part.len() <= whole.len(),
        whole.subrange(at, at + part.len()) == part,
    ensures
        forall|k: int, le: bool|
            0 <= k && k + 2 <= part.len() ==> u16_in(whole, at + k, le) == #[trigger] u16_in(
                part,
                k,
                le,
            ),
        forall|k: int, le: bool|
            0 <= k && k + 4 <= part.len() ==> u32_in(whole, at + k, le) == #[trigger] u32_in(
                part,
                k,
                le,
            ),
        forall|k: int| 0 <= k < part.len() ==> whole[at + k] == #[trigger] part[k],
{
    assert(forall|k: int| 0 <= k < part.len() ==> whole[at + k] == #[trigger] part[k]);
    assert forall|k: int, le: bool| 0 <= k && k + 2 <= part.len() implies u16_in(
        whole,
        at + k,
        le,
    ) == #[trigger] u16_in(part, k, le) by {
        assert(whole[at + k] == part[k] && whole[at + k + 1] == part[k + 1]);
    }
    assert forall|k: int, le: bool| 0 <= k && k + 4 <= part.len() implies u32_in(
        whole,
        at + k,
        le,
    ) == #[trigger] u32_in(part, k, le) by {
        assert(whole[at + k] == part[k] && whole[at + k + 1] == part[k + 1] && whole[at + k + 2]
            == part[k + 2] && whole[at + k + 3] == part[k + 3]);
    }
}

/// An RPC packet reads back as it was laid out, every field of it, in either byte
/// order.
pub proof fn packets_read_back(h: RpcModel)
    requires
        valid_rpc(h),
    ensures
        rpc_of(laid_out_rpc(h)) == h,
        laid_out_rpc(h).len() == 80 + h.payload.len(),
{
    let d = laid_out_rpc(h);
    let n = laid_out_numbers(h);
    lemma_numbers(h);
    assert(d.subrange(56, 80) =~= n);
    lemma_shifted(d, n, 56);
    assert(d[78] == n[22] && d[79] == n[23]);
    let le = h.is_little_endian;
    assert(d[4] == h.drep[0]);
    assert(d.subrange(4, 7) =~= h.drep);
    assert(d.subrange(8, 24) =~= h.object_uuid);
    assert(d.subrange(24, 40) =~= h.interface_uuid);
    assert(d.subrange(40, 56) =~= h.activity_uuid);
    assert(d.skip(80) =~= h.payload);
    assert(u32_in(d, 56 + 0int, le) == u32_in(n, 0, le));
    assert(u32_in(d, 56 + 4int, le) == u32_in(n, 4, le));
    assert(u32_in(d, 56 + 8int, le) == u32_in(n, 8, le));
    assert(u16_in(d, 56 + 12int, le) == u16_in(n, 12, le));
    assert(u16_in(d, 56 + 14int, le) == u16_in(n, 14, le));
    assert(u16_in(d, 56 + 16int, le) == u16_in(n, 16, le));
    assert(u16_in(d, 56 + 18int, le) == u16_in(n, 18, le));
    assert(u16_in(d, 56 + 20int, le) == u16_in(n, 20, le));
    assert(rpc_of(d) =~= h);
}

/// The body of a response: status, the length of the payload in its three places,
/// and the payload.
pub open spec fn laid_out_body(status: u32, payload: Seq<u8>, le: bool) -> Seq<u8> {
    let n = payload.len() as u32;
    bytes32(status, le) + bytes32(n, le) + bytes32(n, le) + bytes32(0, le) + bytes32(n, le)
        + payload
}

proof fn lemma_body(status: u32, payload: Seq<u8>, le: bool)
    ensures
        ({
            let b = laid_out_body(status, payload, le);
            let n = payload.len() as u32;
            &&& b.len() == 20 + payload.len()
            &&& u32_in(b, 0, le) == status
            &&& u32_in(b, 4, le) == n
            &&& u32_in(b, 8, le) == n
            &&& u32_in(b, 12, le) == 0
            &&& u32_in(b, 16, le) == n
            &&& b.skip(20) == payload
        }),
{
    let b = laid_out_body(status, payload, le);
    let n = payload.len() as u32;
    lemma_placed32(b, 0, status, le);
    lemma_placed32(b, 4, n, le);
    lemma_placed32(b, 8, n, le);
    lemma_placed32(b, 12, 0, le);
    lemma_placed32(b, 16, n, le);
    assert(b.skip(20) =~= payload);
}

/// The fields of an NRD header are read from their own places, in either byte
/// order.
pub proof fn bodies_read_back(n: ParsedNrd, status: u32, payload: Seq<u8>, le: bool)
    requires
        payload.len() <= 0xFFFF_FFFF,
        n.read_from(laid_out_body(status, payload, le), le),
    ensures
        n.args_status == status,
        n.args_length == payload.len(),
        n.maximum_count == payload.len(),
        n.offset == 0,
        n.actual_count == payload.len(),
        n.payload@ == payload,
{
    lemma_body(status, payload, le);
}

/// The fields of an IOD record are read from their own places.
pub proof fn records_read_back(
    v: ParsedIod,
    block_type: u16,
    seq: u16,
    ar_uuid: Seq<u8>,
    api: u32,
    slot: u16,
    subslot: u16,
    index: u16,
    length: u32,
    payload: Seq<u8>,
)
    requires
        ar_uuid.len() == 16,
        v.read_from(
            iod_record(block_type, seq, ar_uuid, api, slot, subslot, index, length, payload),
        ),
    ensures
        v.block_type == block_type,
        v.block_length == 60,
        v.sequence_number == seq,
        v.ar_uuid@ == ar_uuid,
        v.api == api,
        v.slot == slot,
        v.subslot == subslot,
        v.index == index,
        v.length == length,
        v.payload@ == payload,
{
    records_have_their_layout(
        block_type,
        seq,
        ar_uuid,
        api,
        slot,
        subslot,
        index,
        length,
        payload,
    );
}

proof fn lemma_status_word(words: Seq<char>, status: u32)
    ensures
        begins_with(words + status_text(status), words + "0x"@ + hex(status as nat, 8, true)),
{
    let t = status_text(status);
    let word = words + "0x"@ + hex(status as nat, 8, true);
    assert((words + t).subrange(0, word.len() as int) =~= word);
}

/// A read gives the record's data, all of it and nothing else, whatever the 64
/// bytes in front of it say; a write or control request gives the whole payload;
/// and a status other than zero is an error that names the status.
pub proof fn responses_give_their_data(status: u32, head: Seq<u8>, data: Seq<u8>, le: bool)
    requires
        head.len() == 64,
    ensures
        status == 0 ==> {
            &&& read_outcome(laid_out_body(status, head + data, le), le) == Ok::<Seq<u8>, Seq<char>>(
                data,
            )
            &&& status_outcome(laid_out_body(status, data, le), le) == Ok::<Seq<u8>, Seq<char>>(
                data,
            )
        },
        status != 0 ==> {
            let b = laid_out_body(status, data, le);
            let word = "PNIO error status "@ + "0x"@ + hex(status as nat, 8, true);
            &&& read_outcome(b, le) matches Err(e) && begins_with(e, word)
            &&& status_outcome(b, le) matches Err(e) && begins_with(e, word)
        },
{
    lemma_body(status, head + data, le);
    lemma_body(status, data, le);
    assert((head + data).skip(64) =~= data);
    lemma_status_word("PNIO error status "@, status);
}

/// The IOCRBlockRes of a connect response: IOCR type, reference, and the frame ID
/// that the device assigned.
pub open spec fn iocr_res(iocr_type: u16, reference: u16, frame_id: u16) -> Seq<u8> {
    be16(0x8102) + be16(8) + seq![1u8, 0] + be16(iocr_type) + be16(reference) + be16(frame_id)
}

/// A block of a connect response: an assignment, or any other block (type, and a
/// body that begins with the block version).
pub enum ResponseBlock {
    Iocr { iocr_type: u16, reference: u16, frame_id: u16 },
    Other { block_type: u16, body: Seq<u8> },
}

impl ResponseBlock {
    pub open spec fn valid(self) -> bool {
        self matches ResponseBlock::Other { block_type, body } ==> block_type != 0x8102 && 2
            <= body.len() <= 0xFFFF
    }

    #[verifier::opaque]
    pub open spec fn laid_out(self) -> Seq<u8> {
        match self {
            ResponseBlock::Iocr { iocr_type, reference, frame_id } => iocr_res(
                iocr_type,
                reference,
                frame_id,
            ),
            ResponseBlock::Other { block_type, body } => be16(block_type) + be16(body.len() as u16)
                + body,
        }
    }
}

/// Blocks of a connect response, one behind the other.
pub open spec fn laid_out_response(s: Seq<ResponseBlock>) -> Seq<u8>
    decreases s.len(),
{
    if s.len() == 0 {
        Seq::empty()
    } else {
        s[0].laid_out() + laid_out_response(s.skip(1))
    }
}

/// The frame ID in the first assignment of a type, 0 if there is none.
pub open spec fn assigned(s: Seq<ResponseBlock>, iocr_type: u16) -> u16
    decreases s.len(),
{
    if s.len() == 0 {
        0
    } else if s[0] is Iocr && s[0]->iocr_type == iocr_type {
        s[0]->frame_id
    } else {
        assigned(s.skip(1), iocr_type)
    }
}

proof fn lemma_response_block(pre: Seq<u8>, b: ResponseBlock, post: Seq<u8>, iocr_type: u16)
    requires
        b.valid(),
    ensures
        ({
            let d = pre + b.laid_out() + post;
            let k = pre.len() as int;
            iocr_frame_id(d, iocr_type, k) == if b is Iocr && b->iocr_type == iocr_type {
                b->frame_id
            } else {
                iocr_frame_id(d, iocr_type, k + b.laid_out().len())
            }
        }),
{
    reveal(ResponseBlock::laid_out);
    let d = pre + b.laid_out() + post;
    let k = pre.len() as int;
    match b {
        ResponseBlock::Iocr { iocr_type: t, reference, frame_id } => {
            be16_placed(d, k, 0x8102);
            be16_placed(d, k + 2, 8);
            be16_placed(d, k + 6, t);
            be16_placed(d, k + 10, frame_id);
        },
        ResponseBlock::Other { block_type, body } => {
            be16_placed(d, k, block_type);
            be16_placed(d, k + 2, body.len() as u16);
        },
    }
}

proof fn lemma_assigned(pre: Seq<u8>, s: Seq<ResponseBlock>, iocr_type: u16)
    requires
        forall|i: int| 0 <= i < s.len() ==> (#[trigger] s[i]).valid(),
    ensures
        iocr_frame_id(pre + laid_out_response(s), iocr_type, pre.len() as int) == assigned(
            s,
            iocr_type,
        ),
    decreases s.len(),
{
    let d = pre + laid_out_response(s);
    if s.len() > 0 {
        let rest = s.skip(1);
        let first = s[0].laid_out();
        let tail = laid_out_response(rest);
        assert(s[0].valid());
        lemma_response_block(pre, s[0], tail, iocr_type);
        assert(d =~= pre + first + tail);
        assert forall|i: int| 0 <= i < rest.len() implies (#[trigger] rest[i]).valid() by {
            assert(rest[i] == s[i + 1]);
        }
        lemma_assigned(pre + first, rest, iocr_type);
        assert(d =~= (pre + first) + tail);
    }
}

/// A connect response gives the frame IDs that the device assigned: that of the
/// input IOCR as input, that of the output IOCR as output, wherever among the
/// other blocks they stand, and without one the exchange is not established. A
/// status other than zero is a refusal that names it.
pub proof fn the_assigned_frame_ids_are_taken(status: u32, blocks: Seq<ResponseBlock>, le: bool)
    requires
        forall|i: int| 0 <= i < blocks.len() ==> (#[trigger] blocks[i]).valid(),
    ensures
        ({
            let r = connect_outcome(laid_out_body(status, laid_out_response(blocks), le), le);
            &&& status == 0 ==> (r matches Ok(c) && c.input_frame_id == assigned(blocks, 1)
                && c.output_frame_id == assigned(blocks, 2) && c.has_cyclic == (assigned(blocks, 1)
                != 0 || assigned(blocks, 2) != 0))
            &&& status != 0 ==> (r matches Err(e) && begins_with(
                e,
                "Connect rejected by device: PNIO status "@ + "0x"@ + hex(status as nat, 8, true),
            ))
        }),
{
    let d = laid_out_response(blocks);
    lemma_body(status, d, le);
    lemma_assigned(Seq::empty(), blocks, 1);
    lemma_assigned(Seq::empty(), blocks, 2);
    assert(Seq::<u8>::empty() + d =~= d);
    lemma_status_word("Connect rejected by device: PNIO status "@, status);
}

/// Every byte of a control block: type, length, version, AR UUID, session key and
/// command in their places, zeros between them.
pub proof fn control_blocks_have_their_layout(
    block_type: u16,
    ar_uuid: Seq<u8>,
    session_key: u16,
    command: u16,
)
    requires
        ar_uuid.len() == 16,
    ensures
        ({
            let b = control_block_bytes(block_type, ar_uuid, session_key, command);
            &&& b.len() == 32
            &&& be16_at(b, 0) == block_type
            &&& be16_at(b, 2) == 28
            &&& b[4] == 1 && b[5] == 0
            &&& be16_at(b, 6) == 0
            &&& b.subrange(8, 24) == ar_uuid
            &&& be16_at(b, 24) == session_key
            &&& be16_at(b, 26) == 0
            &&& be16_at(b, 28) == command
            &&& be16_at(b, 30) == 0
        }),
{
    let b = control_block_bytes(block_type, ar_uuid, session_key, command);
    be16_placed(b, 0, block_type);
    be16_placed(b, 2, 28);
    be16_placed(b, 6, 0);
    assert(b.subrange(8, 24) =~= ar_uuid);
    be16_placed(b, 24, session_key);
    be16_placed(b, 26, 0);
    be16_placed(b, 28, command);
    be16_placed(b, 30, 0);
}

/// A release names the AR that it ends: the release operation, a release block with
/// the AR's UUID and session key, and the command to terminate.
pub proof fn a_release_names_its_ar(
    object_uuid: Seq<u8>,
    iface_uuid: Seq<u8>,
    activity_uuid: Seq<u8>,
    ar_uuid: Seq<u8>,
    session_key: u16,
    seq: u32,
)
    requires
        object_uuid.len() == 16,
        iface_uuid.len() == 16,
        activity_uuid.len() == 16,
        ar_uuid.len() == 16,
    ensures
        ({
            let r = release_request_bytes(
                object_uuid,
                iface_uuid,
                activity_uuid,
                ar_uuid,
                session_key,
                seq,
            );
            let block = r.skip(80).skip(20);
            &&& r.subrange(8, 24) == object_uuid
            &&& r.subrange(24, 40) == iface_uuid
            &&& r.subrange(40, 56) == activity_uuid
            &&& be32_at(r, 64) == seq
            &&& be16_at(r, 68) == 1
            &&& block.len() == 32
            &&& be16_at(block, 0) == 0x0114
            &&& block.subrange(8, 24) == ar_uuid
            &&& be16_at(block, 24) == session_key
            &&& be16_at(block, 28) == 4
        }),
{
    let block = control_block_bytes(0x0114, ar_uuid, session_key, 0x0004);
    control_blocks_have_their_layout(0x0114, ar_uuid, session_key, 0x0004);
    wrappers_have_their_layout(block);
    requests_have_their_layout(
        object_uuid,
        iface_uuid,
        activity_uuid,
        seq,
        RELEASE,
        nrd_bytes(block),
    );
}

/// The confirmation of an ApplicationReady is a response in the byte order of the
/// request that repeats its UUIDs, sequence number, operation and serials, says
/// that all went well, and carries a control block of the AR that says DONE.
pub proof fn confirmations_answer_their_request(h: RpcModel, ar_uuid: Seq<u8>, session_key: u16)
    requires
        valid_rpc(h),
        ar_uuid.len() == 16,
    ensures
        ({
            let r = rpc_of(ccontrol_response_bytes(h, ar_uuid, session_key));
            let block = r.payload.skip(20);
            let le = h.is_little_endian;
            &&& r.version == h.version
            &&& r.packet_type == 0x02
            &&& r.flags1 == 0 && r.flags2 == 0
            &&& r.drep == h.drep
            &&& r.is_little_endian == le
            &&& r.serial_high == h.serial_high
            &&& r.serial_low == h.serial_low
            &&& r.object_uuid == h.object_uuid
            &&& r.interface_uuid == h.interface_uuid
            &&& r.activity_uuid == h.activity_uuid
            &&& r.interface_version == h.interface_version
            &&& r.sequence_number == h.sequence_number
            &&& r.operation_number == h.operation_number
            &&& r.length_of_body == 52
            &&& r.payload.len() == 52
            &&& u32_in(r.payload, 0, le) == 0
            &&& u32_in(r.payload, 4, le) == 32
            &&& u32_in(r.payload, 16, le) == 32
            &&& be16_at(block, 0) == 0x8112
            &&& block.subrange(8, 24) == ar_uuid
            &&& be16_at(block, 24) == session_key
            &&& be16_at(block, 28) == 8
        }),
{
    let le = h.is_little_endian;
    let block = control_block_bytes(0x8112, ar_uuid, session_key, 0x0008);
    control_blocks_have_their_layout(0x8112, ar_uuid, session_key, 0x0008);
    let body = laid_out_body(0, block, le);
    lemma_body(0, block, le);
    let want = RpcModel {
        packet_type: 0x02,
        flags1: 0,
        flags2: 0,
        server_boot_time: 0,
        interface_hint: 0xFFFF,
        activity_hint: 0xFFFF,
        length_of_body: 52,
        fragment_number: 0,
        auth_protocol: 0,
        payload: body,
        ..h
    };
    packets_read_back(want);
    lemma_confirmation(h, want, ar_uuid, session_key);
}

proof fn lemma_group(a: Seq<u8>, b: Seq<u8>, c: Seq<u8>)
    ensures
        a + b + c == a + (b + c),
{
    assert(a + b + c =~= a + (b + c));
}

proof fn lemma_confirmation(h: RpcModel, want: RpcModel, ar_uuid: Seq<u8>, session_key: u16)
    requires
        valid_rpc(h),
        ar_uuid.len() == 16,
        want == (RpcModel {
            packet_type: 0x02,
            flags1: 0,
            flags2: 0,
            server_boot_time: 0,
            interface_hint: 0xFFFF,
            activity_hint: 0xFFFF,
            length_of_body: 52,
            fragment_number: 0,
            auth_protocol: 0,
            payload: laid_out_body(
                0,
                control_block_bytes(0x8112, ar_uuid, session_key, 0x0008),
                h.is_little_endian,
            ),
            ..h
        }),
    ensures
        ccontrol_response_bytes(h, ar_uuid, session_key) == laid_out_rpc(want),
{
    let le = h.is_little_endian;
    let block = control_block_bytes(0x8112, ar_uuid, session_key, 0x0008);
    assert(block.len() == 32);
    let front = seq![h.version, 0x02u8, 0x00, 0x00] + h.drep + seq![h.serial_high] + h.object_uuid
        + h.interface_uuid + h.activity_uuid;
    let n1 = bytes32(0, le);
    let n2 = n1 + bytes32(h.interface_version, le);
    let n3 = n2 + bytes32(h.sequence_number, le);
    let n4 = n3 + bytes16(h.operation_number, le);
    let n5 = n4 + bytes16(0xFFFF, le);
    let n6 = n5 + bytes16(0xFFFF, le);
    let n7 = n6 + bytes16(52, le);
    let n8 = n7 + bytes16(0, le);
    let n9 = n8 + seq![0x00u8, h.serial_low];
    lemma_group(front, n1, bytes32(h.interface_version, le));
    lemma_group(front, n2, bytes32(h.sequence_number, le));
    lemma_group(front, n3, bytes16(h.operation_number, le));
    lemma_group(front, n4, bytes16(0xFFFF, le));
    lemma_group(front, n5, bytes16(0xFFFF, le));
    lemma_group(front, n6, bytes16(52, le));
    lemma_group(front, n7, bytes16(0, le));
    lemma_group(front, n8, seq![0x00u8, h.serial_low]);
    let head = front + n9;
    let b1 = bytes32(0, le);
    let b2 = b1 + bytes32(32, le);
    let b3 = b2 + bytes32(32, le);
    let b4 = b3 + bytes32(0, le);
    let b5 = b4 + bytes32(32, le);
    lemma_group(head, b1, bytes32(32, le));
    lemma_group(head, b2, bytes32(32, le));
    lemma_group(head, b3, bytes32(0, le));
    lemma_group(head, b4, bytes32(32, le));
    lemma_group(head, b5, block);
}

/// A device's ApplicationReady is recognised by what it is, in either byte order: a
/// request for the control operation that carries a control block of that type.
/// Its body comes back whole, and no other packet is taken for one.
pub proof fn application_ready_is_recognised(h: RpcModel, status: u32, block: Seq<u8>)
    requires
        valid_rpc(h),
        block.len() >= 32,
        h.payload == laid_out_body(status, block, h.is_little_endian),
    ensures
        app_ready_body(laid_out_rpc(h)) == if h.packet_type == 0 && h.operation_number == 4
            && be16_at(block, 0) == 0x0112 {
            Some(block)
        } else {
            None::<Seq<u8>>
        },
{
    packets_read_back(h);
    lemma_body(status, block, h.is_little_endian);
}

} // verus!
