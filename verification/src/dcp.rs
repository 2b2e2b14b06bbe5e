//! DCP (Discovery and Configuration Protocol) frames: building requests and
//! parsing responses, as pure functions over bytes.

use vstd::prelude::*;
use vstd::slice::*;
use vstd::string::*;
use vstd::utf8::encode_utf8;
use crate::bytes::{
    array4, array6, be16, be16_at, be16_placed, be32, be32_at, be32_placed, be32_round_trip,
    push_all, push_be16, push_be32, read_be16, read_be32, trim_nul, trim_trailing_nul,
    trimmed_of_padded, zeros,
};
use crate::text::{dec, hex, lossy, lossy_of_encoded, push_dec, push_hex, utf8_lossy};

verus! {

pub const PROFINET_ETHERTYPE: u16 = 0x8892;
pub const VLAN_ETHERTYPE: u16 = 0x8100;

/// DCP multicast addresses.
pub const DCP_MULTICAST_MAC: [u8; 6] = [0x01, 0x0E, 0xCF, 0x00, 0x00, 0x00];
pub const DCP_HELLO_MULTICAST_MAC: [u8; 6] = [0x01, 0x0E, 0xCF, 0x00, 0x00, 0x01];

/// DCP frame IDs.
pub const DCP_IDENTIFY_REQUEST_FRAME_ID: u16 = 0xFEFE;
pub const DCP_IDENTIFY_RESPONSE_FRAME_ID: u16 = 0xFEFF;
pub const DCP_GET_SET_FRAME_ID: u16 = 0xFEFD;
pub const DCP_HELLO_FRAME_ID: u16 = 0xFEFC;

/// DCP service IDs.
pub const DCP_SERVICE_ID_GET: u8 = 0x03;
pub const DCP_SERVICE_ID_SET: u8 = 0x04;
pub const DCP_SERVICE_ID_IDENTIFY: u8 = 0x05;
pub const DCP_SERVICE_ID_HELLO: u8 = 0x06;

/// DCP service types.
pub const DCP_SERVICE_TYPE_REQUEST: u8 = 0x00;
pub const DCP_SERVICE_TYPE_RESPONSE_SUCCESS: u8 = 0x01;
pub const DCP_SERVICE_TYPE_RESPONSE_UNSUPPORTED: u8 = 0x05;

/// DCP options.
pub const DCP_OPTION_IP: u8 = 0x01;
pub const DCP_OPTION_DEVICE: u8 = 0x02;
pub const DCP_OPTION_DHCP: u8 = 0x03;
pub const DCP_OPTION_CONTROL: u8 = 0x05;
pub const DCP_OPTION_DEVICE_INITIATIVE: u8 = 0x06;
pub const DCP_OPTION_ALL: u8 = 0xFF;

/// DCP suboptions for IP (option 0x01).
pub const DCP_SUBOPTION_IP_MAC: u8 = 0x01;
pub const DCP_SUBOPTION_IP_PARAMETER: u8 = 0x02;
pub const DCP_SUBOPTION_IP_FULL_SUITE: u8 = 0x03;

/// DCP suboptions for Device (option 0x02).
pub const DCP_SUBOPTION_DEVICE_TYPE: u8 = 0x01;
pub const DCP_SUBOPTION_DEVICE_NAME: u8 = 0x02;
pub const DCP_SUBOPTION_DEVICE_ID: u8 = 0x03;
pub const DCP_SUBOPTION_DEVICE_ROLE: u8 = 0x04;
pub const DCP_SUBOPTION_DEVICE_OPTIONS: u8 = 0x05;
pub const DCP_SUBOPTION_DEVICE_ALIAS: u8 = 0x06;
pub const DCP_SUBOPTION_DEVICE_INSTANCE: u8 = 0x07;

/// DCP suboptions for Control (option 0x05).
pub const DCP_SUBOPTION_CONTROL_START: u8 = 0x01;
pub const DCP_SUBOPTION_CONTROL_STOP: u8 = 0x02;
pub const DCP_SUBOPTION_CONTROL_SIGNAL: u8 = 0x03;
pub const DCP_SUBOPTION_CONTROL_RESPONSE: u8 = 0x04;
pub const DCP_SUBOPTION_CONTROL_RESET_FACTORY: u8 = 0x05;
pub const DCP_SUBOPTION_CONTROL_RESET_TO_FACTORY: u8 = 0x06;

/// Reset-to-factory mode bitmasks.
pub const RESET_MODE_COMMUNICATION: u16 = 0x0002;
pub const RESET_MODE_APPLICATION: u16 = 0x0004;
pub const RESET_MODE_ENGINEERING: u16 = 0x0008;
pub const RESET_MODE_ALL_DATA: u16 = 0x0010;
pub const RESET_MODE_DEVICE: u16 = 0x0020;
pub const RESET_MODE_FACTORY: u16 = 0x0040;

/// DCP SET response block error codes.
pub const DCP_BLOCK_ERROR_OK: u8 = 0x00;
pub const DCP_BLOCK_ERROR_OPTION_UNSUPPORTED: u8 = 0x01;
pub const DCP_BLOCK_ERROR_SUBOPTION_UNSUPPORTED: u8 = 0x02;
pub const DCP_BLOCK_ERROR_SUBOPTION_NOT_SET: u8 = 0x03;
pub const DCP_BLOCK_ERROR_RESOURCE: u8 = 0x04;
pub const DCP_BLOCK_ERROR_SET_NOT_POSSIBLE: u8 = 0x05;
pub const DCP_BLOCK_ERROR_IN_OPERATION: u8 = 0x06;

/// The name of a block error code.
pub open spec fn block_error_text(code: u8) -> Seq<char> {
    if code == 0x00 {
        "OK"@
    } else if code == 0x01 {
        "Option not supported"@
    } else if code == 0x02 {
        "Suboption not supported or no dataset available"@
    } else if code == 0x03 {
        "Suboption not set"@
    } else if code == 0x04 {
        "Resource error"@
    } else if code == 0x05 {
        "SET not possible by local reasons"@
    } else if code == 0x06 {
        "In operation, SET not possible"@
    } else {
        "Unknown error (0x"@ + hex(code as nat, 2, true) + ")"@
    }
}

/// Human-readable block error name.
pub fn block_error_name(code: u8) -> (r: String)
    ensures
        r@ == block_error_text(code),
{
    match code {
        0x00 => "OK".to_owned(),
        0x01 => "Option not supported".to_owned(),
        0x02 => "Suboption not supported or no dataset available".to_owned(),
        0x03 => "Suboption not set".to_owned(),
        0x04 => "Resource error".to_owned(),
        0x05 => "SET not possible by local reasons".to_owned(),
        0x06 => "In operation, SET not possible".to_owned(),
        _ => {
            let mut s = "Unknown error (0x".to_owned();
            push_hex(&mut s, code as u64, 2, true);
            s.append(")");
            s
        },
    }
}

/// DCP maximum Name-of-Station length.
pub const DCP_MAX_NAME_LENGTH: usize = 240;

/// Default Identify response delay in 10 ms units.
pub const DCP_RESPONSE_DELAY: u16 = 0x0080;

/// An Ethernet frame: destination, source, EtherType, payload.
pub open spec fn eth_frame_bytes(dst: Seq<u8>, src: Seq<u8>, ethertype: u16, payload: Seq<u8>) -> Seq<
    u8,
> {
    dst + src + be16(ethertype) + payload
}

/// A DCP header and its blocks.
pub open spec fn dcp_bytes(
    frame_id: u16,
    service_id: u8,
    service_type: u8,
    xid: u32,
    resp: u16,
    length: u16,
    payload: Seq<u8>,
) -> Seq<u8> {
    be16(frame_id) + seq![service_id, service_type] + be32(xid) + be16(resp) + be16(length)
        + payload
}

/// A request block: option, suboption, length, payload.
pub open spec fn dcp_block(option: u8, suboption: u8, length: u16, payload: Seq<u8>) -> Seq<u8> {
    seq![option, suboption] + be16(length) + payload
}

fn eth_frame(dst: &[u8; 6], src: &[u8; 6], ethertype: u16, payload: &[u8]) -> (r: Vec<u8>)
    ensures
        r@ == eth_frame_bytes(dst@, src@, ethertype, payload@),
{
    let mut out: Vec<u8> = Vec::new();
    push_all(&mut out, dst.as_slice());
    push_all(&mut out, src.as_slice());
    push_be16(&mut out, ethertype);
    push_all(&mut out, payload);
    assert(out@ =~= eth_frame_bytes(dst@, src@, ethertype, payload@));
    out
}

fn dcp_header(
    frame_id: u16,
    service_id: u8,
    service_type: u8,
    xid: u32,
    resp: u16,
    length: u16,
    payload: &[u8],
) -> (r: Vec<u8>)
    ensures
        r@ == dcp_bytes(frame_id, service_id, service_type, xid, resp, length, payload@),
{
    let mut out: Vec<u8> = Vec::new();
    push_be16(&mut out, frame_id);
    out.push(service_id);
    out.push(service_type);
    push_be32(&mut out, xid);
    push_be16(&mut out, resp);
    push_be16(&mut out, length);
    push_all(&mut out, payload);
    assert(out@ =~= dcp_bytes(frame_id, service_id, service_type, xid, resp, length, payload@));
    out
}

fn block_request(option: u8, suboption: u8, length: u16, payload: &[u8]) -> (r: Vec<u8>)
    ensures
        r@ == dcp_block(option, suboption, length, payload@),
{
    let mut out: Vec<u8> = Vec::new();
    out.push(option);
    out.push(suboption);
    push_be16(&mut out, length);
    push_all(&mut out, payload);
    assert(out@ =~= dcp_block(option, suboption, length, payload@));
    out
}

/// An Identify-All request.
pub open spec fn identify_all_bytes(src_mac: Seq<u8>, xid: u32) -> Seq<u8> {
    eth_frame_bytes(
        DCP_MULTICAST_MAC@,
        src_mac,
        0x8892,
        dcp_bytes(0xFEFE, 0x05, 0x00, xid, 0x0080, 4, dcp_block(0xFF, 0xFF, 0, Seq::empty())),
    )
}

/// Identify-All multicast request: response delay 0x0080, one All/All block
/// with empty payload. 30 bytes, without padding.
pub fn identify_all_request(src_mac: &[u8; 6], xid: u32) -> (r: Vec<u8>)
    ensures
        r@ == identify_all_bytes(src_mac@, xid),
        r@.len() == 30,
{
    let block = block_request(DCP_OPTION_ALL, DCP_OPTION_ALL, 0, &[]);
    let dcp = dcp_header(
        DCP_IDENTIFY_REQUEST_FRAME_ID,
        DCP_SERVICE_ID_IDENTIFY,
        DCP_SERVICE_TYPE_REQUEST,
        xid,
        DCP_RESPONSE_DELAY,
        block.len() as u16,
        block.as_slice(),
    );
    let dst = DCP_MULTICAST_MAC;
    eth_frame(&dst, src_mac, PROFINET_ETHERTYPE, dcp.as_slice())
}

/// A SET request: one block whose payload is a 2-byte qualifier and the value.
/// The header's length counts a pad byte for values of odd length; the pad
/// itself is not sent.
pub open spec fn set_request_bytes(
    src_mac: Seq<u8>,
    dst_mac: Seq<u8>,
    xid: u32,
    option: u8,
    suboption: u8,
    qualifier: u16,
    value: Seq<u8>,
) -> Seq<u8> {
    eth_frame_bytes(
        dst_mac,
        src_mac,
        0x8892,
        dcp_bytes(
            0xFEFD,
            0x04,
            0x00,
            xid,
            0,
            (value.len() + 6 + value.len() % 2) as u16,
            dcp_block(option, suboption, (value.len() + 2) as u16, be16(qualifier) + value),
        ),
    )
}

fn set_request(
    src_mac: &[u8; 6],
    dst_mac: &[u8; 6],
    xid: u32,
    option: u8,
    suboption: u8,
    qualifier: u16,
    value: &[u8],
) -> (r: Vec<u8>)
    ensures
        r@ == set_request_bytes(src_mac@, dst_mac@, xid, option, suboption, qualifier, value@),
{
    let mut payload: Vec<u8> = Vec::new();
    push_be16(&mut payload, qualifier);
    push_all(&mut payload, value);
    assert(payload@ =~= be16(qualifier) + value@);
    let n: u128 = value.len() as u128;
    let block = block_request(option, suboption, (n + 2) as u16, payload.as_slice());
    let dcp = dcp_header(
        DCP_GET_SET_FRAME_ID,
        DCP_SERVICE_ID_SET,
        DCP_SERVICE_TYPE_REQUEST,
        xid,
        0,
        (n + 6 + n % 2) as u16,
        block.as_slice(),
    );
    eth_frame(dst_mac, src_mac, PROFINET_ETHERTYPE, dcp.as_slice())
}

/// Set Name-of-Station request: Device/Name block, temporary qualifier 0x0000,
/// the name's bytes.
pub fn set_name_request(src_mac: &[u8; 6], dst_mac: &[u8; 6], xid: u32, name: &str) -> (r: Vec<u8>)
    ensures
        r@ == set_request_bytes(
            src_mac@,
            dst_mac@,
            xid,
            0x02,
            0x02,
            0x0000,
            vstd::utf8::encode_utf8(name@),
        ),
{
    set_request(
        src_mac,
        dst_mac,
        xid,
        DCP_OPTION_DEVICE,
        DCP_SUBOPTION_DEVICE_NAME,
        0x0000,
        name.as_bytes(),
    )
}

/// The value of the IP parameters: address, netmask, gateway.
pub open spec fn ip_parameters(ip: Seq<u8>, netmask: Seq<u8>, gateway: Seq<u8>) -> Seq<u8> {
    ip + netmask + gateway
}

/// Set IP-parameter request with the temporary qualifier: IP/Parameter block
/// with address, netmask and gateway.
pub fn set_ip_request(
    src_mac: &[u8; 6],
    dst_mac: &[u8; 6],
    xid: u32,
    ip: &[u8; 4],
    netmask: &[u8; 4],
    gateway: &[u8; 4],
) -> (r: Vec<u8>)
    ensures
        r@ == set_request_bytes(
            src_mac@,
            dst_mac@,
            xid,
            0x01,
            0x02,
            0x0000,
            ip_parameters(ip@, netmask@, gateway@),
        ),
{
    set_ip_request_qualified(src_mac, dst_mac, xid, ip, netmask, gateway, false)
}

/// A GET request: one block with an empty payload. The header's length is 2
/// although the block takes 4 bytes.
pub open spec fn get_request_bytes(
    src_mac: Seq<u8>,
    dst_mac: Seq<u8>,
    xid: u32,
    option: u8,
    suboption: u8,
) -> Seq<u8> {
    eth_frame_bytes(
        dst_mac,
        src_mac,
        0x8892,
        dcp_bytes(0xFEFD, 0x03, 0x00, xid, 0, 2, dcp_block(option, suboption, 0, Seq::empty())),
    )
}

/// Get-parameter request frame: a single option/suboption block with empty
/// payload.
pub fn get_request(
    src_mac: &[u8; 6],
    dst_mac: &[u8; 6],
    xid: u32,
    option: u8,
    suboption: u8,
) -> (r: Vec<u8>)
    ensures
        r@ == get_request_bytes(src_mac@, dst_mac@, xid, option, suboption),
        r@.len() == 30,
{
    let block = block_request(option, suboption, 0, &[]);
    let dcp = dcp_header(
        DCP_GET_SET_FRAME_ID,
        DCP_SERVICE_ID_GET,
        DCP_SERVICE_TYPE_REQUEST,
        xid,
        0,
        2,
        block.as_slice(),
    );
    eth_frame(dst_mac, src_mac, PROFINET_ETHERTYPE, dcp.as_slice())
}

/// Generic set-parameter request: temporary qualifier 0x0000 followed by the
/// raw value bytes.
pub fn set_param_request(
    src_mac: &[u8; 6],
    dst_mac: &[u8; 6],
    xid: u32,
    option: u8,
    suboption: u8,
    value: &[u8],
) -> (r: Vec<u8>)
    ensures
        r@ == set_request_bytes(src_mac@, dst_mac@, xid, option, suboption, 0x0000, value@),
{
    set_request(src_mac, dst_mac, xid, option, suboption, 0x0000, value)
}

/// Set IP-parameter request with an explicit permanence qualifier.
pub fn set_ip_request_qualified(
    src_mac: &[u8; 6],
    dst_mac: &[u8; 6],
    xid: u32,
    ip: &[u8; 4],
    netmask: &[u8; 4],
    gateway: &[u8; 4],
    permanent: bool,
) -> (r: Vec<u8>)
    ensures
        r@ == set_request_bytes(
            src_mac@,
            dst_mac@,
            xid,
            0x01,
            0x02,
            if permanent {
                0x0001
            } else {
                0x0000
            },
            ip_parameters(ip@, netmask@, gateway@),
        ),
{
    let mut value: Vec<u8> = Vec::new();
    push_all(&mut value, ip.as_slice());
    push_all(&mut value, netmask.as_slice());
    push_all(&mut value, gateway.as_slice());
    assert(value@ =~= ip_parameters(ip@, netmask@, gateway@));
    let qualifier: u16 = if permanent {
        0x0001
    } else {
        0x0000
    };
    set_request(
        src_mac,
        dst_mac,
        xid,
        DCP_OPTION_IP,
        DCP_SUBOPTION_IP_PARAMETER,
        qualifier,
        value.as_slice(),
    )
}

/// A signal duration in units of 100 ms, at least one unit.
pub open spec fn signal_units(duration_ms: u32) -> u16 {
    if duration_ms < 100 {
        1
    } else {
        (duration_ms / 100) as u16
    }
}

/// Control/Signal request to flash the device LEDs: qualifier 0x0001
/// (temporary signal) followed by the duration in 100 ms units.
pub fn signal_request(src_mac: &[u8; 6], dst_mac: &[u8; 6], xid: u32, duration_ms: u32) -> (r: Vec<
    u8,
>)
    ensures
        r@ == set_request_bytes(
            src_mac@,
            dst_mac@,
            xid,
            0x05,
            0x03,
            0x0001,
            be16(signal_units(duration_ms)),
        ),
{
    let units: u16 = if duration_ms < 100 {
        1
    } else {
        (duration_ms / 100) as u16
    };
    let mut value: Vec<u8> = Vec::new();
    push_be16(&mut value, units);
    assert(value@ =~= be16(units));
    set_request(
        src_mac,
        dst_mac,
        xid,
        DCP_OPTION_CONTROL,
        DCP_SUBOPTION_CONTROL_SIGNAL,
        0x0001,
        value.as_slice(),
    )
}

/// Control/ResetToFactory request: the reset mode bitmask as the block
/// qualifier, no value bytes.
pub fn reset_request(src_mac: &[u8; 6], dst_mac: &[u8; 6], xid: u32, mode: u16) -> (r: Vec<u8>)
    ensures
        r@ == set_request_bytes(src_mac@, dst_mac@, xid, 0x05, 0x06, mode, Seq::empty()),
{
    set_request(
        src_mac,
        dst_mac,
        xid,
        DCP_OPTION_CONTROL,
        DCP_SUBOPTION_CONTROL_RESET_TO_FACTORY,
        mode,
        &[],
    )
}

/// Where the DCP header of a frame stands, behind at most one VLAN tag, or the
/// message why there is none.
pub open spec fn dcp_offset(frame: Seq<u8>) -> Result<int, Seq<char>> {
    if frame.len() < 14 {
        Err("frame too short for Ethernet header: "@ + dec(frame.len()) + " bytes"@)
    } else if be16_at(frame, 12) == 0x8100 {
        if frame.len() < 18 {
            Err("VLAN frame too short"@)
        } else if be16_at(frame, 16) != 0x8892 {
            Err("unexpected inner EtherType: 0x"@ + hex(be16_at(frame, 16) as nat, 4, true))
        } else {
            Ok(18)
        }
    } else if be16_at(frame, 12) != 0x8892 {
        Err("unexpected EtherType: 0x"@ + hex(be16_at(frame, 12) as nat, 4, true))
    } else {
        Ok(14)
    }
}

fn dcp_payload(frame: &[u8]) -> (r: Result<&[u8], String>)
    ensures
        match dcp_offset(frame@) {
            Ok(at) => r matches Ok(p) && 14 <= at <= frame@.len() && p@ == frame@.skip(at),
            Err(m) => r matches Err(e) && e@ == m,
        },
{
    if frame.len() < 14 {
        let mut e = "frame too short for Ethernet header: ".to_owned();
        push_dec(&mut e, frame.len() as u128);
        e.append(" bytes");
        return Err(e);
    }
    let ethertype: u16 = read_be16(frame, 12);
    let at: usize = if ethertype == VLAN_ETHERTYPE {
        if frame.len() < 18 {
            return Err("VLAN frame too short".to_owned());
        }
        let inner: u16 = read_be16(frame, 16);
        if inner != PROFINET_ETHERTYPE {
            let mut e = "unexpected inner EtherType: 0x".to_owned();
            push_hex(&mut e, inner as u64, 4, true);
            return Err(e);
        }
        18
    } else if ethertype != PROFINET_ETHERTYPE {
        let mut e = "unexpected EtherType: 0x".to_owned();
        push_hex(&mut e, ethertype as u64, 4, true);
        return Err(e);
    } else {
        14
    };
    let r = slice_subrange(frame, at, frame.len());
    assert(r@ =~= frame@.skip(at as int));
    Ok(r)
}

/// The transaction id of a DCP frame, if it is one and long enough.
pub open spec fn dcp_xid(frame: Seq<u8>) -> Option<u32> {
    match dcp_offset(frame) {
        Ok(at) => if frame.len() >= at + 8 {
            Some(be32_at(frame, at + 4))
        } else {
            None
        },
        Err(_) => None,
    }
}

/// Extract the DCP transaction id (xid) from a frame, for matching a response
/// to its request. Works for any DCP frame, VLAN-tagged or not. `None` if the
/// frame is too short or not a DCP frame.
pub fn parse_dcp_xid(frame: &[u8]) -> (r: Option<u32>)
    ensures
        r == dcp_xid(frame@),
{
    match dcp_payload(frame) {
        Ok(payload) => {
            if payload.len() >= 8 {
                let ghost at = dcp_offset(frame@)->Ok_0;
                assert(forall|i: int| 0 <= i < payload@.len() ==> payload@[i] == #[trigger] frame@[at + i]);
                assert(be32_at(payload@, 4) == be32_at(frame@, at + 4)) by {
                    assert(payload@[4] == frame@[at + 4]);
                    assert(payload@[5] == frame@[at + 5]);
                    assert(payload@[6] == frame@[at + 6]);
                    assert(payload@[7] == frame@[at + 7]);
                }
                Some(read_be32(payload, 4))
            } else {
                None
            }
        },
        Err(_) => None,
    }
}

/// `n` rounded up to the next even number.
pub open spec fn even(n: int) -> int {
    n + n % 2
}


/// `s` from `from` to `to`, as far as it reaches.
pub open spec fn clipped(s: Seq<u8>, from: int, to: int) -> Seq<u8> {
    s.subrange(
        from,
        if to < s.len() {
            to
        } else {
            s.len() as int
        },
    )
}

/// `s` from `n` on, empty if `s` is shorter.
pub open spec fn behind(s: Seq<u8>, n: int) -> Seq<u8> {
    if n < s.len() {
        s.skip(n)
    } else {
        Seq::empty()
    }
}

/// The error code that a SET response reports: that of its first
/// Control/Response block, success if there is none. A block that carries
/// less than three bytes reports its first.
pub open spec fn set_error(blocks: Seq<u8>, remaining: int) -> u8
    decreases blocks.len(),
{
    if remaining <= 4 || blocks.len() < 4 {
        0
    } else {
        let length = be16_at(blocks, 2) as int;
        let payload = clipped(blocks, 4, 4 + length);
        if blocks[0] == 0x05 && blocks[1] == 0x04 {
            if payload.len() == 0 {
                0
            } else if payload.len() < 3 {
                payload[0]
            } else {
                payload[2]
            }
        } else {
            set_error(behind(blocks, 4 + even(length)), remaining - (4 + even(length)))
        }
    }
}

/// What a frame says to the sender of a SET request with transaction `xid`:
/// nothing unless it is a SET response to it, else the error code, or an error
/// if the device does not support the service.
pub open spec fn set_response(frame: Seq<u8>, xid: u32) -> Result<Option<u8>, Seq<char>> {
    match dcp_offset(frame) {
        Err(_) => Ok(None),
        Ok(at) => {
            let p = frame.skip(at);
            if p.len() < 12 || be16_at(p, 0) != 0xFEFD || p[2] != 0x04 || be32_at(p, 4) != xid {
                Ok(None)
            } else if p[3] == 0x05 {
                Err("DCP SET: service not supported by device"@)
            } else if p[3] != 0x01 {
                Ok(None)
            } else {
                Ok(Some(set_error(p.skip(12), be16_at(p, 10) as int)))
            }
        },
    }
}

/// Parse a DCP SET response and extract the block error code (0x00 means
/// success): find the Control/Response block and read its BlockError byte; a
/// response without one counts as success, as some devices omit it.
///
/// `expected_xid` gates ownership: only a GET/SET-frame response carrying our
/// transaction id is ours. Any other frame (our echoed request, a foreign
/// device's traffic, a stale xid, an alarm whose byte at the service type
/// offset happens to be 0x01) returns `Ok(None)` so that the caller skips it
/// and keeps waiting. Only an UNSUPPORTED response to our transaction id is an
/// error.
pub fn parse_set_response(frame: &[u8], expected_xid: u32) -> (r: Result<Option<u8>, String>)
    ensures
        match set_response(frame@, expected_xid) {
            Ok(v) => r matches Ok(w) && v == w,
            Err(m) => r matches Err(e) && e@ == m,
        },
{
    let payload = match dcp_payload(frame) {
        Ok(p) => p,
        Err(_) => {
            return Ok(None);
        },
    };
    if payload.len() < 12 {
        return Ok(None);
    }
    if read_be16(payload, 0) != DCP_GET_SET_FRAME_ID || payload[2] != DCP_SERVICE_ID_SET
        || read_be32(payload, 4) != expected_xid {
        return Ok(None);
    }
    if payload[3] == DCP_SERVICE_TYPE_RESPONSE_UNSUPPORTED {
        return Err("DCP SET: service not supported by device".to_owned());
    }
    if payload[3] != DCP_SERVICE_TYPE_RESPONSE_SUCCESS {
        return Ok(None);
    }
    let mut remaining: i64 = read_be16(payload, 10) as i64;
    let mut blocks = slice_subrange(payload, 12, payload.len());
    assert(blocks@ =~= payload@.skip(12));
    while remaining > 4 && blocks.len() >= 4
        invariant
            remaining <= 0xFFFF,
            set_response(frame@, expected_xid) == Ok::<Option<u8>, Seq<char>>(
                Some(set_error(blocks@, remaining as int)),
            ),
        ensures
            remaining <= 4 || blocks@.len() < 4,
        decreases blocks@.len(),
    {
        let length: usize = read_be16(blocks, 2) as usize;
        if blocks[0] == DCP_OPTION_CONTROL && blocks[1] == DCP_SUBOPTION_CONTROL_RESPONSE {
            let end: usize = if 4 + length < blocks.len() {
                4 + length
            } else {
                blocks.len()
            };
            let block_payload = slice_subrange(blocks, 4, end);
            let code: u8 = match block_payload.len() {
                0 => DCP_BLOCK_ERROR_OK,
                1 | 2 => block_payload[0],
                _ => block_payload[2],
            };
            return Ok(Some(code));
        }
        let block_len: usize = 4 + length + length % 2;
        let ghost before = blocks@;
        let next: usize = if block_len < blocks.len() {
            block_len
        } else {
            blocks.len()
        };
        blocks = slice_subrange(blocks, next, blocks.len());
        assert(blocks@ =~= behind(before, block_len as int));
        remaining = remaining - block_len as i64;
    }
    Ok(Some(DCP_BLOCK_ERROR_OK))
}

/// A SET response is taken for ours only if it carries our transaction id, a
/// request is never taken for a response, and only the refusal of the service
/// is an error.
pub proof fn set_response_is_ours(frame: Seq<u8>, xid: u32)
    ensures
        dcp_xid(frame) != Some(xid) ==> set_response(frame, xid) == Ok::<Option<u8>, Seq<char>>(
            None,
        ),
        dcp_offset(frame) matches Ok(at) ==> frame.len() >= at + 4 && frame[at + 3] == 0x00
            ==> set_response(frame, xid) == Ok::<Option<u8>, Seq<char>>(None),
        set_response(frame, xid) is Err ==> dcp_xid(frame) == Some(xid) && frame[dcp_offset(
            frame,
        )->Ok_0 + 3] == 0x05,
{
    if let Ok(at) = dcp_offset(frame) {
        let p = frame.skip(at);
        if p.len() >= 12 {
            assert(p[4] == frame[at + 4]);
            assert(p[5] == frame[at + 5]);
            assert(p[6] == frame[at + 6]);
            assert(p[7] == frame[at + 7]);
            assert(p[3] == frame[at + 3]);
        }
    }
}

/// Every request carries the transaction id it was built with, where a
/// response to it is matched.
pub proof fn requests_carry_their_xid(
    src_mac: Seq<u8>,
    dst_mac: Seq<u8>,
    xid: u32,
    option: u8,
    suboption: u8,
    qualifier: u16,
    value: Seq<u8>,
)
    requires
        src_mac.len() == 6,
        dst_mac.len() == 6,
    ensures
        dcp_xid(identify_all_bytes(src_mac, xid)) == Some(xid),
        dcp_xid(get_request_bytes(src_mac, dst_mac, xid, option, suboption)) == Some(xid),
        dcp_xid(
            set_request_bytes(src_mac, dst_mac, xid, option, suboption, qualifier, value),
        ) == Some(xid),
{
    assert(DCP_MULTICAST_MAC@.len() == 6);
    lemma_frame_xid(
        DCP_MULTICAST_MAC@,
        src_mac,
        0xFEFE,
        0x05,
        xid,
        be16(0x0080) + be16(4) + dcp_block(0xFF, 0xFF, 0, Seq::empty()),
    );
    assert(identify_all_bytes(src_mac, xid) =~= eth_frame_bytes(
        DCP_MULTICAST_MAC@,
        src_mac,
        0x8892,
        be16(0xFEFE) + seq![0x05u8, 0x00] + be32(xid) + (be16(0x0080) + be16(4) + dcp_block(
            0xFF,
            0xFF,
            0,
            Seq::empty(),
        )),
    ));
    let get_rest = be16(0) + be16(2) + dcp_block(option, suboption, 0, Seq::empty());
    lemma_frame_xid(dst_mac, src_mac, 0xFEFD, 0x03, xid, get_rest);
    assert(get_request_bytes(src_mac, dst_mac, xid, option, suboption) =~= eth_frame_bytes(
        dst_mac,
        src_mac,
        0x8892,
        be16(0xFEFD) + seq![0x03u8, 0x00] + be32(xid) + get_rest,
    ));
    let set_rest = be16(0) + be16((value.len() + 6 + value.len() % 2) as u16) + dcp_block(
        option,
        suboption,
        (value.len() + 2) as u16,
        be16(qualifier) + value,
    );
    lemma_frame_xid(dst_mac, src_mac, 0xFEFD, 0x04, xid, set_rest);
    assert(set_request_bytes(src_mac, dst_mac, xid, option, suboption, qualifier, value)
        =~= eth_frame_bytes(
        dst_mac,
        src_mac,
        0x8892,
        be16(0xFEFD) + seq![0x04u8, 0x00] + be32(xid) + set_rest,
    ));
}

proof fn lemma_frame_xid(
    dst: Seq<u8>,
    src: Seq<u8>,
    frame_id: u16,
    service_id: u8,
    xid: u32,
    rest: Seq<u8>,
)
    requires
        dst.len() == 6,
        src.len() == 6,
    ensures
        dcp_xid(
            eth_frame_bytes(
                dst,
                src,
                0x8892,
                be16(frame_id) + seq![service_id, 0x00u8] + be32(xid) + rest,
            ),
        ) == Some(xid),
{
    let f = eth_frame_bytes(
        dst,
        src,
        0x8892,
        be16(frame_id) + seq![service_id, 0x00u8] + be32(xid) + rest,
    );
    assert(f[12] == be16(0x8892)[0] && f[13] == be16(0x8892)[1]);
    assert(be16_at(f, 12) == 0x8892);
    let pre = dst + src + be16(0x8892) + be16(frame_id) + seq![service_id, 0x00u8];
    be32_round_trip(pre, xid, rest);
    assert(f =~= pre + be32(xid) + rest);
}

/// The payload of the first response block of an option and suboption. The
/// block length counts the 2-byte information word in front of the payload;
/// blocks are 2-byte aligned.
pub open spec fn get_block(blocks: Seq<u8>, remaining: int, option: u8, suboption: u8) -> Option<
    Seq<u8>,
>
    decreases blocks.len(),
{
    if remaining <= 6 || blocks.len() < 6 {
        None
    } else if blocks[0] == option && blocks[1] == suboption {
        Some(block_payload_of(blocks))
    } else {
        let length = be16_at(blocks, 2) as int;
        get_block(
            behind(blocks, 4 + even(length)),
            remaining - (4 + even(length)),
            option,
            suboption,
        )
    }
}

/// The payload of the response block that `blocks` starts with, cut where the
/// frame ends.
pub open spec fn block_payload_of(blocks: Seq<u8>) -> Seq<u8> {
    let length = be16_at(blocks, 2) as int;
    clipped(
        blocks,
        6,
        if length >= 2 {
            4 + length
        } else {
            6
        },
    )
}

/// The blocks of a DCP response and their announced length, or the message why
/// a frame is none.
pub open spec fn response_blocks(frame: Seq<u8>) -> Result<(Seq<u8>, int), Seq<char>> {
    match dcp_offset(frame) {
        Err(m) => Err(m),
        Ok(at) => {
            let p = frame.skip(at);
            if p.len() < 12 {
                Err("payload too short for DCP header: "@ + dec(p.len()) + " bytes"@)
            } else if p[3] != 0x01 {
                Err("not a DCP response: service_type 0x"@ + hex(p[3] as nat, 2, true))
            } else {
                Ok((p.skip(12), be16_at(p, 10) as int))
            }
        },
    }
}

fn parse_response_blocks(frame: &[u8]) -> (r: Result<(&[u8], i64), String>)
    ensures
        match response_blocks(frame@) {
            Ok((b, n)) => r matches Ok((s, m)) && s@ == b && m == n && 0 <= m <= 0xFFFF,
            Err(m) => r matches Err(e) && e@ == m,
        },
{
    let payload = match dcp_payload(frame) {
        Ok(p) => p,
        Err(e) => {
            return Err(e);
        },
    };
    if payload.len() < 12 {
        let mut e = "payload too short for DCP header: ".to_owned();
        push_dec(&mut e, payload.len() as u128);
        e.append(" bytes");
        return Err(e);
    }
    if payload[3] != DCP_SERVICE_TYPE_RESPONSE_SUCCESS {
        let mut e = "not a DCP response: service_type 0x".to_owned();
        push_hex(&mut e, payload[3] as u64, 2, true);
        return Err(e);
    }
    let blocks = slice_subrange(payload, 12, payload.len());
    assert(blocks@ =~= payload@.skip(12));
    Ok((blocks, read_be16(payload, 10) as i64))
}

fn first_block_payload(blocks: &[u8]) -> (r: &[u8])
    requires
        blocks@.len() >= 6,
    ensures
        r@ == block_payload_of(blocks@),
{
    let length: usize = read_be16(blocks, 2) as usize;
    let end: usize = if length < 2 {
        6
    } else if 4 + length < blocks.len() {
        4 + length
    } else {
        blocks.len()
    };
    slice_subrange(blocks, 6, end)
}

fn skip_block(blocks: &[u8]) -> (r: (&[u8], i64))
    requires
        blocks@.len() >= 6,
    ensures
        r.0@ == behind(blocks@, 4 + even(be16_at(blocks@, 2) as int)),
        r.1 == 4 + even(be16_at(blocks@, 2) as int),
        r.0@.len() < blocks@.len(),
        4 <= r.1 <= 0x1_0004,
{
    let length: usize = read_be16(blocks, 2) as usize;
    let block_len: usize = 4 + length + length % 2;
    let next: usize = if block_len < blocks.len() {
        block_len
    } else {
        blocks.len()
    };
    let rest = slice_subrange(blocks, next, blocks.len());
    assert(rest@ =~= behind(blocks@, block_len as int));
    (rest, block_len as i64)
}

/// What a GET response holds for an option and suboption.
pub open spec fn get_response(frame: Seq<u8>, option: u8, suboption: u8) -> Result<
    Option<Seq<u8>>,
    Seq<char>,
> {
    match response_blocks(frame) {
        Ok((b, n)) => Ok(get_block(b, n, option, suboption)),
        Err(m) => Err(m),
    }
}

/// Extract one block's payload from a DCP GET response: walk the response
/// blocks and return the payload of the requested option/suboption block
/// (information word stripped), or `None` when absent.
pub fn parse_get_response(frame: &[u8], option: u8, suboption: u8) -> (r: Result<
    Option<Vec<u8>>,
    String,
>)
    ensures
        match get_response(frame@, option, suboption) {
            Ok(Some(v)) => r matches Ok(Some(w)) && w@ == v,
            Ok(None) => r matches Ok(None),
            Err(m) => r matches Err(e) && e@ == m,
        },
{
    let (all, length) = match parse_response_blocks(frame) {
        Ok(b) => b,
        Err(e) => {
            return Err(e);
        },
    };
    let mut blocks = all;
    let mut remaining: i64 = length;
    while remaining > 6 && blocks.len() >= 6
        invariant
            remaining <= 0xFFFF,
            get_response(frame@, option, suboption) == Ok::<Option<Seq<u8>>, Seq<char>>(
                get_block(blocks@, remaining as int, option, suboption),
            ),
        ensures
            remaining <= 6 || blocks@.len() < 6,
        decreases blocks@.len(),
    {
        if blocks[0] == option && blocks[1] == suboption {
            return Ok(Some(slice_to_vec(first_block_payload(blocks))));
        }
        let (rest, step) = skip_block(blocks);
        blocks = rest;
        remaining = remaining - step;
    }
    Ok(None)
}

/// Device information from a DCP Identify response. Fields for blocks that the
/// response does not have keep their zero or empty defaults.
#[derive(Debug, Clone, PartialEq, Eq)]
pub struct DcpDevice {
    pub mac: [u8; 6],
    pub name: String,
    pub device_type: String,
    pub ip: [u8; 4],
    pub netmask: [u8; 4],
    pub gateway: [u8; 4],
    pub vendor_id: u16,
    pub device_id: u16,
    pub role: u8,
}

/// What a [`DcpDevice`] says, as mathematical values.
#[verifier::ext_equal]
pub struct DcpInfo {
    pub mac: Seq<u8>,
    pub name: Seq<char>,
    pub device_type: Seq<char>,
    pub ip: Seq<u8>,
    pub netmask: Seq<u8>,
    pub gateway: Seq<u8>,
    pub vendor_id: u16,
    pub device_id: u16,
    pub role: u8,
}

impl View for DcpDevice {
    type V = DcpInfo;

    open spec fn view(&self) -> DcpInfo {
        DcpInfo {
            mac: self.mac@,
            name: self.name@,
            device_type: self.device_type@,
            ip: self.ip@,
            netmask: self.netmask@,
            gateway: self.gateway@,
            vendor_id: self.vendor_id,
            device_id: self.device_id,
            role: self.role,
        }
    }
}

/// A device of which only the MAC address is known.
pub open spec fn blank_device(mac: Seq<u8>) -> DcpInfo {
    DcpInfo {
        mac,
        name: Seq::empty(),
        device_type: Seq::empty(),
        ip: zeros(4),
        netmask: zeros(4),
        gateway: zeros(4),
        vendor_id: 0,
        device_id: 0,
        role: 0,
    }
}

impl Default for DcpDevice {
    fn default() -> (r: DcpDevice)
        ensures
            r@ == blank_device(zeros(6)),
    {
        let r = DcpDevice {
            mac: [0u8; 6],
            name: String::new(),
            device_type: String::new(),
            ip: [0u8; 4],
            netmask: [0u8; 4],
            gateway: [0u8; 4],
            vendor_id: 0,
            device_id: 0,
            role: 0,
        };
        assert(r@ =~= blank_device(zeros(6)));
        r
    }
}

/// What one response block adds to what is known of a device.
pub open spec fn apply_block(d: DcpInfo, option: u8, suboption: u8, payload: Seq<u8>) -> DcpInfo {
    if option == 0x02 && suboption == 0x01 {
        DcpInfo { device_type: lossy(trim_nul(payload)), ..d }
    } else if option == 0x02 && suboption == 0x02 {
        DcpInfo { name: lossy(payload), ..d }
    } else if option == 0x01 && suboption == 0x02 && payload.len() >= 12 {
        DcpInfo {
            ip: payload.subrange(0, 4),
            netmask: payload.subrange(4, 8),
            gateway: payload.subrange(8, 12),
            ..d
        }
    } else if option == 0x02 && suboption == 0x03 && payload.len() >= 4 {
        DcpInfo { vendor_id: be16_at(payload, 0), device_id: be16_at(payload, 2), ..d }
    } else if option == 0x02 && suboption == 0x04 && payload.len() > 0 {
        DcpInfo { role: payload[0], ..d }
    } else {
        d
    }
}

/// What the response blocks add to what is known of a device, in order.
pub open spec fn apply_blocks(d: DcpInfo, blocks: Seq<u8>, remaining: int) -> DcpInfo
    decreases blocks.len(),
{
    if remaining <= 6 || blocks.len() < 6 {
        d
    } else {
        let length = be16_at(blocks, 2) as int;
        apply_blocks(
            apply_block(d, blocks[0], blocks[1], block_payload_of(blocks)),
            behind(blocks, 4 + even(length)),
            remaining - (4 + even(length)),
        )
    }
}

/// The device that an Identify response describes; its MAC address is the
/// frame's source.
pub open spec fn identify_response(frame: Seq<u8>) -> Result<DcpInfo, Seq<char>> {
    match response_blocks(frame) {
        Ok((b, n)) => Ok(apply_blocks(blank_device(frame.subrange(6, 12)), b, n)),
        Err(m) => Err(m),
    }
}

/// Parse a DCP Identify response Ethernet frame into a [`DcpDevice`]: skip an
/// optional 802.1Q tag, require the PROFINET EtherType and a response service
/// type, then walk the 2-byte-aligned response blocks.
pub fn parse_identify_response(frame: &[u8]) -> (r: Result<DcpDevice, String>)
    ensures
        match identify_response(frame@) {
            Ok(d) => r matches Ok(v) && v@ == d,
            Err(m) => r matches Err(e) && e@ == m,
        },
{
    let (all, length) = match parse_response_blocks(frame) {
        Ok(b) => b,
        Err(e) => {
            return Err(e);
        },
    };
    let mut device = DcpDevice::default();
    device.mac = array6(frame, 6);
    let mut blocks = all;
    let mut remaining: i64 = length;
    assert(device@ =~= blank_device(frame@.subrange(6, 12)));
    while remaining > 6 && blocks.len() >= 6
        invariant
            remaining <= 0xFFFF,
            apply_blocks(device@, blocks@, remaining as int) == apply_blocks(
                blank_device(frame@.subrange(6, 12)),
                all@,
                length as int,
            ),
        ensures
            remaining <= 6 || blocks@.len() < 6,
        decreases blocks@.len(),
    {
        let option: u8 = blocks[0];
        let suboption: u8 = blocks[1];
        let payload = first_block_payload(blocks);
        let ghost before = device@;
        if option == DCP_OPTION_DEVICE && suboption == DCP_SUBOPTION_DEVICE_TYPE {
            device.device_type = utf8_lossy(trim_trailing_nul(payload));
        } else if option == DCP_OPTION_DEVICE && suboption == DCP_SUBOPTION_DEVICE_NAME {
            device.name = utf8_lossy(payload);
        } else if option == DCP_OPTION_IP && suboption == DCP_SUBOPTION_IP_PARAMETER
            && payload.len() >= 12 {
            device.ip = array4(payload, 0);
            device.netmask = array4(payload, 4);
            device.gateway = array4(payload, 8);
        } else if option == DCP_OPTION_DEVICE && suboption == DCP_SUBOPTION_DEVICE_ID
            && payload.len() >= 4 {
            device.vendor_id = read_be16(payload, 0);
            device.device_id = read_be16(payload, 2);
        } else if option == DCP_OPTION_DEVICE && suboption == DCP_SUBOPTION_DEVICE_ROLE
            && payload.len() > 0 {
            device.role = payload[0];
        }
        assert(device@ =~= apply_block(before, option, suboption, payload@));
        let (rest, step) = skip_block(blocks);
        blocks = rest;
        remaining = remaining - step;
    }
    Ok(device)
}

/// A block of an answer: option, suboption, information word, and the value
/// behind it.
pub struct AnswerBlock {
    pub option: u8,
    pub suboption: u8,
    pub info: u16,
    pub value: Seq<u8>,
}

/// A block as a device lays it out: the length counts the information word, and
/// a value of odd length is followed by a pad byte.
pub open spec fn laid_out_block(b: AnswerBlock) -> Seq<u8> {
    seq![b.option, b.suboption] + be16((b.value.len() + 2) as u16) + be16(b.info) + b.value + zeros(
        b.value.len() % 2,
    )
}

/// Blocks as a device lays them out, one behind the other.
pub open spec fn laid_out_blocks(s: Seq<AnswerBlock>) -> Seq<u8>
    decreases s.len(),
{
    if s.len() == 0 {
        Seq::empty()
    } else {
        laid_out_block(s[0]) + laid_out_blocks(s.skip(1))
    }
}

/// Blocks that can be laid out: each has a value, and all of them fit the length
/// field of a frame.
pub open spec fn can_be_laid_out(s: Seq<AnswerBlock>) -> bool {
    &&& laid_out_blocks(s).len() <= 0xFFFF
    &&& forall|i: int| 0 <= i < s.len() ==> (#[trigger] s[i]).value.len() > 0
}

/// An answer as it arrives: Ethernet header, VLAN tag if there is one, DCP header
/// of a successful response, blocks.
pub open spec fn answer_frame(
    to: Seq<u8>,
    from: Seq<u8>,
    tag: Option<u16>,
    frame_id: u16,
    service: u8,
    xid: u32,
    blocks: Seq<u8>,
) -> Seq<u8> {
    to + from + (match tag {
        Some(control) => be16(0x8100) + be16(control),
        None => Seq::empty(),
    }) + be16(0x8892) + be16(frame_id) + seq![service, 0x01u8] + be32(xid) + be16(0) + be16(
        blocks.len() as u16,
    ) + blocks
}

proof fn lemma_laid_out_block(b: AnswerBlock, rest: Seq<u8>)
    requires
        0 < b.value.len() <= 0xFFFD,
    ensures
        ({
            let s = laid_out_block(b) + rest;
            let length = be16_at(s, 2) as int;
            &&& s.len() >= 8
            &&& s[0] == b.option
            &&& s[1] == b.suboption
            &&& length == b.value.len() + 2
            &&& be16_at(s, 4) == b.info
            &&& block_payload_of(s) == b.value
            &&& clipped(s, 4, 4 + length) == be16(b.info) + b.value
            &&& behind(s, 4 + even(length)) == rest
            &&& laid_out_block(b).len() == 4 + even(length)
        }),
{
    let s = laid_out_block(b) + rest;
    be16_placed(s, 2, (b.value.len() + 2) as u16);
    be16_placed(s, 4, b.info);
    assert(block_payload_of(s) =~= b.value);
    assert(clipped(s, 4, 4 + be16_at(s, 2)) =~= be16(b.info) + b.value);
    assert(behind(s, 4 + even(be16_at(s, 2) as int)) =~= rest);
}

/// The blocks of an answer are found, behind a VLAN tag or without one, and with
/// their own length.
proof fn lemma_answer_frame(
    to: Seq<u8>,
    from: Seq<u8>,
    tag: Option<u16>,
    frame_id: u16,
    service: u8,
    xid: u32,
    blocks: Seq<u8>,
)
    requires
        to.len() == 6,
        from.len() == 6,
        blocks.len() <= 0xFFFF,
    ensures
        ({
            let f = answer_frame(to, from, tag, frame_id, service, xid, blocks);
            &&& f.subrange(6, 12) == from
            &&& dcp_xid(f) == Some(xid)
            &&& response_blocks(f) == Ok::<(Seq<u8>, int), Seq<char>>((blocks, blocks.len() as int))
            &&& dcp_offset(f) matches Ok(at) && ({
                let p = f.skip(at);
                &&& p.len() == 12 + blocks.len()
                &&& be16_at(p, 0) == frame_id
                &&& p[2] == service
                &&& p[3] == 0x01
                &&& be32_at(p, 4) == xid
                &&& be16_at(p, 10) == blocks.len()
                &&& p.skip(12) == blocks
            })
        }),
{
    let f = answer_frame(to, from, tag, frame_id, service, xid, blocks);
    let at: int = match tag {
        Some(_) => 18,
        None => 14,
    };
    let body = be16(frame_id) + seq![service, 0x01u8] + be32(xid) + be16(0) + be16(
        blocks.len() as u16,
    ) + blocks;
    assert(f.subrange(6, 12) =~= from);
    match tag {
        Some(control) => {
            be16_placed(f, 12, 0x8100);
            be16_placed(f, 16, 0x8892);
        },
        None => {
            be16_placed(f, 12, 0x8892);
        },
    }
    let p = f.skip(at);
    assert(p =~= body);
    be16_placed(p, 0, frame_id);
    be32_placed(p, 4, xid);
    be16_placed(p, 10, blocks.len() as u16);
    assert(p.skip(12) =~= blocks);
    assert(f[at + 4] == p[4] && f[at + 5] == p[5] && f[at + 6] == p[6] && f[at + 7] == p[7]);
}

/// What a device says of itself in one block.
pub enum Fact {
    /// The device type, behind which some NUL bytes may stand.
    DeviceType { text: Seq<char>, nuls: nat },
    Name(Seq<char>),
    Address { ip: Seq<u8>, netmask: Seq<u8>, gateway: Seq<u8> },
    Identity { vendor_id: u16, device_id: u16 },
    Role { role: u8, reserved: u8 },
    /// Anything else.
    Other { option: u8, suboption: u8, value: Seq<u8> },
}

impl Fact {
    pub open spec fn valid(self) -> bool {
        match self {
            Fact::DeviceType { text, .. } => encode_utf8(text).len() > 0 && encode_utf8(text).last()
                != 0,
            Fact::Name(text) => encode_utf8(text).len() > 0,
            Fact::Address { ip, netmask, gateway } => ip.len() == 4 && netmask.len() == 4
                && gateway.len() == 4,
            Fact::Other { option, suboption, value } => value.len() > 0 && !(option == 0x01
                && suboption == 0x02) && !(option == 0x02 && 0x01 <= suboption <= 0x04),
            _ => true,
        }
    }

    /// The block that says it.
    pub open spec fn block(self, info: u16) -> AnswerBlock {
        match self {
            Fact::DeviceType { text, nuls } => AnswerBlock {
                option: 0x02,
                suboption: 0x01,
                info,
                value: encode_utf8(text) + zeros(nuls),
            },
            Fact::Name(text) => AnswerBlock {
                option: 0x02,
                suboption: 0x02,
                info,
                value: encode_utf8(text),
            },
            Fact::Address { ip, netmask, gateway } => AnswerBlock {
                option: 0x01,
                suboption: 0x02,
                info,
                value: ip + netmask + gateway,
            },
            Fact::Identity { vendor_id, device_id } => AnswerBlock {
                option: 0x02,
                suboption: 0x03,
                info,
                value: be16(vendor_id) + be16(device_id),
            },
            Fact::Role { role, reserved } => AnswerBlock {
                option: 0x02,
                suboption: 0x04,
                info,
                value: seq![role, reserved],
            },
            Fact::Other { option, suboption, value } => AnswerBlock {
                option,
                suboption,
                info,
                value,
            },
        }
    }

    /// What is known of the device behind it.
    pub open spec fn told(self, d: DcpInfo) -> DcpInfo {
        match self {
            Fact::DeviceType { text, .. } => DcpInfo { device_type: text, ..d },
            Fact::Name(text) => DcpInfo { name: text, ..d },
            Fact::Address { ip, netmask, gateway } => DcpInfo { ip, netmask, gateway, ..d },
            Fact::Identity { vendor_id, device_id } => DcpInfo { vendor_id, device_id, ..d },
            Fact::Role { role, .. } => DcpInfo { role, ..d },
            Fact::Other { .. } => d,
        }
    }
}

/// The blocks in which a device says some facts, all with one information word.
pub open spec fn fact_blocks(facts: Seq<Fact>, info: u16) -> Seq<AnswerBlock> {
    Seq::new(facts.len(), |i: int| facts[i].block(info))
}

/// What is known of a device after some facts, the first of them first.
pub open spec fn all_told(d: DcpInfo, facts: Seq<Fact>) -> DcpInfo
    decreases facts.len(),
{
    if facts.len() == 0 {
        d
    } else {
        all_told(facts[0].told(d), facts.skip(1))
    }
}

proof fn lemma_fact(d: DcpInfo, f: Fact, info: u16)
    requires
        f.valid(),
    ensures
        f.block(info).value.len() > 0,
        apply_block(d, f.block(info).option, f.block(info).suboption, f.block(info).value)
            == f.told(d),
{
    match f {
        Fact::DeviceType { text, nuls } => {
            trimmed_of_padded(encode_utf8(text), nuls);
            lossy_of_encoded(text);
        },
        Fact::Name(text) => {
            lossy_of_encoded(text);
        },
        Fact::Address { ip, netmask, gateway } => {
            let v = ip + netmask + gateway;
            assert(v.subrange(0, 4) =~= ip);
            assert(v.subrange(4, 8) =~= netmask);
            assert(v.subrange(8, 12) =~= gateway);
        },
        Fact::Identity { vendor_id, device_id } => {
            let v = be16(vendor_id) + be16(device_id);
            be16_placed(v, 0, vendor_id);
            be16_placed(v, 2, device_id);
        },
        _ => {},
    }
}

proof fn lemma_facts(d: DcpInfo, facts: Seq<Fact>, info: u16)
    requires
        forall|i: int| 0 <= i < facts.len() ==> (#[trigger] facts[i]).valid(),
        can_be_laid_out(fact_blocks(facts, info)),
    ensures
        ({
            let b = laid_out_blocks(fact_blocks(facts, info));
            apply_blocks(d, b, b.len() as int) == all_told(d, facts)
        }),
    decreases facts.len(),
{
    let s = fact_blocks(facts, info);
    if facts.len() > 0 {
        let rest = fact_blocks(facts.skip(1), info);
        assert(s.skip(1) =~= rest);
        let first = facts[0].block(info);
        assert(s[0] == first);
        lemma_fact(d, facts[0], info);
        let tail = laid_out_blocks(rest);
        assert(laid_out_blocks(s) == laid_out_block(first) + tail);
        lemma_laid_out_block(first, tail);
        assert(forall|i: int| 0 <= i < rest.len() ==> rest[i] == #[trigger] s[i + 1]);
        lemma_facts(facts[0].told(d), facts.skip(1), info);
    }
}

/// Discovery reports what a device says of itself: for every list of facts in an
/// answer, laid out as devices do, each field of the result is what the last
/// fact about it says, or blank, and the MAC address is the sender's.
pub proof fn discovery_reports_what_devices_say(
    to: Seq<u8>,
    from: Seq<u8>,
    tag: Option<u16>,
    frame_id: u16,
    service: u8,
    xid: u32,
    facts: Seq<Fact>,
    info: u16,
)
    requires
        to.len() == 6,
        from.len() == 6,
        forall|i: int| 0 <= i < facts.len() ==> (#[trigger] facts[i]).valid(),
        can_be_laid_out(fact_blocks(facts, info)),
    ensures
        identify_response(
            answer_frame(
                to,
                from,
                tag,
                frame_id,
                service,
                xid,
                laid_out_blocks(fact_blocks(facts, info)),
            ),
        ) == Ok::<DcpInfo, Seq<char>>(
            all_told(
                DcpInfo {
                    mac: from,
                    name: Seq::empty(),
                    device_type: Seq::empty(),
                    ip: seq![0u8, 0, 0, 0],
                    netmask: seq![0u8, 0, 0, 0],
                    gateway: seq![0u8, 0, 0, 0],
                    vendor_id: 0,
                    device_id: 0,
                    role: 0,
                },
                facts,
            ),
        ),
{
    let b = laid_out_blocks(fact_blocks(facts, info));
    lemma_answer_frame(to, from, tag, frame_id, service, xid, b);
    lemma_facts(blank_device(from), facts, info);
    assert(zeros(4) =~= seq![0u8, 0, 0, 0]);
}

/// What is set is what discovery reports: the value that a SET request for the IP
/// parameters carries, sent back in an Identify answer, gives a device with these
/// addresses.
pub proof fn a_set_address_is_discovered(
    src_mac: Seq<u8>,
    dst_mac: Seq<u8>,
    xid: u32,
    qualifier: u16,
    ip: Seq<u8>,
    netmask: Seq<u8>,
    gateway: Seq<u8>,
    info: u16,
)
    requires
        src_mac.len() == 6,
        dst_mac.len() == 6,
        ip.len() == 4,
        netmask.len() == 4,
        gateway.len() == 4,
    ensures
        ({
            let request = set_request_bytes(
                src_mac,
                dst_mac,
                xid,
                0x01,
                0x02,
                qualifier,
                ip_parameters(ip, netmask, gateway),
            );
            let echo = AnswerBlock {
                option: request[26],
                suboption: request[27],
                info,
                value: request.skip(32),
            };
            identify_response(
                answer_frame(src_mac, dst_mac, None, 0xFEFF, 0x05, xid, laid_out_block(echo)),
            ) matches Ok(d) && d.mac == dst_mac && d.ip == ip && d.netmask == netmask && d.gateway
                == gateway
        }),
{
    let value = ip_parameters(ip, netmask, gateway);
    set_requests_have_their_layout(src_mac, dst_mac, xid, 0x01, 0x02, qualifier, value);
    let fact = Fact::Address { ip, netmask, gateway };
    let facts = seq![fact];
    let s = fact_blocks(facts, info);
    assert(value =~= ip + netmask + gateway);
    assert(s[0] == fact.block(info));
    assert(s.skip(1) =~= Seq::empty());
    reveal_with_fuel(laid_out_blocks, 3);
    assert(laid_out_blocks(s) =~= laid_out_block(s[0]));
    assert(laid_out_block(s[0]).len() == 18);
    discovery_reports_what_devices_say(
        src_mac,
        dst_mac,
        None,
        0xFEFF,
        0x05,
        xid,
        facts,
        info,
    );
    reveal_with_fuel(all_told, 3);
    assert(facts.skip(1) =~= Seq::empty());
}

/// Every byte of a SET request: the addresses, a request of service SET with its
/// transaction id, the lengths of what follows them, option, suboption, qualifier,
/// and the value behind them.
pub proof fn set_requests_have_their_layout(
    src_mac: Seq<u8>,
    dst_mac: Seq<u8>,
    xid: u32,
    option: u8,
    suboption: u8,
    qualifier: u16,
    value: Seq<u8>,
)
    requires
        src_mac.len() == 6,
        dst_mac.len() == 6,
        value.len() <= 0xFFF0,
    ensures
        ({
            let r = set_request_bytes(src_mac, dst_mac, xid, option, suboption, qualifier, value);
            &&& r.len() == 32 + value.len()
            &&& r.subrange(0, 6) == dst_mac
            &&& r.subrange(6, 12) == src_mac
            &&& be16_at(r, 12) == 0x8892
            &&& be16_at(r, 14) == 0xFEFD
            &&& r[16] == 0x04
            &&& r[17] == 0x00
            &&& be32_at(r, 18) == xid
            &&& be16_at(r, 22) == 0
            &&& be16_at(r, 24) == if value.len() % 2 == 0 {
                value.len() + 6
            } else {
                value.len() + 7
            }
            &&& r[26] == option
            &&& r[27] == suboption
            &&& be16_at(r, 28) == value.len() + 2
            &&& be16_at(r, 30) == qualifier
            &&& r.skip(32) == value
        }),
{
    let r = set_request_bytes(src_mac, dst_mac, xid, option, suboption, qualifier, value);
    assert(r.subrange(0, 6) =~= dst_mac);
    assert(r.subrange(6, 12) =~= src_mac);
    be16_placed(r, 12, 0x8892);
    be16_placed(r, 14, 0xFEFD);
    be32_placed(r, 18, xid);
    be16_placed(r, 22, 0);
    be16_placed(r, 24, (value.len() + 6 + value.len() % 2) as u16);
    be16_placed(r, 28, (value.len() + 2) as u16);
    be16_placed(r, 30, qualifier);
    assert(r.skip(32) =~= value);
}

/// Every byte of a GET request and of an Identify request to all devices.
pub proof fn get_and_identify_requests_have_their_layout(
    src_mac: Seq<u8>,
    dst_mac: Seq<u8>,
    xid: u32,
    option: u8,
    suboption: u8,
)
    requires
        src_mac.len() == 6,
        dst_mac.len() == 6,
    ensures
        ({
            let r = get_request_bytes(src_mac, dst_mac, xid, option, suboption);
            &&& r.len() == 30
            &&& r.subrange(0, 6) == dst_mac
            &&& r.subrange(6, 12) == src_mac
            &&& be16_at(r, 12) == 0x8892
            &&& be16_at(r, 14) == 0xFEFD
            &&& r[16] == 0x03
            &&& r[17] == 0x00
            &&& be32_at(r, 18) == xid
            &&& be16_at(r, 22) == 0
            &&& be16_at(r, 24) == 2
            &&& r[26] == option
            &&& r[27] == suboption
            &&& be16_at(r, 28) == 0
        }),
        ({
            let r = identify_all_bytes(src_mac, xid);
            &&& r.len() == 30
            &&& r.subrange(0, 6) == seq![0x01u8, 0x0E, 0xCF, 0x00, 0x00, 0x00]
            &&& r.subrange(6, 12) == src_mac
            &&& be16_at(r, 12) == 0x8892
            &&& be16_at(r, 14) == 0xFEFE
            &&& r[16] == 0x05
            &&& r[17] == 0x00
            &&& be32_at(r, 18) == xid
            &&& be16_at(r, 22) == 0x0080
            &&& be16_at(r, 24) == 4
            &&& r[26] == 0xFF
            &&& r[27] == 0xFF
            &&& be16_at(r, 28) == 0
        }),
{
    let r = get_request_bytes(src_mac, dst_mac, xid, option, suboption);
    assert(r.subrange(0, 6) =~= dst_mac);
    assert(r.subrange(6, 12) =~= src_mac);
    be16_placed(r, 12, 0x8892);
    be16_placed(r, 14, 0xFEFD);
    be32_placed(r, 18, xid);
    be16_placed(r, 22, 0);
    be16_placed(r, 24, 2);
    be16_placed(r, 28, 0);
    let q = identify_all_bytes(src_mac, xid);
    assert(q.subrange(0, 6) =~= seq![0x01u8, 0x0E, 0xCF, 0x00, 0x00, 0x00]);
    assert(q.subrange(6, 12) =~= src_mac);
    be16_placed(q, 12, 0x8892);
    be16_placed(q, 14, 0xFEFE);
    be32_placed(q, 18, xid);
    be16_placed(q, 22, 0x0080);
    be16_placed(q, 24, 4);
    be16_placed(q, 28, 0);
}

/// The value of the first block with an option and suboption.
pub open spec fn first_value(s: Seq<AnswerBlock>, option: u8, suboption: u8) -> Option<Seq<u8>>
    decreases s.len(),
{
    if s.len() == 0 {
        None
    } else if s[0].option == option && s[0].suboption == suboption {
        Some(s[0].value)
    } else {
        first_value(s.skip(1), option, suboption)
    }
}

proof fn lemma_get_block(s: Seq<AnswerBlock>, option: u8, suboption: u8)
    requires
        can_be_laid_out(s),
    ensures
        get_block(laid_out_blocks(s), laid_out_blocks(s).len() as int, option, suboption)
            == first_value(s, option, suboption),
    decreases s.len(),
{
    if s.len() > 0 {
        let rest = s.skip(1);
        lemma_laid_out_block(s[0], laid_out_blocks(rest));
        assert(forall|i: int| 0 <= i < rest.len() ==> rest[i] == #[trigger] s[i + 1]);
        lemma_get_block(rest, option, suboption);
    }
}

/// A GET gives the value of the first block that was asked for, wherever it
/// stands in the answer, and nothing where there is none.
pub proof fn a_get_gives_the_value_asked_for(
    to: Seq<u8>,
    from: Seq<u8>,
    tag: Option<u16>,
    xid: u32,
    blocks: Seq<AnswerBlock>,
    option: u8,
    suboption: u8,
)
    requires
        to.len() == 6,
        from.len() == 6,
        can_be_laid_out(blocks),
    ensures
        get_response(
            answer_frame(to, from, tag, 0xFEFD, 0x03, xid, laid_out_blocks(blocks)),
            option,
            suboption,
        ) == Ok::<Option<Seq<u8>>, Seq<char>>(first_value(blocks, option, suboption)),
{
    lemma_answer_frame(to, from, tag, 0xFEFD, 0x03, xid, laid_out_blocks(blocks));
    lemma_get_block(blocks, option, suboption);
}

/// A Control/Response block: the option and suboption that were set, and how that
/// ended.
pub open spec fn outcome_block(option: u8, suboption: u8, error: u8) -> Seq<u8> {
    seq![0x05u8, 0x04, 0x00, 0x03, option, suboption, error, 0x00]
}

proof fn lemma_set_error(s: Seq<AnswerBlock>, option: u8, suboption: u8, error: u8)
    requires
        laid_out_blocks(s).len() + 8 <= 0xFFFF,
        forall|i: int|
            0 <= i < s.len() ==> (#[trigger] s[i]).value.len() > 0 && !(s[i].option == 0x05
                && s[i].suboption == 0x04),
    ensures
        ({
            let b = laid_out_blocks(s) + outcome_block(option, suboption, error);
            set_error(b, b.len() as int) == error
        }),
    decreases s.len(),
{
    let last = outcome_block(option, suboption, error);
    let b = laid_out_blocks(s) + last;
    if s.len() == 0 {
        assert(b =~= last);
        be16_placed(b, 2, 3);
        assert(clipped(b, 4, 7)[2] == error);
    } else {
        let rest = s.skip(1);
        assert(b =~= laid_out_block(s[0]) + (laid_out_blocks(rest) + last));
        lemma_laid_out_block(s[0], laid_out_blocks(rest) + last);
        assert(forall|i: int| 0 <= i < rest.len() ==> rest[i] == #[trigger] s[i + 1]);
        lemma_set_error(rest, option, suboption, error);
    }
}

/// The answer to a SET reports the error code of the device's Control/Response
/// block, behind whatever other blocks, to the sender of the request and to nobody
/// else.
pub proof fn a_set_reports_the_devices_error(
    to: Seq<u8>,
    from: Seq<u8>,
    tag: Option<u16>,
    xid: u32,
    before: Seq<AnswerBlock>,
    option: u8,
    suboption: u8,
    error: u8,
    asked: u32,
)
    requires
        to.len() == 6,
        from.len() == 6,
        laid_out_blocks(before).len() + 8 <= 0xFFFF,
        forall|i: int|
            0 <= i < before.len() ==> (#[trigger] before[i]).value.len() > 0 && !(before[i].option
                == 0x05 && before[i].suboption == 0x04),
    ensures
        set_response(
            answer_frame(
                to,
                from,
                tag,
                0xFEFD,
                0x04,
                xid,
                laid_out_blocks(before) + outcome_block(option, suboption, error),
            ),
            asked,
        ) == Ok::<Option<u8>, Seq<char>>(
            if asked == xid {
                Some(error)
            } else {
                None
            },
        ),
{
    let b = laid_out_blocks(before) + outcome_block(option, suboption, error);
    lemma_answer_frame(to, from, tag, 0xFEFD, 0x04, xid, b);
    lemma_set_error(before, option, suboption, error);
}

} // verus!
