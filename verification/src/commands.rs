//! The one-shot commands: the DCP exchanges they make, and what they print.

use vstd::prelude::*;
use vstd::slice::*;
use vstd::string::*;
use crate::bytes::be16;
use crate::cli::{decode_device_role, hex_encode, parse_ipv4, role_names, texts};
use crate::dcp;
use crate::dcp::{
    block_error_text, dcp_xid, get_request_bytes, get_response, set_request_bytes, set_response,
    signal_units, DcpDevice,
};
use crate::gsdml::IoSlot;
use crate::im::{decoded, revision_text, InM0, InM1, InM2, InM3};
use crate::text::{chars_of, dec, hex, hex_digits, hex_text, lossy, push_dec, push_hex, utf8_lossy};
use crate::util::{
    bad_ip_message, bad_mac_message, ip_text, is_mac_text, mac2s, mac_of_text, mac_text, s2ip,
    s2mac,
};

verus! {

/// A parameter that can be read and written.
#[derive(Debug, Clone, Copy, PartialEq, Eq, Structural)]
pub enum Param {
    Name,
    Ip,
}

/// The name of a parameter.
pub open spec fn param_text(p: Param) -> Seq<char> {
    match p {
        Param::Name => "name"@,
        Param::Ip => "ip"@,
    }
}

/// The name of a parameter.
pub fn param_name(param: Param) -> (r: &'static str)
    ensures
        r@ == param_text(param),
{
    match param {
        Param::Name => "name",
        Param::Ip => "ip",
    }
}

/// The DCP option and suboption of a parameter.
pub open spec fn param_block(p: Param) -> (u8, u8) {
    match p {
        Param::Name => (0x02, 0x02),
        Param::Ip => (0x01, 0x02),
    }
}

/// The DCP option and suboption of a parameter.
pub fn param_option(param: Param) -> (r: (u8, u8))
    ensures
        r == param_block(param),
{
    match param {
        Param::Name => (dcp::DCP_OPTION_DEVICE, dcp::DCP_SUBOPTION_DEVICE_NAME),
        Param::Ip => (dcp::DCP_OPTION_IP, dcp::DCP_SUBOPTION_IP_PARAMETER),
    }
}

/// What a reset resets.
#[derive(Debug, Clone, Copy, PartialEq, Eq, Structural)]
pub enum ResetMode {
    Communication,
    Application,
    Engineering,
    AllData,
    Device,
    Factory,
}

impl ResetMode {
    /// The mode's bit.
    pub open spec fn bit(self) -> u16 {
        match self {
            ResetMode::Communication => 0x0002,
            ResetMode::Application => 0x0004,
            ResetMode::Engineering => 0x0008,
            ResetMode::AllData => 0x0010,
            ResetMode::Device => 0x0020,
            ResetMode::Factory => 0x0040,
        }
    }

    /// The mode's name.
    pub open spec fn name(self) -> Seq<char> {
        match self {
            ResetMode::Communication => "communication"@,
            ResetMode::Application => "application"@,
            ResetMode::Engineering => "engineering"@,
            ResetMode::AllData => "all-data"@,
            ResetMode::Device => "device"@,
            ResetMode::Factory => "factory"@,
        }
    }

    /// The mode's bit.
    pub fn mask(self) -> (r: u16)
        ensures
            r == self.bit(),
    {
        match self {
            ResetMode::Communication => dcp::RESET_MODE_COMMUNICATION,
            ResetMode::Application => dcp::RESET_MODE_APPLICATION,
            ResetMode::Engineering => dcp::RESET_MODE_ENGINEERING,
            ResetMode::AllData => dcp::RESET_MODE_ALL_DATA,
            ResetMode::Device => dcp::RESET_MODE_DEVICE,
            ResetMode::Factory => dcp::RESET_MODE_FACTORY,
        }
    }

    /// The mode's name.
    pub fn as_str(self) -> (r: &'static str)
        ensures
            r@ == self.name(),
    {
        match self {
            ResetMode::Communication => "communication",
            ResetMode::Application => "application",
            ResetMode::Engineering => "engineering",
            ResetMode::AllData => "all-data",
            ResetMode::Device => "device",
            ResetMode::Factory => "factory",
        }
    }
}

/// A request for the device with the MAC address `target`, or the message that
/// it is none.
pub open spec fn is_request_to(
    r: Result<Vec<u8>, String>,
    target: Seq<char>,
    request: spec_fn(Seq<u8>) -> Seq<u8>,
) -> bool {
    if is_mac_text(target) {
        r matches Ok(v) && v@ == request(mac_of_text(target))
    } else {
        r matches Err(e) && e@ == bad_mac_message(target)
    }
}

/// The request that reads a parameter.
pub fn get_param_request(my_mac: &[u8; 6], target: &str, xid: u32, param: Param) -> (r: Result<
    Vec<u8>,
    String,
>)
    ensures
        is_request_to(
            r,
            target@,
            |dst: Seq<u8>|
                get_request_bytes(my_mac@, dst, xid, param_block(param).0, param_block(param).1),
        ),
{
    let (option, suboption) = param_option(param);
    match s2mac(target) {
        Ok(dst) => Ok(dcp::get_request(my_mac, &dst, xid, option, suboption)),
        Err(e) => Err(e),
    }
}

/// The frame is long enough for an Ethernet header and addressed to us.
pub open spec fn addressed_to(frame: Seq<u8>, mac: Seq<u8>) -> bool {
    frame.len() >= 14 && frame.take(6) == mac
}

fn is_addressed_to(frame: &[u8], mac: &[u8; 6]) -> (r: bool)
    ensures
        r == addressed_to(frame@, mac@),
{
    if frame.len() < 14 {
        return false;
    }
    let r = frame[0] == mac[0] && frame[1] == mac[1] && frame[2] == mac[2] && frame[3] == mac[3]
        && frame[4] == mac[4] && frame[5] == mac[5];
    proof {
        let dst = frame@.take(6);
        assert(dst[0] == frame@[0] && dst[1] == frame@[1] && dst[2] == frame@[2] && dst[3]
            == frame@[3] && dst[4] == frame@[4] && dst[5] == frame@[5]);
        assert(r ==> dst =~= mac@);
    }
    r
}

/// The value of a parameter in a captured frame; none unless the frame is
/// addressed to us and answers with that parameter.
pub fn get_param_answer(my_mac: &[u8; 6], param: Param, frame: &[u8]) -> (r: Option<Vec<u8>>)
    ensures
        if addressed_to(frame@, my_mac@) {
            match get_response(frame@, param_block(param).0, param_block(param).1) {
                Ok(Some(v)) => r matches Some(w) && w@ == v,
                _ => r is None,
            }
        } else {
            r is None
        },
{
    if !is_addressed_to(frame, my_mac) {
        return None;
    }
    let (option, suboption) = param_option(param);
    match dcp::parse_get_response(frame, option, suboption) {
        Ok(Some(v)) => Some(v),
        _ => None,
    }
}

/// The text of a parameter's value.
pub open spec fn value_shown(param: Param, value: Seq<u8>) -> Seq<char> {
    match param {
        Param::Name => lossy(value),
        Param::Ip => if value.len() >= 4 {
            ip_text(value.take(4))
        } else {
            "?"@
        },
    }
}

/// The text of a parameter's value.
pub fn show_value(param: Param, value: &[u8]) -> (r: String)
    ensures
        r@ == value_shown(param, value@),
{
    match param {
        Param::Name => utf8_lossy(value),
        Param::Ip => {
            if value.len() >= 4 {
                let ip = slice_subrange(value, 0, 4);
                assert(ip@ =~= value@.take(4));
                match s2ip(ip) {
                    Ok(s) => s,
                    Err(_) => "?".to_owned(),
                }
            } else {
                "?".to_owned()
            }
        },
    }
}

/// The message for a parameter that could not be read.
pub fn get_param_failed(param: Param) -> (r: String)
    ensures
        r@ == "Could not read parameter '"@ + param_text(param) + "'"@,
{
    let mut s = "Could not read parameter '".to_owned();
    s.append(param_name(param));
    s.append("'");
    s
}

/// The request that writes a parameter, or why there is none: a station name
/// has at most 240 bytes.
pub fn set_param_request(my_mac: &[u8; 6], target: &str, xid: u32, param: Param, value: &str) -> (r:
    Result<Vec<u8>, String>)
    ensures
        if is_mac_text(target@) && param is Name && value.spec_bytes().len() > 240 {
            r matches Err(e) && e@ == "Station name exceeds maximum length: "@ + dec(
                value.spec_bytes().len(),
            ) + " > 240"@
        } else {
            is_request_to(
                r,
                target@,
                |dst: Seq<u8>|
                    set_request_bytes(
                        my_mac@,
                        dst,
                        xid,
                        param_block(param).0,
                        param_block(param).1,
                        0x0000,
                        value.spec_bytes(),
                    ),
            )
        },
{
    let dst = match s2mac(target) {
        Ok(m) => m,
        Err(e) => {
            return Err(e);
        },
    };
    let bytes = value.as_bytes();
    if param == Param::Name && bytes.len() > dcp::DCP_MAX_NAME_LENGTH {
        let mut e = "Station name exceeds maximum length: ".to_owned();
        push_dec(&mut e, bytes.len() as u128);
        e.append(" > 240");
        return Err(e);
    }
    let (option, suboption) = param_option(param);
    Ok(dcp::set_param_request(my_mac, &dst, xid, option, suboption, bytes))
}

/// The three addresses of an IP configuration, or the message for the first
/// that is none.
pub open spec fn is_ip_suite(
    r: Result<([u8; 4], [u8; 4], [u8; 4]), String>,
    ip: Seq<char>,
    netmask: Seq<char>,
    gateway: Seq<char>,
) -> bool {
    match r {
        Ok((a, b, c)) => ip_text(a@) == ip && ip_text(b@) == netmask && ip_text(c@) == gateway,
        Err(e) => (!is_ip(ip) && e@ == bad_ip_message(ip)) || (is_ip(ip) && !is_ip(netmask) && e@
            == bad_ip_message(netmask)) || (is_ip(ip) && is_ip(netmask) && !is_ip(gateway) && e@
            == bad_ip_message(gateway)),
    }
}

/// The text is that of an IPv4 address.
pub open spec fn is_ip(s: Seq<char>) -> bool {
    exists|ip: Seq<u8>| ip.len() == 4 && #[trigger] ip_text(ip) == s
}

fn ip_suite(ip: &str, netmask: &str, gateway: &str) -> (r: Result<
    ([u8; 4], [u8; 4], [u8; 4]),
    String,
>)
    ensures
        is_ip_suite(r, ip@, netmask@, gateway@),
{
    let a = match parse_ipv4(ip) {
        Ok(a) => a,
        Err(e) => {
            return Err(e);
        },
    };
    assert(a@.len() == 4 && ip_text(a@) == ip@);
    let b = match parse_ipv4(netmask) {
        Ok(b) => b,
        Err(e) => {
            return Err(e);
        },
    };
    assert(b@.len() == 4 && ip_text(b@) == netmask@);
    match parse_ipv4(gateway) {
        Ok(c) => Ok((a, b, c)),
        Err(e) => Err(e),
    }
}

/// The request that sets the IP configuration.
pub fn set_ip_request(
    my_mac: &[u8; 6],
    target: &str,
    xid: u32,
    ip: &str,
    netmask: &str,
    gateway: &str,
    permanent: bool,
) -> (r: Result<Vec<u8>, String>)
    ensures
        match r {
            Err(e) => if !is_mac_text(target@) {
                e@ == bad_mac_message(target@)
            } else {
                is_ip_suite(Err(e), ip@, netmask@, gateway@)
            },
            Ok(v) => is_mac_text(target@) && exists|a: Seq<u8>, b: Seq<u8>, c: Seq<u8>|
                #![trigger ip_text(a), ip_text(b), ip_text(c)]
                a.len() == 4 && b.len() == 4 && c.len() == 4 && ip_text(a) == ip@ && ip_text(b)
                    == netmask@ && ip_text(c) == gateway@ && v@ == set_request_bytes(
                    my_mac@,
                    mac_of_text(target@),
                    xid,
                    0x01,
                    0x02,
                    if permanent {
                        0x0001
                    } else {
                        0x0000
                    },
                    a + b + c,
                ),
        },
{
    let dst = match s2mac(target) {
        Ok(m) => m,
        Err(e) => {
            return Err(e);
        },
    };
    let (a, b, c) = match ip_suite(ip, netmask, gateway) {
        Ok(t) => t,
        Err(e) => {
            return Err(e);
        },
    };
    let r = dcp::set_ip_request_qualified(my_mac, &dst, xid, &a, &b, &c, permanent);
    assert(a@.len() == 4 && b@.len() == 4 && c@.len() == 4 && ip_text(a@) == ip@ && ip_text(b@)
        == netmask@ && ip_text(c@) == gateway@);
    Ok(r)
}

/// The request that makes the device flash its LEDs for three seconds.
pub fn signal_request(my_mac: &[u8; 6], target: &str, xid: u32) -> (r: Result<Vec<u8>, String>)
    ensures
        is_request_to(
            r,
            target@,
            |dst: Seq<u8>|
                set_request_bytes(
                    my_mac@,
                    dst,
                    xid,
                    0x05,
                    0x03,
                    0x0001,
                    be16(signal_units(3000)),
                ),
        ),
{
    match s2mac(target) {
        Ok(dst) => Ok(dcp::signal_request(my_mac, &dst, xid, 3000)),
        Err(e) => Err(e),
    }
}

/// The request that resets the device.
pub fn reset_request(my_mac: &[u8; 6], target: &str, xid: u32, mode: ResetMode) -> (r: Result<
    Vec<u8>,
    String,
>)
    ensures
        is_request_to(
            r,
            target@,
            |dst: Seq<u8>|
                set_request_bytes(my_mac@, dst, xid, 0x05, 0x06, mode.bit(), Seq::empty()),
        ),
{
    match s2mac(target) {
        Ok(dst) => Ok(dcp::reset_request(my_mac, &dst, xid, mode.mask())),
        Err(e) => Err(e),
    }
}

/// A set request whose response is awaited. The response is matched to the
/// request's transaction id, so that a stray frame or a foreign device cannot
/// be mistaken for success.
#[derive(Debug, Clone, Copy, PartialEq, Eq)]
pub struct SetExchange {
    pub my_mac: [u8; 6],
    pub xid: u32,
}

/// The message when no response came in time.
pub fn no_set_response() -> (r: String)
    ensures
        r@ == "No DCP SET response received"@,
{
    "No DCP SET response received".to_owned()
}

impl SetExchange {
    /// The exchange for a request.
    pub fn new(my_mac: &[u8; 6], request: &[u8]) -> (r: Result<SetExchange, String>)
        ensures
            match dcp_xid(request@) {
                Some(xid) => r == Ok::<SetExchange, String>(
                    SetExchange { my_mac: *my_mac, xid },
                ),
                None => r matches Err(e) && e@ == "malformed DCP request"@,
            },
    {
        match dcp::parse_dcp_xid(request) {
            Some(xid) => Ok(SetExchange { my_mac: *my_mac, xid }),
            None => Err("malformed DCP request".to_owned()),
        }
    }

    /// What a captured frame says: the block error code of our response, or
    /// why that is unreadable. None for a frame that is not addressed to us or
    /// is not our response: the wait goes on.
    pub fn on_frame(&self, frame: &[u8]) -> (r: Option<Result<u8, String>>)
        ensures
            if addressed_to(frame@, self.my_mac@) {
                match set_response(frame@, self.xid) {
                    Ok(Some(code)) => r matches Some(Ok(c)) && c == code,
                    Ok(None) => r is None,
                    Err(m) => r matches Some(Err(e)) && e@ == m,
                }
            } else {
                r is None
            },
    {
        if !is_addressed_to(frame, &self.my_mac) {
            return None;
        }
        match dcp::parse_set_response(frame, self.xid) {
            Ok(Some(code)) => Some(Ok(code)),
            Ok(None) => None,
            Err(e) => Some(Err(e)),
        }
    }
}

/// The end of a set command: exit code and text, or an error. A code other
/// than 0 is the device's refusal; no readable response is a failure without
/// an error.
pub open spec fn is_set_report(
    r: Result<(i32, String), String>,
    outcome: Result<u8, String>,
    done: Seq<char>,
    refused: Seq<char>,
    failed: Seq<char>,
) -> bool {
    match outcome {
        Ok(code) => if code == 0 {
            r matches Ok((0, s)) && s@ == done
        } else {
            r matches Err(e) && e@ == refused + block_error_text(code)
        },
        Err(_) => r matches Ok((1, s)) && s@ == failed,
    }
}

fn set_report(outcome: &Result<u8, String>, done: String, refused: &str, failed: String) -> (r:
    Result<(i32, String), String>)
    ensures
        is_set_report(r, *outcome, done@, refused@, failed@),
{
    match outcome {
        Ok(code) => {
            if *code == dcp::DCP_BLOCK_ERROR_OK {
                Ok((0, done))
            } else {
                let mut e = refused.to_owned();
                e.append(dcp::block_error_name(*code).as_str());
                Err(e)
            }
        },
        Err(_) => Ok((1, failed)),
    }
}

/// The end of a command that writes a parameter.
pub fn set_param_report(param: Param, value: &str, outcome: &Result<u8, String>) -> (r: Result<
    (i32, String),
    String,
>)
    ensures
        is_set_report(
            r,
            *outcome,
            "Set "@ + param_text(param) + " = "@ + value@,
            "DCP SET failed for '"@ + param_text(param) + "': "@,
            "Failed to set "@ + param_text(param),
        ),
{
    let mut done = "Set ".to_owned();
    done.append(param_name(param));
    done.append(" = ");
    done.append(value);
    let mut refused = "DCP SET failed for '".to_owned();
    refused.append(param_name(param));
    refused.append("': ");
    let mut failed = "Failed to set ".to_owned();
    failed.append(param_name(param));
    set_report(outcome, done, refused.as_str(), failed)
}

/// The end of a command that sets the IP configuration.
pub fn set_ip_report(ip: &str, netmask: &str, gateway: &str, outcome: &Result<u8, String>) -> (r:
    Result<(i32, String), String>)
    ensures
        is_set_report(
            r,
            *outcome,
            "Set IP="@ + ip@ + " netmask="@ + netmask@ + " gateway="@ + gateway@,
            "DCP SET IP failed: "@,
            "Failed to set IP (timeout)"@,
        ),
{
    let mut done = "Set IP=".to_owned();
    done.append(ip);
    done.append(" netmask=");
    done.append(netmask);
    done.append(" gateway=");
    done.append(gateway);
    set_report(outcome, done, "DCP SET IP failed: ", "Failed to set IP (timeout)".to_owned())
}

/// The end of a command that makes the device flash.
pub fn signal_report(outcome: &Result<u8, String>) -> (r: Result<(i32, String), String>)
    ensures
        is_set_report(
            r,
            *outcome,
            "Device LED flash triggered"@,
            "DCP Signal failed: "@,
            "Failed to signal device (timeout)"@,
        ),
{
    set_report(
        outcome,
        "Device LED flash triggered".to_owned(),
        "DCP Signal failed: ",
        "Failed to signal device (timeout)".to_owned(),
    )
}

/// The end of a command that resets the device.
pub fn reset_report(outcome: &Result<u8, String>) -> (r: Result<(i32, String), String>)
    ensures
        is_set_report(
            r,
            *outcome,
            "Reset command acknowledged"@,
            "DCP Reset to Factory failed: "@,
            "Failed to reset device (timeout)"@,
        ),
{
    set_report(
        outcome,
        "Reset command acknowledged".to_owned(),
        "DCP Reset to Factory failed: ",
        "Failed to reset device (timeout)".to_owned(),
    )
}

/// The views of some strings.
pub open spec fn shown(s: Seq<String>) -> Seq<Seq<char>> {
    Seq::new(s.len(), |i: int| s[i]@)
}

fn label(name: &str, value: &str) -> (r: String)
    ensures
        r@ == name@ + value@,
{
    let mut s = name.to_owned();
    s.append(value);
    s
}

fn label_hex(name: &str, value: u16) -> (r: String)
    ensures
        r@ == name@ + "0x"@ + hex(value as nat, 4, true),
{
    let mut s = name.to_owned();
    s.append("0x");
    push_hex(&mut s, value as u64, 4, true);
    s
}

fn label_dec(name: &str, value: u16) -> (r: String)
    ensures
        r@ == name@ + dec(value as nat),
{
    let mut s = name.to_owned();
    push_dec(&mut s, value as u128);
    s
}

fn ip_or_empty(ip: &[u8; 4]) -> (r: String)
    ensures
        r@ == ip_text(ip@),
{
    match s2ip(ip.as_slice()) {
        Ok(s) => s,
        Err(_) => String::new(),
    }
}

/// Texts with a separator between them.
pub open spec fn joined(s: Seq<Seq<char>>, separator: Seq<char>) -> Seq<char>
    decreases s.len(),
{
    if s.len() == 0 {
        Seq::empty()
    } else if s.len() == 1 {
        s[0]
    } else {
        joined(s.drop_last(), separator) + separator + s.last()
    }
}

/// The description of a device.
pub open spec fn device_description(d: DcpDevice, vendor_name: Seq<char>) -> Seq<Seq<char>> {
    seq!["PROFINET Device: "@ + d.name@, "  MAC:     "@ + mac_text(d.mac@)] + (
    if d.device_type@.len() > 0 {
        seq!["  Type:    "@ + d.device_type@]
    } else {
        Seq::empty()
    }) + seq![
        "  IP:      "@ + ip_text(d.ip@),
        "  Netmask: "@ + ip_text(d.netmask@),
        "  Gateway: "@ + ip_text(d.gateway@),
        "  Vendor:  "@ + vendor_name + " (0x"@ + hex(d.vendor_id as nat, 4, true) + ")"@,
        "  Device:  "@ + "0x"@ + hex(d.device_id as nat, 4, true),
    ] + (if role_names(d.role).len() > 0 {
        seq!["  Role:    "@ + joined(role_names(d.role), ", "@)]
    } else {
        Seq::empty()
    })
}

fn join_roles(roles: &Vec<&'static str>) -> (r: String)
    ensures
        r@ == joined(texts(roles@), ", "@),
{
    let ghost t = texts(roles@);
    let mut s = String::new();
    assert(s@ =~= joined(t.take(0), ", "@));
    let mut i: usize = 0;
    while i < roles.len()
        invariant
            i <= roles@.len(),
            t == texts(roles@),
            s@ == joined(t.take(i as int), ", "@),
        decreases roles@.len() - i,
    {
        assert(t.take(i + 1).drop_last() =~= t.take(i as int));
        if i > 0 {
            s.append(", ");
        }
        let ghost before = s@;
        s.append(roles[i]);
        if i == 0 {
            assert(t.take(0) =~= Seq::<Seq<char>>::empty());
            assert(s@ =~= t[0]);
        }
        i = i + 1;
    }
    assert(t.take(i as int) =~= t);
    s
}

/// The description of a discovered device, line by line.
pub fn device_lines(d: &DcpDevice, vendor_name: &str) -> (r: Vec<String>)
    ensures
        shown(r@) == device_description(*d, vendor_name@),
{
    let mut out: Vec<String> = Vec::new();
    out.push(label("PROFINET Device: ", d.name.as_str()));
    out.push(label("  MAC:     ", mac2s(&d.mac).as_str()));
    let has_type = chars_of(d.device_type.as_str()).len() > 0;
    if has_type {
        out.push(label("  Type:    ", d.device_type.as_str()));
    }
    out.push(label("  IP:      ", ip_or_empty(&d.ip).as_str()));
    out.push(label("  Netmask: ", ip_or_empty(&d.netmask).as_str()));
    out.push(label("  Gateway: ", ip_or_empty(&d.gateway).as_str()));
    let mut vendor = label("  Vendor:  ", vendor_name);
    vendor.append(" (0x");
    push_hex(&mut vendor, d.vendor_id as u64, 4, true);
    vendor.append(")");
    out.push(vendor);
    out.push(label_hex("  Device:  ", d.device_id));
    let roles = decode_device_role(d.role);
    assert(role_names(d.role).len() == roles@.len());
    if roles.len() > 0 {
        out.push(label("  Role:    ", join_roles(&roles).as_str()));
    }
    assert(shown(out@) =~= device_description(*d, vendor_name@));
    out
}

/// The printout of an I&M0 record.
pub fn im0_lines(im0: &InM0, vendor_name: &str) -> (r: Vec<String>)
    ensures
        shown(r@) == seq![
            "IM0 (identification):"@,
            "  Vendor ID:         0x"@ + hex(
                (im0.vendor_id_high * 0x100 + im0.vendor_id_low) as nat,
                4,
                true,
            ) + " ("@ + vendor_name@ + ")"@,
            "  Order ID:          "@ + decoded(im0.order_id@),
            "  Serial number:     "@ + decoded(im0.im_serial_number@),
            "  Hardware revision: "@ + dec(im0.im_hardware_revision as nat),
            "  Software revision: "@ + revision_text(
                im0.sw_revision_prefix,
                im0.im_sw_revision_functional_enhancement,
                im0.im_sw_revision_bug_fix,
                im0.im_sw_revision_internal_change,
            ),
            "  Revision counter:  "@ + dec(im0.im_revision_counter as nat),
            "  Profile ID:        "@ + "0x"@ + hex(im0.im_profile_id as nat, 4, true),
            "  IM supported:      "@ + "0x"@ + hex(im0.im_supported as nat, 4, true),
        ],
{
    let mut out: Vec<String> = Vec::new();
    out.push("IM0 (identification):".to_owned());
    let mut vendor = "  Vendor ID:         0x".to_owned();
    push_hex(&mut vendor, im0.vendor_id() as u64, 4, true);
    vendor.append(" (");
    vendor.append(vendor_name);
    vendor.append(")");
    out.push(vendor);
    out.push(label("  Order ID:          ", im0.order_id_str().as_str()));
    out.push(label("  Serial number:     ", im0.serial_number_str().as_str()));
    out.push(label_dec("  Hardware revision: ", im0.im_hardware_revision));
    out.push(label("  Software revision: ", im0.software_revision().as_str()));
    out.push(label_dec("  Revision counter:  ", im0.im_revision_counter));
    out.push(label_hex("  Profile ID:        ", im0.im_profile_id));
    out.push(label_hex("  IM supported:      ", im0.im_supported));
    assert(shown(out@) =~= seq![
        "IM0 (identification):"@,
        "  Vendor ID:         0x"@ + hex(
            (im0.vendor_id_high * 0x100 + im0.vendor_id_low) as nat,
            4,
            true,
        ) + " ("@ + vendor_name@ + ")"@,
        "  Order ID:          "@ + decoded(im0.order_id@),
        "  Serial number:     "@ + decoded(im0.im_serial_number@),
        "  Hardware revision: "@ + dec(im0.im_hardware_revision as nat),
        "  Software revision: "@ + revision_text(
            im0.sw_revision_prefix,
            im0.im_sw_revision_functional_enhancement,
            im0.im_sw_revision_bug_fix,
            im0.im_sw_revision_internal_change,
        ),
        "  Revision counter:  "@ + dec(im0.im_revision_counter as nat),
        "  Profile ID:        "@ + "0x"@ + hex(im0.im_profile_id as nat, 4, true),
        "  IM supported:      "@ + "0x"@ + hex(im0.im_supported as nat, 4, true),
    ]);
    out
}

/// The printout of an I&M1 record.
pub fn im1_lines(im1: &InM1) -> (r: Vec<String>)
    ensures
        shown(r@) == seq![
            "IM1 (tag):"@,
            "  Tag function:      "@ + decoded(im1.im_tag_function@),
            "  Tag location:      "@ + decoded(im1.im_tag_location@),
        ],
{
    let mut out: Vec<String> = Vec::new();
    out.push("IM1 (tag):".to_owned());
    out.push(label("  Tag function:      ", im1.tag_function_str().as_str()));
    out.push(label("  Tag location:      ", im1.tag_location_str().as_str()));
    assert(shown(out@) =~= seq![
        "IM1 (tag):"@,
        "  Tag function:      "@ + decoded(im1.im_tag_function@),
        "  Tag location:      "@ + decoded(im1.im_tag_location@),
    ]);
    out
}

/// The printout of an I&M2 record.
pub fn im2_lines(im2: &InM2) -> (r: Vec<String>)
    ensures
        shown(r@) == seq![
            "IM2 (date):"@,
            "  Installation date: "@ + decoded(im2.im_date@),
        ],
{
    let mut out: Vec<String> = Vec::new();
    out.push("IM2 (date):".to_owned());
    out.push(label("  Installation date: ", im2.date_str().as_str()));
    assert(shown(out@) =~= seq![
        "IM2 (date):"@,
        "  Installation date: "@ + decoded(im2.im_date@),
    ]);
    out
}

/// The printout of an I&M3 record.
pub fn im3_lines(im3: &InM3) -> (r: Vec<String>)
    ensures
        shown(r@) == seq![
            "IM3 (descriptor):"@,
            "  Descriptor:        "@ + decoded(im3.im_descriptor@),
        ],
{
    let mut out: Vec<String> = Vec::new();
    out.push("IM3 (descriptor):".to_owned());
    out.push(label("  Descriptor:        ", im3.descriptor_str().as_str()));
    assert(shown(out@) =~= seq![
        "IM3 (descriptor):"@,
        "  Descriptor:        "@ + decoded(im3.im_descriptor@),
    ]);
    out
}

/// The printout of a record that was read.
pub fn read_lines(data: &[u8]) -> (r: Vec<String>)
    ensures
        shown(r@) == seq!["Read "@ + dec(data@.len()) + " bytes:"@, hex_text(data@)],
{
    let mut out: Vec<String> = Vec::new();
    let mut first = "Read ".to_owned();
    push_dec(&mut first, data.len() as u128);
    first.append(" bytes:");
    out.push(first);
    out.push(hex_encode(data));
    assert(shown(out@) =~= seq!["Read "@ + dec(data@.len()) + " bytes:"@, hex_text(data@)]);
    out
}

/// The printout of a record that was written.
pub fn write_line(len: usize, slot: u16, subslot: u16, index: u16) -> (r: String)
    ensures
        r@ == "Wrote "@ + dec(len as nat) + " bytes to slot="@ + dec(slot as nat) + " subslot="@
            + dec(subslot as nat) + " index=0x"@ + hex(index as nat, 4, true),
{
    let mut s = "Wrote ".to_owned();
    push_dec(&mut s, len as u128);
    s.append(" bytes to slot=");
    push_dec(&mut s, slot as u128);
    s.append(" subslot=");
    push_dec(&mut s, subslot as u128);
    s.append(" index=0x");
    push_hex(&mut s, index as u64, 4, true);
    s
}

/// The message for an I&M record that the device does not have.
pub fn no_im_line(number: u16) -> (r: String)
    ensures
        r@ == "No IM"@ + dec(number as nat) + " data available"@,
{
    let mut s = "No IM".to_owned();
    push_dec(&mut s, number as u128);
    s.append(" data available");
    s
}

/// A slot in the printout of a topology.
pub fn topology_slot_line(slot: u16, module_id: u32) -> (r: String)
    ensures
        r@ == "  Slot "@ + dec(slot as nat) + ": Module 0x"@ + wide_hex(module_id as nat),
{
    let mut s = "  Slot ".to_owned();
    push_dec(&mut s, slot as u128);
    s.append(": Module 0x");
    push_wide_hex(&mut s, module_id);
    s
}

/// A subslot in the printout of a topology.
pub fn topology_subslot_line(subslot: u16, submodule_id: u32) -> (r: String)
    ensures
        r@ == "    Subslot "@ + dec(subslot as nat) + ": Submodule 0x"@ + wide_hex(
            submodule_id as nat,
        ),
{
    let mut s = "    Subslot ".to_owned();
    push_dec(&mut s, subslot as u128);
    s.append(": Submodule 0x");
    push_wide_hex(&mut s, submodule_id);
    s
}

/// A number in upper-case hexadecimal, with at least four digits.
pub open spec fn wide_hex(n: nat) -> Seq<char> {
    hex(
        n,
        if hex_digits(n) > 4 {
            hex_digits(n)
        } else {
            4
        },
        true,
    )
}

fn push_wide_hex(s: &mut String, n: u32)
    ensures
        final(s)@ == old(s)@ + wide_hex(n as nat),
{
    proof {
        reveal_with_fuel(hex_digits, 9);
    }
    let width: usize = if n < 0x10000 {
        4
    } else if n < 0x10_0000 {
        5
    } else if n < 0x100_0000 {
        6
    } else if n < 0x1000_0000 {
        7
    } else {
        8
    };
    push_hex(s, n as u64, width, true);
}

/// What a submodule exchanges: "4B in, 2B out".
pub open spec fn exchange_text(s: IoSlot) -> Seq<char> {
    (if s.input_length > 0 {
        dec(s.input_length as nat) + "B in"@
    } else {
        Seq::empty()
    }) + (if s.input_length > 0 && s.output_length > 0 {
        ", "@
    } else {
        Seq::empty()
    }) + (if s.output_length > 0 {
        dec(s.output_length as nat) + "B out"@
    } else {
        Seq::empty()
    })
}

/// The printout of a submodule that exchanges data; none for others.
pub fn io_slot_line(s: &IoSlot) -> (r: Option<String>)
    ensures
        if s.input_length > 0 || s.output_length > 0 {
            r matches Some(l) && l@ == "  slot="@ + dec(s.slot as nat) + " sub="@ + dec(
                s.subslot as nat,
            ) + ": "@ + exchange_text(*s)
        } else {
            r is None
        },
{
    if s.input_length == 0 && s.output_length == 0 {
        return None;
    }
    let mut l = "  slot=".to_owned();
    push_dec(&mut l, s.slot as u128);
    l.append(" sub=");
    push_dec(&mut l, s.subslot as u128);
    l.append(": ");
    let ghost head = l@;
    let mut parts = String::new();
    if s.input_length > 0 {
        push_dec(&mut parts, s.input_length as u128);
        parts.append("B in");
    }
    if s.input_length > 0 && s.output_length > 0 {
        parts.append(", ");
    }
    if s.output_length > 0 {
        push_dec(&mut parts, s.output_length as u128);
        parts.append("B out");
    }
    assert(parts@ =~= exchange_text(*s));
    l.append(parts.as_str());
    Some(l)
}

/// The input bytes of the first `n` submodules.
pub open spec fn total_input(s: Seq<IoSlot>, n: int) -> nat
    decreases n,
{
    if n <= 0 {
        0
    } else {
        total_input(s, n - 1) + s[n - 1].input_length as nat
    }
}

/// The output bytes of the first `n` submodules.
pub open spec fn total_output(s: Seq<IoSlot>, n: int) -> nat
    decreases n,
{
    if n <= 0 {
        0
    } else {
        total_output(s, n - 1) + s[n - 1].output_length as nat
    }
}

/// How much data all submodules exchange.
pub fn total_line(s: &[IoSlot]) -> (r: String)
    ensures
        r@ == "Total: "@ + dec(total_input(s@, s@.len() as int)) + "B input, "@ + dec(
            total_output(s@, s@.len() as int),
        ) + "B output"@,
{
    let mut total_in: u128 = 0;
    let mut total_out: u128 = 0;
    let n: usize = s.len();
    let mut i: usize = 0;
    while i < n
        invariant
            i <= n == s@.len(),
            total_in == total_input(s@, i as int),
            total_out == total_output(s@, i as int),
            total_in <= i * 0xFFFF_FFFF_FFFF_FFFF,
            total_out <= i * 0xFFFF_FFFF_FFFF_FFFF,
        decreases n - i,
    {
        assert((i + 1) * 0xFFFF_FFFF_FFFF_FFFF <= 0xFFFF_FFFF_FFFF_FFFF * 0xFFFF_FFFF_FFFF_FFFF)
            by (nonlinear_arith)
            requires
                0 <= i < 0xFFFF_FFFF_FFFF_FFFF,
        ;
        total_in = total_in + s[i].input_length as u128;
        total_out = total_out + s[i].output_length as u128;
        i = i + 1;
    }
    let mut t = "Total: ".to_owned();
    push_dec(&mut t, total_in);
    t.append("B input, ");
    push_dec(&mut t, total_out);
    t.append("B output");
    t
}

/// How many colons a text has.
pub open spec fn colons(s: Seq<char>) -> nat
    decreases s.len(),
{
    if s.len() == 0 {
        0
    } else {
        colons(s.drop_last()) + if s.last() == ':' {
            1nat
        } else {
            0
        }
    }
}

/// Check a submodule override: slot, subslot and submodule id with colons
/// between them.
pub fn check_submodule(spec: &str) -> (r: Result<(), String>)
    ensures
        r is Ok <==> colons(spec@) == 2,
        r matches Err(e) ==> e@ == "invalid --submodule format '"@ + spec@
            + "', expected slot:subslot:submodule_id"@,
{
    let cs = chars_of(spec);
    let mut n: usize = 0;
    let mut i: usize = 0;
    assert(cs@.take(0) =~= Seq::<char>::empty());
    while i < cs.len()
        invariant
            n <= i <= cs@.len(),
            n == colons(cs@.take(i as int)),
        decreases cs@.len() - i,
    {
        assert(cs@.take(i + 1).drop_last() =~= cs@.take(i as int));
        if cs[i] == ':' {
            n = n + 1;
        }
        i = i + 1;
    }
    assert(cs@.take(i as int) =~= cs@);
    if n == 2 {
        Ok(())
    } else {
        let mut e = "invalid --submodule format '".to_owned();
        e.append(spec);
        e.append("', expected slot:subslot:submodule_id");
        Err(e)
    }
}

/// The input of a submodule in the printout of a running exchange.
pub fn input_part(slot: u16, subslot: u16, data: Option<&[u8]>) -> (r: String)
    ensures
        r@ == dec(slot as nat) + ":"@ + dec(subslot as nat) + "="@ + match data {
            Some(d) => if d@.len() > 0 {
                hex_text(d@)
            } else {
                "--"@
            },
            None => "--"@,
        },
{
    let mut s = String::new();
    push_dec(&mut s, slot as u128);
    s.append(":");
    push_dec(&mut s, subslot as u128);
    s.append("=");
    assert(s@ =~= dec(slot as nat) + ":"@ + dec(subslot as nat) + "="@);
    match data {
        Some(d) => {
            if d.len() > 0 {
                let text = hex_encode(d);
                s.append(text.as_str());
            } else {
                s.append("--");
            }
        },
        None => {
            s.append("--");
        },
    }
    s
}

} // verus!
