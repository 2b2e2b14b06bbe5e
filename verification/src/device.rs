//! High-level device access: discovery by name, MAC or IP address, a managed
//! RPC connection that is opened on first use, record access, identification
//! and maintenance records, diagnosis and topology.
//!
//! The API number is 0 for every record. The station name announced in connect
//! requests is "tp".

use vstd::prelude::*;
use vstd::slice::*;
use vstd::string::*;
use std::collections::{BTreeMap, VecDeque};
use crate::alarms::{parse_alarm_notification, AlarmNotification};
use crate::blocks::{block_header, block_header_bytes, WriteMultipleResult};
use crate::bytes::{be16_at, be16_placed, bytes_outcome, push_all};
use crate::connection::{
    conn_all_diagnosis, conn_connect_access, conn_diagnosis, conn_read, conn_release, conn_write,
    conn_write_multiple, diagnosis_map, is_bytes, is_done, is_im0, is_im1, is_im2, is_im3, is_slots,
    is_topology, ConnModel, NetModel, RpcConn, RpcTransport,
};
use crate::dcp::{DcpDevice, DcpInfo};
use crate::diagnosis::DiagnosisData;
use crate::epm::{endpoint_models, EpmEndpoint, EpmModel};
use crate::gsdml::DeviceSlot;
use crate::im;
use crate::im::{decoded, revision_text, InM0, InM1, InM2, InM3, PdRealData};
use crate::pcap::{
    device_index, device_models, first_mac, first_v4, get_ipv4, get_mac, last_error,
    InterfaceDevice, MacAnswer,
};
use crate::random::random_bytes;
use crate::rpc::{object_uuid_bytes, object_uuids_name_the_device};
use crate::text::{
    ascii_lower, begins_with, chars_of, debug_char, debug_char_text, debug_string, debug_text, dec,
    digit_char, is_white, lower_char, push_dec, str_eq, string_of, to_ascii_lower, trim_str,
    trimmed, trimmed_start,
};
use crate::transport::READ_LENGTH;
use crate::util::{
    ip_text, is_mac_text, mac2s, mac_of_text, mac_text, mac_text_round_trip, s2ip, s2mac,
};

verus! {

/// A character of a MAC address with any separator turned into a colon.
pub open spec fn colon_char(c: char) -> char {
    if c == '-' || c == '.' {
        ':'
    } else {
        c
    }
}

/// A text without surrounding white space, in lower case, and with every `-`
/// and `.` turned into a colon.
pub open spec fn mac_candidate(s: Seq<char>) -> Seq<char> {
    ascii_lower(trimmed(s)).map_values(|c: char| colon_char(c))
}

/// Parse a MAC address, None if invalid: tolerates `-` and `.` separators,
/// mixed case and surrounding white space.
pub fn parse_mac_flexible(s: &str) -> (r: Option<[u8; 6]>)
    ensures
        r is Some <==> is_mac_text(mac_candidate(s@)),
        r matches Some(mac) ==> mac@ == mac_of_text(mac_candidate(s@)),
{
    let trimmed_text = trim_str(s);
    let lower = to_ascii_lower(trimmed_text.as_str());
    let mut cs = chars_of(lower.as_str());
    let ghost before = cs@;
    let mut i: usize = 0;
    while i < cs.len()
        invariant
            i <= cs@.len() == before.len(),
            forall|j: int| 0 <= j < i ==> cs@[j] == colon_char(before[j]),
            forall|j: int| i <= j < cs@.len() ==> cs@[j] == before[j],
        decreases cs@.len() - i,
    {
        if cs[i] == '-' || cs[i] == '.' {
            cs.set(i, ':');
        }
        i = i + 1;
    }
    let normalized = string_of(cs.as_slice());
    assert(normalized@ =~= mac_candidate(s@));
    match s2mac(normalized.as_str()) {
        Ok(mac) => Some(mac),
        Err(_) => None,
    }
}

/// The first of some devices that has a property, from `from` on.
pub open spec fn first_device(s: Seq<DcpInfo>, f: spec_fn(DcpInfo) -> bool, from: int) -> Option<
    DcpInfo,
>
    decreases s.len() - from,
{
    if from >= s.len() {
        None
    } else if f(s[from]) {
        Some(s[from])
    } else {
        first_device(s, f, from + 1)
    }
}

/// The device with the given name.
pub open spec fn named(s: Seq<DcpInfo>, name: Seq<char>) -> Option<DcpInfo> {
    first_device(s, |d: DcpInfo| d.name == name, 0)
}

/// The device that an identifier means: a MAC address where it can be read as
/// one, else a station name.
pub open spec fn identified(s: Seq<DcpInfo>, identifier: Seq<char>) -> Option<DcpInfo> {
    if is_mac_text(mac_candidate(identifier)) {
        let mac = mac_of_text(mac_candidate(identifier));
        first_device(s, |d: DcpInfo| d.mac == mac, 0)
    } else {
        named(s, identifier)
    }
}

/// The device at the given address.
pub open spec fn located(s: Seq<DcpInfo>, ip: Seq<char>) -> Option<DcpInfo> {
    first_device(s, |d: DcpInfo| ip_text(d.ip) == ip, 0)
}

/// A device is the one foretold.
pub open spec fn is_device(r: Option<DcpDevice>, m: Option<DcpInfo>) -> bool {
    match m {
        Some(d) => r matches Some(v) && v@ == d,
        None => r is None,
    }
}

/// A copy of a discovery result.
pub fn copy_device(d: &DcpDevice) -> (r: DcpDevice)
    ensures
        r@ == d@,
{
    DcpDevice {
        mac: d.mac,
        name: d.name.as_str().to_owned(),
        device_type: d.device_type.as_str().to_owned(),
        ip: d.ip,
        netmask: d.netmask,
        gateway: d.gateway,
        vendor_id: d.vendor_id,
        device_id: d.device_id,
        role: d.role,
    }
}

/// Whether two MAC addresses are equal.
fn same_mac(a: &[u8; 6], b: &[u8; 6]) -> (r: bool)
    ensures
        r == (a@ == b@),
{
    let r = a[0] == b[0] && a[1] == b[1] && a[2] == b[2] && a[3] == b[3] && a[4] == b[4] && a[5]
        == b[5];
    assert(r ==> a@ =~= b@);
    r
}

/// Select a discovered device by station name.
pub fn find_by_name(devices: &[DcpDevice], name: &str) -> (r: Option<DcpDevice>)
    ensures
        is_device(r, named(device_models(devices@), name@)),
{
    let ghost f = |d: DcpInfo| d.name == name@;
    let ghost s = device_models(devices@);
    let mut i: usize = 0;
    while i < devices.len()
        invariant
            i <= devices@.len(),
            s == device_models(devices@),
            f == (|d: DcpInfo| d.name == name@),
            first_device(s, f, i as int) == first_device(s, f, 0),
        decreases devices@.len() - i,
    {
        if str_eq(devices[i].name.as_str(), name) {
            assert(f(s[i as int]));
            return Some(copy_device(&devices[i]));
        }
        assert(!f(s[i as int]));
        i = i + 1;
    }
    None
}

/// Select a discovered device by MAC address.
fn find_by_mac(devices: &[DcpDevice], mac: &[u8; 6]) -> (r: Option<DcpDevice>)
    ensures
        is_device(r, first_device(device_models(devices@), |d: DcpInfo| d.mac == mac@, 0)),
{
    let ghost f = |d: DcpInfo| d.mac == mac@;
    let ghost s = device_models(devices@);
    let mut i: usize = 0;
    while i < devices.len()
        invariant
            i <= devices@.len(),
            s == device_models(devices@),
            f == (|d: DcpInfo| d.mac == mac@),
            first_device(s, f, i as int) == first_device(s, f, 0),
        decreases devices@.len() - i,
    {
        if same_mac(&devices[i].mac, mac) {
            assert(f(s[i as int]));
            return Some(copy_device(&devices[i]));
        }
        assert(!f(s[i as int]));
        i = i + 1;
    }
    None
}

/// Select a discovered device by station name or MAC address. The identifier is
/// treated as a MAC address when it parses as one, otherwise as a station name.
pub fn find_by_identifier(devices: &[DcpDevice], identifier: &str) -> (r: Option<DcpDevice>)
    ensures
        is_device(r, identified(device_models(devices@), identifier@)),
{
    match parse_mac_flexible(identifier) {
        Some(mac) => find_by_mac(devices, &mac),
        None => find_by_name(devices, identifier),
    }
}

/// Select a discovered device by the text of its IP address.
pub fn find_by_ip(devices: &[DcpDevice], ip: &str) -> (r: Option<DcpDevice>)
    ensures
        is_device(r, located(device_models(devices@), ip@)),
{
    let ghost f = |d: DcpInfo| ip_text(d.ip) == ip@;
    let ghost s = device_models(devices@);
    let mut i: usize = 0;
    while i < devices.len()
        invariant
            i <= devices@.len(),
            s == device_models(devices@),
            f == (|d: DcpInfo| ip_text(d.ip) == ip@),
            first_device(s, f, i as int) == first_device(s, f, 0),
        decreases devices@.len() - i,
    {
        let found = match s2ip(devices[i].ip.as_slice()) {
            Ok(text) => str_eq(text.as_str(), ip),
            Err(_) => false,
        };
        if found {
            assert(f(s[i as int]));
            return Some(copy_device(&devices[i]));
        }
        assert(!f(s[i as int]));
        i = i + 1;
    }
    None
}

/// What a search finds has the property and stands in the list, and a search
/// finds something wherever the list holds it.
pub proof fn search_is_sound(s: Seq<DcpInfo>, f: spec_fn(DcpInfo) -> bool, from: int)
    requires
        0 <= from <= s.len(),
    ensures
        first_device(s, f, from) matches Some(d) ==> f(d) && s.contains(d),
        first_device(s, f, from) is None ==> forall|i: int| from <= i < s.len() ==> !f(#[trigger] s[i]),
    decreases s.len() - from,
{
    if from < s.len() {
        search_is_sound(s, f, from + 1);
    }
}

/// The first character behind `from` that Latin-1 does not have.
pub open spec fn first_wide(s: Seq<char>, from: int) -> Option<char>
    decreases s.len() - from,
{
    if from >= s.len() {
        None
    } else if s[from] as u32 > 0xFF {
        Some(s[from])
    } else {
        first_wide(s, from + 1)
    }
}

/// A text in Latin-1, padded with spaces to `width`, or why it does not fit
/// the field `what`.
pub open spec fn latin1(s: Seq<char>, width: nat, what: Seq<char>) -> Result<Seq<u8>, Seq<char>> {
    if s.len() > width {
        Err(what + " exceeds "@ + dec(width) + " character limit"@)
    } else {
        match first_wide(s, 0) {
            Some(c) => Err(what + " contains non-Latin-1 character "@ + debug_char_text(c)),
            None => Ok(
                Seq::new(
                    width,
                    |i: int|
                        if i < s.len() {
                            (s[i] as u32) as u8
                        } else {
                            0x20
                        },
                ),
            ),
        }
    }
}

/// Encode a text field as Latin-1, padded with spaces to `width`.
fn latin1_field(s: &str, width: usize, what: &str) -> (r: Result<Vec<u8>, String>)
    ensures
        is_bytes(r, latin1(s@, width as nat, what@)),
{
    let cs = chars_of(s);
    if cs.len() > width {
        let mut e = what.to_owned();
        e.append(" exceeds ");
        push_dec(&mut e, width as u128);
        e.append(" character limit");
        return Err(e);
    }
    let mut out: Vec<u8> = Vec::new();
    let mut i: usize = 0;
    while i < width
        invariant
            i <= width,
            cs@ == s@,
            cs@.len() <= width,
            out@.len() == i,
            i <= cs@.len() ==> first_wide(s@, i as int) == first_wide(s@, 0),
            i > cs@.len() ==> first_wide(s@, 0) is None,
            forall|j: int|
                0 <= j < i ==> #[trigger] out@[j] == if j < s@.len() {
                    (s@[j] as u32) as u8
                } else {
                    0x20
                },
        decreases width - i,
    {
        if i < cs.len() {
            let code: u32 = cs[i] as u32;
            if code > 0xFF {
                let mut e = what.to_owned();
                e.append(" contains non-Latin-1 character ");
                let shown = debug_char(cs[i]);
                e.append(shown.as_str());
                return Err(e);
            }
            out.push(code as u8);
        } else {
            out.push(0x20);
        }
        i = i + 1;
    }
    proof {
        if let Ok(want) = latin1(s@, width as nat, what@) {
            assert(out@ =~= want);
        }
    }
    Ok(out)
}

/// The I&M1 record: block header (type 0x0021, length 58, version 1.0), 2 bytes
/// of padding, tag function (32) and tag location (22), 62 bytes.
pub open spec fn im1_bytes(tag_function: Seq<char>, tag_location: Seq<char>) -> Result<Seq<u8>, Seq<char>> {
    match latin1(tag_function, 32, "tag_function"@) { Err(e) => Err(e), Ok(b0) => match latin1(tag_location, 22, "tag_location"@) { Err(e) => Err(e), Ok(b1) => Ok(block_header_bytes(0x0021, 58, 1, 0) + seq![0u8, 0u8] + b0 + b1) } }
}

/// The I&M1 record: block header (type 0x0021, length 58, version 1.0), 2 bytes
/// of padding, tag function (32) and tag location (22), 62 bytes.
pub fn im1_record(tag_function: &str, tag_location: &str) -> (r: Result<Vec<u8>, String>)
    ensures
        is_bytes(r, im1_bytes(tag_function@, tag_location@)),
        r matches Ok(v) ==> v@.len() == 62,
{
    let mut data = block_header(im::BLOCK_IM1, 58, 1, 0);
    data.push(0);
    data.push(0);
    assert(data@ =~= block_header_bytes(0x0021, 58, 1, 0) + seq![0u8, 0u8]);
    match latin1_field(tag_function, 32, "tag_function") {
        Ok(b) => push_all(&mut data, b.as_slice()),
        Err(e) => {
            return Err(e);
        },
    }
    match latin1_field(tag_location, 22, "tag_location") {
        Ok(b) => push_all(&mut data, b.as_slice()),
        Err(e) => {
            return Err(e);
        },
    }
    Ok(data)
}

/// The I&M2 record: block header (type 0x0022, length 20, version 1.0), 2 bytes
/// of padding and the installation date (16), 24 bytes. The date reads
/// "YYYY-MM-DD HH:MM".
pub open spec fn im2_bytes(date: Seq<char>) -> Result<Seq<u8>, Seq<char>> {
    match latin1(date, 16, "date"@) { Err(e) => Err(e), Ok(b0) => Ok(block_header_bytes(0x0022, 20, 1, 0) + seq![0u8, 0u8] + b0) }
}

/// The I&M2 record: block header (type 0x0022, length 20, version 1.0), 2 bytes
/// of padding and the installation date (16), 24 bytes. The date reads
/// "YYYY-MM-DD HH:MM".
pub fn im2_record(date: &str) -> (r: Result<Vec<u8>, String>)
    ensures
        is_bytes(r, im2_bytes(date@)),
        r matches Ok(v) ==> v@.len() == 24,
{
    let mut data = block_header(im::BLOCK_IM2, 20, 1, 0);
    data.push(0);
    data.push(0);
    assert(data@ =~= block_header_bytes(0x0022, 20, 1, 0) + seq![0u8, 0u8]);
    match latin1_field(date, 16, "date") {
        Ok(b) => push_all(&mut data, b.as_slice()),
        Err(e) => {
            return Err(e);
        },
    }
    Ok(data)
}

/// The I&M3 record: block header (type 0x0023, length 58, version 1.0), 2 bytes
/// of padding and the descriptor (54), 62 bytes.
pub open spec fn im3_bytes(descriptor: Seq<char>) -> Result<Seq<u8>, Seq<char>> {
    match latin1(descriptor, 54, "descriptor"@) { Err(e) => Err(e), Ok(b0) => Ok(block_header_bytes(0x0023, 58, 1, 0) + seq![0u8, 0u8] + b0) }
}

/// The I&M3 record: block header (type 0x0023, length 58, version 1.0), 2 bytes
/// of padding and the descriptor (54), 62 bytes.
pub fn im3_record(descriptor: &str) -> (r: Result<Vec<u8>, String>)
    ensures
        is_bytes(r, im3_bytes(descriptor@)),
        r matches Ok(v) ==> v@.len() == 62,
{
    let mut data = block_header(im::BLOCK_IM3, 58, 1, 0);
    data.push(0);
    data.push(0);
    assert(data@ =~= block_header_bytes(0x0023, 58, 1, 0) + seq![0u8, 0u8]);
    match latin1_field(descriptor, 54, "descriptor") {
        Ok(b) => push_all(&mut data, b.as_slice()),
        Err(e) => {
            return Err(e);
        },
    }
    Ok(data)
}

/// A record payload as an alarm notification: None for payloads shorter than
/// the 28 bytes of the smallest one.
pub fn alarm_from_record(data: &[u8]) -> (r: Option<AlarmNotification>)
    ensures
        is_alarm(r, data@),
{
    if data.len() < 28 {
        return None;
    }
    match parse_alarm_notification(data) {
        Ok(n) => Some(n),
        Err(_) => None,
    }
}

/// The alarm in a record payload.
pub open spec fn is_alarm(r: Option<AlarmNotification>, data: Seq<u8>) -> bool {
    if data.len() < 28 {
        r is None
    } else {
        r matches Some(n) && n.read_from(data)
    }
}

/// Single write operation for [`ProfinetDevice::write_multiple`].
#[derive(Debug, Clone, PartialEq, Eq)]
pub struct WriteItem {
    pub slot: u16,
    pub subslot: u16,
    pub index: u16,
    pub data: Vec<u8>,
}

/// All I&M records that a device turned out to support.
#[derive(Debug, Clone, PartialEq, Eq)]
pub struct AllIm {
    pub im0: Option<InM0>,
    pub im1: Option<InM1>,
    pub im2: Option<InM2>,
    pub im3: Option<InM3>,
}

impl Default for AllIm {
    fn default() -> (r: AllIm)
        ensures
            r == (AllIm { im0: None, im1: None, im2: None, im3: None }),
    {
        AllIm { im0: None, im1: None, im2: None, im3: None }
    }
}

/// Complete device information: discovery data combined with I&M0
/// identification, the endpoint mapper's annotation and optionally the
/// physical topology.
#[derive(Debug, PartialEq, Eq, Default)]
pub struct DeviceInfo {
    pub name: String,
    pub ip: String,
    pub mac: String,
    pub vendor_id: u16,
    pub device_id: u16,
    pub device_type: String,
    pub netmask: String,
    pub gateway: String,
    /// Raw role byte.
    pub role: u8,
    pub vendor_name: String,
    pub im0: Option<InM0>,
    pub topology: Option<PdRealData>,
    /// Device model annotation of the endpoint mapper.
    pub annotation: String,
}

impl Clone for DeviceInfo {
    fn clone(&self) -> (r: DeviceInfo)
        ensures
            r.name@ == self.name@,
            r.ip@ == self.ip@,
            r.mac@ == self.mac@,
            r.vendor_id == self.vendor_id,
            r.device_id == self.device_id,
            r.device_type@ == self.device_type@,
            r.netmask@ == self.netmask@,
            r.gateway@ == self.gateway@,
            r.role == self.role,
            r.vendor_name@ == self.vendor_name@,
            r.im0 == self.im0,
            match self.topology {
                Some(t) => r.topology matches Some(v) && v@ == t@,
                None => r.topology is None,
            },
            r.annotation@ == self.annotation@,
    {
        DeviceInfo {
            name: self.name.as_str().to_owned(),
            ip: self.ip.as_str().to_owned(),
            mac: self.mac.as_str().to_owned(),
            vendor_id: self.vendor_id,
            device_id: self.device_id,
            device_type: self.device_type.as_str().to_owned(),
            netmask: self.netmask.as_str().to_owned(),
            gateway: self.gateway.as_str().to_owned(),
            role: self.role,
            vendor_name: self.vendor_name.as_str().to_owned(),
            im0: self.im0,
            topology: match &self.topology {
                Some(t) => Some(t.clone()),
                None => None,
            },
            annotation: self.annotation.as_str().to_owned(),
        }
    }
}

/// The annotation of the first endpoint that has one.
pub open spec fn first_annotation(s: Seq<EpmModel>, from: int) -> Option<Seq<char>>
    decreases s.len() - from,
{
    if from >= s.len() {
        None
    } else if s[from].annotation.len() > 0 {
        Some(s[from].annotation)
    } else {
        first_annotation(s, from + 1)
    }
}

/// The annotation that a lookup of endpoints gives: none where it failed.
pub open spec fn annotation_of(lookup: Result<Seq<EpmModel>, Seq<char>>) -> Seq<char> {
    match lookup {
        Ok(l) => match first_annotation(l, 0) {
            Some(a) => a,
            None => Seq::empty(),
        },
        Err(_) => Seq::empty(),
    }
}

impl DeviceInfo {
    /// The part that comes from discovery.
    pub open spec fn describes(self, d: DcpInfo, vendor_name: Seq<char>) -> bool {
        &&& self.name@ == d.name
        &&& self.ip@ == ip_text(d.ip)
        &&& self.mac@ == mac_text(d.mac)
        &&& self.vendor_id == d.vendor_id
        &&& self.device_id == d.device_id
        &&& self.device_type@ == d.device_type
        &&& self.netmask@ == ip_text(d.netmask)
        &&& self.gateway@ == ip_text(d.gateway)
        &&& self.role == d.role
        &&& self.vendor_name@ == vendor_name
    }

    /// The discovery part of the summary, before the optional reads.
    pub fn from_dcp(d: &DcpDevice, vendor_name: &str) -> (r: DeviceInfo)
        ensures
            r.describes(d@, vendor_name@),
            r.im0 is None,
            r.topology is None,
            r.annotation@ == Seq::<char>::empty(),
    {
        let annotation = String::new();
        assert(annotation@ =~= Seq::<char>::empty());
        DeviceInfo {
            name: d.name.as_str().to_owned(),
            ip: ip_or_empty(&d.ip),
            mac: mac2s(&d.mac),
            vendor_id: d.vendor_id,
            device_id: d.device_id,
            device_type: d.device_type.as_str().to_owned(),
            netmask: ip_or_empty(&d.netmask),
            gateway: ip_or_empty(&d.gateway),
            role: d.role,
            vendor_name: vendor_name.to_owned(),
            im0: None,
            topology: None,
            annotation,
        }
    }

    /// Take over the annotation of the first endpoint that has one.
    pub fn annotate(&mut self, endpoints: &[EpmEndpoint])
        ensures
            final(self).annotation@ == match first_annotation(endpoint_models(endpoints@), 0) {
                Some(a) => a,
                None => old(self).annotation@,
            },
            final(self).same_but_annotation(*old(self)),
    {
        let ghost s = endpoint_models(endpoints@);
        let mut i: usize = 0;
        while i < endpoints.len()
            invariant
                i <= endpoints@.len(),
                s == endpoint_models(endpoints@),
                *self == *old(self),
                first_annotation(s, i as int) == first_annotation(s, 0),
            decreases endpoints@.len() - i,
        {
            let annotation = endpoints[i].annotation.as_str();
            assert(s[i as int].annotation == annotation@);
            proof {
                reveal_strlit("");
                assert(annotation@.len() == 0 ==> annotation@ =~= ""@);
            }
            if !str_eq(annotation, "") {
                self.annotation = annotation.to_owned();
                return;
            }
            i = i + 1;
        }
    }

    /// Everything but the annotation is equal.
    pub open spec fn same_but_annotation(self, other: DeviceInfo) -> bool {
        &&& self.name == other.name
        &&& self.ip == other.ip
        &&& self.mac == other.mac
        &&& self.vendor_id == other.vendor_id
        &&& self.device_id == other.device_id
        &&& self.device_type == other.device_type
        &&& self.netmask == other.netmask
        &&& self.gateway == other.gateway
        &&& self.role == other.role
        &&& self.vendor_name == other.vendor_name
        &&& self.im0 == other.im0
        &&& self.topology == other.topology
    }

    /// Serial number from I&M0 if available.
    pub fn serial_number(&self) -> (r: String)
        ensures
            r@ == match self.im0 {
                Some(v) => trimmed(decoded(v.im_serial_number@)),
                None => Seq::empty(),
            },
    {
        match &self.im0 {
            Some(v) => trim_str(v.serial_number_str().as_str()),
            None => empty_string(),
        }
    }

    /// Order ID from I&M0 if available.
    pub fn order_id(&self) -> (r: String)
        ensures
            r@ == match self.im0 {
                Some(v) => trimmed(decoded(v.order_id@)),
                None => Seq::empty(),
            },
    {
        match &self.im0 {
            Some(v) => trim_str(v.order_id_str().as_str()),
            None => empty_string(),
        }
    }

    /// Hardware revision from I&M0 if available.
    pub fn hardware_revision(&self) -> (r: u16)
        ensures
            r == match self.im0 {
                Some(v) => v.im_hardware_revision,
                None => 0,
            },
    {
        match &self.im0 {
            Some(v) => v.im_hardware_revision,
            None => 0,
        }
    }

    /// Software revision from I&M0 if available, such as "V1.2.3".
    pub fn software_revision(&self) -> (r: String)
        ensures
            r@ == match self.im0 {
                Some(v) => revision_text(
                    v.sw_revision_prefix,
                    v.im_sw_revision_functional_enhancement,
                    v.im_sw_revision_bug_fix,
                    v.im_sw_revision_internal_change,
                ),
                None => Seq::empty(),
            },
    {
        match &self.im0 {
            Some(v) => v.software_revision(),
            None => empty_string(),
        }
    }
}

fn empty_string() -> (r: String)
    ensures
        r@ == Seq::<char>::empty(),
{
    let r = String::new();
    assert(r@ =~= Seq::<char>::empty());
    r
}

fn ip_or_empty(ip: &[u8; 4]) -> (r: String)
    ensures
        r@ == ip_text(ip@),
{
    match s2ip(ip.as_slice()) {
        Ok(s) => s,
        Err(_) => String::new(),
    }
}

/// What a lookup of the own addresses of an interface gives: its MAC and its
/// first IPv4 address.
pub open spec fn own_addresses(
    iface: Seq<char>,
    answers: Seq<MacAnswer>,
    adapters: Seq<InterfaceDevice>,
) -> Result<([u8; 6], [u8; 4]), Seq<char>> {
    match first_mac(answers, 0) {
        None => match last_error(answers, answers.len() as int) {
            Some(m) => Err("failed to get MAC address for "@ + debug_text(iface) + ": "@ + m),
            None => Err("no MAC address found for interface "@ + debug_text(iface)),
        },
        Some(mac) => match device_index(adapters, iface, 0) {
            None => Err("interface "@ + debug_text(iface) + " not found by pcap"@),
            Some(i) => match first_v4(adapters[i].addresses@, 0) {
                Some(ip) => Ok((mac, ip)),
                None => Err("no IPv4 address on interface "@ + debug_text(iface)),
            },
        },
    }
}

/// MAC and first IPv4 address of an interface, from the answers to its MAC
/// lookups and the list of capture interfaces.
fn look_up(interface: &str, answers: &[MacAnswer], adapters: &[InterfaceDevice]) -> (r: Result<
    ([u8; 6], [u8; 4]),
    String,
>)
    ensures
        match own_addresses(interface@, answers@, adapters@) {
            Ok(a) => r matches Ok(v) && v == a,
            Err(m) => r matches Err(e) && e@ == m,
        },
{
    let mac = match get_mac(interface, answers) {
        Ok(mac) => mac,
        Err(e) => {
            return Err(e);
        },
    };
    match get_ipv4(adapters, interface) {
        Ok(ip) => Ok((mac, ip)),
        Err(e) => Err(e),
    }
}

/// What a dialer is asked for.
pub enum Dial {
    /// A transport from the controller's addresses to the device's.
    Open {
        interface: Seq<char>,
        src_mac: Seq<u8>,
        src_ip: Seq<u8>,
        dst_mac: Seq<u8>,
        dst_ip: Seq<u8>,
    },
    /// The endpoints of the device's endpoint mapper.
    Endpoints {
        interface: Seq<char>,
        src_mac: Seq<u8>,
        src_ip: Seq<u8>,
        dst_mac: Seq<u8>,
        dst_ip: Seq<u8>,
        timeout_ms: u64,
    },
}

/// What a dialer was asked for and what it will give.
#[verifier::ext_equal]
pub struct DialModel {
    pub asked: Seq<Dial>,
    /// What the next transports are, each as it is handed over, or why there is
    /// none; behind them there is none.
    pub transports: Seq<Result<NetModel, Seq<char>>>,
    /// What the next lookups of endpoints give; behind them there are none.
    pub lookups: Seq<Result<Seq<EpmModel>, Seq<char>>>,
}

impl DialModel {
    /// What the next request for a transport gives.
    pub open spec fn next_transport(self) -> Result<NetModel, Seq<char>> {
        if self.transports.len() > 0 {
            self.transports[0]
        } else {
            Err("no transport"@)
        }
    }

    /// What the next lookup of endpoints gives.
    pub open spec fn next_lookup(self) -> Result<Seq<EpmModel>, Seq<char>> {
        if self.lookups.len() > 0 {
            self.lookups[0]
        } else {
            Ok(Seq::empty())
        }
    }

    /// After a request for a transport.
    pub open spec fn after_open(self, dial: Dial) -> DialModel {
        DialModel {
            asked: self.asked.push(dial),
            transports: if self.transports.len() > 0 {
                self.transports.skip(1)
            } else {
                self.transports
            },
            ..self
        }
    }

    /// After a lookup of endpoints.
    pub open spec fn after_lookup(self, dial: Dial) -> DialModel {
        DialModel {
            asked: self.asked.push(dial),
            lookups: if self.lookups.len() > 0 {
                self.lookups.skip(1)
            } else {
                self.lookups
            },
            ..self
        }
    }
}

/// What a device needs from the network besides an open connection.
pub trait Dialer<T: RpcTransport> {
    /// What the dialer was asked for and what it will give.
    spec fn model(&self) -> DialModel;

    /// Open a transport from the controller's addresses to the device's.
    fn open(
        &mut self,
        interface: &str,
        src_mac: [u8; 6],
        src_ip: [u8; 4],
        dst_mac: [u8; 6],
        dst_ip: [u8; 4],
    ) -> (r: Result<T, String>)
        ensures
            final(self).model() == old(self).model().after_open(
                Dial::Open {
                    interface: interface@,
                    src_mac: src_mac@,
                    src_ip: src_ip@,
                    dst_mac: dst_mac@,
                    dst_ip: dst_ip@,
                },
            ),
            match old(self).model().next_transport() {
                Ok(net) => r matches Ok(t) && t.model() == net,
                Err(m) => r matches Err(e) && e@ == m,
            },
    ;

    /// Ask the device's endpoint mapper for its endpoints.
    fn endpoints(
        &mut self,
        interface: &str,
        src_mac: [u8; 6],
        src_ip: [u8; 4],
        dst_mac: [u8; 6],
        dst_ip: [u8; 4],
        timeout_ms: u64,
    ) -> (r: Result<Vec<EpmEndpoint>, String>)
        ensures
            final(self).model() == old(self).model().after_lookup(
                Dial::Endpoints {
                    interface: interface@,
                    src_mac: src_mac@,
                    src_ip: src_ip@,
                    dst_mac: dst_mac@,
                    dst_ip: dst_ip@,
                    timeout_ms,
                },
            ),
            match old(self).model().next_lookup() {
                Ok(l) => r matches Ok(v) && endpoint_models(v@) == l,
                Err(m) => r matches Err(e) && e@ == m,
            },
    ;
}

/// A device: a discovery result and its RPC connection, which the first
/// operation opens.
pub struct ProfinetDevice<T: RpcTransport, D: Dialer<T>> {
    pub info: DcpDevice,
    pub interface: String,
    pub src_mac: [u8; 6],
    pub src_ip: [u8; 4],
    pub timeout_ms: u64,
    pub dialer: D,
    pub rpc: Option<RpcConn<T>>,
}

/// What a [`ProfinetDevice`] holds, as mathematical values.
#[verifier::ext_equal]
pub struct DevModel {
    pub info: DcpInfo,
    pub interface: Seq<char>,
    pub src_mac: Seq<u8>,
    pub src_ip: Seq<u8>,
    pub timeout_ms: u64,
    pub dialer: DialModel,
    pub conn: Option<ConnModel>,
}

impl DevModel {
    /// The device with another connection.
    pub open spec fn with_conn(self, c: ConnModel) -> DevModel {
        DevModel { conn: Some(c), ..self }
    }

    /// The dialer was asked for a transport to the device, where the device has
    /// no connection.
    pub open spec fn dialed(self) -> DevModel {
        if self.conn is Some {
            self
        } else {
            DevModel {
                dialer: self.dialer.after_open(
                    Dial::Open {
                        interface: self.interface,
                        src_mac: self.src_mac,
                        src_ip: self.src_ip,
                        dst_mac: self.info.mac,
                        dst_ip: self.info.ip,
                    },
                ),
                ..self
            }
        }
    }

    /// The dialer was asked for the endpoints of the device.
    pub open spec fn looked_up(self) -> DevModel {
        DevModel {
            dialer: self.dialer.after_lookup(
                Dial::Endpoints {
                    interface: self.interface,
                    src_mac: self.src_mac,
                    src_ip: self.src_ip,
                    dst_mac: self.info.mac,
                    dst_ip: self.info.ip,
                    timeout_ms: self.timeout_ms,
                },
            ),
            ..self
        }
    }

    /// The device without a connection.
    pub open spec fn offline(self) -> DevModel {
        DevModel { conn: None, ..self }
    }

    /// `k` more requests still have a sequence number.
    pub open spec fn can_send(self, k: nat) -> bool {
        self.conn matches Some(c) ==> c.sequence_number + k <= u32::MAX
    }
}

impl<T: RpcTransport, D: Dialer<T>> View for ProfinetDevice<T, D> {
    type V = DevModel;

    open spec fn view(&self) -> DevModel {
        DevModel {
            info: self.info@,
            interface: self.interface@,
            src_mac: self.src_mac@,
            src_ip: self.src_ip@,
            timeout_ms: self.timeout_ms,
            dialer: self.dialer.model(),
            conn: match self.rpc {
                Some(c) => Some(c@),
                None => None,
            },
        }
    }
}

/// The station name "tp".
pub open spec fn station_name() -> Seq<u8> {
    seq![0x74u8, 0x70u8]
}

/// A connection from 34 random bytes, on which nothing was sent yet.
pub open spec fn conn_of(d: DevModel, net: NetModel, rnd: Seq<u8>) -> ConnModel {
    ConnModel {
        net,
        object_uuid: object_uuid_bytes(d.info.device_id, d.info.vendor_id),
        activity_uuid: rnd.subrange(2, 18),
        ar_uuid: rnd.subrange(18, 34),
        session_key: if be16_at(rnd, 0) == 0 {
            1
        } else {
            be16_at(rnd, 0)
        },
        sequence_number: 0,
        timeout_ms: d.timeout_ms,
        input_frame_id: 0,
        output_frame_id: 0,
        connected: false,
    }
}

/// What the random source may give: 34 bytes, or a failure.
pub open spec fn is_draw(drawn: Result<Seq<u8>, Seq<char>>) -> bool {
    match drawn {
        Ok(rnd) => rnd.len() == 34,
        Err(m) => begins_with(m, "getrandom failed: "@),
    }
}

/// The message when no AR could be established with the device.
pub open spec fn connect_message(name: Seq<char>, m: Seq<char>) -> Seq<char> {
    "Failed to connect to "@ + name + ": "@ + m
}

/// What connecting a device leads to: with a connection, nothing; else the
/// dialer is asked for a transport, and a device access AR is established over
/// it, with the identity that the random bytes give.
pub open spec fn dev_connect(d: DevModel, drawn: Result<Seq<u8>, Seq<char>>) -> (
    DevModel,
    Result<(), Seq<char>>,
) {
    if d.conn is Some {
        (d, Ok(()))
    } else {
        match d.dialer.next_transport() {
            Err(m) => (d.dialed(), Err(m)),
            Ok(net) => match drawn {
                Err(m) => (d.dialed(), Err(m)),
                Ok(rnd) => match conn_connect_access(
                    conn_of(d, net, rnd),
                    d.src_mac,
                    station_name(),
                ) {
                    (c, Ok(_)) => (d.dialed().with_conn(c), Ok(())),
                    (_, Err(m)) => (d.dialed(), Err(connect_message(d.info.name, m))),
                },
            },
        }
    }
}

/// The connection that an operation on the device works on: the one it has, or
/// a new one over the transport that the dialer gives, on which a device access
/// AR was established.
pub open spec fn reaches(d: DevModel, c: ConnModel) -> bool {
    match d.conn {
        Some(have) => c == have,
        None => exists|drawn: Result<Seq<u8>, Seq<char>>| #[trigger]
            is_draw(drawn) && dev_connect(d, drawn) == (
                d.dialed().with_conn(c),
                Ok::<(), Seq<char>>(()),
            ),
    }
}

/// No connection was there, and none could be established, for the given
/// reason: the dialer's, the random source's, or the device's.
pub open spec fn unreachable_device(before: DevModel, after: DevModel, m: Seq<char>) -> bool {
    before.conn is None && exists|drawn: Result<Seq<u8>, Seq<char>>| #[trigger]
        is_draw(drawn) && dev_connect(before, drawn) == (after, Err::<(), Seq<char>>(m))
}

/// A new device without a connection.
pub open spec fn is_new_device<T: RpcTransport, D: Dialer<T>>(
    v: ProfinetDevice<T, D>,
    info: DcpInfo,
    interface: Seq<char>,
    addresses: ([u8; 6], [u8; 4]),
    timeout_ms: u64,
    dialer: D,
) -> bool {
    v.dialer == dialer && v@ == (DevModel {
        info,
        interface,
        src_mac: addresses.0@,
        src_ip: addresses.1@,
        timeout_ms,
        dialer: dialer.model(),
        conn: None,
    })
}

/// A device for the discovery result that was looked for: first it has to be
/// found, then the own addresses.
pub open spec fn is_found_device<T: RpcTransport, D: Dialer<T>>(
    r: Result<ProfinetDevice<T, D>, String>,
    found: Option<DcpInfo>,
    not_found: Seq<char>,
    interface: Seq<char>,
    addresses: Result<([u8; 6], [u8; 4]), Seq<char>>,
    timeout_ms: u64,
    dialer: D,
) -> bool {
    match found {
        None => r matches Err(e) && e@ == not_found,
        Some(info) => match addresses {
            Err(m) => r matches Err(e) && e@ == m,
            Ok(a) => r matches Ok(v) && is_new_device(v, info, interface, a, timeout_ms, dialer),
        },
    }
}

fn device_not_found(identifier: &str) -> (e: String)
    ensures
        e@ == "Device "@ + debug_text(identifier@) + " not found"@,
{
    let mut e = "Device ".to_owned();
    e.append(debug_string(identifier).as_str());
    e.append(" not found");
    e
}

/// Writes as [`RpcConn::write_multiple`] takes them.
pub open spec fn write_entries(s: Seq<WriteItem>) -> Seq<(u16, u16, u16, Seq<u8>)> {
    Seq::new(s.len(), |i: int| (s[i].index, s[i].slot, s[i].subslot, s[i].data@))
}

/// The entries of a multiple write with their data as sequences.
pub open spec fn entry_values(s: Seq<(u16, u16, u16, &[u8])>) -> Seq<(u16, u16, u16, Seq<u8>)> {
    Seq::new(s.len(), |i: int| (s[i].0, s[i].1, s[i].2, s[i].3@))
}

impl<T: RpcTransport, D: Dialer<T>> ProfinetDevice<T, D> {
    /// Wrap a discovery result with explicit controller addressing.
    pub fn new(
        info: DcpDevice,
        interface: &str,
        src_mac: [u8; 6],
        src_ip: [u8; 4],
        timeout_ms: u64,
        dialer: D,
    ) -> (r: ProfinetDevice<T, D>)
        ensures
            is_new_device(r, info@, interface@, (src_mac, src_ip), timeout_ms, dialer),
    {
        ProfinetDevice {
            info,
            interface: interface.to_owned(),
            src_mac,
            src_ip,
            timeout_ms,
            dialer,
            rpc: None,
        }
    }

    /// Create a device from a discovery result, with the controller's MAC and
    /// IPv4 addresses taken from the interface.
    pub fn from_dcp_info(
        info: DcpDevice,
        interface: &str,
        answers: &[MacAnswer],
        adapters: &[InterfaceDevice],
        timeout_ms: u64,
        dialer: D,
    ) -> (r: Result<ProfinetDevice<T, D>, String>)
        ensures
            match own_addresses(interface@, answers@, adapters@) {
                Err(m) => r matches Err(e) && e@ == m,
                Ok(a) => r matches Ok(v) && is_new_device(
                    v,
                    info@,
                    interface@,
                    a,
                    timeout_ms,
                    dialer,
                ),
            },
    {
        match look_up(interface, answers, adapters) {
            Ok((mac, ip)) => Ok(
                ProfinetDevice::new(info, interface, mac, ip, timeout_ms, dialer),
            ),
            Err(e) => Err(e),
        }
    }

    /// Create the device with a station name or MAC address from the devices
    /// that a discovery found.
    pub fn discover(
        devices: &[DcpDevice],
        identifier: &str,
        interface: &str,
        answers: &[MacAnswer],
        adapters: &[InterfaceDevice],
        timeout_ms: u64,
        dialer: D,
    ) -> (r: Result<ProfinetDevice<T, D>, String>)
        ensures
            is_found_device(
                r,
                identified(device_models(devices@), identifier@),
                "Device "@ + debug_text(identifier@) + " not found"@,
                interface@,
                own_addresses(interface@, answers@, adapters@),
                timeout_ms,
                dialer,
            ),
    {
        match find_by_identifier(devices, identifier) {
            Some(info) => ProfinetDevice::from_dcp_info(
                info,
                interface,
                answers,
                adapters,
                timeout_ms,
                dialer,
            ),
            None => Err(device_not_found(identifier)),
        }
    }

    /// Create the device with a station name; [`ProfinetDevice::discover`]
    /// restricted to names.
    pub fn from_name(
        devices: &[DcpDevice],
        name: &str,
        interface: &str,
        answers: &[MacAnswer],
        adapters: &[InterfaceDevice],
        timeout_ms: u64,
        dialer: D,
    ) -> (r: Result<ProfinetDevice<T, D>, String>)
        ensures
            is_found_device(
                r,
                named(device_models(devices@), name@),
                "Device "@ + debug_text(name@) + " not found"@,
                interface@,
                own_addresses(interface@, answers@, adapters@),
                timeout_ms,
                dialer,
            ),
    {
        match find_by_name(devices, name) {
            Some(info) => ProfinetDevice::from_dcp_info(
                info,
                interface,
                answers,
                adapters,
                timeout_ms,
                dialer,
            ),
            None => Err(device_not_found(name)),
        }
    }

    /// Create the device at an IP address.
    pub fn from_ip(
        devices: &[DcpDevice],
        ip: &str,
        interface: &str,
        answers: &[MacAnswer],
        adapters: &[InterfaceDevice],
        timeout_ms: u64,
        dialer: D,
    ) -> (r: Result<ProfinetDevice<T, D>, String>)
        ensures
            is_found_device(
                r,
                located(device_models(devices@), ip@),
                "No device found at IP "@ + ip@,
                interface@,
                own_addresses(interface@, answers@, adapters@),
                timeout_ms,
                dialer,
            ),
    {
        match find_by_ip(devices, ip) {
            Some(info) => ProfinetDevice::from_dcp_info(
                info,
                interface,
                answers,
                adapters,
                timeout_ms,
                dialer,
            ),
            None => {
                let mut e = "No device found at IP ".to_owned();
                e.append(ip);
                Err(e)
            },
        }
    }

    /// One device for each discovery result, each with its own dialer.
    pub fn scan(
        devices: &[DcpDevice],
        interface: &str,
        answers: &[MacAnswer],
        adapters: &[InterfaceDevice],
        timeout_ms: u64,
        dialers: Vec<D>,
    ) -> (r: Result<Vec<ProfinetDevice<T, D>>, String>)
        requires
            dialers@.len() == devices@.len(),
        ensures
            match own_addresses(interface@, answers@, adapters@) {
                Err(m) => r matches Err(e) && e@ == m,
                Ok(a) => r matches Ok(v) && v@.len() == devices@.len() && forall|i: int|
                    0 <= i < v@.len() ==> is_new_device(
                        #[trigger] v@[i],
                        devices@[i]@,
                        interface@,
                        a,
                        timeout_ms,
                        dialers@[i],
                    ),
            },
    {
        let (mac, ip) = match look_up(interface, answers, adapters) {
            Ok(a) => a,
            Err(e) => {
                return Err(e);
            },
        };
        let ghost given = dialers@;
        let mut rest: VecDeque<D> = VecDeque::new();
        for d in it: dialers
            invariant
                rest@ == it.seq().take(it.index()),
                it.seq() == given,
        {
            rest.push_back(d);
            assert(rest@ =~= it.seq().take(it.index() + 1));
        }
        assert(given.take(given.len() as int) =~= given);
        let mut out: Vec<ProfinetDevice<T, D>> = Vec::new();
        let mut i: usize = 0;
        while i < devices.len()
            invariant
                i <= devices@.len() == given.len(),
                rest@ == given.skip(i as int),
                out@.len() == i,
                forall|j: int|
                    0 <= j < i ==> is_new_device(
                        #[trigger] out@[j],
                        devices@[j]@,
                        interface@,
                        (mac, ip),
                        timeout_ms,
                        given[j],
                    ),
            decreases devices@.len() - i,
        {
            match rest.pop_front() {
                Some(dialer) => {
                    out.push(
                        ProfinetDevice::new(
                            copy_device(&devices[i]),
                            interface,
                            mac,
                            ip,
                            timeout_ms,
                            dialer,
                        ),
                    );
                    assert(rest@ =~= given.skip(i + 1));
                },
                None => {},
            }
            i = i + 1;
        }
        Ok(out)
    }

    /// Establish a device access AR over a new connection and keep it. With a
    /// connection already there, nothing is sent.
    pub fn connect_over(&mut self, conn: RpcConn<T>) -> (r: Result<(), String>)
        requires
            old(self)@.conn is None ==> conn.sequence_number < u32::MAX,
        ensures
            match old(self)@.conn {
                Some(_) => r is Ok && final(self)@ == old(self)@,
                None => match conn_connect_access(conn@, old(self)@.src_mac, station_name()) {
                    (c, Ok(_)) => r is Ok && final(self)@ == old(self)@.with_conn(c),
                    (_, Err(m)) => final(self)@ == old(self)@ && (r matches Err(e) && e@
                        == connect_message(old(self)@.info.name, m)),
                },
            },
    {
        if self.rpc.is_some() {
            return Ok(());
        }
        let mut conn = conn;
        let name: [u8; 2] = [0x74, 0x70];
        assert(name@ =~= station_name());
        match conn.connect_device_access(&self.src_mac, name.as_slice()) {
            Ok(_) => {
                self.rpc = Some(conn);
                Ok(())
            },
            Err(m) => {
                let mut e = "Failed to connect to ".to_owned();
                e.append(self.info.name.as_str());
                e.append(": ");
                e.append(m.as_str());
                Err(e)
            },
        }
    }

    /// [`ProfinetDevice::connect`] with the given random bytes, or with the
    /// failure to get them.
    pub fn connect_with(&mut self, drawn: Result<Vec<u8>, String>) -> (r: Result<(), String>)
        requires
            drawn matches Ok(rnd) ==> rnd@.len() == 34,
        ensures
            ({
                let (d, m) = dev_connect(old(self)@, bytes_outcome(drawn));
                &&& final(self)@ == d
                &&& is_done(r, m)
            }),
    {
        if self.rpc.is_some() {
            return Ok(());
        }
        let transport = match self.dialer.open(
            self.interface.as_str(),
            self.src_mac,
            self.src_ip,
            self.info.mac,
            self.info.ip,
        ) {
            Ok(t) => t,
            Err(e) => {
                return Err(e);
            },
        };
        let rnd = match drawn {
            Ok(rnd) => rnd,
            Err(e) => {
                return Err(e);
            },
        };
        let conn = RpcConn::from_random(
            transport,
            self.info.device_id,
            self.info.vendor_id,
            self.timeout_ms,
            rnd.as_slice(),
        );
        self.connect_over(conn)
    }

    /// Establish the AR with the device: a device access AR for acyclic reads
    /// and writes, over a transport of the dialer, with a random identity.
    /// Called by the first operation; explicit calls are idempotent.
    pub fn connect(&mut self) -> (r: Result<(), String>)
        ensures
            old(self)@.conn is Some ==> r is Ok && final(self)@ == old(self)@,
            old(self)@.conn is None ==> final(self)@.dialer == old(self)@.dialed().dialer,
            match r {
                Ok(_) => final(self)@.conn is Some && final(self)@
                    == old(self)@.dialed().with_conn(final(self)@.conn->0) && reaches(
                    old(self)@,
                    final(self)@.conn->0,
                ) && (old(self)@.conn is None ==> final(self)@.conn->0.sequence_number == 1),
                Err(e) => unreachable_device(old(self)@, final(self)@, e@),
            },
    {
        if self.rpc.is_some() {
            return Ok(());
        }
        let drawn = random_bytes(34);
        assert(is_draw(bytes_outcome(drawn)));
        self.connect_with(drawn)
    }

    /// Gracefully disconnect: send the Release that ends the AR and give the
    /// connection up, which is handed back as the Release left it; the next
    /// operation connects afresh.
    pub fn disconnect(&mut self) -> (r: Option<RpcConn<T>>)
        requires
            (old(self)@.conn is Some && old(self)@.conn->0.connected) ==> old(self)@.can_send(1),
        ensures
            final(self)@ == old(self)@.offline(),
            match old(self)@.conn {
                Some(c) => r matches Some(v) && v@ == conn_release(c),
                None => r is None,
            },
    {
        match self.rpc.take() {
            Some(c) => {
                let mut conn = c;
                conn.release();
                Some(conn)
            },
            None => None,
        }
    }

    /// Close the connection and release the AR, as
    /// [`ProfinetDevice::disconnect`] does.
    pub fn close(&mut self) -> (r: Option<RpcConn<T>>)
        requires
            (old(self)@.conn is Some && old(self)@.conn->0.connected) ==> old(self)@.can_send(1),
        ensures
            final(self)@ == old(self)@.offline(),
            match old(self)@.conn {
                Some(c) => r matches Some(v) && v@ == conn_release(c),
                None => r is None,
            },
    {
        self.disconnect()
    }

    /// Take the connection out, after establishing it where there is none.
    fn ensure_connected(&mut self) -> (r: Result<RpcConn<T>, String>)
        ensures
            match r {
                Ok(c) => reaches(old(self)@, c@) && final(self)@ == old(
                    self,
                )@.dialed().offline() && match old(
                    self,
                )@.conn {
                    Some(have) => c@ == have,
                    None => c.sequence_number == 1,
                },
                Err(e) => unreachable_device(old(self)@, final(self)@, e@),
            },
    {
        match self.connect() {
            Ok(_) => {},
            Err(e) => {
                return Err(e);
            },
        }
        match self.rpc.take() {
            Some(c) => Ok(c),
            None => Err("Not connected".to_owned()),
        }
    }

    /// Device station name.
    pub fn name(&self) -> (r: &str)
        ensures
            r@ == self@.info.name,
    {
        self.info.name.as_str()
    }

    /// Device IP address as text.
    pub fn ip(&self) -> (r: String)
        ensures
            r@ == ip_text(self@.info.ip),
    {
        ip_or_empty(&self.info.ip)
    }

    /// Device MAC address as text.
    pub fn mac(&self) -> (r: String)
        ensures
            r@ == mac_text(self@.info.mac),
    {
        mac2s(&self.info.mac)
    }

    /// The underlying discovery result.
    pub fn dcp_info(&self) -> (r: &DcpDevice)
        ensures
            *r == self.info,
    {
        &self.info
    }

    /// True while an AR is established.
    pub fn is_connected(&self) -> (r: bool)
        ensures
            r == (self@.conn is Some),
    {
        self.rpc.is_some()
    }

    /// `ProfinetDevice("name", ip, connected|disconnected)`.
    pub fn to_text(&self) -> (r: String)
        ensures
            r@ == "ProfinetDevice("@ + debug_text(self@.info.name) + ", "@ + ip_text(self@.info.ip)
                + ", "@ + (if self@.conn is Some {
                "connected"@
            } else {
                "disconnected"@
            }) + ")"@,
    {
        let mut s = "ProfinetDevice(".to_owned();
        s.append(debug_string(self.info.name.as_str()).as_str());
        s.append(", ");
        let ip = self.ip();
        s.append(ip.as_str());
        s.append(", ");
        s.append(
            if self.rpc.is_some() {
                "connected"
            } else {
                "disconnected"
            },
        );
        s.append(")");
        s
    }

    /// Complete device information: the discovery data plus I&M0, the endpoint
    /// mapper's annotation and, if asked for, the topology, as far as they can
    /// be read. Only a failure to connect is an error.
    pub fn get_info(&mut self, include_topology: bool, vendor_name: &str) -> (r: Result<
        DeviceInfo,
        String,
    >)
        requires
            old(self)@.can_send(
                if include_topology {
                    2
                } else {
                    1
                },
            ),
        ensures
            match r {
                Err(e) => unreachable_device(old(self)@, final(self)@, e@),
                Ok(info) => info.describes(old(self)@.info, vendor_name@) && exists|c: ConnModel| #[trigger]
                    reaches(old(self)@, c) && ({
                        let (d, m) = conn_read(c, 0xAFF0, 0, 1, 4096);
                        let (e, n) = conn_read(d, 0xF841, 0, 1, 4096);
                        &&& final(self)@ == old(self)@.dialed().looked_up().with_conn(
                            if include_topology {
                                e
                            } else {
                                d
                            },
                        )
                        &&& info.annotation@ == annotation_of(
                            old(self)@.dialed().dialer.next_lookup(),
                        )
                        &&& info.im0 matches Some(v) ==> is_im0(Ok(v), m)
                        &&& info.im0 is None ==> m is Err || m->Ok_0.len() < 60
                        &&& !include_topology ==> info.topology is None
                        &&& include_topology ==> (info.topology matches Some(v) ==> is_topology(
                            Ok(v),
                            n,
                        )) && (info.topology is None ==> n is Err)
                    }),
            },
    {
        let mut info = DeviceInfo::from_dcp(&self.info, vendor_name);
        let mut rpc = match self.ensure_connected() {
            Ok(c) => c,
            Err(e) => {
                return Err(e);
            },
        };
        let ghost start = rpc@;
        info.im0 = match rpc.read_im0(0, 1) {
            Ok(v) => Some(v),
            Err(_) => None,
        };
        if include_topology {
            info.topology = match rpc.read_pd_real_data() {
                Ok(v) => Some(v),
                Err(_) => None,
            };
        }
        self.rpc = Some(rpc);
        assert(reaches(old(self)@, start));
        match self.dialer.endpoints(
            self.interface.as_str(),
            self.src_mac,
            self.src_ip,
            self.info.mac,
            self.info.ip,
            self.timeout_ms,
        ) {
            Ok(endpoints) => info.annotate(endpoints.as_slice()),
            Err(_) => {},
        }
        Ok(info)
    }

    /// Read a record, with the default requested length of 4096 bytes; see
    /// [`ProfinetDevice::read_record_len`] for devices that require the exact
    /// record size.
    pub fn read_record(&mut self, slot: u16, subslot: u16, index: u16) -> (r: Result<Vec<u8>, String>)
        requires
            old(self)@.can_send(1),
        ensures
            (r matches Err(e) && unreachable_device(old(self)@, final(self)@, e@)) || exists|c: ConnModel| #[trigger]
                reaches(old(self)@, c) && ({
                    let (d, m) = conn_read(c, index, slot, subslot, 4096);
                    &&& final(self)@ == old(self)@.dialed().with_conn(d)
                    &&& is_bytes(r, m)
                }),
    {
        self.read_record_len(slot, subslot, index, READ_LENGTH)
    }

    /// Read a record with an explicit requested length.
    pub fn read_record_len(&mut self, slot: u16, subslot: u16, index: u16, length: u32) -> (r: Result<Vec<u8>, String>)
        requires
            old(self)@.can_send(1),
        ensures
            (r matches Err(e) && unreachable_device(old(self)@, final(self)@, e@)) || exists|c: ConnModel| #[trigger]
                reaches(old(self)@, c) && ({
                    let (d, m) = conn_read(c, index, slot, subslot, length);
                    &&& final(self)@ == old(self)@.dialed().with_conn(d)
                    &&& is_bytes(r, m)
                }),
    {
        let mut rpc = match self.ensure_connected() {
            Ok(c) => c,
            Err(e) => {
                return Err(e);
            },
        };
        let ghost start = rpc@;
        let r = rpc.read_raw(index, slot, subslot, length);
        self.rpc = Some(rpc);
        assert(reaches(old(self)@, start));
        r
    }

    /// Write a record.
    pub fn write_record(&mut self, slot: u16, subslot: u16, index: u16, data: &[u8]) -> (r: Result<(), String>)
        requires
            old(self)@.can_send(1),
        ensures
            (r matches Err(e) && unreachable_device(old(self)@, final(self)@, e@)) || exists|c: ConnModel| #[trigger]
                reaches(old(self)@, c) && ({
                    let (d, m) = conn_write(c, index, slot, subslot, data@);
                    &&& final(self)@ == old(self)@.dialed().with_conn(d)
                    &&& is_done(r, m)
                }),
    {
        let mut rpc = match self.ensure_connected() {
            Ok(c) => c,
            Err(e) => {
                return Err(e);
            },
        };
        let ghost start = rpc@;
        let r = rpc.write(index, slot, subslot, data);
        self.rpc = Some(rpc);
        assert(reaches(old(self)@, start));
        r
    }

    /// Write multiple records in one request, one result per write that the
    /// device answers.
    pub fn write_multiple(&mut self, writes: &[WriteItem]) -> (r: Result<
        Vec<WriteMultipleResult>,
        String,
    >)
        requires
            writes@.len() > 0 ==> old(self)@.can_send(1),
        ensures
            (r matches Err(e) && unreachable_device(old(self)@, final(self)@, e@)) || exists|
                c: ConnModel,
                entries: Seq<(u16, u16, u16, &[u8])>,
            |
                #![trigger reaches(old(self)@, c), entry_values(entries)]
                reaches(old(self)@, c) && entry_values(entries) == write_entries(writes@) && ({
                    let (d, m) = conn_write_multiple(c, entries);
                    &&& final(self)@ == old(self)@.dialed().with_conn(d)
                    &&& match m {
                        Ok(v) => r matches Ok(w) && w@ == v,
                        Err(t) => r matches Err(e) && e@ == t,
                    }
                }),
    {
        let mut entries: Vec<(u16, u16, u16, &[u8])> = Vec::new();
        let mut i: usize = 0;
        while i < writes.len()
            invariant
                i <= writes@.len(),
                entries@.len() == i,
                forall|j: int|
                    0 <= j < i ==> entry_values(entries@)[j] == #[trigger] write_entries(writes@)[j],
            decreases writes@.len() - i,
        {
            let w = &writes[i];
            entries.push((w.index, w.slot, w.subslot, w.data.as_slice()));
            let ghost before = entry_values(entries@.drop_last());
            assert(forall|j: int| 0 <= j < i ==> #[trigger] before[j] == entry_values(entries@)[j]);
            assert(entry_values(entries@)[i as int] == write_entries(writes@)[i as int]);
            i = i + 1;
        }
        assert(entry_values(entries@) =~= write_entries(writes@));
        let mut rpc = match self.ensure_connected() {
            Ok(c) => c,
            Err(e) => {
                return Err(e);
            },
        };
        let ghost start = rpc@;
        let r = rpc.write_multiple(entries.as_slice());
        self.rpc = Some(rpc);
        assert(reaches(old(self)@, start));
        r
    }

    /// Read I&M0 identification data from slot 0, subslot 1.
    pub fn read_im0(&mut self) -> (r: Result<InM0, String>)
        requires
            old(self)@.can_send(1),
        ensures
            (r matches Err(e) && unreachable_device(old(self)@, final(self)@, e@)) || exists|c: ConnModel| #[trigger]
                reaches(old(self)@, c) && ({
                    let (d, m) = conn_read(c, 0xAFF0, 0, 1, 4096);
                    &&& final(self)@ == old(self)@.dialed().with_conn(d)
                    &&& is_im0(r, m)
                }),
    {
        self.read_im0_at(0, 1)
    }

    /// Read I&M0 from an explicit slot and subslot.
    pub fn read_im0_at(&mut self, slot: u16, subslot: u16) -> (r: Result<InM0, String>)
        requires
            old(self)@.can_send(1),
        ensures
            (r matches Err(e) && unreachable_device(old(self)@, final(self)@, e@)) || exists|c: ConnModel| #[trigger]
                reaches(old(self)@, c) && ({
                    let (d, m) = conn_read(c, 0xAFF0, slot, subslot, 4096);
                    &&& final(self)@ == old(self)@.dialed().with_conn(d)
                    &&& is_im0(r, m)
                }),
    {
        let mut rpc = match self.ensure_connected() {
            Ok(c) => c,
            Err(e) => {
                return Err(e);
            },
        };
        let ghost start = rpc@;
        let r = rpc.read_im0(slot, subslot);
        self.rpc = Some(rpc);
        assert(reaches(old(self)@, start));
        r
    }

    /// Read I&M1 tag function and location from slot 0, subslot 1.
    pub fn read_im1(&mut self) -> (r: Result<InM1, String>)
        requires
            old(self)@.can_send(1),
        ensures
            (r matches Err(e) && unreachable_device(old(self)@, final(self)@, e@)) || exists|c: ConnModel| #[trigger]
                reaches(old(self)@, c) && ({
                    let (d, m) = conn_read(c, 0xAFF1, 0, 1, 4096);
                    &&& final(self)@ == old(self)@.dialed().with_conn(d)
                    &&& is_im1(r, m)
                }),
    {
        self.read_im1_at(0, 1)
    }

    /// Read I&M1 from an explicit slot and subslot.
    pub fn read_im1_at(&mut self, slot: u16, subslot: u16) -> (r: Result<InM1, String>)
        requires
            old(self)@.can_send(1),
        ensures
            (r matches Err(e) && unreachable_device(old(self)@, final(self)@, e@)) || exists|c: ConnModel| #[trigger]
                reaches(old(self)@, c) && ({
                    let (d, m) = conn_read(c, 0xAFF1, slot, subslot, 4096);
                    &&& final(self)@ == old(self)@.dialed().with_conn(d)
                    &&& is_im1(r, m)
                }),
    {
        let mut rpc = match self.ensure_connected() {
            Ok(c) => c,
            Err(e) => {
                return Err(e);
            },
        };
        let ghost start = rpc@;
        let r = rpc.read_im1(slot, subslot);
        self.rpc = Some(rpc);
        assert(reaches(old(self)@, start));
        r
    }

    /// Read I&M2 installation date from slot 0, subslot 1.
    pub fn read_im2(&mut self) -> (r: Result<InM2, String>)
        requires
            old(self)@.can_send(1),
        ensures
            (r matches Err(e) && unreachable_device(old(self)@, final(self)@, e@)) || exists|c: ConnModel| #[trigger]
                reaches(old(self)@, c) && ({
                    let (d, m) = conn_read(c, 0xAFF2, 0, 1, 4096);
                    &&& final(self)@ == old(self)@.dialed().with_conn(d)
                    &&& is_im2(r, m)
                }),
    {
        self.read_im2_at(0, 1)
    }

    /// Read I&M2 from an explicit slot and subslot.
    pub fn read_im2_at(&mut self, slot: u16, subslot: u16) -> (r: Result<InM2, String>)
        requires
            old(self)@.can_send(1),
        ensures
            (r matches Err(e) && unreachable_device(old(self)@, final(self)@, e@)) || exists|c: ConnModel| #[trigger]
                reaches(old(self)@, c) && ({
                    let (d, m) = conn_read(c, 0xAFF2, slot, subslot, 4096);
                    &&& final(self)@ == old(self)@.dialed().with_conn(d)
                    &&& is_im2(r, m)
                }),
    {
        let mut rpc = match self.ensure_connected() {
            Ok(c) => c,
            Err(e) => {
                return Err(e);
            },
        };
        let ghost start = rpc@;
        let r = rpc.read_im2(slot, subslot);
        self.rpc = Some(rpc);
        assert(reaches(old(self)@, start));
        r
    }

    /// Read I&M3 descriptor from slot 0, subslot 1.
    pub fn read_im3(&mut self) -> (r: Result<InM3, String>)
        requires
            old(self)@.can_send(1),
        ensures
            (r matches Err(e) && unreachable_device(old(self)@, final(self)@, e@)) || exists|c: ConnModel| #[trigger]
                reaches(old(self)@, c) && ({
                    let (d, m) = conn_read(c, 0xAFF3, 0, 1, 4096);
                    &&& final(self)@ == old(self)@.dialed().with_conn(d)
                    &&& is_im3(r, m)
                }),
    {
        self.read_im3_at(0, 1)
    }

    /// Read I&M3 from an explicit slot and subslot.
    pub fn read_im3_at(&mut self, slot: u16, subslot: u16) -> (r: Result<InM3, String>)
        requires
            old(self)@.can_send(1),
        ensures
            (r matches Err(e) && unreachable_device(old(self)@, final(self)@, e@)) || exists|c: ConnModel| #[trigger]
                reaches(old(self)@, c) && ({
                    let (d, m) = conn_read(c, 0xAFF3, slot, subslot, 4096);
                    &&& final(self)@ == old(self)@.dialed().with_conn(d)
                    &&& is_im3(r, m)
                }),
    {
        let mut rpc = match self.ensure_connected() {
            Ok(c) => c,
            Err(e) => {
                return Err(e);
            },
        };
        let ghost start = rpc@;
        let r = rpc.read_im3(slot, subslot);
        self.rpc = Some(rpc);
        assert(reaches(old(self)@, start));
        r
    }

    /// Read all available I&M records: I&M0 to I&M3 at the given slot and
    /// subslot, keeping only those that the device supports.
    pub fn read_all_im(&mut self, slot: u16, subslot: u16) -> (r: Result<AllIm, String>)
        requires
            old(self)@.can_send(4),
        ensures
            (r matches Err(e) && unreachable_device(old(self)@, final(self)@, e@)) || (r is Ok && exists|
                c: ConnModel,
            | #[trigger]
                reaches(old(self)@, c) && ({
                    let (c0, m0) = conn_read(c, 0xAFF0, slot, subslot, 4096);
                    let (c1, m1) = conn_read(c0, 0xAFF1, slot, subslot, 4096);
                    let (c2, m2) = conn_read(c1, 0xAFF2, slot, subslot, 4096);
                    let (c3, m3) = conn_read(c2, 0xAFF3, slot, subslot, 4096);
                    &&& final(self)@ == old(self)@.dialed().with_conn(c3)
                    &&& kept_im0(r->Ok_0.im0, m0)
                    &&& kept_im1(r->Ok_0.im1, m1)
                    &&& kept_im2(r->Ok_0.im2, m2)
                    &&& kept_im3(r->Ok_0.im3, m3)
                })),
    {
        let mut rpc = match self.ensure_connected() {
            Ok(c) => c,
            Err(e) => {
                return Err(e);
            },
        };
        let ghost start = rpc@;
        let im0 = match rpc.read_im0(slot, subslot) {
            Ok(v) => Some(v),
            Err(_) => None,
        };
        let im1 = match rpc.read_im1(slot, subslot) {
            Ok(v) => Some(v),
            Err(_) => None,
        };
        let im2 = match rpc.read_im2(slot, subslot) {
            Ok(v) => Some(v),
            Err(_) => None,
        };
        let im3 = match rpc.read_im3(slot, subslot) {
            Ok(v) => Some(v),
            Err(_) => None,
        };
        self.rpc = Some(rpc);
        assert(reaches(old(self)@, start));
        Ok(AllIm { im0, im1, im2, im3 })
    }

    /// Write I&M1 tag function (at most 32 characters) and location (at most
    /// 22) at slot 0, subslot 1.
    pub fn write_im1(&mut self, tag_function: &str, tag_location: &str) -> (r: Result<(), String>)
        requires
            im1_bytes(tag_function@, tag_location@) is Ok ==> old(self)@.can_send(1),
        ensures
            match im1_bytes(tag_function@, tag_location@) {
                Err(t) => final(self)@ == old(self)@ && (r matches Err(e) && e@ == t),
                Ok(b) => (r matches Err(e) && unreachable_device(old(self)@, final(self)@, e@)) || exists|
                    c: ConnModel,
                | #[trigger]
                    reaches(old(self)@, c) && ({
                        let (d, m) = conn_write(c, 0xAFF1, 0, 1, b);
                        &&& final(self)@ == old(self)@.dialed().with_conn(d)
                        &&& is_done(r, m)
                    }),
            },
    {
        match im1_record(tag_function, tag_location) {
            Ok(data) => self.write_record(0, 1, im::IM1, data.as_slice()),
            Err(e) => Err(e),
        }
    }

    /// Write the I&M2 installation date, "YYYY-MM-DD HH:MM", at slot 0, subslot
    /// 1.
    pub fn write_im2(&mut self, date: &str) -> (r: Result<(), String>)
        requires
            im2_bytes(date@) is Ok ==> old(self)@.can_send(1),
        ensures
            match im2_bytes(date@) {
                Err(t) => final(self)@ == old(self)@ && (r matches Err(e) && e@ == t),
                Ok(b) => (r matches Err(e) && unreachable_device(old(self)@, final(self)@, e@)) || exists|
                    c: ConnModel,
                | #[trigger]
                    reaches(old(self)@, c) && ({
                        let (d, m) = conn_write(c, 0xAFF2, 0, 1, b);
                        &&& final(self)@ == old(self)@.dialed().with_conn(d)
                        &&& is_done(r, m)
                    }),
            },
    {
        match im2_record(date) {
            Ok(data) => self.write_record(0, 1, im::IM2, data.as_slice()),
            Err(e) => Err(e),
        }
    }

    /// Write the I&M3 descriptor (at most 54 characters) at slot 0, subslot 1.
    pub fn write_im3(&mut self, descriptor: &str) -> (r: Result<(), String>)
        requires
            im3_bytes(descriptor@) is Ok ==> old(self)@.can_send(1),
        ensures
            match im3_bytes(descriptor@) {
                Err(t) => final(self)@ == old(self)@ && (r matches Err(e) && e@ == t),
                Ok(b) => (r matches Err(e) && unreachable_device(old(self)@, final(self)@, e@)) || exists|
                    c: ConnModel,
                | #[trigger]
                    reaches(old(self)@, c) && ({
                        let (d, m) = conn_write(c, 0xAFF3, 0, 1, b);
                        &&& final(self)@ == old(self)@.dialed().with_conn(d)
                        &&& is_done(r, m)
                    }),
            },
    {
        match im3_record(descriptor) {
            Ok(data) => self.write_record(0, 1, im::IM3, data.as_slice()),
            Err(e) => Err(e),
        }
    }

    /// Read diagnosis data. Read errors yield empty data.
    pub fn read_diagnosis(&mut self, slot: u16, subslot: u16, index: u16) -> (r: Result<DiagnosisData, String>)
        requires
            old(self)@.can_send(1),
        ensures
            (r matches Err(e) && unreachable_device(old(self)@, final(self)@, e@)) || exists|c: ConnModel| #[trigger]
                reaches(old(self)@, c) && ({
                    let (d, m) = conn_diagnosis(c, slot, subslot, index);
                    &&& final(self)@ == old(self)@.dialed().with_conn(d)
                    &&& (r matches Ok(v) && v@ == m)
                }),
    {
        let mut rpc = match self.ensure_connected() {
            Ok(c) => c,
            Err(e) => {
                return Err(e);
            },
        };
        let ghost start = rpc@;
        let r = rpc.read_diagnosis(slot, subslot, index);
        self.rpc = Some(rpc);
        assert(reaches(old(self)@, start));
        Ok(r)
    }

    /// Read diagnosis from all standard indices, keeping only the ones with
    /// entries.
    pub fn read_all_diagnosis(&mut self) -> (r: Result<BTreeMap<u16, DiagnosisData>, String>)
        requires
            old(self)@.can_send(6),
        ensures
            (r matches Err(e) && unreachable_device(old(self)@, final(self)@, e@)) || exists|c: ConnModel| #[trigger]
                reaches(old(self)@, c) && ({
                    let (d, m) = conn_all_diagnosis(c, 6);
                    &&& final(self)@ == old(self)@.dialed().with_conn(d)
                    &&& (r matches Ok(v) && diagnosis_map(v) == m)
                }),
    {
        let mut rpc = match self.ensure_connected() {
            Ok(c) => c,
            Err(e) => {
                return Err(e);
            },
        };
        let ghost start = rpc@;
        let r = rpc.read_all_diagnosis();
        self.rpc = Some(rpc);
        assert(reaches(old(self)@, start));
        Ok(r)
    }

    /// Discover all slots and subslots from RealIdentificationData.
    pub fn discover_slots(&mut self) -> (r: Result<Vec<DeviceSlot>, String>)
        requires
            old(self)@.can_send(1),
        ensures
            (r matches Err(e) && unreachable_device(old(self)@, final(self)@, e@)) || exists|c: ConnModel| #[trigger]
                reaches(old(self)@, c) && ({
                    let (d, m) = conn_read(c, 0xF000, 0, 1, 4096);
                    &&& final(self)@ == old(self)@.dialed().with_conn(d)
                    &&& is_slots(r, m)
                }),
    {
        let mut rpc = match self.ensure_connected() {
            Ok(c) => c,
            Err(e) => {
                return Err(e);
            },
        };
        let ghost start = rpc@;
        let r = rpc.discover_slots();
        self.rpc = Some(rpc);
        assert(reaches(old(self)@, start));
        r
    }

    /// Read the physical topology (PDRealData 0xF841).
    pub fn read_topology(&mut self) -> (r: Result<PdRealData, String>)
        requires
            old(self)@.can_send(1),
        ensures
            (r matches Err(e) && unreachable_device(old(self)@, final(self)@, e@)) || exists|c: ConnModel| #[trigger]
                reaches(old(self)@, c) && ({
                    let (d, m) = conn_read(c, 0xF841, 0, 1, 4096);
                    &&& final(self)@ == old(self)@.dialed().with_conn(d)
                    &&& is_topology(r, m)
                }),
    {
        let mut rpc = match self.ensure_connected() {
            Ok(c) => c,
            Err(e) => {
                return Err(e);
            },
        };
        let ghost start = rpc@;
        let r = rpc.read_pd_real_data();
        self.rpc = Some(rpc);
        assert(reaches(old(self)@, start));
        r
    }

    /// Read alarm data: None when no alarm is present or the read fails.
    pub fn read_alarm(&mut self, slot: u16, subslot: u16, index: u16) -> (r: Option<
        AlarmNotification,
    >)
        requires
            old(self)@.can_send(1),
        ensures
            (r is None && exists|m: Seq<char>| #[trigger]
                unreachable_device(old(self)@, final(self)@, m)) || exists|c: ConnModel| #[trigger]
                reaches(old(self)@, c) && ({
                    let (d, m) = conn_read(c, index, slot, subslot, 4096);
                    &&& final(self)@ == old(self)@.dialed().with_conn(d)
                    &&& match m {
                        Ok(p) => is_alarm(r, p),
                        Err(_) => r is None,
                    }
                }),
    {
        match self.read_record(slot, subslot, index) {
            Ok(data) => alarm_from_record(data.as_slice()),
            Err(_) => None,
        }
    }
}

/// The I&M0 record that a read gave, if any.
pub open spec fn kept_im0(r: Option<InM0>, m: Result<Seq<u8>, Seq<char>>) -> bool {
    match m {
        Err(_) => r is None,
        Ok(p) => if p.len() >= 60 {
            r matches Some(v) && v.read_from(p)
        } else {
            r is None
        },
    }
}

/// The I&M1 record that a read gave, if any.
pub open spec fn kept_im1(r: Option<InM1>, m: Result<Seq<u8>, Seq<char>>) -> bool {
    match m {
        Err(_) => r is None,
        Ok(p) => if p.len() >= 60 {
            r matches Some(v) && v.read_from(p)
        } else {
            r is None
        },
    }
}

/// The I&M2 record that a read gave, if any.
pub open spec fn kept_im2(r: Option<InM2>, m: Result<Seq<u8>, Seq<char>>) -> bool {
    match m {
        Err(_) => r is None,
        Ok(p) => if p.len() >= 22 {
            r matches Some(v) && v.read_from(p)
        } else {
            r is None
        },
    }
}

/// The I&M3 record that a read gave, if any.
pub open spec fn kept_im3(r: Option<InM3>, m: Result<Seq<u8>, Seq<char>>) -> bool {
    match m {
        Err(_) => r is None,
        Ok(p) => if p.len() >= 60 {
            r matches Some(v) && v.read_from(p)
        } else {
            r is None
        },
    }
}

/// Once a device is connected, operations work on that connection alone.
pub proof fn connection_is_kept(d: DevModel, c: ConnModel)
    requires
        d.conn is Some,
    ensures
        reaches(d, c) <==> d.conn == Some(c),
{
}

/// A connection that was opened for an operation has its AR established.
pub proof fn opened_connection_has_an_ar(d: DevModel, c: ConnModel)
    requires
        d.conn is None,
        reaches(d, c),
    ensures
        c.connected,
        c.sequence_number == 1,
        c.object_uuid == object_uuid_bytes(d.info.device_id, d.info.vendor_id),
{
}

/// A maintenance record that is written carries its texts, character by character
/// in Latin-1 and filled up with spaces, behind the block header of its record and
/// two zero bytes: tag function and tag location, date, descriptor.
pub proof fn written_records_carry_their_texts(
    function: Seq<char>,
    location: Seq<char>,
    date: Seq<char>,
    descriptor: Seq<char>,
    i: int,
)
    ensures
        im1_bytes(function, location) matches Ok(b) ==> {
            &&& b.len() == 62
            &&& be16_at(b, 0) == 0x0021 && be16_at(b, 2) == 58 && b[4] == 1 && b[5] == 0
            &&& 0 <= i < 32 ==> b[8 + i] as int == text_byte(function, i)
            &&& 0 <= i < 22 ==> b[40 + i] as int == text_byte(location, i)
        },
        im2_bytes(date) matches Ok(b) ==> {
            &&& b.len() == 24
            &&& be16_at(b, 0) == 0x0022 && be16_at(b, 2) == 20 && b[4] == 1 && b[5] == 0
            &&& 0 <= i < 16 ==> b[8 + i] as int == text_byte(date, i)
        },
        im3_bytes(descriptor) matches Ok(b) ==> {
            &&& b.len() == 62
            &&& be16_at(b, 0) == 0x0023 && be16_at(b, 2) == 58 && b[4] == 1 && b[5] == 0
            &&& 0 <= i < 54 ==> b[8 + i] as int == text_byte(descriptor, i)
        },
        im1_bytes(function, location) is Ok <==> fits_latin1(function, 32) && fits_latin1(
            location,
            22,
        ),
        im2_bytes(date) is Ok <==> fits_latin1(date, 16),
        im3_bytes(descriptor) is Ok <==> fits_latin1(descriptor, 54),
{
    lemma_first_wide(function, 0);
    lemma_first_wide(location, 0);
    lemma_first_wide(date, 0);
    lemma_first_wide(descriptor, 0);
    if let Ok(b) = im1_bytes(function, location) {
        be16_placed(b, 0, 0x0021);
        be16_placed(b, 2, 58);
    }
    if let Ok(b) = im2_bytes(date) {
        be16_placed(b, 0, 0x0022);
        be16_placed(b, 2, 20);
    }
    if let Ok(b) = im3_bytes(descriptor) {
        be16_placed(b, 0, 0x0023);
        be16_placed(b, 2, 58);
    }
}

/// The number of a character, and behind the end of a text that of a space.
pub open spec fn text_byte(s: Seq<char>, i: int) -> int {
    if i < s.len() {
        s[i] as u32 as int
    } else {
        0x20
    }
}

/// A text fits a field: no longer than it, and without a character that Latin-1
/// does not have.
pub open spec fn fits_latin1(s: Seq<char>, width: nat) -> bool {
    s.len() <= width && forall|i: int| 0 <= i < s.len() ==> #[trigger] s[i] as u32 <= 0xFF
}

proof fn lemma_first_wide(s: Seq<char>, from: int)
    requires
        0 <= from <= s.len(),
    ensures
        first_wide(s, from) is None <==> forall|i: int|
            from <= i < s.len() ==> #[trigger] s[i] as u32 <= 0xFF,
    decreases s.len() - from,
{
    if from < s.len() {
        lemma_first_wide(s, from + 1);
    }
}

/// The annotation of a device is that of the first endpoint that has one.
pub proof fn the_first_annotation_counts(s: Seq<EpmModel>, k: int)
    requires
        0 <= k < s.len(),
        s[k].annotation.len() > 0,
        forall|j: int| 0 <= j < k ==> (#[trigger] s[j]).annotation.len() == 0,
    ensures
        annotation_of(Ok(s)) == s[k].annotation,
{
    lemma_annotation(s, k, 0);
}

proof fn lemma_annotation(s: Seq<EpmModel>, k: int, from: int)
    requires
        0 <= from <= k < s.len(),
        s[k].annotation.len() > 0,
        forall|j: int| 0 <= j < k ==> (#[trigger] s[j]).annotation.len() == 0,
    ensures
        first_annotation(s, from) == Some(s[k].annotation),
    decreases k - from,
{
    if from < k {
        assert(s[from].annotation.len() == 0);
        lemma_annotation(s, k, from + 1);
    }
}

/// What is told of a device is what discovery found: each text from its own field.
pub proof fn information_is_what_was_discovered(info: DeviceInfo, d: DcpInfo, vendor: Seq<char>)
    requires
        info.describes(d, vendor),
    ensures
        info.name@ == d.name,
        info.ip@ == ip_text(d.ip) && info.netmask@ == ip_text(d.netmask) && info.gateway@ == ip_text(
            d.gateway,
        ),
        info.mac@ == mac_text(d.mac),
        info.vendor_id == d.vendor_id && info.device_id == d.device_id,
        info.device_type@ == d.device_type && info.role == d.role && info.vendor_name@ == vendor,
{
}

/// A device is dialed at the addresses that discovery found, from our own, and the
/// connection that is made names it by its device and vendor id, with the identity
/// that the random bytes give and a session key that is never zero.
pub proof fn a_device_is_dialed_at_its_addresses(d: DevModel, net: NetModel, rnd: Seq<u8>)
    requires
        d.conn is None,
        rnd.len() == 34,
    ensures
        d.dialed().dialer.asked.last() == (Dial::Open {
            interface: d.interface,
            src_mac: d.src_mac,
            src_ip: d.src_ip,
            dst_mac: d.info.mac,
            dst_ip: d.info.ip,
        }),
        ({
            let c = conn_of(d, net, rnd);
            &&& be16_at(c.object_uuid, 12) == d.info.device_id
            &&& be16_at(c.object_uuid, 14) == d.info.vendor_id
            &&& c.activity_uuid == rnd.subrange(2, 18)
            &&& c.ar_uuid == rnd.subrange(18, 34)
            &&& c.session_key != 0
            &&& be16_at(rnd, 0) != 0 ==> c.session_key == be16_at(rnd, 0)
            &&& !c.connected && c.sequence_number == 0
            &&& c.net == net
        }),
{
    object_uuids_name_the_device(d.info.device_id, d.info.vendor_id);
}

/// The text of a MAC address, with any of the three separators, means the device
/// with that address.
pub proof fn devices_are_found_by_their_address(s: Seq<DcpInfo>, mac: Seq<u8>, separator: char)
    requires
        mac.len() == 6,
        separator == ':' || separator == '-' || separator == '.',
    ensures
        ({
            let text = Seq::new(
                17,
                |i: int|
                    if i % 3 == 2 {
                        separator
                    } else {
                        mac_text(mac)[i]
                    },
            );
            match identified(s, text) {
                Some(d) => s.contains(d) && d.mac == mac,
                None => forall|i: int| 0 <= i < s.len() ==> (#[trigger] s[i]).mac != mac,
            }
        }),
{
    let text = Seq::new(
        17,
        |i: int|
            if i % 3 == 2 {
                separator
            } else {
                mac_text(mac)[i]
            },
    );
    assert forall|i: int| 0 <= i < 17 implies colon_char(lower_char(#[trigger] text[i]))
        == mac_text(mac)[i] && !is_white(text[i]) by {
        lemma_digit_is_plain((mac[i / 3] / 16) as nat);
        lemma_digit_is_plain((mac[i / 3] % 16) as nat);
    }
    assert(trimmed(text) == text) by {
        assert(!is_white(text[0]));
        assert(!is_white(text[16]));
        assert(trimmed_start(text) == text);
        assert(text.last() == text[16]);
    }
    assert(mac_candidate(text) =~= mac_text(mac));
    mac_text_round_trip(mac);
    search_is_sound(s, |d: DcpInfo| d.mac == mac, 0);
}

proof fn lemma_digit_is_plain(n: nat)
    requires
        n < 16,
    ensures
        ({
            let c = digit_char(n, false);
            colon_char(lower_char(c)) == c && !is_white(c)
        }),
{
}

/// A name means the device of that name, and an address the device at it; none is
/// found only where there is none.
pub proof fn devices_are_found_by_name_and_address(s: Seq<DcpInfo>, name: Seq<char>, ip: Seq<u8>)
    ensures
        match named(s, name) {
            Some(d) => s.contains(d) && d.name == name,
            None => forall|i: int| 0 <= i < s.len() ==> (#[trigger] s[i]).name != name,
        },
        !is_mac_text(mac_candidate(name)) ==> identified(s, name) == named(s, name),
        match located(s, ip_text(ip)) {
            Some(d) => s.contains(d) && ip_text(d.ip) == ip_text(ip),
            None => forall|i: int| 0 <= i < s.len() ==> ip_text((#[trigger] s[i]).ip) != ip_text(ip),
        },
{
    search_is_sound(s, |d: DcpInfo| d.name == name, 0);
    search_is_sound(s, |d: DcpInfo| ip_text(d.ip) == ip_text(ip), 0);
}

} // verus!
