//! Working with capture interfaces: the filter expression, the choice of
//! source addresses, and discovery over raw Ethernet. The capture itself is
//! the caller's; frames, interface lists and lookups come in as plain values.

use vstd::prelude::*;
use vstd::slice::*;
use vstd::string::*;
use crate::bytes::bytes_eq;
use crate::dcp::{
    dcp_xid, identify_all_bytes, identify_all_request, identify_response, parse_dcp_xid,
    parse_identify_response, DcpDevice, DcpInfo,
};
use crate::random::gen_xid;
use crate::text::{
    begins_with, chars_of, chars_begin_with, debug_string, debug_text, hex, push_hex, str_eq,
    string_of,
};

verus! {

/// The filter expression for one EtherType, tagged or not.
pub open spec fn bpf_text(ethertype: u16) -> Seq<char> {
    "ether proto 0x"@ + hex(ethertype as nat, 4, false) + " or (vlan and ether proto 0x"@ + hex(
        ethertype as nat,
        4,
        false,
    ) + ")"@
}

/// VLAN-aware packet filter for one EtherType: PROFINET frames are often
/// 802.1Q tagged and the tag is delivered in-band, so match both the plain and
/// the tagged EtherType.
pub fn bpf_filter(ethertype: u16) -> (r: String)
    ensures
        r@ == bpf_text(ethertype),
{
    let mut s = "ether proto 0x".to_owned();
    push_hex(&mut s, ethertype as u64, 4, false);
    s.append(" or (vlan and ether proto 0x");
    push_hex(&mut s, ethertype as u64, 4, false);
    s.append(")");
    s
}

/// The names to look an interface up by: its own, and behind the prefix of a
/// Windows capture device the bare GUID.
pub open spec fn lookup_names(iface: Seq<char>) -> Seq<Seq<char>> {
    if begins_with(iface, "\\Device\\NPF_"@) {
        seq![iface, iface.skip("\\Device\\NPF_"@.len() as int)]
    } else {
        seq![iface]
    }
}

/// Names to try when asking the operating system for an interface's MAC, in
/// order.
///
/// On Unix the capture device name is the interface name (`en10`, `eth0`), so
/// the first candidate answers. Windows names its capture devices
/// `\Device\NPF_{GUID}` while the system knows the adapter by the bare GUID.
pub fn mac_lookup_names(iface: &str) -> (r: Vec<String>)
    ensures
        r@.len() == lookup_names(iface@).len(),
        forall|i: int| 0 <= i < r@.len() ==> (#[trigger] r@[i])@ == lookup_names(iface@)[i],
{
    let mut names: Vec<String> = Vec::new();
    names.push(iface.to_owned());
    let cs = chars_of(iface);
    let prefix = chars_of("\\Device\\NPF_");
    if chars_begin_with(cs.as_slice(), prefix.as_slice()) {
        let rest = string_of(slice_subrange(cs.as_slice(), prefix.len(), cs.len()));
        assert(rest@ =~= iface@.skip(prefix@.len() as int));
        names.push(rest);
    }
    names
}

/// What a MAC lookup gave for one name: an address, none, or an error.
pub type MacAnswer = Result<Option<[u8; 6]>, String>;

/// The first address among the answers from `from` on.
pub open spec fn first_mac(answers: Seq<MacAnswer>, from: int) -> Option<[u8; 6]>
    decreases answers.len() - from,
{
    if from >= answers.len() {
        None
    } else {
        match answers[from] {
            Ok(Some(mac)) => Some(mac),
            _ => first_mac(answers, from + 1),
        }
    }
}

/// The last error among the first `n` answers.
pub open spec fn last_error(answers: Seq<MacAnswer>, n: int) -> Option<Seq<char>>
    decreases n,
{
    if n <= 0 {
        None
    } else {
        match answers[n - 1] {
            Err(e) => Some(e@),
            _ => last_error(answers, n - 1),
        }
    }
}

/// MAC address of a network interface from the answers to its lookup names:
/// the first address found, else the last error.
pub fn get_mac(iface: &str, answers: &[MacAnswer]) -> (r: Result<[u8; 6], String>)
    ensures
        match first_mac(answers@, 0) {
            Some(mac) => r == Ok::<[u8; 6], String>(mac),
            None => r matches Err(e) && e@ == match last_error(answers@, answers@.len() as int) {
                Some(m) => "failed to get MAC address for "@ + debug_text(iface@) + ": "@ + m,
                None => "no MAC address found for interface "@ + debug_text(iface@),
            },
        },
{
    let mut last: Option<&str> = None;
    let mut i: usize = 0;
    while i < answers.len()
        invariant
            i <= answers@.len(),
            first_mac(answers@, i as int) == first_mac(answers@, 0),
            match last_error(answers@, i as int) {
                Some(m) => last matches Some(s) && s@ == m,
                None => last is None,
            },
        decreases answers@.len() - i,
    {
        match &answers[i] {
            Ok(Some(mac)) => {
                return Ok(*mac);
            },
            Ok(None) => {},
            Err(e) => {
                last = Some(e.as_str());
            },
        }
        i = i + 1;
    }
    match last {
        Some(m) => {
            let mut e = "failed to get MAC address for ".to_owned();
            e.append(debug_string(iface).as_str());
            e.append(": ");
            e.append(m);
            Err(e)
        },
        None => {
            let mut e = "no MAC address found for interface ".to_owned();
            e.append(debug_string(iface).as_str());
            Err(e)
        },
    }
}

/// The source address chosen for a destination, and whether it can be expected
/// to reach it.
///
/// `reaches_target` false is not a refusal: the RPC transport addresses the
/// device by MAC and only carries the IP in the UDP header, so a device whose
/// address sits in another network still answers.
#[derive(Debug, Clone, Copy, PartialEq, Eq)]
pub struct SourceAddress {
    /// The address to put in the UDP header.
    pub ip: [u8; 4],
    /// Whether its network contains the destination.
    pub reaches_target: bool,
}

/// One address of an interface.
#[derive(Debug, Clone, Copy, PartialEq, Eq)]
pub enum InterfaceAddress {
    /// An IPv4 address, with its netmask where that is known.
    V4 { ip: [u8; 4], netmask: Option<[u8; 4]> },
    /// An address of another family.
    Other,
}

/// Whether two IPv4 addresses share a network under `mask`.
pub open spec fn shares_network(a: Seq<u8>, b: Seq<u8>, mask: Seq<u8>) -> bool {
    &&& a[0] & mask[0] == b[0] & mask[0]
    &&& a[1] & mask[1] == b[1] & mask[1]
    &&& a[2] & mask[2] == b[2] & mask[2]
    &&& a[3] & mask[3] == b[3] & mask[3]
}

/// Whether an address's network is known and contains `dst`. A netmask of
/// 0.0.0.0 counts as unknown rather than as a network holding everything.
pub open spec fn holds(a: InterfaceAddress, dst: Seq<u8>) -> bool {
    match a {
        InterfaceAddress::V4 { ip, netmask } => match netmask {
            Some(m) => !(m@[0] == 0 && m@[1] == 0 && m@[2] == 0 && m@[3] == 0) && shares_network(
                ip@,
                dst,
                m@,
            ),
            None => false,
        },
        InterfaceAddress::Other => false,
    }
}

/// The first address from `from` on whose network holds `dst`.
pub open spec fn first_holding(s: Seq<InterfaceAddress>, dst: Seq<u8>, from: int) -> Option<[u8; 4]>
    decreases s.len() - from,
{
    if from >= s.len() {
        None
    } else if holds(s[from], dst) {
        Some(s[from]->ip)
    } else {
        first_holding(s, dst, from + 1)
    }
}

/// The first IPv4 address from `from` on.
pub open spec fn first_v4(s: Seq<InterfaceAddress>, from: int) -> Option<[u8; 4]>
    decreases s.len() - from,
{
    if from >= s.len() {
        None
    } else {
        match s[from] {
            InterfaceAddress::V4 { ip, netmask } => Some(ip),
            InterfaceAddress::Other => first_v4(s, from + 1),
        }
    }
}

/// The source address for a destination: one whose network holds it, else the
/// first.
pub open spec fn source_for(s: Seq<InterfaceAddress>, dst: Seq<u8>) -> Option<SourceAddress> {
    match first_holding(s, dst, 0) {
        Some(ip) => Some(SourceAddress { ip, reaches_target: true }),
        None => match first_v4(s, 0) {
            Some(ip) => Some(SourceAddress { ip, reaches_target: false }),
            None => None,
        },
    }
}

fn same_network(a: [u8; 4], b: [u8; 4], mask: [u8; 4]) -> (r: bool)
    ensures
        r == shares_network(a@, b@, mask@),
{
    a[0] & mask[0] == b[0] & mask[0] && a[1] & mask[1] == b[1] & mask[1] && a[2] & mask[2] == b[2]
        & mask[2] && a[3] & mask[3] == b[3] & mask[3]
}

/// Pick the source address for talking to `dst` from an interface's addresses.
///
/// A host can carry several addresses on one interface, and the first one that
/// the operating system reports is not necessarily the one the device can
/// answer. So prefer an address whose network contains the destination, and
/// fall back to the first when none does. An address whose network is unknown
/// cannot be shown to contain the destination, so it only ever serves as the
/// fallback.
pub fn pick_source_ipv4(addresses: &[InterfaceAddress], dst: [u8; 4]) -> (r: Option<SourceAddress>)
    ensures
        r == source_for(addresses@, dst@),
{
    let mut i: usize = 0;
    while i < addresses.len()
        invariant
            i <= addresses@.len(),
            first_holding(addresses@, dst@, i as int) == first_holding(addresses@, dst@, 0),
        decreases addresses@.len() - i,
    {
        if let InterfaceAddress::V4 { ip, netmask } = addresses[i] {
            if let Some(m) = netmask {
                if !(m[0] == 0 && m[1] == 0 && m[2] == 0 && m[3] == 0) && same_network(
                    ip,
                    dst,
                    m,
                ) {
                    return Some(SourceAddress { ip, reaches_target: true });
                }
            }
        }
        i = i + 1;
    }
    match first_address(addresses) {
        Some(ip) => Some(SourceAddress { ip, reaches_target: false }),
        None => None,
    }
}

fn first_address(addresses: &[InterfaceAddress]) -> (r: Option<[u8; 4]>)
    ensures
        r == first_v4(addresses@, 0),
{
    let mut i: usize = 0;
    while i < addresses.len()
        invariant
            i <= addresses@.len(),
            first_v4(addresses@, i as int) == first_v4(addresses@, 0),
        decreases addresses@.len() - i,
    {
        if let InterfaceAddress::V4 { ip, netmask: _ } = addresses[i] {
            return Some(ip);
        }
        i = i + 1;
    }
    None
}

/// A capture interface and its addresses.
#[derive(Debug, Clone, PartialEq, Eq)]
pub struct InterfaceDevice {
    pub name: String,
    pub addresses: Vec<InterfaceAddress>,
}

/// The first interface of a name, from `from` on, by index.
pub open spec fn device_index(devices: Seq<InterfaceDevice>, name: Seq<char>, from: int) -> Option<int>
    decreases devices.len() - from,
{
    if from >= devices.len() {
        None
    } else if devices[from].name@ == name {
        Some(from)
    } else {
        device_index(devices, name, from + 1)
    }
}

fn find_device(devices: &[InterfaceDevice], name: &str) -> (r: Option<usize>)
    ensures
        match device_index(devices@, name@, 0) {
            Some(i) => r == Some(i as usize) && 0 <= i < devices@.len(),
            None => r is None,
        },
{
    let mut i: usize = 0;
    while i < devices.len()
        invariant
            i <= devices@.len(),
            device_index(devices@, name@, i as int) == device_index(devices@, name@, 0),
        decreases devices@.len() - i,
    {
        if str_eq(devices[i].name.as_str(), name) {
            return Some(i);
        }
        i = i + 1;
    }
    None
}

fn not_found(iface: &str) -> (e: String)
    ensures
        e@ == "interface "@ + debug_text(iface@) + " not found by pcap"@,
{
    let mut e = "interface ".to_owned();
    e.append(debug_string(iface).as_str());
    e.append(" not found by pcap");
    e
}

fn no_address(iface: &str) -> (e: String)
    ensures
        e@ == "no IPv4 address on interface "@ + debug_text(iface@),
{
    let mut e = "no IPv4 address on interface ".to_owned();
    e.append(debug_string(iface).as_str());
    e
}

/// Source address of `iface` for talking to `dst`, from the list of capture
/// interfaces. See [`pick_source_ipv4`] for how the choice is made.
pub fn get_ipv4_toward(devices: &[InterfaceDevice], iface: &str, dst: [u8; 4]) -> (r: Result<
    SourceAddress,
    String,
>)
    ensures
        match device_index(devices@, iface@, 0) {
            None => r matches Err(e) && e@ == "interface "@ + debug_text(iface@)
                + " not found by pcap"@,
            Some(i) => match source_for(devices@[i].addresses@, dst@) {
                Some(s) => r == Ok::<SourceAddress, String>(s),
                None => r matches Err(e) && e@ == "no IPv4 address on interface "@ + debug_text(
                    iface@,
                ),
            },
        },
{
    match find_device(devices, iface) {
        None => Err(not_found(iface)),
        Some(i) => match pick_source_ipv4(devices[i].addresses.as_slice(), dst) {
            Some(s) => Ok(s),
            None => Err(no_address(iface)),
        },
    }
}

/// First IPv4 address of a network interface, from the list of capture
/// interfaces. Prefer [`get_ipv4_toward`] wherever the destination is known:
/// this one cannot tell which of several addresses reaches it.
pub fn get_ipv4(devices: &[InterfaceDevice], iface: &str) -> (r: Result<[u8; 4], String>)
    ensures
        match device_index(devices@, iface@, 0) {
            None => r matches Err(e) && e@ == "interface "@ + debug_text(iface@)
                + " not found by pcap"@,
            Some(i) => match first_v4(devices@[i].addresses@, 0) {
                Some(ip) => r == Ok::<[u8; 4], String>(ip),
                None => r matches Err(e) && e@ == "no IPv4 address on interface "@ + debug_text(
                    iface@,
                ),
            },
        },
{
    match find_device(devices, iface) {
        None => Err(not_found(iface)),
        Some(i) => match first_address(devices[i].addresses.as_slice()) {
            Some(ip) => Ok(ip),
            None => Err(no_address(iface)),
        },
    }
}

/// The models of a list of devices.
pub open spec fn device_models(s: Seq<DcpDevice>) -> Seq<DcpInfo> {
    Seq::new(s.len(), |i: int| s[i]@)
}

/// Where a MAC address stands in a list of devices, from `from` on; the
/// list's length if nowhere.
pub open spec fn mac_index(s: Seq<DcpInfo>, mac: Seq<u8>, from: int) -> int
    decreases s.len() - from,
{
    if from >= s.len() {
        s.len() as int
    } else if s[from].mac == mac {
        from
    } else {
        mac_index(s, mac, from + 1)
    }
}

/// The list with a device added; it replaces the one with the same MAC.
pub open spec fn with_device(s: Seq<DcpInfo>, d: DcpInfo) -> Seq<DcpInfo> {
    let i = mac_index(s, d.mac, 0);
    if i < s.len() {
        s.update(i, d)
    } else {
        s.push(d)
    }
}

/// The device that a frame announces to us: it is addressed to us, echoes our
/// transaction id, and parses as an Identify response.
pub open spec fn announced(frame: Seq<u8>, my_mac: Seq<u8>, xid: u32) -> Option<DcpInfo> {
    if frame.len() < 14 || frame.subrange(0, 6) != my_mac || dcp_xid(frame) != Some(xid) {
        None
    } else {
        match identify_response(frame) {
            Ok(d) => Some(d),
            Err(_) => None,
        }
    }
}

/// The list after a frame.
pub open spec fn after_frame(s: Seq<DcpInfo>, frame: Seq<u8>, my_mac: Seq<u8>, xid: u32) -> Seq<
    DcpInfo,
> {
    match announced(frame, my_mac, xid) {
        Some(d) => with_device(s, d),
        None => s,
    }
}

/// A frame that is not addressed to us, or that does not echo our transaction
/// id, adds nothing and changes nothing: another controller's discovery on the
/// same segment stays out of our list.
pub proof fn foreign_responses_add_nothing(s: Seq<DcpInfo>, frame: Seq<u8>, my_mac: Seq<u8>, xid: u32)
    requires
        dcp_xid(frame) != Some(xid) || frame.len() < 14 || frame.subrange(0, 6) != my_mac,
    ensures
        after_frame(s, frame, my_mac, xid) == s,
{
}

/// The devices that the first `n` frames announce.
pub open spec fn aggregated(frames: Seq<Vec<u8>>, my_mac: Seq<u8>, xid: u32, n: int) -> Seq<DcpInfo>
    decreases n,
{
    if n <= 0 {
        Seq::empty()
    } else {
        after_frame(aggregated(frames, my_mac, xid, n - 1), frames[n - 1]@, my_mac, xid)
    }
}

/// No two devices have the same MAC address.
pub open spec fn distinct_macs(s: Seq<DcpInfo>) -> bool {
    forall|i: int, j: int| 0 <= i < j < s.len() ==> (#[trigger] s[i]).mac != (#[trigger] s[j]).mac
}

proof fn lemma_mac_index(s: Seq<DcpInfo>, mac: Seq<u8>, from: int)
    requires
        0 <= from <= s.len(),
    ensures
        from <= mac_index(s, mac, from) <= s.len(),
        mac_index(s, mac, from) < s.len() ==> s[mac_index(s, mac, from)].mac == mac,
        forall|i: int| from <= i < mac_index(s, mac, from) ==> (#[trigger] s[i]).mac != mac,
    decreases s.len() - from,
{
    if from < s.len() && s[from].mac != mac {
        lemma_mac_index(s, mac, from + 1);
    }
}

/// Discovery lists each MAC address once, and a device that was just announced
/// is listed as it announced itself last.
pub proof fn devices_stay_distinct(s: Seq<DcpInfo>, frame: Seq<u8>, my_mac: Seq<u8>, xid: u32)
    requires
        distinct_macs(s),
    ensures
        distinct_macs(after_frame(s, frame, my_mac, xid)),
        announced(frame, my_mac, xid) matches Some(d) ==> after_frame(
            s,
            frame,
            my_mac,
            xid,
        ).contains(d),
{
    if let Some(d) = announced(frame, my_mac, xid) {
        lemma_mac_index(s, d.mac, 0);
        let t = with_device(s, d);
        let i = mac_index(s, d.mac, 0);
        assert(t[i] == d);
        assert forall|a: int, b: int| 0 <= a < b < t.len() implies (#[trigger] t[a]).mac != (
        #[trigger] t[b]).mac by {
            if a != i && b != i {
                assert(t[a] == s[a] && t[b] == s[b]);
            } else if a == i && b < s.len() {
                assert(t[b] == s[b]);
                assert(i < s.len() ==> s[i].mac != s[b].mac);
            } else if b == i && i < s.len() {
                assert(t[a] == s[a]);
                assert(s[a].mac != s[i].mac);
            } else {
                assert(t[a] == s[a]);
            }
        }
    }
}

/// Every list that discovery aggregates names each MAC address once.
pub proof fn aggregated_macs_distinct(frames: Seq<Vec<u8>>, my_mac: Seq<u8>, xid: u32, n: int)
    requires
        0 <= n <= frames.len(),
    ensures
        distinct_macs(aggregated(frames, my_mac, xid, n)),
    decreases n,
{
    if n > 0 {
        aggregated_macs_distinct(frames, my_mac, xid, n - 1);
        devices_stay_distinct(
            aggregated(frames, my_mac, xid, n - 1),
            frames[n - 1]@,
            my_mac,
            xid,
        );
    }
}

fn add_response(devices: &mut Vec<DcpDevice>, frame: &[u8], my_mac: &[u8; 6], xid: u32)
    ensures
        device_models(final(devices)@) == after_frame(
            device_models(old(devices)@),
            frame@,
            my_mac@,
            xid,
        ),
{
    if frame.len() < 14 || !bytes_eq(slice_subrange(frame, 0, 6), my_mac.as_slice()) {
        return;
    }
    let ours = match parse_dcp_xid(frame) {
        Some(x) => x == xid,
        None => false,
    };
    if !ours {
        return;
    }
    let device = match parse_identify_response(frame) {
        Ok(d) => d,
        Err(_) => {
            return;
        },
    };
    let ghost before = device_models(devices@);
    let mut i: usize = 0;
    while i < devices.len()
        invariant
            i <= devices@.len(),
            before == device_models(devices@),
            mac_index(before, device@.mac, i as int) == mac_index(before, device@.mac, 0),
            announced(frame@, my_mac@, xid) == Some(device@),
            devices@ == old(devices)@,
        decreases devices@.len() - i,
    {
        assert(before[i as int].mac == devices@[i as int].mac@);
        if bytes_eq(devices[i].mac.as_slice(), device.mac.as_slice()) {
            devices[i] = device;
            assert(device_models(devices@) =~= before.update(i as int, device@));
            return;
        }
        i = i + 1;
    }
    devices.push(device);
    assert(device_models(devices@) =~= before.push(device@));
}

/// Aggregate captured frames into discovered devices: keep only frames
/// addressed to us that echo our request's `expected_xid`, parse each as a DCP
/// Identify response (parse failures are skipped), and keep one device per
/// source MAC, later responses replacing earlier ones.
///
/// Matching the xid keeps a concurrent controller's Identify-All responses on
/// the same segment out of our result set.
pub fn aggregate_responses(frames: &[Vec<u8>], my_mac: &[u8; 6], expected_xid: u32) -> (r: Vec<
    DcpDevice,
>)
    ensures
        device_models(r@) == aggregated(frames@, my_mac@, expected_xid, frames@.len() as int),
        distinct_macs(device_models(r@)),
{
    let mut devices: Vec<DcpDevice> = Vec::new();
    let mut i: usize = 0;
    assert(device_models(devices@) =~= Seq::<DcpInfo>::empty());
    while i < frames.len()
        invariant
            i <= frames@.len(),
            device_models(devices@) == aggregated(frames@, my_mac@, expected_xid, i as int),
        decreases frames@.len() - i,
    {
        add_response(&mut devices, frames[i].as_slice(), my_mac, expected_xid);
        i = i + 1;
    }
    proof {
        aggregated_macs_distinct(frames@, my_mac@, expected_xid, frames@.len() as int);
    }
    devices
}

/// A running discovery: whom responses must be addressed to, the transaction
/// id they must echo, and the devices found so far.
#[derive(Debug, Clone, PartialEq, Eq)]
pub struct Discovery {
    pub my_mac: [u8; 6],
    pub xid: u32,
    pub devices: Vec<DcpDevice>,
}

impl Discovery {
    /// A discovery that has found nothing yet.
    pub fn new(my_mac: [u8; 6], xid: u32) -> (r: Discovery)
        ensures
            r.my_mac == my_mac,
            r.xid == xid,
            r.devices@ == Seq::<DcpDevice>::empty(),
    {
        Discovery { my_mac, xid, devices: Vec::new() }
    }

    /// The Identify-All request to multicast.
    pub fn request(&self) -> (r: Vec<u8>)
        ensures
            r@ == identify_all_bytes(self.my_mac@, self.xid),
    {
        identify_all_request(&self.my_mac, self.xid)
    }

    /// Take in a captured frame.
    pub fn on_frame(&mut self, frame: &[u8])
        ensures
            final(self).my_mac == old(self).my_mac,
            final(self).xid == old(self).xid,
            device_models(final(self).devices@) == after_frame(
                device_models(old(self).devices@),
                frame@,
                old(self).my_mac@,
                old(self).xid,
            ),
    {
        let mac = self.my_mac;
        let xid: u32 = self.xid;
        add_response(&mut self.devices, frame, &mac, xid);
    }
}

/// Start a discovery with a fresh random transaction id. The caller sends
/// [`Discovery::request`], hands every captured frame to
/// [`Discovery::on_frame`], and stops when its time is up or it has found
/// what it was looking for.
pub fn discover(my_mac: [u8; 6]) -> (r: Result<Discovery, String>)
    ensures
        r matches Ok(d) ==> d.my_mac == my_mac && d.devices@ == Seq::<DcpDevice>::empty(),
        r matches Err(e) ==> begins_with(e@, "getrandom failed: "@),
{
    match gen_xid() {
        Ok(xid) => Ok(Discovery::new(my_mac, xid)),
        Err(e) => Err(e),
    }
}

/// A listed device is replaced by its latest answer, a new one goes to the end, and
/// every other device stays as it is and where it is.
pub proof fn the_latest_answer_is_listed(s: Seq<DcpInfo>, d: DcpInfo)
    requires
        distinct_macs(s),
    ensures
        ({
            let t = with_device(s, d);
            &&& t.contains(d)
            &&& s.len() <= t.len() <= s.len() + 1
            &&& t.len() == s.len() <==> exists|i: int| 0 <= i < s.len() && (#[trigger] s[i]).mac
                == d.mac
            &&& forall|i: int|
                0 <= i < s.len() ==> #[trigger] t[i] == if s[i].mac == d.mac {
                    d
                } else {
                    s[i]
                }
        }),
{
    let i = mac_index(s, d.mac, 0);
    lemma_mac_index(s, d.mac, 0);
    let t = with_device(s, d);
    if i < s.len() {
        assert(t[i] == d);
        assert forall|k: int| 0 <= k < s.len() implies #[trigger] t[k] == if s[k].mac == d.mac {
            d
        } else {
            s[k]
        } by {
            if k != i && s[k].mac == d.mac {
                if k < i {
                    assert(s[k].mac == s[i].mac);
                } else {
                    assert(s[i].mac == s[k].mac);
                }
            }
        }
    } else {
        assert(t[s.len() as int] == d);
    }
}

/// The source address that is chosen: one on the target's network wherever there is
/// one, under a netmask that is not empty, and then it is said to reach the target;
/// else the first IPv4 address, which is not; and none without one.
pub proof fn the_source_reaches_the_target(s: Seq<InterfaceAddress>, dst: Seq<u8>)
    requires
        dst.len() == 4,
    ensures
        match source_for(s, dst) {
            Some(a) => {
                &&& a.reaches_target <==> exists|k: int| 0 <= k < s.len() && #[trigger] on_network(s[k], dst)
                &&& a.reaches_target ==> exists|k: int|
                    0 <= k < s.len() && #[trigger] on_network(s[k], dst) && s[k]->ip == a.ip
                        && forall|j: int| 0 <= j < k ==> !#[trigger] on_network(s[j], dst)
                &&& !a.reaches_target ==> exists|k: int|
                    0 <= k < s.len() && (#[trigger] s[k]) is V4 && s[k]->ip == a.ip && forall|j: int|
                        0 <= j < k ==> !((#[trigger] s[j]) is V4)
            },
            None => forall|k: int| 0 <= k < s.len() ==> !((#[trigger] s[k]) is V4),
        },
{
    lemma_first_holding(s, dst, 0);
    lemma_first_v4(s, 0);
}

/// The target is on the network of an address: the two agree in every bit that the
/// netmask has, and it has some.
pub open spec fn on_network(a: InterfaceAddress, dst: Seq<u8>) -> bool {
    a matches InterfaceAddress::V4 { ip, netmask: Some(m) } && m@ != seq![0u8, 0, 0, 0] && forall|i: int|
        0 <= i < 4 ==> (#[trigger] ip@[i]) & m@[i] == dst[i] & m@[i]
}

proof fn lemma_first_holding(s: Seq<InterfaceAddress>, dst: Seq<u8>, from: int)
    requires
        dst.len() == 4,
        0 <= from <= s.len(),
    ensures
        match first_holding(s, dst, from) {
            Some(ip) => exists|k: int|
                from <= k < s.len() && #[trigger] on_network(s[k], dst) && s[k]->ip == ip && forall|j: int|
                    from <= j < k ==> !#[trigger] on_network(s[j], dst),
            None => forall|k: int| from <= k < s.len() ==> !#[trigger] on_network(s[k], dst),
        },
    decreases s.len() - from,
{
    if from < s.len() {
        lemma_on_network(s[from], dst);
        lemma_first_holding(s, dst, from + 1);
        if !holds(s[from], dst) {
            if let Some(ip) = first_holding(s, dst, from + 1) {
                let k = choose|k: int|
                    from + 1 <= k < s.len() && #[trigger] on_network(s[k], dst) && s[k]->ip == ip
                        && forall|j: int| from + 1 <= j < k ==> !#[trigger] on_network(s[j], dst);
                assert(on_network(s[k], dst));
            }
        } else {
            assert(on_network(s[from], dst));
        }
    }
}

proof fn lemma_on_network(a: InterfaceAddress, dst: Seq<u8>)
    requires
        dst.len() == 4,
    ensures
        on_network(a, dst) == holds(a, dst),
{
    if let InterfaceAddress::V4 { ip, netmask: Some(m) } = a {
        if m@[0] == 0 && m@[1] == 0 && m@[2] == 0 && m@[3] == 0 {
            assert(m@ =~= seq![0u8, 0, 0, 0]);
        }
        if holds(a, dst) {
            assert forall|i: int| 0 <= i < 4 implies (#[trigger] ip@[i]) & m@[i] == dst[i] & m@[i] by {
                assert(i == 0 || i == 1 || i == 2 || i == 3);
            }
        }
        if on_network(a, dst) {
            assert(ip@[0] & m@[0] == dst[0] & m@[0]);
            assert(ip@[1] & m@[1] == dst[1] & m@[1]);
            assert(ip@[2] & m@[2] == dst[2] & m@[2]);
            assert(ip@[3] & m@[3] == dst[3] & m@[3]);
        }
    }
}

proof fn lemma_first_v4(s: Seq<InterfaceAddress>, from: int)
    requires
        0 <= from <= s.len(),
    ensures
        match first_v4(s, from) {
            Some(ip) => exists|k: int|
                from <= k < s.len() && (#[trigger] s[k]) is V4 && s[k]->ip == ip && forall|j: int|
                    from <= j < k ==> !((#[trigger] s[j]) is V4),
            None => forall|k: int| from <= k < s.len() ==> !((#[trigger] s[k]) is V4),
        },
    decreases s.len() - from,
{
    if from < s.len() {
        lemma_first_v4(s, from + 1);
        if s[from] is V4 {
            assert(s[from] is V4 && s[from]->ip == first_v4(s, from)->0);
        } else if let Some(ip) = first_v4(s, from + 1) {
            let k = choose|k: int|
                from + 1 <= k < s.len() && (#[trigger] s[k]) is V4 && s[k]->ip == ip && forall|j: int|
                    from + 1 <= j < k ==> !((#[trigger] s[j]) is V4);
            assert(s[k] is V4);
        }
    }
}

/// The MAC address of an interface is the first that a lookup gave; where none did,
/// the message is that of the last lookup that failed.
pub proof fn the_first_mac_counts(answers: Seq<MacAnswer>, k: int)
    requires
        0 <= k < answers.len(),
    ensures
        (answers[k] matches Ok(Some(mac)) && forall|j: int|
            0 <= j < k ==> !((#[trigger] answers[j]) matches Ok(Some(_)))) ==> first_mac(answers, 0)
            == Some((answers[k]->Ok_0)->0),
        (forall|j: int| 0 <= j < answers.len() ==> !((#[trigger] answers[j]) matches Ok(Some(_))))
            ==> first_mac(answers, 0) is None,
        (answers[k] is Err && forall|j: int|
            k < j < answers.len() ==> !((#[trigger] answers[j]) is Err)) ==> last_error(
            answers,
            answers.len() as int,
        ) == Some((answers[k]->Err_0)@),
{
    if answers[k] matches Ok(Some(_)) && forall|j: int|
        0 <= j < k ==> !((#[trigger] answers[j]) matches Ok(Some(_))) {
        lemma_first_mac(answers, 0, k);
    }
    if forall|j: int| 0 <= j < answers.len() ==> !((#[trigger] answers[j]) matches Ok(Some(_))) {
        lemma_first_mac(answers, 0, answers.len() as int);
    }
    if answers[k] is Err && forall|j: int|
        k < j < answers.len() ==> !((#[trigger] answers[j]) is Err) {
        lemma_last_error(answers, answers.len() as int, k);
    }
}

proof fn lemma_first_mac(answers: Seq<MacAnswer>, from: int, k: int)
    requires
        0 <= from <= k <= answers.len(),
        forall|j: int| from <= j < k ==> !((#[trigger] answers[j]) matches Ok(Some(_))),
        k < answers.len() ==> answers[k] matches Ok(Some(_)),
    ensures
        first_mac(answers, from) == if k < answers.len() {
            Some((answers[k]->Ok_0)->0)
        } else {
            None::<[u8; 6]>
        },
    decreases k - from,
{
    if from < k {
        assert(!(answers[from] matches Ok(Some(_))));
        lemma_first_mac(answers, from + 1, k);
    }
}

proof fn lemma_last_error(answers: Seq<MacAnswer>, n: int, k: int)
    requires
        0 <= k < n <= answers.len(),
        answers[k] is Err,
        forall|j: int| k < j < n ==> !((#[trigger] answers[j]) is Err),
    ensures
        last_error(answers, n) == Some((answers[k]->Err_0)@),
    decreases n,
{
    if k < n - 1 {
        assert(!(answers[n - 1] is Err));
        lemma_last_error(answers, n - 1, k);
    }
}

/// The interface that is found has the name that was asked for, and none is found
/// only where none has.
pub proof fn interfaces_are_found_by_name(devices: Seq<InterfaceDevice>, name: Seq<char>, from: int)
    requires
        0 <= from <= devices.len(),
    ensures
        match device_index(devices, name, from) {
            Some(i) => from <= i < devices.len() && devices[i].name@ == name && forall|j: int|
                from <= j < i ==> (#[trigger] devices[j]).name@ != name,
            None => forall|j: int|
                from <= j < devices.len() ==> (#[trigger] devices[j]).name@ != name,
        },
    decreases devices.len() - from,
{
    if from < devices.len() {
        interfaces_are_found_by_name(devices, name, from + 1);
    }
}

} // verus!
