//! What the commands of the command line decide and say: their arguments, the
//! DCP exchanges they make, and the text they print.

use vstd::prelude::*;
use vstd::slice::*;
use vstd::string::*;
use crate::cyclic::CyclicState;
use crate::dcp::{DcpDevice, DcpInfo};
use crate::device::{copy_device, first_device, is_device, search_is_sound};
use crate::pcap::device_models;
use crate::text::{
    chars_of, debug_string, debug_text, dec, digit_char_value, hex, hex_digit_value, hex_text,
    hex_value, is_hex_digit, is_white, parse_uint, push_dec, push_hex, str_eq, string_of, trim_chars,
    trimmed, uint_of, white,
};
use crate::util::{bad_ip_message, ip2s, ip_text, ip_text_injective};

verus! {

/// A text behind "0x" or "0X", if it begins so.
pub open spec fn behind_0x(s: Seq<char>) -> Option<Seq<char>> {
    if s.len() >= 2 && s[0] == '0' && (s[1] == 'x' || s[1] == 'X') {
        Some(s.skip(2))
    } else {
        None
    }
}

/// The number that a text writes in decimal, or in hexadecimal behind "0x".
pub open spec fn number_of(s: Seq<char>, max: nat) -> Option<nat> {
    match behind_0x(s) {
        Some(h) => uint_of(h, 16, max),
        None => uint_of(s, 10, max),
    }
}

/// Reads a number in decimal, or in hexadecimal behind "0x".
pub fn parse_number(s: &[char], max: u64) -> (r: Option<u64>)
    ensures
        match number_of(s@, max as nat) {
            Some(n) => r == Some(n as u64) && n <= max,
            None => r is None,
        },
{
    if s.len() >= 2 && s[0] == '0' && (s[1] == 'x' || s[1] == 'X') {
        let rest = slice_subrange(s, 2, s.len());
        assert(rest@ =~= s@.skip(2));
        parse_uint(rest, 16, max)
    } else {
        parse_uint(s, 10, max)
    }
}

/// Parse a record index, in decimal or as "0x" hexadecimal.
pub fn parse_index(s: &str) -> (r: Result<u16, String>)
    ensures
        match number_of(s@, 0xFFFF) {
            Some(n) => r == Ok::<u16, String>(n as u16) && n <= 0xFFFF,
            None => r matches Err(e) && e@ == "invalid index "@ + debug_text(s@),
        },
{
    let cs = chars_of(s);
    match parse_number(cs.as_slice(), 0xFFFF) {
        Some(n) => Ok(n as u16),
        None => {
            let mut e = "invalid index ".to_owned();
            e.append(debug_string(s).as_str());
            Err(e)
        },
    }
}

/// A text without its white space.
pub open spec fn no_white(s: Seq<char>) -> Seq<char>
    decreases s.len(),
{
    if s.len() == 0 {
        Seq::empty()
    } else if is_white(s.last()) {
        no_white(s.drop_last())
    } else {
        no_white(s.drop_last()).push(s.last())
    }
}

/// How many bytes a character takes in UTF-8.
pub open spec fn utf8_width(c: char) -> nat {
    if (c as u32) < 0x80 {
        1
    } else if (c as u32) < 0x800 {
        2
    } else if (c as u32) < 0x10000 {
        3
    } else {
        4
    }
}

/// How many bytes a text takes in UTF-8.
pub open spec fn utf8_len(s: Seq<char>) -> nat
    decreases s.len(),
{
    if s.len() == 0 {
        0
    } else {
        utf8_len(s.drop_last()) + utf8_width(s.last())
    }
}

/// The bytes that pairs of hexadecimal digits write, up to character `n`.
pub open spec fn hex_pairs(s: Seq<char>, n: int) -> Option<Seq<u8>>
    decreases n,
{
    if n < 2 {
        Some(Seq::empty())
    } else {
        match hex_pairs(s, n - 2) {
            Some(b) => if is_hex_digit(s[n - 2]) && is_hex_digit(s[n - 1]) {
                Some(b.push((hex_value(s[n - 2]) * 16 + hex_value(s[n - 1])) as u8))
            } else {
                None
            },
            None => None,
        }
    }
}

/// The bytes that a text writes in hexadecimal.
pub open spec fn hex_bytes(s: Seq<char>) -> Result<Seq<u8>, Seq<char>> {
    let c = no_white(s);
    if utf8_len(c) % 2 != 0 {
        Err("odd-length hex string "@ + debug_text(s))
    } else if c.len() % 2 != 0 {
        Err("invalid hex "@ + debug_text(s))
    } else {
        match hex_pairs(c, c.len() as int) {
            Some(b) => Ok(b),
            None => Err("invalid hex "@ + debug_text(s)),
        }
    }
}

fn without_white(s: &str) -> (r: (Vec<char>, bool))
    ensures
        r.0@ == no_white(s@),
        r.1 == (utf8_len(no_white(s@)) % 2 == 1),
{
    let cs = chars_of(s);
    let mut out: Vec<char> = Vec::new();
    let mut odd = false;
    let mut i: usize = 0;
    while i < cs.len()
        invariant
            i <= cs@.len(),
            cs@ == s@,
            out@ == no_white(s@.take(i as int)),
            odd == (utf8_len(out@) % 2 == 1),
        decreases cs@.len() - i,
    {
        let c = cs[i];
        assert(s@.take(i + 1).drop_last() =~= s@.take(i as int));
        if !white(c) {
            let ghost before = out@;
            out.push(c);
            assert(out@.drop_last() =~= before);
            let code: u32 = c as u32;
            if code < 0x80 || (code >= 0x800 && code < 0x10000) {
                odd = !odd;
            }
        }
        i = i + 1;
    }
    assert(s@.take(i as int) =~= s@);
    (out, odd)
}

/// Decode a hexadecimal string, ignoring white space.
pub fn parse_hex(s: &str) -> (r: Result<Vec<u8>, String>)
    ensures
        match hex_bytes(s@) {
            Ok(b) => r matches Ok(v) && v@ == b,
            Err(m) => r matches Err(e) && e@ == m,
        },
{
    let (cs, odd) = without_white(s);
    if odd {
        let mut e = "odd-length hex string ".to_owned();
        e.append(debug_string(s).as_str());
        return Err(e);
    }
    let mut invalid = "invalid hex ".to_owned();
    invalid.append(debug_string(s).as_str());
    if cs.len() % 2 != 0 {
        return Err(invalid);
    }
    let mut out: Vec<u8> = Vec::new();
    let mut i: usize = 0;
    while i < cs.len()
        invariant
            i <= cs@.len(),
            i % 2 == 0,
            cs@.len() % 2 == 0,
            cs@ == no_white(s@),
            utf8_len(cs@) % 2 == 0,
            invalid@ == "invalid hex "@ + debug_text(s@),
            hex_pairs(cs@, i as int) == Some(out@),
        decreases cs@.len() - i,
    {
        match (hex_digit_value(cs[i]), hex_digit_value(cs[i + 1])) {
            (Some(high), Some(low)) => {
                out.push(high * 16 + low);
            },
            _ => {
                proof {
                    assert(hex_pairs(cs@, i + 2) is None);
                    lemma_pairs_stay_bad(cs@, i + 2, cs@.len() as int);
                }
                return Err(invalid);
            },
        }
        i = i + 2;
    }
    Ok(out)
}

proof fn lemma_pairs_stay_bad(s: Seq<char>, m: int, n: int)
    requires
        m <= n,
        (n - m) % 2 == 0,
        hex_pairs(s, m) is None,
    ensures
        hex_pairs(s, n) is None,
    decreases n - m,
{
    if m < n {
        lemma_pairs_stay_bad(s, m, n - 2);
    }
}

/// Parse a dotted quad into 4 bytes.
pub fn parse_ipv4(s: &str) -> (r: Result<[u8; 4], String>)
    ensures
        r matches Ok(ip) ==> ip_text(ip@) == s@,
        r is Err ==> forall|ip: Seq<u8>| ip.len() == 4 ==> #[trigger] ip_text(ip) != s@,
        r matches Err(e) ==> e@ == bad_ip_message(s@),
{
    ip2s(s)
}

/// Two lower-case hexadecimal digits for each byte.
pub fn hex_encode(data: &[u8]) -> (r: String)
    ensures
        r@ == hex_text(data@),
{
    let mut s = String::new();
    assert(s@ =~= hex_text(data@.take(0)));
    let mut i: usize = 0;
    while i < data.len()
        invariant
            i <= data@.len(),
            s@ == hex_text(data@.take(i as int)),
        decreases data@.len() - i,
    {
        push_hex(&mut s, data[i] as u64, 2, false);
        assert(data@.take(i + 1).drop_last() =~= data@.take(i as int));
        i = i + 1;
    }
    assert(data@.take(i as int) =~= data@);
    s
}

/// Why a text is no unsigned byte in the given radix, as the standard library
/// words it.
pub uninterp spec fn byte_error_text(s: Seq<char>, radix: u32) -> Seq<char>;

/// `u8::from_str_radix`: a non-empty sequence of digits of the radix, behind
/// an optional plus sign, is the number it writes if that is at most 255;
/// anything else is an error, whose `Display` text is a function of the text
/// and the radix and is named.
#[verifier::external_body]
fn byte_from_radix(s: &str, radix: u32) -> (r: Result<u8, String>)
    requires
        radix == 10 || radix == 16,
    ensures
        match uint_of(s@, radix as nat, 255) {
            Some(n) => r == Ok::<u8, String>(n as u8),
            None => r matches Err(e) && e@ == byte_error_text(s@, radix),
        },
{
    u8::from_str_radix(s, radix).map_err(|e| format!("{}", e))
}

/// The byte that an argument writes, or why it is none.
pub open spec fn byte_argument(raw: Seq<char>) -> Result<nat, Seq<char>> {
    let s = trimmed(raw);
    match number_of(s, 255) {
        Some(n) => Ok(n),
        None => Err(
            "invalid byte "@ + debug_text(s) + ": "@ + match behind_0x(s) {
                Some(h) => byte_error_text(h, 16),
                None => byte_error_text(s, 10),
            },
        ),
    }
}

/// Parse a byte written in decimal or as "0x" hexadecimal.
pub fn parse_u8_maybe_hex(raw: &str) -> (r: Result<u8, String>)
    ensures
        match byte_argument(raw@) {
            Ok(n) => r == Ok::<u8, String>(n as u8) && n <= 255,
            Err(m) => r matches Err(e) && e@ == m,
        },
{
    let cs = chars_of(raw);
    let s = trim_chars(cs.as_slice());
    let outcome = if s.len() >= 2 && s[0] == '0' && (s[1] == 'x' || s[1] == 'X') {
        let rest = slice_subrange(s, 2, s.len());
        assert(rest@ =~= s@.skip(2));
        byte_from_radix(string_of(rest).as_str(), 16)
    } else {
        byte_from_radix(string_of(s).as_str(), 10)
    };
    match outcome {
        Ok(v) => Ok(v),
        Err(m) => {
            let mut e = "invalid byte ".to_owned();
            e.append(debug_string(string_of(s).as_str()).as_str());
            e.append(": ");
            e.append(m.as_str());
            Err(e)
        },
    }
}

/// A reduction ratio of RT_CLASS_1: a power of two up to 512.
pub open spec fn is_reduction_ratio(n: u16) -> bool {
    n == 1 || n == 2 || n == 4 || n == 8 || n == 16 || n == 32 || n == 64 || n == 128 || n == 256
        || n == 512
}

/// Reject a cycle time that is no reduction ratio of RT_CLASS_1 before touching
/// the device.
pub fn validate_cycle_ms(cycle_ms: u16) -> (r: Result<(), String>)
    ensures
        r is Ok <==> is_reduction_ratio(cycle_ms),
        r matches Err(e) ==> e@ == cycle_message(cycle_ms),
{
    if cycle_ms == 1 || cycle_ms == 2 || cycle_ms == 4 || cycle_ms == 8 || cycle_ms == 16
        || cycle_ms == 32 || cycle_ms == 64 || cycle_ms == 128 || cycle_ms == 256 || cycle_ms
        == 512 {
        Ok(())
    } else {
        let mut e =
            "cycle_ms must be a power of two in 1..=512 (RT_CLASS_1 reduction ratio), got ".to_owned();
        push_dec(&mut e, cycle_ms as u128);
        Err(e)
    }
}

/// The message for a cycle time that is refused.
pub open spec fn cycle_message(cycle_ms: u16) -> Seq<char> {
    "cycle_ms must be a power of two in 1..=512 (RT_CLASS_1 reduction ratio), got "@ + dec(
        cycle_ms as nat,
    )
}

/// Whether a repeated interrupt may end the process at once: only when that is
/// provably harmless. Until then it only asks for the shutdown again, for it
/// must not truncate a running safe shutdown and abandon a possibly unsafe
/// output.
pub fn should_hard_exit(already_shutting_down: bool, safe_to_hard_exit: bool) -> (r: bool)
    ensures
        r == (already_shutting_down && safe_to_hard_exit),
{
    already_shutting_down && safe_to_hard_exit
}

/// Why a state of the cyclic exchange ends a session: we are no longer driving
/// the device, so the commanded safe shutdown must run.
pub open spec fn abort_reason(state: CyclicState) -> Option<Seq<char>> {
    match state {
        CyclicState::Fault => Some("cyclic_fault"@),
        CyclicState::Stopped => Some("cyclic_stopped"@),
        _ => None,
    }
}

/// Why a state of the cyclic exchange ends a session: a fault, where the
/// communication is lost, or a stop, where the threads are gone.
pub fn cyclic_abort_reason(state: CyclicState) -> (r: Option<&'static str>)
    ensures
        match abort_reason(state) {
            Some(m) => r matches Some(s) && s@ == m,
            None => r is None,
        },
{
    match state {
        CyclicState::Fault => Some("cyclic_fault"),
        CyclicState::Stopped => Some("cyclic_stopped"),
        _ => None,
    }
}

/// The names of the roles in a role byte.
pub open spec fn role_names(role: u8) -> Seq<Seq<char>> {
    (if role & 0x01 != 0 {
        seq!["IO-Device"@]
    } else {
        Seq::empty()
    }) + (if role & 0x02 != 0 {
        seq!["IO-Controller"@]
    } else {
        Seq::empty()
    }) + (if role & 0x04 != 0 {
        seq!["IO-Multidevice"@]
    } else {
        Seq::empty()
    }) + (if role & 0x08 != 0 {
        seq!["PN-Supervisor"@]
    } else {
        Seq::empty()
    })
}

/// The views of some texts.
pub open spec fn texts(s: Seq<&'static str>) -> Seq<Seq<char>> {
    Seq::new(s.len(), |i: int| s[i]@)
}

/// Decode a role byte to names: none when it is 0.
pub fn decode_device_role(role: u8) -> (r: Vec<&'static str>)
    ensures
        texts(r@) == role_names(role),
{
    let mut roles: Vec<&'static str> = Vec::new();
    if role & 0x01 != 0 {
        roles.push("IO-Device");
    }
    if role & 0x02 != 0 {
        roles.push("IO-Controller");
    }
    if role & 0x04 != 0 {
        roles.push("IO-Multidevice");
    }
    if role & 0x08 != 0 {
        roles.push("PN-Supervisor");
    }
    assert(texts(roles@) =~= role_names(role));
    roles
}

/// A device is the requested station: by name, or by IPv4 address.
pub open spec fn answers_to(d: DcpInfo, target: Seq<char>) -> bool {
    d.name == target || ip_text(d.ip) == target
}

/// Whether a discovered device is the requested station: by station name, or
/// by IPv4 address where `target` is one.
pub fn device_matches(d: &DcpDevice, target: &str) -> (r: bool)
    ensures
        r == answers_to(d@, target@),
{
    if str_eq(d.name.as_str(), target) {
        return true;
    }
    match ip2s(target) {
        Ok(ip) => {
            proof {
                if ip_text(d@.ip) == target@ {
                    ip_text_injective(ip@, d@.ip);
                }
            }
            let same = ip[0] == d.ip[0] && ip[1] == d.ip[1] && ip[2] == d.ip[2] && ip[3] == d.ip[3];
            assert(same ==> ip@ =~= d.ip@);
            same
        },
        Err(_) => false,
    }
}

/// The station that was asked for among the devices found.
pub open spec fn station(s: Seq<DcpInfo>, target: Seq<char>) -> Option<DcpInfo> {
    first_device(s, |d: DcpInfo| answers_to(d, target), 0)
}

/// Find a discovered device by station name or IPv4 address.
pub fn match_device(devices: &[DcpDevice], target: &str) -> (r: Option<DcpDevice>)
    ensures
        is_device(r, station(device_models(devices@), target@)),
{
    let ghost f = |d: DcpInfo| answers_to(d, target@);
    let ghost s = device_models(devices@);
    let mut i: usize = 0;
    while i < devices.len()
        invariant
            i <= devices@.len(),
            s == device_models(devices@),
            f == (|d: DcpInfo| answers_to(d, target@)),
            first_device(s, f, i as int) == first_device(s, f, 0),
        decreases devices@.len() - i,
    {
        if device_matches(&devices[i], target) {
            assert(f(s[i as int]));
            return Some(copy_device(&devices[i]));
        }
        assert(!f(s[i as int]));
        i = i + 1;
    }
    None
}

/// The requested station among the devices found, or the message that it is
/// not there.
pub fn resolve_device(devices: &[DcpDevice], target: &str) -> (r: Result<DcpDevice, String>)
    ensures
        match station(device_models(devices@), target@) {
            Some(d) => r matches Ok(v) && v@ == d,
            None => r matches Err(e) && e@ == "Device "@ + debug_text(target@) + " not found"@,
        },
{
    match match_device(devices, target) {
        Some(d) => Ok(d),
        None => {
            let mut e = "Device ".to_owned();
            e.append(debug_string(target).as_str());
            e.append(" not found");
            Err(e)
        },
    }
}

/// Hexadecimal text reads back as the bytes it was made from.
pub proof fn hex_round_trips(data: Seq<u8>)
    ensures
        hex_bytes(hex_text(data)) == Ok::<Seq<u8>, Seq<char>>(data),
{
    lemma_hex_text(data);
    let t = hex_text(data);
    lemma_no_white_digits(t);
    lemma_hex_pairs(data, data.len() as int);
    assert(data.take(data.len() as int) =~= data);
}

proof fn lemma_hex_text(data: Seq<u8>)
    ensures
        hex_text(data).len() == 2 * data.len(),
        forall|i: int| 0 <= i < hex_text(data).len() ==> is_hex_digit(#[trigger] hex_text(data)[i]),
        forall|k: int|
            0 <= k < data.len() ==> hex_text(data).subrange(2 * k, 2 * k + 2) == hex(
                (#[trigger] data[k]) as nat,
                2,
                false,
            ),
    decreases data.len(),
{
    if data.len() > 0 {
        let d = data.drop_last();
        lemma_hex_text(d);
        let v = data.last() as nat;
        lemma_hex_byte(data.last());
        assert forall|k: int| 0 <= k < data.len() implies hex_text(data).subrange(2 * k, 2 * k + 2)
            == hex((#[trigger] data[k]) as nat, 2, false) by {
            if k < d.len() {
                assert(d[k] == data[k]);
                assert(hex_text(data).subrange(2 * k, 2 * k + 2) =~= hex_text(d).subrange(
                    2 * k,
                    2 * k + 2,
                ));
            } else {
                assert(hex_text(data).subrange(2 * k, 2 * k + 2) =~= hex(v, 2, false));
            }
        }
    }
}

proof fn lemma_hex_byte(b: u8)
    ensures
        hex(b as nat, 2, false).len() == 2,
        is_hex_digit(hex(b as nat, 2, false)[0]),
        is_hex_digit(hex(b as nat, 2, false)[1]),
        hex_value(hex(b as nat, 2, false)[0]) * 16 + hex_value(hex(b as nat, 2, false)[1]) == b,
{
    reveal_with_fuel(hex, 3);
    digit_char_value((b % 16) as nat, false);
    digit_char_value((b / 16) as nat, false);
}

proof fn lemma_no_white_digits(s: Seq<char>)
    requires
        forall|i: int| 0 <= i < s.len() ==> is_hex_digit(#[trigger] s[i]),
    ensures
        no_white(s) == s,
        utf8_len(s) == s.len(),
    decreases s.len(),
{
    if s.len() > 0 {
        lemma_no_white_digits(s.drop_last());
        assert(is_hex_digit(s.last()));
        assert(s.drop_last().push(s.last()) =~= s);
    }
}

proof fn lemma_hex_pairs(data: Seq<u8>, n: int)
    requires
        0 <= n <= data.len(),
    ensures
        hex_pairs(hex_text(data), 2 * n) == Some(data.take(n)),
    decreases n,
{
    lemma_hex_text(data);
    if n > 0 {
        lemma_hex_pairs(data, n - 1);
        lemma_hex_byte(data[n - 1]);
        let pair = hex_text(data).subrange(2 * n - 2, 2 * n);
        assert(pair == hex(data[n - 1] as nat, 2, false));
        assert(pair[0] == hex_text(data)[2 * n - 2] && pair[1] == hex_text(data)[2 * n - 1]);
        assert(data.take(n) =~= data.take(n - 1).push(data[n - 1]));
    } else {
        assert(data.take(0) =~= Seq::<u8>::empty());
    }
}

/// A role byte names a role for each of its four low bits, and no other.
pub proof fn roles_are_named_by_their_bits(role: u8)
    ensures
        role_names(role).contains("IO-Device"@) <==> role % 2 == 1,
        role_names(role).contains("IO-Controller"@) <==> role / 2 % 2 == 1,
        role_names(role).contains("IO-Multidevice"@) <==> role / 4 % 2 == 1,
        role_names(role).contains("PN-Supervisor"@) <==> role / 8 % 2 == 1,
        role_names(role).len() == role % 2 + role / 2 % 2 + role / 4 % 2 + role / 8 % 2,
{
    reveal_strlit("IO-Device");
    reveal_strlit("IO-Controller");
    reveal_strlit("IO-Multidevice");
    reveal_strlit("PN-Supervisor");
    assert("IO-Controller"@[0] == 'I' && "PN-Supervisor"@[0] == 'P');
    assert("IO-Device"@.len() == 9 && "IO-Controller"@.len() == 13 && "IO-Multidevice"@.len() == 14
        && "PN-Supervisor"@.len() == 13);
    assert(((role & 0x01 != 0) <==> role % 2 == 1) && ((role & 0x02 != 0) <==> role / 2 % 2 == 1)
        && ((role & 0x04 != 0) <==> role / 4 % 2 == 1) && ((role & 0x08 != 0) <==> role / 8 % 2
        == 1)) by (bit_vector);
    let names = role_names(role);
    let b0 = (role % 2) as int;
    let b1 = (role / 2 % 2) as int;
    let b2 = (role / 4 % 2) as int;
    let b3 = (role / 8 % 2) as int;
    if b0 == 1 {
        assert(names[0] == "IO-Device"@);
    }
    if b1 == 1 {
        assert(names[b0] == "IO-Controller"@);
    }
    if b2 == 1 {
        assert(names[b0 + b1] == "IO-Multidevice"@);
    }
    if b3 == 1 {
        assert(names[b0 + b1 + b2] == "PN-Supervisor"@);
    }
    assert forall|i: int| 0 <= i < names.len() && b0 == 0 implies #[trigger] names[i]
        != "IO-Device"@ by {
        assert(names[i] == "IO-Controller"@ || names[i] == "IO-Multidevice"@ || names[i]
            == "PN-Supervisor"@);
    }
}

/// A cycle time is taken if and only if it is a power of two from 1 to 512.
pub proof fn cycle_times_are_powers_of_two(n: u16)
    ensures
        is_reduction_ratio(n) <==> 1 <= n <= 512 && n & sub_one(n) == 0,
{
    assert((n == 1 || n == 2 || n == 4 || n == 8 || n == 16 || n == 32 || n == 64 || n == 128 || n
        == 256 || n == 512) <==> (1 <= n && n <= 512 && n & ((n - 1) as u16) == 0)) by (bit_vector);
}

/// The number before another.
pub open spec fn sub_one(n: u16) -> u16 {
    (n - 1) as u16
}

/// The station that is found is among the devices and has the name or the address
/// that was asked for, and none is found only where no device has.
pub proof fn the_station_asked_for_is_found(s: Seq<DcpInfo>, target: Seq<char>)
    ensures
        match station(s, target) {
            Some(d) => s.contains(d) && (d.name == target || ip_text(d.ip) == target),
            None => forall|i: int|
                0 <= i < s.len() ==> (#[trigger] s[i]).name != target && ip_text(s[i].ip) != target,
        },
{
    search_is_sound(s, |d: DcpInfo| answers_to(d, target), 0);
}

} // verus!
