//! Endpoint mapper lookup: the request, the response with its protocol towers,
//! and UUIDs in their mixed-endian wire form.

use vstd::prelude::*;
use vstd::slice::*;
use vstd::string::*;
use crate::bytes::{
    array16, be16, be16_at, be32_at, le16, le16_at, le32, le32_at, push_all, push_le16, push_le32,
    push_zeros, read_be16, read_le16, read_le32, trim_nul, trim_trailing_nul, zeros,
};
use crate::random::{dynamic_port, port_from, random_bytes};
use crate::text::{
    all_digits, ascii_lower, begins_with, chars_of, fits_hex, hex, hex_round_trip, lossy,
    parse_uint, push_hex, str_eq, to_ascii_lower, uint_of, utf8_lossy,
};
use crate::util::{ip_string, ip_text};

verus! {

/// PROFINET IO RPC port; the endpoint mapper answers on it.
pub const RPC_PORT: u16 = 0x8894;

/// RPC interface UUIDs, as canonical strings.
pub const UUID_EPM_V4: &'static str = "e1af8308-5d1f-11c9-91a4-08002b14a0fa";
pub const UUID_PNIO_DEVICE: &'static str = "dea00001-6c97-11d1-8271-00a02442df7d";
pub const UUID_PNIO_CONTROLLER: &'static str = "dea00002-6c97-11d1-8271-00a02442df7d";
pub const UUID_PNIO_SUPERVISOR: &'static str = "dea00003-6c97-11d1-8271-00a02442df7d";
pub const UUID_PNIO_PARAMSERVER: &'static str = "dea00004-6c97-11d1-8271-00a02442df7d";

/// The wire form of [`UUID_EPM_V4`].
pub const EPM_V4_BYTES: [u8; 16] = [
    0x08, 0x83, 0xAF, 0xE1, 0x1F, 0x5D, 0xC9, 0x11, 0x91, 0xA4, 0x08, 0x00, 0x2B, 0x14, 0xA0, 0xFA,
];

/// ept_lookup operation number.
pub const EPM_LOOKUP: u16 = 0x02;

/// Inquiry types: return all entries, filter by interface UUID.
pub const EPM_INQUIRY_ALL: u32 = 0x00;
pub const EPM_INQUIRY_INTERFACE: u32 = 0x01;

/// The digits of a UUID without hyphens: the first three fields are stored
/// little-endian, clock sequence and node big-endian.
pub open spec fn uuid_digits(d: Seq<u8>) -> Seq<char> {
    hex(le32_at(d, 0) as nat, 8, false) + hex(le16_at(d, 4) as nat, 4, false) + hex(
        le16_at(d, 6) as nat,
        4,
        false,
    ) + hex(be16_at(d, 8) as nat, 4, false) + hex(d[10] as nat, 2, false) + hex(
        d[11] as nat,
        2,
        false,
    ) + hex(d[12] as nat, 2, false) + hex(d[13] as nat, 2, false) + hex(d[14] as nat, 2, false)
        + hex(d[15] as nat, 2, false)
}

/// The canonical text of a UUID; empty if there are not exactly 16 bytes.
pub open spec fn uuid_text(d: Seq<u8>) -> Seq<char> {
    if d.len() != 16 {
        Seq::empty()
    } else {
        let t = uuid_digits(d);
        t.subrange(0, 8) + seq!['-'] + t.subrange(8, 12) + seq!['-'] + t.subrange(12, 16) + seq![
            '-',
        ] + t.subrange(16, 20) + seq!['-'] + t.subrange(20, 32)
    }
}

proof fn lemma_uuid_digits(d: Seq<u8>)
    requires
        d.len() == 16,
    ensures
        ({
            let t = uuid_digits(d);
            &&& t.len() == 32
            &&& t.subrange(0, 8) == hex(le32_at(d, 0) as nat, 8, false)
            &&& t.subrange(8, 12) == hex(le16_at(d, 4) as nat, 4, false)
            &&& t.subrange(12, 16) == hex(le16_at(d, 6) as nat, 4, false)
            &&& t.subrange(16, 20) == hex(be16_at(d, 8) as nat, 4, false)
            &&& t.subrange(20, 22) == hex(d[10] as nat, 2, false)
            &&& t.subrange(22, 24) == hex(d[11] as nat, 2, false)
            &&& t.subrange(24, 26) == hex(d[12] as nat, 2, false)
            &&& t.subrange(26, 28) == hex(d[13] as nat, 2, false)
            &&& t.subrange(28, 30) == hex(d[14] as nat, 2, false)
            &&& t.subrange(30, 32) == hex(d[15] as nat, 2, false)
        }),
{
    lemma_hex_len(le32_at(d, 0) as nat, 8);
    lemma_hex_len(le16_at(d, 4) as nat, 4);
    lemma_hex_len(le16_at(d, 6) as nat, 4);
    lemma_hex_len(be16_at(d, 8) as nat, 4);
    lemma_hex_len(d[10] as nat, 2);
    lemma_hex_len(d[11] as nat, 2);
    lemma_hex_len(d[12] as nat, 2);
    lemma_hex_len(d[13] as nat, 2);
    lemma_hex_len(d[14] as nat, 2);
    lemma_hex_len(d[15] as nat, 2);
    let t = uuid_digits(d);
    assert(t.subrange(0, 8) =~= hex(le32_at(d, 0) as nat, 8, false));
    assert(t.subrange(8, 12) =~= hex(le16_at(d, 4) as nat, 4, false));
    assert(t.subrange(12, 16) =~= hex(le16_at(d, 6) as nat, 4, false));
    assert(t.subrange(16, 20) =~= hex(be16_at(d, 8) as nat, 4, false));
    assert(t.subrange(20, 22) =~= hex(d[10] as nat, 2, false));
    assert(t.subrange(22, 24) =~= hex(d[11] as nat, 2, false));
    assert(t.subrange(24, 26) =~= hex(d[12] as nat, 2, false));
    assert(t.subrange(26, 28) =~= hex(d[13] as nat, 2, false));
    assert(t.subrange(28, 30) =~= hex(d[14] as nat, 2, false));
    assert(t.subrange(30, 32) =~= hex(d[15] as nat, 2, false));
}

proof fn lemma_hex_len(n: nat, width: nat)
    ensures
        hex(n, width, false).len() == width,
    decreases width,
{
    if width > 0 {
        lemma_hex_len(n / 16, (width - 1) as nat);
    }
}

/// Convert a 16-byte DCE/RPC UUID to string form. DCE/RPC UUIDs are
/// mixed-endian: the first three fields little-endian, the clock sequence and
/// node big-endian. Returns "" if not exactly 16 bytes.
pub fn uuid_bytes_to_string(data: &[u8]) -> (r: String)
    ensures
        r@ == uuid_text(data@),
{
    let mut s = String::new();
    if data.len() != 16 {
        return s;
    }
    push_hex(&mut s, read_le32(data, 0) as u64, 8, false);
    s.push('-');
    push_hex(&mut s, read_le16(data, 4) as u64, 4, false);
    s.push('-');
    push_hex(&mut s, read_le16(data, 6) as u64, 4, false);
    s.push('-');
    push_hex(&mut s, read_be16(data, 8) as u64, 4, false);
    s.push('-');
    push_hex(&mut s, data[10] as u64, 2, false);
    push_hex(&mut s, data[11] as u64, 2, false);
    push_hex(&mut s, data[12] as u64, 2, false);
    push_hex(&mut s, data[13] as u64, 2, false);
    push_hex(&mut s, data[14] as u64, 2, false);
    push_hex(&mut s, data[15] as u64, 2, false);
    proof {
        lemma_uuid_digits(data@);
        let t = uuid_digits(data@);
        assert(t.subrange(20, 32) =~= t.subrange(20, 22) + t.subrange(22, 24) + t.subrange(24, 26)
            + t.subrange(26, 28) + t.subrange(28, 30) + t.subrange(30, 32));
        assert(s@ =~= uuid_text(data@));
    }
    s
}

/// `s` without its hyphens.
pub open spec fn no_hyphens(s: Seq<char>) -> Seq<char>
    decreases s.len(),
{
    if s.len() == 0 {
        Seq::empty()
    } else if s.last() == '-' {
        no_hyphens(s.drop_last())
    } else {
        no_hyphens(s.drop_last()).push(s.last())
    }
}

/// The number that the digits from `from` to `to` write.
pub open spec fn uuid_field(p: Seq<char>, from: int, to: int) -> Option<nat> {
    uint_of(p.subrange(from, to), 16, u64::MAX as nat)
}

/// The bytes of a UUID's text: 32 characters besides hyphens, each field a
/// hexadecimal number.
pub open spec fn uuid_of_text(s: Seq<char>) -> Option<Seq<u8>> {
    let p = no_hyphens(s);
    if p.len() != 32 {
        None
    } else {
        match (
            (uuid_field(p, 0, 8), uuid_field(p, 8, 12), uuid_field(p, 12, 16), uuid_field(p, 16, 20)),
            (uuid_field(p, 20, 22), uuid_field(p, 22, 24), uuid_field(p, 24, 26)),
            (uuid_field(p, 26, 28), uuid_field(p, 28, 30), uuid_field(p, 30, 32)),
        ) {
            ((Some(a), Some(b), Some(c), Some(e)), (Some(f), Some(g), Some(h)), (Some(i), Some(j), Some(k))) => Some(
                le32(a as u32) + le16(b as u16) + le16(c as u16) + be16(e as u16) + seq![
                    f as u8,
                    g as u8,
                    h as u8,
                    i as u8,
                    j as u8,
                    k as u8,
                ],
            ),
            _ => None,
        }
    }
}

fn without_hyphens(s: &str) -> (r: Vec<char>)
    ensures
        r@ == no_hyphens(s@),
{
    let cs = chars_of(s);
    let mut out: Vec<char> = Vec::new();
    let mut i: usize = 0;
    while i < cs.len()
        invariant
            i <= cs@.len(),
            cs@ == s@,
            out@ == no_hyphens(s@.take(i as int)),
        decreases cs@.len() - i,
    {
        assert(s@.take(i + 1).drop_last() =~= s@.take(i as int));
        assert(s@.take(i + 1).last() == cs@[i as int]);
        if cs[i] != '-' {
            out.push(cs[i]);
        }
        i = i + 1;
    }
    assert(s@.take(i as int) =~= s@);
    out
}

fn field(p: &[char], from: usize, to: usize) -> (r: Option<u64>)
    requires
        from <= to <= p@.len(),
    ensures
        match uuid_field(p@, from as int, to as int) {
            Some(n) => r == Some(n as u64) && n <= u64::MAX,
            None => r is None,
        },
{
    parse_uint(slice_subrange(p, from, to), 16, u64::MAX)
}

/// Convert a UUID string to its 16-byte DCE/RPC mixed-endian form.
pub fn string_to_uuid_bytes(uuid_str: &str) -> (r: Result<[u8; 16], String>)
    ensures
        match uuid_of_text(uuid_str@) {
            Some(b) => r matches Ok(v) && v@ == b,
            None => r matches Err(e) && e@ == "Invalid UUID string: "@ + uuid_str@,
        },
{
    let p = without_hyphens(uuid_str);
    let parsed = if p.len() == 32 {
        uuid_fields(p.as_slice())
    } else {
        None
    };
    match parsed {
        Some(v) => Ok(v),
        None => {
            let mut e = "Invalid UUID string: ".to_owned();
            e.append(uuid_str);
            Err(e)
        },
    }
}

fn uuid_fields(p: &[char]) -> (r: Option<[u8; 16]>)
    requires
        p@.len() == 32,
    ensures
        forall|s: Seq<char>|
            #[trigger] no_hyphens(s) == p@ ==> match uuid_of_text(s) {
                Some(b) => r matches Some(v) && v@ == b,
                None => r is None,
            },
{
    let first = (field(p, 0, 8), field(p, 8, 12), field(p, 12, 16), field(p, 16, 20));
    let node = (field(p, 20, 22), field(p, 22, 24), field(p, 24, 26));
    let rest = (field(p, 26, 28), field(p, 28, 30), field(p, 30, 32));
    match (first, node, rest) {
        (
            (Some(a), Some(b), Some(c), Some(e)),
            (Some(f), Some(g), Some(h)),
            (Some(i), Some(j), Some(k)),
        ) => {
            let mut out: Vec<u8> = Vec::new();
            push_le32(&mut out, a as u32);
            push_le16(&mut out, b as u16);
            push_le16(&mut out, c as u16);
            crate::bytes::push_be16(&mut out, e as u16);
            out.push(f as u8);
            out.push(g as u8);
            out.push(h as u8);
            out.push(i as u8);
            out.push(j as u8);
            out.push(k as u8);
            let r = array16(out.as_slice(), 0);
            assert(r@ =~= le32(a as u32) + le16(b as u16) + le16(c as u16) + be16(e as u16) + seq![
                f as u8,
                g as u8,
                h as u8,
                i as u8,
                j as u8,
                k as u8,
            ]);
            Some(r)
        },
        _ => None,
    }
}

proof fn lemma_no_hyphens_concat(a: Seq<char>, b: Seq<char>)
    ensures
        no_hyphens(a + b) == no_hyphens(a) + no_hyphens(b),
    decreases b.len(),
{
    if b.len() == 0 {
        assert(a + b =~= a);
        assert(no_hyphens(a) + no_hyphens(b) =~= no_hyphens(a));
    } else {
        lemma_no_hyphens_concat(a, b.drop_last());
        assert((a + b).drop_last() =~= a + b.drop_last());
        if b.last() != '-' {
            assert(no_hyphens(a) + no_hyphens(b.drop_last()).push(b.last()) =~= (no_hyphens(a)
                + no_hyphens(b.drop_last())).push(b.last()));
        }
    }
}

proof fn lemma_no_hyphens_digits(s: Seq<char>)
    requires
        all_digits(s, 16),
    ensures
        no_hyphens(s) == s,
    decreases s.len(),
{
    if s.len() > 0 {
        assert(all_digits(s.drop_last(), 16)) by {
            assert forall|i: int| 0 <= i < s.len() - 1 implies crate::text::is_hex_digit(
                #[trigger] s.drop_last()[i],
            ) && crate::text::hex_value(s.drop_last()[i]) < 16 by {
                assert(s.drop_last()[i] == s[i]);
            }
        }
        lemma_no_hyphens_digits(s.drop_last());
        assert(crate::text::is_hex_digit(s[s.len() - 1]));
        assert(s.drop_last().push(s.last()) =~= s);
    } else {
        assert(no_hyphens(s) =~= s);
    }
}

/// The text of a UUID reads back as its bytes.
pub proof fn uuid_round_trip(d: Seq<u8>)
    requires
        d.len() == 16,
    ensures
        uuid_of_text(uuid_text(d)) == Some(d),
{
    let t = uuid_digits(d);
    lemma_uuid_digits(d);
    lemma_field(le32_at(d, 0) as nat, 8);
    lemma_field(le16_at(d, 4) as nat, 4);
    lemma_field(le16_at(d, 6) as nat, 4);
    lemma_field(be16_at(d, 8) as nat, 4);
    lemma_field(d[10] as nat, 2);
    lemma_field(d[11] as nat, 2);
    lemma_field(d[12] as nat, 2);
    lemma_field(d[13] as nat, 2);
    lemma_field(d[14] as nat, 2);
    lemma_field(d[15] as nat, 2);
    let a = t.subrange(0, 8);
    let b = t.subrange(8, 12);
    let c = t.subrange(12, 16);
    let e = t.subrange(16, 20);
    let n = t.subrange(20, 32);
    let node = t.subrange(20, 22) + t.subrange(22, 24) + t.subrange(24, 26) + t.subrange(26, 28)
        + t.subrange(28, 30) + t.subrange(30, 32);
    assert(n =~= node);
    let h = seq!['-'];
    assert(no_hyphens(h) =~= Seq::<char>::empty()) by {
        reveal_with_fuel(no_hyphens, 2);
        assert(h.last() == '-');
    }
    lemma_no_hyphens_digits(a);
    lemma_no_hyphens_digits(b);
    lemma_no_hyphens_digits(c);
    lemma_no_hyphens_digits(e);
    lemma_no_hyphens_digits(t.subrange(20, 22));
    lemma_no_hyphens_digits(t.subrange(22, 24));
    lemma_no_hyphens_digits(t.subrange(24, 26));
    lemma_no_hyphens_digits(t.subrange(26, 28));
    lemma_no_hyphens_digits(t.subrange(28, 30));
    lemma_no_hyphens_digits(t.subrange(30, 32));
    let n1 = t.subrange(20, 22) + t.subrange(22, 24);
    let n2 = n1 + t.subrange(24, 26);
    let n3 = n2 + t.subrange(26, 28);
    let n4 = n3 + t.subrange(28, 30);
    lemma_no_hyphens_concat(t.subrange(20, 22), t.subrange(22, 24));
    lemma_no_hyphens_concat(n1, t.subrange(24, 26));
    lemma_no_hyphens_concat(n2, t.subrange(26, 28));
    lemma_no_hyphens_concat(n3, t.subrange(28, 30));
    lemma_no_hyphens_concat(n4, t.subrange(30, 32));
    assert(no_hyphens(n) == n);
    lemma_no_hyphens_concat(a, h);
    lemma_no_hyphens_concat(a + h, b);
    lemma_no_hyphens_concat(a + h + b, h);
    lemma_no_hyphens_concat(a + h + b + h, c);
    lemma_no_hyphens_concat(a + h + b + h + c, h);
    lemma_no_hyphens_concat(a + h + b + h + c + h, e);
    lemma_no_hyphens_concat(a + h + b + h + c + h + e, h);
    lemma_no_hyphens_concat(a + h + b + h + c + h + e + h, n);
    let p = no_hyphens(uuid_text(d));
    assert(p =~= t);
    lemma_le32_of_read(d);
    lemma_le16_of_read(d, 4);
    lemma_le16_of_read(d, 6);
    crate::bytes::be16_of_read(d, 8);
    assert(uuid_of_text(uuid_text(d))->0 =~= d);
}

proof fn lemma_le16_of_read(d: Seq<u8>, off: int)
    requires
        0 <= off,
        off + 2 <= d.len(),
    ensures
        le16(le16_at(d, off)) == d.subrange(off, off + 2),
{
    assert(le16(le16_at(d, off)) =~= d.subrange(off, off + 2));
}

proof fn lemma_le32_of_read(d: Seq<u8>)
    requires
        d.len() >= 4,
    ensures
        le32(le32_at(d, 0)) == d.subrange(0, 4),
{
    let r = seq![d[3], d[2], d[1], d[0]];
    crate::bytes::be32_of_read(r, 0);
    assert(be32_at(r, 0) == le32_at(d, 0));
    let b = crate::bytes::be32(le32_at(d, 0));
    assert(r.subrange(0, 4) =~= r);
    assert(le32(le32_at(d, 0)) =~= seq![b[3], b[2], b[1], b[0]]);
    assert(d.subrange(0, 4) =~= seq![r[3], r[2], r[1], r[0]]);
}

proof fn lemma_field(n: nat, width: nat)
    requires
        (width == 8 && n <= 0xFFFF_FFFF) || (width == 4 && n <= 0xFFFF) || (width == 2 && n
            <= 0xFF),
    ensures
        hex(n, width, false).len() == width,
        all_digits(hex(n, width, false), 16),
        uint_of(hex(n, width, false), 16, u64::MAX as nat) == Some(n),
{
    reveal_with_fuel(fits_hex, 9);
    assert(fits_hex(n, width)) by {
        if width == 8 {
            assert(n / 16 <= 0xFFF_FFFF);
            assert(n / 16 / 16 <= 0xFF_FFFF);
            assert(n / 16 / 16 / 16 <= 0xF_FFFF);
            assert(n / 16 / 16 / 16 / 16 <= 0xFFFF);
            assert(n / 16 / 16 / 16 / 16 / 16 <= 0xFFF);
            assert(n / 16 / 16 / 16 / 16 / 16 / 16 <= 0xFF);
            assert(n / 16 / 16 / 16 / 16 / 16 / 16 / 16 <= 0xF);
        } else if width == 4 {
            assert(n / 16 <= 0xFFF);
            assert(n / 16 / 16 <= 0xFF);
            assert(n / 16 / 16 / 16 <= 0xF);
        }
    }
    hex_round_trip(n, width, false);
}

/// Parsed endpoint mapper entry.
#[derive(Debug, Clone, PartialEq, Eq, Default)]
pub struct EpmEndpoint {
    pub interface_uuid: String,
    pub interface_version_major: u16,
    pub interface_version_minor: u16,
    pub object_uuid: String,
    pub protocol: String,
    pub port: u16,
    pub address: String,
    /// Device model or article number.
    pub annotation: String,
}

/// What an [`EpmEndpoint`] says, as mathematical values.
#[verifier::ext_equal]
pub struct EpmModel {
    pub interface_uuid: Seq<char>,
    pub interface_version_major: u16,
    pub interface_version_minor: u16,
    pub object_uuid: Seq<char>,
    pub protocol: Seq<char>,
    pub port: u16,
    pub address: Seq<char>,
    pub annotation: Seq<char>,
}

impl View for EpmEndpoint {
    type V = EpmModel;

    open spec fn view(&self) -> EpmModel {
        EpmModel {
            interface_uuid: self.interface_uuid@,
            interface_version_major: self.interface_version_major,
            interface_version_minor: self.interface_version_minor,
            object_uuid: self.object_uuid@,
            protocol: self.protocol@,
            port: self.port,
            address: self.address@,
            annotation: self.annotation@,
        }
    }
}

/// The models of a list of endpoints.
pub open spec fn endpoint_models(s: Seq<EpmEndpoint>) -> Seq<EpmModel> {
    Seq::new(s.len(), |i: int| s[i]@)
}

/// The name of an interface, by its UUID in either case.
pub open spec fn interface_text(uuid: Seq<char>) -> Seq<char> {
    let u = ascii_lower(uuid);
    if u == UUID_PNIO_DEVICE@ {
        "PNIO-Device"@
    } else if u == UUID_PNIO_CONTROLLER@ {
        "PNIO-Controller"@
    } else if u == UUID_PNIO_SUPERVISOR@ {
        "PNIO-Supervisor"@
    } else if u == UUID_PNIO_PARAMSERVER@ {
        "PNIO-ParameterServer"@
    } else if u == UUID_EPM_V4@ {
        "EPM"@
    } else {
        "Unknown("@ + uuid + ")"@
    }
}

impl EpmEndpoint {
    /// Human-readable interface name.
    pub fn interface_name(&self) -> (r: String)
        ensures
            r@ == interface_text(self.interface_uuid@),
    {
        let u = to_ascii_lower(self.interface_uuid.as_str());
        if str_eq(u.as_str(), UUID_PNIO_DEVICE) {
            "PNIO-Device".to_owned()
        } else if str_eq(u.as_str(), UUID_PNIO_CONTROLLER) {
            "PNIO-Controller".to_owned()
        } else if str_eq(u.as_str(), UUID_PNIO_SUPERVISOR) {
            "PNIO-Supervisor".to_owned()
        } else if str_eq(u.as_str(), UUID_PNIO_PARAMSERVER) {
            "PNIO-ParameterServer".to_owned()
        } else if str_eq(u.as_str(), UUID_EPM_V4) {
            "EPM".to_owned()
        } else {
            let mut s = "Unknown(".to_owned();
            s.append(self.interface_uuid.as_str());
            s.append(")");
            s
        }
    }
}

/// The lookup body: inquiry type, no object, interface filter with its
/// version, and at most 100 entries.
pub open spec fn lookup_body(filter: Option<Seq<u8>>) -> Seq<u8> {
    (match filter {
        Some(uuid) => le32(1) + zeros(16) + uuid + le16(1),
        None => le32(0) + zeros(16) + zeros(16) + le16(0),
    }) + le16(0) + le32(0) + le32(0) + le32(100)
}

/// A lookup request: an 80-byte header, little-endian, for the endpoint mapper
/// interface in version 3, then the 52-byte body.
pub open spec fn lookup_request_bytes(activity_uuid: Seq<u8>, filter: Option<Seq<u8>>) -> Seq<u8> {
    seq![0x04u8, 0x00, 0x20, 0x00, 0x10, 0x00, 0x00, 0x00] + zeros(16) + EPM_V4_BYTES@
        + activity_uuid + le32(0) + le32(3) + le32(0) + le16(2) + le16(0xFFFF) + le16(0xFFFF)
        + le16(52) + le16(0) + seq![0x00u8, 0x00] + lookup_body(filter)
}

/// Build the lookup request datagram: an 80-byte DCE/RPC header (data
/// representation 0x10 = little-endian, interface version 3, opnum ept_lookup,
/// no object UUID) followed by the 52-byte lookup body. A filter that is no
/// UUID is an error.
pub fn epm_lookup_request(activity_uuid: &[u8; 16], interface_filter: Option<&str>) -> (r: Result<
    Vec<u8>,
    String,
>)
    ensures
        match interface_filter {
            None => r matches Ok(v) && v@ == lookup_request_bytes(activity_uuid@, None),
            Some(f) => match uuid_of_text(f@) {
                Some(u) => r matches Ok(v) && v@ == lookup_request_bytes(activity_uuid@, Some(u)),
                None => r matches Err(e) && e@ == "Invalid UUID string: "@ + f@,
            },
        },
{
    let mut body: Vec<u8> = Vec::new();
    match interface_filter {
        Some(f) => {
            let uuid = match string_to_uuid_bytes(f) {
                Ok(u) => u,
                Err(e) => {
                    return Err(e);
                },
            };
            push_le32(&mut body, EPM_INQUIRY_INTERFACE);
            push_zeros(&mut body, 16);
            push_all(&mut body, uuid.as_slice());
            push_le16(&mut body, 1);
        },
        None => {
            push_le32(&mut body, EPM_INQUIRY_ALL);
            push_zeros(&mut body, 16);
            push_zeros(&mut body, 16);
            push_le16(&mut body, 0);
        },
    }
    let ghost filter = match interface_filter {
        Some(f) => uuid_of_text(f@),
        None => None,
    };
    push_le16(&mut body, 0);
    push_le32(&mut body, 0);
    push_le32(&mut body, 0);
    push_le32(&mut body, 100);
    assert(body@ =~= lookup_body(filter));
    let mut out: Vec<u8> = Vec::new();
    out.push(0x04);  // version
    out.push(0x00);  // packet type: request
    out.push(0x20);  // flags1
    out.push(0x00);  // flags2
    out.push(0x10);  // data representation: little-endian
    out.push(0x00);
    out.push(0x00);
    out.push(0x00);  // serial high
    assert(out@ =~= seq![0x04u8, 0x00, 0x20, 0x00, 0x10, 0x00, 0x00, 0x00]);
    push_zeros(&mut out, 16);
    let iface = EPM_V4_BYTES;
    push_all(&mut out, iface.as_slice());
    push_all(&mut out, activity_uuid.as_slice());
    push_le32(&mut out, 0);  // server boot time
    push_le32(&mut out, 3);  // interface version
    push_le32(&mut out, 0);  // sequence number
    push_le16(&mut out, EPM_LOOKUP);
    push_le16(&mut out, 0xFFFF);  // interface hint
    push_le16(&mut out, 0xFFFF);  // activity hint
    push_le16(&mut out, body.len() as u16);
    push_le16(&mut out, 0);  // fragment number
    let ghost before = out@;
    out.push(0x00);  // authentication protocol
    out.push(0x00);  // serial low
    assert(out@ =~= before + seq![0x00u8, 0x00]);
    push_all(&mut out, body.as_slice());
    Ok(out)
}

/// What a lookup sends: the request, and the UDP port to send it from.
#[derive(Debug, Clone, PartialEq, Eq)]
pub struct EpmLookup {
    pub request: Vec<u8>,
    pub local_port: u16,
}

/// The lookup that 18 random bytes give: 16 for the activity UUID, 2 for the
/// port.
pub fn epm_lookup_from(rnd: &[u8], interface_filter: Option<&str>) -> (r: Result<EpmLookup, String>)
    requires
        rnd@.len() == 18,
    ensures
        match interface_filter {
            None => r matches Ok(l) && l.local_port == dynamic_port(rnd@[16], rnd@[17])
                && l.request@ == lookup_request_bytes(rnd@.take(16), None),
            Some(f) => match uuid_of_text(f@) {
                Some(u) => r matches Ok(l) && l.local_port == dynamic_port(rnd@[16], rnd@[17])
                    && l.request@ == lookup_request_bytes(rnd@.take(16), Some(u)),
                None => r matches Err(e) && e@ == "Invalid UUID string: "@ + f@,
            },
        },
{
    let activity_uuid = array16(rnd, 0);
    assert(rnd@.subrange(0, 16) =~= rnd@.take(16));
    match epm_lookup_request(&activity_uuid, interface_filter) {
        Ok(request) => Ok(EpmLookup { request, local_port: port_from(rnd[16], rnd[17]) }),
        Err(e) => Err(e),
    }
}

/// Prepare a lookup with a random activity UUID and source port. The caller
/// sends the request to port 34964 and hands the answer to
/// [`parse_epm_response`]; no answer means no endpoints. It fails where the
/// filter is no UUID, or the random source fails.
pub fn epm_lookup(interface_filter: Option<&str>) -> (r: Result<EpmLookup, String>)
    ensures
        r matches Ok(l) ==> l.local_port >= 49152 && exists|u: Seq<u8>|
            #![trigger lookup_request_bytes(u, None)]
            u.len() == 16 && match interface_filter {
                None => l.request@ == lookup_request_bytes(u, None),
                Some(f) => uuid_of_text(f@) is Some && l.request@ == lookup_request_bytes(
                    u,
                    uuid_of_text(f@),
                ),
            },
        r matches Err(e) ==> begins_with(e@, "getrandom failed: "@) || (interface_filter matches Some(f)
            && uuid_of_text(f@) is None && e@ == "Invalid UUID string: "@ + f@),
{
    let rnd = match random_bytes(18) {
        Ok(v) => v,
        Err(e) => {
            return Err(e);
        },
    };
    let r = epm_lookup_from(rnd.as_slice(), interface_filter);
    proof {
        let u = rnd@.take(16);
        let w = lookup_request_bytes(u, None);
        assert(u.len() == 16);
    }
    r
}

/// An endpoint of which nothing is known.
pub open spec fn blank_endpoint() -> EpmModel {
    EpmModel {
        interface_uuid: Seq::empty(),
        interface_version_major: 0,
        interface_version_minor: 0,
        object_uuid: Seq::empty(),
        protocol: Seq::empty(),
        port: 0,
        address: Seq::empty(),
        annotation: Seq::empty(),
    }
}

/// What a floor of a tower adds: 0x0D a UUID (the first floor's is the
/// interface), 0x0A connectionless RPC, 0x08 a UDP port, 0x09 an IPv4 address.
pub open spec fn apply_floor(e: EpmModel, first: bool, lhs: Seq<u8>, rhs: Seq<u8>) -> EpmModel {
    if lhs.len() == 0 {
        e
    } else if lhs[0] == 0x0D && lhs.len() >= 19 {
        if first {
            EpmModel {
                interface_uuid: uuid_text(lhs.subrange(1, 17)),
                interface_version_major: le16_at(lhs, 17),
                interface_version_minor: if rhs.len() >= 2 {
                    le16_at(rhs, 0)
                } else {
                    e.interface_version_minor
                },
                ..e
            }
        } else {
            e
        }
    } else if lhs[0] == 0x0A {
        EpmModel { protocol: "ncadg_ip_udp"@, ..e }
    } else if lhs[0] == 0x08 && rhs.len() >= 2 {
        EpmModel { port: be16_at(rhs, 0), ..e }
    } else if lhs[0] == 0x09 && rhs.len() >= 4 {
        EpmModel { address: ip_text(rhs), ..e }
    } else {
        e
    }
}

/// The two sides of the floor at `off` and the offset behind it: each side
/// stands behind its 16-bit length.
pub open spec fn floor_at(tower: Seq<u8>, off: int) -> Option<(Seq<u8>, Seq<u8>, int)> {
    let l = le16_at(tower, off) as int;
    let m = off + 2 + l;
    let n = le16_at(tower, m) as int;
    if off + 4 > tower.len() || m + 2 > tower.len() || m + 2 + n > tower.len() {
        None
    } else {
        Some((tower.subrange(off + 2, m), tower.subrange(m + 2, m + 2 + n), m + 2 + n))
    }
}

/// What up to `n` floors from `off` on add; `first` tells whether the first of
/// them is the tower's first.
pub open spec fn floors_from(tower: Seq<u8>, off: int, n: nat, first: bool, e: EpmModel) -> EpmModel
    decreases n,
{
    if n == 0 {
        e
    } else {
        match floor_at(tower, off) {
            None => e,
            Some((lhs, rhs, next)) => floors_from(
                tower,
                next,
                (n - 1) as nat,
                false,
                apply_floor(e, first, lhs, rhs),
            ),
        }
    }
}

/// The endpoint that a tower describes; none without an interface UUID.
pub open spec fn tower_endpoint(tower: Seq<u8>) -> Option<EpmModel> {
    let e = floors_from(tower, 2, le16_at(tower, 0) as nat, true, blank_endpoint());
    if tower.len() < 4 || e.interface_uuid.len() == 0 {
        None
    } else {
        Some(e)
    }
}

fn parse_floor(tower: &[u8], off: usize) -> (r: Option<(&[u8], &[u8], usize)>)
    requires
        off <= tower@.len(),
    ensures
        match floor_at(tower@, off as int) {
            Some((lhs, rhs, next)) => r matches Some((a, b, n)) && a@ == lhs && b@ == rhs && n
                == next && off < n <= tower@.len(),
            None => r is None,
        },
{
    let total: usize = tower.len();
    if total - off < 4 {
        return None;
    }
    let l: usize = read_le16(tower, off) as usize;
    if total - off - 2 < l || total - off - 2 - l < 2 {
        return None;
    }
    let m: usize = off + 2 + l;
    let n: usize = read_le16(tower, m) as usize;
    if total - m - 2 < n {
        return None;
    }
    Some((slice_subrange(tower, off + 2, m), slice_subrange(tower, m + 2, m + 2 + n), m + 2 + n))
}

fn blank() -> (r: EpmEndpoint)
    ensures
        r@ == blank_endpoint(),
{
    EpmEndpoint {
        interface_uuid: String::new(),
        interface_version_major: 0,
        interface_version_minor: 0,
        object_uuid: String::new(),
        protocol: String::new(),
        port: 0,
        address: String::new(),
        annotation: String::new(),
    }
}

/// Parse a protocol tower to extract endpoint info: floor count, then per
/// floor a left side (protocol identifier) and a right side (address data),
/// both with 16-bit little-endian length prefixes. None if no interface UUID
/// was found.
pub fn parse_epm_tower(tower: &[u8]) -> (r: Option<EpmEndpoint>)
    ensures
        match tower_endpoint(tower@) {
            Some(m) => r matches Some(e) && e@ == m,
            None => r is None,
        },
{
    if tower.len() < 4 {
        return None;
    }
    let count: u16 = read_le16(tower, 0);
    let mut left: u16 = count;
    let mut off: usize = 2;
    let mut endpoint = blank();
    let mut stop = false;
    while left > 0 && !stop
        invariant
            off <= tower@.len(),
            left <= count,
            stop ==> endpoint@ == floors_from(
                tower@,
                2,
                count as nat,
                true,
                blank_endpoint(),
            ),
            !stop ==> floors_from(tower@, off as int, left as nat, left == count, endpoint@)
                == floors_from(tower@, 2, count as nat, true, blank_endpoint()),
        decreases
                left + (if stop {
                    0int
                } else {
                    1int
                }),
    {
        match parse_floor(tower, off) {
            None => {
                stop = true;
            },
            Some((lhs, rhs, next)) => {
                let ghost before = endpoint@;
                if lhs.len() > 0 {
                    let kind: u8 = lhs[0];
                    if kind == 0x0D && lhs.len() >= 19 {
                        if left == count {
                            endpoint.interface_uuid = uuid_bytes_to_string(
                                slice_subrange(lhs, 1, 17),
                            );
                            endpoint.interface_version_major = read_le16(lhs, 17);
                            if rhs.len() >= 2 {
                                endpoint.interface_version_minor = read_le16(rhs, 0);
                            }
                        }
                    } else if kind == 0x0A {
                        endpoint.protocol = "ncadg_ip_udp".to_owned();
                    } else if kind == 0x08 && rhs.len() >= 2 {
                        endpoint.port = read_be16(rhs, 0);
                    } else if kind == 0x09 && rhs.len() >= 4 {
                        endpoint.address = ip_string(rhs[0], rhs[1], rhs[2], rhs[3]);
                    }
                }
                assert(endpoint@ =~= apply_floor(before, left == count, lhs@, rhs@));
                off = next;
                left = left - 1;
            },
        }
    }
    if endpoint.interface_uuid.as_str().is_empty() {
        None
    } else {
        Some(endpoint)
    }
}

/// The body of a lookup response, as far as it reaches; empty for what is no
/// response.
pub open spec fn response_body(data: Seq<u8>) -> Seq<u8> {
    let end = 80 + le16_at(data, 74);
    if data.len() < 80 || data[1] != 0x02 {
        Seq::empty()
    } else {
        data.subrange(
            80,
            if end < data.len() {
                end
            } else {
                data.len() as int
            },
        )
    }
}

/// `n` rounded up to a multiple of four.
pub open spec fn up4(n: int) -> int {
    (n + 3) / 4 * 4
}

/// The annotation of the entry whose length field stands at `at`: its text
/// without trailing zero bytes, empty if it overruns the body.
pub open spec fn annotation_at(body: Seq<u8>, at: int) -> Seq<char> {
    let len = le32_at(body, at) as int;
    if len > 0 && at + 4 + len <= body.len() {
        lossy(trim_nul(body.subrange(at + 4, at + 4 + len)))
    } else {
        Seq::empty()
    }
}

/// Up to `n` entries from `off` on: object UUID, tower pointer, annotation
/// behind its length, then, aligned, the tower behind its length. An entry
/// whose tower has no interface is left out; one that overruns the body ends
/// the list.
pub open spec fn entries_from(body: Seq<u8>, off: int, n: nat) -> Seq<EpmModel>
    decreases n,
{
    let at = off + 20;
    let t = up4(at + 4 + le32_at(body, at));
    let len = le32_at(body, t) as int;
    if n == 0 || off + 24 > body.len() || t + 4 > body.len() || t + 4 + len > body.len() {
        Seq::empty()
    } else {
        let rest = entries_from(body, up4(t + 4 + len), (n - 1) as nat);
        match tower_endpoint(body.subrange(t + 4, t + 4 + len)) {
            Some(e) => seq![
                EpmModel {
                    object_uuid: uuid_text(body.subrange(off, off + 16)),
                    annotation: annotation_at(body, at),
                    ..e
                },
            ] + rest,
            None => rest,
        }
    }
}

/// The endpoints that a lookup response lists.
pub open spec fn response_endpoints(data: Seq<u8>) -> Seq<EpmModel> {
    let body = response_body(data);
    if body.len() < 12 {
        Seq::empty()
    } else {
        entries_from(body, 20, le32_at(body, 4) as nat)
    }
}

/// Parse a lookup response datagram into endpoints: short packets, faults and
/// other packet types yield an empty list; the body length is read
/// little-endian at offset 74; entries carry object UUID, annotation and the
/// tower, each 4-byte aligned.
pub fn parse_epm_response(data: &[u8]) -> (r: Vec<EpmEndpoint>)
    ensures
        endpoint_models(r@) == response_endpoints(data@),
{
    let mut endpoints: Vec<EpmEndpoint> = Vec::new();
    assert(endpoint_models(endpoints@) =~= Seq::<EpmModel>::empty());
    if data.len() < 80 {
        return endpoints;
    }
    if data[1] != 0x02 {
        return endpoints;
    }
    let body_len: usize = read_le16(data, 74) as usize;
    let end: usize = if 80 + body_len < data.len() {
        80 + body_len
    } else {
        data.len()
    };
    let body = slice_subrange(data, 80, end);
    if body.len() < 12 {
        return endpoints;
    }
    let mut left: u32 = read_le32(body, 4);
    let mut off: u64 = 20;
    let ghost want = response_endpoints(data@);
    assert(body@ =~= response_body(data@));
    assert(endpoint_models(endpoints@) + want =~= want);
    while left > 0
        invariant
            body@.len() <= 0xFFFF,
            off <= 0x2_0000_0000,
            want == response_endpoints(data@),
            endpoint_models(endpoints@) + entries_from(body@, off as int, left as nat) == want,
        decreases left,
    {
        let ghost rest = entries_from(body@, off as int, left as nat);
        let total: u64 = body.len() as u64;
        if off + 24 > total {
            assert(endpoint_models(endpoints@) + Seq::<EpmModel>::empty() =~= endpoint_models(
                endpoints@,
            ));
            return endpoints;
        }
        let o: usize = off as usize;
        let object_uuid = uuid_bytes_to_string(slice_subrange(body, o, o + 16));
        let note_len: u64 = read_le32(body, o + 20) as u64;
        let annotation = if note_len > 0 && off + 24 + note_len <= total {
            utf8_lossy(
                trim_trailing_nul(slice_subrange(body, o + 24, o + 24 + note_len as usize)),
            )
        } else {
            String::new()
        };
        assert(annotation@ == annotation_at(body@, off + 20));
        let t: u64 = (off + 24 + note_len + 3) / 4 * 4;
        if t + 4 > total {
            assert(endpoint_models(endpoints@) + Seq::<EpmModel>::empty() =~= endpoint_models(
                endpoints@,
            ));
            return endpoints;
        }
        let len: u64 = read_le32(body, t as usize) as u64;
        if t + 4 + len > total {
            assert(endpoint_models(endpoints@) + Seq::<EpmModel>::empty() =~= endpoint_models(
                endpoints@,
            ));
            return endpoints;
        }
        let from: usize = t as usize + 4;
        let next: u64 = (t + 4 + len + 3) / 4 * 4;
        let ghost tail = entries_from(body@, next as int, (left - 1) as nat);
        match parse_epm_tower(slice_subrange(body, from, from + len as usize)) {
            Some(found) => {
                let mut endpoint = found;
                endpoint.object_uuid = object_uuid;
                endpoint.annotation = annotation;
                let ghost before = endpoints@;
                endpoints.push(endpoint);
                proof {
                    assert(endpoint_models(endpoints@) =~= endpoint_models(before).push(
                        endpoint@,
                    ));
                    assert(rest =~= seq![endpoint@] + tail);
                    assert(endpoint_models(before) + (seq![endpoint@] + tail) =~= endpoint_models(
                        endpoints@,
                    ) + tail);
                }
            },
            None => {
                assert(rest =~= tail);
            },
        }
        off = next;
        left = left - 1;
    }
    assert(endpoint_models(endpoints@) + Seq::<EpmModel>::empty() =~= endpoint_models(endpoints@));
    endpoints
}

} // verus!
