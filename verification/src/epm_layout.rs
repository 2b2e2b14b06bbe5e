//! How the endpoint mapper's packets are laid out, and that what is read from an
//! answer is what the device states.

use vstd::prelude::*;
use vstd::string::*;
use vstd::utf8::encode_utf8;
use crate::bytes::{be16, be16_placed, le16, le16_at, le32, le32_at, trimmed_of_padded, zeros};
use crate::epm::{
    annotation_at, apply_floor, blank_endpoint, entries_from, floor_at, floors_from, lookup_body,
    lookup_request_bytes, response_body, response_endpoints, tower_endpoint, up4, uuid_text,
    EpmModel, EPM_V4_BYTES,
};
use crate::text::lossy_of_encoded;
use crate::util::ip_text;

verus! {

proof fn lemma_le16_placed(s: Seq<u8>, off: int, x: u16)
    requires
        0 <= off,
        off + 2 <= s.len(),
        s[off] == le16(x)[0],
        s[off + 1] == le16(x)[1],
    ensures
        le16_at(s, off) == x,
{
}

proof fn lemma_le32_placed(s: Seq<u8>, off: int, x: u32)
    requires
        0 <= off,
        off + 4 <= s.len(),
        s[off] == le32(x)[0],
        s[off + 1] == le32(x)[1],
        s[off + 2] == le32(x)[2],
        s[off + 3] == le32(x)[3],
    ensures
        le32_at(s, off) == x,
{
}

/// What a floor of a tower states.
pub enum Floor {
    /// An interface: UUID, major version, minor version.
    Interface { uuid: Seq<u8>, major: u16, minor: u16 },
    /// The connectionless RPC protocol.
    Protocol { minor: u16 },
    /// The UDP port.
    Port(u16),
    /// The IP address.
    Address(Seq<u8>),
    /// Anything else.
    Other { lhs: Seq<u8>, rhs: Seq<u8> },
}

impl Floor {
    pub open spec fn valid(self) -> bool {
        match self {
            Floor::Interface { uuid, .. } => uuid.len() == 16,
            Floor::Address(ip) => ip.len() == 4,
            Floor::Other { lhs, rhs } => 0 < lhs.len() <= 0xFFFF && rhs.len() <= 0xFFFF && lhs[0]
                != 0x0D && lhs[0] != 0x0A && lhs[0] != 0x08 && lhs[0] != 0x09,
            _ => true,
        }
    }

    /// Its left side.
    pub open spec fn lhs(self) -> Seq<u8> {
        match self {
            Floor::Interface { uuid, major, .. } => seq![0x0Du8] + uuid + le16(major),
            Floor::Protocol { .. } => seq![0x0Au8],
            Floor::Port(_) => seq![0x08u8],
            Floor::Address(_) => seq![0x09u8],
            Floor::Other { lhs, .. } => lhs,
        }
    }

    /// Its right side.
    pub open spec fn rhs(self) -> Seq<u8> {
        match self {
            Floor::Interface { minor, .. } => le16(minor),
            Floor::Protocol { minor } => le16(minor),
            Floor::Port(port) => be16(port),
            Floor::Address(ip) => ip,
            Floor::Other { rhs, .. } => rhs,
        }
    }

    /// Its bytes: both sides behind their lengths.
    #[verifier::opaque]
    pub open spec fn laid_out(self) -> Seq<u8> {
        le16(self.lhs().len() as u16) + self.lhs() + le16(self.rhs().len() as u16) + self.rhs()
    }

    /// What it adds to what is known: of interfaces, only the one on the first
    /// floor counts.
    #[verifier::opaque]
    pub open spec fn told(self, e: EpmModel, first: bool) -> EpmModel {
        match self {
            Floor::Interface { uuid, major, minor } => if first {
                EpmModel {
                    interface_uuid: uuid_text(uuid),
                    interface_version_major: major,
                    interface_version_minor: minor,
                    ..e
                }
            } else {
                e
            },
            Floor::Protocol { .. } => EpmModel { protocol: "ncadg_ip_udp"@, ..e },
            Floor::Port(port) => EpmModel { port, ..e },
            Floor::Address(ip) => EpmModel { address: ip_text(ip), ..e },
            Floor::Other { .. } => e,
        }
    }
}

/// Floors, one behind the other.
pub open spec fn laid_out_floors(s: Seq<Floor>) -> Seq<u8>
    decreases s.len(),
{
    if s.len() == 0 {
        Seq::empty()
    } else {
        s[0].laid_out() + laid_out_floors(s.skip(1))
    }
}

/// What floors tell, in order.
pub open spec fn floors_told(s: Seq<Floor>, first: bool, e: EpmModel) -> EpmModel
    decreases s.len(),
{
    if s.len() == 0 {
        e
    } else {
        floors_told(s.skip(1), false, s[0].told(e, first))
    }
}

proof fn lemma_floor_told(f: Floor, e: EpmModel, first: bool)
    requires
        f.valid(),
    ensures
        apply_floor(e, first, f.lhs(), f.rhs()) == f.told(e, first),
        0 < f.lhs().len() <= 0xFFFF,
        f.rhs().len() <= 0xFFFF,
{
    reveal(Floor::told);
    match f {
        Floor::Interface { uuid, major, minor } => {
            let l = f.lhs();
            assert(l.subrange(1, 17) =~= uuid);
            lemma_le16_placed(l, 17, major);
            lemma_le16_placed(f.rhs(), 0, minor);
        },
        Floor::Port(port) => {
            be16_placed(f.rhs(), 0, port);
        },
        _ => {},
    }
}

proof fn lemma_floor_at(pre: Seq<u8>, f: Floor, post: Seq<u8>)
    requires
        f.valid(),
    ensures
        floor_at(pre + f.laid_out() + post, pre.len() as int) == Some(
            (f.lhs(), f.rhs(), (pre.len() + f.laid_out().len()) as int),
        ),
{
    reveal(Floor::laid_out);
    lemma_floor_told(f, blank_endpoint(), true);
    let l = f.lhs();
    let r = f.rhs();
    let d = pre + f.laid_out() + post;
    let k = pre.len() as int;
    let m = k + 2 + l.len();
    lemma_le16_placed(d, k, l.len() as u16);
    lemma_le16_placed(d, m, r.len() as u16);
    assert(d.subrange(k + 2, m) =~= l);
    assert(d.subrange(m + 2, m + 2 + r.len()) =~= r);
}

proof fn lemma_floors(pre: Seq<u8>, s: Seq<Floor>, post: Seq<u8>, first: bool, e: EpmModel)
    requires
        forall|i: int| 0 <= i < s.len() ==> (#[trigger] s[i]).valid(),
    ensures
        floors_from(pre + laid_out_floors(s) + post, pre.len() as int, s.len(), first, e)
            == floors_told(s, first, e),
    decreases s.len(),
{
    let d = pre + laid_out_floors(s) + post;
    if s.len() > 0 {
        let f = s[0].laid_out();
        let rest = s.skip(1);
        let tail = laid_out_floors(rest);
        assert(s[0].valid());
        lemma_floor_at(pre, s[0], tail + post);
        lemma_floor_told(s[0], e, first);
        assert(d =~= pre + f + (tail + post));
        assert forall|i: int| 0 <= i < rest.len() implies (#[trigger] rest[i]).valid() by {
            assert(rest[i] == s[i + 1]);
        }
        lemma_floors(pre + f, rest, post, false, s[0].told(e, first));
        assert(d =~= (pre + f) + tail + post);
    }
}

/// A tower: the number of its floors, and the floors.
pub open spec fn laid_out_tower(s: Seq<Floor>) -> Seq<u8> {
    le16(s.len() as u16) + laid_out_floors(s)
}

proof fn lemma_uuid_kept(s: Seq<Floor>, e: EpmModel)
    ensures
        floors_told(s, false, e).interface_uuid == e.interface_uuid,
    decreases s.len(),
{
    if s.len() > 0 {
        reveal(Floor::told);
        lemma_uuid_kept(s.skip(1), s[0].told(e, false));
    }
}

/// A tower tells its endpoint: the interface of the first floor with its version,
/// and protocol, port and address of the others, each from its own floor.
pub proof fn towers_tell_their_endpoint(s: Seq<Floor>)
    requires
        0 < s.len() <= 0xFFFF,
        s[0] is Interface,
        forall|i: int| 0 <= i < s.len() ==> (#[trigger] s[i]).valid(),
    ensures
        tower_endpoint(laid_out_tower(s)) == Some(floors_told(s, true, blank_endpoint())),
        floors_told(s, true, blank_endpoint()).interface_uuid == uuid_text(s[0]->uuid),
{
    let t = laid_out_tower(s);
    let n = le16(s.len() as u16);
    lemma_le16_placed(t, 0, s.len() as u16);
    lemma_floors(n, s, Seq::empty(), true, blank_endpoint());
    assert(n + laid_out_floors(s) + Seq::empty() =~= t);
    assert(s[0].valid());
    reveal(Floor::told);
    lemma_uuid_kept(s.skip(1), s[0].told(blank_endpoint(), true));
    assert(s[0].laid_out().len() >= 4) by {
        reveal(Floor::laid_out);
    }
    assert(uuid_text(s[0]->uuid).len() > 0);
}

/// An entry of an answer: object UUID, annotation (with NUL bytes behind it), and
/// the floors of its tower.
pub struct StatedEndpoint {
    pub object: Seq<u8>,
    pub pointer: Seq<u8>,
    pub annotation: Seq<char>,
    pub nuls: nat,
    pub floors: Seq<Floor>,
}

impl StatedEndpoint {
    pub open spec fn valid(self) -> bool {
        &&& self.object.len() == 16
        &&& self.pointer.len() == 4
        &&& encode_utf8(self.annotation).len() > 0
        &&& encode_utf8(self.annotation).last() != 0
        &&& encode_utf8(self.annotation).len() + self.nuls <= 0xFFFF
        &&& 0 < self.floors.len() <= 0xFFFF
        &&& self.floors[0] is Interface
        &&& laid_out_tower(self.floors).len() <= 0xFFFF
        &&& forall|i: int| 0 <= i < self.floors.len() ==> (#[trigger] self.floors[i]).valid()
    }

    /// The annotation's bytes.
    pub open spec fn note(self) -> Seq<u8> {
        encode_utf8(self.annotation) + zeros(self.nuls)
    }

    /// Its bytes at an offset of the body. Annotation and tower are followed by
    /// bytes up to a multiple of four.
    #[verifier::opaque]
    pub open spec fn laid_out(self, at: int) -> Seq<u8> {
        let tower = laid_out_tower(self.floors);
        let front = self.object + self.pointer + le32(self.note().len() as u32) + self.note();
        let filled = front + zeros(((4 - (at + front.len()) % 4) % 4) as nat);
        let all = filled + le32(tower.len() as u32) + tower;
        all + zeros(((4 - (at + all.len()) % 4) % 4) as nat)
    }

    /// What it states.
    #[verifier::opaque]
    pub open spec fn says(self) -> EpmModel {
        EpmModel {
            object_uuid: uuid_text(self.object),
            annotation: self.annotation,
            ..floors_told(self.floors, true, blank_endpoint())
        }
    }
}

/// Entries, one behind the other, from an offset of the body on.
pub open spec fn laid_out_entries(s: Seq<StatedEndpoint>, at: int) -> Seq<u8>
    decreases s.len(),
{
    if s.len() == 0 {
        Seq::empty()
    } else {
        s[0].laid_out(at) + laid_out_entries(s.skip(1), at + s[0].laid_out(at).len())
    }
}

proof fn lemma_filled(at: int, n: int)
    requires
        0 <= at,
        0 <= n,
    ensures
        up4(at + n) == at + n + (4 - (at + n) % 4) % 4,
        0 <= (4 - (at + n) % 4) % 4 < 4,
{
}

/// The pieces of an entry stand where they are looked for.
proof fn lemma_entry_pieces(pre: Seq<u8>, e: StatedEndpoint, post: Seq<u8>)
    requires
        e.valid(),
    ensures
        ({
            let off = pre.len() as int;
            let d = pre + e.laid_out(off) + post;
            let at = off + 20;
            let t = up4(at + 4 + le32_at(d, at));
            let len = le32_at(d, t) as int;
            let tower = laid_out_tower(e.floors);
            &&& d.subrange(off, off + 16) == e.object
            &&& le32_at(d, at) == e.note().len()
            &&& at + 4 + e.note().len() <= d.len()
            &&& d.subrange(at + 4, at + 4 + e.note().len()) == e.note()
            &&& t + 4 + len <= d.len()
            &&& len == tower.len()
            &&& d.subrange(t + 4, t + 4 + len) == tower
            &&& up4(t + 4 + len) == off + e.laid_out(off).len()
        }),
{
    reveal(StatedEndpoint::laid_out);
    let off = pre.len() as int;
    let note = e.note();
    let tower = laid_out_tower(e.floors);
    let n = note.len() as u32;
    let front = e.object + e.pointer + le32(n) + note;
    let p = ((4 - (off + front.len()) % 4) % 4) as nat;
    let filled = front + zeros(p);
    let all = filled + le32(tower.len() as u32) + tower;
    let q = ((4 - (off + all.len()) % 4) % 4) as nat;
    let d = pre + e.laid_out(off) + post;
    lemma_filled(off, front.len() as int);
    lemma_filled(off, all.len() as int);
    assert(front.len() == 24 + note.len());
    let behind = zeros(p) + (le32(tower.len() as u32) + tower + zeros(q)) + post;
    assert(d =~= pre + front + behind);
    assert(d.subrange(off, off + 16) =~= e.object);
    lemma_le32_placed(d, off + 20, n);
    assert(d.subrange(off + 24, off + 24 + note.len()) =~= note);
    let t = off + filled.len();
    assert(up4(off + 24 + note.len()) == t);
    let m = tower.len() as u32;
    assert(d =~= (pre + filled) + (le32(m) + tower + zeros(q) + post));
    lemma_le32_placed(d, t, m);
    assert(d.subrange(t + 4, t + 4 + tower.len()) =~= tower);
}

proof fn lemma_first_entry(pre: Seq<u8>, e: StatedEndpoint, post: Seq<u8>, n: nat)
    requires
        e.valid(),
    ensures
        ({
            let off = pre.len() as int;
            let d = pre + e.laid_out(off) + post;
            entries_from(d, off, n + 1) == seq![e.says()] + entries_from(
                d,
                off + e.laid_out(off).len(),
                n,
            )
        }),
{
    reveal(StatedEndpoint::says);
    lemma_entry_pieces(pre, e, post);
    towers_tell_their_endpoint(e.floors);
    trimmed_of_padded(encode_utf8(e.annotation), e.nuls);
    lossy_of_encoded(e.annotation);
    let d = pre + e.laid_out(pre.len() as int) + post;
    assert(annotation_at(d, pre.len() as int + 20) == e.annotation);
}

proof fn lemma_entries(pre: Seq<u8>, s: Seq<StatedEndpoint>)
    requires
        forall|i: int| 0 <= i < s.len() ==> (#[trigger] s[i]).valid(),
    ensures
        entries_from(
            pre + laid_out_entries(s, pre.len() as int),
            pre.len() as int,
            s.len(),
        ) == Seq::new(s.len(), |i: int| s[i].says()),
    decreases s.len(),
{
    let off = pre.len() as int;
    let d = pre + laid_out_entries(s, off);
    let want = Seq::new(s.len(), |i: int| s[i].says());
    if s.len() > 0 {
        let first = s[0].laid_out(off);
        let rest = s.skip(1);
        let tail = laid_out_entries(rest, off + first.len());
        assert(s[0].valid());
        lemma_first_entry(pre, s[0], tail, rest.len());
        assert(d =~= pre + first + tail);
        assert forall|i: int| 0 <= i < rest.len() implies (#[trigger] rest[i]).valid() by {
            assert(rest[i] == s[i + 1]);
        }
        lemma_entries(pre + first, rest);
        assert(d =~= (pre + first) + tail);
        assert(want =~= seq![s[0].says()] + Seq::new(rest.len(), |i: int| rest[i].says()));
    } else {
        assert(want =~= Seq::empty());
    }
}

/// Every endpoint of an answer is found, in order, with its own object, annotation,
/// interface, version, protocol, port and address.
pub proof fn every_endpoint_is_found(
    head: Seq<u8>,
    handle: Seq<u8>,
    middle: Seq<u8>,
    s: Seq<StatedEndpoint>,
    padding: Seq<u8>,
)
    requires
        head.len() == 80,
        head[1] == 0x02,
        handle.len() == 4,
        middle.len() == 12,
        s.len() <= 0xFFFF_FFFF,
        20 + laid_out_entries(s, 20).len() <= 0xFFFF,
        le16_at(head, 74) == 20 + laid_out_entries(s, 20).len(),
        forall|i: int| 0 <= i < s.len() ==> (#[trigger] s[i]).valid(),
    ensures
        response_endpoints(
            head + (handle + le32(s.len() as u32) + middle + laid_out_entries(s, 20)) + padding,
        ) == Seq::new(s.len(), |i: int| s[i].says()),
{
    let n = s.len() as u32;
    let front = handle + le32(n) + middle;
    let body = handle + le32(n) + middle + laid_out_entries(s, 20);
    let d = head + body + padding;
    assert(front.len() == 20);
    assert(body =~= front + laid_out_entries(s, 20));
    assert(d[1] == head[1]);
    assert(d[74] == head[74] && d[75] == head[75]);
    assert(response_body(d) =~= body);
    lemma_le32_placed(body, 4, n);
    lemma_entries(front, s);
}

/// Every field of a lookup request: a little-endian request of operation 2 to the
/// endpoint mapper with the activity's UUID; without a filter it inquires after all
/// interfaces, with one after that interface, and it asks for up to 100 entries.
pub proof fn lookups_have_their_layout(activity_uuid: Seq<u8>, filter: Option<Seq<u8>>)
    requires
        activity_uuid.len() == 16,
        filter matches Some(f) ==> f.len() == 16,
    ensures
        ({
            let r = lookup_request_bytes(activity_uuid, filter);
            let b = r.skip(80);
            &&& r.len() == 132
            &&& r.subrange(0, 8) == seq![4u8, 0, 0x20, 0, 0x10, 0, 0, 0]
            &&& r.subrange(8, 24) == zeros(16)
            &&& r.subrange(24, 40) == EPM_V4_BYTES@
            &&& r.subrange(40, 56) == activity_uuid
            &&& le32_at(r, 60) == 3
            &&& le32_at(r, 64) == 0
            &&& le16_at(r, 68) == 2
            &&& le16_at(r, 74) == 52
            &&& le32_at(b, 0) == if filter is Some {
                1u32
            } else {
                0u32
            }
            &&& b.subrange(20, 36) == match filter {
                Some(f) => f,
                None => zeros(16),
            }
            &&& le32_at(b, 48) == 100
        }),
{
    let r = lookup_request_bytes(activity_uuid, filter);
    let b = lookup_body(filter);
    let kind: u32 = if filter is Some {
        1
    } else {
        0
    };
    let front = seq![0x04u8, 0x00, 0x20, 0x00, 0x10, 0x00, 0x00, 0x00] + zeros(16) + EPM_V4_BYTES@
        + activity_uuid;
    let numbers = le32(0) + le32(3) + le32(0) + le16(2) + le16(0xFFFF) + le16(0xFFFF) + le16(52)
        + le16(0) + seq![0x00u8, 0x00];
    assert(EPM_V4_BYTES@.len() == 16);
    assert(b.len() == 52);
    assert(r =~= front + numbers + b);
    assert(numbers.len() == 24);
    lemma_le32_placed(numbers, 4, 3);
    lemma_le32_placed(numbers, 8, 0);
    lemma_le16_placed(numbers, 12, 2);
    lemma_le16_placed(numbers, 18, 52);
    assert(forall|i: int| 56 <= i < 80 ==> #[trigger] r[i] == numbers[i - 56]);
    assert(r.skip(80) =~= b);
    assert(r.subrange(0, 8) =~= seq![4u8, 0, 0x20, 0, 0x10, 0, 0, 0]);
    assert(r.subrange(8, 24) =~= zeros(16));
    assert(r.subrange(24, 40) =~= EPM_V4_BYTES@);
    assert(r.subrange(40, 56) =~= activity_uuid);
    lemma_le32_placed(b, 0, kind);
    lemma_le32_placed(b, 48, 100);
    match filter {
        Some(f) => {
            assert(b.subrange(20, 36) =~= f);
        },
        None => {
            assert(b.subrange(20, 36) =~= zeros(16));
        },
    }
}

} // verus!
