//! How the topology of a device is laid out on the wire, and that what is read from
//! it is what the device states: its interface, its ports, their neighbours.

use vstd::prelude::*;
use crate::bytes::{be16, be16_at, be16_placed, be32, be32_at, be32_placed, zeros};
use crate::im::{
    align_from, align_in_block, aligned4, apply_multiple, apply_nested, header_at, interface_at,
    latin1, nested_from, pd_from, peers_from, port_at, port_tail, short_text, InterfaceModel,
    PdModel, PeerModel, PortModel, SlotModel,
};
use crate::indices::block_type_text;

verus! {

/// Some bytes filled up with zeros to a multiple of four.
pub open spec fn filled4(b: Seq<u8>) -> Seq<u8> {
    b + zeros(((4 - b.len() % 4) % 4) as nat)
}

/// `s` begins with `front`.
pub open spec fn starts_with(s: Seq<u8>, front: Seq<u8>) -> bool {
    front.len() <= s.len() && s.take(front.len() as int) == front
}

proof fn lemma_filled4(b: Seq<u8>)
    ensures
        filled4(b).len() == aligned4(b.len() as int),
        b.len() <= filled4(b).len() < b.len() + 4,
        starts_with(filled4(b), b),
{
    assert(filled4(b).take(b.len() as int) =~= b);
}

proof fn lemma_starts(s: Seq<u8>, a: Seq<u8>, b: Seq<u8>)
    requires
        starts_with(s, a + b),
    ensures
        starts_with(s, a),
        s.len() >= a.len() + b.len(),
        s.subrange(a.len() as int, (a.len() + b.len()) as int) == b,
        forall|i: int| 0 <= i < b.len() ==> s[a.len() + i] == #[trigger] b[i],
{
    assert forall|i: int| 0 <= i < a.len() + b.len() implies s[i] == #[trigger] (a + b)[i] by {
        assert(s.take((a + b).len() as int)[i] == s[i]);
    }
    assert(s.take(a.len() as int) =~= a);
    assert forall|i: int| 0 <= i < b.len() implies s[a.len() + i] == #[trigger] b[i] by {
        assert((a + b)[a.len() + i] == b[i]);
    }
    assert(s.subrange(a.len() as int, (a.len() + b.len()) as int) =~= b);
}

proof fn lemma_starts_chain(s: Seq<u8>, a: Seq<u8>, b: Seq<u8>)
    requires
        starts_with(s, b),
        starts_with(b, a),
    ensures
        starts_with(s, a),
{
    assert(s.take(a.len() as int) =~= b.take(a.len() as int)) by {
        assert forall|i: int| 0 <= i < a.len() implies s[i] == b[i] by {
            assert(s.take(b.len() as int)[i] == s[i]);
        }
    }
}

/// A text behind its length.
pub open spec fn laid_out_text(t: Seq<u8>) -> Seq<u8> {
    seq![t.len() as u8] + t
}

/// An interface as a device lays it out behind a block header: the chassis id
/// behind its length, the MAC address, and address, netmask and gateway, each
/// aligned within the block.
pub open spec fn laid_out_interface(
    header: Seq<u8>,
    chassis: Seq<u8>,
    mac: Seq<u8>,
    ip: Seq<u8>,
    netmask: Seq<u8>,
    gateway: Seq<u8>,
) -> Seq<u8> {
    filled4(filled4(header + laid_out_text(chassis)) + mac) + ip + netmask + gateway
}

/// The interface of a device reads back as it was laid out: the chassis id, the MAC
/// address, and the three addresses each as its own.
pub proof fn interfaces_read_back(
    pre: Seq<u8>,
    header: Seq<u8>,
    chassis: Seq<u8>,
    mac: Seq<u8>,
    ip: Seq<u8>,
    netmask: Seq<u8>,
    gateway: Seq<u8>,
    post: Seq<u8>,
)
    requires
        header.len() == 6,
        chassis.len() <= 0xFF,
        mac.len() == 6,
        ip.len() == 4,
        netmask.len() == 4,
        gateway.len() == 4,
    ensures
        interface_at(
            pre + laid_out_interface(header, chassis, mac, ip, netmask, gateway) + post,
            (pre.len() + 6) as int,
        ) == Ok::<InterfaceModel, Seq<char>>(
            InterfaceModel {
                chassis_id: latin1(chassis),
                mac_address: mac,
                ip_address: ip,
                subnet_mask: netmask,
                gateway,
            },
        ),
{
    let t = header + laid_out_text(chassis);
    let a = filled4(t);
    let b = filled4(a + mac);
    let all = laid_out_interface(header, chassis, mac, ip, netmask, gateway);
    let d = pre + all + post;
    let k = pre.len() as int;
    let start = k + 6;
    let len = chassis.len() as int;
    lemma_filled4(t);
    lemma_filled4(a + mac);
    assert(all.take(b.len() as int) =~= b);
    lemma_starts_chain(all, a + mac, b);
    assert((a + mac).take(a.len() as int) =~= a);
    lemma_starts_chain(all, a, a + mac);
    lemma_starts_chain(all, t, a);
    lemma_starts(all, a, mac);
    lemma_starts(all, header, laid_out_text(chassis));
    assert(forall|i: int| 0 <= i < all.len() ==> d[k + i] == #[trigger] all[i]);
    assert(all[6] == laid_out_text(chassis)[0]) by {
        assert(all[header.len() as int + 0] == laid_out_text(chassis)[0]);
    }
    assert(d[start] == all[6]);
    assert(d[start] == len);
    assert(t.len() == 7 + len);
    let at_mac = align_in_block(start, start + 1 + len);
    assert(at_mac == k + a.len());
    let at_ip = align_in_block(start, at_mac + 6);
    assert(at_ip == k + b.len());
    assert(d.subrange(start + 1, start + 1 + len) =~= chassis) by {
        assert forall|i: int| 0 <= i < len implies d[start + 1 + i] == #[trigger] chassis[i] by {
            assert(laid_out_text(chassis)[i + 1] == chassis[i]);
            assert(d[k + (7 + i)] == all[7 + i]);
        }
    }
    assert(d.subrange(at_mac, at_mac + 6) =~= mac) by {
        assert forall|i: int| 0 <= i < 6 implies d[at_mac + i] == #[trigger] mac[i] by {
            assert(d[k + (a.len() + i)] == all[a.len() + i]);
        }
    }
    assert(d.subrange(at_ip, at_ip + 4) =~= ip) by {
        assert forall|i: int| 0 <= i < 4 implies d[at_ip + i] == #[trigger] ip[i] by {
            assert(d[k + (b.len() + i)] == all[b.len() + i]);
        }
    }
    assert(d.subrange(at_ip + 4, at_ip + 8) =~= netmask) by {
        assert forall|i: int| 0 <= i < 4 implies d[at_ip + 4 + i] == #[trigger] netmask[i] by {
            assert(d[k + (b.len() + 4 + i)] == all[b.len() + 4 + i]);
        }
    }
    assert(d.subrange(at_ip + 8, at_ip + 12) =~= gateway) by {
        assert forall|i: int| 0 <= i < 4 implies d[at_ip + 8 + i] == #[trigger] gateway[i] by {
            assert(d[k + (b.len() + 8 + i)] == all[b.len() + 8 + i]);
        }
    }
}

/// A neighbour as a port states it.
pub struct StatedPeer {
    pub port_id: Seq<u8>,
    pub chassis_id: Seq<u8>,
    pub mac: Seq<u8>,
}

/// A port as a device states it.
pub struct StatedPort {
    pub slot: u16,
    pub subslot: u16,
    pub port_id: Seq<u8>,
    pub peers: Seq<StatedPeer>,
    pub mau_type: u16,
    pub domain_boundary: u32,
    pub multicast_boundary: u32,
    pub port_state: u8,
    pub link_state: u8,
    pub media_type: u32,
}

impl StatedPeer {
    pub open spec fn valid(self) -> bool {
        self.port_id.len() <= 0xFF && self.chassis_id.len() <= 0xFF && self.mac.len() == 6
    }

    pub open spec fn says(self) -> PeerModel {
        PeerModel {
            port_id: latin1(self.port_id),
            chassis_id: latin1(self.chassis_id),
            mac_address: self.mac,
        }
    }
}

impl StatedPort {
    pub open spec fn valid(self) -> bool {
        &&& self.port_id.len() <= 0xFF
        &&& self.peers.len() <= 0xFF
        &&& forall|i: int| 0 <= i < self.peers.len() ==> (#[trigger] self.peers[i]).valid()
    }

    pub open spec fn says(self) -> PortModel {
        PortModel {
            slot: self.slot,
            subslot: self.subslot,
            port_id: latin1(self.port_id),
            mau_type: self.mau_type,
            link_state_port: self.port_state,
            link_state_link: self.link_state,
            media_type: self.media_type,
            peers: Seq::new(self.peers.len(), |i: int| self.peers[i].says()),
            domain_boundary: self.domain_boundary,
            multicast_boundary: self.multicast_boundary,
        }
    }

    /// Before the peers: slot, subslot, port id, number of peers.
    pub open spec fn front(self, pad: nat) -> Seq<u8> {
        zeros(pad) + be16(self.slot) + be16(self.subslot) + laid_out_text(self.port_id) + seq![
            self.peers.len() as u8,
        ]
    }

    /// Behind the peers, as far as the link states: MAU type, boundaries, states.
    pub open spec fn with_states(self, b: Seq<u8>) -> Seq<u8> {
        filled4(b + be16(self.mau_type)) + be32(self.domain_boundary) + be32(
            self.multicast_boundary,
        ) + seq![self.port_state, self.link_state]
    }

    /// The body of its block, whose first field stands behind `pad` bytes.
    #[verifier::opaque]
    pub open spec fn body(self, pad: nat) -> Seq<u8> {
        filled4(self.with_states(with_peers(filled4(self.front(pad)), self.peers))) + be32(
            self.media_type,
        )
    }
}

/// Some bytes with a peer behind them: port id, chassis id, and, aligned, its MAC
/// address.
#[verifier::opaque]
pub open spec fn with_peer(b: Seq<u8>, p: StatedPeer) -> Seq<u8> {
    filled4(filled4(b + laid_out_text(p.port_id) + laid_out_text(p.chassis_id)) + p.mac)
}

/// Some bytes with peers behind them.
pub open spec fn with_peers(b: Seq<u8>, s: Seq<StatedPeer>) -> Seq<u8>
    decreases s.len(),
{
    if s.len() == 0 {
        b
    } else {
        with_peers(with_peer(b, s[0]), s.skip(1))
    }
}

proof fn lemma_with_peer(b: Seq<u8>, p: StatedPeer)
    ensures
        starts_with(with_peer(b, p), b),
{
    reveal(with_peer);
    let y = b + laid_out_text(p.port_id) + laid_out_text(p.chassis_id);
    let z = filled4(y);
    lemma_filled4(y);
    lemma_filled4(z + p.mac);
    assert(y.take(b.len() as int) =~= b);
    assert((z + p.mac).take(z.len() as int) =~= z);
    lemma_starts_chain(z, b, y);
    lemma_starts_chain(z + p.mac, b, z);
    lemma_starts_chain(with_peer(b, p), b, z + p.mac);
}

proof fn lemma_with_peers(b: Seq<u8>, s: Seq<StatedPeer>)
    ensures
        starts_with(with_peers(b, s), b),
    decreases s.len(),
{
    if s.len() > 0 {
        lemma_with_peer(b, s[0]);
        lemma_with_peers(with_peer(b, s[0]), s.skip(1));
        lemma_starts_chain(with_peers(b, s), b, with_peer(b, s[0]));
    } else {
        assert(b.take(b.len() as int) =~= b);
    }
}

/// A text is read where it stands.
proof fn lemma_text_read(data: Seq<u8>, start: int, b: Seq<u8>, t: Seq<u8>)
    requires
        0 <= start <= data.len(),
        t.len() <= 0xFF,
        starts_with(data.skip(start), b + laid_out_text(t)),
    ensures
        short_text(data, start + b.len()) == (latin1(t), start + b.len() + 1 + t.len()),
        data.len() >= start + b.len() + 1 + t.len(),
{
    let e = data.skip(start);
    let x = laid_out_text(t);
    lemma_starts(e, b, x);
    let off = start + b.len();
    assert(e[b.len() as int + 0] == x[0]);
    assert(data[off] == e[b.len() as int]);
    assert(data.subrange(off + 1, off + 1 + t.len()) =~= t) by {
        assert forall|i: int| 0 <= i < t.len() implies data[off + 1 + i] == #[trigger] t[i] by {
            assert(x[i + 1] == t[i]);
            assert(e[b.len() + (i + 1)] == x[i + 1]);
            assert(data[start + (b.len() + (i + 1))] == e[b.len() + (i + 1)]);
        }
    }
}

proof fn lemma_aligned_behind(start: int, y: Seq<u8>)
    ensures
        align_from(start, start + y.len()) == start + filled4(y).len(),
{
    lemma_filled4(y);
}

/// The pieces of one peer are read where they stand.
proof fn lemma_peer_read(data: Seq<u8>, start: int, b: Seq<u8>, p: StatedPeer)
    requires
        0 <= start <= data.len(),
        p.valid(),
        starts_with(data.skip(start), with_peer(b, p)),
    ensures
        ({
            let off = start + b.len();
            let (port_id, a) = short_text(data, off);
            let (chassis_id, c) = short_text(data, a);
            let m = align_from(start, c);
            &&& data.len() >= off + 1
            &&& data.len() >= a + 1
            &&& port_id == latin1(p.port_id)
            &&& chassis_id == latin1(p.chassis_id)
            &&& data.len() >= m + 6
            &&& data.subrange(m, m + 6) == p.mac
            &&& align_from(start, m + 6) == start + with_peer(b, p).len()
        }),
{
    reveal(with_peer);
    let e = data.skip(start);
    let x = b + laid_out_text(p.port_id);
    let y = x + laid_out_text(p.chassis_id);
    let z = filled4(y);
    let w = z + p.mac;
    lemma_filled4(y);
    lemma_filled4(w);
    lemma_starts_chain(e, w, with_peer(b, p));
    lemma_starts(e, z, p.mac);
    lemma_starts_chain(e, y, z);
    lemma_starts(e, x, laid_out_text(p.chassis_id));
    lemma_text_read(data, start, b, p.port_id);
    assert(start + b.len() + 1 + p.port_id.len() == start + x.len());
    lemma_text_read(data, start, x, p.chassis_id);
    assert(start + x.len() + 1 + p.chassis_id.len() == start + y.len());
    lemma_aligned_behind(start, y);
    let m = start + z.len();
    assert(data.subrange(m, m + 6) =~= p.mac) by {
        assert forall|i: int| 0 <= i < 6 implies data[m + i] == #[trigger] p.mac[i] by {
            assert(e[z.len() + i] == p.mac[i]);
            assert(data[start + (z.len() + i)] == e[z.len() + i]);
        }
    }
    lemma_aligned_behind(start, w);
}

proof fn lemma_peers_read(data: Seq<u8>, start: int, b: Seq<u8>, s: Seq<StatedPeer>)
    requires
        0 <= start <= data.len(),
        forall|i: int| 0 <= i < s.len() ==> (#[trigger] s[i]).valid(),
        starts_with(data.skip(start), with_peers(b, s)),
    ensures
        peers_from(data, start, start + b.len(), s.len()) == (
            Seq::new(s.len(), |i: int| s[i].says()),
            start + with_peers(b, s).len(),
        ),
    decreases s.len(),
{
    let want = Seq::new(s.len(), |i: int| s[i].says());
    if s.len() > 0 {
        let c = with_peer(b, s[0]);
        let rest = s.skip(1);
        assert(s[0].valid());
        lemma_with_peers(c, rest);
        lemma_starts_chain(data.skip(start), c, with_peers(b, s));
        lemma_peer_read(data, start, b, s[0]);
        assert forall|i: int| 0 <= i < rest.len() implies (#[trigger] rest[i]).valid() by {
            assert(rest[i] == s[i + 1]);
        }
        lemma_peers_read(data, start, c, rest);
        assert(want =~= seq![s[0].says()] + Seq::new(rest.len(), |i: int| rest[i].says()));
    } else {
        assert(want =~= Seq::empty());
    }
}

/// What stands behind the peers is read where it stands.
proof fn lemma_tail_read(data: Seq<u8>, start: int, b: Seq<u8>, p: StatedPort, peers: Seq<PeerModel>)
    requires
        0 <= start <= data.len(),
        starts_with(data.skip(start), filled4(p.with_states(b)) + be32(p.media_type)),
    ensures
        port_tail(
            data,
            start,
            start + b.len(),
            p.slot,
            p.subslot,
            latin1(p.port_id),
            peers,
        ) == (PortModel { peers, ..p.says() }),
{
    let e = data.skip(start);
    let x = b + be16(p.mau_type);
    let y = filled4(x);
    let z = p.with_states(b);
    let v = filled4(z);
    lemma_filled4(x);
    lemma_filled4(z);
    lemma_starts(e, v, be32(p.media_type));
    lemma_starts_chain(e, z, v);
    let s4 = y + be32(p.domain_boundary) + be32(p.multicast_boundary);
    let s3 = y + be32(p.domain_boundary);
    lemma_starts(e, s4, seq![p.port_state, p.link_state]);
    lemma_starts(e, s3, be32(p.multicast_boundary));
    lemma_starts(e, y, be32(p.domain_boundary));
    lemma_starts_chain(e, x, y);
    lemma_starts(e, b, be16(p.mau_type));
    lemma_aligned_behind(start, x);
    lemma_aligned_behind(start, z);
    assert(forall|i: int| 0 <= i < e.len() ==> data[start + i] == #[trigger] e[i]);
    let o = b.len() as int;
    let q = y.len() as int;
    let u = v.len() as int;
    let states = seq![p.port_state, p.link_state];
    assert(e[o + 0] == be16(p.mau_type)[0] && e[o + 1] == be16(p.mau_type)[1]);
    be16_placed(data, start + o, p.mau_type);
    assert(e[q + 0] == be32(p.domain_boundary)[0] && e[q + 1] == be32(p.domain_boundary)[1] && e[q
        + 2] == be32(p.domain_boundary)[2] && e[q + 3] == be32(p.domain_boundary)[3]);
    be32_placed(data, start + q, p.domain_boundary);
    let r = s3.len() as int;
    assert(r == q + 4);
    assert(e[r + 0] == be32(p.multicast_boundary)[0] && e[r + 1] == be32(p.multicast_boundary)[1]
        && e[r + 2] == be32(p.multicast_boundary)[2] && e[r + 3] == be32(
        p.multicast_boundary,
    )[3]);
    be32_placed(data, start + q + 4, p.multicast_boundary);
    let l = s4.len() as int;
    assert(l == q + 8);
    assert(e[l + 0] == states[0] && e[l + 1] == states[1]);
    assert(data[start + q + 8] == p.port_state && data[start + q + 9] == p.link_state);
    assert(z.len() == q + 10);
    assert(e[u + 0] == be32(p.media_type)[0] && e[u + 1] == be32(p.media_type)[1] && e[u + 2]
        == be32(p.media_type)[2] && e[u + 3] == be32(p.media_type)[3]);
    be32_placed(data, start + u, p.media_type);
}

/// Every stage of a port's body stands at its front.
proof fn lemma_port_stages(e: Seq<u8>, p: StatedPort, pad: nat)
    requires
        starts_with(e, p.body(pad)),
    ensures
        starts_with(e, with_peers(filled4(p.front(pad)), p.peers)),
        starts_with(e, p.front(pad)),
        starts_with(
            e,
            filled4(p.with_states(with_peers(filled4(p.front(pad)), p.peers))) + be32(p.media_type),
        ),
{
    reveal(StatedPort::body);
    let front = p.front(pad);
    let f = filled4(front);
    let g = with_peers(f, p.peers);
    let z = filled4(p.with_states(g));
    lemma_starts(e, z, be32(p.media_type));
    lemma_filled4(p.with_states(g));
    lemma_starts_chain(e, p.with_states(g), z);
    let x = g + be16(p.mau_type);
    lemma_filled4(x);
    let y = filled4(x);
    assert(p.with_states(g).take(y.len() as int) =~= y);
    lemma_starts_chain(e, y, p.with_states(g));
    lemma_starts_chain(e, x, y);
    lemma_starts(e, g, be16(p.mau_type));
    lemma_with_peers(f, p.peers);
    lemma_starts_chain(e, f, g);
    lemma_filled4(front);
    lemma_starts_chain(e, front, f);
}

/// What stands before the peers is read where it stands.
proof fn lemma_front_read(data: Seq<u8>, start: int, p: StatedPort, pad: nat)
    requires
        0 <= start <= data.len(),
        p.valid(),
        aligned4(start) == start + pad,
        starts_with(data.skip(start), p.front(pad)),
    ensures
        ({
            let first = aligned4(start);
            let a = first + 5 + p.port_id.len();
            &&& data.len() >= a + 1
            &&& be16_at(data, first) == p.slot
            &&& be16_at(data, first + 2) == p.subslot
            &&& short_text(data, first + 4) == (latin1(p.port_id), a)
            &&& data[a] == p.peers.len()
            &&& a + 1 == start + p.front(pad).len()
        }),
{
    let e = data.skip(start);
    let named = zeros(pad) + be16(p.slot) + be16(p.subslot);
    let t = named + laid_out_text(p.port_id);
    let n = seq![p.peers.len() as u8];
    lemma_starts(e, t, n);
    lemma_starts(e, named, laid_out_text(p.port_id));
    lemma_starts(e, zeros(pad) + be16(p.slot), be16(p.subslot));
    lemma_starts(e, zeros(pad), be16(p.slot));
    assert(forall|i: int| 0 <= i < e.len() ==> data[start + i] == #[trigger] e[i]);
    let first = aligned4(start);
    let k = (zeros(pad) + be16(p.slot)).len() as int;
    assert(k == pad + 2);
    assert(e[pad as int + 0] == be16(p.slot)[0] && e[pad as int + 1] == be16(p.slot)[1]);
    be16_placed(data, first, p.slot);
    assert(e[k + 0] == be16(p.subslot)[0] && e[k + 1] == be16(p.subslot)[1]);
    be16_placed(data, first + 2, p.subslot);
    assert(named.len() == pad + 4);
    lemma_text_read(data, start, named, p.port_id);
    assert(e[t.len() as int + 0] == n[0]);
}

/// A port of a device reads back as it was laid out: slot, subslot and port id,
/// every neighbour in order with its own port, chassis and MAC address, MAU type,
/// boundaries, link states and media type.
pub proof fn ports_read_back(pre: Seq<u8>, p: StatedPort, post: Seq<u8>, slot: u16, subslot: u16)
    requires
        p.valid(),
    ensures
        port_at(
            pre + p.body(((4 - pre.len() % 4) % 4) as nat) + post,
            pre.len() as int,
            slot,
            subslot,
        ) == p.says(),
{
    let pad = ((4 - pre.len() % 4) % 4) as nat;
    let body = p.body(pad);
    let data = pre + body + post;
    let start = pre.len() as int;
    let e = data.skip(start);
    let front = p.front(pad);
    let f = filled4(front);
    let g = with_peers(f, p.peers);
    assert(e.take(body.len() as int) =~= body);
    lemma_port_stages(e, p, pad);
    lemma_front_read(data, start, p, pad);
    lemma_aligned_behind(start, front);
    lemma_peers_read(data, start, f, p.peers);
    let peers = Seq::new(p.peers.len(), |i: int| p.peers[i].says());
    lemma_tail_read(data, start, g, p, peers);
    assert((PortModel { peers, ..p.says() }) == p.says());
}

/// A nested block of a PDRealData record as a device states it.
pub enum StatedBlock {
    Interface {
        chassis: Seq<u8>,
        mac: Seq<u8>,
        ip: Seq<u8>,
        netmask: Seq<u8>,
        gateway: Seq<u8>,
    },
    Port(StatedPort),
    /// Any other block: type, version, body.
    Other { block_type: u16, version: (u8, u8), body: Seq<u8> },
}

impl StatedBlock {
    pub open spec fn valid(self) -> bool {
        match self {
            StatedBlock::Interface { chassis, mac, ip, netmask, gateway } => chassis.len() <= 0xFF
                && mac.len() == 6 && ip.len() == 4 && netmask.len() == 4 && gateway.len() == 4,
            StatedBlock::Port(p) => p.valid() && forall|pad: nat|
                pad < 4 ==> #[trigger] p.body(pad).len() <= 0xFFF0,
            StatedBlock::Other { block_type, body, .. } => block_type != 0x0240 && block_type
                != 0x020F && body.len() <= 0xFFF0,
        }
    }

    pub open spec fn kind(self) -> u16 {
        match self {
            StatedBlock::Interface { .. } => 0x0240,
            StatedBlock::Port(_) => 0x020F,
            StatedBlock::Other { block_type, .. } => block_type,
        }
    }

    /// Its bytes at an offset of the record. A block length counts the version.
    #[verifier::opaque]
    pub open spec fn laid_out(self, at: int) -> Seq<u8> {
        match self {
            StatedBlock::Interface { chassis, mac, ip, netmask, gateway } => {
                let n = laid_out_interface(zeros(6), chassis, mac, ip, netmask, gateway).len();
                laid_out_interface(
                    be16(0x0240) + be16((n - 4) as u16) + seq![1u8, 0],
                    chassis,
                    mac,
                    ip,
                    netmask,
                    gateway,
                )
            },
            StatedBlock::Port(p) => {
                let body = p.body(((4 - (at + 6) % 4) % 4) as nat);
                be16(0x020F) + be16((body.len() + 2) as u16) + seq![1u8, 0] + body
            },
            StatedBlock::Other { block_type, version, body } => be16(block_type) + be16(
                (body.len() + 2) as u16,
            ) + seq![version.0, version.1] + body,
        }
    }

    /// What it adds to what is known.
    #[verifier::opaque]
    pub open spec fn told(self, acc: PdModel) -> PdModel {
        match self {
            StatedBlock::Interface { chassis, mac, ip, netmask, gateway } => PdModel {
                interface: Some(
                    InterfaceModel {
                        chassis_id: latin1(chassis),
                        mac_address: mac,
                        ip_address: ip,
                        subnet_mask: netmask,
                        gateway,
                    },
                ),
                ..acc
            },
            StatedBlock::Port(p) => PdModel { ports: acc.ports.push(p.says()), ..acc },
            StatedBlock::Other { .. } => acc,
        }
    }
}

/// Nested blocks, one behind the other, from an offset of the record on.
pub open spec fn laid_out_nested(s: Seq<StatedBlock>, at: int) -> Seq<u8>
    decreases s.len(),
{
    if s.len() == 0 {
        Seq::empty()
    } else {
        s[0].laid_out(at) + laid_out_nested(s.skip(1), at + s[0].laid_out(at).len())
    }
}

/// What nested blocks add, in order.
pub open spec fn nested_told(s: Seq<StatedBlock>, acc: PdModel) -> PdModel
    decreases s.len(),
{
    if s.len() == 0 {
        acc
    } else {
        nested_told(s.skip(1), s[0].told(acc))
    }
}

proof fn lemma_interface_len(header: Seq<u8>, chassis: Seq<u8>, mac: Seq<u8>, ip: Seq<u8>, netmask: Seq<u8>, gateway: Seq<u8>)
    requires
        header.len() == 6,
        chassis.len() <= 0xFF,
        mac.len() == 6,
        ip.len() == 4,
        netmask.len() == 4,
        gateway.len() == 4,
    ensures
        ({
            let n = laid_out_interface(header, chassis, mac, ip, netmask, gateway).len();
            &&& n == laid_out_interface(zeros(6), chassis, mac, ip, netmask, gateway).len()
            &&& 12 <= n <= 0x200
            &&& starts_with(
                laid_out_interface(header, chassis, mac, ip, netmask, gateway),
                header,
            )
        }),
{
    let t = header + laid_out_text(chassis);
    let t0 = zeros(6) + laid_out_text(chassis);
    lemma_filled4(t);
    lemma_filled4(t0);
    lemma_filled4(filled4(t) + mac);
    lemma_filled4(filled4(t0) + mac);
    let all = laid_out_interface(header, chassis, mac, ip, netmask, gateway);
    let a = filled4(t) + mac;
    assert(t.take(6) =~= header);
    assert(a.take(filled4(t).len() as int) =~= filled4(t));
    assert(all.take(filled4(a).len() as int) =~= filled4(a));
    lemma_starts_chain(filled4(t), header, t);
    lemma_starts_chain(a, header, filled4(t));
    lemma_starts_chain(filled4(a), header, a);
    lemma_starts_chain(all, header, filled4(a));
}

proof fn lemma_nested_interface(pre: Seq<u8>, b: StatedBlock, post: Seq<u8>, slot: u16, subslot: u16, acc: PdModel)
    requires
        b.valid(),
        b is Interface,
    ensures
        ({
            let at = pre.len() as int;
            let d = pre + b.laid_out(at) + post;
            let h = header_at(d, at);
            &&& h.block_type == b.kind()
            &&& b.laid_out(at).len() == 6 + h.body_len()
            &&& apply_nested(acc, d, h, at + 6, slot, subslot) == b.told(acc)
        }),
{
    reveal(StatedBlock::laid_out);
    reveal(StatedBlock::told);
    let at = pre.len() as int;
    let d = pre + b.laid_out(at) + post;
    let chassis = b->chassis;
    let mac = b->mac;
    let ip = b->ip;
    let netmask = b->netmask;
    let gateway = b->gateway;
    let n = laid_out_interface(zeros(6), chassis, mac, ip, netmask, gateway).len();
    let header = be16(0x0240) + be16((n - 4) as u16) + seq![1u8, 0];
    let block = laid_out_interface(header, chassis, mac, ip, netmask, gateway);
    lemma_interface_len(header, chassis, mac, ip, netmask, gateway);
    lemma_interface_len(zeros(6), chassis, mac, ip, netmask, gateway);
    assert forall|i: int| 0 <= i < 6 implies d[at + i] == #[trigger] header[i] by {
        assert(block.take(6)[i] == block[i]);
    }
    assert(header[0] == be16(0x0240)[0] && header[1] == be16(0x0240)[1]);
    assert(header[2] == be16((n - 4) as u16)[0] && header[3] == be16((n - 4) as u16)[1]);
    be16_placed(d, at, 0x0240);
    be16_placed(d, at + 2, (n - 4) as u16);
    interfaces_read_back(pre, header, chassis, mac, ip, netmask, gateway, post);
}

proof fn lemma_nested_port(pre: Seq<u8>, b: StatedBlock, post: Seq<u8>, slot: u16, subslot: u16, acc: PdModel)
    requires
        b.valid(),
        b is Port,
    ensures
        ({
            let at = pre.len() as int;
            let d = pre + b.laid_out(at) + post;
            let h = header_at(d, at);
            &&& h.block_type == b.kind()
            &&& b.laid_out(at).len() == 6 + h.body_len()
            &&& apply_nested(acc, d, h, at + 6, slot, subslot) == b.told(acc)
        }),
{
    reveal(StatedBlock::laid_out);
    reveal(StatedBlock::told);
    let at = pre.len() as int;
    let d = pre + b.laid_out(at) + post;
    let p = b->Port_0;
    let pad = ((4 - (at + 6) % 4) % 4) as nat;
    let body = p.body(pad);
    assert(body.len() <= 0xFFF0);
    let header = be16(0x020F) + be16((body.len() + 2) as u16) + seq![1u8, 0];
    assert(d =~= (pre + header) + body + post);
    be16_placed(d, at, 0x020F);
    be16_placed(d, at + 2, (body.len() + 2) as u16);
    assert((pre + header).len() == at + 6);
    ports_read_back(pre + header, p, post, slot, subslot);
}

proof fn lemma_nested_block(pre: Seq<u8>, b: StatedBlock, post: Seq<u8>, slot: u16, subslot: u16, acc: PdModel)
    requires
        b.valid(),
    ensures
        ({
            let at = pre.len() as int;
            let d = pre + b.laid_out(at) + post;
            let h = header_at(d, at);
            &&& h.block_type == b.kind()
            &&& b.laid_out(at).len() == 6 + h.body_len()
            &&& apply_nested(acc, d, h, at + 6, slot, subslot) == b.told(acc)
        }),
{
    reveal(StatedBlock::laid_out);
    reveal(StatedBlock::told);
    let at = pre.len() as int;
    let d = pre + b.laid_out(at) + post;
    match b {
        StatedBlock::Interface { .. } => {
            lemma_nested_interface(pre, b, post, slot, subslot, acc);
        },
        StatedBlock::Port(_) => {
            lemma_nested_port(pre, b, post, slot, subslot, acc);
        },
        StatedBlock::Other { block_type, version, body } => {
            be16_placed(d, at, block_type);
            be16_placed(d, at + 2, (body.len() + 2) as u16);
        },
    }
}

/// The nested blocks from `off` on.
#[verifier::opaque]
spec fn blocks_read(
    data: Seq<u8>,
    off: int,
    end: int,
    slot: u16,
    subslot: u16,
    acc: PdModel,
    names: Seq<Seq<char>>,
) -> (PdModel, Seq<Seq<char>>) {
    nested_from(data, off, end, slot, subslot, acc, names)
}

proof fn lemma_first_nested(pre: Seq<u8>, b: StatedBlock, post: Seq<u8>, end: int, slot: u16, subslot: u16, acc: PdModel, names: Seq<Seq<char>>)
    requires
        b.valid(),
        end >= pre.len() + b.laid_out(pre.len() as int).len(),
    ensures
        ({
            let at = pre.len() as int;
            let d = pre + b.laid_out(at) + post;
            blocks_read(d, at, end, slot, subslot, acc, names) == blocks_read(
                d,
                at + b.laid_out(at).len(),
                end,
                slot,
                subslot,
                b.told(acc),
                names.push(block_type_text(b.kind())),
            )
        }),
{
    reveal(blocks_read);
    lemma_nested_block(pre, b, post, slot, subslot, acc);
}

proof fn lemma_blocks(pre: Seq<u8>, s: Seq<StatedBlock>, post: Seq<u8>, slot: u16, subslot: u16, acc: PdModel, names: Seq<Seq<char>>)
    requires
        forall|i: int| 0 <= i < s.len() ==> (#[trigger] s[i]).valid(),
    ensures
        ({
            let at = pre.len() as int;
            let b = laid_out_nested(s, at);
            blocks_read(pre + b + post, at, at + b.len(), slot, subslot, acc, names) == (
                nested_told(s, acc),
                names + Seq::new(s.len(), |i: int| block_type_text(s[i].kind())),
            )
        }),
    decreases s.len(),
{
    let at = pre.len() as int;
    let b = laid_out_nested(s, at);
    let d = pre + b + post;
    let want = names + Seq::new(s.len(), |i: int| block_type_text(s[i].kind()));
    if s.len() > 0 {
        let first = s[0].laid_out(at);
        let rest = s.skip(1);
        let tail = laid_out_nested(rest, at + first.len());
        assert(s[0].valid());
        lemma_first_nested(
            pre,
            s[0],
            tail + post,
            at + b.len(),
            slot,
            subslot,
            acc,
            names,
        );
        assert(d =~= pre + first + (tail + post));
        assert forall|i: int| 0 <= i < rest.len() implies (#[trigger] rest[i]).valid() by {
            assert(rest[i] == s[i + 1]);
        }
        let more = names.push(block_type_text(s[0].kind()));
        lemma_blocks(pre + first, rest, post, slot, subslot, s[0].told(acc), more);
        assert(d =~= (pre + first) + tail + post);
        assert(want =~= more + Seq::new(rest.len(), |i: int| block_type_text(rest[i].kind())));
    } else {
        reveal(blocks_read);
        assert(want =~= names);
    }
}

proof fn lemma_nested(pre: Seq<u8>, s: Seq<StatedBlock>, post: Seq<u8>, slot: u16, subslot: u16, acc: PdModel, names: Seq<Seq<char>>)
    requires
        forall|i: int| 0 <= i < s.len() ==> (#[trigger] s[i]).valid(),
    ensures
        ({
            let at = pre.len() as int;
            let b = laid_out_nested(s, at);
            nested_from(pre + b + post, at, at + b.len(), slot, subslot, acc, names) == (
                nested_told(s, acc),
                names + Seq::new(s.len(), |i: int| block_type_text(s[i].kind())),
            )
        }),
{
    lemma_blocks(pre, s, post, slot, subslot, acc, names);
    reveal(blocks_read);
}

/// A submodule of a PDRealData record with its nested blocks.
pub struct StatedPlace {
    pub api: u32,
    pub slot: u16,
    pub subslot: u16,
    pub blocks: Seq<StatedBlock>,
}

impl StatedPlace {
    pub open spec fn valid(self) -> bool {
        &&& forall|i: int| 0 <= i < self.blocks.len() ==> (#[trigger] self.blocks[i]).valid()
        &&& forall|at: int| #[trigger] laid_out_nested(self.blocks, at).len() <= 0xFF00
    }

    /// Behind its block header: two bytes, API, slot, subslot, nested blocks.
    pub open spec fn body(self, at: int) -> Seq<u8> {
        seq![0u8, 0] + be32(self.api) + be16(self.slot) + be16(self.subslot) + laid_out_nested(
            self.blocks,
            at + 16,
        )
    }

    #[verifier::opaque]
    pub open spec fn laid_out(self, at: int) -> Seq<u8> {
        be16(0x0400) + be16((self.body(at).len() + 2) as u16) + seq![1u8, 0] + self.body(at)
    }

    /// What it adds to what is known.
    #[verifier::opaque]
    pub open spec fn told(self, acc: PdModel, at: int) -> PdModel {
        let nested = nested_told(self.blocks, acc);
        PdModel {
            slots: nested.slots.push(
                SlotModel {
                    slot: self.slot,
                    subslot: self.subslot,
                    api: self.api,
                    module_ident: 0,
                    submodule_ident: 0,
                    blocks: Seq::new(
                        self.blocks.len(),
                        |i: int| block_type_text(self.blocks[i].kind()),
                    ),
                },
            ),
            raw_blocks: nested.raw_blocks.push(
                (self.api, self.slot, self.subslot, self.body(at)),
            ),
            ..nested
        }
    }
}

/// Submodules, one behind the other, from an offset of the record on.
pub open spec fn laid_out_places(s: Seq<StatedPlace>, at: int) -> Seq<u8>
    decreases s.len(),
{
    if s.len() == 0 {
        Seq::empty()
    } else {
        s[0].laid_out(at) + laid_out_places(s.skip(1), at + s[0].laid_out(at).len())
    }
}

/// What submodules add, in order.
pub open spec fn places_told(s: Seq<StatedPlace>, acc: PdModel, at: int) -> PdModel
    decreases s.len(),
{
    if s.len() == 0 {
        acc
    } else {
        places_told(s.skip(1), s[0].told(acc, at), at + s[0].laid_out(at).len())
    }
}

proof fn lemma_place_head(pre: Seq<u8>, p: StatedPlace, post: Seq<u8>)
    requires
        p.valid(),
    ensures
        ({
            let at = pre.len() as int;
            let d = pre + p.laid_out(at) + post;
            let nested = laid_out_nested(p.blocks, at + 16);
            let head = be16(0x0400) + be16((nested.len() + 12) as u16) + seq![1u8, 0] + (seq![
                0u8,
                0,
            ] + be32(p.api) + be16(p.slot) + be16(p.subslot));
            &&& d == (pre + head) + nested + post
            &&& head.len() == 16
            &&& nested.len() <= 0xFF00
            &&& p.laid_out(at).len() == 16 + nested.len()
            &&& header_at(d, at).block_type == 0x0400
            &&& header_at(d, at).block_length == nested.len() + 12
            &&& be32_at(d, at + 8) == p.api
            &&& be16_at(d, at + 12) == p.slot
            &&& be16_at(d, at + 14) == p.subslot
            &&& d.subrange(at + 6, at + 16 + nested.len()) == p.body(at)
        }),
{
    reveal(StatedPlace::laid_out);
    let at = pre.len() as int;
    let body = p.body(at);
    let nested = laid_out_nested(p.blocks, at + 16);
    assert(nested.len() <= 0xFF00);
    assert(body.len() == nested.len() + 10);
    let d = pre + p.laid_out(at) + post;
    let n = (nested.len() + 12) as u16;
    let head = be16(0x0400) + be16(n) + seq![1u8, 0] + (seq![0u8, 0] + be32(p.api) + be16(p.slot)
        + be16(p.subslot));
    assert(p.laid_out(at) =~= head + nested);
    assert(d =~= (pre + head) + nested + post);
    be16_placed(head, 0, 0x0400);
    be16_placed(head, 2, n);
    be32_placed(head, 8, p.api);
    be16_placed(head, 12, p.slot);
    be16_placed(head, 14, p.subslot);
    assert forall|i: int| at <= i < at + 16 implies #[trigger] d[i] == head[i - at] by {}
    assert(d.subrange(at + 6, at + 16 + nested.len()) =~= body);
}

proof fn lemma_place(pre: Seq<u8>, p: StatedPlace, post: Seq<u8>, acc: PdModel)
    requires
        p.valid(),
    ensures
        ({
            let at = pre.len() as int;
            let d = pre + p.laid_out(at) + post;
            let h = header_at(d, at);
            let end = at + 6 + h.body_len();
            &&& h.block_type == 0x0400
            &&& end == at + p.laid_out(at).len()
            &&& d.len() >= at + 16
            &&& apply_multiple(acc, d, at + 6, end) == p.told(acc, at)
        }),
{
    let at = pre.len() as int;
    let d = pre + p.laid_out(at) + post;
    let nested = laid_out_nested(p.blocks, at + 16);
    let head = be16(0x0400) + be16((nested.len() + 12) as u16) + seq![1u8, 0] + (seq![0u8, 0]
        + be32(p.api) + be16(p.slot) + be16(p.subslot));
    reveal(StatedPlace::told);
    lemma_place_head(pre, p, post);
    lemma_nested(pre + head, p.blocks, post, p.slot, p.subslot, acc, Seq::empty());
    let names = Seq::new(p.blocks.len(), |i: int| block_type_text(p.blocks[i].kind()));
    assert(Seq::<Seq<char>>::empty() + names =~= names);
}

proof fn lemma_first_place(pre: Seq<u8>, p: StatedPlace, post: Seq<u8>, acc: PdModel)
    requires
        p.valid(),
    ensures
        ({
            let at = pre.len() as int;
            let d = pre + p.laid_out(at) + post;
            pd_from(d, at, acc) == pd_from(d, at + p.laid_out(at).len(), p.told(acc, at))
        }),
{
    lemma_place(pre, p, post, acc);
}

/// The topology of a device reads back: every submodule of a PDRealData record is
/// found with its own API, slot, subslot and block names, every port with all that
/// it states, and the interface that was stated last.
pub proof fn the_topology_reads_back(pre: Seq<u8>, s: Seq<StatedPlace>, post: Seq<u8>, acc: PdModel)
    requires
        forall|i: int| 0 <= i < s.len() ==> (#[trigger] s[i]).valid(),
        post.len() < 6,
    ensures
        pd_from(pre + laid_out_places(s, pre.len() as int) + post, pre.len() as int, acc)
            == places_told(s, acc, pre.len() as int),
    decreases s.len(),
{
    let at = pre.len() as int;
    let d = pre + laid_out_places(s, at) + post;
    if s.len() > 0 {
        let first = s[0].laid_out(at);
        let rest = s.skip(1);
        let tail = laid_out_places(rest, at + first.len());
        assert(s[0].valid());
        lemma_first_place(pre, s[0], tail + post, acc);
        assert(d =~= pre + first + (tail + post));
        assert forall|i: int| 0 <= i < rest.len() implies (#[trigger] rest[i]).valid() by {
            assert(rest[i] == s[i + 1]);
        }
        the_topology_reads_back(pre + first, rest, post, s[0].told(acc, at));
        assert(d =~= (pre + first) + tail + post);
    } else {
        assert(d =~= pre + post);
    }
}

} // verus!
