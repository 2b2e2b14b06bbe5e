//! UDP datagrams as Ethernet, IPv4 and UDP frames: the Internet checksums, the
//! frame builder and parser, and the point-to-point endpoint that numbers its
//! frames. The frames travel over a raw layer-2 socket.

use vstd::prelude::*;
use crate::bytes::{
    be16, be16_at, be16_placed, be16_round_trip, bytes_eq, copy_range, push_all, push_be16,
    read_be16, zeros,
};
use crate::util::{
    eth_type_offset, eth_type_offset_bounds, is_tpid, lemma_offset_shift, skip_vlan_tags,
};
use vstd::slice::*;

verus! {

/// EtherType for IPv4.
pub const ETHERTYPE_IPV4: u16 = 0x0800;

/// Protocol number of UDP.
pub const IP_PROTO_UDP: u8 = 17;

/// The sum of `data` as big-endian 16-bit words; a trailing odd byte is padded
/// with a zero low byte.
pub open spec fn word_sum(data: Seq<u8>) -> int
    decreases data.len(),
{
    if data.len() == 0 {
        0
    } else if data.len() == 1 {
        data[0] * 0x100
    } else {
        be16_at(data, 0) + word_sum(data.skip(2))
    }
}

/// One's-complement folding of a sum into 16 bits: the value from 1 to 0xFFFF
/// that is congruent to it modulo 0xFFFF, and zero for zero.
pub open spec fn fold(sum: int) -> int {
    if sum <= 0 {
        0
    } else {
        (sum - 1) % 0xFFFF + 1
    }
}

/// The Internet checksum of a sum.
pub open spec fn checksum(sum: int) -> u16 {
    (0xFFFF - fold(sum)) as u16
}

/// The sum that a UDP checksum covers: both addresses, the protocol, the
/// length and the datagram.
pub open spec fn pseudo_sum(src_ip: Seq<u8>, dst_ip: Seq<u8>, udp: Seq<u8>) -> int {
    word_sum(src_ip) + word_sum(dst_ip) + 17 + udp.len() + word_sum(udp)
}

/// A computed 0x0000 is sent as 0xFFFF: zero means that there is no checksum.
pub open spec fn udp_checksum_of(sum: int) -> u16 {
    if checksum(sum) == 0 {
        0xFFFF
    } else {
        checksum(sum)
    }
}

proof fn lemma_word_sum_bounds(data: Seq<u8>)
    ensures
        0 <= word_sum(data) <= 0xFFFF * ((data.len() + 1) / 2),
    decreases data.len(),
{
    if data.len() > 1 {
        lemma_word_sum_bounds(data.skip(2));
    }
}

/// Words that follow an even number of bytes are summed on their own.
pub proof fn word_sum_concat(a: Seq<u8>, b: Seq<u8>)
    requires
        a.len() % 2 == 0,
    ensures
        word_sum(a + b) == word_sum(a) + word_sum(b),
    decreases a.len(),
{
    if a.len() == 0 {
        assert(a + b =~= b);
    } else {
        word_sum_concat(a.skip(2), b);
        assert((a + b).skip(2) =~= a.skip(2) + b);
        assert(be16_at(a + b, 0) == be16_at(a, 0));
    }
}

proof fn lemma_word_sum_be16(x: u16)
    ensures
        word_sum(be16(x)) == x,
{
    be16_round_trip(Seq::empty(), x, Seq::empty());
    assert(Seq::<u8>::empty() + be16(x) + Seq::<u8>::empty() =~= be16(x));
    assert(be16(x).skip(2) =~= Seq::<u8>::empty());
    reveal_with_fuel(word_sum, 2);
}

/// Adding the checksum of a sum to the sum gives a checksum of zero.
pub proof fn checksum_cancels(sum: int)
    requires
        sum > 0,
    ensures
        checksum(sum + checksum(sum)) == 0,
        checksum(sum + udp_checksum_of(sum)) == 0,
{
    let f = fold(sum);
    let q = (sum - 1) / 0xFFFF;
    assert(sum == q * 0xFFFF + f);
    let total = sum + (0xFFFF - f);
    assert(total - 1 == q * 0xFFFF + 0xFFFE);
    assert((total - 1) % 0xFFFF == 0xFFFE);
    if f == 0xFFFF {
        let up = sum + 0xFFFF;
        assert(up - 1 == (q + 1) * 0xFFFF + 0xFFFE);
        assert((up - 1) % 0xFFFF == 0xFFFE);
    }
}

/// Sum of the big-endian 16-bit words, an odd last byte as the high half of
/// one.
pub fn sum_be_words(data: &[u8]) -> (r: u32)
    requires
        word_sum(data@) <= u32::MAX,
    ensures
        r == word_sum(data@),
{
    let mut sum: u32 = 0;
    let mut i: usize = 0;
    assert(data@.skip(0) =~= data@);
    while data.len() - i >= 2
        invariant
            i <= data@.len(),
            sum + word_sum(data@.skip(i as int)) == word_sum(data@),
            word_sum(data@) <= u32::MAX,
        decreases data@.len() - i,
    {
        proof {
            lemma_word_sum_bounds(data@.skip(i as int).skip(2));
            assert(data@.skip(i as int).skip(2) =~= data@.skip(i + 2));
            assert(be16_at(data@.skip(i as int), 0) == be16_at(data@, i as int));
        }
        sum = sum + read_be16(data, i) as u32;
        i = i + 2;
    }
    if i < data.len() {
        assert(data@.skip(i as int)[0] == data@[i as int]);
        sum = sum + (data[i] as u32) * 0x100;
    }
    sum
}

/// Fold a sum to 16 bits with end-around carry and complement it.
pub fn fold_checksum(start: u32) -> (r: u16)
    ensures
        r == checksum(start as int),
{
    let mut sum: u32 = start;
    while sum > 0xFFFF
        invariant
            fold(sum as int) == fold(start as int),
        decreases sum,
    {
        let next: u32 = sum % 0x1_0000 + sum / 0x1_0000;
        proof {
            let s = sum as int;
            let n = next as int;
            let h = s / 0x1_0000;
            assert(s == n + h * 0xFFFF);
            assert(s - 1 == (n - 1) + h * 0xFFFF);
            assert((s - 1) % 0xFFFF == (n - 1) % 0xFFFF) by {
                vstd::arithmetic::div_mod::lemma_mod_multiples_vanish(h, n - 1, 0xFFFF);
            }
        }
        sum = next;
    }
    0xFFFF - sum as u16
}

/// IPv4 header checksum over the header with its checksum field zeroed.
/// Applied to a header carrying a correct checksum it returns 0.
pub fn ipv4_checksum(header: &[u8]) -> (r: u16)
    requires
        word_sum(header@) <= u32::MAX,
    ensures
        r == checksum(word_sum(header@)),
{
    fold_checksum(sum_be_words(header))
}

/// UDP checksum over the IPv4 pseudo-header (source, destination, zero,
/// protocol 17, UDP length) plus the UDP header (checksum field zeroed) and
/// payload in `udp`. A computed 0x0000 becomes 0xFFFF.
pub fn udp_checksum(src_ip: &[u8; 4], dst_ip: &[u8; 4], udp: &[u8]) -> (r: u16)
    requires
        pseudo_sum(src_ip@, dst_ip@, udp@) <= u32::MAX,
    ensures
        r == udp_checksum_of(pseudo_sum(src_ip@, dst_ip@, udp@)),
{
    proof {
        lemma_word_sum_bounds(src_ip@);
        lemma_word_sum_bounds(dst_ip@);
        lemma_word_sum_bounds(udp@);
    }
    let sum: u32 = sum_be_words(src_ip.as_slice()) + sum_be_words(dst_ip.as_slice())
        + IP_PROTO_UDP as u32 + udp.len() as u32 + sum_be_words(udp);
    let c: u16 = fold_checksum(sum);
    if c == 0 {
        0xFFFF
    } else {
        c
    }
}

/// IPv4 header without options: version 4, DF, TTL 64, protocol 17.
pub open spec fn ip_header(total_len: u16, ip_id: u16, cksum: u16, src_ip: Seq<u8>, dst_ip: Seq<u8>) -> Seq<
    u8,
> {
    seq![0x45u8, 0x00] + be16(total_len) + be16(ip_id) + be16(0x4000) + seq![64u8, 17] + be16(cksum)
        + src_ip + dst_ip
}

/// UDP header and payload.
pub open spec fn udp_datagram(src_port: u16, dst_port: u16, cksum: u16, payload: Seq<u8>) -> Seq<u8> {
    be16(src_port) + be16(dst_port) + be16((8 + payload.len()) as u16) + be16(cksum) + payload
}

/// The checksum that belongs into an IPv4 header.
pub open spec fn ip_header_checksum(total_len: u16, ip_id: u16, src_ip: Seq<u8>, dst_ip: Seq<u8>) -> u16 {
    checksum(word_sum(ip_header(total_len, ip_id, 0, src_ip, dst_ip)))
}

/// The checksum that belongs into a UDP datagram.
pub open spec fn udp_datagram_checksum(
    src_ip: Seq<u8>,
    dst_ip: Seq<u8>,
    src_port: u16,
    dst_port: u16,
    payload: Seq<u8>,
) -> u16 {
    udp_checksum_of(pseudo_sum(src_ip, dst_ip, udp_datagram(src_port, dst_port, 0, payload)))
}

/// Ethernet header, IPv4 header and UDP datagram, with both checksums.
pub open spec fn udp_frame_bytes(
    src_mac: Seq<u8>,
    dst_mac: Seq<u8>,
    src_ip: Seq<u8>,
    dst_ip: Seq<u8>,
    src_port: u16,
    dst_port: u16,
    ip_id: u16,
    payload: Seq<u8>,
) -> Seq<u8> {
    let total_len = (28 + payload.len()) as u16;
    dst_mac + src_mac + be16(0x0800) + ip_header(
        total_len,
        ip_id,
        ip_header_checksum(total_len, ip_id, src_ip, dst_ip),
        src_ip,
        dst_ip,
    ) + udp_datagram(
        src_port,
        dst_port,
        udp_datagram_checksum(src_ip, dst_ip, src_port, dst_port, payload),
        payload,
    )
}

fn push_ip_header(
    out: &mut Vec<u8>,
    total_len: u16,
    ip_id: u16,
    cksum: u16,
    src_ip: &[u8; 4],
    dst_ip: &[u8; 4],
)
    ensures
        final(out)@ == old(out)@ + ip_header(total_len, ip_id, cksum, src_ip@, dst_ip@),
{
    out.push(0x45);  // version 4, header length 5
    out.push(0x00);  // type of service
    push_be16(out, total_len);
    push_be16(out, ip_id);
    push_be16(out, 0x4000);  // do not fragment
    out.push(64);  // time to live
    out.push(IP_PROTO_UDP);
    push_be16(out, cksum);
    push_all(out, src_ip.as_slice());
    push_all(out, dst_ip.as_slice());
    assert(out@ =~= old(out)@ + ip_header(total_len, ip_id, cksum, src_ip@, dst_ip@));
}

fn push_udp_datagram(out: &mut Vec<u8>, src_port: u16, dst_port: u16, cksum: u16, payload: &[u8])
    ensures
        final(out)@ == old(out)@ + udp_datagram(src_port, dst_port, cksum, payload@),
{
    push_be16(out, src_port);
    push_be16(out, dst_port);
    push_be16(out, (8u128 + payload.len() as u128) as u16);
    push_be16(out, cksum);
    push_all(out, payload);
    assert(out@ =~= old(out)@ + udp_datagram(src_port, dst_port, cksum, payload@));
}

/// Build a complete Ethernet + IPv4 + UDP frame around `payload`:
/// Ethernet(dst, src, 0x0800), IPv4 with header length 5, DF, TTL 64, protocol
/// 17 and a computed header checksum, UDP with a computed pseudo-header
/// checksum.
pub fn build_udp_frame(
    src_mac: &[u8; 6],
    dst_mac: &[u8; 6],
    src_ip: &[u8; 4],
    dst_ip: &[u8; 4],
    src_port: u16,
    dst_port: u16,
    ip_id: u16,
    payload: &[u8],
) -> (r: Vec<u8>)
    requires
        pseudo_sum(src_ip@, dst_ip@, udp_datagram(src_port, dst_port, 0, payload@)) <= u32::MAX,
    ensures
        r@ == udp_frame_bytes(
            src_mac@,
            dst_mac@,
            src_ip@,
            dst_ip@,
            src_port,
            dst_port,
            ip_id,
            payload@,
        ),
{
    let total_len: u16 = (28u128 + payload.len() as u128) as u16;
    let mut ip: Vec<u8> = Vec::new();
    push_ip_header(&mut ip, total_len, ip_id, 0, src_ip, dst_ip);
    let mut udp: Vec<u8> = Vec::new();
    push_udp_datagram(&mut udp, src_port, dst_port, 0, payload);
    proof {
        assert(ip@ =~= ip_header(total_len, ip_id, 0, src_ip@, dst_ip@));
        assert(udp@ =~= udp_datagram(src_port, dst_port, 0, payload@));
        lemma_word_sum_bounds(ip@);
    }
    let ip_cksum: u16 = ipv4_checksum(ip.as_slice());
    let udp_cksum: u16 = udp_checksum(src_ip, dst_ip, udp.as_slice());
    let mut frame: Vec<u8> = Vec::new();
    push_all(&mut frame, dst_mac.as_slice());
    push_all(&mut frame, src_mac.as_slice());
    push_be16(&mut frame, ETHERTYPE_IPV4);
    push_ip_header(&mut frame, total_len, ip_id, ip_cksum, src_ip, dst_ip);
    push_udp_datagram(&mut frame, src_port, dst_port, udp_cksum, payload);
    assert(Seq::<u8>::empty() + dst_mac@ =~= dst_mac@);
    frame
}

/// A datagram that a UDP length field can announce never overflows the sum.
pub proof fn small_payload_sums(
    src_ip: Seq<u8>,
    dst_ip: Seq<u8>,
    src_port: u16,
    dst_port: u16,
    payload: Seq<u8>,
)
    requires
        src_ip.len() == 4,
        dst_ip.len() == 4,
        payload.len() <= 65527,
    ensures
        pseudo_sum(src_ip, dst_ip, udp_datagram(src_port, dst_port, 0, payload)) <= u32::MAX,
{
    lemma_word_sum_bounds(src_ip);
    lemma_word_sum_bounds(dst_ip);
    lemma_word_sum_bounds(udp_datagram(src_port, dst_port, 0, payload));
}

/// A receiver that sums a built frame's IPv4 header gets a checksum of zero,
/// and so does one that sums its pseudo-header and datagram.
pub proof fn built_checksums_verify(
    src_ip: Seq<u8>,
    dst_ip: Seq<u8>,
    src_port: u16,
    dst_port: u16,
    ip_id: u16,
    total_len: u16,
    payload: Seq<u8>,
)
    requires
        src_ip.len() == 4,
        dst_ip.len() == 4,
    ensures
        checksum(
            word_sum(
                ip_header(
                    total_len,
                    ip_id,
                    ip_header_checksum(total_len, ip_id, src_ip, dst_ip),
                    src_ip,
                    dst_ip,
                ),
            ),
        ) == 0,
        checksum(
            pseudo_sum(
                src_ip,
                dst_ip,
                udp_datagram(
                    src_port,
                    dst_port,
                    udp_datagram_checksum(src_ip, dst_ip, src_port, dst_port, payload),
                    payload,
                ),
            ),
        ) == 0,
{
    let c = ip_header_checksum(total_len, ip_id, src_ip, dst_ip);
    let pre = seq![0x45u8, 0x00] + be16(total_len) + be16(ip_id) + be16(0x4000) + seq![64u8, 17];
    let post = src_ip + dst_ip;
    lemma_checksum_word(pre, 0, post);
    lemma_checksum_word(pre, c, post);
    assert(ip_header(total_len, ip_id, 0, src_ip, dst_ip) =~= pre + be16(0) + post);
    assert(ip_header(total_len, ip_id, c, src_ip, dst_ip) =~= pre + be16(c) + post);
    let first = seq![0x45u8, 0x00];
    let rest = be16(total_len) + be16(ip_id) + be16(0x4000) + seq![64u8, 17];
    word_sum_concat(first, rest);
    assert(pre =~= first + rest);
    lemma_word_sum_bounds(rest);
    lemma_word_sum_bounds(post);
    assert(be16_at(first, 0) == 0x4500);
    assert(first.skip(2) =~= Seq::<u8>::empty());
    reveal_with_fuel(word_sum, 2);
    assert(word_sum(first) == 0x4500);
    checksum_cancels(word_sum(pre) + word_sum(post));
    let u = udp_datagram_checksum(src_ip, dst_ip, src_port, dst_port, payload);
    let upre = be16(src_port) + be16(dst_port) + be16((8 + payload.len()) as u16);
    lemma_checksum_word(upre, 0, payload);
    lemma_checksum_word(upre, u, payload);
    lemma_word_sum_bounds(upre);
    lemma_word_sum_bounds(payload);
    lemma_word_sum_bounds(src_ip);
    lemma_word_sum_bounds(dst_ip);
    assert(udp_datagram(src_port, dst_port, 0, payload) =~= upre + be16(0) + payload);
    assert(udp_datagram(src_port, dst_port, u, payload) =~= upre + be16(u) + payload);
    checksum_cancels(
        pseudo_sum(src_ip, dst_ip, udp_datagram(src_port, dst_port, 0, payload)),
    );
}

proof fn lemma_checksum_word(pre: Seq<u8>, c: u16, post: Seq<u8>)
    requires
        pre.len() % 2 == 0,
    ensures
        word_sum(pre + be16(c) + post) == word_sum(pre) + c + word_sum(post),
{
    word_sum_concat(pre, be16(c) + post);
    word_sum_concat(be16(c), post);
    lemma_word_sum_be16(c);
    assert(pre + be16(c) + post =~= pre + (be16(c) + post));
}

/// What a captured frame yields: the UDP payload and source port, if it is an
/// unfragmented IPv4/UDP datagram between the two addresses whose announced
/// length is present.
pub open spec fn udp_of_frame(frame: Seq<u8>, want_src: Seq<u8>, want_dst: Seq<u8>) -> Option<
    (Seq<u8>, u16),
> {
    let at = eth_type_offset(frame, 12);
    let ip = at + 2;
    let ihl = (frame[ip] % 16) * 4;
    let udp = ip + ihl;
    let udp_len = be16_at(frame, udp + 4) as int;
    if frame.len() >= 14 && frame.len() >= at + 2 && be16_at(frame, at) == 0x0800 && frame.len()
        >= ip + 20 && frame[ip] / 16 == 4 && ihl >= 20 && frame.len() >= udp + 8 && be16_at(
        frame,
        ip + 6,
    ) % 0x4000 == 0 && frame[ip + 9] == 17 && frame.subrange(ip + 12, ip + 16) == want_src
        && frame.subrange(ip + 16, ip + 20) == want_dst && udp_len >= 8 && frame.len() >= udp
        + udp_len {
        Some((frame.subrange(udp + 8, udp + udp_len), be16_at(frame, udp)))
    } else {
        None
    }
}

/// Extract `(udp_payload, udp_src_port)` from a captured Ethernet frame if it
/// is an unfragmented IPv4/UDP datagram from `want_src_ip` to `want_dst_ip`;
/// none for anything else. Any number of VLAN tags is skipped, the IP header
/// is walked by its length (options tolerated), and the payload is cut to the
/// UDP length field so that Ethernet padding is not returned.
pub fn parse_udp_frame(frame: &[u8], want_src_ip: &[u8; 4], want_dst_ip: &[u8; 4]) -> (r: Option<
    (Vec<u8>, u16),
>)
    ensures
        match udp_of_frame(frame@, want_src_ip@, want_dst_ip@) {
            Some((payload, port)) => r matches Some((p, q)) && p@ == payload && q == port,
            None => r is None,
        },
{
    if frame.len() < 14 {
        return None;
    }
    let off: usize = skip_vlan_tags(frame);
    proof {
        eth_type_offset_bounds(frame@, 12);
    }
    let n: usize = frame.len();
    if n - off < 2 {
        return None;
    }
    if read_be16(frame, off) != ETHERTYPE_IPV4 {
        return None;
    }
    let ip: usize = off + 2;
    if n - ip < 20 || frame[ip] / 16 != 4 {
        return None;
    }
    let ihl: usize = (frame[ip] % 16) as usize * 4;
    if ihl < 20 || n - ip < ihl + 8 {
        return None;
    }
    // A fragment has More Fragments set or an offset, or both.
    if read_be16(frame, ip + 6) % 0x4000 != 0 {
        return None;
    }
    if frame[ip + 9] != IP_PROTO_UDP || !bytes_eq(
        slice_subrange(frame, ip + 12, ip + 16),
        want_src_ip.as_slice(),
    ) || !bytes_eq(slice_subrange(frame, ip + 16, ip + 20), want_dst_ip.as_slice()) {
        return None;
    }
    let udp: usize = ip + ihl;
    let src_port: u16 = read_be16(frame, udp);
    let udp_len: usize = read_be16(frame, udp + 4) as usize;
    if udp_len < 8 || n - udp < udp_len {
        return None;
    }
    Some((copy_range(frame, udp + 8, udp + udp_len), src_port))
}

/// A built frame, with any padding behind it, gives back the payload and the
/// source port, cut to the payload's own length.
pub proof fn udp_frame_round_trip(
    src_mac: Seq<u8>,
    dst_mac: Seq<u8>,
    src_ip: Seq<u8>,
    dst_ip: Seq<u8>,
    src_port: u16,
    dst_port: u16,
    ip_id: u16,
    payload: Seq<u8>,
    padding: Seq<u8>,
)
    requires
        src_mac.len() == 6,
        dst_mac.len() == 6,
        src_ip.len() == 4,
        dst_ip.len() == 4,
        payload.len() <= 65527,
    ensures
        udp_of_frame(
            udp_frame_bytes(
                src_mac,
                dst_mac,
                src_ip,
                dst_ip,
                src_port,
                dst_port,
                ip_id,
                payload,
            ) + padding,
            src_ip,
            dst_ip,
        ) == Some((payload, src_port)),
{
    let total_len = (28 + payload.len()) as u16;
    let c = ip_header_checksum(total_len, ip_id, src_ip, dst_ip);
    let u = udp_datagram_checksum(src_ip, dst_ip, src_port, dst_port, payload);
    let eth = dst_mac + src_mac + be16(0x0800);
    let ip = ip_header(total_len, ip_id, c, src_ip, dst_ip);
    let udp = udp_datagram(src_port, dst_port, u, payload);
    let frame = eth + ip + udp + padding;
    lemma_ip_header_fields(total_len, ip_id, c, src_ip, dst_ip);
    lemma_udp_fields(src_port, dst_port, u, payload);
    assert(forall|i: int| 0 <= i < 14 ==> #[trigger] frame[i] == eth[i]);
    assert(forall|i: int| 0 <= i < 20 ==> frame[14 + i] == #[trigger] ip[i]);
    assert(forall|i: int| 0 <= i < udp.len() ==> frame[34 + i] == #[trigger] udp[i]);
    assert(eth[12] == be16(0x0800)[0] && eth[13] == be16(0x0800)[1]);
    assert(be16_at(frame, 12) == 0x0800);
    reveal_with_fuel(eth_type_offset, 2);
    assert(eth_type_offset(frame, 12) == 12);
    assert(frame[14] == ip[0] && frame[23] == ip[9]);
    assert(frame[20] == ip[6] && frame[21] == ip[7]);
    assert(be16_at(frame, 20) == be16_at(ip, 6));
    assert(frame.subrange(26, 30) =~= ip.subrange(12, 16));
    assert(frame.subrange(30, 34) =~= ip.subrange(16, 20));
    assert(frame[34] == udp[0] && frame[35] == udp[1]);
    assert(be16_at(frame, 34) == be16_at(udp, 0));
    assert(frame[38] == udp[4] && frame[39] == udp[5]);
    assert(be16_at(frame, 38) == be16_at(udp, 4));
    let n = payload.len() as int;
    assert(frame.subrange(42, 42 + n) =~= udp.subrange(8, 8 + n));
}

proof fn lemma_ip_header_fields(
    total_len: u16,
    ip_id: u16,
    cksum: u16,
    src_ip: Seq<u8>,
    dst_ip: Seq<u8>,
)
    requires
        src_ip.len() == 4,
        dst_ip.len() == 4,
    ensures
        ({
            let ip = ip_header(total_len, ip_id, cksum, src_ip, dst_ip);
            &&& ip.len() == 20
            &&& ip[0] == 0x45
            &&& be16_at(ip, 6) == 0x4000
            &&& ip[9] == 17
            &&& ip.subrange(12, 16) == src_ip
            &&& ip.subrange(16, 20) == dst_ip
        }),
{
    let ip = ip_header(total_len, ip_id, cksum, src_ip, dst_ip);
    assert(ip[6] == be16(0x4000)[0] && ip[7] == be16(0x4000)[1]);
    assert(ip.subrange(12, 16) =~= src_ip);
    assert(ip.subrange(16, 20) =~= dst_ip);
}

proof fn lemma_udp_fields(src_port: u16, dst_port: u16, cksum: u16, payload: Seq<u8>)
    requires
        payload.len() <= 65527,
    ensures
        ({
            let udp = udp_datagram(src_port, dst_port, cksum, payload);
            &&& udp.len() == 8 + payload.len()
            &&& be16_at(udp, 0) == src_port
            &&& be16_at(udp, 4) == 8 + payload.len()
            &&& udp.subrange(8, 8 + payload.len() as int) == payload
        }),
{
    let udp = udp_datagram(src_port, dst_port, cksum, payload);
    let len = (8 + payload.len()) as u16;
    assert(udp[0] == be16(src_port)[0] && udp[1] == be16(src_port)[1]);
    assert(udp[4] == be16(len)[0] && udp[5] == be16(len)[1]);
    assert(udp.subrange(8, 8 + payload.len() as int) =~= payload);
}

/// A VLAN tag in front of the EtherType changes nothing in what is received.
#[verifier::spinoff_prover]
#[verifier::rlimit(60)]
pub proof fn udp_vlan_tag_is_transparent(
    frame: Seq<u8>,
    tpid: u16,
    tci: Seq<u8>,
    want_src: Seq<u8>,
    want_dst: Seq<u8>,
)
    requires
        frame.len() >= 14,
        is_tpid(tpid),
        tci.len() == 2,
    ensures
        udp_of_frame(frame.take(12) + be16(tpid) + tci + frame.skip(12), want_src, want_dst)
            == udp_of_frame(frame, want_src, want_dst),
{
    let tagged = frame.take(12) + be16(tpid) + tci + frame.skip(12);
    be16_round_trip(frame.take(12), tpid, tci + frame.skip(12));
    assert(tagged =~= frame.take(12) + be16(tpid) + (tci + frame.skip(12)));
    assert(forall|i: int| 12 <= i < frame.len() ==> tagged[i + 4] == #[trigger] frame[i]);
    lemma_offset_shift(frame, tagged, 12);
    eth_type_offset_bounds(frame, 12);
    let at = eth_type_offset(frame, 12);
    assert(eth_type_offset(tagged, 12) == at + 4);
    let ip = at + 2;
    if frame.len() >= ip + 20 {
        assert(tagged[at + 4] == frame[at] && tagged[at + 1 + 4] == frame[at + 1]);
        assert(tagged[ip + 4] == frame[ip]);
        assert(tagged[ip + 6 + 4] == frame[ip + 6] && tagged[ip + 7 + 4] == frame[ip + 7]);
        assert(tagged[ip + 9 + 4] == frame[ip + 9]);
        assert(tagged.subrange(ip + 16, ip + 20) =~= frame.subrange(ip + 12, ip + 16));
        assert(tagged.subrange(ip + 20, ip + 24) =~= frame.subrange(ip + 16, ip + 20));
        let ihl = (frame[ip] % 16) * 4;
        let udp = ip + ihl;
        if frame.len() >= udp + 8 {
            assert(tagged[udp + 4] == frame[udp] && tagged[udp + 1 + 4] == frame[udp + 1]);
            assert(tagged[udp + 4 + 4] == frame[udp + 4] && tagged[udp + 5 + 4] == frame[udp + 5]);
            let udp_len = be16_at(frame, udp + 4) as int;
            if udp_len >= 8 && frame.len() >= udp + udp_len {
                assert(tagged.subrange(udp + 4 + 8, udp + 4 + udp_len) =~= frame.subrange(
                    udp + 8,
                    udp + udp_len,
                ));
            }
        }
    } else if frame.len() >= at + 2 {
        assert(tagged[at + 4] == frame[at] && tagged[at + 1 + 4] == frame[at + 1]);
    }
}

/// A point-to-point UDP endpoint over raw layer 2: what it needs to address
/// its frames and to recognise the peer's, and the identification that the
/// next frame carries.
#[derive(Debug, Clone, Copy, PartialEq, Eq)]
pub struct RawUdp {
    pub src_mac: [u8; 6],
    pub dst_mac: [u8; 6],
    pub src_ip: [u8; 4],
    pub dst_ip: [u8; 4],
    pub local_port: u16,
    pub ip_id: u16,
}

impl RawUdp {
    /// An endpoint whose first frame carries identification 0; `local_port` is
    /// the UDP source port used by [`RawUdp::send_to`].
    pub fn open(
        src_mac: [u8; 6],
        src_ip: [u8; 4],
        dst_mac: [u8; 6],
        dst_ip: [u8; 4],
        local_port: u16,
    ) -> (r: RawUdp)
        ensures
            r == (RawUdp { src_mac, dst_mac, src_ip, dst_ip, local_port, ip_id: 0 }),
    {
        RawUdp { src_mac, dst_mac, src_ip, dst_ip, local_port, ip_id: 0 }
    }

    /// The UDP source port of [`RawUdp::send_to`].
    pub fn local_port(&self) -> (r: u16)
        ensures
            r == self.local_port,
    {
        self.local_port
    }

    /// The peer IPv4 address (for error messages).
    pub fn dst_ip(&self) -> (r: [u8; 4])
        ensures
            r == self.dst_ip,
    {
        self.dst_ip
    }

    /// The sum over a datagram of this endpoint fits the checksum arithmetic.
    /// It does for every payload that a UDP datagram can hold.
    pub open spec fn payload_fits(self, payload: Seq<u8>, src_port: u16, dst_port: u16) -> bool {
        pseudo_sum(self.src_ip@, self.dst_ip@, udp_datagram(src_port, dst_port, 0, payload))
            <= u32::MAX
    }

    /// The frame that carries `payload` from `local_port` to `dst_port`.
    pub fn send_to(&mut self, payload: &[u8], dst_port: u16) -> (r: Vec<u8>)
        requires
            old(self).payload_fits(payload@, old(self).local_port, dst_port),
        ensures
            r@ == udp_frame_bytes(
                old(self).src_mac@,
                old(self).dst_mac@,
                old(self).src_ip@,
                old(self).dst_ip@,
                old(self).local_port,
                dst_port,
                old(self).ip_id,
                payload@,
            ),
            *final(self) == (RawUdp { ip_id: next_ip_id(old(self).ip_id), ..*old(self) }),
    {
        let port: u16 = self.local_port;
        self.send_to_from(payload, port, dst_port)
    }

    /// The frame that carries `payload` from an explicit UDP source port: the
    /// confirmation of a device's control request leaves from the well-known
    /// RPC port 34964, not from `local_port`.
    pub fn send_to_from(&mut self, payload: &[u8], src_port: u16, dst_port: u16) -> (r: Vec<u8>)
        requires
            old(self).payload_fits(payload@, src_port, dst_port),
        ensures
            r@ == udp_frame_bytes(
                old(self).src_mac@,
                old(self).dst_mac@,
                old(self).src_ip@,
                old(self).dst_ip@,
                src_port,
                dst_port,
                old(self).ip_id,
                payload@,
            ),
            *final(self) == (RawUdp { ip_id: next_ip_id(old(self).ip_id), ..*old(self) }),
    {
        let id: u16 = self.ip_id;
        self.ip_id = if id == 0xFFFF {
            0
        } else {
            id + 1
        };
        build_udp_frame(
            &self.src_mac,
            &self.dst_mac,
            &self.src_ip,
            &self.dst_ip,
            src_port,
            dst_port,
            id,
            payload,
        )
    }

    /// What a captured frame carries for this endpoint: the payload and source
    /// port of a datagram from the peer to us. The port tells a response
    /// (dynamic device port) from a request that the device initiated.
    pub fn recv_from(&self, frame: &[u8]) -> (r: Option<(Vec<u8>, u16)>)
        ensures
            match udp_of_frame(frame@, self.dst_ip@, self.src_ip@) {
                Some((payload, port)) => r matches Some((p, q)) && p@ == payload && q == port,
                None => r is None,
            },
    {
        parse_udp_frame(frame, &self.dst_ip, &self.src_ip)
    }
}

/// Identifications count up and wrap.
pub open spec fn next_ip_id(id: u16) -> u16 {
    if id == 0xFFFF {
        0
    } else {
        (id + 1) as u16
    }
}

/// The sum behind a UDP checksum is that of the pseudo-header (both addresses, the
/// protocol, the length) and the datagram, one behind the other.
pub proof fn the_pseudo_header_is_summed(src_ip: Seq<u8>, dst_ip: Seq<u8>, udp: Seq<u8>)
    requires
        src_ip.len() == 4,
        dst_ip.len() == 4,
        udp.len() <= 0xFFFF,
    ensures
        pseudo_sum(src_ip, dst_ip, udp) == word_sum(
            src_ip + dst_ip + seq![0u8, 17u8] + be16(udp.len() as u16) + udp,
        ),
{
    let n = udp.len() as u16;
    let p = seq![0u8, 17u8];
    let all = src_ip + dst_ip + p + be16(n) + udp;
    word_sum_concat(src_ip, dst_ip + p + be16(n) + udp);
    word_sum_concat(dst_ip, p + be16(n) + udp);
    word_sum_concat(p, be16(n) + udp);
    word_sum_concat(be16(n), udp);
    assert(all =~= src_ip + (dst_ip + p + be16(n) + udp));
    assert(dst_ip + p + be16(n) + udp =~= dst_ip + (p + be16(n) + udp));
    assert(p + be16(n) + udp =~= p + (be16(n) + udp));
    lemma_word_sum_be16(n);
    assert(p =~= be16(17));
    lemma_word_sum_be16(17);
}

/// Every field of a built frame: from our MAC address to the peer's, IPv4 without
/// options, whole and not to be fragmented, UDP, from our address to the peer's,
/// with the ports, the lengths and the payload.
pub proof fn udp_frames_have_their_layout(
    src_mac: Seq<u8>,
    dst_mac: Seq<u8>,
    src_ip: Seq<u8>,
    dst_ip: Seq<u8>,
    src_port: u16,
    dst_port: u16,
    ip_id: u16,
    payload: Seq<u8>,
)
    requires
        src_mac.len() == 6,
        dst_mac.len() == 6,
        src_ip.len() == 4,
        dst_ip.len() == 4,
        payload.len() <= 65507,
    ensures
        ({
            let f = udp_frame_bytes(
                src_mac,
                dst_mac,
                src_ip,
                dst_ip,
                src_port,
                dst_port,
                ip_id,
                payload,
            );
            &&& f.len() == 42 + payload.len()
            &&& f.subrange(0, 6) == dst_mac
            &&& f.subrange(6, 12) == src_mac
            &&& be16_at(f, 12) == 0x0800
            &&& f[14] == 0x45
            &&& be16_at(f, 16) == 28 + payload.len()
            &&& be16_at(f, 18) == ip_id
            &&& be16_at(f, 20) == 0x4000
            &&& f[22] == 64
            &&& f[23] == 17
            &&& f.subrange(26, 30) == src_ip
            &&& f.subrange(30, 34) == dst_ip
            &&& be16_at(f, 34) == src_port
            &&& be16_at(f, 36) == dst_port
            &&& be16_at(f, 38) == 8 + payload.len()
            &&& f.skip(42) == payload
        }),
{
    let total = (28 + payload.len()) as u16;
    let c = ip_header_checksum(total, ip_id, src_ip, dst_ip);
    let u = udp_datagram_checksum(src_ip, dst_ip, src_port, dst_port, payload);
    let ip = ip_header(total, ip_id, c, src_ip, dst_ip);
    let udp = udp_datagram(src_port, dst_port, u, payload);
    let f = udp_frame_bytes(src_mac, dst_mac, src_ip, dst_ip, src_port, dst_port, ip_id, payload);
    assert(f == dst_mac + src_mac + be16(0x0800) + ip + udp);
    assert(ip.len() == 20);
    be16_placed(ip, 2, total);
    be16_placed(ip, 4, ip_id);
    be16_placed(ip, 6, 0x4000);
    assert(ip.subrange(12, 16) =~= src_ip);
    assert(ip.subrange(16, 20) =~= dst_ip);
    be16_placed(udp, 0, src_port);
    be16_placed(udp, 2, dst_port);
    be16_placed(udp, 4, (8 + payload.len()) as u16);
    assert(udp.skip(8) =~= payload);
    lemma_frame_parts(dst_mac, src_mac, ip, udp);
    be16_placed(f, 12, 0x0800);
    assert(f.subrange(0, 6) =~= dst_mac);
    assert(f.subrange(6, 12) =~= src_mac);
    assert(f.subrange(26, 30) =~= ip.subrange(12, 16));
    assert(f.subrange(30, 34) =~= ip.subrange(16, 20));
    assert(f.skip(42) =~= udp.skip(8));
}

proof fn lemma_frame_parts(dst_mac: Seq<u8>, src_mac: Seq<u8>, ip: Seq<u8>, udp: Seq<u8>)
    requires
        dst_mac.len() == 6,
        src_mac.len() == 6,
        ip.len() == 20,
    ensures
        ({
            let f = dst_mac + src_mac + be16(0x0800) + ip + udp;
            &&& f.len() == 34 + udp.len()
            &&& forall|i: int| 14 <= i < 34 ==> #[trigger] f[i] == ip[i - 14]
            &&& forall|i: int| 34 <= i < f.len() ==> #[trigger] f[i] == udp[i - 34]
        }),
{
}

/// An IPv4 packet as it is captured: Ethernet header, VLAN tag if there is one, IP
/// header with options, and what is in it.
pub open spec fn captured(
    to: Seq<u8>,
    from: Seq<u8>,
    tag: Option<u16>,
    options: Seq<u8>,
    fragment: u16,
    protocol: u8,
    src_ip: Seq<u8>,
    dst_ip: Seq<u8>,
    rest: Seq<u8>,
) -> Seq<u8> {
    to + from + (match tag {
        Some(control) => be16(0x8100) + be16(control),
        None => Seq::empty(),
    }) + be16(0x0800) + seq![(0x45 + options.len() / 4) as u8, 0u8] + zeros(4) + be16(fragment)
        + seq![64u8, protocol] + zeros(2) + src_ip + dst_ip + options + rest
}

/// A captured datagram gives its payload and source port exactly if it is whole,
/// UDP, and from the address to the address that were asked for, behind a VLAN tag
/// or not, and whatever IP options it has; padding behind it is cut off.
pub proof fn only_the_peers_datagrams_are_taken(
    to: Seq<u8>,
    from: Seq<u8>,
    tag: Option<u16>,
    options: Seq<u8>,
    fragment: u16,
    protocol: u8,
    src_ip: Seq<u8>,
    dst_ip: Seq<u8>,
    src_port: u16,
    dst_port: u16,
    cksum: u16,
    payload: Seq<u8>,
    padding: Seq<u8>,
    want_src: Seq<u8>,
    want_dst: Seq<u8>,
)
    requires
        to.len() == 6,
        from.len() == 6,
        options.len() % 4 == 0,
        options.len() <= 40,
        src_ip.len() == 4,
        dst_ip.len() == 4,
        payload.len() <= 65507,
    ensures
        udp_of_frame(
            captured(
                to,
                from,
                tag,
                options,
                fragment,
                protocol,
                src_ip,
                dst_ip,
                be16(src_port) + be16(dst_port) + be16((8 + payload.len()) as u16) + be16(cksum)
                    + payload + padding,
            ),
            want_src,
            want_dst,
        ) == if fragment % 0x4000 == 0 && protocol == 17 && src_ip == want_src && dst_ip
            == want_dst {
            Some((payload, src_port))
        } else {
            None::<(Seq<u8>, u16)>
        },
{
    let udp = be16(src_port) + be16(dst_port) + be16((8 + payload.len()) as u16) + be16(cksum)
        + payload + padding;
    let ip = seq![(0x45 + options.len() / 4) as u8, 0u8] + zeros(4) + be16(fragment) + seq![
        64u8,
        protocol,
    ] + zeros(2) + src_ip + dst_ip;
    let f = captured(to, from, tag, options, fragment, protocol, src_ip, dst_ip, udp);
    let at: int = match tag {
        Some(_) => 16,
        None => 12,
    };
    let k = at + 2;
    reveal_with_fuel(eth_type_offset, 3);
    assert(ip.len() == 20);
    be16_placed(ip, 6, fragment);
    assert(ip.subrange(12, 16) =~= src_ip);
    assert(ip.subrange(16, 20) =~= dst_ip);
    be16_placed(udp, 0, src_port);
    be16_placed(udp, 4, (8 + payload.len()) as u16);
    assert(udp.subrange(8, 8 + payload.len() as int) =~= payload);
    match tag {
        Some(control) => {
            let eth = to + from + (be16(0x8100) + be16(control)) + be16(0x0800);
            assert(f =~= eth + ip + options + udp);
            be16_placed(f, 12, 0x8100);
            be16_placed(f, 16, 0x0800);
            lemma_captured_parts(eth, ip, options, udp, f);
        },
        None => {
            let eth = to + from + Seq::<u8>::empty() + be16(0x0800);
            assert(f =~= eth + ip + options + udp);
            be16_placed(f, 12, 0x0800);
            lemma_captured_parts(eth, ip, options, udp, f);
        },
    }
    assert(eth_type_offset(f, 12) == at);
    let u = k + 20 + options.len();
    assert(f[k] == ip[0]);
    assert(ip[0] / 16 == 4 && (ip[0] % 16) * 4 == 20 + options.len());
    assert(f[k + 6] == ip[6] && f[k + 7] == ip[7] && f[k + 9] == ip[9]);
    assert(f.subrange(k + 12, k + 16) =~= ip.subrange(12, 16));
    assert(f.subrange(k + 16, k + 20) =~= ip.subrange(16, 20));
    assert(f[u] == udp[0] && f[u + 1] == udp[1] && f[u + 4] == udp[4] && f[u + 5] == udp[5]);
    assert(f.subrange(u + 8, u + 8 + payload.len()) =~= udp.subrange(8, 8 + payload.len() as int));
}

proof fn lemma_captured_parts(eth: Seq<u8>, ip: Seq<u8>, options: Seq<u8>, udp: Seq<u8>, f: Seq<u8>)
    requires
        ip.len() == 20,
        f == eth + ip + options + udp,
    ensures
        f.len() == eth.len() + 20 + options.len() + udp.len(),
        forall|i: int| eth.len() <= i < eth.len() + 20 ==> #[trigger] f[i] == ip[i - eth.len()],
        forall|i: int|
            eth.len() + 20 + options.len() <= i < f.len() ==> #[trigger] f[i] == udp[i - eth.len()
                - 20 - options.len()],
{
}

} // verus!
