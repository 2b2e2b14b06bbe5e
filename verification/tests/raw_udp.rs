//! UDP over raw layer 2.

use profinet_rs::rawudp::{
    build_udp_frame, fold_checksum, ipv4_checksum, parse_udp_frame, sum_be_words, udp_checksum,
    RawUdp, IP_PROTO_UDP,
};
use profinet_rs::raw_l2::RawL2Route;

const SRC_MAC: [u8; 6] = [0x02, 0x00, 0x00, 0x00, 0x00, 0x01];
const DST_MAC: [u8; 6] = [0x02, 0x00, 0x00, 0x00, 0x00, 0x02];
const SRC_IP: [u8; 4] = [192, 168, 0, 1];
const DST_IP: [u8; 4] = [192, 168, 0, 199];

/// The IPv4 header checksum example from RFC 1071 practice (the
/// well-known Wikipedia vector): checksum 0xB861 for this header.
#[test]
fn ipv4_checksum_known_vector() {
    let mut header = [
        0x45, 0x00, 0x00, 0x73, 0x00, 0x00, 0x40, 0x00, 0x40, 0x11, 0x00, 0x00, 0xC0, 0xA8,
        0x00, 0x01, 0xC0, 0xA8, 0x00, 0xC7,
    ];
    assert_eq!(ipv4_checksum(&header), 0xB861);
    // A header carrying its correct checksum verifies to zero.
    header[10..12].copy_from_slice(&0xB861u16.to_be_bytes());
    assert_eq!(ipv4_checksum(&header), 0);
}

/// Hand-computed vector: src 192.168.0.1, dst 192.168.0.199, ports
/// 34964 -> 34964, payload "test". Pseudo-header + UDP words sum to
/// 0x37B42, folds to 0x7B45, complements to 0x84BA.
#[test]
fn udp_checksum_known_vector() {
    let mut udp = Vec::new();
    udp.extend_from_slice(&34964u16.to_be_bytes());
    udp.extend_from_slice(&34964u16.to_be_bytes());
    udp.extend_from_slice(&12u16.to_be_bytes());
    udp.extend_from_slice(&[0, 0]);
    udp.extend_from_slice(b"test");
    assert_eq!(udp_checksum(&SRC_IP, &DST_IP, &udp), 0x84BA);
}

#[test]
fn built_frame_layout_and_checksums() {
    let payload = b"\x04\x00\x20\x00hello rpc";
    let frame = build_udp_frame(
        &SRC_MAC, &DST_MAC, &SRC_IP, &DST_IP, 50123, 34964, 7, payload,
    );

    // Ethernet: dst ++ src ++ 0x0800.
    assert_eq!(&frame[0..6], &DST_MAC);
    assert_eq!(&frame[6..12], &SRC_MAC);
    assert_eq!(&frame[12..14], &[0x08, 0x00]);

    // IPv4 header fields.
    let ip = &frame[14..34];
    assert_eq!(ip[0], 0x45);
    let total_len = u16::from_be_bytes([ip[2], ip[3]]);
    assert_eq!(total_len as usize, 20 + 8 + payload.len());
    assert_eq!(u16::from_be_bytes([ip[4], ip[5]]), 7); // id
    assert_eq!(u16::from_be_bytes([ip[6], ip[7]]), 0x4000); // DF
    assert_eq!(ip[8], 64); // TTL
    assert_eq!(ip[9], 17); // UDP
    assert_eq!(&ip[12..16], &SRC_IP);
    assert_eq!(&ip[16..20], &DST_IP);
    // Header checksum verifies: sum over the full header (checksum
    // included) folds to 0xFFFF, i.e. ipv4_checksum returns 0.
    assert_eq!(ipv4_checksum(ip), 0);
    assert_ne!(u16::from_be_bytes([ip[10], ip[11]]), 0);

    // UDP header fields.
    let udp = &frame[34..];
    assert_eq!(u16::from_be_bytes([udp[0], udp[1]]), 50123);
    assert_eq!(u16::from_be_bytes([udp[2], udp[3]]), 34964);
    assert_eq!(
        u16::from_be_bytes([udp[4], udp[5]]) as usize,
        8 + payload.len()
    );
    assert_ne!(u16::from_be_bytes([udp[6], udp[7]]), 0);
    // UDP checksum verifies over pseudo-header + full datagram
    // (checksum included): the one's-complement sum folds to 0xFFFF.
    let verify = sum_be_words(&SRC_IP)
        + sum_be_words(&DST_IP)
        + u32::from(IP_PROTO_UDP)
        + udp.len() as u32
        + sum_be_words(udp);
    assert_eq!(fold_checksum(verify), 0);
    assert_eq!(&udp[8..], payload);
}

/// A frame built for the incoming direction parses back to the same
/// payload and source port.
#[test]
fn round_trip_build_then_parse() {
    let payload = b"rpc response bytes";
    let frame = build_udp_frame(
        &DST_MAC, &SRC_MAC, &DST_IP, &SRC_IP, 49152, 50123, 3, payload,
    );
    let (got, src_port) = parse_udp_frame(&frame, &DST_IP, &SRC_IP).expect("frame must parse");
    assert_eq!(got, payload);
    assert_eq!(src_port, 49152);
}

/// 802.1Q-tagged and Ethernet-padded frames still parse, and the padding
/// is cut off at the UDP length.
#[test]
fn parse_vlan_tagged_and_padded_frame() {
    let payload = b"ok";
    let mut frame = build_udp_frame(
        &DST_MAC, &SRC_MAC, &DST_IP, &SRC_IP, 34964, 34964, 0, payload,
    );
    // Insert an 802.1Q tag (TPID 0x8100, VID 5) after the MACs.
    frame.splice(12..12, [0x81, 0x00, 0x00, 0x05]);
    // Pad to the 60-byte Ethernet minimum.
    while frame.len() < 60 {
        frame.push(0);
    }
    let (got, src_port) = parse_udp_frame(&frame, &DST_IP, &SRC_IP).expect("frame must parse");
    assert_eq!(got, payload);
    assert_eq!(src_port, 34964);
}

/// Frames that are not the peer's UDP traffic are ignored — notably our
/// own outgoing frames, which the capture also sees.
#[test]
fn parse_rejects_non_matching_frames() {
    let own = build_udp_frame(&SRC_MAC, &DST_MAC, &SRC_IP, &DST_IP, 50123, 34964, 0, b"x");
    assert_eq!(parse_udp_frame(&own, &DST_IP, &SRC_IP), None);

    let other_ip = build_udp_frame(
        &DST_MAC,
        &SRC_MAC,
        &[10, 0, 0, 1],
        &SRC_IP,
        34964,
        34964,
        0,
        b"x",
    );
    assert_eq!(parse_udp_frame(&other_ip, &DST_IP, &SRC_IP), None);

    // Wrong ethertype (ARP) and runt frames.
    let mut arp = build_udp_frame(&DST_MAC, &SRC_MAC, &DST_IP, &SRC_IP, 1, 2, 0, b"x");
    arp[12..14].copy_from_slice(&[0x08, 0x06]);
    assert_eq!(parse_udp_frame(&arp, &DST_IP, &SRC_IP), None);
    assert_eq!(parse_udp_frame(&[0u8; 13], &DST_IP, &SRC_IP), None);
}

#[test]
fn identifications_count_up_and_wrap() {
    let mut raw = RawUdp::open(SRC_MAC, SRC_IP, DST_MAC, DST_IP, 50123);
    assert_eq!(raw.local_port(), 50123);
    assert_eq!(raw.dst_ip(), DST_IP);
    let first = raw.send_to(b"a", 34964);
    let second = raw.send_to(b"a", 34964);
    assert_eq!(&first[18..20], &[0, 0]);
    assert_eq!(&second[18..20], &[0, 1]);
    raw.ip_id = 0xFFFF;
    raw.send_to(b"a", 34964);
    assert_eq!(raw.ip_id, 0);
}

#[test]
fn confirmations_go_back_where_the_request_came_from() {
    let mut route = RawL2Route::from_random(SRC_MAC, SRC_IP, DST_MAC, DST_IP, [0xFF, 0xFF]);
    assert_eq!(route.raw.local_port, 65535);
    assert_eq!(route.peer(), "192.168.0.199");
    assert_eq!(
        route.reply_ccontrol(b"done"),
        Err("No CControl received to reply to".to_string())
    );
    let request = build_udp_frame(
        &DST_MAC, &SRC_MAC, &DST_IP, &SRC_IP, 49999, 34964, 0, b"ready",
    );
    assert_eq!(route.recv_ccontrol(&request), Some(b"ready".to_vec()));
    let reply = route.reply_ccontrol(b"done").unwrap();
    // From the well-known port, to the port that asked.
    assert_eq!(&reply[34..38], &[0x88, 0x94, 0xC3, 0x4F]);
    assert_eq!(route.recv_response(&request), Some(b"ready".to_vec()));
    assert_eq!(route.recv_response(&reply), None);
}

#[test]
fn a_random_route_uses_a_dynamic_port() {
    let route = RawL2Route::new_raw(SRC_MAC, SRC_IP, DST_MAC, DST_IP).unwrap();
    assert!(route.raw.local_port >= 49152);
    assert_eq!(route.ccontrol_src, None);
}

#[test]
fn fragments_are_no_datagrams() {
    let mut f = build_udp_frame(&DST_MAC, &SRC_MAC, &DST_IP, &SRC_IP, 34964, 34964, 0, b"ok");
    assert_eq!(parse_udp_frame(&f, &DST_IP, &SRC_IP), Some((b"ok".to_vec(), 34964)));
    // Don't Fragment is set on whole datagrams.
    f[20..22].copy_from_slice(&[0x40, 0x00]);
    assert!(parse_udp_frame(&f, &DST_IP, &SRC_IP).is_some());
    // The first fragment, a middle one, and the last one.
    for word in [[0x20, 0x00], [0x20, 0x01], [0x00, 0x01]] {
        f[20..22].copy_from_slice(&word);
        assert_eq!(parse_udp_frame(&f, &DST_IP, &SRC_IP), None);
    }
}
