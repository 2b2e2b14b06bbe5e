//! Addresses as text, and the Ethernet header.

use profinet_rs::util::{ip2s, ip_string, mac2s, s2ip, s2mac, skip_vlan_tags, strip_eth};

#[test]
fn mac_addresses_read_back() {
    let mac = s2mac("00:0C:29:66:a7:84").unwrap();
    assert_eq!(mac, [0x00, 0x0C, 0x29, 0x66, 0xA7, 0x84]);
    assert_eq!(mac2s(&mac), "00:0c:29:66:a7:84");
    assert_eq!(s2mac(&mac2s(&[0xFF; 6])), Ok([0xFF; 6]));
    assert_eq!(s2mac(""), Err("MAC address cannot be empty".to_string()));
    for bad in ["00:0c:29:66:a7", "00:0c:29:66:a7:8", "00:0c:29:66:a7:8g", "00-0c-29-66-a7-84"] {
        assert_eq!(
            s2mac(bad),
            Err(format!(
                "Invalid MAC address format: {bad:?}. Expected format: aa:bb:cc:dd:ee:ff"
            ))
        );
    }
}

#[test]
fn ip_addresses_read_back() {
    assert_eq!(ip2s("192.168.0.2"), Ok([192, 168, 0, 2]));
    assert_eq!(s2ip(&[192, 168, 0, 2, 99]), Ok("192.168.0.2".to_string()));
    assert_eq!(ip_string(255, 0, 10, 1), "255.0.10.1");
    assert_eq!(
        s2ip(&[1, 2, 3]),
        Err("IP address must be at least 4 bytes, got 3".to_string())
    );
    assert_eq!(ip2s(""), Err("IP address cannot be empty".to_string()));
    for bad in ["1.2.3", "1.2.3.4.5", "1.2.3.256", "1.2.3.04", "1.2.3.", "1.2.3.+4", "a.b.c.d"] {
        assert_eq!(ip2s(bad), Err(format!("Invalid IP address: {bad:?}")));
    }
}

#[test]
fn vlan_tags_are_skipped() {
    let mut frame = vec![0u8; 12];
    frame.extend_from_slice(&[0x88, 0x92, 1, 2, 3]);
    assert_eq!(skip_vlan_tags(&frame), 12);
    assert_eq!(strip_eth(&frame, 0x8892), Ok(&[1u8, 2, 3][..]));
    assert_eq!(
        strip_eth(&frame, 0x0800),
        Err("unexpected EtherType: 0x8892".to_string())
    );
    let mut tagged = frame.clone();
    tagged.splice(12..12, [0x81, 0x00, 0xC0, 0x00, 0x88, 0xA8, 0x00, 0x05]);
    assert_eq!(skip_vlan_tags(&tagged), 20);
    assert_eq!(strip_eth(&tagged, 0x8892), Ok(&[1u8, 2, 3][..]));
    assert_eq!(
        strip_eth(&tagged, 0x0800),
        Err("unexpected inner EtherType: 0x8892".to_string())
    );
    assert_eq!(
        strip_eth(&[0; 13], 0x8892),
        Err("frame too short for Ethernet header: 13 bytes".to_string())
    );
    assert_eq!(
        strip_eth(&tagged[..20], 0x8892),
        Err("VLAN frame too short".to_string())
    );
}
