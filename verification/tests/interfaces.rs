//! Addresses of the controller's interfaces.

use profinet_rs::pcap::{
    bpf_filter, get_ipv4, get_ipv4_toward, get_mac, mac_lookup_names, pick_source_ipv4,
    InterfaceAddress, InterfaceDevice,
};

/// One entry of an interface's address list.
fn addr(ip: [u8; 4], netmask: Option<[u8; 4]>) -> InterfaceAddress {
    InterfaceAddress::V4 { ip, netmask }
}

const MASK24: [u8; 4] = [255, 255, 255, 0];

#[test]
fn the_address_whose_network_holds_the_target_wins() {
    // The first address is not the one that reaches the device. Taking it
    // anyway is the failure this exists to prevent: the frames go out, the
    // device cannot answer the source, and the session dies in a timeout
    // that says nothing about why.
    let addresses = [
        addr([10, 0, 0, 5], Some(MASK24)),
        addr([192, 168, 0, 7], Some(MASK24)),
    ];
    let chosen = pick_source_ipv4(&addresses, [192, 168, 0, 2]).expect("an address");
    assert_eq!(chosen.ip, [192, 168, 0, 7]);
    assert!(chosen.reaches_target);
}

#[test]
fn the_first_address_is_the_fallback_when_none_matches() {
    // A device on a factory default address is in nobody's network, and
    // this tool exists partly to change that — so this is reported, not
    // refused.
    let addresses = [
        addr([10, 0, 0, 5], Some(MASK24)),
        addr([172, 16, 0, 9], Some(MASK24)),
    ];
    let chosen = pick_source_ipv4(&addresses, [192, 168, 0, 2]).expect("an address");
    assert_eq!(chosen.ip, [10, 0, 0, 5]);
    assert!(!chosen.reaches_target);
}

#[test]
fn an_address_without_a_netmask_can_only_be_the_fallback() {
    // Nothing can be concluded from an address whose network is unknown,
    // so it must not win over one that demonstrably matches.
    let addresses = [
        addr([192, 168, 0, 9], None),
        addr([192, 168, 0, 7], Some(MASK24)),
    ];
    let chosen = pick_source_ipv4(&addresses, [192, 168, 0, 2]).expect("an address");
    assert_eq!(chosen.ip, [192, 168, 0, 7]);

    // On its own it is still better than nothing.
    let only = [addr([192, 168, 0, 9], None)];
    let chosen = pick_source_ipv4(&only, [192, 168, 0, 2]).expect("an address");
    assert_eq!(chosen.ip, [192, 168, 0, 9]);
    assert!(!chosen.reaches_target);
}

#[test]
fn an_all_zero_netmask_is_not_a_network_holding_everything() {
    // Every address is "in" 0.0.0.0/0, so treating it as a match would
    // make the first such entry win for any device — and report it as
    // reaching the target, which suppresses the note.
    let addresses = [
        addr([10, 0, 0, 5], Some([0, 0, 0, 0])),
        addr([192, 168, 0, 7], Some(MASK24)),
    ];
    let chosen = pick_source_ipv4(&addresses, [192, 168, 0, 2]).expect("an address");
    assert_eq!(chosen.ip, [192, 168, 0, 7]);
    assert!(chosen.reaches_target);

    // Alone it is still the fallback, and says so.
    let only = [addr([10, 0, 0, 5], Some([0, 0, 0, 0]))];
    let chosen = pick_source_ipv4(&only, [192, 168, 0, 2]).expect("an address");
    assert_eq!(chosen.ip, [10, 0, 0, 5]);
    assert!(!chosen.reaches_target);
}

#[test]
fn a_wider_mask_still_matches() {
    let addresses = [addr([10, 1, 0, 5], Some([255, 0, 0, 0]))];
    let chosen = pick_source_ipv4(&addresses, [10, 9, 9, 9]).expect("an address");
    assert!(chosen.reaches_target);
}

#[test]
fn an_interface_with_no_ipv4_address_yields_nothing() {
    let addresses = [InterfaceAddress::Other];
    assert_eq!(pick_source_ipv4(&addresses, [192, 168, 0, 2]), None);
}

#[test]
fn unix_device_names_are_looked_up_as_given() {
    assert_eq!(mac_lookup_names("en10"), vec!["en10".to_string()]);
    assert_eq!(mac_lookup_names("eth0"), vec!["eth0".to_string()]);
}

#[test]
fn windows_capture_names_also_try_the_bare_guid() {
    // The capture library hands out this form, while the system knows the
    // adapter by the GUID alone.
    let names = mac_lookup_names(r"\Device\NPF_{00000000-1111-2222-3333-444444444444}");
    assert_eq!(
        names,
        vec![
            r"\Device\NPF_{00000000-1111-2222-3333-444444444444}".to_string(),
            "{00000000-1111-2222-3333-444444444444}".to_string(),
        ]
    );
}

#[test]
fn a_name_that_merely_looks_similar_is_not_stripped() {
    // Only the exact pcap prefix means a GUID follows; anything else is
    // passed through untouched rather than mangled into a second lookup.
    assert_eq!(
        mac_lookup_names(r"\Device\OtherThing"),
        vec![r"\Device\OtherThing".to_string()]
    );
}

#[test]
fn the_first_mac_found_wins() {
    let answers = [Err("no".to_string()), Ok(None), Ok(Some([1, 2, 3, 4, 5, 6]))];
    assert_eq!(get_mac("en0", &answers), Ok([1, 2, 3, 4, 5, 6]));
    assert_eq!(
        get_mac("en0", &answers[..2]),
        Err("failed to get MAC address for \"en0\": no".to_string())
    );
    assert_eq!(
        get_mac("en0", &[Ok(None)]),
        Err("no MAC address found for interface \"en0\"".to_string())
    );
}

#[test]
fn addresses_come_from_the_named_interface() {
    let devices = [
        InterfaceDevice { name: "lo".to_string(), addresses: vec![InterfaceAddress::Other] },
        InterfaceDevice {
            name: "en0".to_string(),
            addresses: vec![addr([10, 0, 0, 5], None), addr([192, 168, 0, 7], Some(MASK24))],
        },
    ];
    assert_eq!(get_ipv4(&devices, "en0"), Ok([10, 0, 0, 5]));
    assert_eq!(
        get_ipv4_toward(&devices, "en0", [192, 168, 0, 2]).unwrap().ip,
        [192, 168, 0, 7]
    );
    assert_eq!(
        get_ipv4(&devices, "en1"),
        Err("interface \"en1\" not found by pcap".to_string())
    );
    assert_eq!(
        get_ipv4(&devices, "lo"),
        Err("no IPv4 address on interface \"lo\"".to_string())
    );
}

#[test]
fn the_capture_filter_accepts_tagged_frames() {
    assert_eq!(
        bpf_filter(0x8892),
        "ether proto 0x8892 or (vlan and ether proto 0x8892)"
    );
}
