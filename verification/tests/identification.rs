//! Identification and maintenance records, topology, and their printouts.

use profinet_rs::commands::{
    check_submodule, im0_lines, im1_lines, im2_lines, im3_lines, input_part, io_slot_line,
    no_im_line, read_lines, topology_slot_line, topology_subslot_line, total_line, write_line,
};
use profinet_rs::gsdml::IoSlot;
use profinet_rs::im::{
    align4, decode_bytes, parse_block_header, parse_im0, parse_im1, parse_im2, parse_im3,
    parse_inm0_filter, parse_multiple_block_header, parse_pd_interface_data_real,
    parse_pd_port_data_real, parse_pd_real_data, parse_real_identification_data,
};

fn im0_record() -> Vec<u8> {
    let mut d = vec![0x00, 0x20, 0x00, 0x38, 0x01, 0x00, 0x0A, 0xBC];
    let mut order = b"ORDER-1".to_vec();
    order.resize(20, 0);
    d.extend_from_slice(&order);
    let mut serial = b"SN42".to_vec();
    serial.resize(16, b' ');
    d.extend_from_slice(&serial);
    d.extend_from_slice(&[0, 3, b'V', 1, 2, 3, 0, 9, 0xF6, 0, 0, 1, 1, 1, 0, 0x1E]);
    d
}

#[test]
fn identification_is_read_field_by_field() {
    let im0 = parse_im0(&im0_record()).unwrap();
    assert_eq!(im0.vendor_id(), 0x0ABC);
    assert_eq!(im0.order_id_str(), "ORDER-1");
    assert_eq!(im0.im_hardware_revision, 3);
    assert_eq!(im0.software_revision(), "V1.2.3");
    assert_eq!(im0.im_supported, 0x1E);
    assert_eq!(im0.block_header.kind_name(), "I&M0");
    assert_eq!(im0.block_header.body_length(), 0x36);
    assert_eq!(
        im0_lines(&im0, "Acme"),
        [
            "IM0 (identification):",
            "  Vendor ID:         0x0ABC (Acme)",
            "  Order ID:          ORDER-1",
            "  Serial number:     SN42            ",
            "  Hardware revision: 3",
            "  Software revision: V1.2.3",
            "  Revision counter:  9",
            "  Profile ID:        0xF600",
            "  IM supported:      0x001E",
        ]
    );
    assert_eq!(
        parse_im0(&[0; 59]).unwrap_err(),
        "PNInM0: insufficient data, need 60 bytes, got 59"
    );
    let mut plain = im0_record();
    plain[46] = 0;
    assert_eq!(parse_im0(&plain).unwrap().software_revision(), "1.2.3");
}

#[test]
fn tags_dates_and_descriptors_are_read() {
    let mut d = vec![0u8; 60];
    d[6..10].copy_from_slice(b"pump");
    d[38..42].copy_from_slice(b"hall");
    assert_eq!(
        im1_lines(&parse_im1(&d).unwrap()),
        ["IM1 (tag):", "  Tag function:      pump", "  Tag location:      hall"]
    );
    let mut date = vec![0u8; 6];
    date.extend_from_slice(b"2024-01-02 03:04");
    assert_eq!(
        im2_lines(&parse_im2(&date).unwrap()),
        ["IM2 (date):", "  Installation date: 2024-01-02 03:04"]
    );
    assert_eq!(
        im3_lines(&parse_im3(&d).unwrap())[1],
        format!("  Descriptor:        pump{}hall", "\0".repeat(28))
    );
    assert!(parse_im1(&[0; 59]).is_err());
    assert!(parse_im2(&[0; 21]).is_err());
    assert!(parse_im3(&[0; 59]).is_err());
    assert_eq!(no_im_line(2), "No IM2 data available");
}

#[test]
fn headers_and_alignment() {
    assert_eq!(decode_bytes(b"ab\0c\0\0"), "ab\0c");
    assert_eq!([align4(0), align4(1), align4(4), align4(5)], [0, 4, 4, 8]);
    assert_eq!(
        parse_block_header(&[0; 8], 3).unwrap_err(),
        "Block header requires 6 bytes, got 5"
    );
    assert_eq!(
        parse_multiple_block_header(&[0, 0, 0, 0, 0, 1, 0, 2, 0, 3], 0),
        Ok((1, 2, 3, 10))
    );
    assert!(parse_multiple_block_header(&[0; 9], 0).is_err());
}

#[test]
fn slots_are_identified_in_both_layouts() {
    let v10 = [
        0, 0x13, 0, 0, 1, 0, 0, 1, 0, 2, 0, 0, 0, 0x20, 0, 1, 0, 3, 0, 0, 0, 0x21,
    ];
    let r = parse_real_identification_data(&v10);
    assert_eq!(r.version, (1, 0));
    assert_eq!(r.slots.len(), 1);
    let s = r.slots[0].to_device_slot();
    assert_eq!((s.slot, s.subslot, s.module_ident, s.submodule_ident), (2, 3, 0x20, 0x21));
    let v11 = [
        0, 0x13, 0, 0, 1, 1, 0, 1, 0, 0, 0, 5, 0, 1, 0, 2, 0, 0, 0, 0x20, 0, 2, 0, 3, 0, 0, 0,
        0x21, 0, 4,
    ];
    let r = parse_real_identification_data(&v11);
    assert_eq!(r.clone(), r);
    assert_eq!(r.version, (1, 1));
    // The second subslot is cut off.
    assert_eq!(r.slots.len(), 1);
    assert_eq!(r.slots[0].api, 5);
    assert!(parse_real_identification_data(&[]).slots.is_empty());
}

#[test]
fn filters_are_read_or_refused() {
    let data = [
        0, 0x30, 0, 0, 1, 0, 0, 1, 0, 0, 0, 0, 0, 1, 0, 2, 0, 0, 0, 0x20, 0, 1, 0, 3, 0, 0, 0, 0x21,
    ];
    let f = parse_inm0_filter(&data).unwrap();
    assert_eq!(f[&0][&2].0, 0x20);
    assert_eq!(f[&0][&2].1[&3], 0x21);
    assert_eq!(
        parse_inm0_filter(&data[..27]).unwrap_err(),
        "InM0FilterData: truncated subslot entry"
    );
    assert_eq!(
        parse_inm0_filter(&data[..20]).unwrap_err(),
        "InM0FilterData: truncated module header"
    );
    assert_eq!(
        parse_inm0_filter(&data[..12]).unwrap_err(),
        "InM0FilterData: truncated API header"
    );
    assert_eq!(
        parse_inm0_filter(&data[..7]).unwrap_err(),
        "InM0FilterData: truncated API count"
    );
    assert_eq!(topology_slot_line(2, 0x20), "  Slot 2: Module 0x0020");
    assert_eq!(
        topology_subslot_line(3, 0x12345),
        "    Subslot 3: Submodule 0x12345"
    );
}

#[test]
fn topologies_are_read() {
    // Chassis id "ab", aligned to the block, then addresses.
    let mut iface = vec![2, b'a', b'b', 0, 0, 0];
    iface.extend_from_slice(&[1, 2, 3, 4, 5, 6, 0, 0]);
    iface.extend_from_slice(&[192, 168, 0, 2, 255, 255, 255, 0, 0, 0, 0, 0]);
    let i = parse_pd_interface_data_real(&iface, 0).unwrap();
    assert_eq!(i.chassis_id, "ab");
    assert_eq!(i.mac_str(), "01:02:03:04:05:06");
    assert_eq!(i.ip_str(), "192.168.0.2");
    assert_eq!(i.subnet_str(), "255.255.255.0");
    assert_eq!(i.gateway_str(), "0.0.0.0");
    assert_eq!(
        parse_pd_interface_data_real(&iface[..10], 0).unwrap_err(),
        "Truncated MAC address"
    );
    assert_eq!(
        parse_pd_interface_data_real(&[], 0).unwrap_err(),
        "Truncated chassis ID"
    );

    let port = [
        0, 1, 0x80, 1, 3, b'p', b'-', b'1', 1, 0, 0, 0, // port id, one peer
        2, b'q', b'1', 1, b'c', 0, 0, 0, 9, 8, 7, 6, 5, 4, 0, 0, // the peer
        0, 0x10, 0, 0, 0, 0, 0, 1, 0, 0, 0, 2, 1, 1, 0, 0, 0, 0, 0, 3,
    ];
    let p = parse_pd_port_data_real(&port, 0, 0, 0);
    assert_eq!((p.slot, p.subslot), (1, 0x8001));
    assert_eq!(p.port_id, "p-1");
    assert_eq!(p.peers.len(), 1);
    assert_eq!(p.peers[0].port_id, "q1");
    assert_eq!(p.peers[0].chassis_id, "c");
    assert_eq!(p.peers[0].mac_str(), "09:08:07:06:05:04");
    assert_eq!(p.mau_type, 0x10);
    assert_eq!((p.domain_boundary, p.multicast_boundary), (1, 2));
    assert_eq!(p.link_state(), "Up");
    assert_eq!(p.media_type, 3);
    let empty = parse_pd_port_data_real(&[], 0, 7, 8);
    assert_eq!((empty.slot, empty.subslot), (7, 8));

    // One multiple block with the interface in it.
    let mut nested = vec![0x02, 0x40, 0, 2 + iface.len() as u8, 1, 0];
    nested.extend_from_slice(&iface);
    let mut data = vec![0x04, 0x00, 0, 12 + nested.len() as u8, 1, 0];
    data.extend_from_slice(&[0, 0, 0, 0, 0, 0, 0, 1, 0, 2]);
    data.extend_from_slice(&nested);
    let real = parse_pd_real_data(&data);
    assert_eq!(real.clone(), real);
    assert_eq!(real.slots.len(), 1);
    assert_eq!(real.slots[0].blocks, ["PDInterfaceDataReal"]);
    assert_eq!(real.interface.unwrap().chassis_id, "ab");
    assert_eq!(real.raw_blocks.len(), 1);
}

#[test]
fn printouts_of_records_and_layouts() {
    assert_eq!(read_lines(&[0xAB, 0x01]), ["Read 2 bytes:", "ab01"]);
    assert_eq!(
        write_line(3, 1, 2, 0xAFF1),
        "Wrote 3 bytes to slot=1 subslot=2 index=0xAFF1"
    );
    let slot = |input_length, output_length| IoSlot {
        slot: 1,
        subslot: 2,
        module_ident: 0,
        submodule_ident: 0,
        input_length,
        output_length,
    };
    assert_eq!(io_slot_line(&slot(4, 2)).unwrap(), "  slot=1 sub=2: 4B in, 2B out");
    assert_eq!(io_slot_line(&slot(0, 2)).unwrap(), "  slot=1 sub=2: 2B out");
    assert_eq!(io_slot_line(&slot(0, 0)), None);
    assert_eq!(
        total_line(&[slot(4, 2), slot(1, 0)]),
        "Total: 5B input, 2B output"
    );
    assert_eq!(check_submodule("1:1:0x1"), Ok(()));
    assert_eq!(
        check_submodule("1:1"),
        Err("invalid --submodule format '1:1', expected slot:subslot:submodule_id".to_string())
    );
    assert_eq!(input_part(1, 2, Some(&[0xAA])), "1:2=aa");
    assert_eq!(input_part(1, 2, Some(&[])), "1:2=--");
    assert_eq!(input_part(1, 2, None), "1:2=--");
}
