//! Requests, blocks and real-time frames, byte for byte.

use profinet_rs::blocks::{
    block_header, iod_read_request, iod_write_multiple_payload, iod_write_request,
    parse_write_multiple_response,
};
use profinet_rs::connect::{
    alarm_cr_block, ar_block_req, build_connect_request, build_device_access_connect_request,
    expected_submodule_block, iocr_block_req, IocrSetup,
};
use profinet_rs::gsdml::IoSlot;
use profinet_rs::rpc::{
    nrd, object_uuid, read_record_implicit_request, read_record_request, rpc_request,
    write_multiple_request, write_record_request, IFACE_UUID_DEVICE,
};
use profinet_rs::rt::{
    build_ethernet_frame, build_iocr_configs, is_rt_class_1_frame_id, parse_ethernet_frame,
    CyclicDataBuilder, IocrConfig, RtFrame,
};

const AR: [u8; 16] = [0xA5; 16];
const ACT: [u8; 16] = [0x5A; 16];

fn slots() -> Vec<IoSlot> {
    vec![
        IoSlot {
            slot: 1,
            subslot: 1,
            module_ident: 0x10,
            submodule_ident: 0x11,
            input_length: 2,
            output_length: 0,
        },
        IoSlot {
            slot: 1,
            subslot: 2,
            module_ident: 0x10,
            submodule_ident: 0x12,
            input_length: 0,
            output_length: 3,
        },
        IoSlot {
            slot: 2,
            subslot: 1,
            module_ident: 0x20,
            submodule_ident: 0x21,
            input_length: 4,
            output_length: 5,
        },
        IoSlot {
            slot: 3,
            subslot: 1,
            module_ident: 0x30,
            submodule_ident: 0x31,
            input_length: 0,
            output_length: 0,
        },
    ]
}

fn setup() -> IocrSetup {
    IocrSetup {
        io_slots: slots(),
        send_clock_factor: 32,
        reduction_ratio: 16,
        watchdog_factor: 6,
        data_hold_factor: 7,
    }
}

#[test]
fn records_have_a_header_of_64_bytes() {
    assert_eq!(block_header(0x0102, 0x0304, 1, 2), [1, 2, 3, 4, 1, 2]);
    let read = iod_read_request(&AR, 1, 2, 3, 0xAFF0, 4096);
    assert_eq!(read.len(), 64);
    assert_eq!(&read[..8], &[0x00, 0x09, 0x00, 0x3C, 0x01, 0x00, 0x00, 0x00]);
    assert_eq!(&read[8..24], &AR);
    assert_eq!(
        &read[24..40],
        &[0, 0, 0, 1, 0, 2, 0, 3, 0, 0, 0xAF, 0xF0, 0, 0, 0x10, 0]
    );
    assert_eq!(&read[40..], &[0; 24]);
    let write = iod_write_request(&AR, 0, 2, 3, 0xAFF1, &[9, 8, 7]);
    assert_eq!(&write[..2], &[0x00, 0x08]);
    assert_eq!(&write[36..40], &[0, 0, 0, 3]);
    assert_eq!(&write[64..], &[9, 8, 7]);
}

#[test]
fn multiple_writes_are_padded_but_for_the_last() {
    let payload = iod_write_multiple_payload(&AR, 7, &[(0, 1, 2, 3, &[1]), (0, 4, 5, 6, &[2])]);
    // Header, 64 + 1 bytes with 3 of padding, then 64 + 1 without.
    assert_eq!(payload.len(), 64 + 68 + 65);
    assert_eq!(&payload[6..8], &[0, 7]);
    assert_eq!(&payload[24..36], &[0xFF, 0xFF, 0xFF, 0xFF, 0xFF, 0xFF, 0xFF, 0xFF, 0, 0, 0xE0, 0x40]);
    assert_eq!(&payload[36..40], &[0, 0, 0, 133]);
    assert_eq!(&payload[64 + 68 + 6..64 + 68 + 8], &[0, 1]);
    assert_eq!(parse_write_multiple_response(&[0; 63]), vec![]);
}

#[test]
fn write_results_are_read_entry_by_entry() {
    let mut entry = vec![0u8; 56];
    entry[0..4].copy_from_slice(&[0x80, 0x08, 0, 52]);
    entry[6..8].copy_from_slice(&[0, 3]);
    entry[28..32].copy_from_slice(&[0, 1, 0, 2]);
    entry[34..36].copy_from_slice(&[0xAF, 0xF1]);
    entry[40..48].copy_from_slice(&[0, 5, 0, 6, 0xDE, 0x80, 0xB0, 0x00]);
    let mut data = vec![0u8; 64];
    data[36..40].copy_from_slice(&[0, 0, 0, 112]);
    data.extend_from_slice(&entry);
    data.extend_from_slice(&entry);
    let results = parse_write_multiple_response(&data);
    assert_eq!(results.len(), 2);
    assert_eq!(results[0].seq_num, 3);
    assert_eq!(results[0].slot, 1);
    assert_eq!(results[0].subslot, 2);
    assert_eq!(results[0].index, 0xAFF1);
    assert_eq!(results[0].additional_value1, 5);
    assert_eq!(results[0].additional_value2, 6);
    assert_eq!(results[0].status, 0xDE80_B000);
    assert!(!results[0].success());
    // The announced length ends the walk.
    data[36..40].copy_from_slice(&[0, 0, 0, 111]);
    assert_eq!(parse_write_multiple_response(&data).len(), 1);
}

#[test]
fn requests_have_a_header_of_80_bytes() {
    let object = object_uuid(0x00, 0x07, 0x0A, 0xBC);
    assert_eq!(&object[10..], &[0x00, 0x01, 0x00, 0x07, 0x0A, 0xBC]);
    let body = nrd(&[1, 2]);
    assert_eq!(
        body,
        [0, 0, 0x05, 0xDC, 0, 0, 0, 2, 0, 0, 0x05, 0xDC, 0, 0, 0, 0, 0, 0, 0, 2, 1, 2]
    );
    let req = rpc_request(&object, &IFACE_UUID_DEVICE, &ACT, 9, 4, &body);
    assert_eq!(&req[..8], &[0x04, 0x00, 0x20, 0x00, 0x00, 0x00, 0x00, 0x00]);
    assert_eq!(&req[8..24], &object);
    assert_eq!(&req[24..40], &IFACE_UUID_DEVICE);
    assert_eq!(&req[40..56], &ACT);
    assert_eq!(
        &req[56..80],
        &[0, 0, 0, 0, 0, 0, 0, 1, 0, 0, 0, 9, 0, 4, 0xFF, 0xFF, 0xFF, 0xFF, 0, 22, 0, 0, 0, 0]
    );
    assert_eq!(&req[80..], &body[..]);
    let read = read_record_request(&object, &IFACE_UUID_DEVICE, &ACT, &AR, 1, 0, 1, 2, 3, 4);
    assert_eq!(&read[68..70], &[0, 2]);
    assert_eq!(&read[100..], &iod_read_request(&AR, 0, 1, 2, 3, 4)[..]);
    let implicit =
        read_record_implicit_request(&object, &IFACE_UUID_DEVICE, &ACT, 1, 0, 1, 2, 3, 4);
    assert_eq!(&implicit[68..70], &[0, 5]);
    assert_eq!(&implicit[108..124], &[0; 16]);
    let write = write_record_request(&object, &IFACE_UUID_DEVICE, &ACT, &AR, 1, 0, 1, 2, 3, &[4]);
    assert_eq!(&write[68..70], &[0, 3]);
    let multi =
        write_multiple_request(&object, &IFACE_UUID_DEVICE, &ACT, &AR, 1, &[(0, 1, 2, 3, &[4])]);
    assert_eq!(multi.len(), 80 + 20 + 64 + 64 + 65);
}

#[test]
fn connect_blocks_have_their_layout() {
    let ar = ar_block_req(6, &AR, 0x1234, &[1, 2, 3, 4, 5, 6], 0x111, b"tp");
    assert_eq!(ar.len(), 60);
    assert_eq!(&ar[..8], &[0x01, 0x01, 0, 56, 1, 0, 0, 6]);
    assert_eq!(&ar[48..], &[0, 0, 1, 0x11, 0, 100, 0x88, 0x92, 0, 2, b't', b'p']);

    let alarm = alarm_cr_block(1, 0, 0);
    assert_eq!(
        alarm,
        [
            0x01, 0x03, 0, 22, 1, 0, 0, 1, 0x88, 0x92, 0, 0, 0, 0, 0, 1, 0, 3, 0, 1, 0, 200, 0xC0,
            0, 0xA0, 0
        ]
    );
    assert_eq!(&alarm_cr_block(1, 1, 1)[8..14], &[0x08, 0x00, 0, 0, 0, 3]);

    let input = iocr_block_req(1, 1, &setup());
    // Two data objects at 0 and 3, then a status entry for each other one.
    assert_eq!(&input[..12], &[0x01, 0x02, 0, 74, 1, 0, 0, 1, 0, 1, 0x88, 0x92]);
    assert_eq!(&input[16..20], &[0, 40, 0xC0, 0x01]);
    assert_eq!(
        &input[50..],
        &[
            0, 2, 0, 1, 0, 1, 0, 0, 0, 2, 0, 1, 0, 3, 0, 2, 0, 1, 0, 2, 0, 8, 0, 3, 0, 1, 0, 9
        ]
    );
    let output = iocr_block_req(2, 2, &setup());
    assert_eq!(&output[18..20], &[0xFF, 0xFF]);

    let expected = expected_submodule_block(&setup());
    assert_eq!(&expected[..8], &[0x01, 0x04, 0, 108, 1, 0, 0, 3]);
    // Slot 1 has two submodules, one of them with inputs alone.
    assert_eq!(
        &expected[8..36],
        &[
            0, 0, 0, 0, 0, 1, 0, 0, 0, 0x10, 0, 0, 0, 2, 0, 1, 0, 0, 0, 0x11, 0, 1, 0, 1, 0, 2, 1,
            1
        ]
    );

    let whole = build_connect_request(
        &[0; 16],
        &IFACE_UUID_DEVICE,
        &ACT,
        &AR,
        1,
        &[0; 6],
        b"tp",
        &setup(),
        0,
    );
    let blocks = 60 + input.len() + output.len() + 26 + expected.len();
    assert_eq!(whole.len(), 100 + blocks);
    assert_eq!(&whole[160..160 + input.len()], &input[..]);
    let access = build_device_access_connect_request(
        &[0; 16],
        &IFACE_UUID_DEVICE,
        &ACT,
        &AR,
        1,
        &[0; 6],
        b"tp",
        0,
    );
    assert_eq!(access.len(), 160);
    assert_eq!(&access[106..108], &[0, 6]);
}

#[test]
fn layouts_match_what_the_request_announces() {
    let (input, output) = build_iocr_configs(&slots(), 0xC001, 0x8001, 32, 16, 6);
    assert!(input.is_input() && !input.is_output());
    assert!(output.is_output() && !output.is_input());
    let offsets: Vec<usize> = input.objects.iter().map(|o| o.frame_offset).collect();
    assert_eq!(offsets, [0, 3]);
    assert_eq!(input.objects[1].iops_offset, 7);
    assert_eq!(input.data_length, 40);
    // Outputs at 0 and 4, then the consumer status of the others.
    let places: Vec<(usize, usize, Option<usize>)> = output
        .objects
        .iter()
        .map(|o| (o.frame_offset, o.data_length, o.iocs_offset))
        .collect();
    assert_eq!(places, [(0, 3, None), (4, 5, None), (10, 0, Some(10)), (11, 0, Some(11))]);
    assert_eq!(input.cycle_time_us(), 16_000);
    assert_eq!(input.watchdog_time_us(), 96_000);
}

#[test]
fn real_time_frames_read_back() {
    let f = RtFrame {
        frame_id: 0x8001,
        cycle_counter: 0x1234,
        data_status: 0x35,
        transfer_status: 0,
        payload: vec![1, 2, 3],
    };
    assert_eq!(f.to_bytes(), [0x80, 0x01, 1, 2, 3, 0x12, 0x34, 0x35, 0x00]);
    assert!(f.is_valid() && f.is_running() && f.is_ok() && f.is_primary());
    let built = build_ethernet_frame(&[1; 6], &[2; 6], &f);
    assert_eq!(&built[12..18], &[0x81, 0x00, 0xC0, 0x00, 0x88, 0x92]);
    assert_eq!(parse_ethernet_frame(&built), Some(f));
    assert_eq!(parse_ethernet_frame(&built[..17]), None);
    assert_eq!(
        RtFrame::from_bytes(&[0; 5]),
        Err("RT frame too short: 5 bytes".to_string())
    );
    for (id, ok) in [(0x0000, false), (0x7FFF, false), (0x8000, true), (0xFBFF, true), (0xFC00, false), (0xFFFF, false)] {
        assert_eq!(is_rt_class_1_frame_id(id), ok);
    }
}

#[test]
fn images_are_written_and_taken_over() {
    let (_, output) = build_iocr_configs(&slots(), 0xC001, 0x8001, 32, 16, 6);
    let mut b = CyclicDataBuilder::new(output);
    assert!(!b.is_dirty());
    b.set_data(1, 2, &[1, 2, 3, 4]).unwrap();
    assert_eq!(b.get_data(1, 2), Ok(vec![1, 2, 3]));
    assert_eq!(
        b.set_data(9, 9, &[1]),
        Err("Unknown slot/subslot: 9/9".to_string())
    );
    assert_eq!(b.build()[0], 0);
    assert!(b.is_dirty());
    b.swap();
    assert!(!b.is_dirty());
    assert_eq!(&b.build()[..3], &[1, 2, 3]);
    b.set_iops(1, 2, 0x80);
    b.set_iops(3, 1, 0x80);
    b.set_iocs(3, 1, 0x80);
    b.swap();
    assert_eq!(b.build()[3], 0x80);
    assert_eq!(b.build()[11], 0x80);
    b.set_all_iocs(0x80);
    assert!(b.is_dirty());
    b.swap();
    b.set_all_iocs(0x80);
    assert!(!b.is_dirty(), "nothing changed");
    b.set_all_iops(0x00);
    b.swap();
    assert_eq!(b.build()[3], 0x00);
    b.load(&[7; 100]);
    b.swap();
    assert_eq!(b.build(), [7; 40]);
    b.clear();
    b.swap();
    assert_eq!(b.build(), [0; 40]);
    let c = IocrConfig::new(2, 2, 0x8001);
    assert_eq!(c.cycle_time_us(), 32_000);
    assert_eq!(c.watchdog_time_us(), 96_000);
}

#[test]
fn the_connect_request_announces_the_configs() {
    let setup = setup();
    let (input, output) = build_iocr_configs(&setup.io_slots, 0xC001, 0x8001, 32, 16, 6);
    for (iocr_type, cfg) in [(1, input), (2, output)] {
        let b = iocr_block_req(iocr_type, 5, &setup);
        let word = |at: usize| usize::from(u16::from_be_bytes([b[at], b[at + 1]]));
        assert_eq!(b.len(), 54 + 6 * setup.io_slots.len());
        assert_eq!(word(2), b.len() - 4);
        assert_eq!(word(16), cfg.data_length);
        assert_eq!(word(18), if iocr_type == 1 { 0xC005 } else { 0xFFFF });
        let data: Vec<_> = cfg.objects.iter().filter(|o| o.data_length > 0).collect();
        assert_eq!(word(50), data.len());
        for (i, o) in data.iter().enumerate() {
            let at = 52 + 6 * i;
            assert_eq!(
                (word(at), word(at + 2), word(at + 4)),
                (o.slot.into(), o.subslot.into(), o.frame_offset)
            );
        }
        assert_eq!(word(52 + 6 * data.len()), setup.io_slots.len() - data.len());
    }
}
