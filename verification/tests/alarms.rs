//! Alarm notifications, their acknowledgment, and diagnosis records.

use profinet_rs::alarm_listener::{
    build_alarm_ack, build_layer2_ack_frame, build_nack_frame, build_transport_ack_frame,
    check_layer2_frame, process_layer2_alarm, AlarmEndpoint, AlarmListener, RtaAction, RtaHeader,
    RtaSequencer,
};
use profinet_rs::alarms::{
    parse_alarm_cr_res, parse_alarm_item, parse_alarm_notification, AlarmItem,
};
use profinet_rs::diagnosis::{
    parse_diagnosis_block, parse_diagnosis_simple, ChannelAccumulative, ChannelDirection,
    ChannelProperties, ChannelSpecifier, ChannelType, DiagnosisKind,
};

const ME: [u8; 6] = [2, 0, 0, 0, 0, 1];
const DEV: [u8; 6] = [2, 0, 0, 0, 0, 2];

fn endpoint() -> AlarmEndpoint {
    AlarmEndpoint {
        interface: "eth0".to_string(),
        controller_ref: 1,
        device_ref: 7,
        device_mac: DEV,
        ..AlarmEndpoint::default()
    }
}

/// A notification with one channel diagnosis item.
fn notification(specifier: u16) -> Vec<u8> {
    let mut d = vec![0x00, 0x02, 0, 0x20, 1, 0, 0, 1, 0, 0, 0, 0, 0, 2, 0x80, 0x01];
    d.extend_from_slice(&[0, 0, 0, 0x20, 0, 0, 0, 0x21]);
    d.extend_from_slice(&specifier.to_be_bytes());
    d.extend_from_slice(&[0, 0]);
    d.extend_from_slice(&[0x80, 0x00, 0x80, 0x03, 0x08, 0x01, 0x00, 0x06]);
    d
}

/// A data PDU from the device.
fn pdu(send: u16, ack: u16, kind: u8, flags: u8, body: &[u8]) -> Vec<u8> {
    let rta = RtaHeader {
        alarm_dst_endpoint: 1,
        alarm_src_endpoint: 7,
        pdu_type: RtaHeader::encode_pdu_type(1, kind),
        add_flags: flags,
        send_seq_num: send,
        ack_seq_num: ack,
        var_part_len: body.len() as u16,
    };
    let mut f = Vec::new();
    f.extend_from_slice(&ME);
    f.extend_from_slice(&DEV);
    f.extend_from_slice(&[0x81, 0x00, 0xA0, 0x00, 0x88, 0x92, 0xFE, 0x01]);
    f.extend_from_slice(&rta.to_bytes());
    f.extend_from_slice(body);
    f
}

#[test]
fn notifications_are_read_field_by_field() {
    let n = parse_alarm_notification(&notification(0x2805)).unwrap();
    assert!(n.is_low_priority() && !n.is_high_priority());
    assert_eq!(n.alarm_type_name(), "Diagnosis");
    assert_eq!(n.location(), "0:2:0x8001");
    assert_eq!(n.alarm_sequence_number, 5);
    assert!(n.channel_diagnosis && n.submodule_diagnosis_state);
    assert!(!n.manufacturer_specific && !n.ar_diagnosis_state);
    assert_eq!(n.items.len(), 1);
    assert_eq!(n.items[0].usi_name(), "ChannelDiagnosis");
    match &n.items[0] {
        AlarmItem::Diagnosis(d) => {
            assert_eq!(d.channel_number_value(), 3);
            assert!(d.is_accumulative());
            assert_eq!(d.channel_type(), 1);
            assert_eq!(d.channel_error_type, 6);
            assert!(!d.is_extended() && !d.is_qualified());
        }
        other => panic!("{other:?}"),
    }
    assert_eq!(
        parse_alarm_notification(&[0; 27]).unwrap_err(),
        "AlarmNotification too short"
    );
}

#[test]
fn items_are_told_apart() {
    let maintenance = [0x81, 0x00, 0x0F, 0, 0, 8, 1, 0, 0, 0, 0, 0, 0, 3];
    match parse_alarm_item(&maintenance, 0).unwrap() {
        (AlarmItem::Maintenance(m), 14) => {
            assert!(m.maintenance_required() && m.maintenance_demanded());
        }
        other => panic!("{other:?}"),
    }
    let upload = [0x82, 0x00, 0, 1, 0, 2, 1, 0, 0, 0, 0, 0, 0, 5, 0, 0, 0, 6];
    match parse_alarm_item(&upload, 0).unwrap() {
        (AlarmItem::UploadRetrieval(u), 18) => {
            assert!(u.is_upload() && !u.is_retrieval());
            assert_eq!((u.ur_record_index, u.ur_record_length), (5, 6));
        }
        other => panic!("{other:?}"),
    }
    match parse_alarm_item(&[0x83, 0x10, 0, 1, 0, 2, 1, 0, 0xF0], 0).unwrap() {
        (AlarmItem::Pe(p), 9) => assert_eq!(p.mode_name(), "PE_Operate"),
        other => panic!("{other:?}"),
    }
    match parse_alarm_item(&[0x83, 0x01, 0xF8, 0x07], 0).unwrap() {
        (AlarmItem::Rs(r), 4) => {
            assert_eq!(r.rs_specifier(), 7);
            assert_eq!(r.rs_sequence_number(), 7);
        }
        other => panic!("{other:?}"),
    }
    match parse_alarm_item(&[0x83, 0x20, 0, 1, 0, 2, 0, 3, 0, 4, 9, 9], 0).unwrap() {
        (AlarmItem::Pral(p), 12) => assert_eq!(p.pral_reason_add_value, [9, 9]),
        other => panic!("{other:?}"),
    }
    match parse_alarm_item(&[0x12, 0x34, 1, 2], 0).unwrap() {
        (AlarmItem::Generic { user_structure_id: 0x1234, raw_data }, 4) => {
            assert_eq!(raw_data, [1, 2]);
        }
        other => panic!("{other:?}"),
    }
    let ext = [0x80, 0x02, 0, 1, 0, 0, 0, 6, 0x80, 0x00, 0, 0, 0];
    assert_eq!(parse_alarm_item(&ext, 0).unwrap_err(), "Truncated ExtChannelDiagnosis");
    assert_eq!(parse_alarm_item(&[0], 0).unwrap_err(), "Insufficient data for USI");
    assert_eq!(
        parse_alarm_cr_res(&[0x81, 0x03, 0, 8, 1, 0, 0, 1, 0x12, 0x34, 0, 200]),
        Some(0x1234)
    );
    assert_eq!(parse_alarm_cr_res(&[0x81, 0x03, 0, 8, 1, 0]), None);
}

#[test]
fn acknowledgments_repeat_the_specifier() {
    for specifier in [0x0000, 0x07FF, 0x2805, 0x3FFF] {
        let n = parse_alarm_notification(&notification(specifier)).unwrap();
        let ack = build_alarm_ack(&n);
        assert_eq!(ack.len(), 22);
        assert_eq!(&ack[..8], &[0x80, 0x02, 0, 18, 1, 0, 0, 1]);
        assert_eq!(&ack[16..18], &specifier.to_be_bytes());
        assert_eq!(&ack[18..], &[0; 4]);
    }
}

#[test]
fn frames_carry_priority_and_sequence() {
    let ack = build_layer2_ack_frame(&endpoint(), &ME, 0xFFFF, 0xFFFE, &[1, 2], true);
    assert_eq!(&ack[12..20], &[0x81, 0x00, 0xC0, 0x00, 0x88, 0x92, 0xFC, 0x01]);
    assert_eq!(
        &ack[20..],
        &[0, 7, 0, 1, 0x11, 0x11, 0xFF, 0xFF, 0xFF, 0xFE, 0, 2, 1, 2]
    );
    let tack = build_transport_ack_frame(&endpoint(), &ME, 1, 2, false);
    assert_eq!(&tack[16..26], &[0x88, 0x92, 0xFE, 0x01, 0, 7, 0, 1, 0x13, 0x01]);
    let nack = build_nack_frame(&endpoint(), &ME, 1, 2, false);
    assert_eq!(nack[24], 0x12);
    let frame = pdu(1, 2, 1, 0x11, &[]);
    let (high, payload) = check_layer2_frame(&frame, &DEV).unwrap();
    assert!(!high);
    let header = RtaHeader::from_bytes(payload).unwrap();
    assert_eq!((header.kind(), header.version()), (1, 1));
    assert_eq!(header.to_bytes(), payload[..12]);
    assert_eq!(check_layer2_frame(&pdu(1, 2, 1, 0x11, &[]), &ME), None);
    assert_eq!(RtaHeader::from_bytes(&[0; 11]).unwrap_err(), "RTA header too short");
    let data = pdu(1, 2, 1, 0x11, &notification(1));
    let (_, payload) = check_layer2_frame(&data, &DEV).unwrap();
    assert!(process_layer2_alarm(payload, 1).unwrap().is_some());
    assert!(process_layer2_alarm(payload, 2).unwrap().is_none());
    assert!(process_layer2_alarm(&[0; 5], 1).is_err());
}

#[test]
fn sequence_numbers_decide() {
    let mut s = RtaSequencer::new();
    let header = |send: u16, ack: u16, kind: u8, flags: u8| RtaHeader {
        alarm_dst_endpoint: 1,
        alarm_src_endpoint: 7,
        pdu_type: RtaHeader::encode_pdu_type(1, kind),
        add_flags: flags,
        send_seq_num: send,
        ack_seq_num: ack,
        var_part_len: 0,
    };
    assert_eq!(s.on_pdu(&header(0x0005, 0, 1, 0x11)), RtaAction::SendNack);
    assert_eq!(s.on_pdu(&header(0xFFFF, 0, 1, 0x01)), RtaAction::Ignore);
    assert_eq!(s.on_pdu(&header(0xFFFF, 0xFFFE, 1, 0x11)), RtaAction::Accept);
    assert_eq!(s.ack_seq_pair(), (0xFFFE, 0xFFFF));
    assert_eq!(s.on_pdu(&header(0xFFFF, 0xFFFE, 1, 0x11)), RtaAction::ReAck);
    assert_eq!(s.on_pdu(&header(0, 0xFFFF, 3, 0x01)), RtaAction::OurDataAcked);
    assert_eq!(s.send_seq_num(), 0);
    assert_eq!(s.on_pdu(&header(0, 0xFFFF, 3, 0x01)), RtaAction::Ignore);
    assert_eq!(s.on_pdu(&header(0x0000, 0, 1, 0x11)), RtaAction::Accept);
    assert_eq!(s.data_seq_pair(), (1, 0));
    assert_eq!(s.on_pdu(&header(0, 0, 2, 0)), RtaAction::DeviceNack);
    assert_eq!(s.on_pdu(&header(0, 0, 4, 0)), RtaAction::DeviceError);
    let mut other = header(1, 0, 1, 0x11);
    other.pdu_type = RtaHeader::encode_pdu_type(2, 1);
    assert_eq!(s.on_pdu(&other), RtaAction::Ignore);
}

#[test]
fn an_alarm_is_delivered_once_and_acknowledged() {
    let mut l = AlarmListener::new(endpoint(), Some(ME));
    l.start().unwrap();
    assert!(l.is_running());
    let (frames, wait) = l.poll(0);
    assert!(frames.is_empty());
    assert_eq!(wait, 1_000_000);
    let step = l.on_frame(&pdu(0xFFFF, 0xFFFE, 1, 0x11, &notification(3)), 10);
    assert_eq!(step.alarm.unwrap().alarm_sequence_number, 3);
    assert_eq!(step.send.len(), 2);
    assert_eq!(step.send[0][24], 0x13, "transport acknowledgment first");
    assert_eq!(step.send[1][24], 0x11, "then the alarm acknowledgment");
    // The same PDU again is only acknowledged.
    let step = l.on_frame(&pdu(0xFFFF, 0xFFFE, 1, 0x11, &notification(3)), 20);
    assert!(step.alarm.is_none());
    assert_eq!(step.send.len(), 1);
    // Without an acknowledgment of ours, it is sent again after 100 ms.
    assert!(l.poll(100_009).0.is_empty());
    assert_eq!(l.poll(100_010).0.len(), 1);
    // The acknowledgment ends that.
    assert!(l.on_frame(&pdu(0, 0xFFFF, 3, 0x01, &[]), 100_020).send.is_empty());
    assert!(l.poll(900_000).0.is_empty());
    // A wrong number is refused.
    let step = l.on_frame(&pdu(9, 0, 1, 0x11, &notification(4)), 100_030);
    assert!(step.alarm.is_none());
    assert_eq!(step.send[0][24], 0x12);
    l.stop();
    assert!(!l.is_running());
}

#[test]
fn callbacks_have_ids() {
    let mut l = AlarmListener::new(endpoint(), None);
    assert_eq!(l.controller_mac, [0; 6]);
    let a = l.add_callback();
    let b = l.add_callback();
    assert_ne!(a, b);
    assert_eq!(l.callback_count(), 2);
    l.remove_callback(a);
    l.remove_callback(99);
    assert_eq!(l.callbacks, [b]);
    assert_ne!(l.add_callback(), a);
    let mut udp = AlarmListener::new(AlarmEndpoint { transport: 1, ..endpoint() }, None);
    assert_eq!(
        udp.start().unwrap_err(),
        "only Layer-2 (transport 0) alarm reception is supported"
    );
}

#[test]
fn channel_properties_are_taken_apart() {
    let p = ChannelProperties::from_u16(0b0001_0001_0110_0101);
    assert_eq!(p.channel_type, ChannelType::Specific);
    assert_eq!(p.accumulative, ChannelAccumulative::MainFault);
    assert!(p.maintenance_required && p.maintenance_demanded);
    assert_eq!(p.specifier, ChannelSpecifier::Appears);
    assert_eq!(p.direction, ChannelDirection::Output);
    assert_eq!(ChannelProperties::default(), ChannelProperties::from_u16(0));
}

#[test]
fn diagnosis_records_are_read() {
    let block = b"\x00\x10\x00\x08\x01\x00\x00\x01\x00\x00\x80\x00\x00\x01";
    let d = parse_diagnosis_block(block, 5, 6, 7);
    assert_eq!(d.entries.len(), 1);
    assert_eq!(d.entries[0].kind, DiagnosisKind::Channel);
    assert_eq!(d.entries[0].error_type_name, "Short circuit");
    // A place in front of the entry replaces the one that was asked for.
    let mut ext = vec![0x80, 0x10, 0, 0, 1, 0, 0, 0, 0, 0, 0, 2, 0x80, 1];
    ext.extend_from_slice(&[0x80, 0x00, 0x08, 0x20, 0x80, 0x02]);
    ext.extend_from_slice(&[0x80, 0x00, 0x80, 0x01, 0, 0, 0, 9]);
    let d = parse_diagnosis_block(&ext, 5, 6, 7);
    assert_eq!(d.entries.len(), 1);
    let e = &d.entries[0];
    assert_eq!((e.api, e.slot, e.subslot), (0, 2, 0x8001));
    assert_eq!(e.kind, DiagnosisKind::Ext);
    assert_eq!(e.ext_error_type_name, "MAUType mismatch");
    assert_eq!(e.ext_add_value, 9);
    assert!(e.is_submodule_level());
    assert!(d.has_errors() && d.has_maintenance_required() && !d.has_maintenance_demanded());
    assert_eq!(d.get_by_channel(0x8000).len(), 1);
    assert_eq!(d.get_by_channel(1).len(), 0);
    let flat = [0; 6]
        .iter()
        .copied()
        .chain([0, 1, 0, 0, 0, 6, 0, 0, 0, 0, 0, 0, 0, 2, 0, 0, 0, 7])
        .collect::<Vec<u8>>();
    let d = parse_diagnosis_simple(&flat, 0, 1, 2);
    assert_eq!(d.entries.len(), 1, "an all-zero entry ends the list");
    assert_eq!(d.entries[0].error_type_name, "Line break");
    assert!(parse_diagnosis_block(&[0; 5], 0, 0, 0).entries.is_empty());
}
