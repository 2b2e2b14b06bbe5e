//! Devices: how they are found, connected, read and written; the endpoint
//! mapper; and the takeover as IO controller.

use profinet_rs::connection::RpcConn;
use profinet_rs::cyclic::CyclicState;
use profinet_rs::dcp::DcpDevice;
use profinet_rs::device::{
    alarm_from_record, find_by_identifier, find_by_ip, find_by_name, im1_record, im2_record,
    im3_record, parse_mac_flexible, AllIm, DeviceInfo, ProfinetDevice, WriteItem,
};
use profinet_rs::epm::{
    epm_lookup, epm_lookup_from, parse_epm_response, parse_epm_tower, string_to_uuid_bytes,
    uuid_bytes_to_string, EpmEndpoint, UUID_EPM_V4, UUID_PNIO_DEVICE,
};
use profinet_rs::gsdml::IoSlot;
use profinet_rs::im::parse_im0;
use profinet_rs::pcap::{InterfaceAddress, InterfaceDevice};
use profinet_rs::replay::{DialRecord, ReplayDialer, ReplayTransport};
use profinet_rs::takeover::{Takeover, TakeoverFailure, TakeoverReport, TakeoverStep};
use profinet_rs::tier::{
    check_established, check_input_image, guarded_controller, input_submodule, layout_fits,
    output_submodule, ownership_probe, takeover_refusal, tier_controller, tier_setup,
};
use profinet_rs::transport::ConnectResult;

fn demo() -> DcpDevice {
    DcpDevice {
        mac: [2, 0, 0, 0, 0, 2],
        name: "demo".to_string(),
        ip: [192, 168, 0, 2],
        device_id: 7,
        vendor_id: 0x0ABC,
        role: 1,
        ..DcpDevice::default()
    }
}

type Device = ProfinetDevice<ReplayTransport, ReplayDialer>;

fn offline() -> Device {
    ProfinetDevice::new(
        demo(),
        "eth0",
        [2, 0, 0, 0, 0, 1],
        [192, 168, 0, 1],
        50,
        ReplayDialer::new(),
    )
}

/// A response with the given NRD status and body, for a request of the
/// connection with activity UUID 0x11..11 and the given sequence number.
fn response(seq: u32, status: u32, body: &[u8]) -> Vec<u8> {
    let mut d = vec![0x04, 0x02, 0, 0, 0, 0, 0, 0];
    d.extend_from_slice(&[0; 32]);
    d.extend_from_slice(&[0x11; 16]);
    d.extend_from_slice(&[0, 0, 0, 0, 0, 0, 0, 1]);
    d.extend_from_slice(&seq.to_be_bytes());
    d.extend_from_slice(&[0; 12]);
    d.extend_from_slice(&status.to_be_bytes());
    let len = (body.len() as u32).to_be_bytes();
    d.extend_from_slice(&len);
    d.extend_from_slice(&len);
    d.extend_from_slice(&[0; 4]);
    d.extend_from_slice(&len);
    d.extend_from_slice(body);
    d
}

fn record(payload: &[u8]) -> Vec<u8> {
    let mut d = vec![0u8; 64];
    d.extend_from_slice(payload);
    d
}

/// A connection on which the given bodies come in, one per request.
fn conn(bodies: &[(u32, Vec<u8>)]) -> RpcConn<ReplayTransport> {
    let mut t = ReplayTransport::new("device");
    for (i, (status, body)) in bodies.iter().enumerate() {
        t.push_response(Ok(Some(response(i as u32, *status, body))));
    }
    let mut rnd = vec![0x00, 0x00];
    rnd.extend_from_slice(&[0x11; 16]);
    rnd.extend_from_slice(&[0x22; 16]);
    RpcConn::from_random(t, 7, 0x0ABC, 50, &rnd)
}

#[test]
fn random_bytes_make_an_identity() {
    let c = conn(&[]);
    assert_eq!(c.session_key, 1, "never zero");
    assert_eq!(c.activity_uuid, [0x11; 16]);
    assert_eq!(c.ar_uuid, [0x22; 16]);
    assert_eq!(&c.object_uuid[12..], &[0x00, 0x07, 0x0A, 0xBC]);
}

#[test]
fn devices_are_found_by_name_mac_and_ip() {
    let devices = [DcpDevice::default(), demo()];
    assert_eq!(find_by_name(&devices, "demo"), Some(demo()));
    assert_eq!(find_by_identifier(&devices, " 02-00-00-00-00-02 "), Some(demo()));
    assert_eq!(find_by_identifier(&devices, "demo"), Some(demo()));
    assert_eq!(find_by_identifier(&devices, "02:00:00:00:00:03"), None);
    assert_eq!(find_by_ip(&devices, "192.168.0.2"), Some(demo()));
    assert_eq!(find_by_ip(&devices, "192.168.0.3"), None);
    assert_eq!(parse_mac_flexible("AA.bb-CC:dd:EE:0f"), Some([0xAA, 0xBB, 0xCC, 0xDD, 0xEE, 0x0F]));
    assert_eq!(parse_mac_flexible("demo"), None);
}

#[test]
fn devices_are_made_from_what_was_found() {
    let adapters = [InterfaceDevice {
        name: "eth0".to_string(),
        addresses: vec![InterfaceAddress::V4 { ip: [10, 0, 0, 1], netmask: None }],
    }];
    let answers = [Ok(Some([9; 6]))];
    let none = || ReplayDialer::new();
    let d: Device =
        ProfinetDevice::discover(&[demo()], "demo", "eth0", &answers, &adapters, 50, none()).unwrap();
    assert_eq!(d.src_mac, [9; 6]);
    assert_eq!(d.src_ip, [10, 0, 0, 1]);
    let e = Device::from_name(&[], "demo", "eth0", &answers, &adapters, 50, none()).err().unwrap();
    assert_eq!(e, "Device \"demo\" not found");
    let e = Device::from_ip(&[], "1.2.3.4", "eth0", &answers, &adapters, 50, none()).err().unwrap();
    assert_eq!(e, "No device found at IP 1.2.3.4");
    let e = Device::from_dcp_info(demo(), "eth0", &[], &adapters, 50, none()).err().unwrap();
    assert_eq!(e, "no MAC address found for interface \"eth0\"");
    let all: Vec<Device> =
        ProfinetDevice::scan(&[demo(), demo()], "eth0", &answers, &adapters, 50, vec![none(), none()])
            .unwrap();
    assert_eq!(all.len(), 2);
}

#[test]
fn a_device_connects_on_first_use_and_stays_connected() {
    let mut d = offline();
    assert!(!d.is_connected());
    assert_eq!(d.to_text(), "ProfinetDevice(\"demo\", 192.168.0.2, disconnected)");
    assert_eq!(d.read_record(0, 1, 0xAFF0).unwrap_err(), "no transport");
    assert_eq!(d.read_alarm(0, 0, 0x800C), None);
    let c = conn(&[(0, vec![]), (0, record(&[1, 2, 3])), (0xDE80_B000, vec![])]);
    d.connect_over(c).unwrap();
    assert!(d.is_connected());
    d.connect().unwrap();
    assert_eq!(d.read_record(0, 1, 0xAFF0), Ok(vec![1, 2, 3]));
    assert!(d.write_record(0, 1, 0xAFF1, &[1]).unwrap_err().contains("DE80B000"));
    assert_eq!(d.name(), "demo");
    assert_eq!(d.ip(), "192.168.0.2");
    assert_eq!(d.mac(), "02:00:00:00:00:02");
    assert_eq!(d.dcp_info().device_id, 7);
    let closed = d.disconnect().unwrap();
    assert!(!closed.connected);
    assert_eq!(closed.transport.sent.len(), 4);
    assert!(d.close().is_none());
    let mut d = offline();
    let e = d.connect_over(conn(&[(0xDB81_4001, vec![])])).unwrap_err();
    assert!(e.starts_with("Failed to connect to demo: "));
    assert!(!d.is_connected());
}

/// What a dialer is asked for on behalf of the demo device.
fn dial(lookup_ms: Option<u64>) -> DialRecord {
    DialRecord {
        interface: "eth0".to_string(),
        src_mac: [2, 0, 0, 0, 0, 1],
        src_ip: [192, 168, 0, 1],
        dst_mac: [2, 0, 0, 0, 0, 2],
        dst_ip: [192, 168, 0, 2],
        lookup_ms,
    }
}

fn identity() -> Vec<u8> {
    let mut rnd = vec![0x00, 0x00];
    rnd.extend_from_slice(&[0x11; 16]);
    rnd.extend_from_slice(&[0x22; 16]);
    rnd
}

#[test]
fn a_device_is_dialed_at_its_addresses() {
    let mut d = offline();
    let mut t = ReplayTransport::new("device");
    t.push_response(Ok(Some(response(0, 0, &[]))));
    t.push_response(Ok(Some(response(1, 0, &record(&[7])))));
    d.dialer.push_transport(Err("down".to_string()));
    d.dialer.push_transport(Ok(ReplayTransport::new("device")));
    d.dialer.push_transport(Ok(t));
    // The dialer fails.
    assert_eq!(d.connect_with(Ok(identity())), Err("down".to_string()));
    assert_eq!(d.dialer.asked, [dial(None)]);
    // The random source fails.
    assert_eq!(d.connect_with(Err("getrandom failed: x".to_string())), Err("getrandom failed: x".to_string()));
    assert_eq!(d.dialer.asked.len(), 2);
    assert_eq!(d.connect_with(Ok(identity())), Ok(()));
    assert_eq!(d.dialer.asked, [dial(None), dial(None), dial(None)]);
    // Connected: nothing is dialed again.
    assert_eq!(d.connect(), Ok(()));
    assert_eq!(d.read_record(0, 1, 5), Ok(vec![7]));
    assert_eq!(d.dialer.asked.len(), 3);
}

#[test]
fn a_device_that_does_not_answer_is_not_connected() {
    let mut d = offline();
    d.dialer.push_transport(Ok(ReplayTransport::new("device")));
    assert!(d.connect().unwrap_err().starts_with("Failed to connect to demo: "));
    assert!(!d.is_connected());
    assert_eq!(d.dialer.asked, [dial(None)]);
    assert_eq!(d.connect(), Err("no transport".to_string()));
}

fn im0() -> Vec<u8> {
    let mut d = vec![0u8; 60];
    d[8..12].copy_from_slice(b" ORD");
    d[28..32].copy_from_slice(b"SN1 ");
    d[45] = 4;
    d[46] = b'V';
    d
}

#[test]
fn all_records_that_a_device_has_are_kept() {
    let mut d = offline();
    let c = conn(&[
        (0, vec![]),
        (0, record(&im0())),
        (0xDE80_B000, vec![]),
        (0, record(&[0; 22])),
        (0, record(&[0; 10])),
    ]);
    d.connect_over(c).unwrap();
    let all = d.read_all_im(0, 1).unwrap();
    assert_eq!(all.im0, Some(parse_im0(&im0()).unwrap()));
    assert_eq!(all.im1, None);
    assert!(all.im2.is_some());
    assert_eq!(all.im3, None);
    assert_eq!(AllIm::default().im0, None);
}

#[test]
fn information_is_put_together() {
    let mut d = offline();
    d.dialer.push_lookup(Ok(vec![
        EpmEndpoint::default(),
        EpmEndpoint { annotation: "Model X".to_string(), ..EpmEndpoint::default() },
    ]));
    d.connect_over(conn(&[(0, vec![]), (0, record(&im0()))])).unwrap();
    let info = d.get_info(false, "Acme").unwrap();
    assert_eq!(info.name, "demo");
    assert_eq!(info.vendor_name, "Acme");
    assert_eq!(info.annotation, "Model X");
    assert_eq!(info.serial_number(), "SN1");
    assert_eq!(info.order_id(), "ORD");
    assert_eq!(info.hardware_revision(), 4);
    assert_eq!(info.software_revision(), "V0.0.0");
    assert!(info.topology.is_none());
    assert_eq!(d.dialer.asked, [dial(Some(50))]);
    assert_eq!(info.clone(), info);
    assert_ne!(DeviceInfo::default(), info);
    let bare = DeviceInfo::from_dcp(&demo(), "");
    assert_eq!(bare.serial_number(), "");
    assert_eq!(bare.mac, "02:00:00:00:00:02");
}

#[test]
fn maintenance_records_are_written() {
    let r = im1_record("pump", "h\u{e4}ll").unwrap();
    assert_eq!(r.len(), 62);
    assert_eq!(&r[..8], &[0x00, 0x21, 0, 58, 1, 0, 0, 0]);
    assert_eq!(&r[8..13], b"pump ");
    assert_eq!(&r[40..45], &[b'h', 0xE4, b'l', b'l', b' ']);
    assert_eq!(im2_record("2024-01-02 03:04").unwrap().len(), 24);
    assert_eq!(im3_record("x").unwrap().len(), 62);
    assert_eq!(
        im2_record("2024-01-02 03:04:05").unwrap_err(),
        "date exceeds 16 character limit"
    );
    assert_eq!(
        im3_record("\u{20ac}").unwrap_err(),
        "descriptor contains non-Latin-1 character '\u{20ac}'"
    );
    let mut d = offline();
    assert!(d.write_im1(&"x".repeat(33), "").unwrap_err().contains("tag_function"));
    d.connect_over(conn(&[(0, vec![]), (0, vec![]), (0, vec![]), (0, vec![])])).unwrap();
    d.write_im2("2024-01-02 03:04").unwrap();
    d.write_im3("text").unwrap();
    let writes = [WriteItem { slot: 1, subslot: 1, index: 5, data: vec![1] }];
    assert_eq!(d.write_multiple(&writes), Ok(vec![]));
    assert_eq!(alarm_from_record(&[0; 27]), None);
    assert!(alarm_from_record(&[0; 28]).is_some());
}

#[test]
fn diagnosis_and_slots_are_read_through_the_device() {
    let block = b"\x00\x10\x00\x08\x01\x00\x00\x01\x00\x00\x80\x00\x00\x01";
    let mut d = offline();
    d.connect_over(conn(&[
        (0, vec![]),
        (0, record(block)),
        (0, record(&[0, 0x13, 0, 0, 1, 0, 0, 1, 0, 2, 0, 0, 0, 0x20, 0, 1, 0, 3, 0, 0, 0, 0x21])),
        (0, record(&[])),
    ]))
    .unwrap();
    assert_eq!(d.read_diagnosis(0, 0, 0x800A).unwrap().entries.len(), 1);
    assert_eq!(d.discover_slots().unwrap()[0].slot, 2);
    assert!(d.read_topology().unwrap().slots.is_empty());
    assert!(d.read_all_diagnosis().unwrap().is_empty());
}

#[test]
fn uuids_read_back() {
    let text = UUID_PNIO_DEVICE;
    let bytes = string_to_uuid_bytes(text).unwrap();
    assert_eq!(&bytes[..8], &[0x01, 0x00, 0xA0, 0xDE, 0x97, 0x6C, 0xD1, 0x11]);
    assert_eq!(uuid_bytes_to_string(&bytes), text);
    assert_eq!(uuid_bytes_to_string(&[0; 15]), "");
    assert_eq!(string_to_uuid_bytes("12"), Err("Invalid UUID string: 12".to_string()));
    let e = EpmEndpoint { interface_uuid: text.to_uppercase(), ..EpmEndpoint::default() };
    assert_eq!(e.interface_name(), "PNIO-Device");
    assert_eq!(EpmEndpoint::default().interface_name(), "Unknown()");
}

#[test]
fn endpoints_are_looked_up() {
    let lookup = epm_lookup_from(&[0x33; 18], None).unwrap();
    assert_eq!(lookup.request.len(), 80 + 52);
    assert_eq!(lookup.local_port, 49152 + 0x3333 % 16384);
    assert_eq!(&lookup.request[40..56], &[0x33; 16]);
    assert_eq!(&lookup.request[24..40], &string_to_uuid_bytes(UUID_EPM_V4).unwrap());
    assert!(epm_lookup(Some("x")).unwrap_err().contains("Invalid UUID"));
    assert!(epm_lookup(None).unwrap().local_port >= 49152);

    let mut tower = vec![4, 0, 19, 0, 0x0D];
    tower.extend_from_slice(&string_to_uuid_bytes(UUID_PNIO_DEVICE).unwrap());
    tower.extend_from_slice(&[1, 0, 2, 0, 3, 0]);
    tower.extend_from_slice(&[1, 0, 0x0A, 2, 0, 0, 0]);
    tower.extend_from_slice(&[1, 0, 0x08, 2, 0, 0x88, 0x94]);
    tower.extend_from_slice(&[1, 0, 0x09, 4, 0, 192, 168, 0, 2]);
    let e = parse_epm_tower(&tower).unwrap();
    assert_eq!(e.interface_name(), "PNIO-Device");
    assert_eq!((e.interface_version_major, e.interface_version_minor), (1, 3));
    assert_eq!(e.protocol, "ncadg_ip_udp");
    assert_eq!(e.port, 34964);
    assert_eq!(e.address, "192.168.0.2");
    assert_eq!(parse_epm_tower(&[1, 0, 0]), None);

    let mut body = vec![0; 4];
    body.extend_from_slice(&1u32.to_le_bytes());
    body.extend_from_slice(&[0; 12]);
    body.extend_from_slice(&[0; 16]);
    body.extend_from_slice(&[0; 4]);
    body.extend_from_slice(&6u32.to_le_bytes());
    body.extend_from_slice(b"Mod 1\0\0\0");
    body.extend_from_slice(&(tower.len() as u32).to_le_bytes());
    body.extend_from_slice(&tower);
    let mut data = vec![0u8; 80];
    data[1] = 2;
    data[74..76].copy_from_slice(&(body.len() as u16).to_le_bytes());
    data.extend_from_slice(&body);
    let found = parse_epm_response(&data);
    assert_eq!(found.len(), 1);
    assert_eq!(found[0].annotation, "Mod 1");
    data[1] = 3;
    assert!(parse_epm_response(&data).is_empty());
}

fn slot(slot: u16, input_length: usize, output_length: usize) -> IoSlot {
    IoSlot { slot, subslot: 1, module_ident: 0, submodule_ident: 0, input_length, output_length }
}

#[test]
fn a_takeover_is_checked_first() {
    let slots = [slot(1, 0, 0), slot(2, 16, 0), slot(3, 0, 1)];
    assert_eq!(input_submodule(&slots, None, "d.xml"), Ok((2, 1, 16)));
    assert_eq!(
        input_submodule(&slots[..1], None, "d.xml").unwrap_err(),
        "GSDML d.xml describes no submodule with inputs"
    );
    assert_eq!(
        input_submodule(&slots, Some((9, 1)), "d.xml").unwrap_err(),
        "GSDML d.xml describes no submodule at slot 9 subslot 1"
    );
    assert_eq!(output_submodule(&slots, (2, 1)), (3, 1));
    assert_eq!(output_submodule(&slots[..2], (2, 1)), (2, 1));
    let record = Ok(vec![0, 0x15, 0, 8, 1, 0, 1, 0, 1, 0x80, 0, 2, 7, 7]);
    assert_eq!(check_input_image("d.xml", 2, 1, 2, &record), Ok(2));
    let (release, e) = check_input_image("d.xml", 2, 1, 16, &record).unwrap_err();
    assert!(release);
    assert!(e.starts_with(
        "GSDML mismatch: d.xml declares a 16-byte input image for slot 2 subslot 1, but the device provides 2 bytes."
    ));
    let (release, e) = check_input_image("d.xml", 2, 1, 16, &Err("no".to_string())).unwrap_err();
    assert!(!release);
    assert!(e.ends_with("to verify the GSDML: no"));
    assert_eq!(
        check_input_image("d.xml", 2, 1, 16, &Ok(vec![])).unwrap_err().1,
        "could not parse the input image record (0x8028)"
    );

    let safe = vec![0, 0x16, 0, 0, 1, 0, 0, 1, 1, 1, 0, 1, 0x80, 0x00, 0x80];
    let (line, go_on) = ownership_probe(&Ok(safe.clone()));
    assert!(go_on, "substitute values are the normal state before a takeover");
    assert!(line.starts_with(r#"{"type":"current_output","len":15,"hex":"0016"#));
    let mut driven = safe;
    driven[13] = 1;
    assert!(!ownership_probe(&Ok(driven)).1);
    let (line, go_on) = ownership_probe(&Err("no".to_string()));
    assert!(!go_on);
    assert_eq!(line, r#"{"type":"error","read":"current_output","msg":"no"}"#);
    assert!(takeover_refusal().1.starts_with("ownership probe failed"));
}

#[test]
fn the_controller_has_the_layout_and_the_safe_output() {
    let slots = [slot(2, 16, 0), slot(3, 0, 1)];
    assert!(layout_fits(&slots));
    assert!(!layout_fits(&[slot(1, usize::MAX, 0)]));
    let setup = tier_setup(&slots, 16);
    assert_eq!(setup.io_slots, slots);
    assert_eq!((setup.send_clock_factor, setup.reduction_ratio), (32, 16));
    let result = ConnectResult { input_frame_id: 0xC001, output_frame_id: 0x8001, has_cyclic: true };
    assert!(check_established(&result).is_ok());
    for output_frame_id in [0x0000, 0xFFFF] {
        let no = ConnectResult { output_frame_id, ..result };
        assert_eq!(
            check_established(&no),
            Err("cyclic IO not established by device".to_string())
        );
    }
    let c = tier_controller("eth0", [1; 6], [2; 6], &slots, &result, 16, 0).unwrap();
    assert_eq!(c.output_iocr().cycle_time_us(), 16_000);
    let mut c = guarded_controller(c, 3, 1);
    c.start(0).unwrap();
    c.transition(CyclicState::Running);
    c.set_output_data(3, 1, &[0xFF]).unwrap();
    c.swap();
    c.stop();
    assert_eq!(c.output_builder.build()[0], 0);
    assert!(tier_controller("eth0", [1; 6], [2; 6], &slots, &result, 0, 0).is_err());
}

const SAFE_RECORD: [u8; 15] = [0, 0x16, 0, 0, 1, 0, 0, 1, 1, 1, 0, 1, 0x80, 0x00, 0x80];
const INPUT_RECORD: [u8; 14] = [0, 0x15, 0, 8, 1, 0, 1, 0, 1, 0x80, 0, 2, 7, 7];

fn quiet(report: &TakeoverReport) -> bool {
    report.lines.is_empty() && report.failure.is_none()
}

fn error_of(report: TakeoverReport) -> (bool, String) {
    let TakeoverFailure { release, error } = report.failure.unwrap();
    (release, error)
}

/// A takeover with a layout, before the read of the input record.
fn laid_out(commanding: bool) -> Takeover {
    let mut t = Takeover::new("d.xml", 16, commanding, None).unwrap();
    assert_eq!(t.next(), TakeoverStep::DiscoverSlots);
    assert!(quiet(&t.on_slots(Ok(()))));
    assert_eq!(t.next(), TakeoverStep::LayOut);
    assert!(quiet(&t.on_layout(Ok(vec![slot(2, 2, 0), slot(3, 0, 1)]))));
    assert_eq!(t.next(), TakeoverStep::ReadInput { slot: 2, subslot: 1, pause_ms: 30 });
    t
}

#[test]
fn a_takeover_goes_step_by_step() {
    let mut t = laid_out(true);
    assert!(quiet(&t.on_input_record(Err("PNIO status DE80C200".to_string()))));
    assert_eq!(t.next(), TakeoverStep::ReadInput { slot: 2, subslot: 1, pause_ms: 80 });
    assert!(quiet(&t.on_input_record(Ok(INPUT_RECORD.to_vec()))));
    assert_eq!(t.next(), TakeoverStep::ProbeOutput { slot: 3, subslot: 1 });
    let report = t.on_probe(Ok(SAFE_RECORD.to_vec()));
    assert_eq!(report.lines.len(), 1);
    assert!(report.failure.is_none());
    assert_eq!(t.next(), TakeoverStep::Rebind);
    assert_eq!(t.setup().reduction_ratio, 16);
    let result = ConnectResult { input_frame_id: 0xC001, output_frame_id: 0x8001, has_cyclic: true };
    assert!(quiet(&t.on_connected(Ok(result))));
    assert_eq!(t.next(), TakeoverStep::EndParameters);
    assert!(quiet(&t.on_parameters(Ok(()))));
    assert_eq!(t.next(), TakeoverStep::AwaitReady);
    assert!(quiet(&t.on_ready(Ok(()))));
    assert_eq!(t.next(), TakeoverStep::Start);
    let mut c = t.controller("eth0", [1; 6], [2; 6], 0).unwrap();
    assert_eq!(c.output_iocr().cycle_time_us(), 16_000);
    assert_eq!(c.output_iocr().data_length, 40);
    assert_eq!(c.state(), CyclicState::Idle);
    // Nothing is driven: the data byte is zero and only its status is good.
    c.swap();
    assert_eq!(c.output_builder.build()[..2], [0x00, 0x80]);
    assert!(t.started_line().starts_with(r#"{"type":"cyclic_started""#));
}

#[test]
fn only_a_commanding_session_probes() {
    let mut t = laid_out(false);
    assert!(quiet(&t.on_input_record(Ok(INPUT_RECORD.to_vec()))));
    assert_eq!(t.next(), TakeoverStep::Rebind);
}

#[test]
fn a_takeover_is_refused_while_somebody_commands() {
    let mut driven = SAFE_RECORD.to_vec();
    driven[13] = 1;
    for outcome in [Ok(driven), Ok(vec![]), Err("no".to_string())] {
        let mut t = laid_out(true);
        assert!(quiet(&t.on_input_record(Ok(INPUT_RECORD.to_vec()))));
        let report = t.on_probe(outcome);
        assert_eq!(report.lines.len(), 2);
        assert!(report.lines[1].contains("refusing takeover"));
        let (release, error) = error_of(report);
        assert!(release);
        assert!(error.starts_with("ownership probe failed"));
        assert_eq!(t.next(), TakeoverStep::Stop);
    }
}

#[test]
fn a_takeover_fails_with_the_error_of_its_step() {
    assert!(Takeover::new("d.xml", 3, true, None).is_err());

    let mut t = Takeover::new("d.xml", 16, true, None).unwrap();
    assert_eq!(error_of(t.on_slots(Err("gone".to_string()))), (false, "gone".to_string()));
    assert_eq!(t.next(), TakeoverStep::Stop);

    let mut t = Takeover::new("d.xml", 16, true, None).unwrap();
    assert!(quiet(&t.on_slots(Ok(()))));
    let report = t.on_layout(Ok(vec![slot(1, usize::MAX, 0)]));
    assert_eq!(error_of(report), (false, "the layout of d.xml is too large".to_string()));

    let mut t = Takeover::new("d.xml", 16, true, Some((9, 1))).unwrap();
    assert!(quiet(&t.on_slots(Ok(()))));
    assert_eq!(
        error_of(t.on_layout(Ok(vec![slot(2, 2, 0)]))).1,
        "GSDML d.xml describes no submodule at slot 9 subslot 1"
    );

    let mut t = laid_out(true);
    for _ in 0..3 {
        assert!(quiet(&t.on_input_record(Err("DE80C200".to_string()))));
    }
    assert_eq!(
        error_of(t.on_input_record(Err("DE80C200".to_string()))),
        (
            false,
            "could not read the input image (0x8028) to verify the GSDML: index 32808: DE80C200 (after 4 attempts)"
                .to_string()
        )
    );

    let mut t = laid_out(true);
    let mut short = INPUT_RECORD.to_vec();
    short[11] = 1;
    let (release, error) = error_of(t.on_input_record(Ok(short)));
    assert!(release);
    assert!(error.starts_with("GSDML mismatch: d.xml declares a 2-byte input image"));

    let mut t = laid_out(false);
    assert!(quiet(&t.on_input_record(Ok(INPUT_RECORD.to_vec()))));
    let none = ConnectResult { input_frame_id: 0, output_frame_id: 0, has_cyclic: false };
    assert_eq!(
        error_of(t.on_connected(Ok(none))),
        (true, "cyclic IO not established by device".to_string())
    );

    let mut t = laid_out(false);
    assert!(quiet(&t.on_input_record(Ok(INPUT_RECORD.to_vec()))));
    let some = ConnectResult { input_frame_id: 0xC001, output_frame_id: 0x8001, has_cyclic: true };
    assert!(quiet(&t.on_connected(Ok(some))));
    assert_eq!(error_of(t.on_parameters(Err("no".to_string()))), (false, "no".to_string()));
}
