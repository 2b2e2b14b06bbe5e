//! DCP requests and responses, discovery, and the commands built on them.

use profinet_rs::commands::{
    device_lines, get_param_answer, get_param_failed, get_param_request, no_set_response,
    reset_report, reset_request, set_ip_report, set_ip_request, set_param_report,
    set_param_request, show_value, signal_report, signal_request, Param, ResetMode, SetExchange,
};
use profinet_rs::dcp;
use profinet_rs::dcp::DcpDevice;
use profinet_rs::pcap::{aggregate_responses, discover, Discovery};

const ME: [u8; 6] = [2, 0, 0, 0, 0, 1];
const DEV: [u8; 6] = [2, 0, 0, 0, 0, 2];
const TARGET: &str = "02:00:00:00:00:02";

/// A response frame from the device with the given blocks.
fn response(frame_id: u16, service: u8, kind: u8, xid: u32, blocks: &[u8]) -> Vec<u8> {
    let mut f = Vec::new();
    f.extend_from_slice(&ME);
    f.extend_from_slice(&DEV);
    f.extend_from_slice(&[0x88, 0x92]);
    f.extend_from_slice(&frame_id.to_be_bytes());
    f.push(service);
    f.push(kind);
    f.extend_from_slice(&xid.to_be_bytes());
    f.extend_from_slice(&[0, 0]);
    f.extend_from_slice(&(blocks.len() as u16).to_be_bytes());
    f.extend_from_slice(blocks);
    f
}

fn identify(xid: u32, name: &[u8]) -> Vec<u8> {
    let mut blocks = vec![0x02, 0x02, 0x00, 2 + name.len() as u8, 0, 0];
    blocks.extend_from_slice(name);
    if name.len() % 2 == 1 {
        blocks.push(0);
    }
    blocks.extend_from_slice(&[0x02, 0x03, 0, 6, 0, 0, 0x0A, 0xBC, 0x00, 0x07]);
    blocks.extend_from_slice(&[0x02, 0x04, 0, 4, 0, 0, 0x03, 0]);
    blocks.extend_from_slice(&[0x02, 0x01, 0, 6, 0, 0, b'P', b'L', 0, 0]);
    blocks.extend_from_slice(&[
        0x01, 0x02, 0, 14, 0, 1, 192, 168, 0, 2, 255, 255, 255, 0, 0, 0, 0, 0,
    ]);
    response(0xFEFF, 0x05, 0x01, xid, &blocks)
}

#[test]
fn requests_have_their_bytes() {
    assert_eq!(
        dcp::identify_all_request(&ME, 0x01020304),
        [
            0x01, 0x0E, 0xCF, 0, 0, 0, 2, 0, 0, 0, 0, 1, 0x88, 0x92, 0xFE, 0xFE, 0x05, 0x00, 1, 2,
            3, 4, 0x00, 0x80, 0, 4, 0xFF, 0xFF, 0, 0
        ]
    );
    let name = dcp::set_name_request(&ME, &DEV, 5, "abc");
    // The header counts a padding byte that is not sent.
    assert_eq!(
        &name[14..],
        &[0xFE, 0xFD, 4, 0, 0, 0, 0, 5, 0, 0, 0, 10, 2, 2, 0, 5, 0, 0, b'a', b'b', b'c']
    );
    let ip = dcp::set_ip_request(&ME, &DEV, 5, &[1, 2, 3, 4], &[255, 0, 0, 0], &[1, 2, 3, 1]);
    assert_eq!(&ip[24..34], &[0, 18, 1, 2, 0, 14, 0, 0, 1, 2]);
    let get = get_param_request(&ME, TARGET, 5, Param::Name).unwrap();
    assert_eq!(&get[14..], &[0xFE, 0xFD, 3, 0, 0, 0, 0, 5, 0, 0, 0, 2, 2, 2, 0, 0]);
    let permanent = set_ip_request(&ME, TARGET, 5, "1.2.3.4", "255.0.0.0", "0.0.0.0", true).unwrap();
    assert_eq!(&permanent[30..36], &[0, 1, 1, 2, 3, 4]);
    let signal = signal_request(&ME, TARGET, 5).unwrap();
    assert_eq!(&signal[26..], &[5, 3, 0, 4, 0, 1, 0, 30]);
    assert_eq!(&dcp::signal_request(&ME, &DEV, 5, 10)[32..], &[0, 1]);
    let reset = reset_request(&ME, TARGET, 5, ResetMode::Factory).unwrap();
    assert_eq!(&reset[26..], &[5, 6, 0, 2, 0, 0x40]);
    let param = set_param_request(&ME, TARGET, 5, Param::Ip, "1.2.3.4").unwrap();
    assert_eq!(&param[32..], b"1.2.3.4");
    assert_eq!(dcp::parse_dcp_xid(&param), Some(5));
}

#[test]
fn bad_arguments_make_no_request() {
    assert!(get_param_request(&ME, "x", 1, Param::Ip).unwrap_err().contains("Invalid MAC"));
    assert!(signal_request(&ME, "", 1).unwrap_err().contains("empty"));
    assert_eq!(
        set_param_request(&ME, TARGET, 1, Param::Name, &"n".repeat(241)).unwrap_err(),
        "Station name exceeds maximum length: 241 > 240"
    );
    assert!(set_param_request(&ME, TARGET, 1, Param::Name, &"n".repeat(240)).is_ok());
    assert_eq!(
        set_ip_request(&ME, TARGET, 1, "1.2.3.4", "x", "y", false).unwrap_err(),
        "Invalid IP address: \"x\""
    );
}

#[test]
fn set_responses_are_matched_to_their_request() {
    let request = dcp::set_name_request(&ME, &DEV, 77, "abc");
    let waiting = SetExchange::new(&ME, &request).unwrap();
    let ok = [5, 4, 0, 3, 2, 2, 0, 0];
    assert_eq!(waiting.on_frame(&response(0xFEFD, 4, 1, 77, &ok)), Some(Ok(0)));
    let refused = [5, 4, 0, 3, 2, 2, 6, 0];
    assert_eq!(waiting.on_frame(&response(0xFEFD, 4, 1, 77, &refused)), Some(Ok(6)));
    // Some devices leave the block out.
    assert_eq!(waiting.on_frame(&response(0xFEFD, 4, 1, 77, &[])), Some(Ok(0)));
    // Another transaction, another service, our own request, an alarm.
    assert_eq!(waiting.on_frame(&response(0xFEFD, 4, 1, 78, &ok)), None);
    assert_eq!(waiting.on_frame(&response(0xFEFD, 3, 1, 77, &ok)), None);
    assert_eq!(waiting.on_frame(&response(0xFEFD, 4, 0, 77, &ok)), None);
    assert_eq!(waiting.on_frame(&response(0xFE01, 4, 1, 77, &ok)), None);
    assert_eq!(
        waiting.on_frame(&response(0xFEFD, 4, 5, 77, &ok)),
        Some(Err("DCP SET: service not supported by device".to_string()))
    );
    // A frame for somebody else, and one that is no PROFINET frame.
    let mut other = response(0xFEFD, 4, 1, 77, &ok);
    other[0] = 9;
    assert_eq!(waiting.on_frame(&other), None);
    let mut ip = response(0xFEFD, 4, 1, 77, &ok);
    ip[12] = 0x08;
    assert_eq!(waiting.on_frame(&ip), None);
    assert_eq!(dcp::parse_set_response(&[0; 10], 77), Ok(None));
    assert_eq!(
        SetExchange::new(&ME, &[0; 20]).unwrap_err(),
        "malformed DCP request"
    );
    assert_eq!(no_set_response(), "No DCP SET response received");
}

#[test]
fn parameters_are_read_and_shown() {
    let name = response(0xFEFD, 3, 1, 1, &[2, 2, 0, 6, 0, 0, b'd', b'e', b'm', b'o']);
    let value = get_param_answer(&ME, Param::Name, &name).unwrap();
    assert_eq!(show_value(Param::Name, &value), "demo");
    assert_eq!(get_param_answer(&ME, Param::Ip, &name), None);
    assert_eq!(get_param_answer(&DEV, Param::Name, &name), None);
    assert_eq!(show_value(Param::Ip, &[1, 2, 3, 4, 5, 6]), "1.2.3.4");
    assert_eq!(show_value(Param::Ip, &[1, 2, 3]), "?");
    assert_eq!(show_value(Param::Name, &[0xFF, b'a']), "\u{FFFD}a");
    assert_eq!(get_param_failed(Param::Ip), "Could not read parameter 'ip'");
}

#[test]
fn commands_report_their_end() {
    assert_eq!(
        set_param_report(Param::Name, "x", &Ok(0)),
        Ok((0, "Set name = x".to_string()))
    );
    assert_eq!(
        set_param_report(Param::Name, "x", &Err("late".to_string())),
        Ok((1, "Failed to set name".to_string()))
    );
    assert!(set_param_report(Param::Name, "x", &Ok(6))
        .unwrap_err()
        .starts_with("DCP SET failed for 'name': "));
    assert_eq!(
        set_ip_report("1.2.3.4", "255.0.0.0", "0.0.0.0", &Ok(0)),
        Ok((0, "Set IP=1.2.3.4 netmask=255.0.0.0 gateway=0.0.0.0".to_string()))
    );
    assert_eq!(
        signal_report(&Err(String::new())),
        Ok((1, "Failed to signal device (timeout)".to_string()))
    );
    assert_eq!(
        reset_report(&Ok(0)),
        Ok((0, "Reset command acknowledged".to_string()))
    );
    assert_ne!(dcp::block_error_name(1), dcp::block_error_name(2));
}

#[test]
fn devices_are_described() {
    let d = dcp::parse_identify_response(&identify(1, b"demo")).unwrap();
    assert_eq!(
        d,
        DcpDevice {
            mac: DEV,
            name: "demo".to_string(),
            device_type: "PL".to_string(),
            ip: [192, 168, 0, 2],
            netmask: [255, 255, 255, 0],
            gateway: [0, 0, 0, 0],
            vendor_id: 0x0ABC,
            device_id: 7,
            role: 3,
        }
    );
    assert_eq!(
        device_lines(&d, "Acme"),
        [
            "PROFINET Device: demo",
            "  MAC:     02:00:00:00:00:02",
            "  Type:    PL",
            "  IP:      192.168.0.2",
            "  Netmask: 255.255.255.0",
            "  Gateway: 0.0.0.0",
            "  Vendor:  Acme (0x0ABC)",
            "  Device:  0x0007",
            "  Role:    IO-Device, IO-Controller",
        ]
    );
    assert_eq!(device_lines(&DcpDevice::default(), "").len(), 7);
    assert_eq!(
        dcp::parse_identify_response(&response(0xFEFF, 5, 0, 1, &[])).unwrap_err(),
        "not a DCP response: service_type 0x00"
    );
}

#[test]
fn discoveries_keep_one_entry_per_device() {
    let frames = vec![identify(9, b"old"), identify(8, b"stray"), identify(9, b"new"), vec![0; 5]];
    let devices = aggregate_responses(&frames, &ME, 9);
    assert_eq!(devices.len(), 1);
    assert_eq!(devices[0].name, "new");
    assert_eq!(aggregate_responses(&frames, &DEV, 9), vec![]);
    let mut d = Discovery::new(ME, 9);
    for f in &frames {
        d.on_frame(f);
    }
    assert_eq!(d.devices, devices);
    assert_eq!(d.request(), dcp::identify_all_request(&ME, 9));
    let fresh = discover(ME).unwrap();
    assert!(fresh.devices.is_empty());
}
