//! Input and output records, and the status in error messages.

use profinet_rs::cli::parse_hex;
use profinet_rs::records::{
    is_busy, is_proof_of_safety, is_transport_failure, output_substitute_active,
    parse_input_data_length, parse_output_control_byte, pnio_status_of,
};

/// An input record (index 0x8028): block header (type 0x0015), count and
/// consumer status, count and provider status (0x80 is GOOD), data length, and
/// the process image.
const INPUT_RECORD: &str = "001500180100010001800010000102030405060708090a0b0c0d0e0f";

#[test]
fn parse_input_data_length_walks_the_status_arrays() {
    let record = parse_hex(INPUT_RECORD).unwrap();
    assert_eq!(parse_input_data_length(&record), Some(16));
}

#[test]
fn parse_input_data_length_skips_variable_status_arrays() {
    // Same record with 3-byte IOCS and 2-byte IOPS arrays: the declared
    // length still has to be found by walking, not by a fixed offset.
    let mut record = parse_hex("001500360100").unwrap();
    record.extend_from_slice(&[0x03, 0x00, 0x00, 0x00]); // LengthIOCS + IOCS
    record.extend_from_slice(&[0x02, 0x80, 0x80]); // LengthIOPS + IOPS
    record.extend_from_slice(&[0x00, 0x04]); // LengthIOData
    record.extend_from_slice(&[0xde, 0xad, 0xbe, 0xef]);
    assert_eq!(parse_input_data_length(&record), Some(4));
}

#[test]
fn parse_input_data_length_rejects_truncated_payload() {
    // Declares 16 bytes of IOData but carries only 15: refusing beats
    // reporting a length the frame cannot satisfy.
    let mut record = parse_hex(INPUT_RECORD).unwrap();
    record.pop();
    assert_eq!(parse_input_data_length(&record), None);
}

#[test]
fn parse_input_data_length_rejects_short_record() {
    assert_eq!(parse_input_data_length(&[]), None);
    assert_eq!(parse_input_data_length(&[0u8; 6]), None);
    // Header plus a LengthIOCS that runs off the end.
    assert_eq!(
        parse_input_data_length(&[0x00, 0x15, 0x00, 0x30, 0x01, 0x00, 0xff]),
        None
    );
}

/// An output record (index 0x8029) with an all-zero control byte: block header
/// (type 0x0016), substitute flag, status lengths, item length, then consumer
/// status, data and provider status.
const OUTPUT_RECORD: &str = "0016001601000000010100018000800000010203040506070809";

#[test]
fn parse_output_control_byte_reads_the_data_item() {
    let record = parse_hex(OUTPUT_RECORD).unwrap();
    assert_eq!(parse_output_control_byte(&record), Some(0x00));
}

#[test]
fn parse_output_control_byte_walks_a_multi_byte_iocs() {
    // The DataItem begins after however many IOCS bytes the record
    // declares, so the control byte is at 12 + LengthIOCS, not at a fixed
    // offset. Every other fixture here declares one IOCS byte, where the
    // two happen to coincide: without this record a parser that ignored
    // LengthIOCS would pass the whole suite.
    //
    // 3-byte IOCS (0x808080), then the data byte 0xa5, then IOPS.
    let record = parse_hex("0016000d0100000003010001808080a580").unwrap();
    assert_eq!(parse_output_control_byte(&record), Some(0xa5));
}

#[test]
fn parse_output_control_byte_non_safe_image() {
    // The same record with the control byte (after the leading IOCS) set
    // to something other than the safe image.
    let mut record = parse_hex(OUTPUT_RECORD).unwrap();
    record[13] = 0x01;
    assert_eq!(parse_output_control_byte(&record), Some(0x01));
}

#[test]
fn substitute_flag_is_separate_from_the_control_byte() {
    // The shape a device sends with NO controller attached: it applies
    // substitute values (flag set) and the data byte is 0x00. That is the
    // normal pre-takeover state, so the flag alone must not refuse a
    // takeover: the ownership probe judges the byte.
    let no_controller =
        parse_hex("0016001601000001010100018000000000010203040506070809").unwrap();
    assert!(
        output_substitute_active(&no_controller),
        "no controller attached => device applies substitutes"
    );
    assert_eq!(parse_output_control_byte(&no_controller), Some(0x00));

    // With a controller holding the AR the flag is clear, so this byte
    // IS our commanded data — the only thing
    // the safe-shutdown verify may accept as proof of the safe image.
    let ours = parse_hex(OUTPUT_RECORD).unwrap();
    assert!(!output_substitute_active(&ours));
    assert_eq!(parse_output_control_byte(&ours), Some(0x00));

    assert!(!output_substitute_active(&[]));
}

#[test]
fn parse_output_control_byte_rejects_bad_records() {
    assert_eq!(parse_output_control_byte(&[]), None);
    assert_eq!(parse_output_control_byte(&[0u8; 11]), None);
    // Wrong block type.
    let mut record = parse_hex(OUTPUT_RECORD).unwrap();
    record[1] = 0x15;
    assert_eq!(parse_output_control_byte(&record), None);
    // Empty DataItem.
    let mut record = parse_hex(OUTPUT_RECORD).unwrap();
    record[10] = 0;
    record[11] = 0;
    assert_eq!(parse_output_control_byte(&record), None);
    // Truncated before the control byte.
    let record = parse_hex(OUTPUT_RECORD).unwrap();
    assert_eq!(parse_output_control_byte(&record[..13]), None);
}

#[test]
fn a_device_saying_no_is_not_a_lost_connection() {
    // The caller probes lengths and indices on purpose, so a PNIO status
    // is a normal negative answer; anything else means the AR is gone and
    // every later request is meaningless.
    let refused = "read failed: PNIO error status 0xDE80B900 (...)";
    assert!(!is_transport_failure(refused));
    assert_eq!(pnio_status_of(refused).as_deref(), Some("DE80B900"));

    for dead in [
        "No response from device",
        "send failed: Broken pipe",
        "recv timed out",
    ] {
        assert!(is_transport_failure(dead), "{dead} should read as fatal");
        assert_eq!(pnio_status_of(dead), None);
    }
}

#[test]
fn pnio_status_is_passed_through_verbatim() {
    // Count discovery pivots on the exact code, so no normalising.
    for code in ["DE80B900", "DE80B000", "DE80C200"] {
        let msg = format!("read failed: PNIO error status 0x{code} (whatever)");
        assert_eq!(pnio_status_of(&msg).as_deref(), Some(code));
    }
    // A truncated code is not a code.
    assert_eq!(pnio_status_of("PNIO error status 0xDE80"), None);
}

#[test]
fn only_our_own_safe_byte_is_proof() {
    let ours = parse_hex(OUTPUT_RECORD).unwrap();
    assert!(is_proof_of_safety(&ours));
    let mut substitutes = ours.clone();
    substitutes[7] = 1;
    assert!(!is_proof_of_safety(&substitutes));
    let mut driven = ours.clone();
    driven[13] = 4;
    assert!(!is_proof_of_safety(&driven));
    assert!(!is_proof_of_safety(&[]));
}

#[test]
fn busy_is_told_by_its_status() {
    assert!(is_busy("PNIO error status 0xDE80C200 (busy)"));
    assert!(!is_busy("PNIO error status 0xDE80B000 (index)"));
}
