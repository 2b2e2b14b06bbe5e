//! Arguments of the command line.

use profinet_rs::cli::{
    cyclic_abort_reason, decode_device_role, hex_encode, match_device, parse_hex, parse_index,
    parse_ipv4, parse_u8_maybe_hex, resolve_device, should_hard_exit, validate_cycle_ms,
};
use profinet_rs::commands::ResetMode;
use profinet_rs::cyclic::CyclicState;
use profinet_rs::dcp;
use profinet_rs::dcp::DcpDevice;

#[test]
fn match_device_accepts_name_or_ip() {
    let dev = DcpDevice {
        name: "demo".to_string(),
        ip: [192, 168, 0, 2],
        ..Default::default()
    };
    assert!(match_device(&[dev.clone()], "demo").is_some());
    assert!(match_device(&[dev.clone()], "192.168.0.2").is_some());
    // Wrong name, wrong IP, and non-IP junk all miss.
    assert!(match_device(&[dev.clone()], "other-device").is_none());
    assert!(match_device(&[dev.clone()], "192.168.0.9").is_none());
    assert!(match_device(&[dev], "not-an-ip-or-name").is_none());
}

#[test]
fn parse_index_hex_and_decimal() {
    assert_eq!(parse_index("0xAFF0").unwrap(), 0xAFF0);
    assert_eq!(parse_index("0Xaff1").unwrap(), 0xAFF1);
    assert_eq!(parse_index("6000").unwrap(), 6000);
    assert!(parse_index("nope").is_err());
}

#[test]
fn parse_hex_ignores_spaces() {
    assert_eq!(
        parse_hex("de ad be ef").unwrap(),
        vec![0xde, 0xad, 0xbe, 0xef]
    );
    assert_eq!(parse_hex("").unwrap(), Vec::<u8>::new());
    assert!(parse_hex("abc").is_err());
    assert!(parse_hex("zz").is_err());
}

#[test]
fn parse_ipv4_dotted_quad() {
    assert_eq!(parse_ipv4("192.168.0.2").unwrap(), [192, 168, 0, 2]);
    assert!(parse_ipv4("999.1.1.1").is_err());
}

#[test]
fn reset_mode_masks() {
    assert_eq!(ResetMode::Factory.mask(), dcp::RESET_MODE_FACTORY);
    assert_eq!(
        ResetMode::Communication.mask(),
        dcp::RESET_MODE_COMMUNICATION
    );
    assert_eq!(ResetMode::AllData.as_str(), "all-data");
}

#[test]
fn device_role_decoding() {
    assert_eq!(decode_device_role(0x01), vec!["IO-Device"]);
    assert_eq!(decode_device_role(0x03), vec!["IO-Device", "IO-Controller"]);
    assert!(decode_device_role(0).is_empty());
}

#[test]
fn hex_encode_lowercase() {
    assert_eq!(hex_encode(&[0x00, 0xAB, 0xff]), "00abff");
}

#[test]
fn cycle_ms_power_of_two_validation() {
    for ok in [1u16, 2, 8, 16, 32, 128, 512] {
        assert!(validate_cycle_ms(ok).is_ok(), "{ok} should be accepted");
    }
    for bad in [0u16, 3, 12, 24, 100, 513, 1024] {
        assert!(validate_cycle_ms(bad).is_err(), "{bad} should be rejected");
    }
}

#[test]
fn second_sigint_hard_exit_gated_on_proven_safe_image() {
    // The only combination that may hard-exit (destructor-free) is a
    // repeat SIGINT AFTER the safe shutdown proved the safe image.
    assert!(!should_hard_exit(false, false));
    assert!(
        !should_hard_exit(true, false),
        "a repeat Ctrl+C must NOT hard-exit before open is proven"
    );
    assert!(!should_hard_exit(false, true));
    assert!(should_hard_exit(true, true));
}

#[test]
fn lost_cyclic_link_aborts_to_safe_shutdown() {
    // Losing the cyclic link means we are no longer driving the output
    // at all, so the run loop must bail out to the commanded safe
    // shutdown instead of driving a dead AR. The dead-man cannot catch
    // this (keepalives into a dead link keep it satisfied).
    assert_eq!(
        cyclic_abort_reason(CyclicState::Fault),
        Some("cyclic_fault"),
        "a watchdog-escalated FAULT must abort to safe shutdown"
    );
    assert_eq!(
        cyclic_abort_reason(CyclicState::Stopped),
        Some("cyclic_stopped")
    );
    // Healthy / transient states keep the loop running.
    for ok in [
        CyclicState::Starting,
        CyclicState::Running,
        CyclicState::Idle,
        CyclicState::Stopping,
    ] {
        assert_eq!(cyclic_abort_reason(ok), None, "{ok:?} must not abort");
    }
}

#[test]
fn parse_index_bounds_and_messages() {
    assert_eq!(parse_index("65535").unwrap(), 65535);
    assert_eq!(parse_index("+7").unwrap(), 7);
    assert_eq!(parse_index("65536"), Err("invalid index \"65536\"".to_string()));
    assert_eq!(parse_index(""), Err("invalid index \"\"".to_string()));
    assert_eq!(parse_index("0x"), Err("invalid index \"0x\"".to_string()));
}

#[test]
fn parse_hex_messages() {
    assert_eq!(parse_hex("abc"), Err("odd-length hex string \"abc\"".to_string()));
    assert_eq!(parse_hex("zz"), Err("invalid hex \"zz\"".to_string()));
    // A two-byte character has even length and is no digit.
    assert_eq!(parse_hex("\u{e9}"), Err("invalid hex \"\u{e9}\"".to_string()));
    assert_eq!(parse_hex("\t0 1\u{a0}ff\n"), Ok(vec![0x01, 0xff]));
    // A sign is no digit.
    assert_eq!(parse_hex("+5"), Err("invalid hex \"+5\"".to_string()));
}

#[test]
fn hex_reads_back() {
    let data: Vec<u8> = (0..=255).collect();
    assert_eq!(parse_hex(&hex_encode(&data)).unwrap(), data);
}

#[test]
fn bytes_in_decimal_or_hexadecimal() {
    assert_eq!(parse_u8_maybe_hex(" 0x0F "), Ok(15));
    assert_eq!(parse_u8_maybe_hex("255"), Ok(255));
    assert_eq!(
        parse_u8_maybe_hex("256"),
        Err("invalid byte \"256\": number too large to fit in target type".to_string())
    );
    assert_eq!(
        parse_u8_maybe_hex("0xg"),
        Err("invalid byte \"0xg\": invalid digit found in string".to_string())
    );
    assert_eq!(
        parse_u8_maybe_hex("  "),
        Err("invalid byte \"\": cannot parse integer from empty string".to_string())
    );
}

#[test]
fn cycle_message_names_the_value() {
    assert_eq!(
        validate_cycle_ms(24),
        Err("cycle_ms must be a power of two in 1..=512 (RT_CLASS_1 reduction ratio), got 24"
            .to_string())
    );
}

#[test]
fn an_unknown_station_is_named() {
    assert_eq!(
        resolve_device(&[], "demo").unwrap_err(),
        "Device \"demo\" not found".to_string()
    );
}

#[test]
fn every_role_has_a_name() {
    assert_eq!(
        decode_device_role(0x0F),
        vec!["IO-Device", "IO-Controller", "IO-Multidevice", "PN-Supervisor"]
    );
}
