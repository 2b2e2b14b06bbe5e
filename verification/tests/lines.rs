//! The lines that a session writes, byte for byte.

use profinet_rs::lines::{
    ack_keepalive_line, ack_pulse_line, ack_set_level_line, alarm_line, ar_lost_line,
    bad_command_line, bye_line, control_active_line, current_output_line, cyclic_line,
    cyclic_started_line, data_line, deadman_line, error_msg_line, error_read_line, hello_line,
    ok_line, output_line, pong_line, read_error_line, refused_cmd_line, refused_needs_cyclic_line,
    refused_read_only_line, refused_setup_line, safe_shutdown_line, status_line,
    stopped_exit_line, stopped_stats_line, transport_error_line, warning_line,
};

#[test]
fn alarm_line_is_distinct_and_machine_readable() {
    let line = alarm_line("signal", "0016");
    assert!(line.starts_with("{\"type\":\"alarm\",\"reason\":\"safe output NOT verified\""));
    assert!(line.contains("\"shutdown_reason\":\"signal\""));
    assert!(line.contains("\"readback_hex\":\"0016\""));
}
/// The wire format, pinned byte for byte: one assertion per line shape. Values
/// are distinct per field on purpose, so that two arguments swapped inside a
/// builder change the output here.
#[test]
fn emitted_lines_are_pinned() {
    // Answers to a request, all id-first.
    assert_eq!(bye_line(7), r#"{"id":7,"type":"bye"}"#);
    assert_eq!(
        pong_line(7, 1234),
        r#"{"id":7,"type":"pong","host_us":1234}"#
    );
    assert_eq!(
        data_line(7, 1234, 3, "a1b2c3"),
        r#"{"id":7,"type":"data","host_us":1234,"len":3,"hex":"a1b2c3"}"#
    );
    assert_eq!(ok_line(7, 1234), r#"{"id":7,"type":"ok","host_us":1234}"#);
    assert_eq!(
        read_error_line(7, 1234, "DE80B900", "wrong length"),
        r#"{"id":7,"type":"read_error","host_us":1234,"pnio":"DE80B900","msg":"wrong length"}"#
    );
    assert_eq!(
        transport_error_line(7, 1234, "no answer"),
        r#"{"id":7,"type":"transport_error","host_us":1234,"msg":"no answer"}"#
    );
    assert_eq!(
        refused_read_only_line(7),
        r#"{"id":7,"type":"refused","reason":"server is read-only"}"#
    );

    // Session framing.
    assert_eq!(
        hello_line("demo", true, 30, false, 6),
        r#"{"proto":5,"type":"hello","station":"demo","read_only":true,"gap_ms":30,"cyclic":false,"allow_mask":6}"#
    );
    assert_eq!(stopped_exit_line(0), r#"{"type":"stopped","exit":0}"#);
    assert_eq!(
        stopped_stats_line(11, 12, 13),
        r#"{"type":"stopped","tx":11,"rx":12,"missed":13}"#
    );

    // Diagnostics.
    assert_eq!(
        error_read_line("uptime", "timeout"),
        r#"{"type":"error","read":"uptime","msg":"timeout"}"#
    );
    assert_eq!(error_msg_line("nope"), r#"{"type":"error","msg":"nope"}"#);
    assert_eq!(
        bad_command_line("no id", "{}"),
        r#"{"type":"error","msg":"bad command: no id","line":"{}"}"#
    );
    assert_eq!(
        warning_line("io_controller_mode", "displaced"),
        r#"{"type":"warning","code":"io_controller_mode","msg":"displaced"}"#
    );
    assert_eq!(
        ar_lost_line(1234, "cable"),
        r#"{"type":"ar_lost","host_us":1234,"msg":"cable"}"#
    );

    // Refusals that carry no id.
    assert_eq!(
        refused_setup_line("missing --i-am-on-the-bench"),
        r#"{"type":"refused","reason":"missing --i-am-on-the-bench"}"#
    );
    assert_eq!(
        refused_needs_cyclic_line("{\"cmd\":\"pulse\"}"),
        r#"{"type":"refused","reason":"control commands need --cyclic","line":"{\"cmd\":\"pulse\"}"}"#
    );
    assert_eq!(
        refused_cmd_line("pulse", 6, "a pulse is already running"),
        r#"{"type":"refused","cmd":"pulse","mask":6,"reason":"a pulse is already running"}"#
    );

    // The command layer.
    assert_eq!(
        ack_set_level_line(4, true, 6),
        r#"{"type":"ack","cmd":"set_level","mask":4,"on":true,"level":6}"#
    );
    assert_eq!(
        ack_pulse_line(2),
        r#"{"type":"ack","cmd":"pulse","mask":2,"pulse_ticks":3}"#
    );
    assert_eq!(ack_keepalive_line(), r#"{"type":"ack","cmd":"keepalive"}"#);
    assert_eq!(
        control_active_line(0, 6),
        r#"{"type":"control_active","output_byte":0,"allow_mask":6}"#
    );
    assert_eq!(
        output_line(4, false, "0004"),
        r#"{"type":"output","control_byte":4,"safe":false,"readback_hex":"0004"}"#
    );
    assert_eq!(
        deadman_line(),
        r#"{"type":"deadman","msg":"no command/keepalive while a level bit is held"}"#
    );

    // The cyclic tier.
    assert_eq!(
        current_output_line(2, "0000"),
        r#"{"type":"current_output","len":2,"hex":"0000"}"#
    );
    assert_eq!(
        cyclic_line(1, 2, 1234, 3, "aabbcc"),
        r#"{"type":"cyclic","slot":1,"subslot":2,"host_us":1234,"len":3,"hex":"aabbcc"}"#
    );
    assert_eq!(
        cyclic_started_line(16, 0x8001, 0x8002, 40, 1, 2),
        r#"{"type":"cyclic_started","cycle_ms":16,"input_frame_id":32769,"output_frame_id":32770,"input_len":40,"out_slot":1,"out_subslot":2}"#
    );
    assert_eq!(
        status_line(11, 12, 13, 4),
        r#"{"type":"status","tx":11,"rx":12,"missed":13,"out_byte":4}"#
    );

    // Shutdown.
    assert_eq!(
        safe_shutdown_line("quit", true, "0000"),
        r#"{"type":"safe_shutdown","reason":"quit","verified_safe":true,"readback_hex":"0000"}"#
    );
    assert_eq!(
        alarm_line("signal", "0004"),
        r#"{"type":"alarm","reason":"safe output NOT verified","shutdown_reason":"signal","readback_hex":"0004"}"#
    );
}
/// Control characters use the short escapes where JSON has them.
#[test]
fn control_characters_use_the_short_escapes() {
    let raw = "a\u{8}b\u{9}c\u{c}d\u{d}e";
    assert_eq!(
        error_msg_line(raw),
        r#"{"type":"error","msg":"a\bb\tc\fd\re"}"#
    );

    // They decode to exactly what went in.
    let line = error_msg_line(raw);
    let v: serde_json::Value = serde_json::from_str(&line).unwrap();
    assert_eq!(v["msg"].as_str(), Some(raw));

    // Quote, backslash, newline, and a control character without a short form.
    assert_eq!(
        error_msg_line("q\"b\\x\u{a}c\u{1}"),
        r#"{"type":"error","msg":"q\"b\\x\nc\u0001"}"#
    );
}
/// Every string that goes into a line has to survive being hostile.
#[test]
fn every_emitted_string_survives_hostile_content() {
    let nasty = "he said \"stop\"\n\tand \\ left\u{1}";
    // Every builder that carries text this process did not author: device
    // messages, status words, the station name, an echoed input line.
    for (label, line) in [
        ("error_read", error_read_line(nasty, nasty)),
        ("error_msg", error_msg_line(nasty)),
        ("bad_command", bad_command_line(nasty, nasty)),
        ("warning", warning_line(nasty, nasty)),
        ("hello", hello_line(nasty, true, 30, false, 6)),
        ("read_error", read_error_line(1, 2, nasty, nasty)),
        ("transport_error", transport_error_line(1, 2, nasty)),
        ("refused_setup", refused_setup_line(nasty)),
        ("refused_needs_cyclic", refused_needs_cyclic_line(nasty)),
        ("refused_cmd", refused_cmd_line(nasty, 6, nasty)),
        ("ar_lost", ar_lost_line(2, nasty)),
        ("data", data_line(1, 2, 3, nasty)),
        ("cyclic", cyclic_line(1, 2, 3, 4, nasty)),
        ("current_output", current_output_line(2, nasty)),
        ("output", output_line(4, false, nasty)),
        ("safe_shutdown", safe_shutdown_line(nasty, true, nasty)),
        ("alarm", alarm_line(nasty, nasty)),
    ] {
        // The consumer parses these with serde_json, so valid JSON is the
        // contract, not merely "looks about right".
        let v: serde_json::Value = serde_json::from_str(&line)
            .unwrap_or_else(|e| panic!("{label} is not valid JSON: {e}\n{line}"));
        assert!(v.get("type").is_some(), "{label} lost its type field");
    }

    // And the escaping round-trips: what goes in comes back out.
    let v: serde_json::Value = serde_json::from_str(&alarm_line(nasty, "00ff")).unwrap();
    assert_eq!(v["shutdown_reason"].as_str(), Some(nasty));
    assert_eq!(v["readback_hex"].as_str(), Some("00ff"));
}

#[test]
fn numbers_keep_their_sign_and_size() {
    assert_eq!(stopped_exit_line(-1), r#"{"type":"stopped","exit":-1}"#);
    assert_eq!(
        stopped_exit_line(i32::MIN),
        r#"{"type":"stopped","exit":-2147483648}"#
    );
    assert_eq!(
        pong_line(u64::MAX, u128::MAX),
        r#"{"id":18446744073709551615,"type":"pong","host_us":340282366920938463463374607431768211455}"#
    );
}

#[test]
fn a_line_stays_one_line() {
    let every: String = (0u32..0x300).filter_map(char::from_u32).collect();
    let line = bad_command_line(&every, &every);
    assert!(line.chars().all(|c| c >= ' '));
    let v: serde_json::Value = serde_json::from_str(&line).unwrap();
    assert_eq!(v["line"].as_str(), Some(every.as_str()));
}
