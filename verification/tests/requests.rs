//! The lines that a session reads.

use profinet_rs::control::ControlCmd;
use profinet_rs::requests::{
    parse_control_cmd, parse_serve_cmd, parse_serve_line, ServeCmd, ServeLine,
};

#[test]
fn parse_control_cmd_vocabulary() {
    assert_eq!(
        parse_control_cmd("{\"cmd\":\"set_level\",\"mask\":1,\"on\":true}").unwrap(),
        ControlCmd::SetLevel { mask: 1, on: true }
    );
    assert_eq!(
        parse_control_cmd("{\"cmd\":\"set_level\",\"mask\":1,\"on\":false}").unwrap(),
        ControlCmd::SetLevel { mask: 1, on: false }
    );
    // Masks may be written as hex, which is how anyone thinks about bits.
    assert_eq!(
        parse_control_cmd("{\"cmd\":\"pulse\",\"mask\":\"0x04\"}").unwrap(),
        ControlCmd::Pulse { mask: 4 }
    );
    // Field order is not significant.
    assert_eq!(
        parse_control_cmd("{ \"on\" : true , \"mask\":2, \"cmd\" : \"set_level\" }").unwrap(),
        ControlCmd::SetLevel { mask: 2, on: true }
    );
    assert_eq!(
        parse_control_cmd("{\"cmd\":\"pulse\",\"mask\":2}").unwrap(),
        ControlCmd::Pulse { mask: 2 }
    );
    assert_eq!(
        parse_control_cmd("{\"cmd\":\"keepalive\"}").unwrap(),
        ControlCmd::Keepalive
    );
    assert_eq!(
        parse_control_cmd("{\"cmd\":\"quit\"}").unwrap(),
        ControlCmd::Quit
    );
}

#[test]
fn parse_control_cmd_rejects_bad_lines() {
    assert!(parse_control_cmd("{\"cmd\":\"set_level\",\"mask\":1}").is_err());
    assert!(parse_control_cmd("{\"cmd\":\"set_level\",\"on\":true}").is_err());
    assert!(parse_control_cmd("{\"cmd\":\"set_level\",\"mask\":1,\"on\":1}").is_err());
    assert!(parse_control_cmd("{\"cmd\":\"pulse\"}").is_err());
    assert!(parse_control_cmd("{\"cmd\":\"open_sesame\"}").is_err());
    assert!(parse_control_cmd("not json").is_err());
    assert!(parse_control_cmd("").is_err());
}

#[test]
fn serve_parses_the_request_vocabulary() {
    assert_eq!(
        parse_serve_cmd(r#"{"id":1,"cmd":"read","index":1234,"slot":2,"subslot":1,"len":24}"#)
            .unwrap(),
        ServeCmd::Read {
            id: 1,
            index: 1234,
            slot: 2,
            subslot: 1,
            len: 24
        }
    );
    // Indices read far better as hex, so both forms are accepted.
    assert_eq!(
        parse_serve_cmd(
            r#"{"id":2,"cmd":"read","index":"0x8028","slot":1,"subslot":1,"len":128}"#
        )
        .unwrap(),
        ServeCmd::Read {
            id: 2,
            index: 0x8028,
            slot: 1,
            subslot: 1,
            len: 128
        }
    );
    assert_eq!(
        parse_serve_cmd(
            r#"{"id":3,"cmd":"write","index":5000,"slot":2,"subslot":1,"hex":"01ff"}"#
        )
        .unwrap(),
        ServeCmd::Write {
            id: 3,
            index: 5000,
            slot: 2,
            subslot: 1,
            data: vec![0x01, 0xff]
        }
    );
    assert_eq!(
        parse_serve_cmd(r#"{"id":4,"cmd":"ping"}"#).unwrap(),
        ServeCmd::Ping { id: 4 }
    );
    assert_eq!(
        parse_serve_cmd(r#"{"id":5,"cmd":"quit"}"#).unwrap(),
        ServeCmd::Quit { id: 5 }
    );
}

#[test]
fn serve_requires_an_id_on_every_request() {
    // Responses share stdout with unsolicited lines and a retried request
    // can answer late, so a request without an id could not be matched to
    // its answer. Refusing beats guessing.
    assert!(
        parse_serve_cmd(r#"{"cmd":"read","index":1,"slot":1,"subslot":1,"len":4}"#).is_err()
    );
    assert!(parse_serve_cmd(r#"{"cmd":"ping"}"#).is_err());
}

#[test]
fn serve_routes_the_two_vocabularies_apart() {
    // Control commands never carried an id and must not start needing one.
    assert_eq!(
        parse_serve_line(r#"{"cmd":"set_level","mask":1,"on":true}"#).unwrap(),
        ServeLine::Control(ControlCmd::SetLevel { mask: 1, on: true })
    );
    assert_eq!(
        parse_serve_line(r#"{"cmd":"pulse","mask":"0x02"}"#).unwrap(),
        ServeLine::Control(ControlCmd::Pulse { mask: 2 })
    );
    assert_eq!(
        parse_serve_line(r#"{"cmd":"keepalive"}"#).unwrap(),
        ServeLine::Control(ControlCmd::Keepalive)
    );
    // RPC requests keep their mandatory id.
    assert_eq!(
        parse_serve_line(r#"{"id":7,"cmd":"ping"}"#).unwrap(),
        ServeLine::Rpc(ServeCmd::Ping { id: 7 })
    );
    assert!(
        parse_serve_line(r#"{"cmd":"read","index":1,"slot":1,"subslot":1,"len":4}"#).is_err()
    );
}

#[test]
fn serve_quit_belongs_to_whichever_vocabulary_sent_it() {
    // `quit` exists in both. Only the id-carrying form owes a `bye` that
    // carries it back, so routing has to split on the id, not the verb.
    assert_eq!(
        parse_serve_line(r#"{"id":9,"cmd":"quit"}"#).unwrap(),
        ServeLine::Rpc(ServeCmd::Quit { id: 9 })
    );
    assert_eq!(
        parse_serve_line(r#"{"cmd":"quit"}"#).unwrap(),
        ServeLine::Control(ControlCmd::Quit)
    );
}

#[test]
fn serve_rejects_incomplete_and_malformed_requests() {
    assert!(
        parse_serve_cmd(r#"{"id":1,"cmd":"read","index":1,"slot":1,"subslot":1}"#).is_err()
    );
    assert!(
        parse_serve_cmd(r#"{"id":1,"cmd":"write","index":1,"slot":1,"subslot":1}"#).is_err()
    );
    // An index outside u16 is not a valid record index.
    assert!(parse_serve_cmd(
        r#"{"id":1,"cmd":"read","index":70000,"slot":1,"subslot":1,"len":4}"#
    )
    .is_err());
    assert!(parse_serve_cmd(r#"{"id":1,"cmd":"open_sesame"}"#).is_err());
    assert!(parse_serve_cmd("not json").is_err());
}

#[test]
fn messages_name_what_is_missing() {
    assert_eq!(parse_serve_cmd("{}").unwrap_err(), "missing \"id\" field");
    assert_eq!(parse_serve_cmd(r#"{"id":1}"#).unwrap_err(), "missing \"cmd\" field");
    assert_eq!(
        parse_serve_cmd(r#"{"id":1,"cmd":"read","index":70000}"#).unwrap_err(),
        "read needs \"index\" (0..=65535)"
    );
    assert_eq!(
        parse_serve_cmd(r#"{"id":1,"cmd":"read","index":1,"slot":1,"subslot":1}"#).unwrap_err(),
        "read needs \"len\""
    );
    assert_eq!(
        parse_serve_cmd(r#"{"id":1,"cmd":"write","index":1}"#).unwrap_err(),
        "write needs \"hex\""
    );
    assert_eq!(
        parse_serve_cmd(r#"{"id":1,"cmd":"write","hex":"0","index":1,"slot":1,"subslot":1}"#)
            .unwrap_err(),
        "odd-length hex string \"0\""
    );
    assert_eq!(
        parse_serve_cmd(r#"{"id":1,"cmd":"open"}"#).unwrap_err(),
        "unknown cmd \"open\""
    );
    assert_eq!(
        parse_control_cmd(r#"{"cmd":"set_level"}"#).unwrap_err(),
        "set_level needs \"mask\":<byte>"
    );
    assert_eq!(
        parse_control_cmd(r#"{"cmd":"set_level","mask":1}"#).unwrap_err(),
        "set_level needs \"on\":true|false"
    );
    assert_eq!(
        parse_control_cmd(r#"{"cmd":"pulse","mask":256}"#).unwrap_err(),
        "pulse needs \"mask\":<byte>"
    );
    assert_eq!(
        parse_control_cmd(r#"{"cmd":"x"}"#).unwrap_err(),
        "unknown cmd \"x\""
    );
}

#[test]
fn ids_come_back() {
    assert_eq!(parse_serve_cmd(r#"{"id":"0x10","cmd":"ping"}"#).unwrap().id(), 16);
    assert_eq!(
        parse_serve_cmd(r#"{"cmd":"quit" , "id" : 18446744073709551615}"#).unwrap().id(),
        u64::MAX
    );
}
