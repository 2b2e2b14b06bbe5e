//! Connections over a scripted transport: the exact requests they emit, and
//! what they make of device-format responses.

use std::collections::VecDeque;
use std::sync::{Arc, Mutex};

use profinet_rs::blocks::block_header;
use profinet_rs::connect::{
    build_connect_request, build_device_access_connect_request, IocrSetup,
};
use profinet_rs::connection::{next_rpc_response, NetModel, RpcConn, RpcTransport};
use profinet_rs::gsdml::IoSlot;
use profinet_rs::replay::ReplayTransport;
use profinet_rs::rpc;
use profinet_rs::transport::{
    ccontrol_response, drep_normalized_uuid, extract_app_ready, iod_control_block,
    parse_ccontrol_request, parse_iod_header, parse_nrd, parse_rpc_header, release_request,
    BLOCK_IOD_CONTROL_APP_READY_REQ, BLOCK_IOD_CONTROL_PRM_END_REQ,
    CONTROL_CMD_APPLICATION_READY, CONTROL_CMD_DONE, CONTROL_CMD_PRM_END, IOCR_BLOCK_RES,
    PACKET_TYPE_FAULT, PACKET_TYPE_REJECT, PACKET_TYPE_REQUEST, PACKET_TYPE_RESPONSE,
};

const DEVICE_ID: u16 = 0x0007;
const VENDOR_ID: u16 = 0x0abc;

// --- device-format datagram builders (real wire bytes) -------------------

/// An 80-byte big-endian DCE/RPC datagram with the given packet type,
/// operation number and body.
fn rpc_datagram(packet_type: u8, opnum: u16, body: &[u8]) -> Vec<u8> {
    let mut d = vec![0x04, packet_type, 0x00, 0x00, 0x00, 0x00, 0x00, 0x00];
    d.extend_from_slice(&[0u8; 48]); // object/interface/activity UUIDs
    d.extend_from_slice(&0u32.to_be_bytes()); // server_boot_time
    d.extend_from_slice(&1u32.to_be_bytes()); // interface_version
    d.extend_from_slice(&0u32.to_be_bytes()); // sequence_number
    d.extend_from_slice(&opnum.to_be_bytes()); // operation_number
    d.extend_from_slice(&0xFFFFu16.to_be_bytes()); // interface_hint
    d.extend_from_slice(&0xFFFFu16.to_be_bytes()); // activity_hint
    d.extend_from_slice(&(body.len() as u16).to_be_bytes()); // length_of_body
    d.extend_from_slice(&0u16.to_be_bytes()); // fragment_number
    d.push(0); // auth_protocol
    d.push(0); // serial_low
    d.extend_from_slice(body);
    d
}

fn rpc_response(body: &[u8]) -> Vec<u8> {
    rpc_datagram(PACKET_TYPE_RESPONSE, 0, body)
}

/// A 20-byte big-endian NRD header (args_status = PNIO status on responses)
/// followed by the argument body.
fn nrd_be(args_status: u32, body: &[u8]) -> Vec<u8> {
    let len = body.len() as u32;
    let mut n = Vec::new();
    n.extend_from_slice(&args_status.to_be_bytes());
    n.extend_from_slice(&len.to_be_bytes()); // args_length
    n.extend_from_slice(&len.to_be_bytes()); // maximum_count
    n.extend_from_slice(&0u32.to_be_bytes()); // offset
    n.extend_from_slice(&len.to_be_bytes()); // actual_count
    n.extend_from_slice(body);
    n
}

fn iocr_block_res(iocr_type: u16, frame_id: u16) -> Vec<u8> {
    let mut b = block_header(IOCR_BLOCK_RES, 8, 1, 0);
    b.extend_from_slice(&iocr_type.to_be_bytes());
    b.extend_from_slice(&1u16.to_be_bytes()); // iocr_reference
    b.extend_from_slice(&frame_id.to_be_bytes());
    b
}

/// A 64-byte IOD response record header (fields irrelevant to the parser)
/// carrying `record` as its payload.
fn iod_record(record: &[u8]) -> Vec<u8> {
    let mut d = vec![0u8; 64];
    d[36..40].copy_from_slice(&(record.len() as u32).to_be_bytes()); // length
    d.extend_from_slice(record);
    d
}

/// A device-initiated CControl ApplicationReady REQUEST datagram.
fn app_ready_request(ar_uuid: &[u8; 16], session_key: u16) -> Vec<u8> {
    let block = iod_control_block(
        BLOCK_IOD_CONTROL_APP_READY_REQ,
        ar_uuid,
        session_key,
        CONTROL_CMD_APPLICATION_READY,
    );
    rpc_datagram(PACKET_TYPE_REQUEST, rpc::CONTROL, &nrd_be(0, &block))
}

// --- scripted transport ----------------------------------------------------

#[derive(Debug, Default)]
struct ScriptState {
    sent: Vec<Vec<u8>>,
    responses: VecDeque<Vec<u8>>,
    ccontrol: VecDeque<Vec<u8>>,
    ccontrol_replies: Vec<Vec<u8>>,
}

#[derive(Debug, Default)]
struct ScriptedTransport {
    state: Arc<Mutex<ScriptState>>,
}

impl RpcTransport for ScriptedTransport {
    fn model(&self) -> NetModel {
        unreachable!("the model has no value at run time")
    }
    fn send_request(&mut self, data: &[u8], _timeout_ms: u64) -> Result<(), String> {
        self.state.lock().unwrap().sent.push(data.to_vec());
        Ok(())
    }
    fn recv_response(&mut self) -> Result<Option<Vec<u8>>, String> {
        let mut st = self.state.lock().unwrap();
        let Some(mut resp) = st.responses.pop_front() else {
            return Ok(None);
        };
        // A device echoes the request's activity UUID (offset 40) and sequence
        // number (offset 64); the connection's UUID is random, so a canned
        // response is patched to the last request.
        if let Some(req) = st.sent.last() {
            if resp.len() >= 68 && req.len() >= 68 {
                resp[40..56].copy_from_slice(&req[40..56]);
                resp[64..68].copy_from_slice(&req[64..68]);
            }
        }
        Ok(Some(resp))
    }
    fn await_ccontrol(&mut self, _timeout_ms: u64) {}
    fn recv_ccontrol(&mut self) -> Result<Option<Vec<u8>>, String> {
        Ok(self.state.lock().unwrap().ccontrol.pop_front())
    }
    fn reply_ccontrol(&mut self, data: &[u8]) -> Result<(), String> {
        self.state
            .lock()
            .unwrap()
            .ccontrol_replies
            .push(data.to_vec());
        Ok(())
    }
    fn peer(&self) -> String {
        "scripted-device".to_string()
    }
}

fn scripted_conn() -> (RpcConn<ScriptedTransport>, Arc<Mutex<ScriptState>>) {
    let transport = ScriptedTransport::default();
    let state = Arc::clone(&transport.state);
    let conn =
        RpcConn::with_transport(transport, DEVICE_ID, VENDOR_ID, 50).expect("scripted conn");
    (conn, state)
}

/// Queue a raw response datagram for the next `recv_response`.
fn queue(state: &Arc<Mutex<ScriptState>>, datagram: Vec<u8>) {
    state.lock().unwrap().responses.push_back(datagram);
}

/// Queue an RPC response wrapping an NRD with the given PNIO status + body.
fn queue_status(state: &Arc<Mutex<ScriptState>>, status: u32, body: &[u8]) {
    queue(state, rpc_response(&nrd_be(status, body)));
}

/// Queue a successful RPC response wrapping `body` (PNIO status 0).
fn queue_ok(state: &Arc<Mutex<ScriptState>>, body: &[u8]) {
    queue_status(state, 0, body);
}

/// Queue a device-initiated CControl datagram for the next `recv_ccontrol`.
fn queue_ccontrol(state: &Arc<Mutex<ScriptState>>, datagram: Vec<u8>) {
    state.lock().unwrap().ccontrol.push_back(datagram);
}

fn sample_setup() -> IocrSetup {
    IocrSetup {
        io_slots: vec![IoSlot {
            slot: 1,
            subslot: 1,
            module_ident: 0x0000_0002,
            submodule_ident: 0x0000_0001,
            input_length: 40,
            output_length: 1,
        }],
        send_clock_factor: 32,
        reduction_ratio: 128,
        watchdog_factor: 6,
        data_hold_factor: 6,
    }
}

fn connect_ok(conn: &mut RpcConn<ScriptedTransport>, state: &Arc<Mutex<ScriptState>>) {
    let body = [iocr_block_res(1, 0xC001), iocr_block_res(2, 0xC000)].concat();
    queue_ok(state, &body);
    conn.connect(&[0u8; 6], b"tp", &sample_setup()).unwrap();
}

/// A big-endian request and a little-endian response carry the same activity
/// UUID, with the bytes of its first three fields in opposite order.
const REQ_UUID_BE: [u8; 16] = [
    0x11, 0xb8, 0xbe, 0xab, 0xc8, 0x57, 0xca, 0xbb, 0x64, 0xf5, 0x01, 0xde, 0xdc, 0x33, 0x5b,
    0x4e,
];
const RESP_UUID_LE: [u8; 16] = [
    0xab, 0xbe, 0xb8, 0x11, 0x57, 0xc8, 0xbb, 0xca, 0x64, 0xf5, 0x01, 0xde, 0xdc, 0x33, 0x5b,
    0x4e,
];

#[test]
fn next_rpc_response_skips_foreign_and_stale_responses() {
    // A valid RESPONSE datagram with a patched activity UUID (offset 40) +
    // sequence number (offset 64).
    let with = |uuid: [u8; 16], seq: u32| {
        let mut d = rpc_response(&nrd_be(0, &[0xAA; 4]));
        d[40..56].copy_from_slice(&uuid);
        d[64..68].copy_from_slice(&seq.to_be_bytes()); // rpc_datagram DREP is big-endian
        d
    };
    let expected = [0xABu8; 16];
    let foreign = with([0xCD; 16], 42); // another controller / spoof
    let stale = with(expected, 41); // our uuid, previous request's seq
    let ours = with(expected, 42);
    let mut q = ReplayTransport::new("device");
    q.push_response(Ok(Some(foreign)));
    q.push_response(Ok(Some(stale)));
    q.push_response(Ok(Some(ours)));
    let resp = next_rpc_response(&mut q, &expected, 42)
    .expect("should skip the two non-matching and return ours");
    assert_eq!(resp.activity_uuid, expected);
    assert_eq!(resp.sequence_number, 42);
}

/// A connection can move into a worker thread.
#[test]
fn rpc_conn_stays_send() {
    fn assert_send<T: Send>() {}
    assert_send::<RpcConn<ScriptedTransport>>();
    assert_send::<RpcConn<ReplayTransport>>();
}

#[test]
fn connect_builds_exact_request_and_parses_frame_ids() {
    let (mut conn, state) = scripted_conn();
    let body = [iocr_block_res(1, 0xC001), iocr_block_res(2, 0xC000)].concat();
    queue_ok(&state, &body);

    let cm_mac = [0x00, 0x11, 0x22, 0x33, 0x44, 0x55];
    let setup = sample_setup();
    let result = conn.connect(&cm_mac, b"tp", &setup).expect("connect");

    assert_eq!(result.input_frame_id, 0xC001);
    assert_eq!(result.output_frame_id, 0xC000);
    assert!(result.has_cyclic);
    assert_eq!(conn.input_frame_id, 0xC001);
    assert!(conn.connected);

    // The emitted request is byte-exact the connect builder's output.
    let expected = build_connect_request(
        &conn.object_uuid,
        &rpc::IFACE_UUID_DEVICE,
        &conn.activity_uuid,
        &conn.ar_uuid,
        conn.session_key,
        &cm_mac,
        b"tp",
        &setup,
        0,
    );
    assert_eq!(state.lock().unwrap().sent, vec![expected]);
}

#[test]
fn connect_rejected_on_nonzero_pnio_status() {
    let (mut conn, state) = scripted_conn();
    queue_status(&state, 0x00B0_80DE, &[]);
    let err = conn.connect(&[0u8; 6], b"tp", &sample_setup()).unwrap_err();
    assert!(err.contains("Failed to connect"), "got {err}");
    assert!(!conn.connected);
}

#[test]
fn connect_device_access_builds_exact_request() {
    let (mut conn, state) = scripted_conn();
    queue_ok(&state, &[]);
    let cm_mac = [0x0A; 6];
    conn.connect_device_access(&cm_mac, b"tp")
        .expect("da connect");
    assert!(conn.connected);
    let expected = build_device_access_connect_request(
        &conn.object_uuid,
        &rpc::IFACE_UUID_DEVICE,
        &conn.activity_uuid,
        &conn.ar_uuid,
        conn.session_key,
        &cm_mac,
        b"tp",
        0,
    );
    assert_eq!(state.lock().unwrap().sent, vec![expected]);
}

#[test]
fn read_raw_returns_record_and_builds_exact_request() {
    let (mut conn, state) = scripted_conn();
    let record = vec![0xDE, 0xAD, 0xBE, 0xEF];
    queue_ok(&state, &iod_record(&record));

    let got = conn.read_raw(4660, 1, 1, 4).expect("read");
    assert_eq!(got, record);

    let expected = rpc::read_record_request(
        &conn.object_uuid,
        &rpc::IFACE_UUID_DEVICE,
        &conn.activity_uuid,
        &conn.ar_uuid,
        0,
        0,
        1,
        1,
        4660,
        4,
    );
    assert_eq!(state.lock().unwrap().sent, vec![expected]);
}

#[test]
fn read_raw_surfaces_pnio_error() {
    let (mut conn, state) = scripted_conn();
    queue_status(&state, 0x00B0_80DE, &[]);
    let err = conn.read_raw(1001, 2, 1, 4).unwrap_err();
    assert!(err.contains("PNIO error status"), "got {err}");
}

#[test]
fn read_raw_error_keeps_hex_and_appends_decode() {
    // The error string keeps the raw hexadecimal status, which callers match,
    // and appends the decoded message for humans.
    let (mut conn, state) = scripted_conn();
    queue_status(&state, 0xDE80_B000, &[]);
    let err = conn.read_raw(2001, 2, 1, 4).unwrap_err();
    assert!(err.contains("DE80B000"), "raw hex lost: {err}");
    assert!(err.contains("Index not supported"), "decode missing: {err}");
}

#[test]
fn drep_normalized_uuid_canonicalizes_opposite_dreps() {
    // Both DREPs normalize to the same canonical (big-endian) UUID.
    assert_eq!(drep_normalized_uuid(&REQ_UUID_BE, false), REQ_UUID_BE);
    assert_eq!(drep_normalized_uuid(&RESP_UUID_LE, true), REQ_UUID_BE);
    // The trailing clock_seq+node bytes are never swapped.
    assert_eq!(
        drep_normalized_uuid(&RESP_UUID_LE, true)[8..],
        RESP_UUID_LE[8..]
    );
}

#[test]
fn next_rpc_response_accepts_opposite_drep_uuid() {
    // Build an LE-DREP response frame carrying the device's byte-swapped
    // UUID; the expected UUID is the normalized (BE) form of our request.
    let mut resp = rpc_datagram(PACKET_TYPE_RESPONSE, 0, &[]);
    resp[4] = 0x10; // little-endian DREP, as some devices answer
    resp[40..56].copy_from_slice(&RESP_UUID_LE);
    let mut packets = ReplayTransport::new("device");
    packets.push_response(Ok(Some(resp)));
    let got = next_rpc_response(&mut packets, &REQ_UUID_BE, 0)
    .expect("device response accepted despite opposite DREP");
    assert_eq!(got.packet_type, PACKET_TYPE_RESPONSE);
}

#[test]
fn write_ok_and_builds_exact_request() {
    let (mut conn, state) = scripted_conn();
    queue_ok(&state, &[]);
    let data = [0x01, 0x02, 0x03, 0x04];
    conn.write(6001, 2, 1, &data).expect("write");
    let expected = rpc::write_record_request(
        &conn.object_uuid,
        &rpc::IFACE_UUID_DEVICE,
        &conn.activity_uuid,
        &conn.ar_uuid,
        0,
        0,
        2,
        1,
        6001,
        &data,
    );
    assert_eq!(state.lock().unwrap().sent, vec![expected]);
}

#[test]
fn write_multiple_empty_is_noop() {
    let (mut conn, state) = scripted_conn();
    assert_eq!(conn.write_multiple(&[]).unwrap(), vec![]);
    assert!(state.lock().unwrap().sent.is_empty()); // nothing sent
}

#[test]
fn write_multiple_parses_results() {
    // One IODWriteMultipleRes entry (0x8008, status = success) inside the
    // outer record.
    let mut entry = vec![0u8; 56];
    entry[0..2].copy_from_slice(&0x8008u16.to_be_bytes()); // IODWriteRes header
    entry[2..4].copy_from_slice(&52u16.to_be_bytes()); // block_length -> size 56
    entry[44..48].copy_from_slice(&0u32.to_be_bytes()); // status = OK
    let record = iod_record(&entry);

    let (mut conn, state) = scripted_conn();
    queue_ok(&state, &record);
    let data = [0xAA];
    let results = conn
        .write_multiple(&[(6001, 2, 1, &data)])
        .expect("write_multiple");
    assert_eq!(results.len(), 1);
    assert!(results[0].success());
}

#[test]
fn read_all_diagnosis_collects_nonempty() {
    // A single ChannelDiagnosis block answered for the first index; the
    // other indices time out and are swallowed (empty), so only one entry
    // survives.
    let diag = b"\x00\x10\x00\x08\x01\x00\x00\x01\x00\x00\x80\x00\x00\x01";
    let (mut conn, state) = scripted_conn();
    queue_ok(&state, &iod_record(diag));
    let all = conn.read_all_diagnosis();
    assert_eq!(all.len(), 1);
    assert!(all.contains_key(&0x800A));
}

#[test]
fn read_diagnosis_swallows_read_error() {
    // No queued response -> read_raw times out -> empty DiagnosisData.
    let (mut conn, _state) = scripted_conn();
    let diag = conn.read_diagnosis(0, 0, 0x800A);
    assert!(diag.entries.is_empty());
    assert_eq!(diag.slot, 0);
}

#[test]
fn send_control_requires_connection() {
    let (mut conn, _state) = scripted_conn();
    let err = conn.send_control(BLOCK_IOD_CONTROL_PRM_END_REQ, CONTROL_CMD_PRM_END, &[]);
    assert!(err.unwrap_err().contains("Not connected"));
    assert!(conn.prm_end().unwrap_err().contains("PrmEnd failed"));
}

#[test]
fn prm_end_after_connect_succeeds() {
    let (mut conn, state) = scripted_conn();
    let body = [iocr_block_res(1, 0xC001), iocr_block_res(2, 0xC000)].concat();
    queue_ok(&state, &body);
    conn.connect(&[0u8; 6], b"tp", &sample_setup()).unwrap();
    queue_ok(&state, &[]);
    conn.prm_end().expect("prm_end");

    // Two datagrams sent: connect, then a byte-exact PrmEnd CONTROL request
    // (seq 1, opnum CONTROL, an IODControlReq 0x0110 / command PrmEnd 0x0001
    // wrapped in the request NRD).
    let sent = state.lock().unwrap().sent.clone();
    assert_eq!(sent.len(), 2);
    let expected = rpc::rpc_request(
        &conn.object_uuid,
        &rpc::IFACE_UUID_DEVICE,
        &conn.activity_uuid,
        1,
        rpc::CONTROL,
        &rpc::nrd(&iod_control_block(
            BLOCK_IOD_CONTROL_PRM_END_REQ,
            &conn.ar_uuid,
            conn.session_key,
            CONTROL_CMD_PRM_END,
        )),
    );
    assert_eq!(sent[1], expected);
}

#[test]
fn prm_begin_is_a_control_request() {
    let (mut conn, state) = scripted_conn();
    assert!(conn.prm_begin().unwrap_err().starts_with("PrmBegin failed: "));
    connect_ok(&mut conn, &state);
    let before = state.lock().unwrap().sent.len();
    queue_ok(&state, &[1, 2, 3]);
    assert_eq!(conn.prm_begin(), Ok(vec![1, 2, 3]));
    let sent = state.lock().unwrap().sent.clone();
    assert_eq!(sent.len(), before + 1);
    assert_eq!(&sent[before][100..102], &[0x01, 0x18]);
}

#[test]
fn a_recording_has_two_channels() {
    let mut q = ReplayTransport::new("device");
    q.push_control(Ok(Some(vec![7])));
    assert_eq!(q.recv_response(), Ok(None));
    assert_eq!(q.recv_ccontrol(), Ok(Some(vec![7])));
    assert_eq!(q.recv_ccontrol(), Ok(None));
}

#[test]
fn send_receive_skips_echoed_request() {
    let (mut conn, state) = scripted_conn();
    // An echoed REQUEST is skipped; the following RESPONSE is used.
    queue(&state, rpc_datagram(PACKET_TYPE_REQUEST, 0, &[]));
    let record = vec![0xAA, 0xBB];
    queue_ok(&state, &iod_record(&record));
    assert_eq!(conn.read_raw(1, 0, 1, 2).unwrap(), record);
}

#[test]
fn send_receive_fault_is_error() {
    let (mut conn, state) = scripted_conn();
    queue(&state, rpc_datagram(PACKET_TYPE_FAULT, 0x1234, &[]));
    assert!(conn.read_raw(1, 0, 1, 2).unwrap_err().contains("RPC fault"));
}

#[test]
fn send_receive_reject_is_error() {
    let (mut conn, state) = scripted_conn();
    queue(&state, rpc_datagram(PACKET_TYPE_REJECT, 0, &[]));
    assert!(conn.read_raw(1, 0, 1, 2).unwrap_err().contains("rejected"));
}

#[test]
fn send_receive_timeout_is_error() {
    let (mut conn, _state) = scripted_conn();
    assert!(conn
        .read_raw(1, 0, 1, 2)
        .unwrap_err()
        .contains("No response"));
}

#[test]
fn application_ready_confirms_with_exact_response() {
    let (mut conn, state) = scripted_conn();
    connect_ok(&mut conn, &state);
    let req = app_ready_request(&conn.ar_uuid, conn.session_key);
    queue_ccontrol(&state, req.clone());

    let nrd_body = conn
        .application_ready(50)
        .expect("app ready");
    assert!(!nrd_body.is_empty());

    // The confirmation is byte-exact ccontrol_response for the request.
    let hdr = parse_rpc_header(&req).unwrap();
    let expected = ccontrol_response(&hdr, &conn.ar_uuid, conn.session_key);
    assert_eq!(state.lock().unwrap().ccontrol_replies, vec![expected]);
}

#[test]
fn application_ready_skips_non_appready_datagram() {
    let (mut conn, state) = scripted_conn();
    connect_ok(&mut conn, &state);
    // A stray RESPONSE on the CControl channel is ignored, then the real
    // ApplicationReady is confirmed.
    queue_ccontrol(&state, rpc_response(&nrd_be(0, &[])));
    queue_ccontrol(&state, app_ready_request(&conn.ar_uuid, conn.session_key));
    conn.application_ready(50)
        .expect("app ready");
    assert_eq!(state.lock().unwrap().ccontrol_replies.len(), 1);
}

#[test]
fn application_ready_requires_connection() {
    let (mut conn, _state) = scripted_conn();
    assert!(conn
        .application_ready(10)
        .unwrap_err()
        .contains("Not connected"));
}

#[test]
fn application_ready_times_out() {
    let (mut conn, state) = scripted_conn();
    connect_ok(&mut conn, &state);
    assert!(conn
        .application_ready(10)
        .unwrap_err()
        .contains("No ApplicationReady"));
}

#[test]
fn release_sends_exact_frame_and_clears_state() {
    let (mut conn, state) = scripted_conn();
    connect_ok(&mut conn, &state);
    conn.release();
    assert!(!conn.connected);
    // The last datagram sent is a byte-exact release request (seq 1).
    let expected = release_request(
        &conn.object_uuid,
        &rpc::IFACE_UUID_DEVICE,
        &conn.activity_uuid,
        &conn.ar_uuid,
        conn.session_key,
        1,
    );
    assert_eq!(state.lock().unwrap().sent.last().unwrap(), &expected);
}

#[test]
fn release_before_connect_is_noop() {
    let (mut conn, state) = scripted_conn();
    conn.release();
    assert!(state.lock().unwrap().sent.is_empty());
}

/// What sends nothing needs no sequence number.
#[test]
fn a_full_counter_stops_only_what_is_sent() {
    let (mut conn, state) = scripted_conn();
    conn.sequence_number = u32::MAX;
    conn.release();
    assert_eq!(conn.prm_end(), Err("PrmEnd failed: Not connected".to_string()));
    assert_eq!(conn.prm_begin(), Err("PrmBegin failed: Not connected".to_string()));
    assert_eq!(conn.write_multiple(&[]), Ok(Vec::new()));
    assert_eq!(conn.sequence_number, u32::MAX);
    assert!(state.lock().unwrap().sent.is_empty());
}

#[test]
fn parse_ccontrol_request_rejects_non_request_and_short() {
    // A RESPONSE packet is not a CControl request.
    let resp = parse_rpc_header(&rpc_response(&nrd_be(0, &[]))).unwrap();
    assert!(parse_ccontrol_request(&resp)
        .unwrap_err()
        .contains("Not a REQUEST"));

    // A REQUEST with a non-CONTROL opnum is rejected.
    let wrong_op = parse_rpc_header(&rpc_datagram(PACKET_TYPE_REQUEST, 0x00, &[])).unwrap();
    assert!(parse_ccontrol_request(&wrong_op)
        .unwrap_err()
        .contains("Not CONTROL"));

    // A CONTROL request with a < 32-byte NRD payload is too short.
    let short = parse_rpc_header(&rpc_datagram(
        PACKET_TYPE_REQUEST,
        rpc::CONTROL,
        &nrd_be(0, &[1, 2]),
    ))
    .unwrap();
    assert!(parse_ccontrol_request(&short)
        .unwrap_err()
        .contains("too short"));
}

#[test]
fn nrd_and_iod_headers_reject_short_buffers() {
    assert!(parse_nrd(&[0u8; 19], false)
        .unwrap_err()
        .contains("too short"));
    assert!(parse_iod_header(&[0u8; 63])
        .unwrap_err()
        .contains("too short"));
}

#[test]
fn extract_app_ready_ignores_wrong_block_and_response() {
    // A RESPONSE datagram yields no ApplicationReady.
    assert!(extract_app_ready(&rpc_response(&nrd_be(0, &[]))).is_none());
    // A CONTROL request whose block is not 0x0112 is ignored.
    let block = iod_control_block(
        BLOCK_IOD_CONTROL_PRM_END_REQ,
        &[0u8; 16],
        1,
        CONTROL_CMD_DONE,
    );
    let wrong = rpc_datagram(PACKET_TYPE_REQUEST, rpc::CONTROL, &nrd_be(0, &block));
    assert!(extract_app_ready(&wrong).is_none());
}
