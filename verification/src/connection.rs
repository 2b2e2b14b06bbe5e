//! The connection to an IO device: requests and their matching responses over
//! a datagram transport, and the state of the AR.
//!
//! A transport is described by what it was given and what it will give: the
//! requests sent so far, and the datagrams, timeouts and failures still to
//! come. Every operation of a connection is a function of that description.

use vstd::prelude::*;
use vstd::slice::*;
use vstd::string::*;
use std::collections::BTreeMap;
use crate::blocks::{parse_write_multiple_response, write_results, MultiWrite, WriteMultipleResult};
use crate::bytes::{array16, be16, be16_at, be32, bytes_eq, push_all, read_be16};
use crate::connect::{
    build_connect_request, build_device_access_connect_request, connect_request_bytes,
    device_access_request_bytes, slots_fit, IocrSetup,
};
use crate::diagnosis::{
    diagnosis_entries, flat_entries_from, parse_diagnosis_block, parse_diagnosis_simple,
    DiagDataModel, DiagModel, DiagnosisData,
};
use crate::gsdml::DeviceSlot;
use crate::im::{
    device_slot_of, empty_pd, filter_topology, identified_slots, identified_version, insert16,
    parse_im0, parse_im1, parse_im2, parse_im3, parse_inm0_filter, parse_pd_real_data,
    parse_real_identification_data, pd_from, short_record_message, slot_models, topology, InM0,
    InM0FilterData, InM1, InM2, InM3, PdRealData, RealIdentificationData, SlotModel,
};
use crate::random::random_bytes;
use crate::rpc::{
    nrd, nrd_bytes, object_uuid, object_uuid_bytes, read_record_implicit_request,
    read_record_request, read_request_bytes, rpc_request, rpc_request_bytes, write_multiple_request,
    write_multiple_request_bytes, write_record_request, write_request_bytes, CONTROL,
    IFACE_UUID_DEVICE, IMPLICIT_READ, READ,
};
use crate::text::{begins_with, dec, push_dec};
use crate::transport::{
    app_ready_body, ccontrol_response, ccontrol_response_bytes, connect_outcome,
    control_block_bytes, drep_normalized_uuid, extract_app_ready, iod_control_block, normalized,
    parse_connect_response, parse_read_response, parse_rpc_header, parse_rpc_response,
    parse_status_response, read_outcome, release_request, release_request_bytes, response_of,
    rpc_of, status_outcome, ConnectResult, ParsedRpc, RpcModel, READ_LENGTH,
};

verus! {

/// What one wait for a datagram gives.
pub enum Incoming {
    Datagram(Seq<u8>),
    Timeout,
    Failure(Seq<char>),
}

/// What a transport was given and what it will give.
#[verifier::ext_equal]
pub struct NetModel {
    /// The peer, for messages.
    pub peer: Seq<char>,
    /// Requests sent, each with the time allowed for its response.
    pub sent: Seq<(Seq<u8>, u64)>,
    /// Whether the next requests fail to be sent; those behind them are sent.
    pub send_faults: Seq<Option<Seq<char>>>,
    /// What the next waits for a response give; those behind them time out.
    pub inbox: Seq<Incoming>,
    /// Times allowed for a control request of the device.
    pub waits: Seq<u64>,
    /// What the next waits for a control request give; those behind them time
    /// out.
    pub control_inbox: Seq<Incoming>,
    /// Confirmations sent to the device.
    pub replies: Seq<Seq<u8>>,
    /// Whether the next confirmations fail to be sent.
    pub reply_faults: Seq<Option<Seq<char>>>,
}

/// The next of a list of faults: none behind its end.
pub open spec fn next_fault(s: Seq<Option<Seq<char>>>) -> Option<Seq<char>> {
    if s.len() > 0 {
        s[0]
    } else {
        None
    }
}

/// A list without its first element.
pub open spec fn later_faults(s: Seq<Option<Seq<char>>>) -> Seq<Option<Seq<char>>> {
    if s.len() > 0 {
        s.skip(1)
    } else {
        s
    }
}

/// The next of a list of arrivals: a timeout behind its end.
pub open spec fn next_incoming(s: Seq<Incoming>) -> Incoming {
    if s.len() > 0 {
        s[0]
    } else {
        Incoming::Timeout
    }
}

/// A list without its first element.
pub open spec fn later_incoming(s: Seq<Incoming>) -> Seq<Incoming> {
    if s.len() > 0 {
        s.skip(1)
    } else {
        s
    }
}

/// A call succeeded or failed as foretold.
pub open spec fn is_fault(r: Result<(), String>, f: Option<Seq<char>>) -> bool {
    match f {
        None => r is Ok,
        Some(m) => r matches Err(e) && e@ == m,
    }
}

/// A wait gave what was foretold.
pub open spec fn is_incoming(r: Result<Option<Vec<u8>>, String>, i: Incoming) -> bool {
    match i {
        Incoming::Datagram(d) => r matches Ok(Some(v)) && v@ == d,
        Incoming::Timeout => r matches Ok(None),
        Incoming::Failure(m) => r matches Err(e) && e@ == m,
    }
}

impl NetModel {
    pub open spec fn after_send(self, data: Seq<u8>, timeout_ms: u64) -> NetModel {
        NetModel {
            sent: self.sent.push((data, timeout_ms)),
            send_faults: later_faults(self.send_faults),
            ..self
        }
    }

    pub open spec fn after_recv(self) -> NetModel {
        NetModel { inbox: later_incoming(self.inbox), ..self }
    }

    pub open spec fn after_wait(self, timeout_ms: u64) -> NetModel {
        NetModel { waits: self.waits.push(timeout_ms), ..self }
    }

    pub open spec fn after_control(self) -> NetModel {
        NetModel { control_inbox: later_incoming(self.control_inbox), ..self }
    }

    pub open spec fn after_reply(self, data: Seq<u8>) -> NetModel {
        NetModel {
            replies: self.replies.push(data),
            reply_faults: later_faults(self.reply_faults),
            ..self
        }
    }
}

/// The datagram transport under a connection: a UDP socket pair, UDP over raw
/// layer 2, or a recorded exchange. Requests with their responses and the
/// control requests that the device initiates are separate channels, because a
/// UDP transport listens for them on two sockets. A transport remembers where
/// the last control request came from and confirms it there.
pub trait RpcTransport {
    /// What the transport was given and what it will give.
    spec fn model(&self) -> NetModel;

    /// Send a request datagram to the device's RPC port. Its response is
    /// awaited for `timeout_ms` from now.
    fn send_request(&mut self, data: &[u8], timeout_ms: u64) -> (r: Result<(), String>)
        ensures
            final(self).model() == old(self).model().after_send(data@, timeout_ms),
            is_fault(r, next_fault(old(self).model().send_faults)),
    ;

    /// Receive one datagram on the request and response channel; None once the
    /// time allowed for the last request is over.
    fn recv_response(&mut self) -> (r: Result<Option<Vec<u8>>, String>)
        ensures
            final(self).model() == old(self).model().after_recv(),
            is_incoming(r, next_incoming(old(self).model().inbox)),
    ;

    /// Await a control request of the device for `timeout_ms` from now.
    fn await_ccontrol(&mut self, timeout_ms: u64)
        ensures
            final(self).model() == old(self).model().after_wait(timeout_ms),
    ;

    /// Receive one datagram on the control channel, remembering its source for
    /// [`RpcTransport::reply_ccontrol`]; None once the time is over.
    fn recv_ccontrol(&mut self) -> (r: Result<Option<Vec<u8>>, String>)
        ensures
            final(self).model() == old(self).model().after_control(),
            is_incoming(r, next_incoming(old(self).model().control_inbox)),
    ;

    /// Send a confirmation from port 34964 back to the source of the last
    /// datagram that [`RpcTransport::recv_ccontrol`] returned.
    fn reply_ccontrol(&mut self, data: &[u8]) -> (r: Result<(), String>)
        ensures
            final(self).model() == old(self).model().after_reply(data@),
            is_fault(r, next_fault(old(self).model().reply_faults)),
    ;

    /// Human-readable peer description for error messages.
    fn peer(&self) -> (r: String)
        ensures
            r@ == self.model().peer,
    ;
}

/// The message when no response came in time.
pub open spec fn no_response_message(peer: Seq<char>) -> Seq<char> {
    "No response from "@ + peer
}

/// The response among the arrivals, and the arrivals behind it: the first
/// response that carries the activity UUID and sequence number of the request.
/// Echoed requests and other responses are passed over; a timeout, a failure,
/// and a packet that is an error end the search.
pub open spec fn response_in(inbox: Seq<Incoming>, uuid: Seq<u8>, seq: u32, peer: Seq<char>) -> (
    Result<RpcModel, Seq<char>>,
    Seq<Incoming>,
)
    decreases inbox.len(),
{
    if inbox.len() == 0 {
        (Err(no_response_message(peer)), inbox)
    } else {
        let rest = inbox.skip(1);
        match inbox[0] {
            Incoming::Timeout => (Err(no_response_message(peer)), rest),
            Incoming::Failure(m) => (Err(m), rest),
            Incoming::Datagram(d) => match response_of(d) {
                Err(m) => (Err(m), rest),
                Ok(None) => response_in(rest, uuid, seq, peer),
                Ok(Some(h)) => if normalized(h.activity_uuid, h.is_little_endian) == uuid
                    && h.sequence_number == seq {
                    (Ok(h), rest)
                } else {
                    response_in(rest, uuid, seq, peer)
                },
            },
        }
    }
}

/// A parsed packet is the one foretold.
pub open spec fn is_rpc(r: Result<ParsedRpc, String>, m: Result<RpcModel, Seq<char>>) -> bool {
    match m {
        Ok(h) => r matches Ok(v) && v@ == h,
        Err(t) => r matches Err(e) && e@ == t,
    }
}

/// Bytes or a message are the ones foretold.
pub open spec fn is_bytes(r: Result<Vec<u8>, String>, m: Result<Seq<u8>, Seq<char>>) -> bool {
    match m {
        Ok(d) => r matches Ok(v) && v@ == d,
        Err(t) => r matches Err(e) && e@ == t,
    }
}

/// Success or a message is the one foretold.
pub open spec fn is_done(r: Result<(), String>, m: Result<(), Seq<char>>) -> bool {
    match m {
        Ok(_) => r is Ok,
        Err(t) => r matches Err(e) && e@ == t,
    }
}

fn no_response<T: RpcTransport>(transport: &T) -> (e: String)
    ensures
        e@ == no_response_message(transport.model().peer),
{
    let mut e = "No response from ".to_owned();
    let peer = transport.peer();
    e.append(peer.as_str());
    e
}

/// Keep receiving until the response of a request arrives, and validate it.
/// Only the response that carries our activity UUID and sequence number is
/// ours: a late answer to an earlier request, another controller's traffic and
/// a forged datagram are skipped. `expected_uuid` is the normalized activity
/// UUID (see [`drep_normalized_uuid`]).
pub fn next_rpc_response<T: RpcTransport>(
    transport: &mut T,
    expected_uuid: &[u8; 16],
    expected_seq: u32,
) -> (r: Result<ParsedRpc, String>)
    ensures
        ({
            let (m, rest) = response_in(
                old(transport).model().inbox,
                expected_uuid@,
                expected_seq,
                old(transport).model().peer,
            );
            &&& is_rpc(r, m)
            &&& final(transport).model() == (NetModel { inbox: rest, ..old(transport).model() })
        }),
{
    let ghost start = transport.model();
    let ghost want = response_in(start.inbox, expected_uuid@, expected_seq, start.peer);
    loop
        invariant
            want == response_in(start.inbox, expected_uuid@, expected_seq, start.peer),
            start == old(transport).model(),
            transport.model() == (NetModel { inbox: transport.model().inbox, ..start }),
            response_in(transport.model().inbox, expected_uuid@, expected_seq, start.peer) == want,
        decreases transport.model().inbox.len(),
    {
        let ghost before = transport.model().inbox;
        let got = transport.recv_response();
        proof {
            if before.len() == 0 {
                assert(later_incoming(before) =~= before);
            }
        }
        match got {
            Err(e) => {
                return Err(e);
            },
            Ok(None) => {
                return Err(no_response(transport));
            },
            Ok(Some(data)) => {
                match parse_rpc_response(data.as_slice()) {
                    Err(e) => {
                        return Err(e);
                    },
                    Ok(None) => {},
                    Ok(Some(h)) => {
                        let uuid = drep_normalized_uuid(&h.activity_uuid, h.is_little_endian);
                        if bytes_eq(uuid.as_slice(), expected_uuid.as_slice())
                            && h.sequence_number == expected_seq {
                            return Ok(h);
                        }
                    },
                }
            },
        }
    }
}

/// What is taken for the response of a request carries the request's activity
/// UUID and sequence number, and is a response.
pub proof fn response_is_ours(inbox: Seq<Incoming>, uuid: Seq<u8>, seq: u32, peer: Seq<char>)
    ensures
        response_in(inbox, uuid, seq, peer).0 matches Ok(h) ==> normalized(
            h.activity_uuid,
            h.is_little_endian,
        ) == uuid && h.sequence_number == seq && h.packet_type == 0x02,
    decreases inbox.len(),
{
    if inbox.len() > 0 {
        response_is_ours(inbox.skip(1), uuid, seq, peer);
    }
}

/// A foreign or stale response, and an echoed request, in front of what
/// arrives change nothing.
pub proof fn foreign_datagrams_are_skipped(
    d: Seq<u8>,
    inbox: Seq<Incoming>,
    uuid: Seq<u8>,
    seq: u32,
    peer: Seq<char>,
)
    requires
        response_of(d) matches Ok(o) && (o matches Some(h) ==> normalized(
            h.activity_uuid,
            h.is_little_endian,
        ) != uuid || h.sequence_number != seq),
    ensures
        response_in(seq![Incoming::Datagram(d)] + inbox, uuid, seq, peer) == response_in(
            inbox,
            uuid,
            seq,
            peer,
        ),
{
    let all = seq![Incoming::Datagram(d)] + inbox;
    assert(all.skip(1) =~= inbox);
    assert(all[0] == Incoming::Datagram(d));
}

/// A connection to an IO device.
#[derive(Debug)]
pub struct RpcConn<T: RpcTransport> {
    pub transport: T,
    pub object_uuid: [u8; 16],
    pub activity_uuid: [u8; 16],
    pub ar_uuid: [u8; 16],
    pub session_key: u16,
    pub sequence_number: u32,
    pub timeout_ms: u64,
    /// Frame IDs assigned by the device in the connect response.
    pub input_frame_id: u16,
    pub output_frame_id: u16,
    pub connected: bool,
}

/// What an [`RpcConn`] is, as mathematical values.
#[verifier::ext_equal]
pub struct ConnModel {
    pub net: NetModel,
    pub object_uuid: Seq<u8>,
    pub activity_uuid: Seq<u8>,
    pub ar_uuid: Seq<u8>,
    pub session_key: u16,
    pub sequence_number: u32,
    pub timeout_ms: u64,
    pub input_frame_id: u16,
    pub output_frame_id: u16,
    pub connected: bool,
}

impl<T: RpcTransport> View for RpcConn<T> {
    type V = ConnModel;

    open spec fn view(&self) -> ConnModel {
        ConnModel {
            net: self.transport.model(),
            object_uuid: self.object_uuid@,
            activity_uuid: self.activity_uuid@,
            ar_uuid: self.ar_uuid@,
            session_key: self.session_key,
            sequence_number: self.sequence_number,
            timeout_ms: self.timeout_ms,
            input_frame_id: self.input_frame_id,
            output_frame_id: self.output_frame_id,
            connected: self.connected,
        }
    }
}

/// The connection after it took a sequence number.
pub open spec fn bumped(c: ConnModel) -> ConnModel {
    ConnModel { sequence_number: (c.sequence_number + 1) as u32, ..c }
}

/// A request is sent and its response awaited: the connection after it, and
/// the response or why there is none.
pub open spec fn exchange(c: ConnModel, bytes: Seq<u8>) -> (ConnModel, Result<
    RpcModel,
    Seq<char>,
>) {
    let h = rpc_of(bytes);
    let net = c.net.after_send(bytes, c.timeout_ms);
    match next_fault(c.net.send_faults) {
        Some(m) => (ConnModel { net, ..c }, Err(m)),
        None => {
            let (r, rest) = response_in(
                c.net.inbox,
                normalized(h.activity_uuid, h.is_little_endian),
                h.sequence_number,
                c.net.peer,
            );
            (ConnModel { net: NetModel { inbox: rest, ..net }, ..c }, r)
        },
    }
}

/// A request carries the activity UUID and sequence number that it was built
/// with, so that its response can be told from others.
pub proof fn request_identity(
    object: Seq<u8>,
    iface: Seq<u8>,
    activity: Seq<u8>,
    seq: u32,
    operation: u16,
    body: Seq<u8>,
)
    requires
        object.len() == 16,
        iface.len() == 16,
        activity.len() == 16,
    ensures
        ({
            let bytes = rpc_request_bytes(object, iface, activity, seq, operation, body);
            &&& bytes.len() == 80 + body.len()
            &&& rpc_of(bytes).activity_uuid == activity
            &&& !rpc_of(bytes).is_little_endian
            &&& rpc_of(bytes).sequence_number == seq
        }),
{
    let head = seq![0x04u8, 0x00, 0x20, 0x00, 0x00, 0x00, 0x00, 0x00];
    let pre = head + object + iface + activity + be32(0) + be32(1);
    let post = be16(operation) + be16(0xFFFF) + be16(0xFFFF) + be16(body.len() as u16) + be16(0)
        + seq![0x00u8, 0x00] + body;
    let bytes = rpc_request_bytes(object, iface, activity, seq, operation, body);
    assert(bytes =~= pre + be32(seq) + post);
    crate::bytes::be32_round_trip(pre, seq, post);
    assert(bytes[4] == head[4]);
    assert(bytes.subrange(40, 56) =~= activity);
}

/// The read request that a connection sends next.
pub open spec fn read_bytes(c: ConnModel, idx: u16, slot: u16, subslot: u16, length: u32) -> Seq<u8> {
    read_request_bytes(
        c.object_uuid,
        IFACE_UUID_DEVICE@,
        c.activity_uuid,
        c.ar_uuid,
        READ,
        c.sequence_number,
        0,
        slot,
        subslot,
        idx,
        length,
    )
}

/// Reading a record: the connection after it, and the record or why there is
/// none.
pub open spec fn conn_read(c: ConnModel, idx: u16, slot: u16, subslot: u16, length: u32) -> (
    ConnModel,
    Result<Seq<u8>, Seq<char>>,
) {
    let (d, r) = exchange(bumped(c), read_bytes(c, idx, slot, subslot, length));
    (
        d,
        match r {
            Ok(h) => read_outcome(h.payload, h.is_little_endian),
            Err(m) => Err(m),
        },
    )
}

/// Reading a record without an AR.
pub open spec fn conn_read_implicit(
    c: ConnModel,
    idx: u16,
    slot: u16,
    subslot: u16,
    length: u32,
) -> (ConnModel, Result<Seq<u8>, Seq<char>>) {
    let (d, r) = exchange(
        bumped(c),
        read_request_bytes(
            c.object_uuid,
            IFACE_UUID_DEVICE@,
            c.activity_uuid,
            crate::bytes::zeros(16),
            IMPLICIT_READ,
            c.sequence_number,
            0,
            slot,
            subslot,
            idx,
            length,
        ),
    );
    (
        d,
        match r {
            Ok(h) => read_outcome(h.payload, h.is_little_endian),
            Err(m) => Err(m),
        },
    )
}

/// Writing a record.
pub open spec fn conn_write(c: ConnModel, idx: u16, slot: u16, subslot: u16, data: Seq<u8>) -> (
    ConnModel,
    Result<(), Seq<char>>,
) {
    let (d, r) = exchange(
        bumped(c),
        write_request_bytes(
            c.object_uuid,
            IFACE_UUID_DEVICE@,
            c.activity_uuid,
            c.ar_uuid,
            c.sequence_number,
            0,
            slot,
            subslot,
            idx,
            data,
        ),
    );
    (
        d,
        match r {
            Ok(h) => match status_outcome(h.payload, h.is_little_endian) {
                Ok(_) => Ok(()),
                Err(m) => Err(m),
            },
            Err(m) => Err(m),
        },
    )
}

/// The writes of one WriteMultiple, for API 0.
pub open spec fn multi_writes(writes: Seq<(u16, u16, u16, &[u8])>) -> Seq<MultiWrite> {
    Seq::new(
        writes.len(),
        |i: int| (0u32, writes[i].1, writes[i].2, writes[i].0, writes[i].3),
    )
}

/// Writing several records at once. Nothing is sent for none.
pub open spec fn conn_write_multiple(c: ConnModel, writes: Seq<(u16, u16, u16, &[u8])>) -> (
    ConnModel,
    Result<Seq<WriteMultipleResult>, Seq<char>>,
) {
    if writes.len() == 0 {
        (c, Ok(Seq::empty()))
    } else {
        let (d, r) = exchange(
            bumped(c),
            write_multiple_request_bytes(
                c.object_uuid,
                IFACE_UUID_DEVICE@,
                c.activity_uuid,
                c.ar_uuid,
                c.sequence_number,
                multi_writes(writes),
            ),
        );
        (
            d,
            match r {
                Ok(h) => match status_outcome(h.payload, h.is_little_endian) {
                    Ok(p) => Ok(write_results(p)),
                    Err(m) => Err(m),
                },
                Err(m) => Err(m),
            },
        )
    }
}

/// Establishing the AR with cyclic data.
pub open spec fn conn_connect(c: ConnModel, mac: Seq<u8>, name: Seq<u8>, setup: &IocrSetup) -> (
    ConnModel,
    Result<ConnectResult, Seq<char>>,
) {
    let (d, r) = exchange(
        bumped(c),
        connect_request_bytes(
            c.object_uuid,
            IFACE_UUID_DEVICE@,
            c.activity_uuid,
            c.ar_uuid,
            c.session_key,
            mac,
            name,
            setup,
            c.sequence_number,
        ),
    );
    match r {
        Err(m) => (d, Err(m)),
        Ok(h) => match connect_outcome(h.payload, h.is_little_endian) {
            Err(m) => (d, Err("Failed to connect: "@ + m)),
            Ok(v) => (
                ConnModel {
                    input_frame_id: v.input_frame_id,
                    output_frame_id: v.output_frame_id,
                    connected: true,
                    ..d
                },
                Ok(v),
            ),
        },
    }
}

/// Establishing an AR for device access.
pub open spec fn conn_connect_access(c: ConnModel, mac: Seq<u8>, name: Seq<u8>) -> (
    ConnModel,
    Result<(), Seq<char>>,
) {
    let (d, r) = exchange(
        bumped(c),
        device_access_request_bytes(
            c.object_uuid,
            IFACE_UUID_DEVICE@,
            c.activity_uuid,
            c.ar_uuid,
            c.session_key,
            mac,
            name,
            c.sequence_number,
        ),
    );
    match r {
        Err(m) => (d, Err(m)),
        Ok(h) => match status_outcome(h.payload, h.is_little_endian) {
            Err(m) => (d, Err("Failed to connect: "@ + m)),
            Ok(_) => (ConnModel { connected: true, ..d }, Ok(())),
        },
    }
}

/// Sending a control command. Without an AR nothing is sent.
pub open spec fn conn_control(c: ConnModel, block_type: u16, command: u16, sub_blocks: Seq<u8>) -> (
    ConnModel,
    Result<Seq<u8>, Seq<char>>,
) {
    if !c.connected {
        (c, Err("Not connected"@))
    } else {
        let (d, r) = exchange(
            bumped(c),
            rpc_request_bytes(
                c.object_uuid,
                IFACE_UUID_DEVICE@,
                c.activity_uuid,
                c.sequence_number,
                CONTROL,
                nrd_bytes(
                    control_block_bytes(block_type, c.ar_uuid, c.session_key, command)
                        + sub_blocks,
                ),
            ),
        );
        (
            d,
            match r {
                Ok(h) => status_outcome(h.payload, h.is_little_endian),
                Err(m) => Err(m),
            },
        )
    }
}

/// A failure with a text in front of its message.
pub open spec fn prefixed(
    r: (ConnModel, Result<Seq<u8>, Seq<char>>),
    text: Seq<char>,
) -> (ConnModel, Result<Seq<u8>, Seq<char>>) {
    (
        r.0,
        match r.1 {
            Ok(d) => Ok(d),
            Err(m) => Err(text + m),
        },
    )
}

/// Milliseconds as whole seconds, half a second rounded to the even number.
pub open spec fn rounded_seconds(ms: nat) -> nat {
    let s = ms / 1000;
    let rest = ms % 1000;
    if rest > 500 || (rest == 500 && s % 2 == 1) {
        s + 1
    } else {
        s
    }
}

/// The message when the device did not report ready in time.
pub open spec fn not_ready_message(peer: Seq<char>, timeout_ms: u64) -> Seq<char> {
    "No ApplicationReady from "@ + peer + " within "@ + dec(rounded_seconds(timeout_ms as nat))
        + "s"@
}

/// The first ApplicationReady among the arrivals, as its datagram, and the
/// arrivals behind it. Anything else is passed over; a timeout and a failure
/// end the search.
pub open spec fn app_ready_in(inbox: Seq<Incoming>, peer: Seq<char>, timeout_ms: u64) -> (
    Result<Seq<u8>, Seq<char>>,
    Seq<Incoming>,
)
    decreases inbox.len(),
{
    if inbox.len() == 0 {
        (Err(not_ready_message(peer, timeout_ms)), inbox)
    } else {
        let rest = inbox.skip(1);
        match inbox[0] {
            Incoming::Timeout => (Err(not_ready_message(peer, timeout_ms)), rest),
            Incoming::Failure(m) => (Err(m), rest),
            Incoming::Datagram(d) => if app_ready_body(d) is Some {
                (Ok(d), rest)
            } else {
                app_ready_in(rest, peer, timeout_ms)
            },
        }
    }
}

/// Waiting for the device's ApplicationReady and confirming it.
pub open spec fn conn_app_ready(c: ConnModel, timeout_ms: u64) -> (ConnModel, Result<
    Seq<u8>,
    Seq<char>,
>) {
    if !c.connected {
        (c, Err("Not connected"@))
    } else {
        let net = c.net.after_wait(timeout_ms);
        let (r, rest) = app_ready_in(net.control_inbox, net.peer, timeout_ms);
        let waited = NetModel { control_inbox: rest, ..net };
        match r {
            Err(m) => (ConnModel { net: waited, ..c }, Err(m)),
            Ok(d) => (
                ConnModel {
                    net: waited.after_reply(
                        ccontrol_response_bytes(rpc_of(d), c.ar_uuid, c.session_key),
                    ),
                    ..c
                },
                match next_fault(waited.reply_faults) {
                    Some(m) => Err(m),
                    None => Ok(app_ready_body(d)->0),
                },
            ),
        }
    }
}

/// Releasing the AR: the request is sent without awaiting a response, and
/// whether or not it could be sent the AR is over.
pub open spec fn conn_release(c: ConnModel) -> ConnModel {
    if !c.connected {
        c
    } else {
        ConnModel {
            connected: false,
            net: c.net.after_send(
                release_request_bytes(
                    c.object_uuid,
                    IFACE_UUID_DEVICE@,
                    c.activity_uuid,
                    c.ar_uuid,
                    c.session_key,
                    c.sequence_number,
                ),
                c.timeout_ms,
            ),
            ..bumped(c)
        }
    }
}

/// Releasing an AR sends exactly the Release, awaits no response, and ends the
/// AR even where the send fails. Releasing twice is the same as releasing once,
/// and a connection that was never established sends nothing.
pub proof fn release_is_idempotent(c: ConnModel)
    ensures
        c.connected ==> conn_release(c).net.sent == c.net.sent.push(
            (
                release_request_bytes(
                    c.object_uuid,
                    IFACE_UUID_DEVICE@,
                    c.activity_uuid,
                    c.ar_uuid,
                    c.session_key,
                    c.sequence_number,
                ),
                c.timeout_ms,
            ),
        ) && conn_release(c).net.inbox == c.net.inbox,
        !conn_release(c).connected,
        conn_release(conn_release(c)) == conn_release(c),
        !c.connected ==> conn_release(c) == c,
{
}

/// Commands that need an AR send nothing without one.
pub proof fn nothing_is_sent_without_an_ar(
    c: ConnModel,
    block_type: u16,
    command: u16,
    sub_blocks: Seq<u8>,
    timeout_ms: u64,
)
    requires
        !c.connected,
    ensures
        conn_control(c, block_type, command, sub_blocks).0 == c,
        conn_app_ready(c, timeout_ms).0 == c,
        conn_release(c) == c,
{
}

/// What a diagnosis read yields: the entries of the record, read in the flat
/// format where the full one has none. A failed read yields nothing.
pub open spec fn diagnosis_of(r: Result<Seq<u8>, Seq<char>>, slot: u16, subslot: u16) -> DiagDataModel {
    match r {
        Err(_) => DiagDataModel {
            api: 0,
            slot,
            subslot,
            entries: Seq::empty(),
            raw_data: Seq::empty(),
        },
        Ok(d) => DiagDataModel {
            api: 0,
            slot,
            subslot,
            entries: if d.len() <= 6 {
                Seq::empty()
            } else if diagnosis_entries(d, 0, slot, subslot).len() == 0 {
                flat_entries_from(d, 6, 0, slot, subslot)
            } else {
                diagnosis_entries(d, 0, slot, subslot)
            },
            raw_data: d,
        },
    }
}

/// Reading diagnosis data.
pub open spec fn conn_diagnosis(c: ConnModel, slot: u16, subslot: u16, index: u16) -> (
    ConnModel,
    DiagDataModel,
) {
    let (d, r) = conn_read(c, index, slot, subslot, 4096);
    (d, diagnosis_of(r, slot, subslot))
}

/// The standard diagnosis records: (index, slot, subslot).
pub open spec fn diagnosis_places() -> Seq<(u16, u16, u16)> {
    seq![
        (0x800Au16, 0u16, 0u16),
        (0x800Bu16, 0u16, 0u16),
        (0x800Cu16, 0u16, 1u16),
        (0xF000u16, 0u16, 0u16),
        (0xF00Au16, 0u16, 0u16),
        (0xF00Bu16, 0u16, 0u16),
    ]
}

/// Reading the first `k` standard diagnosis records, one after the other, and
/// keeping those that have entries.
pub open spec fn conn_all_diagnosis(c: ConnModel, k: int) -> (ConnModel, Map<u16, DiagDataModel>)
    decreases k,
{
    if k <= 0 {
        (c, Map::empty())
    } else {
        let (d, acc) = conn_all_diagnosis(c, k - 1);
        let (index, slot, subslot) = diagnosis_places()[k - 1];
        let (e, data) = conn_diagnosis(d, slot, subslot, index);
        (
            e,
            if data.entries.len() > 0 {
                acc.insert(index, data)
            } else {
                acc
            },
        )
    }
}

/// The models of a map of diagnosis data.
pub open spec fn diagnosis_map(m: BTreeMap<u16, DiagnosisData>) -> Map<u16, DiagDataModel> {
    m@.map_values(|d: DiagnosisData| d@)
}

/// An I&M0 record, or why there is none, from what a read gave.
pub open spec fn is_im0(r: Result<InM0, String>, m: Result<Seq<u8>, Seq<char>>) -> bool {
    match m {
        Err(t) => r matches Err(e) && e@ == t,
        Ok(p) => if p.len() >= 60 {
            r matches Ok(v) && v.read_from(p)
        } else {
            r matches Err(e) && e@ == short_record_message("PNInM0"@, 60, p.len())
        },
    }
}

/// An I&M1 record, or why there is none, from what a read gave.
pub open spec fn is_im1(r: Result<InM1, String>, m: Result<Seq<u8>, Seq<char>>) -> bool {
    match m {
        Err(t) => r matches Err(e) && e@ == t,
        Ok(p) => if p.len() >= 60 {
            r matches Ok(v) && v.read_from(p)
        } else {
            r matches Err(e) && e@ == short_record_message("PNInM1"@, 60, p.len())
        },
    }
}

/// An I&M2 record, or why there is none, from what a read gave.
pub open spec fn is_im2(r: Result<InM2, String>, m: Result<Seq<u8>, Seq<char>>) -> bool {
    match m {
        Err(t) => r matches Err(e) && e@ == t,
        Ok(p) => if p.len() >= 22 {
            r matches Ok(v) && v.read_from(p)
        } else {
            r matches Err(e) && e@ == short_record_message("PNInM2"@, 22, p.len())
        },
    }
}

/// An I&M3 record, or why there is none, from what a read gave.
pub open spec fn is_im3(r: Result<InM3, String>, m: Result<Seq<u8>, Seq<char>>) -> bool {
    match m {
        Err(t) => r matches Err(e) && e@ == t,
        Ok(p) => if p.len() >= 60 {
            r matches Ok(v) && v.read_from(p)
        } else {
            r matches Err(e) && e@ == short_record_message("PNInM3"@, 60, p.len())
        },
    }
}

/// The physical topology, or why there is none, from what a read gave.
pub open spec fn is_topology(r: Result<PdRealData, String>, m: Result<Seq<u8>, Seq<char>>) -> bool {
    match m {
        Err(t) => r matches Err(e) && e@ == t,
        Ok(p) => r matches Ok(v) && v@ == pd_from(p, 0, empty_pd()),
    }
}

/// The slots of a device, or why there are none, from what a read gave.
pub open spec fn is_slots(r: Result<Vec<DeviceSlot>, String>, m: Result<Seq<u8>, Seq<char>>) -> bool {
    match m {
        Err(t) => r matches Err(e) && e@ == t,
        Ok(p) => r matches Ok(v) && v@ == device_slots(identified_slots(p)),
    }
}

/// The parts of a connection that never change.
pub open spec fn same_identity(a: ConnModel, b: ConnModel) -> bool {
    &&& a.object_uuid == b.object_uuid
    &&& a.activity_uuid == b.activity_uuid
    &&& a.ar_uuid == b.ar_uuid
    &&& a.session_key == b.session_key
    &&& a.timeout_ms == b.timeout_ms
    &&& a.net.peer == b.net.peer
}

impl<T: RpcTransport> RpcConn<T> {
    /// Set up a connection from random bytes: 2 for the session key, which is
    /// never zero, 16 for the activity UUID and 16 for the AR UUID. The remote
    /// object UUID comes from the device and vendor ids.
    pub fn from_random(
        transport: T,
        device_id: u16,
        vendor_id: u16,
        timeout_ms: u64,
        rnd: &[u8],
    ) -> (r: RpcConn<T>)
        requires
            rnd@.len() == 34,
        ensures
            r.transport == transport,
            r@ == (ConnModel {
                net: transport.model(),
                object_uuid: object_uuid_bytes(device_id, vendor_id),
                activity_uuid: rnd@.subrange(2, 18),
                ar_uuid: rnd@.subrange(18, 34),
                session_key: if be16_at(rnd@, 0) == 0 {
                    1
                } else {
                    be16_at(rnd@, 0)
                },
                sequence_number: 0,
                timeout_ms,
                input_frame_id: 0,
                output_frame_id: 0,
                connected: false,
            }),
    {
        let key: u16 = read_be16(rnd, 0);
        RpcConn {
            transport,
            object_uuid: object_uuid(
                (device_id / 0x100) as u8,
                (device_id % 0x100) as u8,
                (vendor_id / 0x100) as u8,
                (vendor_id % 0x100) as u8,
            ),
            activity_uuid: array16(rnd, 2),
            ar_uuid: array16(rnd, 18),
            session_key: if key == 0 {
                1
            } else {
                key
            },
            sequence_number: 0,
            timeout_ms,
            input_frame_id: 0,
            output_frame_id: 0,
            connected: false,
        }
    }

    /// Set up a connection over a transport: random AR and activity UUIDs and
    /// a random non-zero session key. It fails only if the random source does.
    pub fn with_transport(transport: T, device_id: u16, vendor_id: u16, timeout_ms: u64) -> (r:
        Result<RpcConn<T>, String>)
        ensures
            r matches Ok(c) ==> c.transport == transport && c@.object_uuid == object_uuid_bytes(
                device_id,
                vendor_id,
            ) && c.session_key != 0 && c.sequence_number == 0 && c.timeout_ms == timeout_ms
                && c.input_frame_id == 0 && c.output_frame_id == 0 && !c.connected,
            r matches Err(e) ==> begins_with(e@, "getrandom failed: "@),
    {
        match random_bytes(34) {
            Ok(rnd) => Ok(
                RpcConn::from_random(transport, device_id, vendor_id, timeout_ms, rnd.as_slice()),
            ),
            Err(e) => Err(e),
        }
    }

    fn next_seq(&mut self) -> (r: u32)
        requires
            old(self).sequence_number < u32::MAX,
        ensures
            r == old(self).sequence_number,
            final(self)@ == bumped(old(self)@),
    {
        let seq: u32 = self.sequence_number;
        self.sequence_number = seq + 1;
        seq
    }

    fn send_receive(&mut self, rpc_bytes: &[u8]) -> (r: Result<ParsedRpc, String>)
        requires
            rpc_bytes@.len() >= 80,
        ensures
            ({
                let (d, m) = exchange(old(self)@, rpc_bytes@);
                &&& final(self)@ == d
                &&& is_rpc(r, m)
            }),
    {
        let req = match parse_rpc_header(rpc_bytes) {
            Some(h) => h,
            None => {
                return Err("outgoing RPC request too short to parse header".to_owned());
            },
        };
        match self.transport.send_request(rpc_bytes, self.timeout_ms) {
            Ok(_) => {},
            Err(e) => {
                return Err(e);
            },
        }
        let uuid = drep_normalized_uuid(&req.activity_uuid, req.is_little_endian);
        next_rpc_response(&mut self.transport, &uuid, req.sequence_number)
    }

    /// Establish the AR with cyclic IO: AR, IOCR, alarm CR and expected
    /// submodule blocks, then the response blocks for the assigned frame IDs.
    pub fn connect(&mut self, cm_mac: &[u8; 6], cm_station_name: &[u8], setup: &IocrSetup) -> (r:
        Result<ConnectResult, String>)
        requires
            old(self).sequence_number < u32::MAX,
            slots_fit(setup.io_slots@),
        ensures
            ({
                let (d, m) = conn_connect(old(self)@, cm_mac@, cm_station_name@, setup);
                &&& final(self)@ == d
                &&& match m {
                    Ok(v) => r matches Ok(w) && w == v,
                    Err(t) => r matches Err(e) && e@ == t,
                }
            }),
    {
        let seq: u32 = self.next_seq();
        let iface = IFACE_UUID_DEVICE;
        let req = build_connect_request(
            &self.object_uuid,
            &iface,
            &self.activity_uuid,
            &self.ar_uuid,
            self.session_key,
            cm_mac,
            cm_station_name,
            setup,
            seq,
        );
        match self.send_receive(req.as_slice()) {
            Err(e) => Err(e),
            Ok(resp) => match parse_connect_response(
                resp.payload.as_slice(),
                resp.is_little_endian,
            ) {
                Ok(result) => {
                    self.input_frame_id = result.input_frame_id;
                    self.output_frame_id = result.output_frame_id;
                    self.connected = true;
                    Ok(result)
                },
                Err(m) => {
                    let mut e = "Failed to connect: ".to_owned();
                    e.append(m.as_str());
                    Err(e)
                },
            },
        }
    }

    /// Establish a Device-Access AR for acyclic reads and writes only: no
    /// cyclic IOCRs, so no frame IDs are assigned.
    pub fn connect_device_access(&mut self, cm_mac: &[u8; 6], cm_station_name: &[u8]) -> (r: Result<
        (),
        String,
    >)
        requires
            old(self).sequence_number < u32::MAX,
        ensures
            ({
                let (d, m) = conn_connect_access(old(self)@, cm_mac@, cm_station_name@);
                &&& final(self)@ == d
                &&& is_done(r, m)
            }),
    {
        let seq: u32 = self.next_seq();
        let iface = IFACE_UUID_DEVICE;
        let req = build_device_access_connect_request(
            &self.object_uuid,
            &iface,
            &self.activity_uuid,
            &self.ar_uuid,
            self.session_key,
            cm_mac,
            cm_station_name,
            seq,
        );
        match self.send_receive(req.as_slice()) {
            Err(e) => Err(e),
            Ok(resp) => match parse_status_response(
                resp.payload.as_slice(),
                resp.is_little_endian,
            ) {
                Ok(_) => {
                    self.connected = true;
                    Ok(())
                },
                Err(m) => {
                    let mut e = "Failed to connect: ".to_owned();
                    e.append(m.as_str());
                    Err(e)
                },
            },
        }
    }

    /// Send a CONTROL operation request: the IODControlReq block for
    /// `block_type` and `control_command` plus optional sub-blocks, returning
    /// the response NRD payload.
    pub fn send_control(&mut self, block_type: u16, control_command: u16, sub_blocks: &[u8]) -> (r:
        Result<Vec<u8>, String>)
        requires
            old(self).connected ==> old(self).sequence_number < u32::MAX,
        ensures
            ({
                let (d, m) = conn_control(
                    old(self)@,
                    block_type,
                    control_command,
                    sub_blocks@,
                );
                &&& final(self)@ == d
                &&& is_bytes(r, m)
            }),
    {
        if !self.connected {
            return Err("Not connected".to_owned());
        }
        let mut payload = iod_control_block(
            block_type,
            &self.ar_uuid,
            self.session_key,
            control_command,
        );
        push_all(&mut payload, sub_blocks);
        let seq: u32 = self.next_seq();
        let iface = IFACE_UUID_DEVICE;
        let body = nrd(payload.as_slice());
        let req = rpc_request(
            &self.object_uuid,
            &iface,
            &self.activity_uuid,
            seq,
            CONTROL,
            body.as_slice(),
        );
        match self.send_receive(req.as_slice()) {
            Err(e) => Err(e),
            Ok(resp) => parse_status_response(resp.payload.as_slice(), resp.is_little_endian),
        }
    }

    /// Send the PrmEnd control command ending the parameter phase, returning
    /// the response NRD payload.
    pub fn prm_end(&mut self) -> (r: Result<Vec<u8>, String>)
        requires
            old(self).connected ==> old(self).sequence_number < u32::MAX,
        ensures
            ({
                let (d, m) = prefixed(
                    conn_control(old(self)@, 0x0110, 0x0001, Seq::empty()),
                    "PrmEnd failed: "@,
                );
                &&& final(self)@ == d
                &&& is_bytes(r, m)
            }),
    {
        match self.send_control(
            crate::transport::BLOCK_IOD_CONTROL_PRM_END_REQ,
            crate::transport::CONTROL_CMD_PRM_END,
            &[],
        ) {
            Ok(v) => Ok(v),
            Err(m) => {
                let mut e = "PrmEnd failed: ".to_owned();
                e.append(m.as_str());
                Err(e)
            },
        }
    }

    /// Send the PrmBegin control command starting (re-)parameterization,
    /// returning the response NRD payload.
    pub fn prm_begin(&mut self) -> (r: Result<Vec<u8>, String>)
        requires
            old(self).connected ==> old(self).sequence_number < u32::MAX,
        ensures
            ({
                let (d, m) = prefixed(
                    conn_control(old(self)@, 0x0118, 0x0040, Seq::empty()),
                    "PrmBegin failed: "@,
                );
                &&& final(self)@ == d
                &&& is_bytes(r, m)
            }),
    {
        match self.send_control(
            crate::transport::BLOCK_PRM_BEGIN_REQ,
            crate::transport::CONTROL_CMD_PRM_BEGIN,
            &[],
        ) {
            Ok(v) => Ok(v),
            Err(m) => {
                let mut e = "PrmBegin failed: ".to_owned();
                e.append(m.as_str());
                Err(e)
            },
        }
    }

    fn not_ready(&self, timeout_ms: u64) -> (e: String)
        ensures
            e@ == not_ready_message(self@.net.peer, timeout_ms),
    {
        let s: u64 = timeout_ms / 1000;
        let rest: u64 = timeout_ms % 1000;
        let seconds: u64 = if rest > 500 || (rest == 500 && s % 2 == 1) {
            s + 1
        } else {
            s
        };
        let mut e = "No ApplicationReady from ".to_owned();
        let peer = self.transport.peer();
        e.append(peer.as_str());
        e.append(" within ");
        push_dec(&mut e, seconds as u128);
        e.append("s");
        e
    }

    /// Wait for the device's ApplicationReady and confirm it with DONE,
    /// returning the NRD body of the device's request. Whatever command the
    /// request carries, it is confirmed.
    pub fn application_ready(&mut self, timeout_ms: u64) -> (r: Result<Vec<u8>, String>)
        ensures
            ({
                let (d, m) = conn_app_ready(old(self)@, timeout_ms);
                &&& final(self)@ == d
                &&& is_bytes(r, m)
            }),
    {
        if !self.connected {
            return Err("Not connected".to_owned());
        }
        self.transport.await_ccontrol(timeout_ms);
        let ghost start = old(self)@.net.after_wait(timeout_ms);
        let ghost want = app_ready_in(start.control_inbox, start.peer, timeout_ms);
        loop
            invariant
                old(self)@.connected,
                start == old(self)@.net.after_wait(timeout_ms),
                want == app_ready_in(start.control_inbox, start.peer, timeout_ms),
                self@ == (ConnModel {
                    net: NetModel { control_inbox: self@.net.control_inbox, ..start },
                    ..old(self)@
                }),
                app_ready_in(self@.net.control_inbox, start.peer, timeout_ms) == want,
            decreases self@.net.control_inbox.len(),
        {
            let ghost before = self@.net.control_inbox;
            let got = self.transport.recv_ccontrol();
            proof {
                if before.len() == 0 {
                    assert(later_incoming(before) =~= before);
                }
            }
            match got {
                Err(e) => {
                    return Err(e);
                },
                Ok(None) => {
                    return Err(self.not_ready(timeout_ms));
                },
                Ok(Some(data)) => {
                    if let Some((hdr, cc)) = extract_app_ready(data.as_slice()) {
                        let resp = ccontrol_response(&hdr, &self.ar_uuid, self.session_key);
                        return match self.transport.reply_ccontrol(resp.as_slice()) {
                            Ok(_) => Ok(cc.nrd_body),
                            Err(e) => Err(e),
                        };
                    }
                },
            }
        }
    }

    /// Read a data record via slot, subslot and index (API 0), returning the
    /// raw record payload.
    pub fn read_raw(&mut self, idx: u16, slot: u16, subslot: u16, length: u32) -> (r: Result<
        Vec<u8>,
        String,
    >)
        requires
            old(self).sequence_number < u32::MAX,
        ensures
            ({
                let (d, m) = conn_read(old(self)@, idx, slot, subslot, length);
                &&& final(self)@ == d
                &&& is_bytes(r, m)
                &&& final(self).sequence_number == old(self).sequence_number + 1
            }),
    {
        let seq: u32 = self.next_seq();
        let iface = IFACE_UUID_DEVICE;
        let req = read_record_request(
            &self.object_uuid,
            &iface,
            &self.activity_uuid,
            &self.ar_uuid,
            seq,
            0,
            slot,
            subslot,
            idx,
            length,
        );
        match self.send_receive(req.as_slice()) {
            Err(e) => Err(e),
            Ok(resp) => parse_read_response(resp.payload.as_slice(), resp.is_little_endian),
        }
    }

    /// Read a data record without an AR, by the Read Implicit service: for
    /// devices that reject the Device Access AR.
    pub fn read_raw_implicit(&mut self, idx: u16, slot: u16, subslot: u16, length: u32) -> (r:
        Result<Vec<u8>, String>)
        requires
            old(self).sequence_number < u32::MAX,
        ensures
            ({
                let (d, m) = conn_read_implicit(old(self)@, idx, slot, subslot, length);
                &&& final(self)@ == d
                &&& is_bytes(r, m)
            }),
    {
        let seq: u32 = self.next_seq();
        let iface = IFACE_UUID_DEVICE;
        let req = read_record_implicit_request(
            &self.object_uuid,
            &iface,
            &self.activity_uuid,
            seq,
            0,
            slot,
            subslot,
            idx,
            length,
        );
        match self.send_receive(req.as_slice()) {
            Err(e) => Err(e),
            Ok(resp) => parse_read_response(resp.payload.as_slice(), resp.is_little_endian),
        }
    }

    /// Read I&M0 data.
    pub fn read_im0(&mut self, slot: u16, subslot: u16) -> (r: Result<InM0, String>)
        requires
            old(self).sequence_number < u32::MAX,
        ensures
            ({
                let (d, m) = conn_read(old(self)@, 0xAFF0, slot, subslot, 4096);
                &&& final(self)@ == d
                &&& is_im0(r, m)
            }),
    {
        match self.read_raw(InM0::IDX, slot, subslot, READ_LENGTH) {
            Ok(p) => parse_im0(p.as_slice()),
            Err(e) => Err(e),
        }
    }

    /// Read I&M1 data.
    pub fn read_im1(&mut self, slot: u16, subslot: u16) -> (r: Result<InM1, String>)
        requires
            old(self).sequence_number < u32::MAX,
        ensures
            ({
                let (d, m) = conn_read(old(self)@, 0xAFF1, slot, subslot, 4096);
                &&& final(self)@ == d
                &&& is_im1(r, m)
            }),
    {
        match self.read_raw(InM1::IDX, slot, subslot, READ_LENGTH) {
            Ok(p) => parse_im1(p.as_slice()),
            Err(e) => Err(e),
        }
    }

    /// Read I&M2 data.
    pub fn read_im2(&mut self, slot: u16, subslot: u16) -> (r: Result<InM2, String>)
        requires
            old(self).sequence_number < u32::MAX,
        ensures
            ({
                let (d, m) = conn_read(old(self)@, 0xAFF2, slot, subslot, 4096);
                &&& final(self)@ == d
                &&& is_im2(r, m)
            }),
    {
        match self.read_raw(InM2::IDX, slot, subslot, READ_LENGTH) {
            Ok(p) => parse_im2(p.as_slice()),
            Err(e) => Err(e),
        }
    }

    /// Read I&M3 data.
    pub fn read_im3(&mut self, slot: u16, subslot: u16) -> (r: Result<InM3, String>)
        requires
            old(self).sequence_number < u32::MAX,
        ensures
            ({
                let (d, m) = conn_read(old(self)@, 0xAFF3, slot, subslot, 4096);
                &&& final(self)@ == d
                &&& is_im3(r, m)
            }),
    {
        match self.read_raw(InM3::IDX, slot, subslot, READ_LENGTH) {
            Ok(p) => parse_im3(p.as_slice()),
            Err(e) => Err(e),
        }
    }

    /// Read and parse PDRealData 0xF841 at slot 0, subslot 1.
    pub fn read_pd_real_data(&mut self) -> (r: Result<PdRealData, String>)
        requires
            old(self).sequence_number < u32::MAX,
        ensures
            ({
                let (d, m) = conn_read(old(self)@, 0xF841, 0, 1, 4096);
                &&& final(self)@ == d
                &&& is_topology(r, m)
            }),
    {
        match self.read_raw(crate::im::PD_REAL_DATA, 0, 1, READ_LENGTH) {
            Ok(p) => Ok(parse_pd_real_data(p.as_slice())),
            Err(e) => Err(e),
        }
    }

    /// Read and parse RealIdentificationData 0xF000 at slot 0, subslot 1.
    pub fn read_real_identification_data(&mut self) -> (r: Result<RealIdentificationData, String>)
        requires
            old(self).sequence_number < u32::MAX,
        ensures
            ({
                let (d, m) = conn_read(old(self)@, 0xF000, 0, 1, 4096);
                &&& final(self)@ == d
                &&& match m {
                    Err(t) => r matches Err(e) && e@ == t,
                    Ok(p) => r matches Ok(v) && slot_models(v.slots@) == identified_slots(p)
                        && v.version == identified_version(p),
                }
            }),
    {
        match self.read_raw(crate::im::REAL_ID_API, 0, 1, READ_LENGTH) {
            Ok(p) => Ok(parse_real_identification_data(p.as_slice())),
            Err(e) => Err(e),
        }
    }

    /// Discover all slots and subslots from RealIdentificationData.
    pub fn discover_slots(&mut self) -> (r: Result<Vec<DeviceSlot>, String>)
        requires
            old(self).sequence_number < u32::MAX,
        ensures
            ({
                let (d, m) = conn_read(old(self)@, 0xF000, 0, 1, 4096);
                &&& final(self)@ == d
                &&& is_slots(r, m)
            }),
    {
        let found = match self.read_real_identification_data() {
            Ok(v) => v,
            Err(e) => {
                return Err(e);
            },
        };
        let mut out: Vec<DeviceSlot> = Vec::new();
        let mut i: usize = 0;
        let ghost models = slot_models(found.slots@);
        while i < found.slots.len()
            invariant
                i <= found.slots@.len(),
                models == slot_models(found.slots@),
                out@ == device_slots(models).take(i as int),
            decreases found.slots@.len() - i,
        {
            out.push(found.slots[i].to_device_slot());
            i = i + 1;
            assert(out@ =~= device_slots(models).take(i as int));
        }
        assert(device_slots(models).take(i as int) =~= device_slots(models));
        Ok(out)
    }

    /// Read I&M0FilterData 0xF840, the module and submodule topology, at slot
    /// 0, subslot 0.
    pub fn read_inm0_filter(&mut self) -> (r: Result<InM0FilterData, String>)
        requires
            old(self).sequence_number < u32::MAX,
        ensures
            ({
                let (d, m) = conn_read(old(self)@, 0xF840, 0, 0, 4096);
                &&& final(self)@ == d
                &&& match m {
                    Err(t) => r matches Err(e) && e@ == t,
                    Ok(p) => match filter_topology(p) {
                        Ok(t) => r matches Ok(v) && topology(v) == t,
                        Err(t) => r matches Err(e) && e@ == t,
                    },
                }
            }),
    {
        match self.read_raw(crate::im::IM0_FILTER_DATA, 0, 0, READ_LENGTH) {
            Ok(p) => parse_inm0_filter(p.as_slice()),
            Err(e) => Err(e),
        }
    }

    /// Read and parse diagnosis data (indices 0x800A, 0x800B, 0x800C at slot
    /// and subslot level, 0xF00A, 0xF00B at API level, 0xF000 for all). The
    /// flat format is tried where the full one has no entries; read errors
    /// yield empty data.
    pub fn read_diagnosis(&mut self, slot: u16, subslot: u16, index: u16) -> (r: DiagnosisData)
        requires
            old(self).sequence_number < u32::MAX,
        ensures
            (final(self)@, r@) == conn_diagnosis(old(self)@, slot, subslot, index),
            final(self).sequence_number == old(self).sequence_number + 1,
    {
        match self.read_raw(index, slot, subslot, READ_LENGTH) {
            Ok(data) => {
                if data.len() > 6 {
                    let full = parse_diagnosis_block(data.as_slice(), 0, slot, subslot);
                    assert(full@.entries.len() == full.entries@.len());
                    if full.entries.len() == 0 {
                        parse_diagnosis_simple(data.as_slice(), 0, slot, subslot)
                    } else {
                        full
                    }
                } else {
                    let r = DiagnosisData {
                        api: 0,
                        slot,
                        subslot,
                        entries: Vec::new(),
                        raw_data: data,
                    };
                    assert(r@.entries =~= Seq::<DiagModel>::empty());
                    r
                }
            },
            Err(_) => {
                let r = DiagnosisData {
                    api: 0,
                    slot,
                    subslot,
                    entries: Vec::new(),
                    raw_data: Vec::new(),
                };
                assert(r@.entries =~= Seq::<DiagModel>::empty());
                r
            },
        }
    }

    /// Read diagnosis from all standard indices, keeping only the ones with
    /// entries.
    pub fn read_all_diagnosis(&mut self) -> (r: BTreeMap<u16, DiagnosisData>)
        requires
            old(self).sequence_number <= u32::MAX - 6,
        ensures
            (final(self)@, diagnosis_map(r)) == conn_all_diagnosis(old(self)@, 6),
    {
        let places: [(u16, u16, u16); 6] = [
            (0x800A, 0, 0),
            (0x800B, 0, 0),
            (0x800C, 0, 1),
            (0xF000, 0, 0),
            (0xF00A, 0, 0),
            (0xF00B, 0, 0),
        ];
        let mut results: BTreeMap<u16, DiagnosisData> = BTreeMap::new();
        assert(diagnosis_map(results) =~= Map::<u16, DiagDataModel>::empty());
        let mut k: usize = 0;
        while k < 6
            invariant
                k <= 6,
                places@ =~= diagnosis_places(),
                old(self).sequence_number <= u32::MAX - 6,
                self.sequence_number == old(self).sequence_number + k,
                (self@, diagnosis_map(results)) == conn_all_diagnosis(old(self)@, k as int),
            decreases 6 - k,
        {
            let (index, slot, subslot) = places[k];
            let diag = self.read_diagnosis(slot, subslot, index);
            assert(diag@.entries.len() == diag.entries@.len());
            if diag.entries.len() > 0 {
                let ghost before = diagnosis_map(results);
                let ghost model = diag@;
                insert16(&mut results, index, diag);
                assert(diagnosis_map(results) =~= before.insert(index, model));
            }
            k = k + 1;
        }
        results
    }

    /// Write a data record via slot, subslot and index (API 0).
    pub fn write(&mut self, idx: u16, slot: u16, subslot: u16, data: &[u8]) -> (r: Result<
        (),
        String,
    >)
        requires
            old(self).sequence_number < u32::MAX,
        ensures
            ({
                let (d, m) = conn_write(old(self)@, idx, slot, subslot, data@);
                &&& final(self)@ == d
                &&& is_done(r, m)
            }),
    {
        let seq: u32 = self.next_seq();
        let iface = IFACE_UUID_DEVICE;
        let req = write_record_request(
            &self.object_uuid,
            &iface,
            &self.activity_uuid,
            &self.ar_uuid,
            seq,
            0,
            slot,
            subslot,
            idx,
            data,
        );
        match self.send_receive(req.as_slice()) {
            Err(e) => Err(e),
            Ok(resp) => match parse_status_response(
                resp.payload.as_slice(),
                resp.is_little_endian,
            ) {
                Ok(_) => Ok(()),
                Err(e) => Err(e),
            },
        }
    }

    /// Write multiple records in one request (IODWriteMultipleReq 0xE040).
    /// Entries are (index, slot, subslot, data) with API 0; one result per
    /// write that the device answers.
    pub fn write_multiple(&mut self, writes: &[(u16, u16, u16, &[u8])]) -> (r: Result<
        Vec<WriteMultipleResult>,
        String,
    >)
        requires
            writes@.len() > 0 ==> old(self).sequence_number < u32::MAX,
        ensures
            ({
                let (d, m) = conn_write_multiple(old(self)@, writes@);
                &&& final(self)@ == d
                &&& match m {
                    Ok(v) => r matches Ok(w) && w@ == v,
                    Err(t) => r matches Err(e) && e@ == t,
                }
            }),
    {
        if writes.len() == 0 {
            return Ok(Vec::new());
        }
        let mut entries: Vec<MultiWrite> = Vec::new();
        let mut i: usize = 0;
        while i < writes.len()
            invariant
                i <= writes@.len(),
                entries@ == multi_writes(writes@).take(i as int),
            decreases writes@.len() - i,
        {
            let (idx, slot, subslot, data) = writes[i];
            entries.push((0u32, slot, subslot, idx, data));
            i = i + 1;
            assert(entries@ =~= multi_writes(writes@).take(i as int));
        }
        assert(multi_writes(writes@).take(i as int) =~= multi_writes(writes@));
        let seq: u32 = self.next_seq();
        let iface = IFACE_UUID_DEVICE;
        let req = write_multiple_request(
            &self.object_uuid,
            &iface,
            &self.activity_uuid,
            &self.ar_uuid,
            seq,
            entries.as_slice(),
        );
        match self.send_receive(req.as_slice()) {
            Err(e) => Err(e),
            Ok(resp) => match parse_status_response(
                resp.payload.as_slice(),
                resp.is_little_endian,
            ) {
                Ok(p) => Ok(parse_write_multiple_response(p.as_slice())),
                Err(e) => Err(e),
            },
        }
    }

    /// Send the Release request terminating the AR. Nothing is awaited, and a
    /// send failure only ends the local state.
    pub fn release(&mut self)
        requires
            old(self).connected ==> old(self).sequence_number < u32::MAX,
        ensures
            final(self)@ == conn_release(old(self)@),
    {
        if !self.connected {
            return;
        }
        let seq: u32 = self.next_seq();
        let iface = IFACE_UUID_DEVICE;
        let req = release_request(
            &self.object_uuid,
            &iface,
            &self.activity_uuid,
            &self.ar_uuid,
            self.session_key,
            seq,
        );
        let _sent = self.transport.send_request(req.as_slice(), self.timeout_ms);
        self.connected = false;
    }
}

/// The slots of a device without API and block names.
pub open spec fn device_slots(s: Seq<SlotModel>) -> Seq<DeviceSlot> {
    Seq::new(s.len(), |i: int| device_slot_of(s[i]))
}

/// Reading and writing keep a connection's identity and the state of its AR,
/// and each takes one sequence number.
pub proof fn requests_keep_the_ar(c: ConnModel, idx: u16, slot: u16, subslot: u16, length: u32, data: Seq<u8>)
    ensures
        ({
            let d = conn_read(c, idx, slot, subslot, length).0;
            &&& same_identity(c, d)
            &&& d.connected == c.connected
            &&& d.sequence_number == bumped(c).sequence_number
            &&& d.net.sent == c.net.sent.push((read_bytes(c, idx, slot, subslot, length), c.timeout_ms))
        }),
        ({
            let d = conn_write(c, idx, slot, subslot, data).0;
            &&& same_identity(c, d)
            &&& d.connected == c.connected
            &&& d.sequence_number == bumped(c).sequence_number
            &&& d.net.sent.len() == c.net.sent.len() + 1
        }),
{
}

} // verus!
