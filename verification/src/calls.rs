//! What the calls on a connection come to, from the bytes that go out to the result
//! that comes back, told by the bytes of both sides.

use vstd::prelude::*;
use vstd::string::*;
use crate::blocks::{laid_out_results, write_results_read_back, WriteMultipleResult};
use crate::bytes::{be16_at, be32_at, zeros};
use crate::connect::{ar_block_bytes, ar_blocks_have_their_layout, connect_blocks, IocrSetup};
use crate::connection::{
    app_ready_in, bumped, conn_app_ready, conn_connect, conn_connect_access, conn_control,
    conn_read, conn_read_implicit, conn_write, conn_write_multiple, exchange, multi_writes,
    request_identity, response_in, rounded_seconds, ConnModel, Incoming, NetModel,
};
use crate::rpc::{
    multiple_writes_are_wrapped, nrd_bytes, read_requests_name_the_record, requests_have_their_layout,
    rpc_request_bytes, wrappers_have_their_layout, write_requests_carry_the_data, IFACE_UUID_DEVICE,
};
use crate::transport::{
    app_ready_body, application_ready_is_recognised, assigned, confirmations_answer_their_request,
    control_block_bytes, control_blocks_have_their_layout, laid_out_body, laid_out_response,
    laid_out_rpc, normalized, packets_read_back, responses_give_their_data, rpc_of,
    the_assigned_frame_ids_are_taken, valid_rpc, ResponseBlock, RpcModel,
};

verus! {

/// A connection with the UUIDs of its device, on which requests can be sent.
pub open spec fn can_ask(c: ConnModel) -> bool {
    &&& c.object_uuid.len() == 16
    &&& c.activity_uuid.len() == 16
    &&& c.ar_uuid.len() == 16
    &&& c.sequence_number < u32::MAX
    &&& c.net.send_faults.len() == 0
}

/// A response to the next request of a connection, in either byte order.
pub open spec fn answers(h: RpcModel, c: ConnModel) -> bool {
    &&& valid_rpc(h)
    &&& h.packet_type == 0x02
    &&& normalized(h.activity_uuid, h.is_little_endian) == c.activity_uuid
    &&& h.sequence_number == c.sequence_number
}

/// A packet that is not the answer: a request, or a response to another activity or
/// with another number.
pub open spec fn is_stray(h: RpcModel, c: ConnModel) -> bool {
    &&& valid_rpc(h)
    &&& h.packet_type == 0x00 || (h.packet_type == 0x02 && (normalized(
        h.activity_uuid,
        h.is_little_endian,
    ) != c.activity_uuid || h.sequence_number != c.sequence_number))
}

/// What comes in: some strays, then the answer, then the rest.
pub open spec fn arrivals(strays: Seq<RpcModel>, h: RpcModel, rest: Seq<Incoming>) -> Seq<Incoming> {
    Seq::new(strays.len(), |i: int| Incoming::Datagram(laid_out_rpc(strays[i]))) + seq![
        Incoming::Datagram(laid_out_rpc(h)),
    ] + rest
}

/// The connection after one request: what was sent, and what is still to come in.
pub open spec fn asked(c: ConnModel, request: Seq<u8>, rest: Seq<Incoming>) -> ConnModel {
    ConnModel {
        net: NetModel {
            sent: c.net.sent.push((request, c.timeout_ms)),
            inbox: rest,
            ..c.net
        },
        sequence_number: (c.sequence_number + 1) as u32,
        ..c
    }
}

proof fn lemma_answer_found(c: ConnModel, strays: Seq<RpcModel>, h: RpcModel, rest: Seq<Incoming>, peer: Seq<char>)
    requires
        answers(h, c),
        forall|i: int| 0 <= i < strays.len() ==> is_stray(#[trigger] strays[i], c),
    ensures
        response_in(arrivals(strays, h, rest), c.activity_uuid, c.sequence_number, peer) == (
            Ok::<RpcModel, Seq<char>>(h),
            rest,
        ),
    decreases strays.len(),
{
    let all = arrivals(strays, h, rest);
    if strays.len() == 0 {
        packets_read_back(h);
        assert(all[0] == Incoming::Datagram(laid_out_rpc(h)));
        assert(all.skip(1) =~= rest);
    } else {
        let more = strays.skip(1);
        packets_read_back(strays[0]);
        assert(is_stray(strays[0], c));
        assert(all[0] == Incoming::Datagram(laid_out_rpc(strays[0])));
        assert(all.skip(1) =~= arrivals(more, h, rest));
        assert forall|i: int| 0 <= i < more.len() implies is_stray(#[trigger] more[i], c) by {
            assert(more[i] == strays[i + 1]);
        }
        lemma_answer_found(c, more, h, rest, peer);
    }
}

proof fn lemma_asked(c: ConnModel, operation: u16, body: Seq<u8>, strays: Seq<RpcModel>, h: RpcModel, rest: Seq<Incoming>)
    requires
        can_ask(c),
        answers(h, c),
        forall|i: int| 0 <= i < strays.len() ==> is_stray(#[trigger] strays[i], c),
        c.net.inbox == arrivals(strays, h, rest),
    ensures
        ({
            let request = rpc_request_bytes(
                c.object_uuid,
                IFACE_UUID_DEVICE@,
                c.activity_uuid,
                c.sequence_number,
                operation,
                body,
            );
            exchange(bumped(c), request) == (
                asked(c, request, rest),
                Ok::<RpcModel, Seq<char>>(h),
            )
        }),
{
    let request = rpc_request_bytes(
        c.object_uuid,
        IFACE_UUID_DEVICE@,
        c.activity_uuid,
        c.sequence_number,
        operation,
        body,
    );
    assert(IFACE_UUID_DEVICE@.len() == 16);
    request_identity(
        c.object_uuid,
        IFACE_UUID_DEVICE@,
        c.activity_uuid,
        c.sequence_number,
        operation,
        body,
    );
    lemma_answer_found(c, strays, h, rest, c.net.peer);
    let d = exchange(bumped(c), request).0;
    assert(d =~= asked(c, request, rest));
}

/// A read asks for the record that was named, on its AR, and gives back what the
/// device answers, all of it and nothing else, in whichever byte order it answers
/// and whatever strays come in before that. A refusal is an error.
pub proof fn a_read_gives_the_record(
    c: ConnModel,
    index: u16,
    slot: u16,
    subslot: u16,
    length: u32,
    strays: Seq<RpcModel>,
    h: RpcModel,
    status: u32,
    head: Seq<u8>,
    data: Seq<u8>,
    rest: Seq<Incoming>,
)
    requires
        can_ask(c),
        answers(h, c),
        forall|i: int| 0 <= i < strays.len() ==> is_stray(#[trigger] strays[i], c),
        c.net.inbox == arrivals(strays, h, rest),
        head.len() == 64,
        h.payload == laid_out_body(status, head + data, h.is_little_endian),
    ensures
        ({
            let (d, r) = conn_read(c, index, slot, subslot, length);
            let request = d.net.sent.last().0;
            let record = request.skip(100);
            &&& d == asked(c, request, rest)
            &&& status == 0 ==> r == Ok::<Seq<u8>, Seq<char>>(data)
            &&& status != 0 ==> r is Err
            &&& request.subrange(8, 24) == c.object_uuid
            &&& request.subrange(40, 56) == c.activity_uuid
            &&& be32_at(request, 64) == c.sequence_number
            &&& be16_at(request, 68) == 2
            &&& record.subrange(8, 24) == c.ar_uuid
            &&& be32_at(record, 24) == 0
            &&& be16_at(record, 28) == slot
            &&& be16_at(record, 30) == subslot
            &&& be16_at(record, 34) == index
            &&& be32_at(record, 36) == length
        }),
{
    let body = nrd_bytes(
        crate::blocks::iod_record(
            crate::blocks::IOD_READ_REQUEST_HEADER,
            0,
            c.ar_uuid,
            0,
            slot,
            subslot,
            index,
            length,
            Seq::empty(),
        ),
    );
    assert(IFACE_UUID_DEVICE@.len() == 16);
    lemma_asked(c, 2, body, strays, h, rest);
    read_requests_name_the_record(
        c.object_uuid,
        IFACE_UUID_DEVICE@,
        c.activity_uuid,
        c.ar_uuid,
        2,
        c.sequence_number,
        0,
        slot,
        subslot,
        index,
        length,
    );
    responses_give_their_data(status, head, data, h.is_little_endian);
    responses_give_their_data(status, head, head + data, h.is_little_endian);
}

/// A read without an AR asks in the same way, by the implicit operation and with no
/// AR named.
pub proof fn an_implicit_read_gives_the_record(
    c: ConnModel,
    index: u16,
    slot: u16,
    subslot: u16,
    length: u32,
    strays: Seq<RpcModel>,
    h: RpcModel,
    head: Seq<u8>,
    data: Seq<u8>,
    rest: Seq<Incoming>,
)
    requires
        can_ask(c),
        answers(h, c),
        forall|i: int| 0 <= i < strays.len() ==> is_stray(#[trigger] strays[i], c),
        c.net.inbox == arrivals(strays, h, rest),
        head.len() == 64,
        h.payload == laid_out_body(0, head + data, h.is_little_endian),
    ensures
        ({
            let (d, r) = conn_read_implicit(c, index, slot, subslot, length);
            let request = d.net.sent.last().0;
            let record = request.skip(100);
            &&& d == asked(c, request, rest)
            &&& r == Ok::<Seq<u8>, Seq<char>>(data)
            &&& be16_at(request, 68) == 5
            &&& record.subrange(8, 24) == zeros(16)
            &&& be16_at(record, 28) == slot
            &&& be16_at(record, 30) == subslot
            &&& be16_at(record, 34) == index
            &&& be32_at(record, 36) == length
        }),
{
    let body = nrd_bytes(
        crate::blocks::iod_record(
            crate::blocks::IOD_READ_REQUEST_HEADER,
            0,
            zeros(16),
            0,
            slot,
            subslot,
            index,
            length,
            Seq::empty(),
        ),
    );
    assert(IFACE_UUID_DEVICE@.len() == 16);
    lemma_asked(c, 5, body, strays, h, rest);
    read_requests_name_the_record(
        c.object_uuid,
        IFACE_UUID_DEVICE@,
        c.activity_uuid,
        zeros(16),
        5,
        c.sequence_number,
        0,
        slot,
        subslot,
        index,
        length,
    );
    responses_give_their_data(0, head, data, h.is_little_endian);
}

/// A write hands the device the data for the record that was named, on its AR, and
/// succeeds exactly if the device says so.
pub proof fn a_write_hands_over_the_data(
    c: ConnModel,
    index: u16,
    slot: u16,
    subslot: u16,
    data: Seq<u8>,
    strays: Seq<RpcModel>,
    h: RpcModel,
    status: u32,
    answer: Seq<u8>,
    rest: Seq<Incoming>,
)
    requires
        can_ask(c),
        answers(h, c),
        forall|i: int| 0 <= i < strays.len() ==> is_stray(#[trigger] strays[i], c),
        c.net.inbox == arrivals(strays, h, rest),
        data.len() <= 0xFFFF_FF00,
        h.payload == laid_out_body(status, answer, h.is_little_endian),
    ensures
        ({
            let (d, r) = conn_write(c, index, slot, subslot, data);
            let request = d.net.sent.last().0;
            let record = request.skip(100);
            &&& d == asked(c, request, rest)
            &&& r is Ok <==> status == 0
            &&& be16_at(request, 68) == 3
            &&& record.subrange(8, 24) == c.ar_uuid
            &&& be32_at(record, 24) == 0
            &&& be16_at(record, 28) == slot
            &&& be16_at(record, 30) == subslot
            &&& be16_at(record, 34) == index
            &&& be32_at(record, 36) == data.len()
            &&& record.skip(64) == data
        }),
{
    let body = nrd_bytes(
        crate::blocks::iod_record(
            crate::blocks::IOD_WRITE_REQUEST_HEADER,
            0,
            c.ar_uuid,
            0,
            slot,
            subslot,
            index,
            data.len() as u32,
            data,
        ),
    );
    assert(IFACE_UUID_DEVICE@.len() == 16);
    lemma_asked(c, 3, body, strays, h, rest);
    write_requests_carry_the_data(
        c.object_uuid,
        IFACE_UUID_DEVICE@,
        c.activity_uuid,
        c.ar_uuid,
        c.sequence_number,
        0,
        slot,
        subslot,
        index,
        data,
    );
    responses_give_their_data(status, zeros(64), answer, h.is_little_endian);
}

/// Several writes go out in one request, each to the index, slot and subslot that
/// it was given with, and the results that the device answers come back in order.
pub proof fn several_writes_go_out_together(
    c: ConnModel,
    writes: Seq<(u16, u16, u16, &[u8])>,
    strays: Seq<RpcModel>,
    h: RpcModel,
    head: Seq<u8>,
    results: Seq<WriteMultipleResult>,
    ar_uuid: Seq<u8>,
    length: u32,
    rest: Seq<Incoming>,
)
    requires
        can_ask(c),
        answers(h, c),
        forall|i: int| 0 <= i < strays.len() ==> is_stray(#[trigger] strays[i], c),
        c.net.inbox == arrivals(strays, h, rest),
        writes.len() > 0,
        crate::blocks::multi_write_blocks(
            c.ar_uuid,
            multi_writes(writes),
            writes.len() as int,
        ).len() <= 0xFFFF_F000,
        ar_uuid.len() == 16,
        head.len() == 64,
        be32_at(head, 36) == 64 * results.len(),
        h.payload == laid_out_body(
            0,
            head + laid_out_results(results, ar_uuid, length),
            h.is_little_endian,
        ),
    ensures
        ({
            let (d, r) = conn_write_multiple(c, writes);
            let request = d.net.sent.last().0;
            let m = multi_writes(writes);
            &&& d == asked(c, request, rest)
            &&& r == Ok::<Seq<WriteMultipleResult>, Seq<char>>(results)
            &&& request.skip(100).skip(64).skip(64) == crate::blocks::multi_write_blocks(
                c.ar_uuid,
                m,
                writes.len() as int,
            )
            &&& m.len() == writes.len()
            &&& forall|i: int|
                #![trigger m[i]]
                0 <= i < m.len() ==> m[i].0 == 0 && m[i].1 == writes[i].1 && m[i].2 == writes[i].2
                    && m[i].3 == writes[i].0 && m[i].4 == writes[i].3
        }),
{
    let m = multi_writes(writes);
    let payload = crate::blocks::multi_write_payload(c.ar_uuid, 0, m);
    let body = nrd_bytes(
        crate::blocks::iod_record(
            crate::blocks::IOD_WRITE_REQUEST_HEADER,
            0,
            c.ar_uuid,
            0xFFFF_FFFF,
            0xFFFF,
            0xFFFF,
            crate::blocks::IOD_WRITE_MULTIPLE_INDEX,
            payload.len() as u32,
            payload,
        ),
    );
    assert(IFACE_UUID_DEVICE@.len() == 16);
    lemma_asked(c, 3, body, strays, h, rest);
    multiple_writes_are_wrapped(
        c.object_uuid,
        IFACE_UUID_DEVICE@,
        c.activity_uuid,
        c.ar_uuid,
        c.sequence_number,
        m,
    );
    responses_give_their_data(
        0,
        zeros(64),
        head + laid_out_results(results, ar_uuid, length),
        h.is_little_endian,
    );
    write_results_read_back(head, results, ar_uuid, length);
}

/// Connecting for cyclic data sends the connect blocks by the connect operation,
/// and an answer without an error establishes the AR with the frame IDs that the
/// device assigned. A refusal leaves it as it was.
pub proof fn connecting_takes_the_assigned_frame_ids(
    c: ConnModel,
    mac: Seq<u8>,
    name: Seq<u8>,
    setup: &IocrSetup,
    strays: Seq<RpcModel>,
    h: RpcModel,
    status: u32,
    blocks: Seq<ResponseBlock>,
    rest: Seq<Incoming>,
)
    requires
        can_ask(c),
        answers(h, c),
        forall|i: int| 0 <= i < strays.len() ==> is_stray(#[trigger] strays[i], c),
        c.net.inbox == arrivals(strays, h, rest),
        mac.len() == 6,
        connect_blocks(c.ar_uuid, c.session_key, mac, name, setup).len() <= 0xFFFF_FFFF,
        forall|i: int| 0 <= i < blocks.len() ==> (#[trigger] blocks[i]).valid(),
        h.payload == laid_out_body(status, laid_out_response(blocks), h.is_little_endian),
    ensures
        ({
            let (d, r) = conn_connect(c, mac, name, setup);
            let request = d.net.sent.last().0;
            let after = asked(c, request, rest);
            &&& be16_at(request, 68) == 0
            &&& be32_at(request, 64) == c.sequence_number
            &&& request.skip(100) == connect_blocks(c.ar_uuid, c.session_key, mac, name, setup)
            &&& status == 0 ==> (r matches Ok(v) && v.input_frame_id == assigned(blocks, 1)
                && v.output_frame_id == assigned(blocks, 2) && d == (ConnModel {
                input_frame_id: assigned(blocks, 1),
                output_frame_id: assigned(blocks, 2),
                connected: true,
                ..after
            }))
            &&& status != 0 ==> r is Err && d == after
        }),
{
    let all = connect_blocks(c.ar_uuid, c.session_key, mac, name, setup);
    assert(IFACE_UUID_DEVICE@.len() == 16);
    lemma_asked(c, 0, nrd_bytes(all), strays, h, rest);
    lemma_wrapped(c, 0, all);
    the_assigned_frame_ids_are_taken(status, blocks, h.is_little_endian);
}

proof fn lemma_wrapped(c: ConnModel, operation: u16, payload: Seq<u8>)
    requires
        can_ask(c),
        payload.len() <= 0xFFFF_FFFF,
    ensures
        ({
            let r = rpc_request_bytes(
                c.object_uuid,
                IFACE_UUID_DEVICE@,
                c.activity_uuid,
                c.sequence_number,
                operation,
                nrd_bytes(payload),
            );
            &&& r.subrange(8, 24) == c.object_uuid
            &&& r.subrange(40, 56) == c.activity_uuid
            &&& be32_at(r, 64) == c.sequence_number
            &&& be16_at(r, 68) == operation
            &&& r.skip(100) == payload
        }),
{
    let body = nrd_bytes(payload);
    let r = rpc_request_bytes(
        c.object_uuid,
        IFACE_UUID_DEVICE@,
        c.activity_uuid,
        c.sequence_number,
        operation,
        body,
    );
    assert(IFACE_UUID_DEVICE@.len() == 16);
    requests_have_their_layout(
        c.object_uuid,
        IFACE_UUID_DEVICE@,
        c.activity_uuid,
        c.sequence_number,
        operation,
        body,
    );
    wrappers_have_their_layout(payload);
    assert(r.skip(100) =~= r.skip(80).skip(20));
}

/// Connecting for device access sends one AR block of a supervisor with device
/// access and the controller's station name, and nothing else; an answer without an
/// error establishes the AR.
pub proof fn connecting_for_access_sends_one_block(
    c: ConnModel,
    mac: Seq<u8>,
    name: Seq<u8>,
    strays: Seq<RpcModel>,
    h: RpcModel,
    status: u32,
    answer: Seq<u8>,
    rest: Seq<Incoming>,
)
    requires
        can_ask(c),
        answers(h, c),
        forall|i: int| 0 <= i < strays.len() ==> is_stray(#[trigger] strays[i], c),
        c.net.inbox == arrivals(strays, h, rest),
        mac.len() == 6,
        name.len() <= 0xFF00,
        h.payload == laid_out_body(status, answer, h.is_little_endian),
    ensures
        ({
            let (d, r) = conn_connect_access(c, mac, name);
            let request = d.net.sent.last().0;
            let block = request.skip(100);
            let after = asked(c, request, rest);
            &&& be16_at(request, 68) == 0
            &&& block.len() == 58 + name.len()
            &&& be16_at(block, 0) == 0x0101
            &&& be16_at(block, 6) == 6
            &&& block.subrange(8, 24) == c.ar_uuid
            &&& be16_at(block, 24) == c.session_key
            &&& block.subrange(26, 32) == mac
            &&& be32_at(block, 48) == 0x111
            &&& block.skip(58) == name
            &&& status == 0 ==> r is Ok && d == (ConnModel { connected: true, ..after })
            &&& status != 0 ==> r is Err && d == after
        }),
{
    let block = ar_block_bytes(6, c.ar_uuid, c.session_key, mac, 0x111, name);
    ar_blocks_have_their_layout(6, c.ar_uuid, c.session_key, mac, 0x111, name);
    lemma_asked(c, 0, nrd_bytes(block), strays, h, rest);
    lemma_wrapped(c, 0, block);
    responses_give_their_data(status, zeros(64), answer, h.is_little_endian);
}

/// A control command goes out by the control operation with a block that names the
/// AR, its session key and the command, and gives back the device's answer. It
/// leaves the AR as it is.
pub proof fn a_control_command_names_its_ar(
    c: ConnModel,
    block_type: u16,
    command: u16,
    strays: Seq<RpcModel>,
    h: RpcModel,
    status: u32,
    answer: Seq<u8>,
    rest: Seq<Incoming>,
)
    requires
        can_ask(c),
        c.connected,
        answers(h, c),
        forall|i: int| 0 <= i < strays.len() ==> is_stray(#[trigger] strays[i], c),
        c.net.inbox == arrivals(strays, h, rest),
        h.payload == laid_out_body(status, answer, h.is_little_endian),
    ensures
        ({
            let (d, r) = conn_control(c, block_type, command, Seq::empty());
            let request = d.net.sent.last().0;
            let block = request.skip(100);
            &&& d == asked(c, request, rest)
            &&& status == 0 ==> r == Ok::<Seq<u8>, Seq<char>>(answer)
            &&& status != 0 ==> r is Err
            &&& be16_at(request, 68) == 4
            &&& block.len() == 32
            &&& be16_at(block, 0) == block_type
            &&& block.subrange(8, 24) == c.ar_uuid
            &&& be16_at(block, 24) == c.session_key
            &&& be16_at(block, 28) == command
        }),
{
    let block = control_block_bytes(block_type, c.ar_uuid, c.session_key, command);
    assert(block + Seq::<u8>::empty() =~= block);
    control_blocks_have_their_layout(block_type, c.ar_uuid, c.session_key, command);
    lemma_asked(c, 4, nrd_bytes(block), strays, h, rest);
    lemma_wrapped(c, 4, block);
    responses_give_their_data(status, zeros(64), answer, h.is_little_endian);
}

/// The device's ApplicationReady is awaited for the time that was given, passing
/// over what is none, and confirmed on the AR: with DONE, and to the sequence
/// number that it had.
pub proof fn application_ready_is_confirmed(
    c: ConnModel,
    timeout_ms: u64,
    other: Seq<u8>,
    h: RpcModel,
    status: u32,
    block: Seq<u8>,
    rest: Seq<Incoming>,
)
    requires
        can_ask(c),
        c.connected,
        c.net.reply_faults.len() == 0,
        app_ready_body(other) is None,
        valid_rpc(h),
        h.packet_type == 0,
        h.operation_number == 4,
        block.len() >= 32,
        be16_at(block, 0) == 0x0112,
        h.payload == laid_out_body(status, block, h.is_little_endian),
        c.net.control_inbox == seq![
            Incoming::Datagram(other),
            Incoming::Datagram(laid_out_rpc(h)),
        ] + rest,
    ensures
        ({
            let (d, r) = conn_app_ready(c, timeout_ms);
            let reply = rpc_of(d.net.replies.last());
            let confirmed = reply.payload.skip(20);
            &&& r == Ok::<Seq<u8>, Seq<char>>(block)
            &&& d.net.waits == c.net.waits.push(timeout_ms)
            &&& d.net.control_inbox == rest
            &&& d.net.replies.len() == c.net.replies.len() + 1
            &&& d.net.sent == c.net.sent
            &&& d.connected && d.sequence_number == c.sequence_number
            &&& reply.packet_type == 2
            &&& reply.activity_uuid == h.activity_uuid
            &&& reply.sequence_number == h.sequence_number
            &&& be16_at(confirmed, 0) == 0x8112
            &&& confirmed.subrange(8, 24) == c.ar_uuid
            &&& be16_at(confirmed, 24) == c.session_key
            &&& be16_at(confirmed, 28) == 8
        }),
{
    application_ready_is_recognised(h, status, block);
    lemma_ready_in(other, laid_out_rpc(h), rest, c.net.peer, timeout_ms);
    packets_read_back(h);
    confirmations_answer_their_request(h, c.ar_uuid, c.session_key);
}

proof fn lemma_ready_in(other: Seq<u8>, ready: Seq<u8>, rest: Seq<Incoming>, peer: Seq<char>, timeout_ms: u64)
    requires
        app_ready_body(other) is None,
        app_ready_body(ready) is Some,
    ensures
        app_ready_in(
            seq![Incoming::Datagram(other), Incoming::Datagram(ready)] + rest,
            peer,
            timeout_ms,
        ) == (Ok::<Seq<u8>, Seq<char>>(ready), rest),
{
    let all = seq![Incoming::Datagram(other), Incoming::Datagram(ready)] + rest;
    assert(all[0] == Incoming::Datagram(other));
    assert(all.skip(1)[0] == Incoming::Datagram(ready));
    assert(all.skip(1).skip(1) =~= rest);
    assert(app_ready_in(all.skip(1), peer, timeout_ms) == (Ok::<Seq<u8>, Seq<char>>(ready), rest));
}

/// A number of seconds is the nearest one: no more than half a second away.
pub proof fn seconds_are_rounded(ms: nat)
    ensures
        ms <= rounded_seconds(ms) * 1000 + 500,
        rounded_seconds(ms) * 1000 <= ms + 500,
        ms % 1000 == 500 ==> rounded_seconds(ms) % 2 == 0,
{
}

} // verus!
