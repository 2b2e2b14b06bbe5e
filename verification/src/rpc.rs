//! DCE/RPC framing for PROFINET IO: the request header, the NRD wrapper and
//! the read and write requests made of them.

use vstd::prelude::*;
use crate::blocks::{
    iod_read_request, iod_record, iod_write_multiple_payload, iod_write_request, multi_write_blocks,
    multi_write_payload, records_have_their_layout, MultiWrite, IOD_READ_REQUEST_HEADER,
    IOD_WRITE_MULTIPLE_INDEX, IOD_WRITE_REQUEST_HEADER,
};
use crate::bytes::{
    be16, be16_at, be16_placed, be32, be32_at, be32_placed, push_all, push_be16, push_be32, zeros,
};

verus! {

/// RPC packet type: request.
pub const REQUEST: u8 = 0x00;

/// RPC operation numbers.
pub const CONNECT: u16 = 0x00;
pub const RELEASE: u16 = 0x01;
pub const READ: u16 = 0x02;
pub const WRITE: u16 = 0x03;
pub const CONTROL: u16 = 0x04;
pub const IMPLICIT_READ: u16 = 0x05;

/// PNIO-Device interface UUID in big-endian byte order.
pub const IFACE_UUID_DEVICE: [u8; 16] = [
    0xDE, 0xA0, 0x00, 0x01, 0x6C, 0x97, 0x11, 0xD1, 0x82, 0x71, 0x00, 0xA0, 0x24, 0x42, 0xDF, 0x7D,
];

/// Shared 10-byte prefix of PNIO object UUIDs.
pub const OBJECT_UUID_PREFIX: [u8; 10] = [
    0xDE, 0xA0, 0x00, 0x00, 0x6C, 0x97, 0x11, 0xD1, 0x82, 0x71,
];

/// A PNIO object UUID: the shared prefix, 00 01, device id, vendor id.
pub open spec fn object_uuid_bytes(device_id: u16, vendor_id: u16) -> Seq<u8> {
    seq![0xDEu8, 0xA0, 0x00, 0x00, 0x6C, 0x97, 0x11, 0xD1, 0x82, 0x71, 0x00, 0x01] + be16(device_id)
        + be16(vendor_id)
}

/// Remote object UUID: OBJECT_UUID_PREFIX, 00 01, device id, vendor id.
pub fn object_uuid(dev_high: u8, dev_low: u8, ven_high: u8, ven_low: u8) -> (r: [u8; 16])
    ensures
        r@ == object_uuid_bytes(
            (dev_high * 0x100 + dev_low) as u16,
            (ven_high * 0x100 + ven_low) as u16,
        ),
        r@ == seq![
            0xDEu8,
            0xA0,
            0x00,
            0x00,
            0x6C,
            0x97,
            0x11,
            0xD1,
            0x82,
            0x71,
            0x00,
            0x01,
            dev_high,
            dev_low,
            ven_high,
            ven_low,
        ],
{
    let p = OBJECT_UUID_PREFIX;
    let r = [
        p[0],
        p[1],
        p[2],
        p[3],
        p[4],
        p[5],
        p[6],
        p[7],
        p[8],
        p[9],
        0x00,
        0x01,
        dev_high,
        dev_low,
        ven_high,
        ven_low,
    ];
    assert(r@ =~= object_uuid_bytes(
        (dev_high * 0x100 + dev_low) as u16,
        (ven_high * 0x100 + ven_low) as u16,
    ));
    r
}

/// The NRD wrapper: args_maximum_status (1500), args_length, maximum_count
/// (1500), offset (0), actual_count, payload.
pub open spec fn nrd_bytes(payload: Seq<u8>) -> Seq<u8> {
    be32(1500) + be32(payload.len() as u32) + be32(1500) + be32(0) + be32(payload.len() as u32)
        + payload
}

/// Wrap a payload in the NRD header of a request, all fields big-endian.
pub fn nrd(payload: &[u8]) -> (r: Vec<u8>)
    ensures
        r@ == nrd_bytes(payload@),
        r@.len() == 20 + payload@.len(),
{
    let len: u32 = payload.len() as u32;
    let mut out: Vec<u8> = Vec::new();
    push_be32(&mut out, 1500);
    push_be32(&mut out, len);
    push_be32(&mut out, 1500);
    push_be32(&mut out, 0);
    push_be32(&mut out, len);
    push_all(&mut out, payload);
    assert(out@ =~= nrd_bytes(payload@));
    out
}

/// An RPC request: the 80-byte header with every multi-byte field big-endian,
/// then the body.
pub open spec fn rpc_request_bytes(
    object_uuid: Seq<u8>,
    iface_uuid: Seq<u8>,
    activity_uuid: Seq<u8>,
    seq: u32,
    operation: u16,
    body: Seq<u8>,
) -> Seq<u8> {
    seq![0x04u8, REQUEST, 0x20, 0x00, 0x00, 0x00, 0x00, 0x00] + object_uuid + iface_uuid
        + activity_uuid + be32(0) + be32(1) + be32(seq) + be16(operation) + be16(0xFFFF) + be16(
        0xFFFF,
    ) + be16(body.len() as u16) + be16(0) + seq![0x00u8, 0x00] + body
}

/// Build an RPC request. The argument list mirrors the wire fields.
pub fn rpc_request(
    object_uuid: &[u8; 16],
    iface_uuid: &[u8; 16],
    activity_uuid: &[u8; 16],
    seq: u32,
    operation: u16,
    body: &[u8],
) -> (r: Vec<u8>)
    ensures
        r@ == rpc_request_bytes(
            object_uuid@,
            iface_uuid@,
            activity_uuid@,
            seq,
            operation,
            body@,
        ),
        r@.len() == 80 + body@.len(),
{
    let mut out: Vec<u8> = Vec::new();
    out.push(0x04);  // version
    out.push(REQUEST);  // packet type
    out.push(0x20);  // flags1
    out.push(0x00);  // flags2
    out.push(0x00);  // data representation: big-endian, ASCII, IEEE float
    out.push(0x00);
    out.push(0x00);
    out.push(0x00);  // serial high
    assert(out@ =~= seq![0x04u8, REQUEST, 0x20, 0x00, 0x00, 0x00, 0x00, 0x00]);
    push_all(&mut out, object_uuid.as_slice());
    push_all(&mut out, iface_uuid.as_slice());
    push_all(&mut out, activity_uuid.as_slice());
    push_be32(&mut out, 0);  // server boot time
    push_be32(&mut out, 1);  // interface version
    push_be32(&mut out, seq);
    push_be16(&mut out, operation);
    push_be16(&mut out, 0xFFFF);  // interface hint
    push_be16(&mut out, 0xFFFF);  // activity hint
    push_be16(&mut out, body.len() as u16);
    push_be16(&mut out, 0);  // fragment number
    let ghost before = out@;
    out.push(0x00);  // authentication protocol
    out.push(0x00);  // serial low
    assert(out@ =~= before + seq![0x00u8, 0x00]);
    push_all(&mut out, body);
    out
}

/// A read request: IODReadReq in NRD in the RPC header.
pub open spec fn read_request_bytes(
    object_uuid: Seq<u8>,
    iface_uuid: Seq<u8>,
    activity_uuid: Seq<u8>,
    ar_uuid: Seq<u8>,
    opnum: u16,
    seq: u32,
    api: u32,
    slot: u16,
    subslot: u16,
    index: u16,
    length: u32,
) -> Seq<u8> {
    rpc_request_bytes(
        object_uuid,
        iface_uuid,
        activity_uuid,
        seq,
        opnum,
        nrd_bytes(
            iod_record(
                IOD_READ_REQUEST_HEADER,
                0,
                ar_uuid,
                api,
                slot,
                subslot,
                index,
                length,
                Seq::empty(),
            ),
        ),
    )
}

fn read_request(
    object_uuid: &[u8; 16],
    iface_uuid: &[u8; 16],
    activity_uuid: &[u8; 16],
    ar_uuid: &[u8; 16],
    opnum: u16,
    seq: u32,
    api: u32,
    slot: u16,
    subslot: u16,
    index: u16,
    length: u32,
) -> (r: Vec<u8>)
    ensures
        r@ == read_request_bytes(
            object_uuid@,
            iface_uuid@,
            activity_uuid@,
            ar_uuid@,
            opnum,
            seq,
            api,
            slot,
            subslot,
            index,
            length,
        ),
        r@.len() == 164,
{
    let record = iod_read_request(ar_uuid, api, slot, subslot, index, length);
    let body = nrd(record.as_slice());
    rpc_request(object_uuid, iface_uuid, activity_uuid, seq, opnum, body.as_slice())
}

/// Full READ request frame: an IODReadReq record wrapped in NRD, framed by the
/// RPC request header.
pub fn read_record_request(
    object_uuid: &[u8; 16],
    iface_uuid: &[u8; 16],
    activity_uuid: &[u8; 16],
    ar_uuid: &[u8; 16],
    seq: u32,
    api: u32,
    slot: u16,
    subslot: u16,
    index: u16,
    length: u32,
) -> (r: Vec<u8>)
    ensures
        r@ == read_request_bytes(
            object_uuid@,
            iface_uuid@,
            activity_uuid@,
            ar_uuid@,
            READ,
            seq,
            api,
            slot,
            subslot,
            index,
            length,
        ),
        r@.len() == 164,
{
    read_request(
        object_uuid,
        iface_uuid,
        activity_uuid,
        ar_uuid,
        READ,
        seq,
        api,
        slot,
        subslot,
        index,
        length,
    )
}

/// Full Read Implicit request frame: an IODReadReq carrying an all-zero AR
/// UUID, sent with the IMPLICIT_READ opnum. The service addresses the device
/// by IP alone, so it answers on stacks that reject the Device Access AR.
pub fn read_record_implicit_request(
    object_uuid: &[u8; 16],
    iface_uuid: &[u8; 16],
    activity_uuid: &[u8; 16],
    seq: u32,
    api: u32,
    slot: u16,
    subslot: u16,
    index: u16,
    length: u32,
) -> (r: Vec<u8>)
    ensures
        r@ == read_request_bytes(
            object_uuid@,
            iface_uuid@,
            activity_uuid@,
            zeros(16),
            IMPLICIT_READ,
            seq,
            api,
            slot,
            subslot,
            index,
            length,
        ),
        r@.len() == 164,
{
    let none: [u8; 16] = [0u8; 16];
    assert(none@ =~= zeros(16));
    read_request(
        object_uuid,
        iface_uuid,
        activity_uuid,
        &none,
        IMPLICIT_READ,
        seq,
        api,
        slot,
        subslot,
        index,
        length,
    )
}

/// A write request: IODWriteReq in NRD in the RPC header.
pub open spec fn write_request_bytes(
    object_uuid: Seq<u8>,
    iface_uuid: Seq<u8>,
    activity_uuid: Seq<u8>,
    ar_uuid: Seq<u8>,
    seq: u32,
    api: u32,
    slot: u16,
    subslot: u16,
    index: u16,
    payload: Seq<u8>,
) -> Seq<u8> {
    rpc_request_bytes(
        object_uuid,
        iface_uuid,
        activity_uuid,
        seq,
        WRITE,
        nrd_bytes(
            iod_record(
                IOD_WRITE_REQUEST_HEADER,
                0,
                ar_uuid,
                api,
                slot,
                subslot,
                index,
                payload.len() as u32,
                payload,
            ),
        ),
    )
}

/// Full WRITE request frame: an IODWriteReq record wrapped in NRD, framed by
/// the RPC request header.
pub fn write_record_request(
    object_uuid: &[u8; 16],
    iface_uuid: &[u8; 16],
    activity_uuid: &[u8; 16],
    ar_uuid: &[u8; 16],
    seq: u32,
    api: u32,
    slot: u16,
    subslot: u16,
    index: u16,
    payload: &[u8],
) -> (r: Vec<u8>)
    ensures
        r@ == write_request_bytes(
            object_uuid@,
            iface_uuid@,
            activity_uuid@,
            ar_uuid@,
            seq,
            api,
            slot,
            subslot,
            index,
            payload@,
        ),
        r@.len() == 164 + payload@.len(),
{
    let record = iod_write_request(ar_uuid, api, slot, subslot, index, payload);
    let body = nrd(record.as_slice());
    rpc_request(object_uuid, iface_uuid, activity_uuid, seq, WRITE, body.as_slice())
}

/// A WriteMultiple request: the payload of all writes in one wildcard
/// IODWriteReq.
pub open spec fn write_multiple_request_bytes(
    object_uuid: Seq<u8>,
    iface_uuid: Seq<u8>,
    activity_uuid: Seq<u8>,
    ar_uuid: Seq<u8>,
    seq: u32,
    writes: Seq<MultiWrite>,
) -> Seq<u8> {
    write_request_bytes(
        object_uuid,
        iface_uuid,
        activity_uuid,
        ar_uuid,
        seq,
        0xFFFF_FFFF,
        0xFFFF,
        0xFFFF,
        IOD_WRITE_MULTIPLE_INDEX,
        multi_write_payload(ar_uuid, 0, writes),
    )
}

/// Full WRITE request frame for IODWriteMultipleReq 0xE040: the builder
/// payload wrapped in a wildcard IODWriteReq record (api 0xFFFFFFFF, slot and
/// subslot 0xFFFF), NRD and the RPC request header.
pub fn write_multiple_request(
    object_uuid: &[u8; 16],
    iface_uuid: &[u8; 16],
    activity_uuid: &[u8; 16],
    ar_uuid: &[u8; 16],
    seq: u32,
    writes: &[MultiWrite],
) -> (r: Vec<u8>)
    ensures
        r@ == write_multiple_request_bytes(
            object_uuid@,
            iface_uuid@,
            activity_uuid@,
            ar_uuid@,
            seq,
            writes@,
        ),
{
    let payload = iod_write_multiple_payload(ar_uuid, 0, writes);
    write_record_request(
        object_uuid,
        iface_uuid,
        activity_uuid,
        ar_uuid,
        seq,
        0xFFFF_FFFF,
        0xFFFF,
        0xFFFF,
        IOD_WRITE_MULTIPLE_INDEX,
        payload.as_slice(),
    )
}

/// Every byte of an RPC request: version 4, packet type request, flags, a
/// big-endian representation, the three UUIDs in their order, sequence number,
/// operation, the length of the body, and the body after 80 bytes.
pub proof fn requests_have_their_layout(
    object_uuid: Seq<u8>,
    iface_uuid: Seq<u8>,
    activity_uuid: Seq<u8>,
    seq: u32,
    operation: u16,
    body: Seq<u8>,
)
    requires
        object_uuid.len() == 16,
        iface_uuid.len() == 16,
        activity_uuid.len() == 16,
    ensures
        ({
            let r = rpc_request_bytes(object_uuid, iface_uuid, activity_uuid, seq, operation, body);
            &&& r.len() == 80 + body.len()
            &&& r.subrange(0, 8) == seq![4u8, 0, 0x20, 0, 0, 0, 0, 0]
            &&& r.subrange(8, 24) == object_uuid
            &&& r.subrange(24, 40) == iface_uuid
            &&& r.subrange(40, 56) == activity_uuid
            &&& be32_at(r, 56) == 0
            &&& be32_at(r, 60) == 1
            &&& be32_at(r, 64) == seq
            &&& be16_at(r, 68) == operation
            &&& be16_at(r, 70) == 0xFFFF
            &&& be16_at(r, 72) == 0xFFFF
            &&& be16_at(r, 74) == body.len() as u16
            &&& be16_at(r, 76) == 0
            &&& be16_at(r, 78) == 0
            &&& r.skip(80) == body
        }),
{
    let r = rpc_request_bytes(object_uuid, iface_uuid, activity_uuid, seq, operation, body);
    let head = seq![0x04u8, REQUEST, 0x20, 0x00, 0x00, 0x00, 0x00, 0x00];
    let uuids = object_uuid + iface_uuid + activity_uuid;
    let numbers = be32(0) + be32(1) + be32(seq) + be16(operation) + be16(0xFFFF) + be16(0xFFFF)
        + be16(body.len() as u16) + be16(0) + seq![0x00u8, 0x00];
    assert(r =~= head + uuids + numbers + body);
    assert(numbers.len() == 24);
    be32_placed(numbers, 0, 0);
    be32_placed(numbers, 4, 1);
    be32_placed(numbers, 8, seq);
    be16_placed(numbers, 12, operation);
    be16_placed(numbers, 14, 0xFFFF);
    be16_placed(numbers, 16, 0xFFFF);
    be16_placed(numbers, 18, body.len() as u16);
    be16_placed(numbers, 20, 0);
    be16_placed(numbers, 22, 0);
    assert(forall|i: int| 0 <= i < 24 ==> r[56 + i] == #[trigger] numbers[i]);
    assert(forall|i: int| 56 <= i < 80 ==> #[trigger] r[i] == numbers[i - 56]);
    assert(r.subrange(0, 8) =~= seq![4u8, 0, 0x20, 0, 0, 0, 0, 0]);
    assert(r.subrange(8, 24) =~= object_uuid);
    assert(r.subrange(24, 40) =~= iface_uuid);
    assert(r.subrange(40, 56) =~= activity_uuid);
    assert(r.skip(80) =~= body);
}

/// An NRD header says 1500 for what may come back and the length of its payload
/// twice, and the payload follows after 20 bytes.
pub proof fn wrappers_have_their_layout(payload: Seq<u8>)
    requires
        payload.len() <= 0xFFFF_FFFF,
    ensures
        ({
            let w = nrd_bytes(payload);
            &&& w.len() == 20 + payload.len()
            &&& be32_at(w, 0) == 1500
            &&& be32_at(w, 4) == payload.len()
            &&& be32_at(w, 8) == 1500
            &&& be32_at(w, 12) == 0
            &&& be32_at(w, 16) == payload.len()
            &&& w.skip(20) == payload
        }),
{
    let w = nrd_bytes(payload);
    be32_placed(w, 0, 1500);
    be32_placed(w, 4, payload.len() as u32);
    be32_placed(w, 8, 1500);
    be32_placed(w, 12, 0);
    be32_placed(w, 16, payload.len() as u32);
    assert(w.skip(20) =~= payload);
}

proof fn lemma_record_request(
    object_uuid: Seq<u8>,
    iface_uuid: Seq<u8>,
    activity_uuid: Seq<u8>,
    seq: u32,
    operation: u16,
    record: Seq<u8>,
)
    requires
        object_uuid.len() == 16,
        iface_uuid.len() == 16,
        activity_uuid.len() == 16,
        64 <= record.len() <= 0xFFFF_FFFF,
    ensures
        ({
            let r = rpc_request_bytes(
                object_uuid,
                iface_uuid,
                activity_uuid,
                seq,
                operation,
                nrd_bytes(record),
            );
            &&& r.len() == 100 + record.len()
            &&& r.subrange(8, 24) == object_uuid
            &&& r.subrange(24, 40) == iface_uuid
            &&& r.subrange(40, 56) == activity_uuid
            &&& be32_at(r, 64) == seq
            &&& be16_at(r, 68) == operation
            &&& be32_at(r, 84) == record.len()
            &&& be32_at(r, 96) == record.len()
            &&& r.skip(100) == record
        }),
{
    let body = nrd_bytes(record);
    let r = rpc_request_bytes(object_uuid, iface_uuid, activity_uuid, seq, operation, body);
    requests_have_their_layout(object_uuid, iface_uuid, activity_uuid, seq, operation, body);
    wrappers_have_their_layout(record);
    let b = r.skip(80);
    assert(forall|i: int| 0 <= i < b.len() ==> r[80 + i] == #[trigger] b[i]);
    assert(r[84] == b[4] && r[85] == b[5] && r[86] == b[6] && r[87] == b[7]);
    assert(r[96] == b[16] && r[97] == b[17] && r[98] == b[18] && r[99] == b[19]);
    assert(r.skip(100) =~= b.skip(20));
}

/// A read request names the device's object, the interface and the activity, the
/// operation, and behind 100 bytes the record that is asked for: AR, API, slot,
/// subslot, index, and how many bytes.
pub proof fn read_requests_name_the_record(
    object_uuid: Seq<u8>,
    iface_uuid: Seq<u8>,
    activity_uuid: Seq<u8>,
    ar_uuid: Seq<u8>,
    opnum: u16,
    seq: u32,
    api: u32,
    slot: u16,
    subslot: u16,
    index: u16,
    length: u32,
)
    requires
        object_uuid.len() == 16,
        iface_uuid.len() == 16,
        activity_uuid.len() == 16,
        ar_uuid.len() == 16,
    ensures
        ({
            let r = read_request_bytes(
                object_uuid,
                iface_uuid,
                activity_uuid,
                ar_uuid,
                opnum,
                seq,
                api,
                slot,
                subslot,
                index,
                length,
            );
            let record = r.skip(100);
            &&& r.len() == 164
            &&& r.subrange(8, 24) == object_uuid
            &&& r.subrange(24, 40) == iface_uuid
            &&& r.subrange(40, 56) == activity_uuid
            &&& be32_at(r, 64) == seq
            &&& be16_at(r, 68) == opnum
            &&& be32_at(r, 84) == 64
            &&& be16_at(record, 0) == 0x0009
            &&& be16_at(record, 6) == 0
            &&& record.subrange(8, 24) == ar_uuid
            &&& be32_at(record, 24) == api
            &&& be16_at(record, 28) == slot
            &&& be16_at(record, 30) == subslot
            &&& be16_at(record, 34) == index
            &&& be32_at(record, 36) == length
        }),
{
    let record = iod_record(
        IOD_READ_REQUEST_HEADER,
        0,
        ar_uuid,
        api,
        slot,
        subslot,
        index,
        length,
        Seq::empty(),
    );
    records_have_their_layout(
        IOD_READ_REQUEST_HEADER,
        0,
        ar_uuid,
        api,
        slot,
        subslot,
        index,
        length,
        Seq::empty(),
    );
    lemma_record_request(object_uuid, iface_uuid, activity_uuid, seq, opnum, record);
}

/// A write request names the device's object, the interface and the activity, the
/// write operation, and behind 100 bytes the record: AR, API, slot, subslot,
/// index, the length of the data, and the data.
pub proof fn write_requests_carry_the_data(
    object_uuid: Seq<u8>,
    iface_uuid: Seq<u8>,
    activity_uuid: Seq<u8>,
    ar_uuid: Seq<u8>,
    seq: u32,
    api: u32,
    slot: u16,
    subslot: u16,
    index: u16,
    data: Seq<u8>,
)
    requires
        object_uuid.len() == 16,
        iface_uuid.len() == 16,
        activity_uuid.len() == 16,
        ar_uuid.len() == 16,
        data.len() <= 0xFFFF_FF00,
    ensures
        ({
            let r = write_request_bytes(
                object_uuid,
                iface_uuid,
                activity_uuid,
                ar_uuid,
                seq,
                api,
                slot,
                subslot,
                index,
                data,
            );
            let record = r.skip(100);
            &&& r.len() == 164 + data.len()
            &&& r.subrange(8, 24) == object_uuid
            &&& r.subrange(24, 40) == iface_uuid
            &&& r.subrange(40, 56) == activity_uuid
            &&& be32_at(r, 64) == seq
            &&& be16_at(r, 68) == 3
            &&& be32_at(r, 84) == 64 + data.len()
            &&& be16_at(record, 0) == 0x0008
            &&& be16_at(record, 6) == 0
            &&& record.subrange(8, 24) == ar_uuid
            &&& be32_at(record, 24) == api
            &&& be16_at(record, 28) == slot
            &&& be16_at(record, 30) == subslot
            &&& be16_at(record, 34) == index
            &&& be32_at(record, 36) == data.len()
            &&& record.skip(64) == data
        }),
{
    let n = data.len() as u32;
    let record = iod_record(
        IOD_WRITE_REQUEST_HEADER,
        0,
        ar_uuid,
        api,
        slot,
        subslot,
        index,
        n,
        data,
    );
    records_have_their_layout(
        IOD_WRITE_REQUEST_HEADER,
        0,
        ar_uuid,
        api,
        slot,
        subslot,
        index,
        n,
        data,
    );
    lemma_record_request(object_uuid, iface_uuid, activity_uuid, seq, WRITE, record);
}

/// A multiple write is one write to the wildcard record 0xE040, whose data is
/// again such a record, and behind its 64 bytes stand the writes.
pub proof fn multiple_writes_are_wrapped(
    object_uuid: Seq<u8>,
    iface_uuid: Seq<u8>,
    activity_uuid: Seq<u8>,
    ar_uuid: Seq<u8>,
    seq: u32,
    writes: Seq<MultiWrite>,
)
    requires
        object_uuid.len() == 16,
        iface_uuid.len() == 16,
        activity_uuid.len() == 16,
        ar_uuid.len() == 16,
        multi_write_blocks(ar_uuid, writes, writes.len() as int).len() <= 0xFFFF_F000,
    ensures
        ({
            let r = write_multiple_request_bytes(
                object_uuid,
                iface_uuid,
                activity_uuid,
                ar_uuid,
                seq,
                writes,
            );
            let blocks = multi_write_blocks(ar_uuid, writes, writes.len() as int);
            let outer = r.skip(100);
            let inner = outer.skip(64);
            &&& be16_at(r, 68) == 3
            &&& be32_at(outer, 24) == 0xFFFF_FFFF
            &&& be16_at(outer, 28) == 0xFFFF
            &&& be16_at(outer, 30) == 0xFFFF
            &&& be16_at(outer, 34) == 0xE040
            &&& be32_at(outer, 36) == 64 + blocks.len()
            &&& be32_at(inner, 24) == 0xFFFF_FFFF
            &&& be16_at(inner, 28) == 0xFFFF
            &&& be16_at(inner, 30) == 0xFFFF
            &&& be16_at(inner, 34) == 0xE040
            &&& be32_at(inner, 36) == blocks.len()
            &&& inner.skip(64) == blocks
        }),
{
    let blocks = multi_write_blocks(ar_uuid, writes, writes.len() as int);
    let payload = multi_write_payload(ar_uuid, 0, writes);
    records_have_their_layout(
        IOD_WRITE_REQUEST_HEADER,
        0,
        ar_uuid,
        0xFFFF_FFFF,
        0xFFFF,
        0xFFFF,
        IOD_WRITE_MULTIPLE_INDEX,
        blocks.len() as u32,
        blocks,
    );
    write_requests_carry_the_data(
        object_uuid,
        iface_uuid,
        activity_uuid,
        ar_uuid,
        seq,
        0xFFFF_FFFF,
        0xFFFF,
        0xFFFF,
        IOD_WRITE_MULTIPLE_INDEX,
        payload,
    );
}

/// The object UUID of a device ends with its device id and its vendor id.
pub proof fn object_uuids_name_the_device(device_id: u16, vendor_id: u16)
    ensures
        ({
            let u = object_uuid_bytes(device_id, vendor_id);
            &&& u.len() == 16
            &&& be16_at(u, 12) == device_id
            &&& be16_at(u, 14) == vendor_id
            &&& be16_at(u, 10) == 1
        }),
{
    let u = object_uuid_bytes(device_id, vendor_id);
    be16_placed(u, 10, 1);
    be16_placed(u, 12, device_id);
    be16_placed(u, 14, vendor_id);
}

} // verus!
