//! Block and record builders: the block header and the IOD read and write
//! records. All fields are big-endian.

use vstd::prelude::*;
use crate::bytes::{
    be16, be16_at, be16_placed, be32, be32_at, be32_placed, front_reads, push_all, push_be16,
    push_be32, push_zeros, read_be16, read_be32, zeros,
};

verus! {

pub const IOD_READ_REQUEST_HEADER: u16 = 0x0009;
pub const IOD_WRITE_REQUEST_HEADER: u16 = 0x0008;
pub const IOD_WRITE_RESPONSE_HEADER: u16 = 0x8008;

/// IODWriteMultipleReq record index.
pub const IOD_WRITE_MULTIPLE_INDEX: u16 = 0xE040;

/// Block header: type, length, version high and low.
pub open spec fn block_header_bytes(block_type: u16, block_length: u16, ver_high: u8, ver_low: u8) -> Seq<u8> {
    be16(block_type) + be16(block_length) + seq![ver_high, ver_low]
}

/// Block header: type, length, version high and low (6 bytes).
pub fn block_header(block_type: u16, block_length: u16, ver_high: u8, ver_low: u8) -> (r: Vec<u8>)
    ensures
        r@ == block_header_bytes(block_type, block_length, ver_high, ver_low),
        r@.len() == 6,
{
    let mut out: Vec<u8> = Vec::with_capacity(6);
    push_be16(&mut out, block_type);
    push_be16(&mut out, block_length);
    out.push(ver_high);
    out.push(ver_low);
    assert(out@ =~= block_header_bytes(block_type, block_length, ver_high, ver_low));
    out
}

/// An IOD record: 64 header bytes (block header 6, sequence number 2, AR UUID
/// 16, API 4, slot 2, subslot 2, padding 2, index 2, length 4, target AR UUID
/// 16, padding 8), then the payload.
pub open spec fn iod_record(
    block_type: u16,
    seq: u16,
    ar_uuid: Seq<u8>,
    api: u32,
    slot: u16,
    subslot: u16,
    index: u16,
    length: u32,
    payload: Seq<u8>,
) -> Seq<u8> {
    block_header_bytes(block_type, 60, 1, 0) + be16(seq) + ar_uuid + be32(api) + be16(slot) + be16(
        subslot,
    ) + be16(0) + be16(index) + be32(length) + zeros(24) + payload
}

fn pniod_header(
    block_type: u16,
    seq: u16,
    ar_uuid: &[u8; 16],
    api: u32,
    slot: u16,
    subslot: u16,
    index: u16,
    length: u32,
    payload: &[u8],
) -> (r: Vec<u8>)
    ensures
        r@ == iod_record(block_type, seq, ar_uuid@, api, slot, subslot, index, length, payload@),
        r@.len() == 64 + payload@.len(),
{
    let mut out: Vec<u8> = block_header(block_type, 60, 1, 0);
    push_be16(&mut out, seq);
    push_all(&mut out, ar_uuid.as_slice());
    push_be32(&mut out, api);
    push_be16(&mut out, slot);
    push_be16(&mut out, subslot);
    push_be16(&mut out, 0);
    push_be16(&mut out, index);
    push_be32(&mut out, length);
    push_zeros(&mut out, 24);
    push_all(&mut out, payload);
    out
}

/// IODReadReq record: block 0x0009, the length field is the number of bytes to
/// read, no payload.
pub fn iod_read_request(
    ar_uuid: &[u8; 16],
    api: u32,
    slot: u16,
    subslot: u16,
    index: u16,
    length: u32,
) -> (r: Vec<u8>)
    ensures
        r@ == iod_record(
            IOD_READ_REQUEST_HEADER,
            0,
            ar_uuid@,
            api,
            slot,
            subslot,
            index,
            length,
            Seq::empty(),
        ),
        r@.len() == 64,
{
    pniod_header(IOD_READ_REQUEST_HEADER, 0, ar_uuid, api, slot, subslot, index, length, &[])
}

/// IODWriteReq record: block 0x0008, the length field is the payload length,
/// the payload follows the 64-byte header.
pub fn iod_write_request(
    ar_uuid: &[u8; 16],
    api: u32,
    slot: u16,
    subslot: u16,
    index: u16,
    payload: &[u8],
) -> (r: Vec<u8>)
    ensures
        r@ == iod_record(
            IOD_WRITE_REQUEST_HEADER,
            0,
            ar_uuid@,
            api,
            slot,
            subslot,
            index,
            payload@.len() as u32,
            payload@,
        ),
        r@.len() == 64 + payload@.len(),
{
    pniod_header(
        IOD_WRITE_REQUEST_HEADER,
        0,
        ar_uuid,
        api,
        slot,
        subslot,
        index,
        payload.len() as u32,
        payload,
    )
}

/// One write in an IODWriteMultipleReq: (api, slot, subslot, index, data).
pub type MultiWrite<'a> = (u32, u16, u16, u16, &'a [u8]);

/// Zero bytes that bring `n` to a multiple of four.
pub open spec fn pad4(n: nat) -> nat {
    ((4 - n % 4) % 4) as nat
}

/// The record of the `i`-th write.
pub open spec fn multi_write_block(ar_uuid: Seq<u8>, i: int, w: MultiWrite) -> Seq<u8> {
    iod_record(
        IOD_WRITE_REQUEST_HEADER,
        i as u16,
        ar_uuid,
        w.0,
        w.1,
        w.2,
        w.3,
        w.4@.len() as u32,
        w.4@,
    )
}

/// The records of the first `n` writes, each padded to a multiple of four
/// bytes except the last of all.
pub open spec fn multi_write_blocks(ar_uuid: Seq<u8>, writes: Seq<MultiWrite>, n: int) -> Seq<u8>
    decreases n,
{
    if n <= 0 {
        Seq::empty()
    } else {
        let block = multi_write_block(ar_uuid, n - 1, writes[n - 1]);
        let pad = if n < writes.len() {
            pad4(block.len())
        } else {
            0
        };
        multi_write_blocks(ar_uuid, writes, n - 1) + block + zeros(pad)
    }
}

/// The payload of an IODWriteMultipleReq.
pub open spec fn multi_write_payload(ar_uuid: Seq<u8>, seq_num: u16, writes: Seq<MultiWrite>) -> Seq<
    u8,
> {
    let blocks = multi_write_blocks(ar_uuid, writes, writes.len() as int);
    iod_record(
        IOD_WRITE_REQUEST_HEADER,
        seq_num,
        ar_uuid,
        0xFFFF_FFFF,
        0xFFFF,
        0xFFFF,
        IOD_WRITE_MULTIPLE_INDEX,
        blocks.len() as u32,
        blocks,
    )
}

/// IODWriteMultipleReq payload: the outer 64-byte header (api 0xFFFFFFFF,
/// slot and subslot 0xFFFF, index 0xE040, length the total of the blocks)
/// followed by one IODWriteReq block per write (sequence number = position),
/// each padded to a 4-byte boundary except the last.
pub fn iod_write_multiple_payload(
    ar_uuid: &[u8; 16],
    seq_num: u16,
    writes: &[MultiWrite],
) -> (r: Vec<u8>)
    ensures
        r@ == multi_write_payload(ar_uuid@, seq_num, writes@),
{
    let mut blocks: Vec<u8> = Vec::new();
    let mut i: usize = 0;
    while i < writes.len()
        invariant
            i <= writes@.len(),
            blocks@ == multi_write_blocks(ar_uuid@, writes@, i as int),
        decreases writes@.len() - i,
    {
        let (api, slot, subslot, index, data) = writes[i];
        let block = pniod_header(
            IOD_WRITE_REQUEST_HEADER,
            i as u16,
            ar_uuid,
            api,
            slot,
            subslot,
            index,
            data.len() as u32,
            data,
        );
        push_all(&mut blocks, block.as_slice());
        let ghost with_block = blocks@;
        if i < writes.len() - 1 {
            let pad: usize = (4 - block.len() % 4) % 4;
            push_zeros(&mut blocks, pad);
        }
        assert(with_block + zeros(0) =~= with_block);
        i = i + 1;
    }
    pniod_header(
        IOD_WRITE_REQUEST_HEADER,
        seq_num,
        ar_uuid,
        0xFFFF_FFFF,
        0xFFFF,
        0xFFFF,
        IOD_WRITE_MULTIPLE_INDEX,
        blocks.len() as u32,
        blocks.as_slice(),
    )
}

/// Every write but the last starts its successor on a 4-byte boundary of the
/// block area.
pub proof fn multi_write_blocks_aligned(ar_uuid: Seq<u8>, writes: Seq<MultiWrite>, n: int)
    requires
        0 <= n < writes.len(),
    ensures
        multi_write_blocks(ar_uuid, writes, n).len() % 4 == 0,
    decreases n,
{
    if n > 0 {
        multi_write_blocks_aligned(ar_uuid, writes, n - 1);
        let block = multi_write_block(ar_uuid, n - 1, writes[n - 1]);
        assert((block.len() + pad4(block.len())) % 4 == 0);
    }
}

/// Result of a single write in a WriteMultiple operation.
#[derive(Debug, Clone, Copy, PartialEq, Eq, Structural)]
pub struct WriteMultipleResult {
    pub seq_num: u16,
    pub api: u32,
    pub slot: u16,
    pub subslot: u16,
    pub index: u16,
    pub status: u32,
    pub additional_value1: u16,
    pub additional_value2: u16,
}

impl Default for WriteMultipleResult {
    fn default() -> (r: Self)
        ensures
            r == (WriteMultipleResult {
                seq_num: 0,
                api: 0,
                slot: 0,
                subslot: 0,
                index: 0,
                status: 0,
                additional_value1: 0,
                additional_value2: 0,
            }),
    {
        WriteMultipleResult {
            seq_num: 0,
            api: 0,
            slot: 0,
            subslot: 0,
            index: 0,
            status: 0,
            additional_value1: 0,
            additional_value2: 0,
        }
    }
}

impl WriteMultipleResult {
    /// True if the write succeeded (status == 0).
    pub fn success(&self) -> (r: bool)
        ensures
            r == (self.status == 0),
    {
        self.status == 0
    }
}

/// The result that the entry at `off` records: block header (4), version (2),
/// sequence number (2), AR UUID (16), API (4), slot (2), subslot (2), padding
/// (2), index (2), record length (4), additional values (2 + 2), status (4).
pub open spec fn write_result_at(data: Seq<u8>, off: int) -> WriteMultipleResult {
    WriteMultipleResult {
        seq_num: be16_at(data, off + 6),
        api: be32_at(data, off + 24),
        slot: be16_at(data, off + 28),
        subslot: be16_at(data, off + 30),
        index: be16_at(data, off + 34),
        status: be32_at(data, off + 44),
        additional_value1: be16_at(data, off + 40),
        additional_value2: be16_at(data, off + 42),
    }
}

/// How far the entry at `off` reaches: 4 plus its block length, aligned to 4.
pub open spec fn write_entry_size(data: Seq<u8>, off: int) -> int {
    let size = 4 + be16_at(data, off + 2) as int;
    size + (4 - size % 4) % 4
}

/// The results recorded from `off` on, up to `end` or the first block that is
/// not an IODWriteRes.
pub open spec fn write_results_from(data: Seq<u8>, off: int, end: int) -> Seq<WriteMultipleResult>
    decreases
            if off < end {
                end - off
            } else {
                0
            },
{
    if off + 56 <= end && be16_at(data, off) == IOD_WRITE_RESPONSE_HEADER {
        seq![write_result_at(data, off)] + write_results_from(
            data,
            off + write_entry_size(data, off),
            end,
        )
    } else {
        Seq::empty()
    }
}

/// The results that an IODWriteMultipleRes carries behind its 64-byte header.
pub open spec fn write_results(data: Seq<u8>) -> Seq<WriteMultipleResult> {
    if data.len() < 64 {
        Seq::empty()
    } else {
        let declared = 64 + be32_at(data, 36);
        write_results_from(
            data,
            64,
            if declared < data.len() {
                declared
            } else {
                data.len() as int
            },
        )
    }
}

/// Parse an IODWriteMultipleRes NRD payload into individual results: record
/// length from the outer IOD header, then 56-byte 0x8008 entries from offset
/// 64, each advanced by 4 + block length plus alignment padding. A block of
/// another type or a short buffer ends the walk.
pub fn parse_write_multiple_response(data: &[u8]) -> (r: Vec<WriteMultipleResult>)
    ensures
        r@ == write_results(data@),
{
    let mut results: Vec<WriteMultipleResult> = Vec::new();
    if data.len() < 64 {
        return results;
    }
    let record_len: u32 = read_be32(data, 36);
    let room: usize = data.len() - 64;
    let end: usize = if (record_len as u64) < room as u64 {
        64 + record_len as usize
    } else {
        data.len()
    };
    let mut offset: usize = 64;
    assert(results@ + write_results_from(data@, 64, end as int) =~= write_results_from(
        data@,
        64,
        end as int,
    ));
    while end >= 56 && offset <= end - 56
        invariant
            64 <= offset,
            64 <= end <= data@.len(),
            results@ + write_results_from(data@, offset as int, end as int) == write_results(data@),
        decreases end - offset,
    {
        if read_be16(data, offset) != IOD_WRITE_RESPONSE_HEADER {
            assert(results@ + Seq::<WriteMultipleResult>::empty() =~= results@);
            return results;
        }
        let ghost before = results@;
        results.push(
            WriteMultipleResult {
                seq_num: read_be16(data, offset + 6),
                api: read_be32(data, offset + 24),
                slot: read_be16(data, offset + 28),
                subslot: read_be16(data, offset + 30),
                index: read_be16(data, offset + 34),
                status: read_be32(data, offset + 44),
                additional_value1: read_be16(data, offset + 40),
                additional_value2: read_be16(data, offset + 42),
            },
        );
        let block_size: usize = 4 + read_be16(data, offset + 2) as usize;
        let pad: usize = (4 - block_size % 4) % 4;
        proof {
            let rest = write_results_from(data@, offset + block_size + pad, end as int);
            assert(before + (seq![write_result_at(data@, offset as int)] + rest) =~= results@
                + rest);
        }
        let step: usize = block_size + pad;
        if step > end - offset {
            assert(results@ + Seq::<WriteMultipleResult>::empty() =~= results@);
            return results;
        }
        offset = offset + step;
    }
    assert(results@ + Seq::<WriteMultipleResult>::empty() =~= results@);
    results
}

/// Every byte of an IOD record: block type, length 60, version 1.0, sequence
/// number, AR UUID, API, slot, subslot, index and length, each in its place, zeros
/// between and behind them, and the payload after 64 bytes.
pub proof fn records_have_their_layout(
    block_type: u16,
    seq: u16,
    ar_uuid: Seq<u8>,
    api: u32,
    slot: u16,
    subslot: u16,
    index: u16,
    length: u32,
    payload: Seq<u8>,
)
    requires
        ar_uuid.len() == 16,
    ensures
        ({
            let r = iod_record(block_type, seq, ar_uuid, api, slot, subslot, index, length, payload);
            &&& r.len() == 64 + payload.len()
            &&& be16_at(r, 0) == block_type
            &&& be16_at(r, 2) == 60
            &&& r[4] == 1 && r[5] == 0
            &&& be16_at(r, 6) == seq
            &&& r.subrange(8, 24) == ar_uuid
            &&& be32_at(r, 24) == api
            &&& be16_at(r, 28) == slot
            &&& be16_at(r, 30) == subslot
            &&& be16_at(r, 32) == 0
            &&& be16_at(r, 34) == index
            &&& be32_at(r, 36) == length
            &&& forall|i: int| 40 <= i < 64 ==> #[trigger] r[i] == 0
            &&& r.skip(64) == payload
        }),
{
    let r = iod_record(block_type, seq, ar_uuid, api, slot, subslot, index, length, payload);
    be16_placed(r, 0, block_type);
    be16_placed(r, 2, 60);
    be16_placed(r, 6, seq);
    assert(r.subrange(8, 24) =~= ar_uuid);
    be32_placed(r, 24, api);
    be16_placed(r, 28, slot);
    be16_placed(r, 30, subslot);
    be16_placed(r, 32, 0);
    be16_placed(r, 34, index);
    be32_placed(r, 36, length);
    assert(r.skip(64) =~= payload);
}

/// Where the `i`-th write of a multiple write begins: each begins on the next
/// multiple of four behind the one before it.
pub open spec fn write_start(writes: Seq<MultiWrite>, i: int) -> int
    decreases i,
{
    if i <= 0 {
        0
    } else {
        (write_start(writes, i - 1) + 64 + writes[i - 1].4@.len() + 3) / 4 * 4
    }
}

proof fn lemma_block_len(ar_uuid: Seq<u8>, i: int, w: MultiWrite)
    requires
        ar_uuid.len() == 16,
    ensures
        multi_write_block(ar_uuid, i, w).len() == 64 + w.4@.len(),
{
    records_have_their_layout(
        IOD_WRITE_REQUEST_HEADER,
        i as u16,
        ar_uuid,
        w.0,
        w.1,
        w.2,
        w.3,
        w.4@.len() as u32,
        w.4@,
    );
}

proof fn lemma_padded(a: int, n: nat)
    requires
        0 <= a,
        a % 4 == 0,
    ensures
        a + n + pad4(n) == (a + n + 3) / 4 * 4,
        (a + n + pad4(n)) % 4 == 0,
{
}

proof fn lemma_grown(ar_uuid: Seq<u8>, writes: Seq<MultiWrite>, i: int)
    requires
        0 < i < writes.len(),
    ensures
        ({
            let n = multi_write_block(ar_uuid, i - 1, writes[i - 1]).len();
            multi_write_blocks(ar_uuid, writes, i).len() == multi_write_blocks(
                ar_uuid,
                writes,
                i - 1,
            ).len() + n + pad4(n)
        }),
{
}

proof fn lemma_write_start(ar_uuid: Seq<u8>, writes: Seq<MultiWrite>, i: int)
    requires
        0 <= i < writes.len(),
        ar_uuid.len() == 16,
    ensures
        multi_write_blocks(ar_uuid, writes, i).len() == write_start(writes, i),
        write_start(writes, i) % 4 == 0,
    decreases i,
{
    if i > 0 {
        lemma_write_start(ar_uuid, writes, i - 1);
        lemma_block_len(ar_uuid, i - 1, writes[i - 1]);
        lemma_grown(ar_uuid, writes, i);
        lemma_padded(write_start(writes, i - 1), 64 + writes[i - 1].4@.len());
    }
}

proof fn lemma_blocks_prefix(ar_uuid: Seq<u8>, writes: Seq<MultiWrite>, m: int, n: int)
    requires
        0 <= m <= n <= writes.len(),
    ensures
        multi_write_blocks(ar_uuid, writes, m).len() <= multi_write_blocks(ar_uuid, writes, n).len(),
        multi_write_blocks(ar_uuid, writes, n).take(
            multi_write_blocks(ar_uuid, writes, m).len() as int,
        ) == multi_write_blocks(ar_uuid, writes, m),
    decreases n - m,
{
    let a = multi_write_blocks(ar_uuid, writes, m);
    if m < n {
        lemma_blocks_prefix(ar_uuid, writes, m, n - 1);
        let b = multi_write_blocks(ar_uuid, writes, n - 1);
        assert(multi_write_blocks(ar_uuid, writes, n).take(a.len() as int) =~= b.take(
            a.len() as int,
        ));
    } else {
        assert(a.take(a.len() as int) =~= a);
    }
}

/// A multiple write carries every write, in order: the `i`-th as a record of its
/// own with sequence number `i`, its own API, slot, subslot and index, the length
/// of its data, and its data.
pub proof fn every_write_is_carried(ar_uuid: Seq<u8>, writes: Seq<MultiWrite>, i: int)
    requires
        ar_uuid.len() == 16,
        0 <= i < writes.len() <= 0xFFFF,
        writes[i].4@.len() <= 0xFFFF_FFFF,
    ensures
        ({
            let b = multi_write_blocks(ar_uuid, writes, writes.len() as int);
            let at = write_start(writes, i);
            let (api, slot, subslot, index, data) = writes[i];
            let r = b.subrange(at, at + 64 + data@.len());
            &&& at + 64 + data@.len() <= b.len()
            &&& be16_at(r, 0) == 0x0008
            &&& be16_at(r, 6) == i
            &&& r.subrange(8, 24) == ar_uuid
            &&& be32_at(r, 24) == api
            &&& be16_at(r, 28) == slot
            &&& be16_at(r, 30) == subslot
            &&& be16_at(r, 34) == index
            &&& be32_at(r, 36) == data@.len()
            &&& r.skip(64) == data@
        }),
{
    let n = writes.len() as int;
    let b = multi_write_blocks(ar_uuid, writes, n);
    let before = multi_write_blocks(ar_uuid, writes, i);
    let upto = multi_write_blocks(ar_uuid, writes, i + 1);
    let w = writes[i];
    let block = multi_write_block(ar_uuid, i, w);
    lemma_write_start(ar_uuid, writes, i);
    lemma_blocks_prefix(ar_uuid, writes, i + 1, n);
    let at = before.len() as int;
    let end = at + 64 + w.4@.len();
    assert(upto.subrange(at, end) =~= block);
    assert(b.subrange(at, end) =~= b.take(upto.len() as int).subrange(at, end));
    records_have_their_layout(
        IOD_WRITE_REQUEST_HEADER,
        i as u16,
        ar_uuid,
        w.0,
        w.1,
        w.2,
        w.3,
        w.4@.len() as u32,
        w.4@,
    );
}

/// The result of one write as a device lays it out, in 64 bytes.
#[verifier::opaque]
pub open spec fn laid_out_result(r: WriteMultipleResult, ar_uuid: Seq<u8>, length: u32) -> Seq<u8> {
    be16(0x8008) + be16(60) + seq![1u8, 0] + be16(r.seq_num) + ar_uuid + be32(r.api) + be16(r.slot)
        + be16(r.subslot) + be16(0) + be16(r.index) + be32(length) + be16(r.additional_value1)
        + be16(r.additional_value2) + be32(r.status) + zeros(16)
}

/// Results as a device lays them out, one behind the other.
pub open spec fn laid_out_results(s: Seq<WriteMultipleResult>, ar_uuid: Seq<u8>, length: u32) -> Seq<u8>
    decreases s.len(),
{
    if s.len() == 0 {
        Seq::empty()
    } else {
        laid_out_result(s[0], ar_uuid, length) + laid_out_results(s.skip(1), ar_uuid, length)
    }
}

proof fn lemma_result(pre: Seq<u8>, r: WriteMultipleResult, ar_uuid: Seq<u8>, length: u32, post: Seq<u8>)
    requires
        ar_uuid.len() == 16,
    ensures
        ({
            let d = pre + laid_out_result(r, ar_uuid, length) + post;
            let k = pre.len() as int;
            &&& be16_at(d, k) == 0x8008
            &&& be16_at(d, k + 2) == 60
            &&& write_result_at(d, k) == r
            &&& laid_out_result(r, ar_uuid, length).len() == 64
        }),
{
    reveal(laid_out_result);
    let d = pre + laid_out_result(r, ar_uuid, length) + post;
    let k = pre.len() as int;
    be16_placed(d, k, 0x8008);
    be16_placed(d, k + 2, 60);
    be16_placed(d, k + 6, r.seq_num);
    be32_placed(d, k + 24, r.api);
    be16_placed(d, k + 28, r.slot);
    be16_placed(d, k + 30, r.subslot);
    be16_placed(d, k + 34, r.index);
    be16_placed(d, k + 40, r.additional_value1);
    be16_placed(d, k + 42, r.additional_value2);
    be32_placed(d, k + 44, r.status);
}

proof fn lemma_first_result(pre: Seq<u8>, r: WriteMultipleResult, ar_uuid: Seq<u8>, length: u32, post: Seq<u8>)
    requires
        ar_uuid.len() == 16,
    ensures
        ({
            let d = pre + laid_out_result(r, ar_uuid, length) + post;
            let k = pre.len() as int;
            write_results_from(d, k, d.len() as int) == seq![r] + write_results_from(
                d,
                k + 64,
                d.len() as int,
            )
        }),
        laid_out_result(r, ar_uuid, length).len() == 64,
{
    lemma_result(pre, r, ar_uuid, length, post);
}

proof fn lemma_results(pre: Seq<u8>, s: Seq<WriteMultipleResult>, ar_uuid: Seq<u8>, length: u32)
    requires
        ar_uuid.len() == 16,
    ensures
        ({
            let d = pre + laid_out_results(s, ar_uuid, length);
            write_results_from(d, pre.len() as int, d.len() as int) == s
        }),
        laid_out_results(s, ar_uuid, length).len() == 64 * s.len(),
    decreases s.len(),
{
    let d = pre + laid_out_results(s, ar_uuid, length);
    if s.len() > 0 {
        let rest = s.skip(1);
        let first = laid_out_result(s[0], ar_uuid, length);
        let tail = laid_out_results(rest, ar_uuid, length);
        lemma_first_result(pre, s[0], ar_uuid, length, tail);
        assert(d =~= pre + first + tail);
        lemma_results(pre + first, rest, ar_uuid, length);
        assert(d =~= (pre + first) + tail);
        assert(seq![s[0]] + rest =~= s);
    } else {
        assert(s =~= Seq::empty());
    }
}

/// The results of a multiple write read back, all of them and in order, each field
/// from its own bytes.
pub proof fn write_results_read_back(
    head: Seq<u8>,
    s: Seq<WriteMultipleResult>,
    ar_uuid: Seq<u8>,
    length: u32,
)
    requires
        ar_uuid.len() == 16,
        head.len() == 64,
        be32_at(head, 36) == 64 * s.len(),
    ensures
        write_results(head + laid_out_results(s, ar_uuid, length)) == s,
{
    lemma_results(head, s, ar_uuid, length);
    front_reads(head, laid_out_results(s, ar_uuid, length));
}

} // verus!
