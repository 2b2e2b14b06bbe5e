//! What reading diagnosis from a device comes to: every entry that the device states is
//! reported, and every standard record that has entries is kept.

use vstd::prelude::*;
use crate::bytes::be16;
use crate::connection::{
    conn_all_diagnosis, conn_diagnosis, conn_read, diagnosis_of, diagnosis_places, ConnModel,
};
use crate::diagnosis_layout::{
    all_say, entries_take_room, every_stated_entry_is_reported, laid_out_entries, StatedEntry,
};

verus! {

/// A diagnosis record that a device answers with is reported entry by entry, each at
/// the location that was stated last or else at the place that was asked; a record
/// that has none in the full format is read in the flat one; and a read that failed
/// reports none.
pub proof fn a_diagnosis_read_reports_every_entry(
    block_type: u16,
    length: u16,
    version: (u8, u8),
    entries: Seq<StatedEntry>,
    rest: Seq<u8>,
    slot: u16,
    subslot: u16,
    message: Seq<char>,
)
    requires
        block_type == 0x0010 || block_type == 0x0011 || block_type == 0x8010 || block_type == 0x8011
            || block_type == 0x8012,
        entries.len() > 0,
        forall|i: int| 0 <= i < entries.len() ==> (#[trigger] entries[i]).valid(),
        rest.len() < 6,
    ensures
        ({
            let d = be16(block_type) + be16(length) + seq![version.0, version.1] + laid_out_entries(
                entries,
            ) + rest;
            let r = diagnosis_of(Ok(d), slot, subslot);
            &&& r.entries == all_say(entries, (0, slot, subslot))
            &&& r.entries.len() == entries.len()
            &&& r.raw_data == d && r.api == 0 && r.slot == slot && r.subslot == subslot
        }),
        diagnosis_of(Err(message), slot, subslot).entries.len() == 0,
{
    let d = be16(block_type) + be16(length) + seq![version.0, version.1] + laid_out_entries(entries)
        + rest;
    every_stated_entry_is_reported(block_type, length, version, entries, rest, (0, slot, subslot));
    entries_take_room(entries);
}

/// Reading diagnosis asks the record at its place and reports what the read gave.
pub proof fn a_diagnosis_read_asks_its_record(c: ConnModel, slot: u16, subslot: u16, index: u16)
    ensures
        conn_diagnosis(c, slot, subslot, index).0 == conn_read(c, index, slot, subslot, 4096).0,
        conn_diagnosis(c, slot, subslot, index).1 == diagnosis_of(
            conn_read(c, index, slot, subslot, 4096).1,
            slot,
            subslot,
        ),
{
}

/// A standard diagnosis record: its index, and the slot and subslot where it is read.
pub open spec fn standard_record(i: int) -> (u16, u16, u16) {
    (
        if i == 0 {
            0x800A
        } else if i == 1 {
            0x800B
        } else if i == 2 {
            0x800C
        } else if i == 3 {
            0xF000
        } else if i == 4 {
            0xF00A
        } else {
            0xF00B
        },
        0,
        if i == 2 {
            1
        } else {
            0
        },
    )
}

/// All diagnosis is that of the six standard records, read one after the other: a
/// record is in it if and only if it has entries, under its index, and nothing else
/// is.
pub proof fn all_diagnosis_holds_every_record(c: ConnModel, i: int)
    requires
        0 <= i < 6,
    ensures
        diagnosis_places().len() == 6,
        ({
            let (index, slot, subslot) = standard_record(i);
            let read = conn_diagnosis(conn_all_diagnosis(c, i).0, slot, subslot, index);
            let all = conn_all_diagnosis(c, 6).1;
            &&& conn_all_diagnosis(c, i + 1).0 == read.0
            &&& all.contains_key(index) <==> read.1.entries.len() > 0
            &&& all.contains_key(index) ==> all[index] == read.1
            &&& forall|k: u16| #[trigger]
                all.contains_key(k) ==> exists|j: int|
                    0 <= j < 6 && (#[trigger] standard_record(j)).0 == k
        }),
{
    lemma_all_diagnosis(c, i, 6);
    lemma_only_standard(c, 6);
}

proof fn lemma_places()
    ensures
        diagnosis_places().len() == 6,
        forall|j: int| 0 <= j < 6 ==> #[trigger] diagnosis_places()[j] == standard_record(j),
{
    let p = diagnosis_places();
    assert(p[0] == standard_record(0) && p[1] == standard_record(1) && p[2] == standard_record(2)
        && p[3] == standard_record(3) && p[4] == standard_record(4) && p[5] == standard_record(5));
}

proof fn lemma_all_diagnosis(c: ConnModel, i: int, k: int)
    requires
        0 <= i < k <= 6,
    ensures
        diagnosis_places().len() == 6,
        ({
            let (index, slot, subslot) = standard_record(i);
            let read = conn_diagnosis(conn_all_diagnosis(c, i).0, slot, subslot, index);
            let all = conn_all_diagnosis(c, k).1;
            &&& conn_all_diagnosis(c, i + 1).0 == read.0
            &&& all.contains_key(index) <==> read.1.entries.len() > 0
            &&& all.contains_key(index) ==> all[index] == read.1
        }),
    decreases k,
{
    lemma_places();
    lemma_only_standard(c, i);
    assert(diagnosis_places()[i] == standard_record(i));
    assert(diagnosis_places()[k - 1] == standard_record(k - 1));
    if i < k - 1 {
        lemma_all_diagnosis(c, i, k - 1);
    } else if conn_all_diagnosis(c, i).1.contains_key(standard_record(i).0) {
        let j = choose|j: int|
            0 <= j < i && (#[trigger] standard_record(j)).0 == standard_record(i).0;
        assert(false);
    }
}

proof fn lemma_only_standard(c: ConnModel, k: int)
    requires
        0 <= k <= 6,
    ensures
        forall|x: u16| #[trigger]
            conn_all_diagnosis(c, k).1.contains_key(x) ==> exists|j: int|
                0 <= j < k && (#[trigger] standard_record(j)).0 == x,
    decreases k,
{
    if k > 0 {
        lemma_places();
        lemma_only_standard(c, k - 1);
        assert(diagnosis_places()[k - 1] == standard_record(k - 1));
        assert forall|x: u16| #[trigger] conn_all_diagnosis(c, k).1.contains_key(x) implies exists|
            j: int,
        | 0 <= j < k && (#[trigger] standard_record(j)).0 == x by {
            if x == standard_record(k - 1).0 {
            } else {
                assert(conn_all_diagnosis(c, k - 1).1.contains_key(x));
                let j = choose|j: int| 0 <= j < k - 1 && (#[trigger] standard_record(j)).0 == x;
                assert(standard_record(j).0 == x);
            }
        }
    }
}

} // verus!
