//! What a device states in a diagnosis record, byte for byte, and how every entry of
//! it is reported.

use vstd::prelude::*;
use crate::bytes::{be16, be16_at, be16_placed, be32, be32_at, be32_placed};
use crate::diagnosis::{
    channel_error_text, channel_properties, diagnosis_entries, entries_from, entry_at,
    ext_error_text, flat_entries_from, location_at, ChannelAccumulative, ChannelDirection,
    ChannelProperties, ChannelSpecifier, ChannelType, DiagModel, DiagnosisKind,
};

verus! {

/// A diagnosis entry as a device states it: channel, properties, USI, error type,
/// and what the USI calls for; in front of it a location (API, slot, subslot), or
/// none.
pub struct StatedEntry {
    pub location: Option<(u32, u16, u16)>,
    pub channel: u16,
    pub properties: u16,
    pub usi: u16,
    pub error_type: u16,
    pub ext_error_type: u16,
    pub add_value: u32,
    pub qualifier: u32,
}

impl StatedEntry {
    /// A location has a small API and a slot below 0x8000, and an entry without
    /// one is not mistaken for a location.
    pub open spec fn valid(self) -> bool {
        match self.location {
            Some((api, slot, _)) => api < 0x10000 && slot < 0x8000,
            None => self.channel != 0 || self.usi >= 0x8000,
        }
    }

    /// Its bytes in a record.
    #[verifier::opaque]
    pub open spec fn laid_out(self) -> Seq<u8> {
        (match self.location {
            Some((api, slot, subslot)) => be32(api) + be16(slot) + be16(subslot),
            None => Seq::empty(),
        }) + self.entry()
    }

    /// Its bytes behind the location.
    #[verifier::opaque]
    pub open spec fn entry(self) -> Seq<u8> {
        be16(self.channel) + be16(self.properties) + be16(self.usi) + be16(self.error_type) + (if self.usi
            == 0x8002 || self.usi == 0x8003 {
            be16(self.ext_error_type) + be32(self.add_value)
        } else {
            Seq::empty()
        }) + (if self.usi == 0x8003 {
            be32(self.qualifier)
        } else {
            Seq::empty()
        })
    }

    /// Where it is, if the location before it is the given one.
    pub open spec fn place(self, before: (u32, u16, u16)) -> (u32, u16, u16) {
        match self.location {
            Some(l) => l,
            None => before,
        }
    }

    /// What it says.
    #[verifier::opaque]
    pub open spec fn says(self, place: (u32, u16, u16)) -> DiagModel {
        let extended = self.usi == 0x8002 || self.usi == 0x8003;
        DiagModel {
            kind: if self.usi == 0x8002 {
                DiagnosisKind::Ext
            } else if self.usi == 0x8003 {
                DiagnosisKind::Qualified
            } else {
                DiagnosisKind::Channel
            },
            api: place.0,
            slot: place.1,
            subslot: place.2,
            channel_number: self.channel,
            channel_properties: channel_properties(self.properties),
            error_type: self.error_type,
            error_type_name: channel_error_text(self.error_type),
            ext_error_type: if extended {
                self.ext_error_type
            } else {
                0
            },
            ext_error_type_name: if extended {
                ext_error_text(self.error_type, self.ext_error_type)
            } else {
                Seq::empty()
            },
            ext_add_value: if extended {
                self.add_value
            } else {
                0
            },
            qualifier: if self.usi == 0x8003 {
                self.qualifier
            } else {
                0
            },
        }
    }
}

/// Entries as a device lays them out, one behind the other.
pub open spec fn laid_out_entries(s: Seq<StatedEntry>) -> Seq<u8>
    decreases s.len(),
{
    if s.len() == 0 {
        Seq::empty()
    } else {
        s[0].laid_out() + laid_out_entries(s.skip(1))
    }
}

/// What some entries say, one after the other: each at the location that was
/// stated last.
pub open spec fn all_say(s: Seq<StatedEntry>, place: (u32, u16, u16)) -> Seq<DiagModel>
    decreases s.len(),
{
    if s.len() == 0 {
        Seq::empty()
    } else {
        let here = s[0].place(place);
        seq![s[0].says(here)] + all_say(s.skip(1), here)
    }
}

proof fn lemma_entry_fields(pre: Seq<u8>, e: StatedEntry, post: Seq<u8>)
    ensures
        ({
            let d = pre + e.entry() + post;
            let k = pre.len() as int;
            &&& be16_at(d, k) == e.channel
            &&& be16_at(d, k + 2) == e.properties
            &&& be16_at(d, k + 4) == e.usi
            &&& be16_at(d, k + 6) == e.error_type
            &&& be32_at(d, k) == e.channel * 0x10000 + e.properties
            &&& e.usi == 0x8002 || e.usi == 0x8003 ==> be16_at(d, k + 8) == e.ext_error_type
                && be32_at(d, k + 10) == e.add_value
            &&& e.usi == 0x8003 ==> be32_at(d, k + 14) == e.qualifier
            &&& e.entry().len() == if e.usi == 0x8003 {
                18nat
            } else if e.usi == 0x8002 {
                14
            } else {
                8
            }
        }),
{
    reveal(StatedEntry::entry);
    let d = pre + e.entry() + post;
    let k = pre.len() as int;
    be16_placed(d, k, e.channel);
    be16_placed(d, k + 2, e.properties);
    be16_placed(d, k + 4, e.usi);
    be16_placed(d, k + 6, e.error_type);
    if e.usi == 0x8002 || e.usi == 0x8003 {
        be16_placed(d, k + 8, e.ext_error_type);
        be32_placed(d, k + 10, e.add_value);
    }
    if e.usi == 0x8003 {
        be32_placed(d, k + 14, e.qualifier);
    }
}

proof fn lemma_entry(pre: Seq<u8>, e: StatedEntry, post: Seq<u8>, place: (u32, u16, u16))
    ensures
        entry_at(pre + e.entry() + post, pre.len() as int, place.0, place.1, place.2) == Some(
            (e.says(place), (pre.len() + e.entry().len()) as int),
        ),
{
    reveal(StatedEntry::says);
    lemma_entry_fields(pre, e, post);
}

proof fn lemma_unfold(d: Seq<u8>, off: int, place: (u32, u16, u16), here: (u32, u16, u16), m: DiagModel, next: int)
    requires
        off + 6 <= d.len(),
        off < next <= d.len(),
        ({
            let at = if location_at(d, off) {
                off + 8
            } else {
                off
            };
            entry_at(d, at, here.0, here.1, here.2) == Some((m, next))
        }),
        here == if location_at(d, off) {
            (be32_at(d, off), be16_at(d, off + 4), be16_at(d, off + 6))
        } else {
            place
        },
    ensures
        entries_from(d, off, place.0, place.1, place.2) == seq![m] + entries_from(
            d,
            next,
            here.0,
            here.1,
            here.2,
        ),
{
}

proof fn lemma_first_entry(pre: Seq<u8>, e: StatedEntry, post: Seq<u8>, place: (u32, u16, u16))
    requires
        e.valid(),
    ensures
        ({
            let d = pre + e.laid_out() + post;
            let here = e.place(place);
            entries_from(d, pre.len() as int, place.0, place.1, place.2) == seq![e.says(here)]
                + entries_from(
                d,
                (pre.len() + e.laid_out().len()) as int,
                here.0,
                here.1,
                here.2,
            )
        }),
{
    let d = pre + e.laid_out() + post;
    let k = pre.len() as int;
    let here = e.place(place);
    reveal(StatedEntry::laid_out);
    match e.location {
        Some((api, slot, subslot)) => {
            let l = be32(api) + be16(slot) + be16(subslot);
            assert(d =~= (pre + l) + e.entry() + post);
            be32_placed(d, k, api);
            be16_placed(d, k + 4, slot);
            be16_placed(d, k + 6, subslot);
            lemma_entry_fields(pre + l, e, post);
            lemma_entry(pre + l, e, post, here);
            lemma_unfold(d, k, place, here, e.says(here), k + 8 + e.entry().len());
        },
        None => {
            assert(e.laid_out() =~= e.entry());
            assert(d =~= pre + e.entry() + post);
            lemma_entry_fields(pre, e, post);
            lemma_entry(pre, e, post, here);
            lemma_unfold(d, k, place, here, e.says(here), k + e.entry().len());
        },
    }
}

proof fn lemma_stated_entries(pre: Seq<u8>, s: Seq<StatedEntry>, post: Seq<u8>, place: (u32, u16, u16))
    requires
        forall|i: int| 0 <= i < s.len() ==> (#[trigger] s[i]).valid(),
        post.len() < 6,
    ensures
        entries_from(
            pre + laid_out_entries(s) + post,
            pre.len() as int,
            place.0,
            place.1,
            place.2,
        ) == all_say(s, place),
    decreases s.len(),
{
    let d = pre + laid_out_entries(s) + post;
    if s.len() == 0 {
        assert(d =~= pre + post);
    } else {
        let e = s[0];
        assert(e.valid());
        let rest = s.skip(1);
        let tail = laid_out_entries(rest);
        lemma_first_entry(pre, e, tail + post, place);
        assert(d =~= pre + e.laid_out() + (tail + post));
        assert forall|i: int| 0 <= i < rest.len() implies (#[trigger] rest[i]).valid() by {
            assert(rest[i] == s[i + 1]);
        }
        lemma_stated_entries(pre + e.laid_out(), rest, post, e.place(place));
        assert(d =~= (pre + e.laid_out()) + tail + post);
    }
}

/// Every entry of a diagnosis record is reported, in order, each field from its
/// own bytes and each at the location that was stated last; fewer bytes than an
/// entry has at the end add nothing.
pub proof fn every_stated_entry_is_reported(
    block_type: u16,
    length: u16,
    version: (u8, u8),
    entries: Seq<StatedEntry>,
    rest: Seq<u8>,
    place: (u32, u16, u16),
)
    requires
        block_type == 0x0010 || block_type == 0x0011 || block_type == 0x8010 || block_type == 0x8011
            || block_type == 0x8012,
        forall|i: int| 0 <= i < entries.len() ==> (#[trigger] entries[i]).valid(),
        rest.len() < 6,
    ensures
        diagnosis_entries(
            be16(block_type) + be16(length) + seq![version.0, version.1] + laid_out_entries(entries)
                + rest,
            place.0,
            place.1,
            place.2,
        ) == all_say(entries, place),
        all_say(entries, place).len() == entries.len(),
{
    let head = be16(block_type) + be16(length) + seq![version.0, version.1];
    let d = head + laid_out_entries(entries) + rest;
    be16_placed(d, 0, block_type);
    lemma_stated_entries(head, entries, rest, place);
    lemma_all_say_len(entries, place);
}

/// The same holds of a record without a block header, unless its first channel
/// number reads as one.
pub proof fn every_entry_without_a_header_is_reported(
    entries: Seq<StatedEntry>,
    rest: Seq<u8>,
    place: (u32, u16, u16),
)
    requires
        entries.len() > 0,
        forall|i: int| 0 <= i < entries.len() ==> (#[trigger] entries[i]).valid(),
        rest.len() < 6,
        ({
            let t = be16_at(laid_out_entries(entries) + rest, 0);
            t != 0x0010 && t != 0x0011 && t != 0x8010 && t != 0x8011 && t != 0x8012
        }),
    ensures
        diagnosis_entries(laid_out_entries(entries) + rest, place.0, place.1, place.2) == all_say(
            entries,
            place,
        ),
{
    let d = laid_out_entries(entries) + rest;
    reveal(StatedEntry::laid_out);
    reveal(StatedEntry::entry);
    assert(entries[0].laid_out().len() >= 8);
    assert(d.len() >= 8);
    lemma_stated_entries(Seq::empty(), entries, rest, place);
    assert(Seq::<u8>::empty() + laid_out_entries(entries) + rest =~= d);
}

proof fn lemma_all_say_len(s: Seq<StatedEntry>, place: (u32, u16, u16))
    ensures
        all_say(s, place).len() == s.len(),
    decreases s.len(),
{
    if s.len() > 0 {
        lemma_all_say_len(s.skip(1), s[0].place(place));
    }
}

/// An entry of the flat format: channel number, properties, error type.
pub open spec fn flat_entry(e: (u16, u16, u16)) -> Seq<u8> {
    be16(e.0) + be16(e.1) + be16(e.2)
}

/// Flat entries, one behind the other.
pub open spec fn flat_entries(s: Seq<(u16, u16, u16)>) -> Seq<u8>
    decreases s.len(),
{
    if s.len() == 0 {
        Seq::empty()
    } else {
        flat_entry(s[0]) + flat_entries(s.skip(1))
    }
}

/// What a flat entry says.
pub open spec fn flat_says(e: (u16, u16, u16), place: (u32, u16, u16)) -> DiagModel {
    DiagModel {
        kind: DiagnosisKind::Channel,
        api: place.0,
        slot: place.1,
        subslot: place.2,
        channel_number: e.0,
        channel_properties: channel_properties(e.1),
        error_type: e.2,
        error_type_name: channel_error_text(e.2),
        ext_error_type: 0,
        ext_error_type_name: Seq::empty(),
        ext_add_value: 0,
        qualifier: 0,
    }
}

/// Every entry of a record in the flat format is reported, in order, up to one
/// that is all zero or to the end of the record.
pub proof fn every_flat_entry_is_reported(
    pre: Seq<u8>,
    entries: Seq<(u16, u16, u16)>,
    post: Seq<u8>,
    place: (u32, u16, u16),
)
    requires
        forall|i: int|
            0 <= i < entries.len() ==> !((#[trigger] entries[i]).0 == 0 && entries[i].1 == 0
                && entries[i].2 == 0),
        post.len() < 6 || forall|i: int| 0 <= i < 6 ==> #[trigger] post[i] == 0,
    ensures
        flat_entries_from(
            pre + flat_entries(entries) + post,
            pre.len() as int,
            place.0,
            place.1,
            place.2,
        ) == Seq::new(entries.len(), |i: int| flat_says(entries[i], place)),
    decreases entries.len(),
{
    let d = pre + flat_entries(entries) + post;
    let k = pre.len() as int;
    let want = Seq::new(entries.len(), |i: int| flat_says(entries[i], place));
    if entries.len() == 0 {
        assert(d =~= pre + post);
        if post.len() >= 6 {
            assert(forall|i: int| 0 <= i < 6 ==> d[k + i] == #[trigger] post[i]);
            assert(post[0] == 0 && post[1] == 0 && post[2] == 0 && post[3] == 0 && post[4] == 0
                && post[5] == 0);
            assert(d[k] == 0 && d[k + 1] == 0 && d[k + 2] == 0 && d[k + 3] == 0 && d[k + 4] == 0
                && d[k + 5] == 0);
        }
        assert(want =~= Seq::empty());
    } else {
        let e = entries[0];
        let rest = entries.skip(1);
        let tail = flat_entries(rest);
        assert(d =~= pre + flat_entry(e) + (tail + post));
        be16_placed(d, k, e.0);
        be16_placed(d, k + 2, e.1);
        be16_placed(d, k + 4, e.2);
        assert(!(e.0 == 0 && e.1 == 0 && e.2 == 0));
        assert(forall|i: int| 0 <= i < rest.len() ==> rest[i] == #[trigger] entries[i + 1]);
        every_flat_entry_is_reported(pre + flat_entry(e), rest, post, place);
        assert(d =~= (pre + flat_entry(e)) + tail + post);
        assert(want =~= seq![flat_says(e, place)] + Seq::new(
            rest.len(),
            |i: int| flat_says(rest[i], place),
        ));
    }
}

proof fn lemma_bit_fields(a: int, b: int, c: int, d: int, e: int, f: int, g: int, h: int)
    requires
        0 <= a < 4,
        0 <= b < 8,
        0 <= c < 2,
        0 <= d < 2,
        0 <= e < 2,
        0 <= f < 8,
        0 <= g < 4,
        0 <= h < 8,
    ensures
        ({
            let v = a + 4 * b + 32 * c + 64 * d + 128 * e + 256 * f + 2048 * g + 8192 * h;
            &&& 0 <= v < 0x10000
            &&& v % 4 == a
            &&& v / 4 % 8 == b
            &&& v / 32 % 2 == c
            &&& v / 64 % 2 == d
            &&& v / 256 % 8 == f
            &&& v / 2048 % 4 == g
        }),
{
    let v = a + 4 * b + 32 * c + 64 * d + 128 * e + 256 * f + 2048 * g + 8192 * h;
    let v6 = g + 4 * h;
    let v5 = f + 8 * v6;
    let v4 = e + 2 * v5;
    let v3 = d + 2 * v4;
    let v2 = c + 2 * v3;
    let v1 = b + 8 * v2;
    assert(v == a + 4 * v1);
    assert(v / 4 == v1);
    assert(v == (a + 4 * b) + 32 * v2);
    assert(v / 32 == v2);
    assert(v == (a + 4 * b + 32 * c) + 64 * v3);
    assert(v / 64 == v3);
    assert(v == (a + 4 * b + 32 * c + 64 * d + 128 * e) + 256 * v5);
    assert(v / 256 == v5);
    assert(v == (a + 4 * b + 32 * c + 64 * d + 128 * e + 256 * f) + 2048 * v6);
    assert(v / 2048 == v6);
}

/// Each part of ChannelProperties is read from its own bits, whatever the others
/// are.
pub proof fn properties_are_read_bit_by_bit(
    kind: u16,
    accumulative: u16,
    required: bool,
    demanded: bool,
    reserved: u16,
    specifier: u16,
    direction: u16,
    upper: u16,
)
    requires
        kind < 4,
        accumulative < 8,
        reserved < 2,
        specifier < 8,
        direction < 4,
        upper < 8,
    ensures
        ({
            let p = channel_properties(
                (kind + 4 * accumulative + (if required {
                    32int
                } else {
                    0
                }) + (if demanded {
                    64int
                } else {
                    0
                }) + 128 * reserved + 256 * specifier + 2048 * direction + 8192 * upper) as u16,
            );
            &&& p.channel_type == seq![
                ChannelType::Reserved,
                ChannelType::Specific,
                ChannelType::All,
                ChannelType::Submodule,
            ][kind as int]
            &&& p.accumulative == if accumulative == 1 {
                ChannelAccumulative::MainFault
            } else if accumulative == 2 {
                ChannelAccumulative::AdditionalFault
            } else {
                ChannelAccumulative::No
            }
            &&& p.maintenance_required == required
            &&& p.maintenance_demanded == demanded
            &&& p.specifier == if specifier < 4 {
                seq![
                    ChannelSpecifier::AllDisappears,
                    ChannelSpecifier::Appears,
                    ChannelSpecifier::Disappears,
                    ChannelSpecifier::DisappearsOther,
                ][specifier as int]
            } else {
                ChannelSpecifier::AllDisappears
            }
            &&& p.direction == seq![
                ChannelDirection::Manufacturer,
                ChannelDirection::Input,
                ChannelDirection::Output,
                ChannelDirection::Bidirectional,
            ][direction as int]
        }),
{
    let r: int = if required {
        1
    } else {
        0
    };
    let m: int = if demanded {
        1
    } else {
        0
    };
    lemma_bit_fields(
        kind as int,
        accumulative as int,
        r,
        m,
        reserved as int,
        specifier as int,
        direction as int,
        upper as int,
    );
}

/// Entries take room: eight bytes each at least.
pub proof fn entries_take_room(s: Seq<StatedEntry>)
    ensures
        laid_out_entries(s).len() >= 8 * s.len(),
    decreases s.len(),
{
    reveal(StatedEntry::laid_out);
    reveal(StatedEntry::entry);
    if s.len() > 0 {
        entries_take_room(s.skip(1));
    }
}

} // verus!
