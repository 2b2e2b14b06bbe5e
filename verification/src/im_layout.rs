//! How identification records are laid out on the wire, and that what is read from
//! them is what they state: the maintenance records, and the two lists of modules.

use vstd::prelude::*;
use vstd::utf8::encode_utf8;
use crate::bytes::{
    be16, be16_at, be16_placed, be32, be32_at, be32_placed, trimmed_of_padded, zeros,
};
use crate::im::{
    apis_from, decoded, filter_apis, filter_modules, filter_subslots, filter_topology, header_at,
    identified_slots, slots_from, subslots_from, BlockHeader, InM0, InM1, InM2, InM3, SlotMap,
    SlotModel, SubslotMap,
};
use crate::text::lossy_of_encoded;

verus! {

/// A block header as it is laid out.
pub open spec fn laid_out_header(h: BlockHeader) -> Seq<u8> {
    be16(h.block_type) + be16(h.block_length) + seq![h.version_high, h.version_low]
}

proof fn lemma_header(pre: Seq<u8>, h: BlockHeader, post: Seq<u8>)
    ensures
        header_at(pre + laid_out_header(h) + post, pre.len() as int) == h,
        laid_out_header(h).len() == 6,
{
    let d = pre + laid_out_header(h) + post;
    let k = pre.len() as int;
    be16_placed(d, k, h.block_type);
    be16_placed(d, k + 2, h.block_length);
}

/// The numbers at the end of an I&M0 record: hardware revision, software revision
/// (prefix, enhancement, bug fix, internal change), revision counter, profile,
/// profile type, version, supported records.
pub open spec fn laid_out_revisions(v: InM0) -> Seq<u8> {
    be16(v.im_hardware_revision) + seq![
        v.sw_revision_prefix,
        v.im_sw_revision_functional_enhancement,
        v.im_sw_revision_bug_fix,
        v.im_sw_revision_internal_change,
    ] + be16(v.im_revision_counter) + be16(v.im_profile_id) + be16(v.im_profile_specific_type)
        + be16(v.im_version) + be16(v.im_supported)
}

/// I&M0 reads back as it was laid out: block header, vendor id, order id, serial
/// number, and the numbers behind them, each from its own bytes.
pub proof fn im0_reads_back(v: InM0, w: InM0, rest: Seq<u8>)
    requires
        v.read_from(
            laid_out_header(w.block_header) + seq![w.vendor_id_high, w.vendor_id_low] + w.order_id@
                + w.im_serial_number@ + laid_out_revisions(w) + rest,
        ),
    ensures
        v.block_header == w.block_header,
        v.vendor_id_high == w.vendor_id_high,
        v.vendor_id_low == w.vendor_id_low,
        v.order_id@ == w.order_id@,
        v.im_serial_number@ == w.im_serial_number@,
        v.im_hardware_revision == w.im_hardware_revision,
        v.sw_revision_prefix == w.sw_revision_prefix,
        v.im_sw_revision_functional_enhancement == w.im_sw_revision_functional_enhancement,
        v.im_sw_revision_bug_fix == w.im_sw_revision_bug_fix,
        v.im_sw_revision_internal_change == w.im_sw_revision_internal_change,
        v.im_revision_counter == w.im_revision_counter,
        v.im_profile_id == w.im_profile_id,
        v.im_profile_specific_type == w.im_profile_specific_type,
        v.im_version == w.im_version,
        v.im_supported == w.im_supported,
{
    let head = laid_out_header(w.block_header);
    let numbers = laid_out_revisions(w);
    let d = head + seq![w.vendor_id_high, w.vendor_id_low] + w.order_id@ + w.im_serial_number@
        + numbers + rest;
    lemma_header(Seq::empty(), w.block_header, d.skip(6));
    assert(d =~= Seq::<u8>::empty() + head + d.skip(6));
    assert(d.subrange(8, 28) =~= w.order_id@);
    assert(d.subrange(28, 44) =~= w.im_serial_number@);
    be16_placed(numbers, 0, w.im_hardware_revision);
    be16_placed(numbers, 6, w.im_revision_counter);
    be16_placed(numbers, 8, w.im_profile_id);
    be16_placed(numbers, 10, w.im_profile_specific_type);
    be16_placed(numbers, 12, w.im_version);
    be16_placed(numbers, 14, w.im_supported);
    assert(numbers.len() == 16);
    assert(forall|i: int| 44 <= i < 60 ==> #[trigger] d[i] == numbers[i - 44]);
}

/// I&M1 to I&M3 read back as they were laid out behind their block header: tag
/// function and tag location, date, descriptor.
pub proof fn maintenance_records_read_back(
    h: BlockHeader,
    one: InM1,
    two: InM2,
    three: InM3,
    function: Seq<u8>,
    location: Seq<u8>,
    date: Seq<u8>,
    descriptor: Seq<u8>,
    rest: Seq<u8>,
)
    requires
        function.len() == 32,
        location.len() == 22,
        date.len() == 16,
        descriptor.len() == 54,
        one.read_from(laid_out_header(h) + function + location + rest),
        two.read_from(laid_out_header(h) + date + rest),
        three.read_from(laid_out_header(h) + descriptor + rest),
    ensures
        one.block_header == h && two.block_header == h && three.block_header == h,
        one.im_tag_function@ == function,
        one.im_tag_location@ == location,
        two.im_date@ == date,
        three.im_descriptor@ == descriptor,
{
    let head = laid_out_header(h);
    let d1 = head + function + location + rest;
    let d2 = head + date + rest;
    let d3 = head + descriptor + rest;
    lemma_header(Seq::empty(), h, d1.skip(6));
    lemma_header(Seq::empty(), h, d2.skip(6));
    lemma_header(Seq::empty(), h, d3.skip(6));
    assert(d1 =~= Seq::<u8>::empty() + head + d1.skip(6));
    assert(d2 =~= Seq::<u8>::empty() + head + d2.skip(6));
    assert(d3 =~= Seq::<u8>::empty() + head + d3.skip(6));
    assert(d1.subrange(6, 38) =~= function);
    assert(d1.subrange(38, 60) =~= location);
    assert(d2.subrange(6, 22) =~= date);
    assert(d3.subrange(6, 60) =~= descriptor);
}

/// A text that fills a field up with NUL bytes is what the field decodes to.
pub proof fn padded_texts_are_decoded(text: Seq<char>, nuls: nat)
    requires
        encode_utf8(text).len() > 0,
        encode_utf8(text).last() != 0,
    ensures
        decoded(encode_utf8(text) + zeros(nuls)) == text,
{
    trimmed_of_padded(encode_utf8(text), nuls);
    lossy_of_encoded(text);
}

/// A module as a device states it: slot, module ident, and its submodules (subslot
/// and submodule ident).
pub struct StatedModule {
    pub slot: u16,
    pub ident: u32,
    pub submodules: Seq<(u16, u32)>,
}

/// The modules of an API as a device states them.
pub struct StatedApi {
    pub api: u32,
    pub modules: Seq<StatedModule>,
}

pub open spec fn laid_out_submodules(s: Seq<(u16, u32)>) -> Seq<u8>
    decreases s.len(),
{
    if s.len() == 0 {
        Seq::empty()
    } else {
        be16(s[0].0) + be32(s[0].1) + laid_out_submodules(s.skip(1))
    }
}

#[verifier::opaque]
pub open spec fn laid_out_module(m: StatedModule) -> Seq<u8> {
    be16(m.slot) + be32(m.ident) + be16(m.submodules.len() as u16) + laid_out_submodules(
        m.submodules,
    )
}

pub open spec fn laid_out_modules(s: Seq<StatedModule>) -> Seq<u8>
    decreases s.len(),
{
    if s.len() == 0 {
        Seq::empty()
    } else {
        laid_out_module(s[0]) + laid_out_modules(s.skip(1))
    }
}

#[verifier::opaque]
pub open spec fn laid_out_api(a: StatedApi) -> Seq<u8> {
    be32(a.api) + be16(a.modules.len() as u16) + laid_out_modules(a.modules)
}

pub open spec fn laid_out_apis(s: Seq<StatedApi>) -> Seq<u8>
    decreases s.len(),
{
    if s.len() == 0 {
        Seq::empty()
    } else {
        laid_out_api(s[0]) + laid_out_apis(s.skip(1))
    }
}

/// The counts fit their fields.
pub open spec fn countable(s: Seq<StatedModule>) -> bool {
    s.len() <= 0xFFFF && forall|i: int|
        0 <= i < s.len() ==> (#[trigger] s[i]).submodules.len() <= 0xFFFF
}

/// The counts fit their fields.
pub open spec fn countable_apis(s: Seq<StatedApi>) -> bool {
    s.len() <= 0xFFFF && forall|i: int| 0 <= i < s.len() ==> countable((#[trigger] s[i]).modules)
}

/// The submodules of a module, as slots.
pub open spec fn slots_of_module(m: StatedModule, api: u32) -> Seq<SlotModel> {
    Seq::new(
        m.submodules.len(),
        |i: int|
            SlotModel {
                slot: m.slot,
                subslot: m.submodules[i].0,
                api,
                module_ident: m.ident,
                submodule_ident: m.submodules[i].1,
                blocks: Seq::empty(),
            },
    )
}

/// The submodules of some modules, in order.
pub open spec fn slots_of_modules(s: Seq<StatedModule>, api: u32) -> Seq<SlotModel>
    decreases s.len(),
{
    if s.len() == 0 {
        Seq::empty()
    } else {
        slots_of_module(s[0], api) + slots_of_modules(s.skip(1), api)
    }
}

/// The submodules of some APIs, in order.
pub open spec fn slots_of_apis(s: Seq<StatedApi>) -> Seq<SlotModel>
    decreases s.len(),
{
    if s.len() == 0 {
        Seq::empty()
    } else {
        slots_of_modules(s[0].modules, s[0].api) + slots_of_apis(s.skip(1))
    }
}

proof fn lemma_stated_submodules(pre: Seq<u8>, m: StatedModule, s: Seq<(u16, u32)>, post: Seq<u8>, api: u32)
    ensures
        subslots_from(
            pre + laid_out_submodules(s) + post,
            pre.len() as int,
            s.len(),
            api,
            m.slot,
            m.ident,
        ) == (
            slots_of_module(StatedModule { submodules: s, ..m }, api),
            (pre.len() + laid_out_submodules(s).len()) as int,
        ),
    decreases s.len(),
{
    let d = pre + laid_out_submodules(s) + post;
    let k = pre.len() as int;
    let want = slots_of_module(StatedModule { submodules: s, ..m }, api);
    if s.len() > 0 {
        let rest = s.skip(1);
        let first = be16(s[0].0) + be32(s[0].1);
        let tail = laid_out_submodules(rest);
        assert(d =~= (pre + first) + tail + post);
        be16_placed(d, k, s[0].0);
        be32_placed(d, k + 2, s[0].1);
        lemma_stated_submodules(pre + first, m, rest, post, api);
        assert(want =~= seq![want[0]] + slots_of_module(
            StatedModule { submodules: rest, ..m },
            api,
        ));
    } else {
        assert(want =~= Seq::empty());
    }
}

proof fn lemma_module_head(pre: Seq<u8>, m: StatedModule, post: Seq<u8>)
    requires
        m.submodules.len() <= 0xFFFF,
    ensures
        ({
            let d = pre + laid_out_module(m) + post;
            let k = pre.len() as int;
            let head = be16(m.slot) + be32(m.ident) + be16(m.submodules.len() as u16);
            &&& d == (pre + head) + laid_out_submodules(m.submodules) + post
            &&& head.len() == 8
            &&& laid_out_module(m).len() == 8 + laid_out_submodules(m.submodules).len()
            &&& be16_at(d, k) == m.slot
            &&& be32_at(d, k + 2) == m.ident
            &&& be16_at(d, k + 6) == m.submodules.len()
        }),
{
    reveal(laid_out_module);
    let d = pre + laid_out_module(m) + post;
    let k = pre.len() as int;
    let head = be16(m.slot) + be32(m.ident) + be16(m.submodules.len() as u16);
    assert(d =~= (pre + head) + laid_out_submodules(m.submodules) + post);
    be16_placed(d, k, m.slot);
    be32_placed(d, k + 2, m.ident);
    be16_placed(d, k + 6, m.submodules.len() as u16);
}

proof fn lemma_stated_modules(pre: Seq<u8>, s: Seq<StatedModule>, post: Seq<u8>, api: u32)
    requires
        countable(s),
    ensures
        slots_from(pre + laid_out_modules(s) + post, pre.len() as int, s.len(), api) == (
            slots_of_modules(s, api),
            (pre.len() + laid_out_modules(s).len()) as int,
        ),
    decreases s.len(),
{
    let d = pre + laid_out_modules(s) + post;
    if s.len() > 0 {
        let m = s[0];
        let rest = s.skip(1);
        let first = laid_out_module(m);
        let tail = laid_out_modules(rest);
        assert(m.submodules.len() <= 0xFFFF);
        let head = be16(m.slot) + be32(m.ident) + be16(m.submodules.len() as u16);
        assert(d =~= pre + first + (tail + post));
        lemma_module_head(pre, m, tail + post);
        lemma_stated_submodules(pre + head, m, m.submodules, tail + post, api);
        assert forall|i: int| 0 <= i < rest.len() implies (#[trigger] rest[i]).submodules.len()
            <= 0xFFFF by {
            assert(rest[i] == s[i + 1]);
        }
        lemma_stated_modules(pre + first, rest, post, api);
        assert(d =~= (pre + first) + tail + post);
    }
}

proof fn lemma_api_head(pre: Seq<u8>, a: StatedApi, post: Seq<u8>)
    requires
        a.modules.len() <= 0xFFFF,
    ensures
        ({
            let d = pre + laid_out_api(a) + post;
            let k = pre.len() as int;
            let head = be32(a.api) + be16(a.modules.len() as u16);
            &&& d == (pre + head) + laid_out_modules(a.modules) + post
            &&& head.len() == 6
            &&& laid_out_api(a).len() == 6 + laid_out_modules(a.modules).len()
            &&& be32_at(d, k) == a.api
            &&& be16_at(d, k + 4) == a.modules.len()
        }),
{
    reveal(laid_out_api);
    let d = pre + laid_out_api(a) + post;
    let k = pre.len() as int;
    let head = be32(a.api) + be16(a.modules.len() as u16);
    assert(d =~= (pre + head) + laid_out_modules(a.modules) + post);
    be32_placed(d, k, a.api);
    be16_placed(d, k + 4, a.modules.len() as u16);
}

proof fn lemma_stated_apis(pre: Seq<u8>, s: Seq<StatedApi>, post: Seq<u8>)
    requires
        countable_apis(s),
    ensures
        apis_from(pre + laid_out_apis(s) + post, pre.len() as int, s.len()) == slots_of_apis(s),
    decreases s.len(),
{
    let d = pre + laid_out_apis(s) + post;
    if s.len() > 0 {
        let a = s[0];
        let rest = s.skip(1);
        let first = laid_out_api(a);
        let tail = laid_out_apis(rest);
        assert(countable(a.modules));
        let head = be32(a.api) + be16(a.modules.len() as u16);
        assert(d =~= pre + first + (tail + post));
        lemma_api_head(pre, a, tail + post);
        lemma_stated_modules(pre + head, a.modules, tail + post, a.api);
        assert forall|i: int| 0 <= i < rest.len() implies countable((#[trigger] rest[i]).modules) by {
            assert(rest[i] == s[i + 1]);
        }
        lemma_stated_apis(pre + first, rest, post);
        assert(d =~= (pre + first) + tail + post);
    }
}

/// Every submodule that a RealIdentificationData record states is found, in order,
/// under its own API, slot and module, with its own idents: in a record of version
/// 1.1 or later per API, before that without one.
pub proof fn every_real_submodule_is_found(
    h: BlockHeader,
    apis: Seq<StatedApi>,
    modules: Seq<StatedModule>,
    post: Seq<u8>,
)
    requires
        countable_apis(apis),
        countable(modules),
    ensures
        h.version_high >= 1 && h.version_low >= 1 ==> identified_slots(
            laid_out_header(h) + be16(apis.len() as u16) + laid_out_apis(apis) + post,
        ) == slots_of_apis(apis),
        !(h.version_high >= 1 && h.version_low >= 1) ==> identified_slots(
            laid_out_header(h) + be16(modules.len() as u16) + laid_out_modules(modules) + post,
        ) == slots_of_modules(modules, 0),
{
    let a = laid_out_header(h) + be16(apis.len() as u16);
    let m = laid_out_header(h) + be16(modules.len() as u16);
    let da = a + laid_out_apis(apis) + post;
    let dm = m + laid_out_modules(modules) + post;
    be16_placed(da, 6, apis.len() as u16);
    be16_placed(dm, 6, modules.len() as u16);
    lemma_stated_apis(a, apis, post);
    lemma_stated_modules(m, modules, post, 0);
}

/// The submodules of a list by subslot, the last one of each.
pub open spec fn by_subslot(acc: SubslotMap, s: Seq<(u16, u32)>) -> SubslotMap
    decreases s.len(),
{
    if s.len() == 0 {
        acc
    } else {
        by_subslot(acc.insert(s[0].0, s[0].1), s.skip(1))
    }
}

/// The modules of a list by slot, the last one of each.
pub open spec fn by_slot(acc: SlotMap, s: Seq<StatedModule>) -> SlotMap
    decreases s.len(),
{
    if s.len() == 0 {
        acc
    } else {
        by_slot(
            acc.insert(s[0].slot, (s[0].ident, by_subslot(Map::empty(), s[0].submodules))),
            s.skip(1),
        )
    }
}

/// The APIs of a list by number, the last one of each.
pub open spec fn by_api(acc: Map<u32, SlotMap>, s: Seq<StatedApi>) -> Map<u32, SlotMap>
    decreases s.len(),
{
    if s.len() == 0 {
        acc
    } else {
        by_api(acc.insert(s[0].api, by_slot(Map::empty(), s[0].modules)), s.skip(1))
    }
}

proof fn lemma_filter_subslots(pre: Seq<u8>, s: Seq<(u16, u32)>, post: Seq<u8>, acc: SubslotMap)
    ensures
        filter_subslots(pre + laid_out_submodules(s) + post, pre.len() as int, s.len(), acc) == Ok::<
            (SubslotMap, int),
            Seq<char>,
        >((by_subslot(acc, s), (pre.len() + laid_out_submodules(s).len()) as int)),
    decreases s.len(),
{
    let d = pre + laid_out_submodules(s) + post;
    let k = pre.len() as int;
    if s.len() > 0 {
        let rest = s.skip(1);
        let first = be16(s[0].0) + be32(s[0].1);
        let tail = laid_out_submodules(rest);
        assert(d =~= (pre + first) + tail + post);
        be16_placed(d, k, s[0].0);
        be32_placed(d, k + 2, s[0].1);
        lemma_filter_subslots(pre + first, rest, post, acc.insert(s[0].0, s[0].1));
    }
}

proof fn lemma_filter_modules(pre: Seq<u8>, s: Seq<StatedModule>, post: Seq<u8>, acc: SlotMap)
    requires
        countable(s),
    ensures
        filter_modules(pre + laid_out_modules(s) + post, pre.len() as int, s.len(), acc) == Ok::<
            (SlotMap, int),
            Seq<char>,
        >((by_slot(acc, s), (pre.len() + laid_out_modules(s).len()) as int)),
    decreases s.len(),
{
    let d = pre + laid_out_modules(s) + post;
    if s.len() > 0 {
        let m = s[0];
        let rest = s.skip(1);
        let first = laid_out_module(m);
        let tail = laid_out_modules(rest);
        assert(m.submodules.len() <= 0xFFFF);
        let head = be16(m.slot) + be32(m.ident) + be16(m.submodules.len() as u16);
        assert(d =~= pre + first + (tail + post));
        lemma_module_head(pre, m, tail + post);
        lemma_filter_subslots(pre + head, m.submodules, tail + post, Map::empty());
        assert forall|i: int| 0 <= i < rest.len() implies (#[trigger] rest[i]).submodules.len()
            <= 0xFFFF by {
            assert(rest[i] == s[i + 1]);
        }
        lemma_filter_modules(
            pre + first,
            rest,
            post,
            acc.insert(m.slot, (m.ident, by_subslot(Map::empty(), m.submodules))),
        );
        assert(d =~= (pre + first) + tail + post);
    }
}

proof fn lemma_filter_apis(pre: Seq<u8>, s: Seq<StatedApi>, post: Seq<u8>, acc: Map<u32, SlotMap>)
    requires
        countable_apis(s),
    ensures
        filter_apis(pre + laid_out_apis(s) + post, pre.len() as int, s.len(), acc) == Ok::<
            Map<u32, SlotMap>,
            Seq<char>,
        >(by_api(acc, s)),
    decreases s.len(),
{
    let d = pre + laid_out_apis(s) + post;
    if s.len() > 0 {
        let a = s[0];
        let rest = s.skip(1);
        let first = laid_out_api(a);
        let tail = laid_out_apis(rest);
        assert(countable(a.modules));
        let head = be32(a.api) + be16(a.modules.len() as u16);
        assert(d =~= pre + first + (tail + post));
        lemma_api_head(pre, a, tail + post);
        lemma_filter_modules(pre + head, a.modules, tail + post, Map::empty());
        assert forall|i: int| 0 <= i < rest.len() implies countable((#[trigger] rest[i]).modules) by {
            assert(rest[i] == s[i + 1]);
        }
        lemma_filter_apis(
            pre + first,
            rest,
            post,
            acc.insert(a.api, by_slot(Map::empty(), a.modules)),
        );
        assert(d =~= (pre + first) + tail + post);
    }
}

/// Every module and submodule that an I&M0FilterData record states is found under
/// its own API, slot and subslot, with its own ident; of one that is stated twice
/// the later holds.
pub proof fn the_filter_topology_is_found(h: BlockHeader, apis: Seq<StatedApi>, post: Seq<u8>)
    requires
        countable_apis(apis),
    ensures
        filter_topology(laid_out_header(h) + be16(apis.len() as u16) + laid_out_apis(apis) + post)
            == Ok::<Map<u32, SlotMap>, Seq<char>>(by_api(Map::empty(), apis)),
{
    let a = laid_out_header(h) + be16(apis.len() as u16);
    let d = a + laid_out_apis(apis) + post;
    be16_placed(d, 6, apis.len() as u16);
    lemma_filter_apis(a, apis, post, Map::empty());
}

} // verus!
