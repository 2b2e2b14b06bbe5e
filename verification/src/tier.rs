//! Taking over a device as its IO controller: which submodules are used, the
//! checks before the takeover, and the controller that drives the exchange.

use vstd::prelude::*;
use vstd::string::*;
use crate::cli::hex_encode;
use crate::connect::{data_end, iocr_frame_len, iocs_count, slots_fit, IocrSetup};
use crate::cyclic::{first_image, fresh_stats, short_cycle_message, CyclicController, CyclicModel};
use crate::gsdml::IoSlot;
use crate::json::object_text;
use crate::lines::{
    current_output_fields, current_output_line, error_read_fields, error_read_line,
    refused_setup_fields, refused_setup_line,
};
use crate::records::{
    control_byte, input_length, parse_input_data_length, parse_output_control_byte,
};
use crate::rt::{
    build_iocr_configs, built_objects_fit, data_objects, iocs_objects, is_built_config,
    is_rt_class_1_frame_id, object_fits, payload_len, IocrConfig,
};
use crate::text::{dec, hex_text, push_dec};
use crate::transport::ConnectResult;

verus! {

/// Base clock multiplier of a millisecond.
pub const SEND_CLOCK_FACTOR: u16 = 32;

/// Watchdog and data hold factor of the exchange.
pub const TIER_WATCHDOG_FACTOR: u16 = 6;

/// The first submodule with inputs, from `from` on.
pub open spec fn first_input(s: Seq<IoSlot>, from: int) -> Option<IoSlot>
    decreases s.len() - from,
{
    if from >= s.len() {
        None
    } else if s[from].input_length > 0 {
        Some(s[from])
    } else {
        first_input(s, from + 1)
    }
}

/// The first submodule with outputs, from `from` on.
pub open spec fn first_output(s: Seq<IoSlot>, from: int) -> Option<IoSlot>
    decreases s.len() - from,
{
    if from >= s.len() {
        None
    } else if s[from].output_length > 0 {
        Some(s[from])
    } else {
        first_output(s, from + 1)
    }
}

/// The submodule at a place, from `from` on.
pub open spec fn slot_at(s: Seq<IoSlot>, slot: u16, subslot: u16, from: int) -> Option<IoSlot>
    decreases s.len() - from,
{
    if from >= s.len() {
        None
    } else if s[from].slot == slot && s[from].subslot == subslot {
        Some(s[from])
    } else {
        slot_at(s, slot, subslot, from + 1)
    }
}

/// The submodule whose input image is verified, and the length that the
/// description gives it: the chosen one, or the first with inputs.
pub open spec fn verified_input(s: Seq<IoSlot>, chosen: Option<(u16, u16)>, path: Seq<char>) -> Result<
    (u16, u16, usize),
    Seq<char>,
> {
    let place = match chosen {
        Some(p) => Some(p),
        None => match first_input(s, 0) {
            Some(o) => Some((o.slot, o.subslot)),
            None => None,
        },
    };
    match place {
        None => Err("GSDML "@ + path + " describes no submodule with inputs"@),
        Some((slot, subslot)) => match slot_at(s, slot, subslot, 0) {
            Some(o) => Ok((slot, subslot, o.input_length)),
            None => Err(
                "GSDML "@ + path + " describes no submodule at slot "@ + dec(slot as nat)
                    + " subslot "@ + dec(subslot as nat),
            ),
        },
    }
}

/// The submodule whose input image is verified against the device, and the
/// length that the description gives it.
pub fn input_submodule(io_slots: &[IoSlot], chosen: Option<(u16, u16)>, path: &str) -> (r: Result<
    (u16, u16, usize),
    String,
>)
    ensures
        match verified_input(io_slots@, chosen, path@) {
            Ok(v) => r == Ok::<(u16, u16, usize), String>(v),
            Err(m) => r matches Err(e) && e@ == m,
        },
{
    let (slot, subslot) = match chosen {
        Some(p) => p,
        None => match find_input(io_slots) {
            Some(o) => (o.slot, o.subslot),
            None => {
                let mut e = "GSDML ".to_owned();
                e.append(path);
                e.append(" describes no submodule with inputs");
                return Err(e);
            },
        },
    };
    let mut i: usize = 0;
    while i < io_slots.len()
        invariant
            i <= io_slots@.len(),
            slot_at(io_slots@, slot, subslot, i as int) == slot_at(io_slots@, slot, subslot, 0),
            verified_input(io_slots@, chosen, path@) == match slot_at(
                io_slots@,
                slot,
                subslot,
                0,
            ) {
                Some(o) => Ok::<(u16, u16, usize), Seq<char>>((slot, subslot, o.input_length)),
                None => Err(
                    "GSDML "@ + path@ + " describes no submodule at slot "@ + dec(slot as nat)
                        + " subslot "@ + dec(subslot as nat),
                ),
            },
        decreases io_slots@.len() - i,
    {
        if io_slots[i].slot == slot && io_slots[i].subslot == subslot {
            return Ok((slot, subslot, io_slots[i].input_length));
        }
        i = i + 1;
    }
    let mut e = "GSDML ".to_owned();
    e.append(path);
    e.append(" describes no submodule at slot ");
    push_dec(&mut e, slot as u128);
    e.append(" subslot ");
    push_dec(&mut e, subslot as u128);
    Err(e)
}

fn find_input(io_slots: &[IoSlot]) -> (r: Option<IoSlot>)
    ensures
        r == first_input(io_slots@, 0),
{
    let mut i: usize = 0;
    while i < io_slots.len()
        invariant
            i <= io_slots@.len(),
            first_input(io_slots@, i as int) == first_input(io_slots@, 0),
        decreases io_slots@.len() - i,
    {
        if io_slots[i].input_length > 0 {
            return Some(io_slots[i]);
        }
        i = i + 1;
    }
    None
}

/// The submodule that carries the output image: the first with outputs, which
/// the caller drives and nothing else. Without outputs it is the one given.
pub fn output_submodule(io_slots: &[IoSlot], otherwise: (u16, u16)) -> (r: (u16, u16))
    ensures
        r == match first_output(io_slots@, 0) {
            Some(o) => (o.slot, o.subslot),
            None => otherwise,
        },
{
    let mut i: usize = 0;
    while i < io_slots.len()
        invariant
            i <= io_slots@.len(),
            first_output(io_slots@, i as int) == first_output(io_slots@, 0),
        decreases io_slots@.len() - i,
    {
        if io_slots[i].output_length > 0 {
            return (io_slots[i].slot, io_slots[i].subslot);
        }
        i = i + 1;
    }
    otherwise
}

/// The message for a description that does not match the device.
pub open spec fn mismatch_message(path: Seq<char>, slot: u16, subslot: u16, declared: usize, actual: nat) -> Seq<
    char,
> {
    "GSDML mismatch: "@ + path + " declares a "@ + dec(declared as nat)
        + "-byte input image for slot "@ + dec(slot as nat) + " subslot "@ + dec(subslot as nat)
        + ", but the device provides "@ + dec(actual)
        + " bytes. Cyclic reads would silently return zeros. Use the GSDML matching this firmware."@
}

/// Check the description against the input record that the device gave. Gives
/// the length of the input image, or whether the AR is to be released before
/// the error.
pub fn check_input_image(
    path: &str,
    slot: u16,
    subslot: u16,
    declared: usize,
    record: &Result<Vec<u8>, String>,
) -> (r: Result<usize, (bool, String)>)
    ensures
        match *record {
            Err(m) => r matches Err((false, e)) && e@
                == "could not read the input image (0x8028) to verify the GSDML: "@ + m@,
            Ok(d) => match input_length(d@) {
                None => r matches Err((false, e)) && e@
                    == "could not parse the input image record (0x8028)"@,
                Some(actual) => if declared == actual {
                    r == Ok::<usize, (bool, String)>(declared)
                } else {
                    r matches Err((true, e)) && e@ == mismatch_message(
                        path@,
                        slot,
                        subslot,
                        declared,
                        actual,
                    )
                },
            },
        },
{
    let d = match record {
        Ok(d) => d,
        Err(m) => {
            let mut e = "could not read the input image (0x8028) to verify the GSDML: ".to_owned();
            e.append(m.as_str());
            return Err((false, e));
        },
    };
    let actual: usize = match parse_input_data_length(d.as_slice()) {
        Some(n) => n,
        None => {
            return Err((false, "could not parse the input image record (0x8028)".to_owned()));
        },
    };
    if declared == actual {
        return Ok(actual);
    }
    let mut e = "GSDML mismatch: ".to_owned();
    e.append(path);
    e.append(" declares a ");
    push_dec(&mut e, declared as u128);
    e.append("-byte input image for slot ");
    push_dec(&mut e, slot as u128);
    e.append(" subslot ");
    push_dec(&mut e, subslot as u128);
    e.append(", but the device provides ");
    push_dec(&mut e, actual as u128);
    e.append(
        " bytes. Cyclic reads would silently return zeros. Use the GSDML matching this firmware.",
    );
    Err((true, e))
}

/// The check before a takeover that intends to command: the device's current
/// output image has to be the safe one already. A failed read and a record that
/// cannot be read refuse too. Gives the line to write, and whether the takeover
/// may go on.
pub fn ownership_probe(probe: &Result<Vec<u8>, String>) -> (r: (String, bool))
    ensures
        match *probe {
            Ok(d) => r.0@ == object_text(current_output_fields(d@.len() as usize, hex_text(d@)))
                && r.1 == (control_byte(d@) == Some(0u8)),
            Err(e) => r.0@ == object_text(error_read_fields("current_output"@, e@)) && !r.1,
        },
{
    match probe {
        Ok(d) => {
            let safe = match parse_output_control_byte(d.as_slice()) {
                Some(b) => b == 0x00,
                None => false,
            };
            (current_output_line(d.len(), hex_encode(d.as_slice()).as_str()), safe)
        },
        Err(e) => (error_read_line("current_output", e.as_str()), false),
    }
}

/// The line and the error of a refused takeover.
pub fn takeover_refusal() -> (r: (String, String))
    ensures
        r.0@ == object_text(
            refused_setup_fields(
                "output is not at the safe image or state unknown; refusing takeover"@,
            ),
        ),
        r.1@
            == "ownership probe failed: output is not at the safe image or state unknown; refusing to take over the cyclic AR"@,
{
    (
        refused_setup_line("output is not at the safe image or state unknown; refusing takeover"),
        "ownership probe failed: output is not at the safe image or state unknown; refusing to take over the cyclic AR".to_owned(),
    )
}

/// The setup of the exchange: a base clock of a millisecond, and the cycle time
/// as its multiple.
pub fn tier_setup(io_slots: &[IoSlot], cycle_ms: u16) -> (r: IocrSetup)
    ensures
        r.io_slots@ == io_slots@,
        r.send_clock_factor == 32,
        r.reduction_ratio == cycle_ms,
        r.watchdog_factor == 6,
        r.data_hold_factor == 6,
{
    IocrSetup {
        io_slots: vstd::slice::slice_to_vec(io_slots),
        send_clock_factor: SEND_CLOCK_FACTOR,
        reduction_ratio: cycle_ms,
        watchdog_factor: TIER_WATCHDOG_FACTOR,
        data_hold_factor: TIER_WATCHDOG_FACTOR,
    }
}

/// Check that the device established the exchange. The device assigns the frame
/// ID of our output frames, so its answer is checked before anything is sent: a
/// device that leaves it out gives 0x0000, and one that echoes the request
/// 0xFFFF, and frames with such an ID are discarded without a word.
pub fn check_established(result: &ConnectResult) -> (r: Result<(), String>)
    ensures
        r is Ok <==> result.has_cyclic && 0x8000 <= result.output_frame_id <= 0xFBFF,
        r matches Err(e) ==> e@ == "cyclic IO not established by device"@,
{
    if result.has_cyclic && is_rt_class_1_frame_id(result.output_frame_id) {
        Ok(())
    } else {
        Err("cyclic IO not established by device".to_owned())
    }
}

/// The configuration of one direction: the layout of the slots and its length,
/// the frame id that the device assigned, and the timing of the connect request.
pub open spec fn is_tier_config(
    cfg: IocrConfig,
    iocr_type: u16,
    frame_id: u16,
    cycle_ms: u16,
    slots: Seq<IoSlot>,
) -> bool {
    &&& cfg.iocr_type == iocr_type
    &&& cfg.iocr_reference == iocr_type
    &&& cfg.frame_id == frame_id
    &&& cfg.send_clock_factor == 32
    &&& cfg.reduction_ratio == cycle_ms
    &&& cfg.phase == 0
    &&& cfg.watchdog_factor == 6
    &&& is_built_config(cfg, slots)
}

/// The controller of an exchange that the device established: the layout that
/// the connect request announced, the frame ids that the device assigned, and
/// three timeouts in a row as a fault.
pub fn tier_controller(
    interface: &str,
    src_mac: [u8; 6],
    dst_mac: [u8; 6],
    io_slots: &[IoSlot],
    result: &ConnectResult,
    cycle_ms: u16,
    now_us: u64,
) -> (r: Result<CyclicController, String>)
    requires
        slots_fit(io_slots@),
    ensures
        r is Ok <==> cycle_ms > 0,
        r matches Err(e) ==> e@ == short_cycle_message(0),
        r matches Ok(c) ==> {
            &&& c@.wf()
            &&& c@.interface == interface@
            &&& c@.src_mac == src_mac@
            &&& c@.dst_mac == dst_mac@
            &&& c@.state is Idle
            &&& !c@.running
            &&& c@.max_consecutive_timeouts == 3
            &&& c@.safe_output is None
            &&& c@.cycle_counter == 0
            &&& c@.image == first_image(c@.output_iocr)
            &&& c@.inputs == Map::<(u16, u16), (Seq<u8>, u8)>::empty()
            &&& c@.last_rx_cycle_counter is None
            &&& c@.stats == fresh_stats(now_us)
            &&& c@.fed_us == now_us
            &&& is_tier_config(c@.input_iocr, 1, result.input_frame_id, cycle_ms, io_slots@)
            &&& is_tier_config(c@.output_iocr, 2, result.output_frame_id, cycle_ms, io_slots@)
            &&& c@.input_iocr.cycle_us() == cycle_ms * 1000
            &&& c@.output_iocr.cycle_us() == cycle_ms * 1000
        },
{
    let (input_iocr, output_iocr) = build_iocr_configs(
        io_slots,
        result.input_frame_id,
        result.output_frame_id,
        SEND_CLOCK_FACTOR,
        cycle_ms,
        TIER_WATCHDOG_FACTOR,
    );
    proof {
        let n = io_slots@.len() as int;
        built_objects_fit(io_slots@, 2, n);
        let len = payload_len(io_slots@, 2);
        let a = data_objects(io_slots@, 2, n);
        let b = iocs_objects(io_slots@, 2, n);
        assert forall|i: int| 0 <= i < (a + b).len() implies object_fits(
            #[trigger] (a + b)[i],
            len,
        ) by {
            if i < a.len() {
                assert((a + b)[i] == a[i]);
            } else {
                assert((a + b)[i] == b[i - a.len()]);
            }
        }
        assert(cycle_ms * 32 * 125 / 4 == cycle_ms * 1000);
    }
    CyclicController::new(interface, src_mac, dst_mac, input_iocr, output_iocr, 3, now_us)
}

/// The controller of a session that may drive the output image: every way in
/// which it stops puts the safe byte into the image first.
pub fn guarded_controller(controller: CyclicController, out_slot: u16, out_subslot: u16) -> (r:
    CyclicController)
    requires
        controller@.wf(),
    ensures
        r@.wf(),
        r@ == (CyclicModel {
            safe_output: Some((out_slot, out_subslot, seq![0u8])),
            ..controller@
        }),
{
    let mut c = controller;
    let safe: [u8; 1] = [0x00];
    c.set_safe_output(out_slot, out_subslot, safe.as_slice());
    assert(safe@ =~= seq![0u8]);
    c
}

/// Whether the layouts of both directions fit the counters.
pub fn layout_fits(io_slots: &[IoSlot]) -> (r: bool)
    ensures
        r == slots_fit(io_slots@),
{
    if io_slots.len() > 0xFFFF {
        return false;
    }
    frame_len_fits(io_slots, 1) && frame_len_fits(io_slots, 2)
}

fn frame_len_fits(io_slots: &[IoSlot], iocr_type: u16) -> (r: bool)
    requires
        iocr_type == 1 || iocr_type == 2,
        io_slots@.len() <= 0xFFFF,
    ensures
        r == (iocr_frame_len(io_slots@, iocr_type) <= usize::MAX),
{
    let mut data: u128 = 0;
    let mut status: u128 = 0;
    let n: usize = io_slots.len();
    let mut i: usize = 0;
    while i < n
        invariant
            i <= n == io_slots@.len() <= 0xFFFF,
            iocr_type == 1 || iocr_type == 2,
            data == data_end(io_slots@, iocr_type, i as int),
            status == iocs_count(io_slots@, iocr_type, i as int),
            data <= i * 0x1_0000_0000_0000_0000,
            status <= i,
        decreases n - i,
    {
        let s = io_slots[i];
        let len: usize = if iocr_type == 1 {
            s.input_length
        } else {
            s.output_length
        };
        if len > 0 {
            data = data + len as u128 + 1;
        } else {
            status = status + 1;
        }
        i = i + 1;
    }
    data + status <= usize::MAX as u128
}

} // verus!
