//! RT_CLASS_1 cyclic data exchange.
//!
//! The controller keeps the AR alive: every cycle period (send clock factor *
//! reduction ratio * 31.25 us) an output frame goes out, input frames are
//! checked and taken over, and a watchdog escalates to FAULT after consecutive
//! timeouts, recovering to RUNNING on the next valid frame.
//!
//! This module decides; whoever drives it owns the sockets, the threads and
//! the clock. Times are microseconds of a clock that never runs backwards.
//! What a caller is to be told comes back as a list of [`CyclicEvent`]s, in the
//! order in which it happened.

use vstd::prelude::*;
use vstd::string::*;
use std::collections::HashMap;
use crate::bytes::{be16, be16_at, be16_placed, copy_range, overwrite, zeros};
use crate::rt::{
    build_ethernet_frame, find_object, iocs_at, iops_at, object_fits, object_of, objects_fit,
    parse_ethernet_frame, rt_ethernet_bytes, rt_frame_bytes, rt_part, rt_part_of_built,
    unknown_slot_message, CyclicDataBuilder, IoDataObject, IocrConfig, RtFrame,
    DATA_STATUS_PROVIDER_RUN, DATA_STATUS_STATE, DATA_STATUS_STATION_OK, DATA_STATUS_VALID,
    IOXS_BAD, IOXS_GOOD,
};
use crate::text::{dec, hex, push_dec, push_hex};
use crate::util::eth_type_offset;

verus! {

/// Default number of consecutive watchdog timeouts before FAULT.
pub const DEFAULT_MAX_CONSECUTIVE_TIMEOUTS: u32 = 3;

/// Number of STOP frames to send during graceful shutdown.
pub const STOP_FRAME_COUNT: usize = 3;

/// State machine of the cyclic controller:
///
/// ```text
/// IDLE -> STARTING -> RUNNING -> STOPPING -> STOPPED
///                        |                      ^
///                        +-> FAULT -------------+
/// ```
#[derive(Debug, Clone, Copy, PartialEq, Eq, Structural)]
pub enum CyclicState {
    /// Initial state, not yet started.
    Idle,
    /// Sockets created, threads launching.
    Starting,
    /// Active cyclic data exchange.
    Running,
    /// Graceful shutdown in progress (sending STOP frames).
    Stopping,
    /// Fully stopped, threads joined.
    Stopped,
    /// Communication failure (consecutive watchdog timeouts).
    Fault,
}

/// States in which the output image must not be written any more.
pub open spec fn writes_locked(state: CyclicState) -> bool {
    state is Stopping || state is Fault || state is Stopped
}

/// States in which the output image must not be written any more.
///
/// `Stopping` is one of them, so that the STOP image is immutable once a
/// shutdown has begun: the registered safe output is applied before the STOP
/// frames are built, and a late write must not put a command byte back into
/// the image that those frames carry. In `Fault` and `Stopped` there is no
/// live channel at all.
pub fn output_writes_locked(state: CyclicState) -> (r: bool)
    ensures
        r == writes_locked(state),
{
    state == CyclicState::Stopping || state == CyclicState::Fault || state == CyclicState::Stopped
}

/// The name of a state.
pub open spec fn state_text(s: CyclicState) -> Seq<char> {
    match s {
        CyclicState::Idle => "idle"@,
        CyclicState::Starting => "starting"@,
        CyclicState::Running => "running"@,
        CyclicState::Stopping => "stopping"@,
        CyclicState::Stopped => "stopped"@,
        CyclicState::Fault => "fault"@,
    }
}

impl CyclicState {
    /// The state's name ("idle", "running", ...).
    pub fn as_str(self) -> (r: &'static str)
        ensures
            r@ == state_text(self),
    {
        match self {
            CyclicState::Idle => "idle",
            CyclicState::Starting => "starting",
            CyclicState::Running => "running",
            CyclicState::Stopping => "stopping",
            CyclicState::Stopped => "stopped",
            CyclicState::Fault => "fault",
        }
    }
}

/// Statistics of cyclic communication: frame counts, timing and errors.
#[derive(Debug, Clone, Copy, PartialEq, Eq, Structural)]
pub struct CyclicStats {
    /// Output frames transmitted.
    pub frames_sent: u64,
    /// Input frames received.
    pub frames_received: u64,
    /// Watchdog timeouts and frames skipped by the cycle counter.
    pub frames_missed: u64,
    /// Received frames with invalid status.
    pub frames_invalid: u64,
    /// Frames whose cycle counter was received twice.
    pub frames_duplicate: u64,
    /// Frames received out of sequence.
    pub frames_out_of_order: u64,
    /// Send interval of the last transmission.
    pub last_cycle_time_us: u64,
    /// Largest deviation of a send interval from the target cycle.
    pub max_jitter_us: u64,
    /// Smallest send interval.
    pub min_cycle_time_us: u64,
    /// Largest send interval.
    pub max_cycle_time_us: u64,
    /// Arrival interval of the last received frame.
    pub last_rx_interval_us: u64,
    /// Largest deviation of an arrival interval from the target cycle.
    pub max_rx_jitter_us: u64,
    /// Smallest arrival interval.
    pub min_rx_interval_us: u64,
    /// Largest arrival interval.
    pub max_rx_interval_us: u64,
    /// Sum of the arrival intervals.
    pub rx_interval_sum_us: u64,
    /// Number of measured arrival intervals.
    pub rx_interval_count: u64,
    /// Time of the last received frame. It starts at now, so that the first
    /// watchdog check finds no timeout.
    pub last_receive_us: u64,
    /// Current streak of watchdog timeouts.
    pub consecutive_timeouts: u32,
    /// Sum of the send intervals.
    pub cycle_time_sum_us: u64,
    /// Number of measured send intervals.
    pub cycle_count: u64,
}

/// Statistics of an exchange that starts at `now_us`.
pub open spec fn fresh_stats(now_us: u64) -> CyclicStats {
    CyclicStats {
        frames_sent: 0,
        frames_received: 0,
        frames_missed: 0,
        frames_invalid: 0,
        frames_duplicate: 0,
        frames_out_of_order: 0,
        last_cycle_time_us: 0,
        max_jitter_us: 0,
        min_cycle_time_us: 0x8000_0000,
        max_cycle_time_us: 0,
        last_rx_interval_us: 0,
        max_rx_jitter_us: 0,
        min_rx_interval_us: 0x8000_0000,
        max_rx_interval_us: 0,
        rx_interval_sum_us: 0,
        rx_interval_count: 0,
        last_receive_us: now_us,
        consecutive_timeouts: 0,
        cycle_time_sum_us: 0,
        cycle_count: 0,
    }
}

/// The time from `from` to `to`, none if `to` is the earlier one.
pub open spec fn span(from: u64, to: u64) -> u64 {
    if to >= from {
        (to - from) as u64
    } else {
        0
    }
}

/// The distance of two times.
pub open spec fn distance(a: u64, b: u64) -> u64 {
    if a >= b {
        (a - b) as u64
    } else {
        (b - a) as u64
    }
}

pub open spec fn larger(a: u64, b: u64) -> u64 {
    if a >= b {
        a
    } else {
        b
    }
}

pub open spec fn smaller(a: u64, b: u64) -> u64 {
    if a <= b {
        a
    } else {
        b
    }
}

fn span_of(from: u64, to: u64) -> (r: u64)
    ensures
        r == span(from, to),
{
    if to >= from {
        to - from
    } else {
        0
    }
}

fn distance_of(a: u64, b: u64) -> (r: u64)
    ensures
        r == distance(a, b),
{
    if a >= b {
        a - b
    } else {
        b - a
    }
}

fn larger_of(a: u64, b: u64) -> (r: u64)
    ensures
        r == larger(a, b),
{
    if a >= b {
        a
    } else {
        b
    }
}

fn smaller_of(a: u64, b: u64) -> (r: u64)
    ensures
        r == smaller(a, b),
{
    if a <= b {
        a
    } else {
        b
    }
}

impl CyclicStats {
    /// Fresh statistics: the minima start at 2^31, the last receive time at
    /// now.
    pub fn new(now_us: u64) -> (r: CyclicStats)
        ensures
            r == fresh_stats(now_us),
    {
        CyclicStats {
            frames_sent: 0,
            frames_received: 0,
            frames_missed: 0,
            frames_invalid: 0,
            frames_duplicate: 0,
            frames_out_of_order: 0,
            last_cycle_time_us: 0,
            max_jitter_us: 0,
            min_cycle_time_us: 0x8000_0000,
            max_cycle_time_us: 0,
            last_rx_interval_us: 0,
            max_rx_jitter_us: 0,
            min_rx_interval_us: 0x8000_0000,
            max_rx_interval_us: 0,
            rx_interval_sum_us: 0,
            rx_interval_count: 0,
            last_receive_us: now_us,
            consecutive_timeouts: 0,
            cycle_time_sum_us: 0,
            cycle_count: 0,
        }
    }

    /// Average send interval, 0 before the first one.
    pub fn avg_cycle_time_us(&self) -> (r: u64)
        ensures
            r == if self.cycle_count == 0 {
                0
            } else {
                self.cycle_time_sum_us / self.cycle_count
            },
    {
        if self.cycle_count == 0 {
            0
        } else {
            self.cycle_time_sum_us / self.cycle_count
        }
    }

    /// Average arrival interval, 0 before the first one.
    pub fn avg_rx_interval_us(&self) -> (r: u64)
        ensures
            r == if self.rx_interval_count == 0 {
                0
            } else {
                self.rx_interval_sum_us / self.rx_interval_count
            },
    {
        if self.rx_interval_count == 0 {
            0
        } else {
            self.rx_interval_sum_us / self.rx_interval_count
        }
    }

    /// Reset all statistics; the last receive time is set to now, so that a
    /// restart finds no timeout.
    pub fn reset(&mut self, now_us: u64)
        ensures
            *final(self) == fresh_stats(now_us),
    {
        *self = CyclicStats::new(now_us);
    }

    /// Every counter can still take what one more event at `now_us` adds.
    pub open spec fn room(self, now_us: u64) -> bool {
        &&& self.frames_sent < u64::MAX
        &&& self.frames_received < u64::MAX
        &&& self.frames_missed <= u64::MAX - 0x10000
        &&& self.frames_invalid < u64::MAX
        &&& self.frames_duplicate < u64::MAX
        &&& self.frames_out_of_order < u64::MAX
        &&& self.consecutive_timeouts < u32::MAX
        &&& self.rx_interval_sum_us + span(self.last_receive_us, now_us) <= u64::MAX
        &&& self.rx_interval_count < u64::MAX
        &&& self.cycle_count < u64::MAX
        &&& self.cycle_time_sum_us + now_us <= u64::MAX
    }

    /// Whether every counter can still take what one more event at `now_us`
    /// adds.
    pub fn has_room(&self, now_us: u64) -> (r: bool)
        ensures
            r == self.room(now_us),
    {
        self.frames_sent < u64::MAX && self.frames_received < u64::MAX && self.frames_missed
            <= u64::MAX - 0x10000 && self.frames_invalid < u64::MAX && self.frames_duplicate
            < u64::MAX && self.frames_out_of_order < u64::MAX && self.consecutive_timeouts
            < u32::MAX && self.rx_interval_sum_us <= u64::MAX - span_of(
            self.last_receive_us,
            now_us,
        ) && self.rx_interval_count < u64::MAX && self.cycle_count < u64::MAX
            && self.cycle_time_sum_us <= u64::MAX - now_us
    }
}

/// Statistics after an input frame: an arrival interval is measured only
/// between consecutive received frames, not for the first one, nor across a
/// watchdog timeout. Only a valid frame ends a streak of timeouts.
pub open spec fn stats_after_arrival(s: CyclicStats, target_us: u64, now_us: u64, valid: bool) -> CyclicStats {
    let interval = span(s.last_receive_us, now_us);
    let measured = if s.frames_received > 0 && s.consecutive_timeouts == 0 {
        CyclicStats {
            last_rx_interval_us: interval,
            max_rx_jitter_us: larger(s.max_rx_jitter_us, distance(interval, target_us)),
            min_rx_interval_us: smaller(s.min_rx_interval_us, interval),
            max_rx_interval_us: larger(s.max_rx_interval_us, interval),
            rx_interval_sum_us: (s.rx_interval_sum_us + interval) as u64,
            rx_interval_count: (s.rx_interval_count + 1) as u64,
            ..s
        }
    } else {
        s
    };
    CyclicStats {
        last_receive_us: now_us,
        frames_received: (s.frames_received + 1) as u64,
        consecutive_timeouts: if valid {
            0
        } else {
            s.consecutive_timeouts
        },
        ..measured
    }
}

/// The cycle counter that follows `prev`.
pub open spec fn next_counter(prev: u16, step: u32) -> u16 {
    ((prev + step) % 0x10000) as u16
}

/// How far `to` lies in front of `from`, counting with 16 bits.
pub open spec fn forward_distance(from: u16, to: u16) -> int {
    if to >= from {
        to - from
    } else {
        to - from + 0x10000
    }
}

/// Statistics after a cycle counter: the same one again is a duplicate, one
/// that lies behind is out of order, and a jump ahead missed the frames
/// between.
pub open spec fn stats_after_counter(s: CyclicStats, last: Option<u16>, step: u32, rx: u16) -> CyclicStats {
    match last {
        None => s,
        Some(prev) => if rx == prev {
            CyclicStats { frames_duplicate: (s.frames_duplicate + 1) as u64, ..s }
        } else if rx == next_counter(prev, step) {
            s
        } else if forward_distance(prev, rx) > 0x8000 {
            CyclicStats { frames_out_of_order: (s.frames_out_of_order + 1) as u64, ..s }
        } else if step == 0 || forward_distance(prev, rx) / step as int == 0 {
            s
        } else {
            CyclicStats {
                frames_missed: (s.frames_missed + forward_distance(prev, rx) / step as int - 1) as u64,
                ..s
            }
        },
    }
}

/// Statistics after a watchdog timeout.
pub open spec fn stats_after_timeout(s: CyclicStats) -> CyclicStats {
    CyclicStats {
        frames_missed: (s.frames_missed + 1) as u64,
        consecutive_timeouts: (s.consecutive_timeouts + 1) as u32,
        ..s
    }
}

/// What the owner of a controller is to be told.
#[derive(Debug)]
pub enum CyclicEvent {
    /// A submodule delivered input data that it vouches for.
    Input { slot: u16, subslot: u16, data: Vec<u8> },
    /// A submodule's provider status turned good or bad.
    InputStatus { slot: u16, subslot: u16, iops: u8 },
    /// The watchdog ran out.
    Timeout,
    /// A communication error.
    Error(String),
    /// The state changed.
    StateChange { before: CyclicState, after: CyclicState },
}

/// A [`CyclicEvent`] as mathematical values.
pub enum EventModel {
    Input { slot: u16, subslot: u16, data: Seq<u8> },
    InputStatus { slot: u16, subslot: u16, iops: u8 },
    Timeout,
    Error(Seq<char>),
    StateChange { before: CyclicState, after: CyclicState },
}

impl View for CyclicEvent {
    type V = EventModel;

    open spec fn view(&self) -> EventModel {
        match self {
            CyclicEvent::Input { slot, subslot, data } => EventModel::Input {
                slot: *slot,
                subslot: *subslot,
                data: data@,
            },
            CyclicEvent::InputStatus { slot, subslot, iops } => EventModel::InputStatus {
                slot: *slot,
                subslot: *subslot,
                iops: *iops,
            },
            CyclicEvent::Timeout => EventModel::Timeout,
            CyclicEvent::Error(m) => EventModel::Error(m@),
            CyclicEvent::StateChange { before, after } => EventModel::StateChange {
                before: *before,
                after: *after,
            },
        }
    }
}

/// Events as mathematical values.
pub open spec fn events(s: Seq<CyclicEvent>) -> Seq<EventModel> {
    Seq::new(s.len(), |i: int| s[i]@)
}

/// The output image: what the application wrote, what is being sent, and
/// whether the former was written since it was last taken over.
#[verifier::ext_equal]
pub struct ImageModel {
    pub objects: Seq<IoDataObject>,
    pub pending: Seq<u8>,
    pub sending: Seq<u8>,
    pub changed: bool,
}

/// The image that a builder holds.
pub open spec fn image_of(b: CyclicDataBuilder) -> ImageModel {
    ImageModel {
        objects: b.layout().objects@,
        pending: b.pending(),
        sending: b.sending(),
        changed: b.changed(),
    }
}

impl ImageModel {
    /// Data for a submodule, cut to its length, with a good provider status.
    pub open spec fn with_data(self, o: IoDataObject, data: Seq<u8>) -> ImageModel {
        let n = if data.len() < o.data_length {
            data.len() as int
        } else {
            o.data_length as int
        };
        let written = overwrite(self.pending, o.frame_offset as int, data.take(n));
        ImageModel {
            pending: if o.data_length > 0 {
                written.update(o.iops_offset as int, 0x80)
            } else {
                written
            },
            changed: true,
            ..self
        }
    }

    /// One consumer status for every submodule that has one.
    pub open spec fn with_all_iocs(self, status: u8) -> ImageModel {
        let pending = Seq::new(
            self.pending.len(),
            |p: int|
                if iocs_at(self.objects, p) {
                    status
                } else {
                    self.pending[p]
                },
        );
        ImageModel { pending, changed: self.changed || pending != self.pending, ..self }
    }

    /// The pending image taken over for sending.
    pub open spec fn swapped(self) -> ImageModel {
        ImageModel {
            sending: if self.changed {
                self.pending
            } else {
                self.sending
            },
            changed: false,
            ..self
        }
    }
}

/// The latest input payload of a submodule with the provider status that the
/// device sent alongside it. The payload means something only while its own
/// status reports good, so the two are kept together.
#[derive(Debug)]
pub struct InputEntry {
    pub data: Vec<u8>,
    pub iops: u8,
}

/// The data state bit of a provider status.
pub open spec fn status_good(iops: u8) -> bool {
    iops >= 0x80
}

/// The key of a submodule.
pub open spec fn place_key(slot: u16, subslot: u16) -> u32 {
    (slot * 0x10000 + subslot) as u32
}

fn key_of(slot: u16, subslot: u16) -> (r: u32)
    ensures
        r == place_key(slot, subslot),
{
    slot as u32 * 0x10000 + subslot as u32
}

/// The latest inputs by submodule: payload and provider status.
pub type Inputs = Map<(u16, u16), (Seq<u8>, u8)>;

/// The inputs that a table holds.
pub open spec fn inputs_of(m: Map<u32, InputEntry>) -> Inputs {
    Map::new(
        |k: (u16, u16)| m.contains_key(place_key(k.0, k.1)),
        |k: (u16, u16)| (m[place_key(k.0, k.1)].data@, m[place_key(k.0, k.1)].iops),
    )
}

/// A submodule has data that it vouches for.
pub open spec fn good_in(inputs: Inputs, slot: u16, subslot: u16) -> bool {
    inputs.contains_key((slot, subslot)) && status_good(inputs[(slot, subslot)].1)
}

/// The payload holds all of the object's data and its provider status.
pub open spec fn object_in(o: IoDataObject, payload: Seq<u8>) -> bool {
    o.iops_offset < payload.len() && o.frame_offset + o.data_length <= payload.len()
}

/// The object's data in a payload.
pub open spec fn object_data(o: IoDataObject, payload: Seq<u8>) -> Seq<u8> {
    payload.subrange(o.frame_offset as int, o.frame_offset + o.data_length)
}

/// The inputs after the first `n` objects of a payload.
pub open spec fn inputs_after(inputs: Inputs, objs: Seq<IoDataObject>, payload: Seq<u8>, n: int) -> Inputs
    decreases n,
{
    if n <= 0 {
        inputs
    } else {
        let before = inputs_after(inputs, objs, payload, n - 1);
        let o = objs[n - 1];
        if object_in(o, payload) {
            before.insert(
                (o.slot, o.subslot),
                (object_data(o, payload), payload[o.iops_offset as int]),
            )
        } else {
            before
        }
    }
}

/// The changes of provider status among the first `n` objects of a payload.
pub open spec fn status_events(inputs: Inputs, objs: Seq<IoDataObject>, payload: Seq<u8>, n: int) -> Seq<
    EventModel,
>
    decreases n,
{
    if n <= 0 {
        Seq::empty()
    } else {
        let before = status_events(inputs, objs, payload, n - 1);
        let o = objs[n - 1];
        let iops = payload[o.iops_offset as int];
        if object_in(o, payload) && status_good(iops) != good_in(
            inputs_after(inputs, objs, payload, n - 1),
            o.slot,
            o.subslot,
        ) {
            before.push(EventModel::InputStatus { slot: o.slot, subslot: o.subslot, iops })
        } else {
            before
        }
    }
}

/// The usable data among the first `n` objects of a payload.
pub open spec fn input_events(objs: Seq<IoDataObject>, payload: Seq<u8>, n: int) -> Seq<EventModel>
    decreases n,
{
    if n <= 0 {
        Seq::empty()
    } else {
        let before = input_events(objs, payload, n - 1);
        let o = objs[n - 1];
        if object_in(o, payload) && status_good(payload[o.iops_offset as int]) {
            before.push(
                EventModel::Input {
                    slot: o.slot,
                    subslot: o.subslot,
                    data: object_data(o, payload),
                },
            )
        } else {
            before
        }
    }
}

/// What a [`CyclicController`] holds, as mathematical values.
#[verifier::ext_equal]
pub struct CyclicModel {
    pub interface: Seq<char>,
    pub src_mac: Seq<u8>,
    pub dst_mac: Seq<u8>,
    pub input_iocr: IocrConfig,
    pub output_iocr: IocrConfig,
    pub max_consecutive_timeouts: u32,
    pub state: CyclicState,
    pub running: bool,
    pub cycle_counter: u16,
    pub image: ImageModel,
    pub inputs: Inputs,
    pub last_rx_cycle_counter: Option<u16>,
    pub stats: CyclicStats,
    /// When the watchdog was last fed.
    pub fed_us: u64,
    pub safe_output: Option<(u16, u16, Seq<u8>)>,
}

/// The events of a change to `after`: none if that is the state already.
pub open spec fn change_events(before: CyclicState, after: CyclicState) -> Seq<EventModel> {
    if before == after {
        Seq::empty()
    } else {
        seq![EventModel::StateChange { before, after }]
    }
}

/// The step of a cycle counter per frame.
pub open spec fn counter_step(c: IocrConfig) -> u32 {
    (c.send_clock_factor * c.reduction_ratio) as u32
}

/// The message when the watchdog gave up.
pub open spec fn lost_message(timeouts: u32) -> Seq<char> {
    "Communication lost: "@ + dec(timeouts as nat) + " consecutive watchdog timeouts"@
}

/// The frame that a controller takes from what was received: from the device,
/// and with the frame ID of the input IOCR.
pub open spec fn our_frame(m: CyclicModel, data: Seq<u8>) -> Option<Seq<u8>> {
    if data.len() < 18 || data.subrange(6, 12) != m.dst_mac {
        None
    } else {
        match rt_part(data) {
            Some(body) => if be16_at(body, 0) == m.input_iocr.frame_id {
                Some(body)
            } else {
                None
            },
            None => None,
        }
    }
}

/// The data status of a frame.
pub open spec fn data_status(body: Seq<u8>) -> u8 {
    body[body.len() - 2]
}

/// The frame's data status marks its data as valid.
pub open spec fn frame_valid(body: Seq<u8>) -> bool {
    data_status(body) & 0x04 != 0
}

/// The frame's cycle counter.
pub open spec fn frame_counter(body: Seq<u8>) -> u16 {
    be16_at(body, body.len() - 4)
}

/// The frame's process data.
pub open spec fn frame_payload(body: Seq<u8>) -> Seq<u8> {
    body.subrange(2, body.len() - 4)
}

impl CyclicModel {
    /// The image has the layout and size of the output IOCR, and all objects
    /// lie within it.
    pub open spec fn wf(self) -> bool {
        &&& self.image.objects == self.output_iocr.objects@
        &&& self.image.pending.len() == self.output_iocr.data_length
        &&& self.image.sending.len() == self.output_iocr.data_length
        &&& objects_fit(self.output_iocr.objects@, self.output_iocr.data_length as int)
        &&& self.src_mac.len() == 6
        &&& self.dst_mac.len() == 6
    }

    /// After a change of state.
    pub open spec fn to(self, state: CyclicState) -> CyclicModel {
        CyclicModel { state, ..self }
    }

    /// After a cycle counter was received.
    pub open spec fn after_counter(self, rx: u16) -> CyclicModel {
        CyclicModel {
            last_rx_cycle_counter: Some(rx),
            stats: stats_after_counter(
                self.stats,
                self.last_rx_cycle_counter,
                counter_step(self.input_iocr),
                rx,
            ),
            ..self
        }
    }

    /// After a frame was received at `now_us`. Only a valid frame feeds the
    /// watchdog, ends a fault and changes the inputs and the acknowledgment.
    pub open spec fn after_frame(self, data: Seq<u8>, now_us: u64) -> CyclicModel {
        match our_frame(self, data) {
            None => self,
            Some(body) => {
                let valid = frame_valid(body);
                let counted = (CyclicModel {
                    stats: stats_after_arrival(
                        self.stats,
                        self.input_iocr.cycle_us() as u64,
                        now_us,
                        valid,
                    ),
                    ..self
                }).after_counter(frame_counter(body));
                if valid {
                    CyclicModel {
                        fed_us: now_us,
                        state: if self.state is Fault {
                            CyclicState::Running
                        } else {
                            self.state
                        },
                        image: self.image.with_all_iocs(0x80),
                        inputs: inputs_after(
                            self.inputs,
                            self.input_iocr.objects@,
                            frame_payload(body),
                            self.input_iocr.objects@.len() as int,
                        ),
                        ..counted
                    }
                } else {
                    CyclicModel {
                        stats: CyclicStats {
                            frames_invalid: (counted.stats.frames_invalid + 1) as u64,
                            ..counted.stats
                        },
                        ..counted
                    }
                }
            },
        }
    }

    /// What a received frame gives to tell: the end of a fault, then the
    /// changes of provider status, then the usable data.
    pub open spec fn frame_events(self, data: Seq<u8>) -> Seq<EventModel> {
        match our_frame(self, data) {
            None => Seq::empty(),
            Some(body) => if frame_valid(body) {
                let objs = self.input_iocr.objects@;
                let n = objs.len() as int;
                (if self.state is Fault {
                    change_events(CyclicState::Fault, CyclicState::Running)
                } else {
                    Seq::empty()
                }) + status_events(self.inputs, objs, frame_payload(body), n) + input_events(
                    objs,
                    frame_payload(body),
                    n,
                )
            } else {
                Seq::empty()
            },
        }
    }

    /// One more timeout is one too many.
    pub open spec fn gives_up(self) -> bool {
        self.max_consecutive_timeouts > 0 && self.stats.consecutive_timeouts + 1
            >= self.max_consecutive_timeouts && self.state is Running
    }

    /// After a watchdog timeout: the acknowledgment turns bad, and the last of
    /// a streak of timeouts is a fault.
    pub open spec fn after_timeout(self) -> CyclicModel {
        CyclicModel {
            stats: stats_after_timeout(self.stats),
            image: self.image.with_all_iocs(0x00),
            state: if self.gives_up() {
                CyclicState::Fault
            } else {
                self.state
            },
            ..self
        }
    }

    /// What a watchdog timeout gives to tell.
    pub open spec fn timeout_events(self) -> Seq<EventModel> {
        seq![EventModel::Timeout] + (if self.gives_up() {
            change_events(CyclicState::Running, CyclicState::Fault) + seq![
                EventModel::Error(lost_message((self.stats.consecutive_timeouts + 1) as u32)),
            ]
        } else {
            Seq::empty()
        })
    }

    /// No valid frame came for longer than the watchdog time.
    pub open spec fn overdue(self, now_us: u64) -> bool {
        span(self.fed_us, now_us) > self.input_iocr.watchdog_factor * self.input_iocr.cycle_us()
    }

    /// After a look at the watchdog, which starts anew when it ran out.
    pub open spec fn after_watch(self, now_us: u64) -> CyclicModel {
        if self.overdue(now_us) {
            let m = self.after_timeout();
            CyclicModel {
                fed_us: now_us,
                stats: CyclicStats { last_receive_us: now_us, ..m.stats },
                ..m
            }
        } else {
            self
        }
    }

    /// What a look at the watchdog gives to tell.
    pub open spec fn watch_events(self, now_us: u64) -> Seq<EventModel> {
        if self.overdue(now_us) {
            self.timeout_events()
        } else {
            Seq::empty()
        }
    }

    /// The counter of the next output frame.
    pub open spec fn next_tx_counter(self) -> u16 {
        next_counter(self.cycle_counter, counter_step(self.output_iocr))
    }

    /// The next output frame with the given data status.
    pub open spec fn output_frame(self, status: u8) -> Seq<u8> {
        rt_ethernet_bytes(
            self.dst_mac,
            self.src_mac,
            rt_frame_bytes(
                self.output_iocr.frame_id,
                self.image.sending,
                self.next_tx_counter(),
                status,
                0x00,
            ),
        )
    }

    /// After an output frame was built.
    pub open spec fn after_output_frame(self) -> CyclicModel {
        CyclicModel { cycle_counter: self.next_tx_counter(), ..self }
    }

    /// With the pending image taken over.
    pub open spec fn swapped(self) -> CyclicModel {
        CyclicModel { image: self.image.swapped(), ..self }
    }

    /// The object of the registered safe output.
    pub open spec fn safe_object(self) -> Option<IoDataObject> {
        match self.safe_output {
            Some((slot, subslot, _)) => object_of(self.image.objects, slot, subslot),
            None => None,
        }
    }

    /// With the registered safe output in the image that is being sent.
    pub open spec fn made_safe(self) -> CyclicModel {
        match self.safe_object() {
            Some(o) => CyclicModel {
                image: self.image.with_data(o, (self.safe_output->0).2).swapped(),
                ..self
            },
            None => self,
        }
    }

    /// What applying the safe output gives to tell.
    pub open spec fn safe_events(self) -> Seq<EventModel> {
        if self.safe_output is Some && self.safe_object() is None {
            seq![
                EventModel::Error(
                    "safe output not applied: "@ + unknown_slot_message(
                        (self.safe_output->0).0,
                        (self.safe_output->0).1,
                    ),
                ),
            ]
        } else {
            Seq::empty()
        }
    }

    /// After a stop was asked for.
    pub open spec fn after_stop(self) -> CyclicModel {
        let m = self.made_safe();
        if self.running {
            CyclicModel { state: CyclicState::Stopping, running: false, ..m }
        } else {
            m
        }
    }

    /// After a STOP frame was built.
    pub open spec fn after_stop_frame(self) -> CyclicModel {
        self.swapped().after_output_frame()
    }
}

/// RT_CLASS_1 cyclic data exchange controller.
#[derive(Debug)]
pub struct CyclicController {
    /// Network interface name.
    pub interface: String,
    pub src_mac: [u8; 6],
    pub dst_mac: [u8; 6],
    /// Input data (device to controller).
    pub input_iocr: IocrConfig,
    /// Output data (controller to device).
    pub output_iocr: IocrConfig,
    /// Timeouts in a row that are a fault; 0 means none ever is.
    pub max_consecutive_timeouts: u32,
    pub state: CyclicState,
    /// Whether the exchange is to go on.
    pub running: bool,
    pub cycle_counter: u16,
    pub output_builder: CyclicDataBuilder,
    pub input_data: HashMap<u32, InputEntry>,
    pub last_rx_cycle_counter: Option<u16>,
    pub stats: CyclicStats,
    /// When the watchdog was last fed.
    pub fed_us: u64,
    /// Safe output image applied by every stop before the STOP frames are
    /// built: slot, subslot, data.
    pub safe_output: Option<(u16, u16, Vec<u8>)>,
}

impl View for CyclicController {
    type V = CyclicModel;

    open spec fn view(&self) -> CyclicModel {
        CyclicModel {
            interface: self.interface@,
            src_mac: self.src_mac@,
            dst_mac: self.dst_mac@,
            input_iocr: self.input_iocr,
            output_iocr: self.output_iocr,
            max_consecutive_timeouts: self.max_consecutive_timeouts,
            state: self.state,
            running: self.running,
            cycle_counter: self.cycle_counter,
            image: image_of(self.output_builder),
            inputs: inputs_of(self.input_data@),
            last_rx_cycle_counter: self.last_rx_cycle_counter,
            stats: self.stats,
            fed_us: self.fed_us,
            safe_output: match self.safe_output {
                Some((slot, subslot, data)) => Some((slot, subslot, data@)),
                None => None,
            },
        }
    }
}

/// Hundredths of a millisecond in some microseconds, a half rounded to the
/// even number.
pub open spec fn hundredths(us: int) -> int {
    if us % 10 > 5 || (us % 10 == 5 && (us / 10) % 2 == 1) {
        us / 10 + 1
    } else {
        us / 10
    }
}

/// The message for a cycle below a millisecond.
pub open spec fn short_cycle_message(us: int) -> Seq<char> {
    "Cycle time 0."@ + dec((hundredths(us) / 10) as nat) + dec((hundredths(us) % 10) as nat)
        + "ms is below 1ms \u{2014} not reliably achievable with thread-sleep pacing"@
}

/// A copy of an IOCR configuration.
fn copy_config(c: &IocrConfig) -> (r: IocrConfig)
    ensures
        r.objects@ == c.objects@,
        r.data_length == c.data_length,
{
    let mut objects: Vec<IoDataObject> = Vec::new();
    let mut i: usize = 0;
    while i < c.objects.len()
        invariant
            i <= c.objects@.len(),
            objects@ == c.objects@.take(i as int),
        decreases c.objects@.len() - i,
    {
        objects.push(c.objects[i]);
        i = i + 1;
        assert(objects@ =~= c.objects@.take(i as int));
    }
    assert(c.objects@.take(i as int) =~= c.objects@);
    IocrConfig {
        iocr_type: c.iocr_type,
        iocr_reference: c.iocr_reference,
        frame_id: c.frame_id,
        send_clock_factor: c.send_clock_factor,
        reduction_ratio: c.reduction_ratio,
        phase: c.phase,
        watchdog_factor: c.watchdog_factor,
        data_length: c.data_length,
        objects,
    }
}

/// The image of a new controller: all zero but for the provider status, which
/// is good.
pub open spec fn first_image(c: IocrConfig) -> ImageModel {
    ImageModel {
        objects: c.objects@,
        pending: Seq::new(
            c.data_length as nat,
            |p: int|
                if iops_at(c.objects@, p) {
                    0x80u8
                } else {
                    0x00u8
                },
        ),
        sending: zeros(c.data_length as nat),
        changed: true,
    }
}

/// How one wait for an input frame ended.
#[derive(Debug)]
pub enum RxOutcome {
    Frame(Vec<u8>),
    /// Nothing came in time.
    Idle,
    Failed(String),
}

/// When the next output frame is due.
#[derive(Debug, Clone, Copy, PartialEq, Eq, Structural)]
pub struct TxPacer {
    pub next_send_us: u64,
    pub last_send_us: u64,
    pub first_frame: bool,
}

impl TxPacer {
    /// Times that are far from overflowing.
    pub open spec fn wf(self) -> bool {
        self.next_send_us < 0x8000_0020_0000_0000
    }

    /// A pacer whose first frame is due at once.
    pub fn new(now_us: u64) -> (r: TxPacer)
        ensures
            r == (TxPacer { next_send_us: now_us, last_send_us: now_us, first_frame: true }),
    {
        TxPacer { next_send_us: now_us, last_send_us: now_us, first_frame: true }
    }

    /// After a frame at `now_us`: the next one is due a cycle later, counted
    /// from when this one was due, or from now when that is over already.
    pub open spec fn after(self, cycle_us: int, now_us: u64) -> TxPacer {
        TxPacer {
            next_send_us: if self.next_send_us + cycle_us < now_us {
                (now_us + cycle_us) as u64
            } else {
                (self.next_send_us + cycle_us) as u64
            },
            last_send_us: now_us,
            first_frame: false,
        }
    }

    /// How long to sleep at `now_us`: until 100 us before the next frame.
    pub fn sleep_us(&self, now_us: u64) -> (r: u64)
        ensures
            r == if self.next_send_us > now_us + 100 {
                self.next_send_us - now_us - 100
            } else {
                0
            },
    {
        let remaining: u64 = span_of(now_us, self.next_send_us);
        span_of(100, remaining)
    }
}

/// Statistics after a send interval, which the first frame has none of.
pub open spec fn stats_after_send(s: CyclicStats, p: TxPacer, cycle_us: u64, now_us: u64) -> CyclicStats {
    let actual = span(p.last_send_us, now_us);
    if p.first_frame {
        s
    } else {
        CyclicStats {
            last_cycle_time_us: actual,
            max_jitter_us: larger(s.max_jitter_us, distance(actual, cycle_us)),
            min_cycle_time_us: smaller(s.min_cycle_time_us, actual),
            max_cycle_time_us: larger(s.max_cycle_time_us, actual),
            cycle_time_sum_us: (s.cycle_time_sum_us + actual) as u64,
            cycle_count: (s.cycle_count + 1) as u64,
            ..s
        }
    }
}

/// After a turn of the transmit loop at `now_us`. In FAULT nothing is sent,
/// but time goes on.
pub open spec fn after_tx(m: CyclicModel, p: TxPacer, now_us: u64) -> (CyclicModel, TxPacer) {
    if now_us < p.next_send_us {
        (m, p)
    } else {
        let sent = if m.state is Fault {
            m
        } else {
            let n = m.swapped().after_output_frame();
            CyclicModel {
                stats: CyclicStats {
                    frames_sent: (n.stats.frames_sent + 1) as u64,
                    ..n.stats
                },
                ..n
            }
        };
        (
            CyclicModel {
                stats: stats_after_send(
                    sent.stats,
                    p,
                    m.output_iocr.cycle_us() as u64,
                    now_us,
                ),
                ..sent
            },
            p.after(m.output_iocr.cycle_us(), now_us),
        )
    }
}

impl CyclicController {
    /// New controller in IDLE state. Fails if the output cycle time is below 1
    /// ms, which sleeping between frames cannot do reliably.
    /// `max_consecutive_timeouts` of 0 means never enter FAULT.
    pub fn new(
        interface: &str,
        src_mac: [u8; 6],
        dst_mac: [u8; 6],
        input_iocr: IocrConfig,
        output_iocr: IocrConfig,
        max_consecutive_timeouts: u32,
        now_us: u64,
    ) -> (r: Result<CyclicController, String>)
        requires
            objects_fit(output_iocr.objects@, output_iocr.data_length as int),
        ensures
            r is Ok <==> output_iocr.cycle_us() >= 1000,
            r matches Err(e) ==> e@ == short_cycle_message(output_iocr.cycle_us()),
            r matches Ok(c) ==> c@.wf() && c@ == (CyclicModel {
                interface: interface@,
                src_mac: src_mac@,
                dst_mac: dst_mac@,
                input_iocr,
                output_iocr,
                max_consecutive_timeouts,
                state: CyclicState::Idle,
                running: false,
                cycle_counter: 0,
                image: first_image(output_iocr),
                inputs: Map::empty(),
                last_rx_cycle_counter: None,
                stats: fresh_stats(now_us),
                fed_us: now_us,
                safe_output: None,
            }),
    {
        broadcast use vstd::std_specs::hash::group_hash_axioms;

        let cycle: u64 = output_iocr.cycle_time_us();
        if cycle < 1000 {
            let h: u64 = if cycle % 10 > 5 || (cycle % 10 == 5 && (cycle / 10) % 2 == 1) {
                cycle / 10 + 1
            } else {
                cycle / 10
            };
            let mut e = "Cycle time 0.".to_owned();
            push_dec(&mut e, (h / 10) as u128);
            push_dec(&mut e, (h % 10) as u128);
            e.append("ms is below 1ms \u{2014} not reliably achievable with thread-sleep pacing");
            return Err(e);
        }
        let mut output_builder = CyclicDataBuilder::new(copy_config(&output_iocr));
        output_builder.set_all_iops(IOXS_GOOD);
        let c = CyclicController {
            interface: interface.to_owned(),
            src_mac,
            dst_mac,
            input_iocr,
            output_iocr,
            max_consecutive_timeouts,
            state: CyclicState::Idle,
            running: false,
            cycle_counter: 0,
            output_builder,
            input_data: HashMap::new(),
            last_rx_cycle_counter: None,
            stats: CyclicStats::new(now_us),
            fed_us: now_us,
            safe_output: None,
        };
        assert(c@.image.pending =~= first_image(output_iocr).pending);
        assert(c@.image =~= first_image(output_iocr));
        assert(c@.inputs =~= Map::empty());
        Ok(c)
    }

    /// Controller MAC address.
    pub fn src_mac(&self) -> (r: [u8; 6])
        ensures
            r == self.src_mac,
    {
        self.src_mac
    }

    /// Device MAC address.
    pub fn dst_mac(&self) -> (r: [u8; 6])
        ensures
            r == self.dst_mac,
    {
        self.dst_mac
    }

    /// Configuration of the input data (device to controller).
    pub fn input_iocr(&self) -> (r: &IocrConfig)
        ensures
            *r == self.input_iocr,
    {
        &self.input_iocr
    }

    /// Configuration of the output data (controller to device).
    pub fn output_iocr(&self) -> (r: &IocrConfig)
        ensures
            *r == self.output_iocr,
    {
        &self.output_iocr
    }

    /// Current controller state.
    pub fn state(&self) -> (r: CyclicState)
        ensures
            r == self@.state,
    {
        self.state
    }

    /// True if the controller is currently running.
    pub fn is_running(&self) -> (r: bool)
        ensures
            r == (self@.state is Running),
    {
        self.state == CyclicState::Running
    }

    /// The current statistics.
    pub fn stats(&self) -> (r: CyclicStats)
        ensures
            r == self@.stats,
    {
        self.stats
    }

    /// Counter of the last output frame.
    pub fn cycle_counter(&self) -> (r: u16)
        ensures
            r == self@.cycle_counter,
    {
        self.cycle_counter
    }

    /// Last received cycle counter, if any.
    pub fn last_rx_cycle_counter(&self) -> (r: Option<u16>)
        ensures
            r == self@.last_rx_cycle_counter,
    {
        self.last_rx_cycle_counter
    }

    /// Change the state; a change to the state that it has is none.
    pub fn transition(&mut self, new_state: CyclicState) -> (r: Vec<CyclicEvent>)
        ensures
            final(self)@ == old(self)@.to(new_state),
            events(r@) == change_events(old(self)@.state, new_state),
    {
        let mut out: Vec<CyclicEvent> = Vec::new();
        let before = self.state;
        if before != new_state {
            self.state = new_state;
            out.push(CyclicEvent::StateChange { before, after: new_state });
        }
        assert(events(out@) =~= change_events(old(self)@.state, new_state));
        out
    }

    /// Set output data for the next cycle. Refused while the output image is
    /// locked, and for a submodule that the image does not have.
    pub fn set_output_data(&mut self, slot: u16, subslot: u16, data: &[u8]) -> (r: Result<
        (),
        String,
    >)
        requires
            old(self)@.wf(),
        ensures
            final(self)@.wf(),
            if writes_locked(old(self)@.state) {
                &&& final(self)@ == old(self)@
                &&& r matches Err(e) && e@ == "Cannot set output data in "@ + state_text(
                    old(self)@.state,
                ) + " state"@
            } else {
                match object_of(old(self)@.image.objects, slot, subslot) {
                    Some(o) => r is Ok && final(self)@ == (CyclicModel {
                        image: old(self)@.image.with_data(o, data@),
                        ..old(self)@
                    }),
                    None => final(self)@ == old(self)@ && (r matches Err(e) && e@
                        == unknown_slot_message(slot, subslot)),
                }
            },
    {
        if output_writes_locked(self.state) {
            let mut e = "Cannot set output data in ".to_owned();
            e.append(self.state.as_str());
            e.append(" state");
            return Err(e);
        }
        self.write_output(slot, subslot, data)
    }

    /// Write data with a good provider status into the pending image.
    fn write_output(&mut self, slot: u16, subslot: u16, data: &[u8]) -> (r: Result<(), String>)
        requires
            old(self)@.wf(),
        ensures
            final(self)@.wf(),
            match object_of(old(self)@.image.objects, slot, subslot) {
                Some(o) => r is Ok && final(self)@ == (CyclicModel {
                    image: old(self)@.image.with_data(o, data@),
                    ..old(self)@
                }),
                None => final(self)@ == old(self)@ && (r matches Err(e) && e@
                    == unknown_slot_message(slot, subslot)),
            },
    {
        proof {
            lemma_object_of(self@.image.objects, slot, subslot);
        }
        match self.output_builder.set_data(slot, subslot, data) {
            Ok(_) => {},
            Err(e) => {
                return Err(e);
            },
        }
        self.output_builder.set_iops(slot, subslot, IOXS_GOOD);
        proof {
            let o = object_of(old(self)@.image.objects, slot, subslot)->0;
            assert(self@.image =~= old(self)@.image.with_data(o, data@));
        }
        Ok(())
    }

    /// Latest input data for a submodule, or None if nothing was received yet
    /// or the device marked the payload BAD.
    ///
    /// Data whose provider status is BAD must not be used: the device says
    /// that the payload is not valid while it still sends the stale bytes.
    pub fn get_input_data(&self, slot: u16, subslot: u16) -> (r: Option<Vec<u8>>)
        ensures
            if good_in(self@.inputs, slot, subslot) {
                r matches Some(d) && d@ == self@.inputs[(slot, subslot)].0
            } else {
                r is None
            },
    {
        broadcast use vstd::std_specs::hash::group_hash_axioms;

        match self.input_data.get(&key_of(slot, subslot)) {
            Some(entry) => if entry.iops >= 0x80 {
                Some(copy_range(entry.data.as_slice(), 0, entry.data.len()))
            } else {
                None
            },
            None => None,
        }
    }

    /// Latest input data regardless of the provider status.
    pub fn get_input_data_allow_bad(&self, slot: u16, subslot: u16) -> (r: Option<Vec<u8>>)
        ensures
            if self@.inputs.contains_key((slot, subslot)) {
                r matches Some(d) && d@ == self@.inputs[(slot, subslot)].0
            } else {
                r is None
            },
    {
        broadcast use vstd::std_specs::hash::group_hash_axioms;

        match self.input_data.get(&key_of(slot, subslot)) {
            Some(entry) => Some(copy_range(entry.data.as_slice(), 0, entry.data.len())),
            None => None,
        }
    }

    /// Raw provider status that the device sent for a submodule (0x80 is
    /// GOOD), or None if nothing was received yet.
    pub fn get_input_status(&self, slot: u16, subslot: u16) -> (r: Option<u8>)
        ensures
            r == if self@.inputs.contains_key((slot, subslot)) {
                Some(self@.inputs[(slot, subslot)].1)
            } else {
                None
            },
    {
        broadcast use vstd::std_specs::hash::group_hash_axioms;

        match self.input_data.get(&key_of(slot, subslot)) {
            Some(entry) => Some(entry.iops),
            None => None,
        }
    }

    /// Whether the device currently reports GOOD provider status.
    pub fn is_input_good(&self, slot: u16, subslot: u16) -> (r: bool)
        ensures
            r == good_in(self@.inputs, slot, subslot),
    {
        broadcast use vstd::std_specs::hash::group_hash_axioms;

        match self.input_data.get(&key_of(slot, subslot)) {
            Some(entry) => entry.iops >= 0x80,
            None => false,
        }
    }
}

/// An object that is found is one of the objects.
proof fn lemma_object_of(objs: Seq<IoDataObject>, slot: u16, subslot: u16)
    ensures
        object_of(objs, slot, subslot) matches Some(o) ==> exists|i: int|
            0 <= i < objs.len() && #[trigger] objs[i] == o,
{
    if let Some(o) = object_of(objs, slot, subslot) {
        assert(objs[find_object(objs, slot, subslot, 0)] == o);
    }
}

impl CyclicController {
    /// Track a received cycle counter for gaps, duplicates and frames out of
    /// order, counting with 16 bits and the step of the input IOCR.
    pub fn track_cycle_counter(&mut self, rx_counter: u16)
        requires
            old(self)@.wf(),
            old(self)@.stats.frames_missed <= u64::MAX - 0x10000,
            old(self)@.stats.frames_duplicate < u64::MAX,
            old(self)@.stats.frames_out_of_order < u64::MAX,
        ensures
            final(self)@.wf(),
            final(self)@ == old(self)@.after_counter(rx_counter),
    {
        let a: u32 = self.input_iocr.send_clock_factor as u32;
        let b: u32 = self.input_iocr.reduction_ratio as u32;
        assert(a * b <= 0xFFFF * 0xFFFF) by (nonlinear_arith)
            requires
                a <= 0xFFFF,
                b <= 0xFFFF,
        ;
        let step: u32 = a * b;
        assert(step == counter_step(self.input_iocr));
        if let Some(prev) = self.last_rx_cycle_counter {
            let expected: u16 = ((prev as u32 + step) % 0x10000) as u16;
            if rx_counter == prev {
                self.stats.frames_duplicate = self.stats.frames_duplicate + 1;
            } else if rx_counter != expected {
                let forward: u32 = if rx_counter >= prev {
                    (rx_counter - prev) as u32
                } else {
                    0x10000 - (prev - rx_counter) as u32
                };
                if forward > 0x8000 {
                    self.stats.frames_out_of_order = self.stats.frames_out_of_order + 1;
                } else if step > 0 {
                    let frames: u32 = forward / step;
                    assert(frames <= forward) by (nonlinear_arith)
                        requires
                            frames == forward / step,
                            step > 0,
                    ;
                    if frames > 0 {
                        self.stats.frames_missed = self.stats.frames_missed + (frames - 1) as u64;
                    }
                }
            }
        }
        self.last_rx_cycle_counter = Some(rx_counter);
    }

    /// Handle a watchdog timeout: count it, acknowledge input as bad, and turn
    /// RUNNING into FAULT after the allowed number of timeouts in a row.
    pub fn handle_watchdog_timeout(&mut self) -> (r: Vec<CyclicEvent>)
        requires
            old(self)@.wf(),
            old(self)@.stats.frames_missed < u64::MAX,
            old(self)@.stats.consecutive_timeouts < u32::MAX,
        ensures
            final(self)@.wf(),
            final(self)@ == old(self)@.after_timeout(),
            events(r@) == old(self)@.timeout_events(),
    {
        self.stats.frames_missed = self.stats.frames_missed + 1;
        self.stats.consecutive_timeouts = self.stats.consecutive_timeouts + 1;
        let consecutive: u32 = self.stats.consecutive_timeouts;
        self.acknowledge(IOXS_BAD);
        let mut out: Vec<CyclicEvent> = Vec::new();
        out.push(CyclicEvent::Timeout);
        assert(events(out@) =~= seq![EventModel::Timeout]);
        if self.max_consecutive_timeouts > 0 && consecutive >= self.max_consecutive_timeouts
            && self.state == CyclicState::Running {
            let mut changes = self.transition(CyclicState::Fault);
            let ghost before = out@;
            out.append(&mut changes);
            assert(events(out@) =~= events(before) + change_events(
                CyclicState::Running,
                CyclicState::Fault,
            ));
            let mut e = "Communication lost: ".to_owned();
            push_dec(&mut e, consecutive as u128);
            e.append(" consecutive watchdog timeouts");
            out.push(CyclicEvent::Error(e));
        }
        assert(events(out@) =~= old(self)@.timeout_events());
        out
    }

    /// Set the consumer status of all submodules.
    fn acknowledge(&mut self, status: u8)
        requires
            old(self)@.wf(),
        ensures
            final(self)@.wf(),
            final(self)@ == (CyclicModel {
                image: old(self)@.image.with_all_iocs(status),
                ..old(self)@
            }),
    {
        self.output_builder.set_all_iocs(status);
        assert(self@.image.pending =~= old(self)@.image.with_all_iocs(status).pending);
        assert(self@.image =~= old(self)@.image.with_all_iocs(status));
    }

    /// Parse and process a received raw Ethernet frame: filter by the device's
    /// MAC address and the frame ID, keep the statistics, recover from FAULT,
    /// track the cycle counter, acknowledge the input, and take over the data.
    ///
    /// A device that keeps sending frames marked invalid does not feed the
    /// watchdog, nor does it end a fault: else a link degraded to nothing but
    /// invalid frames would look healthy.
    pub fn process_input_frame(&mut self, data: &[u8], now_us: u64) -> (r: Vec<CyclicEvent>)
        requires
            old(self)@.wf(),
            old(self)@.stats.room(now_us),
        ensures
            final(self)@.wf(),
            final(self)@ == old(self)@.after_frame(data@, now_us),
            events(r@) == old(self)@.frame_events(data@),
    {
        let mut out: Vec<CyclicEvent> = Vec::new();
        assert(events(out@) =~= Seq::<EventModel>::empty());
        if data.len() < 18 {
            return out;
        }
        let from_device = data[6] == self.dst_mac[0] && data[7] == self.dst_mac[1] && data[8]
            == self.dst_mac[2] && data[9] == self.dst_mac[3] && data[10] == self.dst_mac[4]
            && data[11] == self.dst_mac[5];
        proof {
            let src = data@.subrange(6, 12);
            assert(src[0] == data@[6] && src[1] == data@[7] && src[2] == data@[8] && src[3]
                == data@[9] && src[4] == data@[10] && src[5] == data@[11]);
            if from_device {
                assert(src =~= self.dst_mac@);
            }
        }
        if !from_device {
            return out;
        }
        let frame = match parse_ethernet_frame(data) {
            Some(f) => f,
            None => {
                return out;
            },
        };
        let ghost body = rt_part(data@)->0;
        if frame.frame_id != self.input_iocr.frame_id {
            return out;
        }
        assert(our_frame(old(self)@, data@) == Some(body));
        assert(frame.payload@ == frame_payload(body));
        let valid = frame.is_valid();
        self.count_arrival(valid, now_us);
        let ghost arrived = self@;
        self.track_cycle_counter(frame.cycle_counter);
        let ghost counted = self@;
        assert(counted == arrived.after_counter(frame_counter(body)));
        if !valid {
            self.stats.frames_invalid = self.stats.frames_invalid + 1;
            assert(self@ =~= old(self)@.after_frame(data@, now_us));
            return out;
        }
        self.fed_us = now_us;
        if self.state == CyclicState::Fault {
            let mut changes = self.transition(CyclicState::Running);
            out.append(&mut changes);
        }
        assert(events(out@) =~= if old(self)@.state is Fault {
            change_events(CyclicState::Fault, CyclicState::Running)
        } else {
            Seq::empty()
        });
        self.acknowledge(IOXS_GOOD);
        let ghost first = events(out@);
        let ghost prior = out@;
        let (mut changes, mut updates) = self.take_inputs(frame.payload.as_slice());
        let ghost c = changes@;
        let ghost u = updates@;
        out.append(&mut changes);
        out.append(&mut updates);
        assert(out@ =~= prior + c + u);
        assert(events(out@) =~= first + events(c) + events(u));
        assert(self@ =~= old(self)@.after_frame(data@, now_us));
        out
    }

    /// Count an input frame.
    fn count_arrival(&mut self, valid: bool, now_us: u64)
        requires
            old(self)@.wf(),
            old(self)@.stats.room(now_us),
        ensures
            final(self)@.wf(),
            final(self)@ == (CyclicModel {
                stats: stats_after_arrival(
                    old(self)@.stats,
                    old(self)@.input_iocr.cycle_us() as u64,
                    now_us,
                    valid,
                ),
                ..old(self)@
            }),
    {
        let target: u64 = self.input_iocr.cycle_time_us();
        if self.stats.frames_received > 0 && self.stats.consecutive_timeouts == 0 {
            let interval: u64 = span_of(self.stats.last_receive_us, now_us);
            self.stats.last_rx_interval_us = interval;
            self.stats.max_rx_jitter_us = larger_of(
                self.stats.max_rx_jitter_us,
                distance_of(interval, target),
            );
            self.stats.min_rx_interval_us = smaller_of(self.stats.min_rx_interval_us, interval);
            self.stats.max_rx_interval_us = larger_of(self.stats.max_rx_interval_us, interval);
            self.stats.rx_interval_sum_us = self.stats.rx_interval_sum_us + interval;
            self.stats.rx_interval_count = self.stats.rx_interval_count + 1;
        }
        self.stats.last_receive_us = now_us;
        self.stats.frames_received = self.stats.frames_received + 1;
        if valid {
            self.stats.consecutive_timeouts = 0;
        }
    }

    /// Take over the inputs of a payload. Each submodule's data is followed by
    /// its provider status, which the device sets BAD to disown data that it
    /// is still sending.
    fn take_inputs(&mut self, payload: &[u8]) -> (r: (Vec<CyclicEvent>, Vec<CyclicEvent>))
        requires
            old(self)@.wf(),
        ensures
            final(self)@.wf(),
            final(self)@ == (CyclicModel {
                inputs: inputs_after(
                    old(self)@.inputs,
                    old(self)@.input_iocr.objects@,
                    payload@,
                    old(self)@.input_iocr.objects@.len() as int,
                ),
                ..old(self)@
            }),
            events(r.0@) == status_events(
                old(self)@.inputs,
                old(self)@.input_iocr.objects@,
                payload@,
                old(self)@.input_iocr.objects@.len() as int,
            ),
            events(r.1@) == input_events(
                old(self)@.input_iocr.objects@,
                payload@,
                old(self)@.input_iocr.objects@.len() as int,
            ),
    {
        broadcast use vstd::std_specs::hash::group_hash_axioms;

        let mut changes: Vec<CyclicEvent> = Vec::new();
        let mut updates: Vec<CyclicEvent> = Vec::new();
        assert(events(changes@) =~= Seq::<EventModel>::empty());
        assert(events(updates@) =~= Seq::<EventModel>::empty());
        let total: usize = payload.len();
        let mut i: usize = 0;
        while i < self.input_iocr.objects.len()
            invariant
                i <= self.input_iocr.objects@.len(),
                total == payload@.len(),
                old(self)@.wf(),
                self@ == (CyclicModel {
                    inputs: inputs_after(
                        old(self)@.inputs,
                        old(self)@.input_iocr.objects@,
                        payload@,
                        i as int,
                    ),
                    ..old(self)@
                }),
                events(changes@) == status_events(
                    old(self)@.inputs,
                    old(self)@.input_iocr.objects@,
                    payload@,
                    i as int,
                ),
                events(updates@) == input_events(
                    old(self)@.input_iocr.objects@,
                    payload@,
                    i as int,
                ),
            decreases self.input_iocr.objects@.len() - i,
        {
            let o = self.input_iocr.objects[i];
            let ghost before = self@.inputs;
            let ghost c = changes@;
            let ghost u = updates@;
            if o.iops_offset < total && o.data_length <= total && o.frame_offset <= total
                - o.data_length {
                let iops: u8 = payload[o.iops_offset];
                let was_good = self.is_input_good(o.slot, o.subslot);
                let is_good = iops >= 0x80;
                let data = copy_range(payload, o.frame_offset, o.frame_offset + o.data_length);
                let ghost table = self.input_data@;
                if is_good {
                    updates.push(
                        CyclicEvent::Input {
                            slot: o.slot,
                            subslot: o.subslot,
                            data: copy_range(data.as_slice(), 0, data.len()),
                        },
                    );
                    assert(data@.subrange(0, data@.len() as int) =~= data@);
                    assert(events(updates@) =~= events(u).push(
                        EventModel::Input {
                            slot: o.slot,
                            subslot: o.subslot,
                            data: object_data(o, payload@),
                        },
                    ));
                }
                if is_good != was_good {
                    changes.push(
                        CyclicEvent::InputStatus { slot: o.slot, subslot: o.subslot, iops },
                    );
                    assert(events(changes@) =~= events(c).push(
                        EventModel::InputStatus { slot: o.slot, subslot: o.subslot, iops },
                    ));
                }
                self.input_data.insert(key_of(o.slot, o.subslot), InputEntry { data, iops });
                assert(self@.inputs =~= before.insert(
                    (o.slot, o.subslot),
                    (object_data(o, payload@), iops),
                ));
            }
            i = i + 1;
        }
        (changes, updates)
    }

    /// The receive loop begins at `now_us`: no time counts as silence before
    /// that.
    pub fn rx_begin(&mut self, now_us: u64)
        requires
            old(self)@.wf(),
        ensures
            final(self)@.wf(),
            final(self)@ == (CyclicModel {
                fed_us: now_us,
                stats: CyclicStats { last_receive_us: now_us, ..old(self)@.stats },
                ..old(self)@
            }),
    {
        self.fed_us = now_us;
        self.stats.last_receive_us = now_us;
    }

    /// One turn of the receive loop, at `now_us`: a frame is processed, and
    /// the watchdog is looked at whether or not one came. A failure ends the
    /// loop, and is told while the exchange is to go on.
    pub fn rx_step(&mut self, outcome: RxOutcome, now_us: u64) -> (r: (bool, Vec<CyclicEvent>))
        requires
            old(self)@.wf(),
            old(self)@.stats.room(now_us),
        ensures
            final(self)@.wf(),
            match outcome {
                RxOutcome::Frame(data) => r.0 && final(self)@ == old(self)@.after_frame(
                    data@,
                    now_us,
                ).after_watch(now_us) && events(r.1@) == old(self)@.frame_events(data@) + old(
                    self,
                )@.after_frame(data@, now_us).watch_events(now_us),
                RxOutcome::Idle => r.0 && final(self)@ == old(self)@.after_watch(now_us) && events(
                    r.1@,
                ) == old(self)@.watch_events(now_us),
                RxOutcome::Failed(e) => !r.0 && final(self)@ == old(self)@ && events(r.1@) == if old(
                    self,
                )@.running {
                    seq![EventModel::Error("RX error: "@ + e@)]
                } else {
                    Seq::empty()
                },
            },
    {
        match outcome {
            RxOutcome::Frame(data) => {
                let mut out = self.process_input_frame(data.as_slice(), now_us);
                let ghost first = out@;
                let mut more = self.watch(now_us);
                let ghost second = more@;
                out.append(&mut more);
                assert(events(out@) =~= events(first) + events(second));
                (true, out)
            },
            RxOutcome::Idle => (true, self.watch(now_us)),
            RxOutcome::Failed(m) => {
                let mut out: Vec<CyclicEvent> = Vec::new();
                if self.running {
                    let mut e = "RX error: ".to_owned();
                    e.append(m.as_str());
                    out.push(CyclicEvent::Error(e));
                }
                assert(events(out@) =~= if old(self)@.running {
                    seq![EventModel::Error("RX error: "@ + m@)]
                } else {
                    Seq::empty()
                });
                (false, out)
            },
        }
    }

    /// Look at the watchdog.
    fn watch(&mut self, now_us: u64) -> (r: Vec<CyclicEvent>)
        requires
            old(self)@.wf(),
            old(self)@.stats.frames_missed < u64::MAX,
            old(self)@.stats.consecutive_timeouts < u32::MAX,
        ensures
            final(self)@.wf(),
            final(self)@ == old(self)@.after_watch(now_us),
            events(r@) == old(self)@.watch_events(now_us),
    {
        if span_of(self.fed_us, now_us) > self.input_iocr.watchdog_time_us() {
            let out = self.handle_watchdog_timeout();
            self.fed_us = now_us;
            self.stats.last_receive_us = now_us;
            out
        } else {
            let out: Vec<CyclicEvent> = Vec::new();
            assert(events(out@) =~= Seq::<EventModel>::empty());
            out
        }
    }

    /// Advance the cycle counter and build the next output frame from the
    /// image that is being sent. Without a data status the frame is valid,
    /// running, ok and primary.
    pub fn next_output_frame(&mut self, data_status: Option<u8>) -> (r: Vec<u8>)
        requires
            old(self)@.wf(),
        ensures
            final(self)@.wf(),
            final(self)@ == old(self)@.after_output_frame(),
            r@ == old(self)@.output_frame(
                match data_status {
                    Some(s) => s,
                    None => 0x35,
                },
            ),
    {
        let a: u32 = self.output_iocr.send_clock_factor as u32;
        let b: u32 = self.output_iocr.reduction_ratio as u32;
        assert(a * b <= 0xFFFF * 0xFFFF) by (nonlinear_arith)
            requires
                a <= 0xFFFF,
                b <= 0xFFFF,
        ;
        let step: u32 = a * b;
        self.cycle_counter = ((self.cycle_counter as u32 + step) % 0x10000) as u16;
        let status: u8 = match data_status {
            Some(s) => s,
            None => DATA_STATUS_VALID + DATA_STATUS_PROVIDER_RUN + DATA_STATUS_STATION_OK
                + DATA_STATUS_STATE,
        };
        let frame = RtFrame {
            frame_id: self.output_iocr.frame_id,
            cycle_counter: self.cycle_counter,
            data_status: status,
            transfer_status: 0x00,
            payload: self.output_builder.build(),
        };
        build_ethernet_frame(&self.dst_mac, &self.src_mac, &frame)
    }

    /// Take over the pending image for sending.
    pub fn swap(&mut self)
        requires
            old(self)@.wf(),
        ensures
            final(self)@.wf(),
            final(self)@ == old(self)@.swapped(),
    {
        self.output_builder.swap();
        assert(self@.image =~= old(self)@.image.swapped());
    }

    /// One turn of the transmit loop, at `now_us`: the frame to send, if one
    /// is due and there is no fault.
    pub fn tx_step(&mut self, pacer: &mut TxPacer, now_us: u64) -> (r: Option<Vec<u8>>)
        requires
            old(self)@.wf(),
            old(pacer).wf(),
            old(self)@.stats.room(now_us),
            now_us < 0x8000_0000_0000_0000,
        ensures
            final(self)@.wf(),
            final(pacer).wf(),
            (final(self)@, *final(pacer)) == after_tx(old(self)@, *old(pacer), now_us),
            if now_us >= old(pacer).next_send_us && !(old(self)@.state is Fault) {
                r matches Some(f) && f@ == old(self)@.swapped().output_frame(0x35)
            } else {
                r is None
            },
    {
        if now_us < pacer.next_send_us {
            return None;
        }
        let cycle: u64 = self.output_iocr.cycle_time_us();
        let mut frame: Option<Vec<u8>> = None;
        if self.state != CyclicState::Fault {
            self.swap();
            frame = Some(self.next_output_frame(None));
            self.stats.frames_sent = self.stats.frames_sent + 1;
        }
        if !pacer.first_frame {
            let actual: u64 = span_of(pacer.last_send_us, now_us);
            self.stats.last_cycle_time_us = actual;
            self.stats.max_jitter_us = larger_of(
                self.stats.max_jitter_us,
                distance_of(actual, cycle),
            );
            self.stats.min_cycle_time_us = smaller_of(self.stats.min_cycle_time_us, actual);
            self.stats.max_cycle_time_us = larger_of(self.stats.max_cycle_time_us, actual);
            self.stats.cycle_time_sum_us = self.stats.cycle_time_sum_us + actual;
            self.stats.cycle_count = self.stats.cycle_count + 1;
        }
        pacer.first_frame = false;
        pacer.last_send_us = now_us;
        let next: u64 = pacer.next_send_us + cycle;
        pacer.next_send_us = if next < now_us {
            now_us + cycle
        } else {
            next
        };
        frame
    }

    /// The event for an output frame that could not be sent.
    pub fn tx_error(&self, message: &str) -> (r: CyclicEvent)
        ensures
            r@ == EventModel::Error("TX error: "@ + message@),
    {
        let mut e = "TX error: ".to_owned();
        e.append(message);
        CyclicEvent::Error(e)
    }

    /// Begin cyclic data exchange, from IDLE, STOPPED or FAULT: fresh
    /// statistics and cycle counter tracking. The caller opens its sockets,
    /// calls [`CyclicController::swap`], starts its loops, and then calls
    /// [`CyclicController::transition`] to RUNNING.
    pub fn start(&mut self, now_us: u64) -> (r: Result<Vec<CyclicEvent>, String>)
        requires
            old(self)@.wf(),
        ensures
            final(self)@.wf(),
            if old(self)@.state is Idle || old(self)@.state is Stopped || old(self)@.state is Fault {
                &&& r matches Ok(v) && events(v@) == change_events(
                    old(self)@.state,
                    CyclicState::Starting,
                )
                &&& final(self)@ == (CyclicModel {
                    state: CyclicState::Starting,
                    running: true,
                    stats: fresh_stats(now_us),
                    fed_us: now_us,
                    last_rx_cycle_counter: None,
                    ..old(self)@
                })
            } else {
                &&& r matches Err(e) && e@ == "Cannot start from "@ + state_text(old(self)@.state)
                    + " state"@
                &&& final(self)@ == old(self)@
            },
    {
        if self.state != CyclicState::Idle && self.state != CyclicState::Stopped && self.state
            != CyclicState::Fault {
            let mut e = "Cannot start from ".to_owned();
            e.append(self.state.as_str());
            e.append(" state");
            return Err(e);
        }
        let out = self.transition(CyclicState::Starting);
        self.running = true;
        self.stats.reset(now_us);
        self.fed_us = now_us;
        self.last_rx_cycle_counter = None;
        Ok(out)
    }

    /// Register the safe output image, typically an all-zero control byte.
    /// Every stop forces it into the image that is being sent before the STOP
    /// frames are built, so that a stop can never latch a stale unsafe byte on
    /// the device.
    pub fn set_safe_output(&mut self, slot: u16, subslot: u16, data: &[u8])
        requires
            old(self)@.wf(),
        ensures
            final(self)@.wf(),
            final(self)@ == (CyclicModel {
                safe_output: Some((slot, subslot, data@)),
                ..old(self)@
            }),
    {
        self.safe_output = Some((slot, subslot, copy_range(data, 0, data.len())));
    }

    /// Force the registered safe output into the pending image and the one
    /// that is being sent.
    fn apply_safe_output(&mut self) -> (r: Vec<CyclicEvent>)
        requires
            old(self)@.wf(),
        ensures
            final(self)@.wf(),
            final(self)@ == old(self)@.made_safe(),
            events(r@) == old(self)@.safe_events(),
    {
        let mut out: Vec<CyclicEvent> = Vec::new();
        assert(events(out@) =~= Seq::<EventModel>::empty());
        let (slot, subslot, data) = match &self.safe_output {
            Some((slot, subslot, data)) => (
                *slot,
                *subslot,
                copy_range(data.as_slice(), 0, data.len()),
            ),
            None => {
                return out;
            },
        };
        match self.write_output(slot, subslot, data.as_slice()) {
            Ok(_) => {
                self.swap();
            },
            Err(m) => {
                let mut e = "safe output not applied: ".to_owned();
                e.append(m.as_str());
                out.push(CyclicEvent::Error(e));
                assert(events(out@) =~= old(self)@.safe_events());
            },
        }
        out
    }

    /// Begin to stop cyclic exchange. The registered safe output is applied
    /// before anything else, even when not running. True means that the
    /// exchange was running: the caller then waits for its transmit loop,
    /// sends the STOP frames (see [`CyclicController::stop_frame`]), waits for
    /// its receive loop, and calls [`CyclicController::transition`] to STOPPED.
    pub fn stop(&mut self) -> (r: (bool, Vec<CyclicEvent>))
        requires
            old(self)@.wf(),
        ensures
            final(self)@.wf(),
            final(self)@ == old(self)@.after_stop(),
            r.0 == old(self)@.running,
            events(r.1@) == old(self)@.safe_events() + if old(self)@.running {
                change_events(old(self)@.state, CyclicState::Stopping)
            } else {
                Seq::empty()
            },
    {
        let mut out = self.apply_safe_output();
        let ghost first = out@;
        if !self.running {
            assert(events(first) + Seq::<EventModel>::empty() =~= events(first));
            return (false, out);
        }
        let mut changes = self.transition(CyclicState::Stopping);
        let ghost second = changes@;
        out.append(&mut changes);
        assert(events(out@) =~= events(first) + events(second));
        self.running = false;
        (true, out)
    }

    /// [`CyclicController::stop`] with a safe output registered first: the
    /// STOP frames carry the given bytes, not whatever was last written.
    pub fn stop_safe(&mut self, slot: u16, subslot: u16, data: &[u8]) -> (r: (
        bool,
        Vec<CyclicEvent>,
    ))
        requires
            old(self)@.wf(),
        ensures
            final(self)@.wf(),
            ({
                let m = CyclicModel { safe_output: Some((slot, subslot, data@)), ..old(self)@ };
                &&& final(self)@ == m.after_stop()
                &&& r.0 == m.running
                &&& events(r.1@) == m.safe_events() + if m.running {
                    change_events(m.state, CyclicState::Stopping)
                } else {
                    Seq::empty()
                }
            }),
    {
        self.set_safe_output(slot, subslot, data);
        self.stop()
    }

    /// The next STOP frame: valid, ok and primary, but not running.
    pub fn stop_frame(&mut self) -> (r: Vec<u8>)
        requires
            old(self)@.wf(),
        ensures
            final(self)@.wf(),
            final(self)@ == old(self)@.after_stop_frame(),
            r@ == old(self)@.swapped().output_frame(0x25),
    {
        self.swap();
        self.next_output_frame(
            Some(DATA_STATUS_VALID + DATA_STATUS_STATION_OK + DATA_STATUS_STATE),
        )
    }

    /// What follows the STOP frame with the given index: after how long the
    /// next one is sent, or None when that was the last one, or it could not
    /// be sent.
    pub fn stop_frame_sent(&mut self, index: usize, sent: bool) -> (r: Option<u64>)
        requires
            old(self)@.wf(),
            old(self)@.stats.frames_sent < u64::MAX,
        ensures
            final(self)@.wf(),
            final(self)@ == if sent {
                CyclicModel {
                    stats: CyclicStats {
                        frames_sent: (old(self)@.stats.frames_sent + 1) as u64,
                        ..old(self)@.stats
                    },
                    ..old(self)@
                }
            } else {
                old(self)@
            },
            r == if sent && index < 2 {
                Some(old(self)@.output_iocr.cycle_us() as u64)
            } else {
                None
            },
    {
        if !sent {
            return None;
        }
        self.stats.frames_sent = self.stats.frames_sent + 1;
        if index < STOP_FRAME_COUNT - 1 {
            Some(self.output_iocr.cycle_time_us())
        } else {
            None
        }
    }

    /// `CyclicController(interface, out_id=0x...., in_id=0x...., state)`.
    pub fn to_text(&self) -> (r: String)
        ensures
            r@ == "CyclicController("@ + self@.interface + ", out_id=0x"@ + hex(
                self@.output_iocr.frame_id as nat,
                4,
                true,
            ) + ", in_id=0x"@ + hex(self@.input_iocr.frame_id as nat, 4, true) + ", "@ + state_text(
                self@.state,
            ) + ")"@,
    {
        let mut s = "CyclicController(".to_owned();
        s.append(self.interface.as_str());
        s.append(", out_id=0x");
        push_hex(&mut s, self.output_iocr.frame_id as u64, 4, true);
        s.append(", in_id=0x");
        push_hex(&mut s, self.input_iocr.frame_id as u64, 4, true);
        s.append(", ");
        s.append(self.state.as_str());
        s.append(")");
        s
    }
}

/// A frame marked invalid is counted and nothing more: it does not feed the
/// watchdog, ends no streak of timeouts and no fault, and changes neither the
/// inputs nor the output image.
pub proof fn invalid_frames_are_no_sign_of_life(m: CyclicModel, data: Seq<u8>, now_us: u64)
    requires
        our_frame(m, data) matches Some(body) && !frame_valid(body),
        m.stats.frames_received < u64::MAX,
        m.stats.frames_invalid < u64::MAX,
    ensures
        ({
            let n = m.after_frame(data, now_us);
            &&& n.fed_us == m.fed_us
            &&& n.stats.consecutive_timeouts == m.stats.consecutive_timeouts
            &&& n.state == m.state
            &&& n.inputs == m.inputs
            &&& n.image == m.image
            &&& n.stats.frames_received == m.stats.frames_received + 1
            &&& n.stats.frames_invalid == m.stats.frames_invalid + 1
        }),
        m.frame_events(data) == Seq::<EventModel>::empty(),
{
}

/// A valid frame feeds the watchdog, ends the streak of timeouts, and turns a
/// fault back to running.
pub proof fn a_valid_frame_ends_a_fault(m: CyclicModel, data: Seq<u8>, now_us: u64)
    requires
        our_frame(m, data) matches Some(body) && frame_valid(body),
    ensures
        ({
            let n = m.after_frame(data, now_us);
            &&& n.fed_us == now_us
            &&& n.stats.consecutive_timeouts == 0
            &&& !(n.state is Fault)
            &&& m.state is Fault ==> n.state is Running
            &&& !(m.state is Fault) ==> n.state == m.state
            &&& !n.overdue(now_us)
        }),
{
    let f = m.input_iocr.watchdog_factor as int;
    let c = m.input_iocr.cycle_us();
    assert(m.input_iocr.reduction_ratio * m.input_iocr.send_clock_factor >= 0)
        by (nonlinear_arith);
    assert(f * c >= 0) by (nonlinear_arith)
        requires
            f >= 0,
            c >= 0,
    ;
}

/// After `n` watchdog timeouts in a row.
pub open spec fn after_timeouts(m: CyclicModel, n: nat) -> CyclicModel
    decreases n,
{
    if n == 0 {
        m
    } else {
        after_timeouts(m, (n - 1) as nat).after_timeout()
    }
}

/// A running exchange in which no valid frame comes stays running for fewer
/// than the allowed number of timeouts, and is a fault with the last of them.
pub proof fn silence_is_a_fault(m: CyclicModel, n: nat)
    requires
        m.state is Running,
        m.stats.consecutive_timeouts + n <= m.max_consecutive_timeouts,
        m.max_consecutive_timeouts > 0,
        m.stats.consecutive_timeouts < m.max_consecutive_timeouts,
    ensures
        after_timeouts(m, n).stats.consecutive_timeouts == m.stats.consecutive_timeouts + n,
        after_timeouts(m, n).max_consecutive_timeouts == m.max_consecutive_timeouts,
        m.stats.consecutive_timeouts + n < m.max_consecutive_timeouts ==> after_timeouts(
            m,
            n,
        ).state is Running,
        m.stats.consecutive_timeouts + n == m.max_consecutive_timeouts ==> after_timeouts(
            m,
            n,
        ).state is Fault,
    decreases n,
{
    if n > 0 {
        silence_is_a_fault(m, (n - 1) as nat);
    }
}

/// With 0 allowed timeouts, no timeout is ever a fault.
pub proof fn zero_never_faults(m: CyclicModel, n: nat)
    requires
        m.max_consecutive_timeouts == 0,
    ensures
        after_timeouts(m, n).state == m.state,
        after_timeouts(m, n).max_consecutive_timeouts == 0,
    decreases n,
{
    if n > 0 {
        zero_never_faults(m, (n - 1) as nat);
    }
}

/// A byte of the output image has a value, as written and as sent.
pub open spec fn holds_at(m: CyclicModel, p: int, v: u8) -> bool {
    0 <= p < m.image.pending.len() && m.image.pending[p] == v && m.image.sending.len()
        == m.image.pending.len() && m.image.sending[p] == v
}

/// A stop puts the registered safe output into the image that is being sent,
/// whatever was written before, and whether or not the exchange was running.
pub proof fn a_stop_makes_the_output_safe(m: CyclicModel, i: int)
    requires
        m.wf(),
        m.safe_object() matches Some(o) && 0 <= i < o.data_length && i < (m.safe_output->0).2.len()
            && o.frame_offset + i != o.iops_offset,
    ensures
        holds_at(
            m.after_stop(),
            m.safe_object()->0.frame_offset + i,
            (m.safe_output->0).2[i],
        ),
        m.running ==> writes_locked(m.after_stop().state),
        m.after_stop().wf(),
{
    let slot = (m.safe_output->0).0;
    let subslot = (m.safe_output->0).1;
    lemma_object_of(m.image.objects, slot, subslot);
}

/// A byte of the output image that is no consumer status is kept by every
/// frame that is received, every timeout, and every frame that is sent, STOP
/// frames too: with the image locked, nothing can change it.
pub proof fn a_locked_output_is_kept(m: CyclicModel, p: int, v: u8, data: Seq<u8>, now_us: u64)
    requires
        holds_at(m, p, v),
        !iocs_at(m.image.objects, p),
    ensures
        holds_at(m.after_frame(data, now_us), p, v),
        holds_at(m.after_timeout(), p, v),
        holds_at(m.after_watch(now_us), p, v),
        holds_at(m.swapped(), p, v),
        holds_at(m.after_output_frame(), p, v),
        holds_at(m.after_stop_frame(), p, v),
        m.swapped().image.sending[p] == v,
{
}

/// The payload of an output frame is the image that is being sent.
pub proof fn output_frames_carry_the_image(m: CyclicModel, status: u8)
    requires
        m.src_mac.len() == 6,
        m.dst_mac.len() == 6,
    ensures
        rt_part(m.output_frame(status)) matches Some(body) && frame_payload(body) == m.image.sending
            && data_status(body) == status && frame_counter(body) == m.next_tx_counter(),
{
    let body = rt_frame_bytes(
        m.output_iocr.frame_id,
        m.image.sending,
        m.next_tx_counter(),
        status,
        0x00,
    );
    rt_part_of_built(m.dst_mac, m.src_mac, body);
    assert(frame_payload(body) =~= m.image.sending);
    let n = body.len() as int;
    assert(body[n - 4] == be16(m.next_tx_counter())[0]);
    assert(body[n - 3] == be16(m.next_tx_counter())[1]);
    assert(body[n - 2] == status);
}

/// Frames that arrive in sequence count as neither missed, nor duplicate, nor
/// out of order.
pub proof fn frames_in_sequence_count_as_good(s: CyclicStats, prev: u16, step: u32)
    requires
        step % 0x10000 != 0,
    ensures
        stats_after_counter(s, Some(prev), step, next_counter(prev, step)) == s,
{
    assert(next_counter(prev, step) != prev);
}

/// After a valid frame every consumer status is good, after a timeout bad.
pub proof fn the_acknowledgment_follows_the_input(m: CyclicModel, data: Seq<u8>, now_us: u64, p: int)
    requires
        iocs_at(m.image.objects, p),
        0 <= p < m.image.pending.len(),
    ensures
        our_frame(m, data) matches Some(body) && frame_valid(body) ==> m.after_frame(
            data,
            now_us,
        ).image.pending[p] == 0x80,
        m.after_timeout().image.pending[p] == 0x00,
{
}

/// An RT frame as it arrives: addresses, VLAN tag if there is one, frame ID,
/// process data, cycle counter, data status, transfer status.
pub open spec fn wire_frame(
    to: Seq<u8>,
    from: Seq<u8>,
    tag: Option<u16>,
    frame_id: u16,
    payload: Seq<u8>,
    counter: u16,
    status: u8,
    transfer: u8,
) -> Seq<u8> {
    to + from + (match tag {
        Some(control) => be16(0x8100) + be16(control),
        None => Seq::empty(),
    }) + be16(0x8892) + be16(frame_id) + payload + be16(counter) + seq![status, transfer]
}

proof fn lemma_wire_frame(
    to: Seq<u8>,
    from: Seq<u8>,
    tag: Option<u16>,
    frame_id: u16,
    payload: Seq<u8>,
    counter: u16,
    status: u8,
    transfer: u8,
)
    requires
        to.len() == 6,
        from.len() == 6,
    ensures
        ({
            let f = wire_frame(to, from, tag, frame_id, payload, counter, status, transfer);
            &&& f.len() >= 20
            &&& f.subrange(6, 12) == from
            &&& rt_part(f) matches Some(body) && body.len() == payload.len() + 6 && be16_at(body, 0)
                == frame_id && frame_payload(body) == payload && frame_counter(body) == counter
                && data_status(body) == status
        }),
{
    let f = wire_frame(to, from, tag, frame_id, payload, counter, status, transfer);
    let body = be16(frame_id) + payload + be16(counter) + seq![status, transfer];
    let at: int = match tag {
        Some(_) => 16,
        None => 12,
    };
    assert(f.subrange(6, 12) =~= from);
    reveal_with_fuel(eth_type_offset, 3);
    match tag {
        Some(_) => {
            be16_placed(f, 12, 0x8100);
            be16_placed(f, 16, 0x8892);
        },
        None => {
            be16_placed(f, 12, 0x8892);
        },
    }
    assert(eth_type_offset(f, 12) == at);
    assert(f.skip(at + 2) =~= body);
    be16_placed(body, 0, frame_id);
    assert(frame_payload(body) =~= payload);
    be16_placed(body, body.len() - 4, counter);
}

/// A valid frame from the device, with the frame ID of the input IOCR.
pub open spec fn is_input(m: CyclicModel, from: Seq<u8>, frame_id: u16, status: u8) -> bool {
    from == m.dst_mac && frame_id == m.input_iocr.frame_id && status & 0x04 != 0
}

/// What is read of a submodule after a valid frame is what stands in the frame's
/// process data at the place of its object: as many bytes as the object has, each
/// from its own place, and the provider status from its own. That holds of every
/// object that lies in the process data and is the last one of its submodule.
pub proof fn inputs_are_the_bytes_received(
    m: CyclicModel,
    now_us: u64,
    to: Seq<u8>,
    from: Seq<u8>,
    tag: Option<u16>,
    frame_id: u16,
    payload: Seq<u8>,
    counter: u16,
    status: u8,
    transfer: u8,
    k: int,
)
    requires
        to.len() == 6,
        from.len() == 6,
        is_input(m, from, frame_id, status),
        0 <= k < m.input_iocr.objects@.len(),
        m.input_iocr.objects@[k].frame_offset + m.input_iocr.objects@[k].data_length
            <= payload.len(),
        m.input_iocr.objects@[k].iops_offset < payload.len(),
        forall|j: int|
            k < j < m.input_iocr.objects@.len() ==> !((#[trigger] m.input_iocr.objects@[j]).slot
                == m.input_iocr.objects@[k].slot && m.input_iocr.objects@[j].subslot
                == m.input_iocr.objects@[k].subslot),
    ensures
        ({
            let o = m.input_iocr.objects@[k];
            let n = m.after_frame(
                wire_frame(to, from, tag, frame_id, payload, counter, status, transfer),
                now_us,
            );
            let d = n.inputs[(o.slot, o.subslot)].0;
            &&& n.inputs.contains_key((o.slot, o.subslot))
            &&& d.len() == o.data_length
            &&& forall|i: int|
                0 <= i < o.data_length ==> #[trigger] d[i] == payload[o.frame_offset + i]
            &&& n.inputs[(o.slot, o.subslot)].1 == payload[o.iops_offset as int]
            &&& good_in(n.inputs, o.slot, o.subslot) <==> payload[o.iops_offset as int] >= 0x80
        }),
{
    lemma_wire_frame(to, from, tag, frame_id, payload, counter, status, transfer);
    let objs = m.input_iocr.objects@;
    lemma_inputs_after(m.inputs, objs, payload, k, objs.len() as int);
}

proof fn lemma_inputs_after(inputs: Inputs, objs: Seq<IoDataObject>, payload: Seq<u8>, k: int, n: int)
    requires
        0 <= k < n <= objs.len(),
        objs[k].frame_offset + objs[k].data_length <= payload.len(),
        objs[k].iops_offset < payload.len(),
        forall|j: int|
            k < j < objs.len() ==> !((#[trigger] objs[j]).slot == objs[k].slot && objs[j].subslot
                == objs[k].subslot),
    ensures
        ({
            let o = objs[k];
            let after = inputs_after(inputs, objs, payload, n);
            let d = after[(o.slot, o.subslot)].0;
            &&& after.contains_key((o.slot, o.subslot))
            &&& d.len() == o.data_length
            &&& forall|i: int|
                0 <= i < o.data_length ==> #[trigger] d[i] == payload[o.frame_offset + i]
            &&& after[(o.slot, o.subslot)].1 == payload[o.iops_offset as int]
        }),
    decreases n - k,
{
    if n > k + 1 {
        lemma_inputs_after(inputs, objs, payload, k, n - 1);
        let last = objs[n - 1];
        assert(!(last.slot == objs[k].slot && last.subslot == objs[k].subslot));
    }
}

/// A frame leaves alone what it does not carry: a submodule without an object in
/// the process data keeps its data and its status.
pub proof fn other_inputs_are_kept(
    m: CyclicModel,
    now_us: u64,
    to: Seq<u8>,
    from: Seq<u8>,
    tag: Option<u16>,
    frame_id: u16,
    payload: Seq<u8>,
    counter: u16,
    status: u8,
    transfer: u8,
    slot: u16,
    subslot: u16,
)
    requires
        to.len() == 6,
        from.len() == 6,
        is_input(m, from, frame_id, status),
        forall|j: int|
            0 <= j < m.input_iocr.objects@.len() && (#[trigger] m.input_iocr.objects@[j]).slot
                == slot && m.input_iocr.objects@[j].subslot == subslot
                ==> m.input_iocr.objects@[j].frame_offset + m.input_iocr.objects@[j].data_length
                > payload.len() || m.input_iocr.objects@[j].iops_offset >= payload.len(),
    ensures
        ({
            let n = m.after_frame(
                wire_frame(to, from, tag, frame_id, payload, counter, status, transfer),
                now_us,
            );
            &&& n.inputs.contains_key((slot, subslot)) == m.inputs.contains_key((slot, subslot))
            &&& n.inputs.contains_key((slot, subslot)) ==> n.inputs[(slot, subslot)]
                == m.inputs[(slot, subslot)]
        }),
{
    lemma_wire_frame(to, from, tag, frame_id, payload, counter, status, transfer);
    let objs = m.input_iocr.objects@;
    lemma_inputs_kept(m.inputs, objs, payload, slot, subslot, objs.len() as int);
}

proof fn lemma_inputs_kept(inputs: Inputs, objs: Seq<IoDataObject>, payload: Seq<u8>, slot: u16, subslot: u16, n: int)
    requires
        0 <= n <= objs.len(),
        forall|j: int|
            0 <= j < objs.len() && (#[trigger] objs[j]).slot == slot && objs[j].subslot == subslot
                ==> objs[j].frame_offset + objs[j].data_length > payload.len()
                || objs[j].iops_offset >= payload.len(),
    ensures
        ({
            let after = inputs_after(inputs, objs, payload, n);
            &&& after.contains_key((slot, subslot)) == inputs.contains_key((slot, subslot))
            &&& after.contains_key((slot, subslot)) ==> after[(slot, subslot)]
                == inputs[(slot, subslot)]
        }),
    decreases n,
{
    if n > 0 {
        lemma_inputs_kept(inputs, objs, payload, slot, subslot, n - 1);
        let o = objs[n - 1];
        if o.slot == slot && o.subslot == subslot {
            assert(!object_in(o, payload));
        }
    }
}

/// A frame that is not the device's, or has another frame ID, changes nothing and
/// gives nothing to tell.
pub proof fn foreign_frames_change_nothing(
    m: CyclicModel,
    now_us: u64,
    to: Seq<u8>,
    from: Seq<u8>,
    tag: Option<u16>,
    frame_id: u16,
    payload: Seq<u8>,
    counter: u16,
    status: u8,
    transfer: u8,
)
    requires
        to.len() == 6,
        from.len() == 6,
        from != m.dst_mac || frame_id != m.input_iocr.frame_id,
    ensures
        ({
            let f = wire_frame(to, from, tag, frame_id, payload, counter, status, transfer);
            &&& m.after_frame(f, now_us) == m
            &&& m.frame_events(f) == Seq::<EventModel>::empty()
        }),
{
    lemma_wire_frame(to, from, tag, frame_id, payload, counter, status, transfer);
}

/// The usable data of a frame, object by object: those that lie in the process
/// data and have a good status.
pub open spec fn usable(objs: Seq<IoDataObject>, payload: Seq<u8>) -> Seq<IoDataObject> {
    objs.filter(
        |o: IoDataObject|
            o.frame_offset + o.data_length <= payload.len() && o.iops_offset < payload.len()
                && payload[o.iops_offset as int] >= 0x80,
    )
}

proof fn lemma_input_events(objs: Seq<IoDataObject>, payload: Seq<u8>, n: int)
    requires
        0 <= n <= objs.len(),
    ensures
        ({
            let told = input_events(objs, payload, n);
            let all = usable(objs.take(n), payload);
            &&& told.len() == all.len()
            &&& forall|i: int|
                0 <= i < told.len() ==> (#[trigger] told[i] matches EventModel::Input {
                    slot,
                    subslot,
                    data,
                } && slot == all[i].slot && subslot == all[i].subslot && data.len()
                    == all[i].data_length && forall|p: int|
                    0 <= p < data.len() ==> #[trigger] data[p] == payload[all[i].frame_offset + p])
        }),
    decreases n,
{
    reveal(Seq::filter);
    if n > 0 {
        lemma_input_events(objs, payload, n - 1);
        assert(objs.take(n).drop_last() =~= objs.take(n - 1));
        assert(objs.take(n).last() == objs[n - 1]);
        let before = input_events(objs, payload, n - 1);
        let all = usable(objs.take(n), payload);
        let told = input_events(objs, payload, n);
        assert forall|i: int| 0 <= i < told.len() implies (#[trigger] told[i] matches EventModel::Input {
            slot,
            subslot,
            data,
        } && slot == all[i].slot && subslot == all[i].subslot && data.len() == all[i].data_length
            && forall|p: int|
            0 <= p < data.len() ==> #[trigger] data[p] == payload[all[i].frame_offset + p]) by {
            if i < before.len() {
                assert(told[i] == before[i]);
            }
        }
    } else {
        assert(objs.take(0) =~= Seq::empty());
    }
}

/// Every usable input of a valid frame is told, once and in order, with its own
/// submodule and its own bytes, and nothing else is told as input.
pub proof fn usable_inputs_are_told(objs: Seq<IoDataObject>, payload: Seq<u8>)
    ensures
        ({
            let told = input_events(objs, payload, objs.len() as int);
            let all = usable(objs, payload);
            &&& told.len() == all.len()
            &&& forall|i: int|
                0 <= i < told.len() ==> (#[trigger] told[i] matches EventModel::Input {
                    slot,
                    subslot,
                    data,
                } && slot == all[i].slot && subslot == all[i].subslot && data.len()
                    == all[i].data_length && forall|p: int|
                    0 <= p < data.len() ==> #[trigger] data[p] == payload[all[i].frame_offset + p])
        }),
{
    lemma_input_events(objs, payload, objs.len() as int);
    assert(objs.take(objs.len() as int) =~= objs);
}

/// A change of provider status is told exactly where it turns good or bad: the
/// last object of the payload adds an event if its submodule's status was of the
/// other kind before, and none otherwise.
pub proof fn changes_of_status_are_told(inputs: Inputs, objs: Seq<IoDataObject>, o: IoDataObject, payload: Seq<u8>)
    requires
        o.frame_offset + o.data_length <= payload.len(),
        o.iops_offset < payload.len(),
    ensures
        ({
            let n = objs.len() as int;
            let all = objs.push(o);
            let was_good = inputs_after(inputs, all, payload, n).contains_key((o.slot, o.subslot))
                && inputs_after(inputs, all, payload, n)[(o.slot, o.subslot)].1 >= 0x80;
            let iops = payload[o.iops_offset as int];
            status_events(inputs, all, payload, n + 1) == if was_good == (iops >= 0x80) {
                status_events(inputs, objs, payload, n)
            } else {
                status_events(inputs, objs, payload, n).push(
                    EventModel::InputStatus { slot: o.slot, subslot: o.subslot, iops },
                )
            }
        }),
{
    lemma_status_prefix(inputs, objs, o, payload, objs.len() as int);
}

proof fn lemma_status_prefix(inputs: Inputs, objs: Seq<IoDataObject>, o: IoDataObject, payload: Seq<u8>, n: int)
    requires
        0 <= n <= objs.len(),
    ensures
        status_events(inputs, objs.push(o), payload, n) == status_events(inputs, objs, payload, n),
        inputs_after(inputs, objs.push(o), payload, n) == inputs_after(inputs, objs, payload, n),
    decreases n,
{
    if n > 0 {
        lemma_status_prefix(inputs, objs, o, payload, n - 1);
        assert(objs.push(o)[n - 1] == objs[n - 1]);
    }
}

/// Output data that is set is what the next frame carries: each byte at the place
/// of its object in the process data, with a good provider status, and every other
/// byte of the image as it was. The frame goes from the controller to the device
/// with the frame ID of the output IOCR, the next cycle counter, and the data
/// status of a provider that runs.
pub proof fn what_is_set_is_sent(m: CyclicModel, o: IoDataObject, data: Seq<u8>, p: int)
    requires
        m.wf(),
        o.frame_offset + o.data_length <= m.output_iocr.data_length,
        o.iops_offset < m.output_iocr.data_length,
        o.data_length > 0,
        data.len() == o.data_length,
        0 <= p < m.output_iocr.data_length,
    ensures
        ({
            let set = CyclicModel { image: m.image.with_data(o, data), ..m };
            let f = set.swapped().output_frame(0x35);
            let n = m.output_iocr.data_length as int;
            &&& f.len() == n + 24
            &&& f.subrange(0, 6) == m.dst_mac
            &&& f.subrange(6, 12) == m.src_mac
            &&& be16_at(f, 12) == 0x8100
            &&& be16_at(f, 14) == 0xC000
            &&& be16_at(f, 16) == 0x8892
            &&& be16_at(f, 18) == m.output_iocr.frame_id
            &&& f[20 + p] == if p == o.iops_offset {
                0x80
            } else if o.frame_offset <= p < o.frame_offset + o.data_length {
                data[p - o.frame_offset]
            } else {
                m.image.pending[p]
            }
            &&& be16_at(f, 20 + n) == (m.cycle_counter + m.output_iocr.send_clock_factor
                * m.output_iocr.reduction_ratio) % 0x10000
            &&& f[n + 22] == 0x35
            &&& f[n + 23] == 0x00
            &&& set.swapped().after_output_frame().cycle_counter == be16_at(f, 20 + n)
        }),
{
    let set = CyclicModel { image: m.image.with_data(o, data), ..m };
    let image = m.image.with_data(o, data).pending;
    let f = set.swapped().output_frame(0x35);
    let n = m.output_iocr.data_length as int;
    let a = m.output_iocr.send_clock_factor as int;
    let b = m.output_iocr.reduction_ratio as int;
    assert(0 <= a * b <= 0xFFFF * 0xFFFF) by (nonlinear_arith)
        requires
            0 <= a <= 0xFFFF,
            0 <= b <= 0xFFFF,
    ;
    let c = set.next_tx_counter();
    assert(c == (m.cycle_counter + a * b) % 0x10000);
    assert(image.len() == n);
    assert(data.take(data.len() as int) =~= data);
    let body = rt_frame_bytes(m.output_iocr.frame_id, image, c, 0x35, 0x00);
    assert(f == rt_ethernet_bytes(m.dst_mac, m.src_mac, body));
    assert(f.subrange(0, 6) =~= m.dst_mac);
    assert(f.subrange(6, 12) =~= m.src_mac);
    be16_placed(f, 12, 0x8100);
    be16_placed(f, 14, 0xC000);
    be16_placed(f, 16, 0x8892);
    be16_placed(f, 18, m.output_iocr.frame_id);
    be16_placed(f, 20 + n, c);
    assert(f[20 + p] == image[p]);
}

/// An output image that is sent and received under the same layout reads back:
/// the receiver finds the data that was set for a submodule, with a good status.
pub proof fn what_is_set_reads_back(image: ImageModel, inputs: Inputs, k: int, data: Seq<u8>)
    requires
        0 <= k < image.objects.len(),
        objects_fit(image.objects, image.pending.len() as int),
        image.objects[k].data_length > 0,
        data.len() == image.objects[k].data_length,
        !(image.objects[k].frame_offset <= image.objects[k].iops_offset
            < image.objects[k].frame_offset + image.objects[k].data_length),
        forall|j: int|
            k < j < image.objects.len() ==> !((#[trigger] image.objects[j]).slot
                == image.objects[k].slot && image.objects[j].subslot == image.objects[k].subslot),
    ensures
        ({
            let o = image.objects[k];
            let sent = image.with_data(o, data).swapped().sending;
            let n = image.objects.len() as int;
            let got = inputs_after(inputs, image.objects, sent, n);
            &&& got.contains_key((o.slot, o.subslot))
            &&& got[(o.slot, o.subslot)] == (data, 0x80u8)
        }),
{
    let o = image.objects[k];
    let sent = image.with_data(o, data).swapped().sending;
    let n = image.objects.len() as int;
    assert(object_fits(o, image.pending.len() as int));
    assert(data.take(data.len() as int) =~= data);
    assert(sent.len() == image.pending.len());
    lemma_inputs_after(inputs, image.objects, sent, k, n);
    let got = inputs_after(inputs, image.objects, sent, n)[(o.slot, o.subslot)].0;
    assert forall|i: int| 0 <= i < o.data_length implies #[trigger] got[i] == data[i] by {
        assert(got[i] == sent[o.frame_offset + i]);
    }
    assert(got =~= data);
}

/// A frame that skips `k` counters in a row counts `k` frames as missed, the same
/// counter again counts as a duplicate, and one from behind as out of order; each
/// changes no other count.
pub proof fn gaps_are_counted(s: CyclicStats, prev: u16, step: u32, k: nat)
    requires
        0 < step,
        (k + 1) * step <= 0x8000,
        s.frames_missed + k <= u64::MAX,
        s.frames_duplicate < u64::MAX,
        s.frames_out_of_order < u64::MAX,
    ensures
        stats_after_counter(s, Some(prev), step, ((prev + (k + 1) * step) % 0x10000) as u16) == (
        CyclicStats { frames_missed: (s.frames_missed + k) as u64, ..s }),
        stats_after_counter(s, Some(prev), step, prev) == (CyclicStats {
            frames_duplicate: (s.frames_duplicate + 1) as u64,
            ..s
        }),
        step < 0x8000 ==> stats_after_counter(
            s,
            Some(prev),
            step,
            ((prev + 0x10000 - step) % 0x10000) as u16,
        ) == (CyclicStats { frames_out_of_order: (s.frames_out_of_order + 1) as u64, ..s }),
        stats_after_counter(s, None, step, prev) == s,
{
    let d = (k + 1) * step;
    assert(d >= step) by (nonlinear_arith)
        requires
            d == (k + 1) * step,
            k >= 0,
            step > 0,
    ;
    let rx = ((prev + d) % 0x10000) as u16;
    assert(forward_distance(prev, rx) == d);
    assert(d / step as int == k + 1) by (nonlinear_arith)
        requires
            d == (k + 1) * step,
            step > 0,
    ;
    if k == 0 {
        assert(d == step) by (nonlinear_arith)
            requires
                d == (k + 1) * step,
                k == 0,
        ;
        assert(rx == next_counter(prev, step));
    } else {
        assert(d > step) by (nonlinear_arith)
            requires
                d == (k + 1) * step,
                k >= 1,
                step > 0,
        ;
        assert(rx != next_counter(prev, step));
    }
    if step < 0x8000 {
        let back = ((prev + 0x10000 - step) % 0x10000) as u16;
        assert(forward_distance(prev, back) == 0x10000 - step);
        assert(back != next_counter(prev, step));
    }
}

/// What a measured arrival adds: the interval since the last frame enters the sum,
/// the count, the extremes and the jitter, and the frame is counted; the first
/// frame, and the first after a timeout, is counted without an interval.
pub proof fn arrivals_are_measured(s: CyclicStats, target_us: u64, now_us: u64, valid: bool)
    requires
        s.room(now_us),
        now_us >= s.last_receive_us,
    ensures
        ({
            let n = stats_after_arrival(s, target_us, now_us, valid);
            let t = now_us - s.last_receive_us;
            let off = if t >= target_us {
                t - target_us
            } else {
                target_us - t
            };
            &&& n.frames_received == s.frames_received + 1
            &&& n.last_receive_us == now_us
            &&& n.consecutive_timeouts == if valid {
                0
            } else {
                s.consecutive_timeouts
            }
            &&& n.frames_missed == s.frames_missed && n.frames_sent == s.frames_sent
            &&& if s.frames_received > 0 && s.consecutive_timeouts == 0 {
                &&& n.last_rx_interval_us == t
                &&& n.rx_interval_sum_us == s.rx_interval_sum_us + t
                &&& n.rx_interval_count == s.rx_interval_count + 1
                &&& n.min_rx_interval_us <= t <= n.max_rx_interval_us
                &&& n.min_rx_interval_us <= s.min_rx_interval_us
                &&& n.max_rx_interval_us >= s.max_rx_interval_us
                &&& n.min_rx_interval_us == t || n.min_rx_interval_us == s.min_rx_interval_us
                &&& n.max_rx_interval_us == t || n.max_rx_interval_us == s.max_rx_interval_us
                &&& n.max_rx_jitter_us >= off && n.max_rx_jitter_us >= s.max_rx_jitter_us
                &&& n.max_rx_jitter_us == off || n.max_rx_jitter_us == s.max_rx_jitter_us
            } else {
                &&& n.rx_interval_sum_us == s.rx_interval_sum_us
                &&& n.rx_interval_count == s.rx_interval_count
                &&& n.min_rx_interval_us == s.min_rx_interval_us
                &&& n.max_rx_interval_us == s.max_rx_interval_us
                &&& n.max_rx_jitter_us == s.max_rx_jitter_us
            }
        }),
{
}

/// What a turn of the transmit loop does: before the time nothing; then a frame is
/// counted, unless there is a fault, the send interval enters its sum, count,
/// extremes and jitter, and the next frame is due one cycle after this one was,
/// or one cycle from now where that time is over: a delay is never made up for by
/// a burst.
pub proof fn frames_are_paced(m: CyclicModel, p: TxPacer, now_us: u64)
    requires
        m.stats.room(now_us),
        p.wf(),
        now_us < 0x8000_0000_0000_0000,
        p.last_send_us <= now_us,
    ensures
        ({
            let (n, q) = after_tx(m, p, now_us);
            let cycle = m.output_iocr.cycle_us();
            let t = now_us - p.last_send_us;
            let off = if t >= cycle {
                t - cycle
            } else {
                cycle - t
            };
            &&& now_us < p.next_send_us ==> n == m && q == p
            &&& now_us >= p.next_send_us ==> {
                &&& q.last_send_us == now_us
                &&& !q.first_frame
                &&& q.next_send_us >= now_us
                &&& q.next_send_us == p.next_send_us + cycle || (q.next_send_us == now_us + cycle
                    && p.next_send_us + cycle < now_us)
                &&& n.stats.frames_sent == if m.state is Fault {
                    m.stats.frames_sent as int
                } else {
                    m.stats.frames_sent + 1
                }
                &&& p.first_frame ==> n.stats.cycle_count == m.stats.cycle_count
                    && n.stats.cycle_time_sum_us == m.stats.cycle_time_sum_us
                &&& !p.first_frame ==> {
                    &&& n.stats.last_cycle_time_us == t
                    &&& n.stats.cycle_count == m.stats.cycle_count + 1
                    &&& n.stats.cycle_time_sum_us == m.stats.cycle_time_sum_us + t
                    &&& n.stats.min_cycle_time_us <= t <= n.stats.max_cycle_time_us
                    &&& n.stats.min_cycle_time_us <= m.stats.min_cycle_time_us
                    &&& n.stats.max_cycle_time_us >= m.stats.max_cycle_time_us
                    &&& n.stats.max_jitter_us >= off && n.stats.max_jitter_us
                        >= m.stats.max_jitter_us
                    &&& n.stats.max_jitter_us == off || n.stats.max_jitter_us
                        == m.stats.max_jitter_us
                }
                &&& n.state == m.state && n.inputs == m.inputs
            }
        }),
{
    let c = m.output_iocr.cycle_us();
    let a = m.output_iocr.reduction_ratio as int;
    let b = m.output_iocr.send_clock_factor as int;
    assert(0 <= a * b <= 0xFFFF * 0xFFFF) by (nonlinear_arith)
        requires
            0 <= a <= 0xFFFF,
            0 <= b <= 0xFFFF,
    ;
    assert(0 <= c < 0x20_0000_0000);
}

/// The watchdog runs out exactly when more time has passed since the last valid
/// frame than the watchdog factor allows cycles, and a look at it before that
/// changes nothing.
pub proof fn the_watchdog_runs_out_in_time(m: CyclicModel, now_us: u64)
    requires
        now_us >= m.fed_us,
    ensures
        m.overdue(now_us) <==> (now_us - m.fed_us) > m.input_iocr.watchdog_factor * (
        m.input_iocr.send_clock_factor * m.input_iocr.reduction_ratio * 125 / 4),
        !m.overdue(now_us) ==> m.after_watch(now_us) == m && m.watch_events(now_us) == Seq::<
            EventModel,
        >::empty(),
        m.overdue(now_us) ==> {
            &&& m.watch_events(now_us).contains(EventModel::Timeout)
            &&& m.after_watch(now_us).fed_us == now_us
            &&& m.stats.consecutive_timeouts < u32::MAX ==> m.after_watch(
                now_us,
            ).stats.consecutive_timeouts == m.stats.consecutive_timeouts + 1
            &&& m.stats.frames_missed < u64::MAX ==> m.after_watch(now_us).stats.frames_missed
                == m.stats.frames_missed + 1
            &&& m.after_watch(now_us).inputs == m.inputs
        },
{
    let a = m.input_iocr.reduction_ratio as int;
    let b = m.input_iocr.send_clock_factor as int;
    assert(a * b == b * a) by (nonlinear_arith);
    if m.overdue(now_us) {
        assert(m.timeout_events()[0] == EventModel::Timeout);
    }
}

/// Output frames go to the device, from us, under the frame id of the output
/// relation, with the image that is being sent and the given data status; and the
/// counter of each is that of the one before it plus the cycle time in units of
/// 31.25 microseconds.
pub proof fn output_frames_have_their_layout(m: CyclicModel, status: u8, later: u8, i: int)
    requires
        m.src_mac.len() == 6,
        m.dst_mac.len() == 6,
    ensures
        ({
            let b = m.output_frame(status);
            let next = m.after_output_frame().output_frame(later);
            let n = m.image.sending.len() as int;
            let step = m.output_iocr.send_clock_factor * m.output_iocr.reduction_ratio;
            &&& b.len() == n + 24
            &&& 0 <= i < 6 ==> b[i] == m.dst_mac[i] && b[6 + i] == m.src_mac[i]
            &&& be16_at(b, 16) == 0x8892
            &&& be16_at(b, 18) == m.output_iocr.frame_id
            &&& 0 <= i < n ==> b[20 + i] == m.image.sending[i]
            &&& b[22 + n] == status && b[23 + n] == 0
            &&& next.len() == b.len() && next[22 + n] == later
            &&& step <= 0xFFFF ==> be16_at(next, 20 + n) == (be16_at(b, 20 + n) + step) % 0x10000
            &&& step <= 0xFFFF ==> be16_at(b, 20 + n) == (m.cycle_counter + step) % 0x10000
            &&& m.after_output_frame().image == m.image
        }),
{
    let n = m.image.sending.len() as int;
    let body = rt_frame_bytes(
        m.output_iocr.frame_id,
        m.image.sending,
        m.next_tx_counter(),
        status,
        0x00,
    );
    let o = m.after_output_frame();
    let body2 = rt_frame_bytes(
        o.output_iocr.frame_id,
        o.image.sending,
        o.next_tx_counter(),
        later,
        0x00,
    );
    let b = m.output_frame(status);
    let next = o.output_frame(later);
    assert(b == rt_ethernet_bytes(m.dst_mac, m.src_mac, body));
    assert(next == rt_ethernet_bytes(m.dst_mac, m.src_mac, body2));
    be16_placed(b, 16, 0x8892);
    be16_placed(b, 18, m.output_iocr.frame_id);
    be16_placed(b, 20 + n, m.next_tx_counter());
    be16_placed(next, 20 + n, o.next_tx_counter());
}

} // verus!
