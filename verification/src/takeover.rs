//! The steps of a takeover as IO controller, in their order: find the slots,
//! check the description against the firmware, check that nobody is commanding
//! the outputs, and only then swap the device access AR for the IO AR.
//!
//! The takeover decides; whoever drives it does what [`Takeover::next`] says and
//! hands back how that ended. Outputs are never written: the controller starts
//! with the all-zero image.

use vstd::prelude::*;
use vstd::string::*;
use crate::bytes::{bytes_outcome, plain_outcome};
use crate::cli::{cycle_message, is_reduction_ratio, validate_cycle_ms};
use crate::connect::{slots_fit, IocrSetup};
use crate::cyclic::{first_image, fresh_stats, CyclicController, CyclicModel, CyclicState};
use crate::gsdml::IoSlot;
use crate::json::object_text;
use crate::lines::{
    current_output_fields, cyclic_started_fields, cyclic_started_line, error_read_fields,
    refused_setup_fields,
};
use crate::records::{control_byte, input_length};
use crate::serve::{
    paced_read, still_busy_message, tries_again, Tried, ACYCLIC_READ_GAP_MS, BUSY_PAUSE_MS,
};
use crate::text::{contains_text, hex_text, texts};
use crate::tier::{
    check_established, check_input_image, first_output, guarded_controller, input_submodule,
    is_tier_config, layout_fits, mismatch_message, output_submodule, ownership_probe, takeover_refusal,
    tier_controller, tier_setup, verified_input,
};
use crate::transport::ConnectResult;

verus! {

/// Where a takeover stands.
#[derive(Debug, Clone, Copy, PartialEq, Eq, Structural)]
pub enum TakeoverPhase {
    Discovering,
    LayingOut,
    /// Before the read of the input record with this number.
    Reading(u32),
    Probing,
    Rebinding,
    EndingParameters,
    AwaitingReady,
    Ready,
    Failed,
}

/// What a takeover does next.
#[derive(Debug, Clone, Copy, PartialEq, Eq, Structural)]
pub enum TakeoverStep {
    /// Read which slots the device has.
    DiscoverSlots,
    /// Lay the slots out by the description.
    LayOut,
    /// Wait so many milliseconds, then read the input record.
    ReadInput { slot: u16, subslot: u16, pause_ms: u64 },
    /// Read the output record.
    ProbeOutput { slot: u16, subslot: u16 },
    /// Release the AR, give the device half a second, and connect anew with
    /// [`Takeover::setup`].
    Rebind,
    /// End the parameter phase.
    EndParameters,
    /// Await that the device is ready.
    AwaitReady,
    /// Start the exchange with [`Takeover::controller`].
    Start,
    /// Nothing: it failed.
    Stop,
}

/// How a step ended badly: whether the AR is to be released before the error is
/// given, and the error.
#[derive(Debug, PartialEq, Eq)]
pub struct TakeoverFailure {
    pub release: bool,
    pub error: String,
}

/// What the end of a step gives: the lines to write, in order, and the failure,
/// if it is one.
#[derive(Debug)]
pub struct TakeoverReport {
    pub lines: Vec<String>,
    pub failure: Option<TakeoverFailure>,
}

/// A [`TakeoverReport`] as mathematical values.
#[verifier::ext_equal]
pub struct ReportModel {
    pub lines: Seq<Seq<char>>,
    pub failure: Option<(bool, Seq<char>)>,
}

impl View for TakeoverReport {
    type V = ReportModel;

    open spec fn view(&self) -> ReportModel {
        ReportModel {
            lines: texts(self.lines@),
            failure: match self.failure {
                Some(f) => Some((f.release, f.error@)),
                None => None,
            },
        }
    }
}

/// Nothing to report.
pub open spec fn quiet() -> ReportModel {
    ReportModel { lines: Seq::empty(), failure: None }
}

/// A failure without a line.
pub open spec fn fails(release: bool, error: Seq<char>) -> ReportModel {
    ReportModel { lines: Seq::empty(), failure: Some((release, error)) }
}

fn report_quiet() -> (r: TakeoverReport)
    ensures
        r@ == quiet(),
{
    let r = TakeoverReport { lines: Vec::new(), failure: None };
    assert(r@ =~= quiet());
    r
}

fn report_failure(release: bool, error: String) -> (r: TakeoverReport)
    ensures
        r@ == fails(release, error@),
{
    let r = TakeoverReport { lines: Vec::new(), failure: Some(TakeoverFailure { release, error }) };
    assert(r@ =~= fails(release, error@));
    r
}

/// A takeover.
#[derive(Debug)]
pub struct Takeover {
    /// The description's name, for messages.
    pub path: String,
    pub cycle_ms: u16,
    /// Whether the session may drive the output image.
    pub commanding: bool,
    /// The submodule whose input image is checked; the first one with inputs,
    /// if none is named.
    pub wanted: Option<(u16, u16)>,
    pub phase: TakeoverPhase,
    pub io_slots: Vec<IoSlot>,
    pub in_slot: u16,
    pub in_subslot: u16,
    /// The length that the description gives the input image.
    pub declared: usize,
    pub out_slot: u16,
    pub out_subslot: u16,
    /// The last input and output records that were read.
    pub input_record: Vec<u8>,
    pub output_record: Vec<u8>,
    pub result: ConnectResult,
}

/// What a [`Takeover`] holds, as mathematical values.
#[verifier::ext_equal]
pub struct TakeoverModel {
    pub path: Seq<char>,
    pub cycle_ms: u16,
    pub commanding: bool,
    pub wanted: Option<(u16, u16)>,
    pub phase: TakeoverPhase,
    pub io_slots: Seq<IoSlot>,
    pub in_slot: u16,
    pub in_subslot: u16,
    pub declared: usize,
    pub out_slot: u16,
    pub out_subslot: u16,
    pub input_record: Seq<u8>,
    pub output_record: Seq<u8>,
    pub result: ConnectResult,
}

impl View for Takeover {
    type V = TakeoverModel;

    open spec fn view(&self) -> TakeoverModel {
        TakeoverModel {
            path: self.path@,
            cycle_ms: self.cycle_ms,
            commanding: self.commanding,
            wanted: self.wanted,
            phase: self.phase,
            io_slots: self.io_slots@,
            in_slot: self.in_slot,
            in_subslot: self.in_subslot,
            declared: self.declared,
            out_slot: self.out_slot,
            out_subslot: self.out_subslot,
            input_record: self.input_record@,
            output_record: self.output_record@,
            result: self.result,
        }
    }
}

/// The refusal of a takeover.
pub open spec fn refusal_line() -> Seq<char> {
    object_text(
        refused_setup_fields(
            "output is not at the safe image or state unknown; refusing takeover"@,
        ),
    )
}

/// The error of a refused takeover.
pub open spec fn refusal_error() -> Seq<char> {
    "ownership probe failed: output is not at the safe image or state unknown; refusing to take over the cyclic AR"@
}

/// The device established the exchange.
pub open spec fn established(r: ConnectResult) -> bool {
    r.has_cyclic && 0x8000 <= r.output_frame_id <= 0xFBFF
}

impl TakeoverModel {
    /// With another phase.
    pub open spec fn at(self, phase: TakeoverPhase) -> TakeoverModel {
        TakeoverModel { phase, ..self }
    }

    /// The description agrees with the input record that the device gave.
    pub open spec fn checked(self) -> bool {
        input_length(self.input_record) == Some(self.declared as nat)
    }

    /// Nobody commands the outputs: the output record that the device gave has
    /// the safe byte.
    pub open spec fn unowned(self) -> bool {
        control_byte(self.output_record) == Some(0u8)
    }

    /// The takeover has gone on to swap the ARs.
    pub open spec fn committed(self) -> bool {
        self.phase is Rebinding || self.phase is EndingParameters || self.phase is AwaitingReady
            || self.phase is Ready
    }

    /// Nothing goes on without its check: the layout fits, the ARs are swapped
    /// only with a description that agrees and, for a session that may drive
    /// the outputs, with the safe byte in effect, and what follows needs an
    /// exchange that the device established.
    pub open spec fn wf(self) -> bool {
        &&& is_reduction_ratio(self.cycle_ms)
        &&& !(self.phase is Discovering || self.phase is LayingOut || self.phase is Failed)
            ==> slots_fit(self.io_slots)
        &&& (self.phase matches TakeoverPhase::Reading(n) ==> n < 4)
        &&& self.phase is Probing ==> self.checked() && self.commanding
        &&& self.committed() ==> self.checked() && (self.commanding ==> self.unowned())
        &&& (self.phase is EndingParameters || self.phase is AwaitingReady || self.phase is Ready)
            ==> established(self.result)
    }

    /// What the takeover does next.
    pub open spec fn next(self) -> TakeoverStep {
        match self.phase {
            TakeoverPhase::Discovering => TakeoverStep::DiscoverSlots,
            TakeoverPhase::LayingOut => TakeoverStep::LayOut,
            TakeoverPhase::Reading(n) => TakeoverStep::ReadInput {
                slot: self.in_slot,
                subslot: self.in_subslot,
                pause_ms: if n > 0 {
                    80
                } else {
                    30
                },
            },
            TakeoverPhase::Probing => TakeoverStep::ProbeOutput {
                slot: self.out_slot,
                subslot: self.out_subslot,
            },
            TakeoverPhase::Rebinding => TakeoverStep::Rebind,
            TakeoverPhase::EndingParameters => TakeoverStep::EndParameters,
            TakeoverPhase::AwaitingReady => TakeoverStep::AwaitReady,
            TakeoverPhase::Ready => TakeoverStep::Start,
            TakeoverPhase::Failed => TakeoverStep::Stop,
        }
    }

    /// After a step whose outcome is only that it worked.
    pub open spec fn after_plain(self, outcome: Result<(), Seq<char>>, then: TakeoverPhase) -> (
        TakeoverModel,
        ReportModel,
    ) {
        match outcome {
            Ok(_) => (self.at(then), quiet()),
            Err(m) => (self.at(TakeoverPhase::Failed), fails(false, m)),
        }
    }

    /// After the slots were laid out.
    pub open spec fn after_layout(self, outcome: Result<Seq<IoSlot>, Seq<char>>) -> (
        TakeoverModel,
        ReportModel,
    ) {
        let failed = self.at(TakeoverPhase::Failed);
        match outcome {
            Err(m) => (failed, fails(false, m)),
            Ok(slots) => if !slots_fit(slots) {
                (failed, fails(false, "the layout of "@ + self.path + " is too large"@))
            } else {
                match verified_input(slots, self.wanted, self.path) {
                    Err(m) => (failed, fails(false, m)),
                    Ok((slot, subslot, declared)) => {
                        let (out_slot, out_subslot) = match first_output(slots, 0) {
                            Some(o) => (o.slot, o.subslot),
                            None => (slot, subslot),
                        };
                        (
                            TakeoverModel {
                                io_slots: slots,
                                in_slot: slot,
                                in_subslot: subslot,
                                declared,
                                out_slot,
                                out_subslot,
                                phase: TakeoverPhase::Reading(0),
                                ..self
                            },
                            quiet(),
                        )
                    },
                }
            },
        }
    }

    /// After a read of the input record. A busy device is asked again.
    pub open spec fn after_input(self, outcome: Result<Seq<u8>, Seq<char>>) -> (
        TakeoverModel,
        ReportModel,
    ) {
        let n = match self.phase {
            TakeoverPhase::Reading(n) => n,
            _ => 0,
        };
        let failed = self.at(TakeoverPhase::Failed);
        match outcome {
            Err(m) => if tries_again(m, n, 4) {
                (self.at(TakeoverPhase::Reading((n + 1) as u32)), quiet())
            } else {
                (
                    failed,
                    fails(
                        false,
                        "could not read the input image (0x8028) to verify the GSDML: "@ + if contains_text(
                            m,
                            "DE80C200"@,
                        ) {
                            still_busy_message(0x8028, m)
                        } else {
                            m
                        },
                    ),
                )
            },
            Ok(d) => match input_length(d) {
                None => (
                    failed,
                    fails(false, "could not parse the input image record (0x8028)"@),
                ),
                Some(actual) => if self.declared == actual {
                    (
                        TakeoverModel {
                            input_record: d,
                            phase: if self.commanding {
                                TakeoverPhase::Probing
                            } else {
                                TakeoverPhase::Rebinding
                            },
                            ..self
                        },
                        quiet(),
                    )
                } else {
                    (
                        failed,
                        fails(
                            true,
                            mismatch_message(
                                self.path,
                                self.in_slot,
                                self.in_subslot,
                                self.declared,
                                actual,
                            ),
                        ),
                    )
                },
            },
        }
    }

    /// After a read of the output record.
    pub open spec fn after_probe(self, outcome: Result<Seq<u8>, Seq<char>>) -> (
        TakeoverModel,
        ReportModel,
    ) {
        let line = match outcome {
            Ok(d) => object_text(current_output_fields(d.len() as usize, hex_text(d))),
            Err(m) => object_text(error_read_fields("current_output"@, m)),
        };
        if outcome matches Ok(d) && control_byte(d) == Some(0u8) {
            (
                TakeoverModel {
                    output_record: outcome->Ok_0,
                    phase: TakeoverPhase::Rebinding,
                    ..self
                },
                ReportModel { lines: seq![line], failure: None },
            )
        } else {
            (
                self.at(TakeoverPhase::Failed),
                ReportModel {
                    lines: seq![line, refusal_line()],
                    failure: Some((true, refusal_error())),
                },
            )
        }
    }

    /// After the new connection.
    pub open spec fn after_connect(self, outcome: Result<ConnectResult, Seq<char>>) -> (
        TakeoverModel,
        ReportModel,
    ) {
        match outcome {
            Err(m) => (self.at(TakeoverPhase::Failed), fails(false, m)),
            Ok(r) => if established(r) {
                (
                    TakeoverModel { result: r, phase: TakeoverPhase::EndingParameters, ..self },
                    quiet(),
                )
            } else {
                (
                    self.at(TakeoverPhase::Failed),
                    fails(true, "cyclic IO not established by device"@),
                )
            },
        }
    }
}

impl Takeover {
    /// A takeover that begins with the slots. Fails for a cycle time that is no
    /// reduction ratio, before the device is touched.
    pub fn new(path: &str, cycle_ms: u16, commanding: bool, wanted: Option<(u16, u16)>) -> (r:
        Result<Takeover, String>)
        ensures
            r is Ok <==> is_reduction_ratio(cycle_ms),
            r matches Err(e) ==> e@ == cycle_message(cycle_ms),
            r matches Ok(t) ==> t@.wf() && t@ == (TakeoverModel {
                path: path@,
                cycle_ms,
                commanding,
                wanted,
                phase: TakeoverPhase::Discovering,
                io_slots: Seq::empty(),
                in_slot: 0,
                in_subslot: 0,
                declared: 0,
                out_slot: 0,
                out_subslot: 0,
                input_record: Seq::empty(),
                output_record: Seq::empty(),
                result: ConnectResult { input_frame_id: 0, output_frame_id: 0, has_cyclic: false },
            }),
    {
        match validate_cycle_ms(cycle_ms) {
            Ok(_) => {},
            Err(e) => {
                return Err(e);
            },
        }
        Ok(
            Takeover {
                path: path.to_owned(),
                cycle_ms,
                commanding,
                wanted,
                phase: TakeoverPhase::Discovering,
                io_slots: Vec::new(),
                in_slot: 0,
                in_subslot: 0,
                declared: 0,
                out_slot: 0,
                out_subslot: 0,
                input_record: Vec::new(),
                output_record: Vec::new(),
                result: ConnectResult { input_frame_id: 0, output_frame_id: 0, has_cyclic: false },
            },
        )
    }

    /// What the takeover does next.
    pub fn next(&self) -> (r: TakeoverStep)
        ensures
            r == self@.next(),
    {
        match self.phase {
            TakeoverPhase::Discovering => TakeoverStep::DiscoverSlots,
            TakeoverPhase::LayingOut => TakeoverStep::LayOut,
            TakeoverPhase::Reading(n) => TakeoverStep::ReadInput {
                slot: self.in_slot,
                subslot: self.in_subslot,
                pause_ms: if n > 0 {
                    BUSY_PAUSE_MS + ACYCLIC_READ_GAP_MS
                } else {
                    ACYCLIC_READ_GAP_MS
                },
            },
            TakeoverPhase::Probing => TakeoverStep::ProbeOutput {
                slot: self.out_slot,
                subslot: self.out_subslot,
            },
            TakeoverPhase::Rebinding => TakeoverStep::Rebind,
            TakeoverPhase::EndingParameters => TakeoverStep::EndParameters,
            TakeoverPhase::AwaitingReady => TakeoverStep::AwaitReady,
            TakeoverPhase::Ready => TakeoverStep::Start,
            TakeoverPhase::Failed => TakeoverStep::Stop,
        }
    }

    fn plain(&mut self, outcome: Result<(), String>, then: TakeoverPhase) -> (r: TakeoverReport)
        requires
            old(self)@.wf(),
            old(self)@.at(then).wf(),
        ensures
            final(self)@.wf(),
            (final(self)@, r@) == old(self)@.after_plain(plain_outcome(outcome), then),
    {
        match outcome {
            Ok(_) => {
                self.phase = then;
                report_quiet()
            },
            Err(e) => {
                self.phase = TakeoverPhase::Failed;
                report_failure(false, e)
            },
        }
    }

    /// Whether the slots could be read.
    pub fn on_slots(&mut self, outcome: Result<(), String>) -> (r: TakeoverReport)
        requires
            old(self)@.wf(),
            old(self)@.phase is Discovering,
        ensures
            final(self)@.wf(),
            (final(self)@, r@) == old(self)@.after_plain(
                plain_outcome(outcome),
                TakeoverPhase::LayingOut,
            ),
    {
        self.plain(outcome, TakeoverPhase::LayingOut)
    }

    /// The slots as the description lays them out.
    pub fn on_layout(&mut self, outcome: Result<Vec<IoSlot>, String>) -> (r: TakeoverReport)
        requires
            old(self)@.wf(),
            old(self)@.phase is LayingOut,
        ensures
            final(self)@.wf(),
            (final(self)@, r@) == old(self)@.after_layout(
                match outcome {
                    Ok(s) => Ok(s@),
                    Err(e) => Err(e@),
                },
            ),
    {
        let slots = match outcome {
            Ok(s) => s,
            Err(e) => {
                self.phase = TakeoverPhase::Failed;
                return report_failure(false, e);
            },
        };
        if !layout_fits(slots.as_slice()) {
            self.phase = TakeoverPhase::Failed;
            let mut e = "the layout of ".to_owned();
            e.append(self.path.as_str());
            e.append(" is too large");
            return report_failure(false, e);
        }
        match input_submodule(slots.as_slice(), self.wanted, self.path.as_str()) {
            Err(e) => {
                self.phase = TakeoverPhase::Failed;
                report_failure(false, e)
            },
            Ok((slot, subslot, declared)) => {
                let (out_slot, out_subslot) = output_submodule(slots.as_slice(), (slot, subslot));
                self.in_slot = slot;
                self.in_subslot = subslot;
                self.declared = declared;
                self.out_slot = out_slot;
                self.out_subslot = out_subslot;
                self.io_slots = slots;
                self.phase = TakeoverPhase::Reading(0);
                report_quiet()
            },
        }
    }

    /// How a read of the input record ended.
    pub fn on_input_record(&mut self, outcome: Result<Vec<u8>, String>) -> (r: TakeoverReport)
        requires
            old(self)@.wf(),
            old(self)@.phase is Reading,
        ensures
            final(self)@.wf(),
            (final(self)@, r@) == old(self)@.after_input(bytes_outcome(outcome)),
    {
        let attempt: u32 = match self.phase {
            TakeoverPhase::Reading(n) => n,
            _ => 0,
        };
        let record = match paced_read(0x8028, attempt, outcome) {
            Tried::Again => {
                self.phase = TakeoverPhase::Reading(attempt + 1);
                return report_quiet();
            },
            Tried::Done(record) => record,
        };
        match check_input_image(
            self.path.as_str(),
            self.in_slot,
            self.in_subslot,
            self.declared,
            &record,
        ) {
            Ok(_) => {
                match record {
                    Ok(d) => {
                        self.input_record = d;
                    },
                    Err(_) => {},
                }
                self.phase = if self.commanding {
                    TakeoverPhase::Probing
                } else {
                    TakeoverPhase::Rebinding
                };
                report_quiet()
            },
            Err((release, e)) => {
                self.phase = TakeoverPhase::Failed;
                report_failure(release, e)
            },
        }
    }

    /// How the read of the output record ended.
    pub fn on_probe(&mut self, outcome: Result<Vec<u8>, String>) -> (r: TakeoverReport)
        requires
            old(self)@.wf(),
            old(self)@.phase is Probing,
        ensures
            final(self)@.wf(),
            (final(self)@, r@) == old(self)@.after_probe(bytes_outcome(outcome)),
    {
        let (line, safe) = ownership_probe(&outcome);
        let mut lines: Vec<String> = Vec::new();
        lines.push(line);
        if safe {
            match outcome {
                Ok(d) => {
                    self.output_record = d;
                },
                Err(_) => {},
            }
            self.phase = TakeoverPhase::Rebinding;
            let r = TakeoverReport { lines, failure: None };
            assert(r@ =~= old(self)@.after_probe(bytes_outcome(outcome)).1);
            r
        } else {
            self.phase = TakeoverPhase::Failed;
            let (refused, error) = takeover_refusal();
            lines.push(refused);
            let r = TakeoverReport {
                lines,
                failure: Some(TakeoverFailure { release: true, error }),
            };
            assert(r@ =~= old(self)@.after_probe(bytes_outcome(outcome)).1);
            r
        }
    }

    /// The setup of the new connection.
    pub fn setup(&self) -> (r: IocrSetup)
        requires
            self@.wf(),
            self@.phase is Rebinding,
        ensures
            slots_fit(r.io_slots@),
            r.io_slots@ == self@.io_slots,
            r.send_clock_factor == 32,
            r.reduction_ratio == self@.cycle_ms,
            r.watchdog_factor == 6,
            r.data_hold_factor == 6,
    {
        tier_setup(self.io_slots.as_slice(), self.cycle_ms)
    }

    /// How the new connection ended.
    pub fn on_connected(&mut self, outcome: Result<ConnectResult, String>) -> (r: TakeoverReport)
        requires
            old(self)@.wf(),
            old(self)@.phase is Rebinding,
        ensures
            final(self)@.wf(),
            (final(self)@, r@) == old(self)@.after_connect(
                match outcome {
                    Ok(c) => Ok(c),
                    Err(e) => Err(e@),
                },
            ),
    {
        match outcome {
            Err(e) => {
                self.phase = TakeoverPhase::Failed;
                report_failure(false, e)
            },
            Ok(result) => match check_established(&result) {
                Ok(_) => {
                    self.result = result;
                    self.phase = TakeoverPhase::EndingParameters;
                    report_quiet()
                },
                Err(e) => {
                    self.phase = TakeoverPhase::Failed;
                    report_failure(true, e)
                },
            },
        }
    }

    /// Whether the parameter phase was ended.
    pub fn on_parameters(&mut self, outcome: Result<(), String>) -> (r: TakeoverReport)
        requires
            old(self)@.wf(),
            old(self)@.phase is EndingParameters,
        ensures
            final(self)@.wf(),
            (final(self)@, r@) == old(self)@.after_plain(
                plain_outcome(outcome),
                TakeoverPhase::AwaitingReady,
            ),
    {
        self.plain(outcome, TakeoverPhase::AwaitingReady)
    }

    /// Whether the device is ready.
    pub fn on_ready(&mut self, outcome: Result<(), String>) -> (r: TakeoverReport)
        requires
            old(self)@.wf(),
            old(self)@.phase is AwaitingReady,
        ensures
            final(self)@.wf(),
            (final(self)@, r@) == old(self)@.after_plain(
                plain_outcome(outcome),
                TakeoverPhase::Ready,
            ),
    {
        self.plain(outcome, TakeoverPhase::Ready)
    }

    /// The controller of the exchange, with the safe byte registered for every
    /// way in which it stops.
    pub fn controller(&self, interface: &str, src_mac: [u8; 6], dst_mac: [u8; 6], now_us: u64) -> (r:
        Result<CyclicController, String>)
        requires
            self@.wf(),
            self@.phase is Ready,
        ensures
            r matches Ok(c) && {
                let slots = self@.io_slots;
                &&& c@.wf()
                &&& is_tier_config(
                    c@.input_iocr,
                    1,
                    self@.result.input_frame_id,
                    self@.cycle_ms,
                    slots,
                )
                &&& is_tier_config(
                    c@.output_iocr,
                    2,
                    self@.result.output_frame_id,
                    self@.cycle_ms,
                    slots,
                )
                &&& c@.input_iocr.cycle_us() == self@.cycle_ms * 1000
                &&& c@.output_iocr.cycle_us() == self@.cycle_ms * 1000
                &&& c@ == (CyclicModel {
                    interface: interface@,
                    src_mac: src_mac@,
                    dst_mac: dst_mac@,
                    input_iocr: c@.input_iocr,
                    output_iocr: c@.output_iocr,
                    max_consecutive_timeouts: 3,
                    state: CyclicState::Idle,
                    running: false,
                    cycle_counter: 0,
                    image: first_image(c@.output_iocr),
                    inputs: Map::empty(),
                    last_rx_cycle_counter: None,
                    stats: fresh_stats(now_us),
                    fed_us: now_us,
                    safe_output: Some((self@.out_slot, self@.out_subslot, seq![0u8])),
                })
            },
    {
        match tier_controller(
            interface,
            src_mac,
            dst_mac,
            self.io_slots.as_slice(),
            &self.result,
            self.cycle_ms,
            now_us,
        ) {
            Ok(c) => Ok(guarded_controller(c, self.out_slot, self.out_subslot)),
            Err(e) => Err(e),
        }
    }

    /// The line for an exchange that was started.
    pub fn started_line(&self) -> (r: String)
        requires
            self@.wf(),
            self@.phase is Ready,
        ensures
            r@ == object_text(
                cyclic_started_fields(
                    self@.cycle_ms,
                    self@.result.input_frame_id,
                    self@.result.output_frame_id,
                    self@.declared,
                    self@.out_slot,
                    self@.out_subslot,
                ),
            ),
    {
        cyclic_started_line(
            self.cycle_ms,
            self.result.input_frame_id,
            self.result.output_frame_id,
            self.declared,
            self.out_slot,
            self.out_subslot,
        )
    }
}

/// How the steps of a takeover ended.
pub enum TakeoverEvent {
    Slots(Result<(), Seq<char>>),
    Layout(Result<Seq<IoSlot>, Seq<char>>),
    Input(Result<Seq<u8>, Seq<char>>),
    Probe(Result<Seq<u8>, Seq<char>>),
    Connected(Result<ConnectResult, Seq<char>>),
    Parameters(Result<(), Seq<char>>),
    Ready(Result<(), Seq<char>>),
}

/// After one step, if it is the one that was due.
pub open spec fn takeover_step(m: TakeoverModel, e: TakeoverEvent) -> TakeoverModel {
    match (m.phase, e) {
        (TakeoverPhase::Discovering, TakeoverEvent::Slots(r)) => m.after_plain(
            r,
            TakeoverPhase::LayingOut,
        ).0,
        (TakeoverPhase::LayingOut, TakeoverEvent::Layout(r)) => m.after_layout(r).0,
        (TakeoverPhase::Reading(_), TakeoverEvent::Input(r)) => m.after_input(r).0,
        (TakeoverPhase::Probing, TakeoverEvent::Probe(r)) => m.after_probe(r).0,
        (TakeoverPhase::Rebinding, TakeoverEvent::Connected(r)) => m.after_connect(r).0,
        (TakeoverPhase::EndingParameters, TakeoverEvent::Parameters(r)) => m.after_plain(
            r,
            TakeoverPhase::AwaitingReady,
        ).0,
        (TakeoverPhase::AwaitingReady, TakeoverEvent::Ready(r)) => m.after_plain(
            r,
            TakeoverPhase::Ready,
        ).0,
        _ => m,
    }
}

/// After some steps.
pub open spec fn takeover_run(m: TakeoverModel, events: Seq<TakeoverEvent>) -> TakeoverModel
    decreases events.len(),
{
    if events.len() == 0 {
        m
    } else {
        takeover_step(takeover_run(m, events.drop_last()), events.last())
    }
}

/// The event is a read of an output record with the safe byte.
pub open spec fn is_safe_probe(e: TakeoverEvent) -> bool {
    e matches TakeoverEvent::Probe(Ok(d)) && control_byte(d) == Some(0u8)
}

/// A session that may drive the outputs takes over only after it has read the
/// safe byte from the device: whatever happens before, there is no swap of the
/// ARs without such a read. And the description agrees with the device then.
pub proof fn a_takeover_is_never_blind(m: TakeoverModel, events: Seq<TakeoverEvent>)
    requires
        m.wf(),
        m.phase is Discovering,
        m.commanding,
    ensures
        ({
            let n = takeover_run(m, events);
            &&& n.wf()
            &&& n.commanding
            &&& n.committed() ==> n.checked() && exists|i: int|
                0 <= i < events.len() && #[trigger] is_safe_probe(events[i])
        }),
    decreases events.len(),
{
    if events.len() > 0 {
        let rest = events.drop_last();
        let before = takeover_run(m, rest);
        a_takeover_is_never_blind(m, rest);
        let n = takeover_run(m, events);
        assert(n.wf());
        if n.committed() {
            if before.committed() {
                let i = choose|i: int| 0 <= i < rest.len() && #[trigger] is_safe_probe(rest[i]);
                assert(is_safe_probe(events[i]));
            } else {
                assert(is_safe_probe(events[events.len() - 1]));
            }
        }
    }
}

/// A takeover that failed goes no further.
pub proof fn a_failed_takeover_stays_failed(m: TakeoverModel, e: TakeoverEvent)
    requires
        m.phase is Failed,
    ensures
        takeover_step(m, e) == m,
        m.next() is Stop,
{
}

} // verus!
