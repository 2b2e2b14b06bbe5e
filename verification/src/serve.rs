//! A serving session: record reads and writes over lines, and with a cyclic
//! exchange also the output image, bounded by an allow mask.
//!
//! The session decides; whoever drives it reads the lines, makes the requests,
//! owns the clock, and writes the lines that come back. Times are microseconds
//! of a clock that never runs backwards.

use vstd::prelude::*;
use vstd::string::*;
use crate::cli::{abort_reason, cyclic_abort_reason, hex_encode};
use crate::control::{
    an_empty_mask_drives_nothing, applied, apply_control_cmd, only_allowed_bits_are_driven, outside,
    within, ControlCmd, ControlModel, ControlState, CONTROL_DEADMAN_US, SAFE_OUTPUT_BYTE,
};
use crate::cyclic::{span, CyclicState};
use crate::json::{number_field, object_text, Field};
use crate::lines::{
    ar_lost_fields, ar_lost_line, bad_command_fields, bad_command_line, bye_fields, bye_line,
    data_fields, data_line, deadman_fields, deadman_line, error_msg_fields, error_msg_line,
    ok_fields, ok_line, output_fields, output_line, pong_fields, pong_line, read_error_fields,
    read_error_line, refused_needs_cyclic_fields, refused_needs_cyclic_line,
    refused_read_only_fields, refused_read_only_line, refused_setup_fields, refused_setup_line,
    status_fields, status_line, stopped_exit_fields, stopped_exit_line, transport_error_fields,
    transport_error_line, warning_fields, warning_line,
};
use crate::records::{is_busy, is_transport_failure, pnio_status_of, status_digits};
use crate::requests::{
    line_of, parse_serve_line, ServeCmd, ServeCmdModel, ServeLine, ServeLineModel,
};
use crate::text::{contains_text, dec, hex_text, push_dec};

verus! {

/// How often a request is tried before a busy device is reported.
pub const SERVE_BUSY_RETRIES: u32 = 5;

/// How often a read on our own behalf is tried.
pub const PACED_READ_RETRIES: u32 = 4;

/// Pause before a read on our own behalf, in milliseconds: devices commonly
/// guard acyclic access with a timer of some tens of milliseconds.
pub const ACYCLIC_READ_GAP_MS: u64 = 30;

/// Pause before another try at a busy device, in milliseconds.
pub const BUSY_PAUSE_MS: u64 = 50;

/// Index of the input record, slot, subslot and length of the idle keepalive.
pub const KEEPALIVE_READ: (u16, u16, u16, u32) = (0x8028, 1, 1, 128);

/// Why a session stopped. A lost AR is kept apart because it must reach the
/// caller as a line of its own: every request after it is meaningless.
#[derive(Debug, PartialEq, Eq)]
pub enum ServeStop {
    Reason(&'static str),
    ArLost(String),
}

/// A [`ServeStop`] as mathematical values.
pub enum StopModel {
    Reason(Seq<char>),
    ArLost(Seq<char>),
}

impl View for ServeStop {
    type V = StopModel;

    open spec fn view(&self) -> StopModel {
        match self {
            ServeStop::Reason(s) => StopModel::Reason(s@),
            ServeStop::ArLost(s) => StopModel::ArLost(s@),
        }
    }
}

impl StopModel {
    /// The reason in one word.
    pub open spec fn word(self) -> Seq<char> {
        match self {
            StopModel::Reason(s) => s,
            StopModel::ArLost(_) => "ar_lost"@,
        }
    }

    /// The exit code of the process.
    pub open spec fn code(self) -> i32 {
        match self {
            StopModel::Reason(_) => 0,
            StopModel::ArLost(_) => 1,
        }
    }
}

impl ServeStop {
    /// The reason in one word.
    pub fn reason(&self) -> (r: &'static str)
        ensures
            r@ == self@.word(),
    {
        match self {
            ServeStop::Reason(s) => *s,
            ServeStop::ArLost(_) => "ar_lost",
        }
    }

    /// The exit code of the process.
    pub fn exit_code(&self) -> (r: i32)
        ensures
            r == self@.code(),
    {
        match self {
            ServeStop::ArLost(_) => 1,
            ServeStop::Reason(_) => 0,
        }
    }

    /// The line for a lost AR.
    pub fn farewell(&self, host_us: u128) -> (r: Option<String>)
        ensures
            match self@ {
                StopModel::ArLost(m) => r matches Some(l) && l@ == object_text(
                    ar_lost_fields(host_us, m),
                ),
                StopModel::Reason(_) => r is None,
            },
    {
        match self {
            ServeStop::ArLost(m) => Some(ar_lost_line(host_us, m.as_str())),
            ServeStop::Reason(_) => None,
        }
    }

    /// The last line of a session without a cyclic exchange.
    pub fn stopped_line(&self) -> (r: String)
        ensures
            r@ == object_text(stopped_exit_fields(self@.code())),
    {
        stopped_exit_line(self.exit_code())
    }
}

/// What follows a try at a request.
#[derive(Debug)]
pub enum Tried<T> {
    /// The device was busy: try again.
    Again,
    Done(Result<T, String>),
}

/// Another try is due: the device was busy, and not for the last time allowed.
pub open spec fn tries_again(error: Seq<char>, attempt: u32, limit: u32) -> bool {
    contains_text(error, "DE80C200"@) && attempt + 1 < limit
}

/// What follows try number `attempt`, counted from 0, at a caller's request.
/// Only a busy device is asked again, for that is the throttle of the device
/// and not its answer; every other status goes back on the first try.
pub fn serve_rpc<T>(attempt: u32, outcome: Result<T, String>) -> (r: Tried<T>)
    requires
        attempt < 5,
    ensures
        match outcome {
            Ok(v) => r == Tried::Done(Ok::<T, String>(v)),
            Err(e) => if tries_again(e@, attempt, 5) {
                r is Again
            } else {
                r == Tried::Done(Err::<T, String>(e))
            },
        },
{
    match outcome {
        Ok(v) => Tried::Done(Ok(v)),
        Err(e) => {
            if is_busy(e.as_str()) && attempt + 1 < SERVE_BUSY_RETRIES {
                Tried::Again
            } else {
                Tried::Done(Err(e))
            }
        },
    }
}

/// The message when the last try at a read found the device busy.
pub open spec fn still_busy_message(index: u16, error: Seq<char>) -> Seq<char> {
    "index "@ + dec(index as nat) + ": "@ + error + " (after 4 attempts)"@
}

/// What follows try number `attempt`, counted from 0, at a read on our own
/// behalf.
pub fn paced_read(index: u16, attempt: u32, outcome: Result<Vec<u8>, String>) -> (r: Tried<Vec<u8>>)
    requires
        attempt < 4,
    ensures
        match outcome {
            Ok(v) => r == Tried::Done(Ok::<Vec<u8>, String>(v)),
            Err(e) => if tries_again(e@, attempt, 4) {
                r is Again
            } else if contains_text(e@, "DE80C200"@) {
                r matches Tried::Done(Err(m)) && m@ == still_busy_message(index, e@)
            } else {
                r == Tried::Done(Err::<Vec<u8>, String>(e))
            },
        },
{
    match outcome {
        Ok(v) => Tried::Done(Ok(v)),
        Err(e) => {
            if !is_busy(e.as_str()) {
                return Tried::Done(Err(e));
            }
            if attempt + 1 < PACED_READ_RETRIES {
                Tried::Again
            } else {
                let mut m = "index ".to_owned();
                push_dec(&mut m, index as u128);
                m.append(": ");
                m.append(e.as_str());
                m.append(" (after 4 attempts)");
                Tried::Done(Err(m))
            }
        },
    }
}

/// How long to wait, in microseconds, before a request that may not come
/// sooner than `gap_ms` after the one at `last_us`.
pub fn serve_pace(last_us: u64, gap_ms: u64, now_us: u64) -> (r: u128)
    ensures
        r == if span(last_us, now_us) < gap_ms * 1000 {
            gap_ms * 1000 - span(last_us, now_us)
        } else {
            0
        },
{
    let waited: u128 = if now_us >= last_us {
        (now_us - last_us) as u128
    } else {
        0
    };
    let gap: u128 = gap_ms as u128 * 1000;
    if waited < gap {
        gap - waited
    } else {
        0
    }
}

/// The line for a failed request: the device's answer where the message has a
/// status, else a failure of the transport.
pub open spec fn error_line(id: u64, msg: Seq<char>, host_us: u128) -> Seq<char> {
    match status_digits(msg) {
        Some(pnio) => object_text(read_error_fields(id, host_us, pnio, msg)),
        None => object_text(transport_error_fields(id, host_us, msg)),
    }
}

/// The line for a failed request.
pub fn serve_error_line(id: u64, msg: &str, host_us: u128) -> (r: String)
    ensures
        r@ == error_line(id, msg@, host_us),
{
    match pnio_status_of(msg) {
        Some(pnio) => read_error_line(id, host_us, pnio.as_str(), msg),
        None => transport_error_line(id, host_us, msg),
    }
}

/// The cyclic part of a session: claim the IO AR, stream the input image, and
/// drive the output image.
#[derive(Debug, PartialEq, Eq)]
pub struct ServeCyclic {
    pub gsdml_path: String,
    pub cycle_ms: u16,
    pub allow_mask: u8,
    pub seconds: u64,
}

/// Check the options of a session. A refusal comes with the line to write, if
/// any, and the error. A mask without a cyclic exchange is refused rather than
/// ignored: the caller believes it armed those bits. Arming any bit needs the
/// confirmation that no other controller is attached.
pub fn serve_options(
    cyclic: bool,
    gsdml: Option<&str>,
    cycle_ms: u16,
    allow_mask: u8,
    on_the_bench: bool,
    seconds: u64,
) -> (r: Result<Option<ServeCyclic>, (Option<String>, String)>)
    ensures
        if !cyclic {
            if allow_mask != 0 {
                r matches Err((line, e)) && line is None && e@
                    == "--allow-mask only applies to the output image, which needs --cyclic"@
            } else {
                r matches Ok(None)
            }
        } else {
            match gsdml {
                None => r matches Err((line, e)) && line is None && e@
                    == "--cyclic needs --gsdml: the submodule layout sizes the IOCRs, and the input length is checked against the firmware before starting"@,
                Some(path) => if allow_mask != 0 && !on_the_bench {
                    r matches Err((Some(line), e)) && line@ == object_text(
                        refused_setup_fields("missing --i-am-on-the-bench"@),
                    ) && e@
                        == "refusing to drive outputs: pass --i-am-on-the-bench to confirm the device is on a bench with no other IO-controller attached"@
                } else {
                    r matches Ok(Some(c)) && c.gsdml_path@ == path@ && c.cycle_ms == cycle_ms
                        && c.allow_mask == allow_mask && c.seconds == seconds
                },
            }
        },
{
    if !cyclic {
        if allow_mask != 0 {
            return Err(
                (
                    None,
                    "--allow-mask only applies to the output image, which needs --cyclic".to_owned(),
                ),
            );
        }
        return Ok(None);
    }
    let path = match gsdml {
        Some(p) => p,
        None => {
            return Err(
                (
                    None,
                    "--cyclic needs --gsdml: the submodule layout sizes the IOCRs, and the input length is checked against the firmware before starting".to_owned(),
                ),
            );
        },
    };
    if allow_mask != 0 && !on_the_bench {
        return Err(
            (
                Some(refused_setup_line("missing --i-am-on-the-bench")),
                "refusing to drive outputs: pass --i-am-on-the-bench to confirm the device is on a bench with no other IO-controller attached".to_owned(),
            ),
        );
    }
    Ok(Some(ServeCyclic { gsdml_path: path.to_owned(), cycle_ms, allow_mask, seconds }))
}

/// A request to make of the device.
#[derive(Debug, PartialEq, Eq)]
pub enum ServeRequest {
    Read { id: u64, index: u16, slot: u16, subslot: u16, len: u32 },
    Write { id: u64, index: u16, slot: u16, subslot: u16, data: Vec<u8> },
    /// A read that only keeps the AR from lapsing.
    Keepalive,
}

/// A [`ServeRequest`] as mathematical values.
pub enum RequestModel {
    Read { id: u64, index: u16, slot: u16, subslot: u16, len: u32 },
    Write { id: u64, index: u16, slot: u16, subslot: u16, data: Seq<u8> },
    Keepalive,
}

impl View for ServeRequest {
    type V = RequestModel;

    open spec fn view(&self) -> RequestModel {
        match self {
            ServeRequest::Read { id, index, slot, subslot, len } => RequestModel::Read {
                id: *id,
                index: *index,
                slot: *slot,
                subslot: *subslot,
                len: *len,
            },
            ServeRequest::Write { id, index, slot, subslot, data } => RequestModel::Write {
                id: *id,
                index: *index,
                slot: *slot,
                subslot: *subslot,
                data: data@,
            },
            ServeRequest::Keepalive => RequestModel::Keepalive,
        }
    }
}

/// What an event leads to: lines to write, a request to make, or the end of
/// the session. The lines come first.
#[derive(Debug)]
pub struct ServeStep {
    pub line: Option<String>,
    pub request: Option<ServeRequest>,
    pub stop: Option<ServeStop>,
}

/// A [`ServeStep`] as mathematical values.
pub struct StepModel {
    pub line: Option<Seq<char>>,
    pub request: Option<RequestModel>,
    pub stop: Option<StopModel>,
}

impl View for ServeStep {
    type V = StepModel;

    open spec fn view(&self) -> StepModel {
        StepModel {
            line: match self.line {
                Some(l) => Some(l@),
                None => None,
            },
            request: match self.request {
                Some(q) => Some(q@),
                None => None,
            },
            stop: match self.stop {
                Some(s) => Some(s@),
                None => None,
            },
        }
    }
}

/// A line and nothing more.
pub open spec fn says(line: Seq<char>) -> StepModel {
    StepModel { line: Some(line), request: None, stop: None }
}

/// The end of the session for the given reason.
pub open spec fn stops(reason: Seq<char>) -> StepModel {
    StepModel { line: None, request: None, stop: Some(StopModel::Reason(reason)) }
}

/// Nothing.
pub open spec fn nothing() -> StepModel {
    StepModel { line: None, request: None, stop: None }
}

fn say(line: String) -> (r: ServeStep)
    ensures
        r@ == says(line@),
{
    ServeStep { line: Some(line), request: None, stop: None }
}

fn stop_for(reason: &'static str) -> (r: ServeStep)
    ensures
        r@ == stops(reason@),
{
    ServeStep { line: None, request: None, stop: Some(ServeStop::Reason(reason)) }
}

fn no_step() -> (r: ServeStep)
    ensures
        r@ == nothing(),
{
    ServeStep { line: None, request: None, stop: None }
}

/// A session.
#[derive(Debug)]
pub struct ServeSession {
    pub read_only: bool,
    /// Whether a cyclic exchange runs.
    pub cyclic: bool,
    /// The bits that may ever be driven.
    pub allow_mask: u8,
    pub cycle_ms: u16,
    /// How long to hold the AR, 0 for as long as the caller wants.
    pub seconds: u64,
    pub keepalive_ms: u64,
    pub control: ControlState,
    /// The byte that was last driven.
    pub driven_byte: u8,
    pub start_us: u64,
    pub last_traffic_us: u64,
    pub last_activity_us: u64,
    pub last_status_us: u64,
    pub last_tick_us: u64,
}

/// What a [`ServeSession`] holds, as mathematical values.
#[verifier::ext_equal]
pub struct SessionModel {
    pub read_only: bool,
    pub cyclic: bool,
    pub allow_mask: u8,
    pub cycle_ms: u16,
    pub seconds: u64,
    pub keepalive_ms: u64,
    pub control: ControlModel,
    pub driven_byte: u8,
    pub start_us: u64,
    pub last_traffic_us: u64,
    pub last_activity_us: u64,
    pub last_status_us: u64,
    pub last_tick_us: u64,
}

impl View for ServeSession {
    type V = SessionModel;

    open spec fn view(&self) -> SessionModel {
        SessionModel {
            read_only: self.read_only,
            cyclic: self.cyclic,
            allow_mask: self.allow_mask,
            cycle_ms: self.cycle_ms,
            seconds: self.seconds,
            keepalive_ms: self.keepalive_ms,
            control: self.control@,
            driven_byte: self.driven_byte,
            start_us: self.start_us,
            last_traffic_us: self.last_traffic_us,
            last_activity_us: self.last_activity_us,
            last_status_us: self.last_status_us,
            last_tick_us: self.last_tick_us,
        }
    }
}

/// The mask of a session: none of a read-only one, and none without a cyclic
/// exchange.
pub open spec fn session_mask(read_only: bool, cyclic: Option<ServeCyclic>) -> u8 {
    match cyclic {
        Some(c) => if read_only {
            0
        } else {
            c.allow_mask
        },
        None => 0,
    }
}

/// The mask of a session: none of a read-only one, for a caller that must not
/// be able to command anything must not reach the output image either.
pub fn effective_mask(read_only: bool, cyclic: &Option<ServeCyclic>) -> (r: u8)
    ensures
        r == session_mask(read_only, *cyclic),
{
    match cyclic {
        Some(c) => if read_only {
            0
        } else {
            c.allow_mask
        },
        None => 0,
    }
}

impl SessionModel {
    /// No bit is held or driven that may not be, and none at all without a
    /// cyclic exchange or in a read-only session.
    pub open spec fn wf(self) -> bool {
        &&& within(self.control, self.allow_mask)
        &&& !outside(self.driven_byte, self.allow_mask)
        &&& self.read_only ==> self.allow_mask == 0
        &&& !self.cyclic ==> self.allow_mask == 0
    }

    /// How long one turn of the loop waits for a line, in microseconds: one
    /// output cycle.
    pub open spec fn tick_us(self) -> int {
        if self.cycle_ms == 0 {
            100_000
        } else {
            self.cycle_ms * 1000
        }
    }

    /// Why a turn of the loop ends the session before anything else.
    pub open spec fn stop_before(self, shutdown: bool, state: Option<CyclicState>, now_us: u64) -> Option<
        Seq<char>,
    > {
        if shutdown {
            Some("signal"@)
        } else if self.seconds > 0 && span(self.start_us, now_us) / 1_000_000 >= self.seconds {
            Some("timer"@)
        } else {
            match state {
                Some(s) => abort_reason(s),
                None => None,
            }
        }
    }

    /// What a line leads to, and the command state behind it.
    pub open spec fn line_step(self, line: Seq<char>, host_us: u128) -> (ControlModel, StepModel) {
        match line_of(line) {
            Err(m) => (self.control, says(object_text(bad_command_fields(m, line)))),
            Ok(ServeLineModel::Control(cmd)) => if cmd is Quit {
                (self.control, stops("quit"@))
            } else if !self.cyclic {
                (self.control, says(object_text(refused_needs_cyclic_fields(line))))
            } else {
                let (c, l) = applied(cmd, self.control, self.allow_mask);
                (c, StepModel { line: l, request: None, stop: None })
            },
            Ok(ServeLineModel::Rpc(cmd)) => (
                self.control,
                match cmd {
                    ServeCmdModel::Quit { id } => StepModel {
                        line: Some(object_text(bye_fields(id))),
                        request: None,
                        stop: Some(StopModel::Reason("quit"@)),
                    },
                    ServeCmdModel::Ping { id } => says(object_text(pong_fields(id, host_us))),
                    ServeCmdModel::Read { id, index, slot, subslot, len } => StepModel {
                        line: None,
                        request: Some(RequestModel::Read { id, index, slot, subslot, len }),
                        stop: None,
                    },
                    ServeCmdModel::Write { id, index, slot, subslot, data } => if self.read_only {
                        says(object_text(refused_read_only_fields(id)))
                    } else {
                        StepModel {
                            line: None,
                            request: Some(
                                RequestModel::Write { id, index, slot, subslot, data },
                            ),
                            stop: None,
                        }
                    },
                },
            ),
        }
    }

    /// What the answer to a request leads to.
    pub open spec fn answer_step(self, q: RequestModel, outcome: Result<Seq<u8>, Seq<char>>, host_us: u128) -> StepModel {
        match outcome {
            Ok(d) => match q {
                RequestModel::Read { id, .. } => says(
                    object_text(data_fields(id, host_us, d.len() as usize, hex_text(d))),
                ),
                RequestModel::Write { id, .. } => says(object_text(ok_fields(id, host_us))),
                RequestModel::Keepalive => nothing(),
            },
            Err(m) => StepModel {
                line: match q {
                    RequestModel::Read { id, .. } => Some(error_line(id, m, host_us)),
                    RequestModel::Write { id, .. } => Some(error_line(id, m, host_us)),
                    RequestModel::Keepalive => None,
                },
                request: None,
                stop: if contains_text(m, "PNIO error status"@) {
                    None
                } else {
                    Some(StopModel::ArLost(m))
                },
            },
        }
    }

    /// An idle session without a cyclic exchange keeps its AR from lapsing.
    pub open spec fn keepalive_due(self, now_us: u64) -> bool {
        !self.cyclic && self.keepalive_ms > 0 && span(self.last_traffic_us, now_us)
            >= self.keepalive_ms * 1000
    }

    /// The caller is silent while a level bit is held.
    pub open spec fn deadman(self, now_us: u64) -> bool {
        self.control.level != 0 && span(self.last_activity_us, now_us) >= 5_000_000
    }

    /// The byte to drive, where it is not the one that is driven.
    pub open spec fn to_drive(self) -> Option<u8> {
        if self.cyclic && self.control.byte() != self.driven_byte {
            Some(self.control.byte())
        } else {
            None
        }
    }

    /// How writing the byte to the output image ended.
    pub open spec fn driven_step(self, byte: u8, outcome: Result<(), Seq<char>>) -> (
        SessionModel,
        StepModel,
    ) {
        match outcome {
            Ok(_) => (SessionModel { driven_byte: byte, ..self }, nothing()),
            Err(e) => (
                self,
                StepModel {
                    line: Some(object_text(error_msg_fields("set_output_data failed: "@ + e))),
                    request: None,
                    stop: Some(StopModel::Reason("io_error"@)),
                },
            ),
        }
    }

    /// The line for a byte that was driven, with what the device read back.
    pub open spec fn driven_line(self, readback: Result<Seq<u8>, Seq<char>>) -> Seq<char> {
        object_text(
            output_fields(
                self.driven_byte,
                self.driven_byte == 0,
                match readback {
                    Ok(d) => hex_text(d),
                    Err(_) => Seq::empty(),
                },
            ),
        )
    }

    /// The end of a turn of the loop.
    pub open spec fn turn_step(self, sent: u64, received: u64, missed: u64, now_us: u64) -> (
        SessionModel,
        StepModel,
    ) {
        let m = self.advanced(now_us);
        if !self.cyclic {
            (self, nothing())
        } else if m.deadman(now_us) {
            (
                m,
                StepModel {
                    line: Some(object_text(deadman_fields())),
                    request: None,
                    stop: Some(StopModel::Reason("deadman"@)),
                },
            )
        } else if span(m.last_status_us, now_us) >= 1_000_000 {
            (
                SessionModel { last_status_us: now_us, ..m },
                says(object_text(status_fields(sent, received, missed, m.control.byte()))),
            )
        } else {
            (m, nothing())
        }
    }

    /// With the pulses advanced by the output cycles that have elapsed.
    pub open spec fn advanced(self, now_us: u64) -> SessionModel {
        let elapsed = span(self.last_tick_us, now_us);
        if elapsed >= self.tick_us() {
            SessionModel {
                control: self.control.ticked(((elapsed as int / self.tick_us()) as u32) as nat),
                last_tick_us: now_us,
                ..self
            }
        } else {
            self
        }
    }
}

impl ServeSession {
    /// A session that begins at `now_us`, with nothing driven.
    pub fn new(
        read_only: bool,
        cyclic: &Option<ServeCyclic>,
        keepalive_ms: u64,
        now_us: u64,
    ) -> (r: ServeSession)
        ensures
            r@.wf(),
            r@ == (SessionModel {
                read_only,
                cyclic: *cyclic is Some,
                allow_mask: session_mask(read_only, *cyclic),
                cycle_ms: match *cyclic {
                    Some(c) => c.cycle_ms,
                    None => 0,
                },
                seconds: match *cyclic {
                    Some(c) => c.seconds,
                    None => 0,
                },
                keepalive_ms,
                control: ControlModel { level: 0, pulses: Seq::empty() },
                driven_byte: 0,
                start_us: now_us,
                last_traffic_us: now_us,
                last_activity_us: now_us,
                last_status_us: now_us,
                last_tick_us: now_us,
            }),
    {
        let (cycle_ms, seconds) = match cyclic {
            Some(c) => (c.cycle_ms, c.seconds),
            None => (0u16, 0u64),
        };
        let allow_mask: u8 = effective_mask(read_only, cyclic);
        proof {
            assert(0u8 & !allow_mask == 0) by (bit_vector);
        }
        ServeSession {
            read_only,
            cyclic: cyclic.is_some(),
            allow_mask,
            cycle_ms,
            seconds,
            keepalive_ms,
            control: ControlState::default(),
            driven_byte: SAFE_OUTPUT_BYTE,
            start_us: now_us,
            last_traffic_us: now_us,
            last_activity_us: now_us,
            last_status_us: now_us,
            last_tick_us: now_us,
        }
    }

    /// How long one turn of the loop waits for a line, in microseconds.
    pub fn tick_us(&self) -> (r: u64)
        ensures
            r == self@.tick_us(),
    {
        if self.cycle_ms == 0 {
            100_000
        } else {
            self.cycle_ms as u64 * 1000
        }
    }

    /// Why a turn of the loop ends the session before anything else: a signal,
    /// the time, or a cyclic exchange that no longer drives the device, into
    /// which commanding would be pointless.
    pub fn stop_before(&self, shutdown: bool, state: Option<CyclicState>, now_us: u64) -> (r: Option<
        ServeStop,
    >)
        ensures
            match self@.stop_before(shutdown, state, now_us) {
                Some(m) => r matches Some(s) && s@ == StopModel::Reason(m),
                None => r is None,
            },
    {
        if shutdown {
            return Some(ServeStop::Reason("signal"));
        }
        let elapsed: u64 = if now_us >= self.start_us {
            now_us - self.start_us
        } else {
            0
        };
        if self.seconds > 0 && elapsed / 1_000_000 >= self.seconds {
            return Some(ServeStop::Reason("timer"));
        }
        match state {
            Some(s) => match cyclic_abort_reason(s) {
                Some(reason) => Some(ServeStop::Reason(reason)),
                None => None,
            },
            None => None,
        }
    }

    /// A line from the caller.
    pub fn on_line(&mut self, line: &str, host_us: u128, now_us: u64) -> (r: ServeStep)
        requires
            old(self)@.wf(),
        ensures
            final(self)@.wf(),
            final(self)@ == (SessionModel {
                control: old(self)@.line_step(line@, host_us).0,
                last_activity_us: now_us,
                ..old(self)@
            }),
            r@ == old(self)@.line_step(line@, host_us).1,
    {
        self.last_activity_us = now_us;
        match parse_serve_line(line) {
            Err(m) => say(bad_command_line(m.as_str(), line)),
            Ok(ServeLine::Control(cmd)) => {
                if let ControlCmd::Quit = cmd {
                    return stop_for("quit");
                }
                if !self.cyclic {
                    return say(refused_needs_cyclic_line(line));
                }
                proof {
                    only_allowed_bits_are_driven(self.control@, cmd, 0, self.allow_mask);
                }
                let (_, answer) = apply_control_cmd(cmd, &mut self.control, self.allow_mask);
                ServeStep { line: answer, request: None, stop: None }
            },
            Ok(ServeLine::Rpc(cmd)) => match cmd {
                ServeCmd::Quit { id } => ServeStep {
                    line: Some(bye_line(id)),
                    request: None,
                    stop: Some(ServeStop::Reason("quit")),
                },
                ServeCmd::Ping { id } => say(pong_line(id, host_us)),
                ServeCmd::Read { id, index, slot, subslot, len } => ServeStep {
                    line: None,
                    request: Some(ServeRequest::Read { id, index, slot, subslot, len }),
                    stop: None,
                },
                ServeCmd::Write { id, index, slot, subslot, data } => {
                    if self.read_only {
                        say(refused_read_only_line(id))
                    } else {
                        ServeStep {
                            line: None,
                            request: Some(
                                ServeRequest::Write { id, index, slot, subslot, data },
                            ),
                            stop: None,
                        }
                    }
                },
            },
        }
    }

    /// No line came in time: the keepalive, where it is due. With a cyclic
    /// exchange the frames themselves keep the AR up.
    pub fn on_idle(&self, now_us: u64) -> (r: Option<ServeRequest>)
        ensures
            r is Some <==> self@.keepalive_due(now_us),
            r matches Some(q) ==> q is Keepalive,
    {
        let elapsed: u64 = if now_us >= self.last_traffic_us {
            now_us - self.last_traffic_us
        } else {
            0
        };
        if !self.cyclic && self.keepalive_ms > 0 && elapsed as u128 >= self.keepalive_ms as u128
            * 1000 {
            Some(ServeRequest::Keepalive)
        } else {
            None
        }
    }

    /// The caller is gone, and with it our reason to hold the AR.
    pub fn on_eof(&self) -> (r: ServeStop)
        ensures
            r@ == StopModel::Reason("stdin_eof"@),
    {
        ServeStop::Reason("stdin_eof")
    }

    /// The answer to a request: what the device said, byte for byte; a write's
    /// data is empty.
    pub fn on_answer(
        &mut self,
        request: &ServeRequest,
        outcome: &Result<Vec<u8>, String>,
        host_us: u128,
        now_us: u64,
    ) -> (r: ServeStep)
        requires
            old(self)@.wf(),
        ensures
            final(self)@.wf(),
            final(self)@ == (SessionModel { last_traffic_us: now_us, ..old(self)@ }),
            r@ == old(self)@.answer_step(
                request@,
                match *outcome {
                    Ok(d) => Ok(d@),
                    Err(e) => Err(e@),
                },
                host_us,
            ),
    {
        self.last_traffic_us = now_us;
        match outcome {
            Ok(d) => match request {
                ServeRequest::Read { id, .. } => say(
                    data_line(*id, host_us, d.len(), hex_encode(d.as_slice()).as_str()),
                ),
                ServeRequest::Write { id, .. } => say(ok_line(*id, host_us)),
                ServeRequest::Keepalive => no_step(),
            },
            Err(e) => ServeStep {
                line: match request {
                    ServeRequest::Read { id, .. } => Some(
                        serve_error_line(*id, e.as_str(), host_us),
                    ),
                    ServeRequest::Write { id, .. } => Some(
                        serve_error_line(*id, e.as_str(), host_us),
                    ),
                    ServeRequest::Keepalive => None,
                },
                request: None,
                stop: if is_transport_failure(e.as_str()) {
                    Some(ServeStop::ArLost(e.as_str().to_owned()))
                } else {
                    None
                },
            },
        }
    }

    /// The byte to drive, where it is not the one that is driven: a command
    /// takes effect on the next frame.
    pub fn to_drive(&self) -> (r: Option<u8>)
        requires
            self@.wf(),
        ensures
            r == self@.to_drive(),
            r matches Some(b) ==> !outside(b, self@.allow_mask),
    {
        proof {
            only_allowed_bits_are_driven(self.control@, ControlCmd::Quit, 0, self.allow_mask);
        }
        let byte: u8 = self.control.effective();
        if self.cyclic && byte != self.driven_byte {
            Some(byte)
        } else {
            None
        }
    }

    /// How writing the byte to the output image ended.
    pub fn on_driven(&mut self, byte: u8, outcome: &Result<(), String>) -> (r: ServeStep)
        requires
            old(self)@.wf(),
            !outside(byte, old(self)@.allow_mask),
        ensures
            final(self)@.wf(),
            (final(self)@, r@) == old(self)@.driven_step(
                byte,
                match *outcome {
                    Ok(_) => Ok(()),
                    Err(e) => Err(e@),
                },
            ),
    {
        match outcome {
            Ok(_) => {
                self.driven_byte = byte;
                no_step()
            },
            Err(e) => {
                let mut m = "set_output_data failed: ".to_owned();
                m.append(e.as_str());
                ServeStep {
                    line: Some(error_msg_line(m.as_str())),
                    request: None,
                    stop: Some(ServeStop::Reason("io_error")),
                }
            },
        }
    }

    /// How long to wait, in milliseconds, before the byte is read back: at
    /// least one output frame carries it by then.
    pub fn settle_ms(&self) -> (r: u64)
        ensures
            r == 2 * self@.cycle_ms + 25,
    {
        2 * self.cycle_ms as u64 + 25
    }

    /// The line for a byte that was driven, with what the device read back.
    pub fn driven_line(&self, readback: &Result<Vec<u8>, String>) -> (r: String)
        ensures
            r@ == self@.driven_line(
                match *readback {
                    Ok(d) => Ok(d@),
                    Err(e) => Err(e@),
                },
            ),
    {
        let text = match readback {
            Ok(d) => hex_encode(d.as_slice()),
            Err(_) => {
                let t = String::new();
                assert(t@ =~= Seq::<char>::empty());
                t
            },
        };
        output_line(self.driven_byte, self.driven_byte == SAFE_OUTPUT_BYTE, text.as_str())
    }

    /// The end of a turn of the loop: advance the pulses by the output cycles
    /// that have elapsed, end the session where the dead-man says so, and
    /// write the status once a second.
    pub fn on_turn(&mut self, sent: u64, received: u64, missed: u64, now_us: u64) -> (r: ServeStep)
        requires
            old(self)@.wf(),
        ensures
            final(self)@.wf(),
            (final(self)@, r@) == old(self)@.turn_step(sent, received, missed, now_us),
    {
        if !self.cyclic {
            return no_step();
        }
        let elapsed: u64 = if now_us >= self.last_tick_us {
            now_us - self.last_tick_us
        } else {
            0
        };
        let tick: u64 = self.tick_us();
        if elapsed >= tick {
            let periods: u32 = (elapsed / tick) as u32;
            proof {
                only_allowed_bits_are_driven(
                    self.control@,
                    ControlCmd::Quit,
                    periods as nat,
                    self.allow_mask,
                );
            }
            self.last_tick_us = now_us;
            self.control.tick(periods);
        }
        assert(self@ =~= old(self)@.advanced(now_us));
        let silent: u64 = if now_us >= self.last_activity_us {
            now_us - self.last_activity_us
        } else {
            0
        };
        if self.control.level != 0 && silent >= CONTROL_DEADMAN_US {
            return ServeStep {
                line: Some(deadman_line()),
                request: None,
                stop: Some(ServeStop::Reason("deadman")),
            };
        }
        let since: u64 = if now_us >= self.last_status_us {
            now_us - self.last_status_us
        } else {
            0
        };
        if since >= 1_000_000 {
            self.last_status_us = now_us;
            return say(status_line(sent, received, missed, self.control.effective()));
        }
        no_step()
    }
}

/// The warning of a session with a cyclic exchange.
pub open spec fn io_controller_warning() -> Seq<char> {
    object_text(
        warning_fields(
            "io_controller_mode"@,
            "--cyclic claims the device's single IO AR: this process is now its IO-controller and provides the outputs. Any controller that held that AR has been displaced. Bench and commissioning only."@,
        ),
    )
}

/// The warning of a session with a cyclic exchange.
pub fn io_controller_warning_line() -> (r: String)
    ensures
        r@ == io_controller_warning(),
{
    warning_line(
        "io_controller_mode",
        "--cyclic claims the device's single IO AR: this process is now its IO-controller and provides the outputs. Any controller that held that AR has been displaced. Bench and commissioning only.",
    )
}

/// A read-only session, and one without a cyclic exchange, never drives a bit,
/// and a read-only one never writes a record.
pub proof fn a_bounded_session_commands_nothing(m: SessionModel, line: Seq<char>, host_us: u128)
    requires
        m.wf(),
        m.read_only || !m.cyclic,
    ensures
        m.control.byte() == 0,
        m.driven_byte == 0,
        m.read_only ==> !((m.line_step(line, host_us).1.request)->0 is Write) || m.line_step(
            line,
            host_us,
        ).1.request is None,
{
    an_empty_mask_drives_nothing(m.control);
    let b = m.driven_byte;
    assert(b == 0) by (bit_vector)
        requires
            b & !0u8 == 0,
    ;
}

/// The line is a JSON object with the given id.
#[verifier::opaque]
pub open spec fn carries_id(line: Seq<char>, id: u64) -> bool {
    exists|fields: Seq<Field>| #[trigger]
        object_text(fields) == line && fields.contains(number_field("id"@, id as int))
}

proof fn lemma_carries_id(fields: Seq<Field>, id: u64)
    requires
        fields.len() > 0,
        fields[0] == number_field("id"@, id as int),
    ensures
        carries_id(object_text(fields), id),
{
    reveal(carries_id);
}

/// Every request is answered by exactly one line, which carries its id: either
/// at once, or when the device has answered.
pub proof fn every_request_is_answered(m: SessionModel, line: Seq<char>, host_us: u128)
    requires
        line_of(line) is Ok && line_of(line)->Ok_0 is Rpc,
    ensures
        ({
            let id = (line_of(line)->Ok_0)->Rpc_0.id();
            let step = m.line_step(line, host_us).1;
            match step.request {
                None => step.line is Some && carries_id(step.line->0, id),
                Some(q) => {
                    &&& step.line is None
                    &&& (q matches RequestModel::Read { id: i, .. } && i == id) || (
                    q matches RequestModel::Write { id: i, .. } && i == id)
                    &&& forall|outcome: Result<Seq<u8>, Seq<char>>, at: u128| #[trigger]
                        m.answer_step(q, outcome, at).line is Some && carries_id(
                            m.answer_step(q, outcome, at).line->0,
                            id,
                        ) && m.answer_step(q, outcome, at).request is None
                },
            }
        }),
{
    let id = (line_of(line)->Ok_0)->Rpc_0.id();
    lemma_carries_id(bye_fields(id), id);
    lemma_carries_id(pong_fields(id, host_us), id);
    lemma_carries_id(refused_read_only_fields(id), id);
    if let Some(q) = m.line_step(line, host_us).1.request {
        assert forall|outcome: Result<Seq<u8>, Seq<char>>, at: u128| #[trigger]
            m.answer_step(q, outcome, at).line is Some && carries_id(
                m.answer_step(q, outcome, at).line->0,
                id,
            ) && m.answer_step(q, outcome, at).request is None by {
            lemma_answer_carries_id(m, q, id, outcome, at);
        }
    }
}

proof fn lemma_answer_carries_id(
    m: SessionModel,
    q: RequestModel,
    id: u64,
    outcome: Result<Seq<u8>, Seq<char>>,
    at: u128,
)
    requires
        (q matches RequestModel::Read { id: i, .. } && i == id) || (
        q matches RequestModel::Write { id: i, .. } && i == id),
    ensures
        m.answer_step(q, outcome, at).line is Some,
        carries_id(m.answer_step(q, outcome, at).line->0, id),
        m.answer_step(q, outcome, at).request is None,
{
    match outcome {
        Ok(d) => {
            lemma_carries_id(data_fields(id, at, d.len() as usize, hex_text(d)), id);
            lemma_carries_id(ok_fields(id, at), id);
        },
        Err(e) => {
            lemma_carries_id(transport_error_fields(id, at, e), id);
            if let Some(pnio) = status_digits(e) {
                lemma_carries_id(read_error_fields(id, at, pnio, e), id);
            }
        },
    }
}

/// A device that answers no does not end the session; a lost AR does.
pub proof fn only_a_lost_ar_ends_the_session(m: SessionModel, q: RequestModel, outcome: Result<Seq<u8>, Seq<char>>, host_us: u128)
    ensures
        ({
            let s = m.answer_step(q, outcome, host_us).stop;
            &&& outcome is Ok ==> s is None
            &&& outcome matches Err(e) ==> (s is None <==> contains_text(
                e,
                "PNIO error status"@,
            ))
            &&& s matches Some(t) ==> t is ArLost && t.code() == 1
        }),
{
}

} // verus!
