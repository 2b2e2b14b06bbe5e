//! A serving process from its first turn to its exit: the turns of the loop,
//! and, whatever ends them, the way out. With a cyclic exchange that way leads
//! through one commanded safe shutdown, and only then are the frames stopped
//! and the AR released.
//!
//! The run decides; whoever drives it does what [`ServeRun::next`] says, hands
//! back how that ended, and writes the lines that come back.

use vstd::prelude::*;
use vstd::string::*;
use crate::bytes::{bytes_outcome, plain_outcome};
use crate::control::{only_allowed_bits_are_driven, outside, ControlCmd};
use crate::cyclic::{span, CyclicState};
use crate::json::object_text;
use crate::lines::{
    alarm_fields, ar_lost_fields, error_msg_fields, error_read_fields, safe_shutdown_fields,
    stopped_exit_fields, stopped_stats_fields, stopped_stats_line,
};
use crate::records::proves_safe;
use crate::requests::{line_of, ServeLineModel};
use crate::serve::{
    RequestModel, ServeRequest, ServeSession, ServeStep, ServeStop, SessionModel, StepModel,
    StopModel,
};
use crate::shutdown::{
    safe_shutdown_verdict, unverified_message, SafeShutdown, ShutdownModel, ShutdownPhase,
    ShutdownStep,
};
use crate::text::{hex_text, texts};

verus! {

/// Where a run stands.
#[derive(Debug, PartialEq, Eq)]
pub enum RunPhase {
    /// Before a turn.
    Looking,
    /// Waiting for a line.
    Awaiting,
    /// A request is due.
    Asking(ServeRequest),
    /// A byte is to be driven.
    Driving(u8),
    /// The byte was driven and is to be read back.
    ReadingBack,
    /// At the end of a turn.
    Counting,
    ShuttingDown,
    StoppingFrames,
    Releasing,
    Ended(Result<i32, String>),
}

/// A [`RunPhase`] as mathematical values.
pub enum PhaseModel {
    Looking,
    Awaiting,
    Asking(RequestModel),
    Driving(u8),
    ReadingBack,
    Counting,
    ShuttingDown,
    StoppingFrames,
    Releasing,
    Ended(Result<i32, Seq<char>>),
}

impl View for RunPhase {
    type V = PhaseModel;

    open spec fn view(&self) -> PhaseModel {
        match self {
            RunPhase::Looking => PhaseModel::Looking,
            RunPhase::Awaiting => PhaseModel::Awaiting,
            RunPhase::Asking(q) => PhaseModel::Asking(q@),
            RunPhase::Driving(b) => PhaseModel::Driving(*b),
            RunPhase::ReadingBack => PhaseModel::ReadingBack,
            RunPhase::Counting => PhaseModel::Counting,
            RunPhase::ShuttingDown => PhaseModel::ShuttingDown,
            RunPhase::StoppingFrames => PhaseModel::StoppingFrames,
            RunPhase::Releasing => PhaseModel::Releasing,
            RunPhase::Ended(Ok(code)) => PhaseModel::Ended(Ok(*code)),
            RunPhase::Ended(Err(e)) => PhaseModel::Ended(Err(e@)),
        }
    }
}

/// What a run does next.
#[derive(Debug, Clone, Copy, PartialEq, Eq, Structural)]
pub enum RunAction {
    /// Look whether a signal came and how the exchange does.
    Look,
    /// Wait for a line, so many microseconds at most.
    Await { tick_us: u64 },
    /// Make the request of [`ServeRun::request`].
    Ask,
    /// Write the byte to the output image.
    Drive { byte: u8 },
    /// Wait so many milliseconds, then read the output record back.
    ReadBack { settle_ms: u64 },
    /// Count the frames.
    Count,
    /// Do this step of the safe shutdown.
    ShutDown { step: ShutdownStep },
    /// Stop the frames with the safe image, and count them.
    StopFrames,
    /// Release the AR.
    Release,
    /// Exit with [`ServeRun::result`].
    Exit,
}

/// One line, or none.
pub open spec fn maybe(line: Option<Seq<char>>) -> Seq<Seq<char>> {
    match line {
        Some(l) => seq![l],
        None => Seq::empty(),
    }
}

fn add_line(lines: &mut Vec<String>, line: Option<String>)
    ensures
        texts(final(lines)@) == texts(old(lines)@) + maybe(
            match line {
                Some(l) => Some(l@),
                None => None,
            },
        ),
{
    match line {
        Some(l) => {
            lines.push(l);
        },
        None => {},
    }
    assert(texts(lines@) =~= texts(old(lines)@) + maybe(
        match line {
            Some(l) => Some(l@),
            None => None,
        },
    ));
}

fn just(line: Option<String>) -> (r: Vec<String>)
    ensures
        texts(r@) == maybe(
            match line {
                Some(l) => Some(l@),
                None => None,
            },
        ),
{
    let mut lines: Vec<String> = Vec::new();
    add_line(&mut lines, line);
    assert(texts(Seq::<String>::empty()) =~= Seq::empty());
    assert(Seq::<Seq<char>>::empty() + maybe(
        match line {
            Some(l) => Some(l@),
            None => None,
        },
    ) =~= maybe(
        match line {
            Some(l) => Some(l@),
            None => None,
        },
    ));
    lines
}

/// The result of a process: failure where a shutdown ran and could not verify
/// the safe image, else the exit code of its stop.
pub open spec fn result_of(stop: StopModel, verified: Option<bool>) -> Result<i32, Seq<char>> {
    match verified {
        Some(false) => Err(unverified_message()),
        _ => Ok(stop.code()),
    }
}

/// The result of a process that stopped, with the verdict of its safe shutdown,
/// if it had one. A verified shutdown permits a hard exit.
pub fn serve_result(stop: &ServeStop, verified: Option<bool>, safe_to_hard_exit: &mut bool) -> (r:
    Result<i32, String>)
    ensures
        match verified {
            Some(false) => r matches Err(e) && e@ == unverified_message(),
            _ => r == Ok::<i32, String>(stop@.code()),
        },
        *final(safe_to_hard_exit) == (*old(safe_to_hard_exit) || verified == Some(true)),
{
    match verified {
        Some(v) => match safe_shutdown_verdict(v, safe_to_hard_exit) {
            Ok(_) => Ok(stop.exit_code()),
            Err(e) => Err(e),
        },
        None => Ok(stop.exit_code()),
    }
}

/// A shutdown at its first write.
pub open spec fn fresh_shutdown(cycle_ms: u16) -> ShutdownModel {
    ShutdownModel {
        cycle_ms,
        round: 0,
        phase: ShutdownPhase::Writing(0),
        readback: Seq::empty(),
        verified: false,
    }
}

/// A serving process.
#[derive(Debug)]
pub struct ServeRun {
    pub session: ServeSession,
    pub phase: RunPhase,
    /// Why the session stopped.
    pub stop: Option<ServeStop>,
    /// The safe shutdown of the run.
    pub shutdown: Option<SafeShutdown>,
}

/// What a [`ServeRun`] holds, as mathematical values.
#[verifier::ext_equal]
pub struct RunModel {
    pub session: SessionModel,
    pub phase: PhaseModel,
    pub stop: Option<StopModel>,
    pub shutdown: Option<ShutdownModel>,
}

impl View for ServeRun {
    type V = RunModel;

    open spec fn view(&self) -> RunModel {
        RunModel {
            session: self.session@,
            phase: self.phase@,
            stop: match self.stop {
                Some(s) => Some(s@),
                None => None,
            },
            shutdown: match self.shutdown {
                Some(s) => Some(s@),
                None => None,
            },
        }
    }
}

impl RunModel {
    /// The session is served.
    pub open spec fn serving(self) -> bool {
        self.phase is Looking || self.phase is Awaiting || self.phase is Asking
            || self.phase is Driving || self.phase is ReadingBack || self.phase is Counting
    }

    /// A run at its first turn.
    pub open spec fn starts(self) -> bool {
        &&& self.session.wf()
        &&& self.phase is Looking
        &&& self.stop is None
        &&& self.shutdown is None
    }

    /// The verdict of the safe shutdown, if there is one.
    pub open spec fn verified(self) -> Option<bool> {
        match self.shutdown {
            Some(s) => Some(s.verified),
            None => None,
        }
    }

    /// A run that no longer serves has a stop, and with a cyclic exchange a safe
    /// shutdown, which has finished before the frames are stopped, the AR is
    /// released or the process ends.
    pub open spec fn wf(self) -> bool {
        &&& self.session.wf()
        &&& self.serving() <==> self.stop is None
        &&& self.shutdown is Some <==> !self.serving() && self.session.cyclic
        &&& self.shutdown matches Some(s) ==> s.wf() && (s.phase is Finished <==> !(
        self.phase is ShuttingDown))
        &&& (self.phase is ShuttingDown || self.phase is StoppingFrames) ==> self.session.cyclic
        &&& (self.phase is ReadingBack || self.phase is Counting) ==> self.session.cyclic
        &&& (self.phase matches PhaseModel::Driving(b) ==> self.session.cyclic && !outside(
            b,
            self.session.allow_mask,
        ))
        &&& (self.phase matches PhaseModel::Ended(r) ==> r == result_of(
            self.stop->0,
            self.verified(),
        ))
    }

    /// What is left to do at most, once the session stopped.
    pub open spec fn left(self) -> int {
        match self.phase {
            PhaseModel::ShuttingDown => self.shutdown->0.left() + 2,
            PhaseModel::StoppingFrames => 2,
            PhaseModel::Releasing => 1,
            _ => 0,
        }
    }

    pub open spec fn at(self, phase: PhaseModel) -> RunModel {
        RunModel { phase, ..self }
    }

    /// What the run does next.
    pub open spec fn next(self) -> RunAction {
        match self.phase {
            PhaseModel::Looking => RunAction::Look,
            PhaseModel::Awaiting => RunAction::Await { tick_us: self.session.tick_us() as u64 },
            PhaseModel::Asking(_) => RunAction::Ask,
            PhaseModel::Driving(byte) => RunAction::Drive { byte },
            PhaseModel::ReadingBack => RunAction::ReadBack {
                settle_ms: (2 * self.session.cycle_ms + 25) as u64,
            },
            PhaseModel::Counting => RunAction::Count,
            PhaseModel::ShuttingDown => RunAction::ShutDown { step: self.shutdown->0.next() },
            PhaseModel::StoppingFrames => RunAction::StopFrames,
            PhaseModel::Releasing => RunAction::Release,
            PhaseModel::Ended(_) => RunAction::Exit,
        }
    }

    /// The session stops: with a cyclic exchange the safe shutdown begins.
    pub open spec fn stopped(self, stop: StopModel) -> RunModel {
        RunModel {
            stop: Some(stop),
            phase: if self.session.cyclic {
                PhaseModel::ShuttingDown
            } else {
                PhaseModel::Releasing
            },
            shutdown: if self.session.cyclic {
                Some(fresh_shutdown(self.session.cycle_ms))
            } else {
                None
            },
            ..self
        }
    }

    /// Behind what a line led to: the byte to drive, the end of the turn, or,
    /// without a cyclic exchange, the next turn.
    pub open spec fn goes_on(self) -> RunModel {
        self.at(
            if !self.session.cyclic {
                PhaseModel::Looking
            } else {
                match self.session.to_drive() {
                    Some(b) => PhaseModel::Driving(b),
                    None => PhaseModel::Counting,
                }
            },
        )
    }

    /// What a step of the session leads to. A lost AR gets a line of its own.
    pub open spec fn follows(self, step: StepModel, host_us: u128) -> (RunModel, Seq<Seq<char>>) {
        match (step.stop, step.request) {
            (Some(stop), _) => (
                self.stopped(stop),
                maybe(step.line) + maybe(
                    match stop {
                        StopModel::ArLost(m) => Some(object_text(ar_lost_fields(host_us, m))),
                        StopModel::Reason(_) => None,
                    },
                ),
            ),
            (None, Some(q)) => (self.at(PhaseModel::Asking(q)), maybe(step.line)),
            (None, None) => (self.goes_on(), maybe(step.line)),
        }
    }

    /// After a look.
    pub open spec fn after_look(self, shutdown: bool, state: Option<CyclicState>, now_us: u64) -> RunModel {
        match self.session.stop_before(shutdown, state, now_us) {
            Some(m) => self.stopped(StopModel::Reason(m)),
            None => self.at(PhaseModel::Awaiting),
        }
    }

    /// After a line.
    pub open spec fn after_line(self, line: Seq<char>, host_us: u128, now_us: u64) -> (
        RunModel,
        Seq<Seq<char>>,
    ) {
        let (control, step) = self.session.line_step(line, host_us);
        RunModel {
            session: SessionModel { control, last_activity_us: now_us, ..self.session },
            ..self
        }.follows(step, host_us)
    }

    /// After a wait without a line.
    pub open spec fn after_idle(self, now_us: u64) -> RunModel {
        if self.session.keepalive_due(now_us) {
            self.at(PhaseModel::Asking(RequestModel::Keepalive))
        } else {
            self.goes_on()
        }
    }

    /// After the answer to a request.
    pub open spec fn after_answer(
        self,
        outcome: Result<Seq<u8>, Seq<char>>,
        host_us: u128,
        now_us: u64,
    ) -> (RunModel, Seq<Seq<char>>) {
        let step = self.session.answer_step(self.phase->Asking_0, outcome, host_us);
        RunModel {
            session: SessionModel { last_traffic_us: now_us, ..self.session },
            ..self
        }.follows(step, host_us)
    }

    /// After a byte was written to the output image.
    pub open spec fn after_drive(self, outcome: Result<(), Seq<char>>) -> (
        RunModel,
        Seq<Seq<char>>,
    ) {
        let (session, step) = self.session.driven_step(self.phase->Driving_0, outcome);
        let m = RunModel { session, ..self };
        match step.stop {
            Some(stop) => (m.stopped(stop), maybe(step.line)),
            None => (m.at(PhaseModel::ReadingBack), maybe(step.line)),
        }
    }

    /// After the byte was read back.
    pub open spec fn after_readback(self, outcome: Result<Seq<u8>, Seq<char>>) -> (
        RunModel,
        Seq<Seq<char>>,
    ) {
        (self.at(PhaseModel::Counting), seq![self.session.driven_line(outcome)])
    }

    /// After the frames were counted, at the end of a turn.
    pub open spec fn after_count(self, sent: u64, received: u64, missed: u64, now_us: u64) -> (
        RunModel,
        Seq<Seq<char>>,
    ) {
        let (session, step) = self.session.turn_step(sent, received, missed, now_us);
        let m = RunModel { session, ..self };
        match step.stop {
            Some(stop) => (m.stopped(stop), maybe(step.line)),
            None => (m.at(PhaseModel::Looking), maybe(step.line)),
        }
    }

    /// The shutdown is one step further. Behind its last one comes its report.
    pub open spec fn shut_to(self, s: ShutdownModel, line: Option<Seq<char>>) -> (
        RunModel,
        Seq<Seq<char>>,
    ) {
        let m = RunModel { shutdown: Some(s), ..self };
        if s.phase is Finished {
            let word = self.stop->0.word();
            let text = hex_text(s.readback);
            (
                m.at(PhaseModel::StoppingFrames),
                maybe(line) + maybe(Some(object_text(safe_shutdown_fields(word, s.verified, text))))
                    + maybe(
                    if s.verified {
                        None
                    } else {
                        Some(object_text(alarm_fields(word, text)))
                    },
                ),
            )
        } else {
            (m, maybe(line))
        }
    }

    /// After a write of the safe image.
    pub open spec fn after_write(self, outcome: Result<(), Seq<char>>) -> (
        RunModel,
        Seq<Seq<char>>,
    ) {
        self.shut_to(
            self.shutdown->0.after_write(outcome is Ok),
            match outcome {
                Ok(_) => None,
                Err(e) => Some(
                    object_text(error_msg_fields("safe shutdown set_output_data failed: "@ + e)),
                ),
            },
        )
    }

    /// After the safe image was held.
    pub open spec fn after_hold(self) -> (RunModel, Seq<Seq<char>>) {
        self.shut_to(self.shutdown->0.after_hold(), None)
    }

    /// After a read of the output image.
    pub open spec fn after_read(self, outcome: Result<Seq<u8>, Seq<char>>) -> (
        RunModel,
        Seq<Seq<char>>,
    ) {
        self.shut_to(
            self.shutdown->0.after_read(outcome),
            match outcome {
                Ok(_) => None,
                Err(e) => Some(object_text(error_read_fields("safe_shutdown_readback"@, e))),
            },
        )
    }

    /// After the frames were stopped.
    pub open spec fn after_frames(self, sent: u64, received: u64, missed: u64) -> (
        RunModel,
        Seq<Seq<char>>,
    ) {
        (
            self.at(PhaseModel::Releasing),
            seq![object_text(stopped_stats_fields(sent, received, missed))],
        )
    }

    /// After the AR was released.
    pub open spec fn after_release(self) -> (RunModel, Seq<Seq<char>>) {
        (
            self.at(PhaseModel::Ended(result_of(self.stop->0, self.verified()))),
            if self.session.cyclic {
                Seq::empty()
            } else {
                seq![object_text(stopped_exit_fields(self.stop->0.code()))]
            },
        )
    }
}

impl ServeRun {
    /// A run at its first turn.
    pub fn new(session: ServeSession) -> (r: ServeRun)
        requires
            session@.wf(),
        ensures
            r@.wf(),
            r@.starts(),
            r@.session == session@,
    {
        ServeRun { session, phase: RunPhase::Looking, stop: None, shutdown: None }
    }

    /// What the run does next.
    pub fn next(&self) -> (r: RunAction)
        requires
            self@.wf(),
        ensures
            r == self@.next(),
    {
        match &self.phase {
            RunPhase::Looking => RunAction::Look,
            RunPhase::Awaiting => RunAction::Await { tick_us: self.session.tick_us() },
            RunPhase::Asking(_) => RunAction::Ask,
            RunPhase::Driving(byte) => RunAction::Drive { byte: *byte },
            RunPhase::ReadingBack => RunAction::ReadBack { settle_ms: self.session.settle_ms() },
            RunPhase::Counting => RunAction::Count,
            RunPhase::ShuttingDown => RunAction::ShutDown {
                step: match &self.shutdown {
                    Some(s) => s.next(),
                    None => ShutdownStep::Finish,
                },
            },
            RunPhase::StoppingFrames => RunAction::StopFrames,
            RunPhase::Releasing => RunAction::Release,
            RunPhase::Ended(_) => RunAction::Exit,
        }
    }

    /// The request that is due.
    pub fn request(&self) -> (r: Option<&ServeRequest>)
        ensures
            match self@.phase {
                PhaseModel::Asking(q) => r matches Some(v) && v@ == q,
                _ => r is None,
            },
    {
        match &self.phase {
            RunPhase::Asking(q) => Some(q),
            _ => None,
        }
    }

    /// The result of a run that ended.
    pub fn result(self) -> (r: Option<Result<i32, String>>)
        ensures
            match self@.phase {
                PhaseModel::Ended(Ok(code)) => r == Some(Ok::<i32, String>(code)),
                PhaseModel::Ended(Err(m)) => r matches Some(Err(e)) && e@ == m,
                _ => r is None,
            },
    {
        match self.phase {
            RunPhase::Ended(result) => Some(result),
            _ => None,
        }
    }

    fn enter_stop(&mut self, stop: ServeStop)
        requires
            old(self)@.session.wf(),
        ensures
            final(self)@.wf(),
            final(self)@ == old(self)@.stopped(stop@),
    {
        if self.session.cyclic {
            self.shutdown = Some(SafeShutdown::new(self.session.cycle_ms));
            self.phase = RunPhase::ShuttingDown;
        } else {
            self.shutdown = None;
            self.phase = RunPhase::Releasing;
        }
        self.stop = Some(stop);
    }

    fn go_on(&mut self)
        requires
            old(self)@.session.wf(),
            old(self)@.stop is None,
            old(self)@.shutdown is None,
        ensures
            final(self)@.wf(),
            final(self)@ == old(self)@.goes_on(),
    {
        self.phase = if !self.session.cyclic {
            RunPhase::Looking
        } else {
            match self.session.to_drive() {
                Some(b) => RunPhase::Driving(b),
                None => RunPhase::Counting,
            }
        };
    }

    fn follow(&mut self, step: ServeStep, host_us: u128) -> (r: Vec<String>)
        requires
            old(self)@.session.wf(),
            old(self)@.stop is None,
            old(self)@.shutdown is None,
        ensures
            final(self)@.wf(),
            (final(self)@, texts(r@)) == old(self)@.follows(step@, host_us),
    {
        let mut lines = just(step.line);
        match step.stop {
            Some(stop) => {
                let farewell = stop.farewell(host_us);
                add_line(&mut lines, farewell);
                self.enter_stop(stop);
            },
            None => match step.request {
                Some(request) => {
                    self.phase = RunPhase::Asking(request);
                },
                None => {
                    self.go_on();
                },
            },
        }
        lines
    }

    /// Whether a signal came, how the exchange does, and the time.
    pub fn on_look(&mut self, shutdown: bool, state: Option<CyclicState>, now_us: u64)
        requires
            old(self)@.wf(),
            old(self)@.phase is Looking,
        ensures
            final(self)@.wf(),
            final(self)@ == old(self)@.after_look(shutdown, state, now_us),
    {
        match self.session.stop_before(shutdown, state, now_us) {
            Some(stop) => {
                self.enter_stop(stop);
            },
            None => {
                self.phase = RunPhase::Awaiting;
            },
        }
    }

    /// A line came.
    pub fn on_line(&mut self, line: &str, host_us: u128, now_us: u64) -> (r: Vec<String>)
        requires
            old(self)@.wf(),
            old(self)@.phase is Awaiting,
        ensures
            final(self)@.wf(),
            (final(self)@, texts(r@)) == old(self)@.after_line(line@, host_us, now_us),
    {
        let step = self.session.on_line(line, host_us, now_us);
        self.follow(step, host_us)
    }

    /// No line came in time.
    pub fn on_idle(&mut self, now_us: u64)
        requires
            old(self)@.wf(),
            old(self)@.phase is Awaiting,
        ensures
            final(self)@.wf(),
            final(self)@ == old(self)@.after_idle(now_us),
    {
        match self.session.on_idle(now_us) {
            Some(request) => {
                self.phase = RunPhase::Asking(request);
            },
            None => {
                self.go_on();
            },
        }
    }

    /// The caller is gone.
    pub fn on_eof(&mut self)
        requires
            old(self)@.wf(),
            old(self)@.phase is Awaiting,
        ensures
            final(self)@.wf(),
            final(self)@ == old(self)@.stopped(StopModel::Reason("stdin_eof"@)),
    {
        let stop = self.session.on_eof();
        self.enter_stop(stop);
    }

    /// The answer to the request that was due.
    pub fn on_answer(&mut self, outcome: &Result<Vec<u8>, String>, host_us: u128, now_us: u64) -> (r:
        Vec<String>)
        requires
            old(self)@.wf(),
            old(self)@.phase is Asking,
        ensures
            final(self)@.wf(),
            (final(self)@, texts(r@)) == old(self)@.after_answer(
                bytes_outcome(*outcome),
                host_us,
                now_us,
            ),
    {
        let step = match &self.phase {
            RunPhase::Asking(request) => self.session.on_answer(request, outcome, host_us, now_us),
            _ => ServeStep { line: None, request: None, stop: None },
        };
        self.follow(step, host_us)
    }

    /// How writing the byte to the output image ended.
    pub fn on_driven(&mut self, outcome: &Result<(), String>) -> (r: Vec<String>)
        requires
            old(self)@.wf(),
            old(self)@.phase is Driving,
        ensures
            final(self)@.wf(),
            (final(self)@, texts(r@)) == old(self)@.after_drive(plain_outcome(*outcome)),
    {
        let byte: u8 = match self.phase {
            RunPhase::Driving(b) => b,
            _ => 0,
        };
        let step = self.session.on_driven(byte, outcome);
        let lines = just(step.line);
        match step.stop {
            Some(stop) => {
                self.enter_stop(stop);
            },
            None => {
                self.phase = RunPhase::ReadingBack;
            },
        }
        lines
    }

    /// What the device read back.
    pub fn on_readback(&mut self, outcome: &Result<Vec<u8>, String>) -> (r: Vec<String>)
        requires
            old(self)@.wf(),
            old(self)@.phase is ReadingBack,
        ensures
            final(self)@.wf(),
            (final(self)@, texts(r@)) == old(self)@.after_readback(bytes_outcome(*outcome)),
    {
        let line = self.session.driven_line(outcome);
        self.phase = RunPhase::Counting;
        just(Some(line))
    }

    /// The frames so far, at the end of a turn.
    pub fn on_count(&mut self, sent: u64, received: u64, missed: u64, now_us: u64) -> (r: Vec<
        String,
    >)
        requires
            old(self)@.wf(),
            old(self)@.phase is Counting,
        ensures
            final(self)@.wf(),
            (final(self)@, texts(r@)) == old(self)@.after_count(sent, received, missed, now_us),
    {
        let step = self.session.on_turn(sent, received, missed, now_us);
        let lines = just(step.line);
        match step.stop {
            Some(stop) => {
                self.enter_stop(stop);
            },
            None => {
                self.phase = RunPhase::Looking;
            },
        }
        lines
    }

    /// Put the shutdown back after a step, and report behind its last one.
    fn shut(&mut self, shutdown: SafeShutdown, line: Option<String>) -> (r: Vec<String>)
        requires
            old(self)@.session.wf(),
            old(self)@.session.cyclic,
            old(self)@.phase is ShuttingDown,
            old(self)@.stop is Some,
            shutdown@.wf(),
        ensures
            final(self)@.wf(),
            (final(self)@, texts(r@)) == old(self)@.shut_to(
                shutdown@,
                match line {
                    Some(l) => Some(l@),
                    None => None,
                },
            ),
    {
        let mut lines = just(line);
        if let ShutdownStep::Finish = shutdown.next() {
            let reason = match &self.stop {
                Some(stop) => stop.reason(),
                None => "",
            };
            let (said, alarm) = shutdown.report(reason);
            add_line(&mut lines, Some(said));
            add_line(&mut lines, alarm);
            self.phase = RunPhase::StoppingFrames;
        }
        self.shutdown = Some(shutdown);
        lines
    }

    /// How a write of the safe image ended.
    pub fn on_write(&mut self, outcome: &Result<(), String>) -> (r: Vec<String>)
        requires
            old(self)@.wf(),
            old(self)@.phase is ShuttingDown,
            old(self)@.shutdown->0.phase is Writing,
        ensures
            final(self)@.wf(),
            (final(self)@, texts(r@)) == old(self)@.after_write(plain_outcome(*outcome)),
    {
        match self.shutdown.take() {
            Some(s) => {
                let mut shutdown = s;
                let line = shutdown.on_write(outcome);
                self.shut(shutdown, line)
            },
            None => Vec::new(),
        }
    }

    /// The safe image was held for as long as asked.
    pub fn on_held(&mut self) -> (r: Vec<String>)
        requires
            old(self)@.wf(),
            old(self)@.phase is ShuttingDown,
            old(self)@.shutdown->0.phase is Holding,
        ensures
            final(self)@.wf(),
            (final(self)@, texts(r@)) == old(self)@.after_hold(),
    {
        match self.shutdown.take() {
            Some(s) => {
                let mut shutdown = s;
                shutdown.on_held();
                self.shut(shutdown, None)
            },
            None => Vec::new(),
        }
    }

    /// How a read of the output image ended.
    pub fn on_read(&mut self, outcome: Result<Vec<u8>, String>) -> (r: Vec<String>)
        requires
            old(self)@.wf(),
            old(self)@.phase is ShuttingDown,
            old(self)@.shutdown->0.phase is Reading,
        ensures
            final(self)@.wf(),
            (final(self)@, texts(r@)) == old(self)@.after_read(bytes_outcome(outcome)),
    {
        match self.shutdown.take() {
            Some(s) => {
                let mut shutdown = s;
                let line = shutdown.on_read(outcome);
                self.shut(shutdown, line)
            },
            None => Vec::new(),
        }
    }

    /// The frames were stopped; so many there were.
    pub fn on_frames_stopped(&mut self, sent: u64, received: u64, missed: u64) -> (r: Vec<String>)
        requires
            old(self)@.wf(),
            old(self)@.phase is StoppingFrames,
        ensures
            final(self)@.wf(),
            (final(self)@, texts(r@)) == old(self)@.after_frames(sent, received, missed),
    {
        self.phase = RunPhase::Releasing;
        just(Some(stopped_stats_line(sent, received, missed)))
    }

    /// The AR was released. A verified shutdown permits a hard exit.
    pub fn on_released(&mut self, safe_to_hard_exit: &mut bool) -> (r: Vec<String>)
        requires
            old(self)@.wf(),
            old(self)@.phase is Releasing,
        ensures
            final(self)@.wf(),
            (final(self)@, texts(r@)) == old(self)@.after_release(),
            *final(safe_to_hard_exit) == (*old(safe_to_hard_exit) || old(self)@.verified() == Some(
                true,
            )),
    {
        let verified = match &self.shutdown {
            Some(s) => Some(s.verified),
            None => None,
        };
        let (result, line) = match &self.stop {
            Some(stop) => (
                serve_result(stop, verified, safe_to_hard_exit),
                if self.session.cyclic {
                    None
                } else {
                    Some(stop.stopped_line())
                },
            ),
            None => (Ok(0), None),
        };
        self.phase = RunPhase::Ended(result);
        just(line)
    }
}

/// How the steps of a run ended.
pub enum RunEvent {
    Looked { shutdown: bool, state: Option<CyclicState>, now_us: u64 },
    Line { line: Seq<char>, host_us: u128, now_us: u64 },
    Idle { now_us: u64 },
    Eof,
    Answered { outcome: Result<Seq<u8>, Seq<char>>, host_us: u128, now_us: u64 },
    Drove(Result<(), Seq<char>>),
    ReadBack(Result<Seq<u8>, Seq<char>>),
    Counted { sent: u64, received: u64, missed: u64, now_us: u64 },
    Wrote(Result<(), Seq<char>>),
    Held,
    Read(Result<Seq<u8>, Seq<char>>),
    FramesStopped { sent: u64, received: u64, missed: u64 },
    Released,
}

/// The event is how the step ended that the run asked for.
pub open spec fn due(m: RunModel, e: RunEvent) -> bool {
    match m.next() {
        RunAction::Look => e is Looked,
        RunAction::Await { .. } => e is Line || e is Idle || e is Eof,
        RunAction::Ask => e is Answered,
        RunAction::Drive { .. } => e is Drove,
        RunAction::ReadBack { .. } => e is ReadBack,
        RunAction::Count => e is Counted,
        RunAction::ShutDown { step } => match step {
            ShutdownStep::Write { .. } => e is Wrote,
            ShutdownStep::Hold { .. } => e is Held,
            ShutdownStep::Read { .. } => e is Read,
            ShutdownStep::Finish => false,
        },
        RunAction::StopFrames => e is FramesStopped,
        RunAction::Release => e is Released,
        RunAction::Exit => false,
    }
}

/// After one step, if it is the one that was due.
#[verifier::opaque]
pub open spec fn run_step(m: RunModel, e: RunEvent) -> RunModel {
    if !due(m, e) {
        m
    } else {
        match e {
            RunEvent::Looked { shutdown, state, now_us } => m.after_look(shutdown, state, now_us),
            RunEvent::Line { line, host_us, now_us } => m.after_line(line, host_us, now_us).0,
            RunEvent::Idle { now_us } => m.after_idle(now_us),
            RunEvent::Eof => m.stopped(StopModel::Reason("stdin_eof"@)),
            RunEvent::Answered { outcome, host_us, now_us } => m.after_answer(
                outcome,
                host_us,
                now_us,
            ).0,
            RunEvent::Drove(r) => m.after_drive(r).0,
            RunEvent::ReadBack(r) => m.after_readback(r).0,
            RunEvent::Counted { sent, received, missed, now_us } => m.after_count(
                sent,
                received,
                missed,
                now_us,
            ).0,
            RunEvent::Wrote(r) => m.after_write(r).0,
            RunEvent::Held => m.after_hold().0,
            RunEvent::Read(r) => m.after_read(r).0,
            RunEvent::FramesStopped { sent, received, missed } => m.after_frames(
                sent,
                received,
                missed,
            ).0,
            RunEvent::Released => m.after_release().0,
        }
    }
}

/// After some steps.
pub open spec fn run_all(m: RunModel, events: Seq<RunEvent>) -> RunModel
    decreases events.len(),
{
    if events.len() == 0 {
        m
    } else {
        run_step(run_all(m, events.drop_last()), events.last())
    }
}

/// How many safe shutdowns began in the course of some steps.
pub open spec fn shutdowns_begun(m: RunModel, events: Seq<RunEvent>) -> nat
    decreases events.len(),
{
    if events.len() == 0 {
        0
    } else {
        let before = run_all(m, events.drop_last());
        let n = shutdowns_begun(m, events.drop_last());
        if !(before.phase is ShuttingDown) && run_step(before, events.last()).phase is ShuttingDown {
            n + 1
        } else {
            n
        }
    }
}

proof fn lemma_session_step(m: RunModel, e: RunEvent)
    requires
        m.wf(),
    ensures
        run_step(m, e).session.wf(),
        run_step(m, e).session.cyclic == m.session.cyclic,
        run_step(m, e).session.cycle_ms == m.session.cycle_ms,
        run_step(m, e).session.allow_mask == m.session.allow_mask,
{
    reveal(run_step);
    let s = m.session;
    if due(m, e) {
        match e {
            RunEvent::Line { line, host_us, .. } => {
                if let Ok(ServeLineModel::Control(cmd)) = line_of(line) {
                    only_allowed_bits_are_driven(s.control, cmd, 0, s.allow_mask);
                }
            },
            RunEvent::Counted { now_us, .. } => {
                let n = ((span(s.last_tick_us, now_us) as int / s.tick_us()) as u32) as nat;
                only_allowed_bits_are_driven(s.control, ControlCmd::Quit, n, s.allow_mask);
            },
            _ => {},
        }
    }
}

/// Each step keeps a run well-formed.
proof fn lemma_run_step(m: RunModel, e: RunEvent)
    requires
        m.wf(),
    ensures
        run_step(m, e).wf(),
{
    reveal(run_step);
    lemma_session_step(m, e);
    let after = run_step(m, e).session;
    only_allowed_bits_are_driven(after.control, ControlCmd::Quit, 0, after.allow_mask);
    only_allowed_bits_are_driven(m.session.control, ControlCmd::Quit, 0, m.session.allow_mask);
}

/// The safe shutdown is the only way out of a session with a cyclic exchange,
/// and there is no way back.
proof fn lemma_way_out(m: RunModel, e: RunEvent)
    requires
        m.wf(),
    ensures
        m.serving() && !run_step(m, e).serving() && m.session.cyclic ==> run_step(
            m,
            e,
        ).phase is ShuttingDown,
        run_step(m, e).phase is ShuttingDown ==> m.session.cyclic && (m.serving()
            || m.phase is ShuttingDown),
        !m.serving() ==> !run_step(m, e).serving(),
{
    reveal(run_step);
}

/// A session with a cyclic exchange ends only through the commanded safe
/// shutdown, whatever stopped it: a process that exited ran exactly one, and ran
/// it to its end. Its result is a failure where the safe image could not be
/// verified, else 1 where the AR was lost and 0 for every other stop. A session
/// without a cyclic exchange has none.
pub proof fn every_exit_is_a_safe_shutdown(m: RunModel, events: Seq<RunEvent>)
    requires
        m.starts(),
    ensures
        ({
            let n = run_all(m, events);
            &&& n.wf()
            &&& n.session.cyclic == m.session.cyclic
            &&& shutdowns_begun(m, events) == if m.session.cyclic && !n.serving() {
                1
            } else {
                0nat
            }
            &&& n.phase matches PhaseModel::Ended(result) ==> n.stop is Some && if m.session.cyclic {
                &&& n.shutdown matches Some(s) && s.next() is Finish
                &&& result == if !n.shutdown->0.verified {
                    Err::<i32, Seq<char>>(unverified_message())
                } else {
                    Ok(n.stop->0.code())
                }
            } else {
                n.shutdown is None && result == Ok::<i32, Seq<char>>(n.stop->0.code())
            }
        }),
    decreases events.len(),
{
    if events.len() > 0 {
        let rest = events.drop_last();
        every_exit_is_a_safe_shutdown(m, rest);
        let before = run_all(m, rest);
        lemma_run_step(before, events.last());
        lemma_session_step(before, events.last());
        lemma_way_out(before, events.last());
    }
}

/// A session that stopped is never served again, and keeps the reason of its
/// stop.
pub proof fn a_stop_is_final(m: RunModel, e: RunEvent)
    requires
        m.wf(),
        !m.serving(),
    ensures
        !run_step(m, e).serving(),
        run_step(m, e).stop == m.stop,
        m.phase is Ended ==> run_step(m, e) == m,
{
    reveal(run_step);
}

/// The event is a read of a record that proves the safe image.
pub open spec fn is_proving_read(e: RunEvent) -> bool {
    e matches RunEvent::Read(Ok(d)) && proves_safe(d)
}

proof fn lemma_proof_step(m: RunModel, e: RunEvent)
    requires
        m.wf(),
        run_step(m, e).verified() == Some(true),
    ensures
        m.verified() == Some(true) || is_proving_read(e),
{
    reveal(run_step);
}

/// A process with a cyclic exchange succeeds only if a record that it read in
/// its shutdown proves the safe image.
pub proof fn a_clean_exit_is_proved(m: RunModel, events: Seq<RunEvent>)
    requires
        m.starts(),
        m.session.cyclic,
    ensures
        run_all(m, events).verified() == Some(true) || (run_all(
            m,
            events,
        ).phase matches PhaseModel::Ended(Ok(_))) ==> exists|i: int|
            0 <= i < events.len() && #[trigger] is_proving_read(events[i]),
    decreases events.len(),
{
    every_exit_is_a_safe_shutdown(m, events);
    if events.len() > 0 {
        let rest = events.drop_last();
        let before = run_all(m, rest);
        every_exit_is_a_safe_shutdown(m, rest);
        a_clean_exit_is_proved(m, rest);
        if run_all(m, events).verified() == Some(true) {
            lemma_proof_step(before, events.last());
            if before.verified() == Some(true) {
                let i = choose|i: int| 0 <= i < rest.len() && #[trigger] is_proving_read(rest[i]);
                assert(is_proving_read(events[i]));
            } else {
                assert(is_proving_read(events[events.len() - 1]));
            }
        }
    }
}

/// The steps that a stopped session asks for, each with some outcome, end the
/// process: there are never more than 26 of them left.
pub proof fn a_stopped_session_exits(m: RunModel, e: RunEvent)
    requires
        m.wf(),
        !m.serving(),
        due(m, e),
    ensures
        0 <= run_step(m, e).left() < m.left() <= 26,
        run_step(m, e).left() == 0 <==> run_step(m, e).phase is Ended,
{
    reveal(run_step);
}

/// A turn does what the session asks for: it asks the device where a request came
/// up, drives the byte that the commands ask for where it is not yet driven, and
/// begins the shutdown, or without an exchange the release, where the session stops;
/// and what the session says is said first.
pub proof fn a_turn_does_what_is_asked(m: RunModel, step: StepModel, host_us: u128)
    ensures
        ({
            let (n, lines) = m.follows(step, host_us);
            let c = m.session;
            &&& n.session == c
            &&& step.line matches Some(l) ==> lines.len() > 0 && lines[0] == l
            &&& step.stop is None ==> lines.len() <= 1 && n.stop == m.stop
            &&& step.stop is None && step.request is Some ==> n.phase == PhaseModel::Asking(
                step.request->0,
            )
            &&& step.stop is None && step.request is None && !c.cyclic ==> n.phase is Looking
            &&& step.stop is None && step.request is None && c.cyclic && c.control.byte()
                != c.driven_byte ==> n.next() == (RunAction::Drive { byte: c.control.byte() })
            &&& step.stop is None && step.request is None && c.cyclic && c.control.byte()
                == c.driven_byte ==> n.next() is Count
            &&& step.stop is Some ==> n.stop == step.stop
            &&& step.stop is Some && c.cyclic ==> n.next() is ShutDown
            &&& step.stop is Some && !c.cyclic ==> n.next() is Release
        }),
        m.phase is ReadingBack ==> (m.next() matches RunAction::ReadBack { settle_ms } && settle_ms
            == 2 * m.session.cycle_ms + 25),
{
}

} // verus!
