//! The commanded safe shutdown, the only way in which a commanding session
//! stops its AR: drive the safe image, hold it on the wire for more than three
//! output cycles, verify it by reading it back, and only then stop the cyclic
//! frames and release the AR.
//!
//! While the safe image is not verified, the AR is kept up for several rounds,
//! commanding it anew each time: stopping early would remove the only channel
//! that drives it.

use vstd::prelude::*;
use vstd::string::*;
use crate::cli::{hex_encode, should_hard_exit};
use crate::json::object_text;
use crate::lines::{
    alarm_fields, alarm_line, error_msg_fields, error_msg_line, error_read_fields, error_read_line,
    safe_shutdown_fields, safe_shutdown_line,
};
use crate::records::{is_proof_of_safety, proves_safe};
use crate::text::hex_text;

verus! {

/// Rounds of a shutdown, and tries at a write or a read in each.
pub const SHUTDOWN_ROUNDS: u8 = 3;

pub const SHUTDOWN_TRIES: u8 = 3;

/// What a shutdown does next.
#[derive(Debug, Clone, Copy, PartialEq, Eq, Structural)]
pub enum ShutdownStep {
    /// Wait so many milliseconds, then write the safe image.
    Write { pause_ms: u64 },
    /// Hold the image on the wire for so many milliseconds.
    Hold { pause_ms: u64 },
    /// Wait so many milliseconds, then read the output image back.
    Read { pause_ms: u64 },
    /// Report, stop the frames with the safe image, and release the AR.
    Finish,
}

/// Where a shutdown stands within a round.
#[derive(Debug, Clone, Copy, PartialEq, Eq, Structural)]
pub enum ShutdownPhase {
    /// Before the write with this number.
    Writing(u8),
    Holding,
    /// Before the read with this number.
    Reading(u8),
    Finished,
}

/// A running shutdown.
#[derive(Debug)]
pub struct SafeShutdown {
    pub cycle_ms: u16,
    pub round: u8,
    pub phase: ShutdownPhase,
    /// The last output record that was read.
    pub readback: Vec<u8>,
    pub verified: bool,
}

/// What a [`SafeShutdown`] holds, as mathematical values.
#[verifier::ext_equal]
pub struct ShutdownModel {
    pub cycle_ms: u16,
    pub round: u8,
    pub phase: ShutdownPhase,
    pub readback: Seq<u8>,
    pub verified: bool,
}

impl View for SafeShutdown {
    type V = ShutdownModel;

    open spec fn view(&self) -> ShutdownModel {
        ShutdownModel {
            cycle_ms: self.cycle_ms,
            round: self.round,
            phase: self.phase,
            readback: self.readback@,
            verified: self.verified,
        }
    }
}

impl ShutdownModel {
    /// Verified means that the last record read proves it. Only a finished
    /// shutdown is verified, and one that gave up had all its rounds.
    pub open spec fn wf(self) -> bool {
        &&& self.verified ==> proves_safe(self.readback) && self.phase is Finished
        &&& self.round <= 3
        &&& match self.phase {
            ShutdownPhase::Writing(n) => n < 3 && self.round < 3,
            ShutdownPhase::Holding => self.round < 3,
            ShutdownPhase::Reading(n) => n < 3 && self.round < 3,
            ShutdownPhase::Finished => self.verified || self.round == 3,
        }
    }

    /// What is left to do at most: it shrinks with every step.
    pub open spec fn left(self) -> int {
        match self.phase {
            ShutdownPhase::Writing(n) => (3 - self.round) * 8 - n,
            ShutdownPhase::Holding => (3 - self.round) * 8 - 4,
            ShutdownPhase::Reading(n) => (3 - self.round) * 8 - 5 - n,
            ShutdownPhase::Finished => 0,
        }
    }

    /// What the shutdown does next.
    pub open spec fn next(self) -> ShutdownStep {
        match self.phase {
            ShutdownPhase::Writing(n) => ShutdownStep::Write {
                pause_ms: if n > 0 {
                    50
                } else {
                    0
                },
            },
            ShutdownPhase::Holding => ShutdownStep::Hold {
                pause_ms: if self.cycle_ms * 5 > 100 {
                    (self.cycle_ms * 5) as u64
                } else {
                    100
                },
            },
            ShutdownPhase::Reading(n) => ShutdownStep::Read {
                pause_ms: if n > 0 {
                    100
                } else {
                    0
                },
            },
            ShutdownPhase::Finished => ShutdownStep::Finish,
        }
    }

    /// After a write. A failed one is tried again; after the last try the
    /// image is looked at all the same.
    pub open spec fn after_write(self, ok: bool) -> ShutdownModel {
        ShutdownModel {
            phase: match self.phase {
                ShutdownPhase::Writing(n) => if ok || n >= 2 {
                    ShutdownPhase::Holding
                } else {
                    ShutdownPhase::Writing((n + 1) as u8)
                },
                p => p,
            },
            ..self
        }
    }

    /// After the image was held.
    pub open spec fn after_hold(self) -> ShutdownModel {
        ShutdownModel { phase: ShutdownPhase::Reading(0), ..self }
    }

    /// After a read that proves nothing: the next one, or the next round.
    pub open spec fn after_miss(self) -> ShutdownModel {
        match self.phase {
            ShutdownPhase::Reading(n) => if n < 2 {
                ShutdownModel { phase: ShutdownPhase::Reading((n + 1) as u8), ..self }
            } else if self.round < 2 {
                ShutdownModel {
                    phase: ShutdownPhase::Writing(0),
                    round: (self.round + 1) as u8,
                    ..self
                }
            } else {
                ShutdownModel { phase: ShutdownPhase::Finished, round: 3, ..self }
            },
            _ => self,
        }
    }

    /// After a read.
    pub open spec fn after_read(self, outcome: Result<Seq<u8>, Seq<char>>) -> ShutdownModel {
        match outcome {
            Ok(d) => {
                let m = ShutdownModel { readback: d, ..self };
                if proves_safe(d) {
                    ShutdownModel { verified: true, phase: ShutdownPhase::Finished, ..m }
                } else {
                    m.after_miss()
                }
            },
            Err(_) => self.after_miss(),
        }
    }
}

impl SafeShutdown {
    /// A shutdown that begins with the first write.
    pub fn new(cycle_ms: u16) -> (r: SafeShutdown)
        ensures
            r@.wf(),
            r@ == (ShutdownModel {
                cycle_ms,
                round: 0,
                phase: ShutdownPhase::Writing(0),
                readback: Seq::empty(),
                verified: false,
            }),
    {
        SafeShutdown {
            cycle_ms,
            round: 0,
            phase: ShutdownPhase::Writing(0),
            readback: Vec::new(),
            verified: false,
        }
    }

    /// What the shutdown does next.
    pub fn next(&self) -> (r: ShutdownStep)
        ensures
            r == self@.next(),
    {
        match self.phase {
            ShutdownPhase::Writing(n) => ShutdownStep::Write {
                pause_ms: if n > 0 {
                    50
                } else {
                    0
                },
            },
            ShutdownPhase::Holding => {
                let five: u64 = self.cycle_ms as u64 * 5;
                ShutdownStep::Hold {
                    pause_ms: if five > 100 {
                        five
                    } else {
                        100
                    },
                }
            },
            ShutdownPhase::Reading(n) => ShutdownStep::Read {
                pause_ms: if n > 0 {
                    100
                } else {
                    0
                },
            },
            ShutdownPhase::Finished => ShutdownStep::Finish,
        }
    }

    /// How a write of the safe image ended; gives the line to write, if any.
    pub fn on_write(&mut self, outcome: &Result<(), String>) -> (r: Option<String>)
        requires
            old(self)@.wf(),
            old(self)@.phase is Writing,
        ensures
            final(self)@.wf(),
            final(self)@ == old(self)@.after_write(*outcome is Ok),
            final(self)@.left() < old(self)@.left(),
            match *outcome {
                Ok(_) => r is None,
                Err(e) => r matches Some(l) && l@ == object_text(
                    error_msg_fields("safe shutdown set_output_data failed: "@ + e@),
                ),
            },
    {
        if let ShutdownPhase::Writing(n) = self.phase {
            self.phase = if outcome.is_ok() || n >= SHUTDOWN_TRIES - 1 {
                ShutdownPhase::Holding
            } else {
                ShutdownPhase::Writing(n + 1)
            };
        }
        match outcome {
            Ok(_) => None,
            Err(e) => {
                let mut m = "safe shutdown set_output_data failed: ".to_owned();
                m.append(e.as_str());
                Some(error_msg_line(m.as_str()))
            },
        }
    }

    /// The image was held for as long as asked.
    pub fn on_held(&mut self)
        requires
            old(self)@.wf(),
            old(self)@.phase is Holding,
        ensures
            final(self)@.wf(),
            final(self)@ == old(self)@.after_hold(),
            final(self)@.left() < old(self)@.left(),
    {
        self.phase = ShutdownPhase::Reading(0);
    }

    /// How a read of the output image ended; gives the line to write, if any.
    pub fn on_read(&mut self, outcome: Result<Vec<u8>, String>) -> (r: Option<String>)
        requires
            old(self)@.wf(),
            old(self)@.phase is Reading,
        ensures
            final(self)@.wf(),
            final(self)@ == old(self)@.after_read(
                match outcome {
                    Ok(d) => Ok(d@),
                    Err(e) => Err(e@),
                },
            ),
            final(self)@.left() < old(self)@.left(),
            match outcome {
                Ok(_) => r is None,
                Err(e) => r matches Some(l) && l@ == object_text(
                    error_read_fields("safe_shutdown_readback"@, e@),
                ),
            },
    {
        let line = match outcome {
            Ok(d) => {
                let safe = is_proof_of_safety(d.as_slice());
                self.readback = d;
                if safe {
                    self.verified = true;
                    self.phase = ShutdownPhase::Finished;
                    return None;
                }
                None
            },
            Err(e) => Some(error_read_line("safe_shutdown_readback", e.as_str())),
        };
        if let ShutdownPhase::Reading(n) = self.phase {
            if n < SHUTDOWN_TRIES - 1 {
                self.phase = ShutdownPhase::Reading(n + 1);
            } else if self.round < SHUTDOWN_ROUNDS - 1 {
                self.phase = ShutdownPhase::Writing(0);
                self.round = self.round + 1;
            } else {
                self.phase = ShutdownPhase::Finished;
                self.round = SHUTDOWN_ROUNDS;
            }
        }
        line
    }

    /// The report of a shutdown: what was read back, and an alarm where that
    /// does not prove the safe image.
    pub fn report(&self, reason: &str) -> (r: (String, Option<String>))
        ensures
            r.0@ == object_text(
                safe_shutdown_fields(reason@, self@.verified, hex_text(self@.readback)),
            ),
            if self@.verified {
                r.1 is None
            } else {
                r.1 matches Some(l) && l@ == object_text(
                    alarm_fields(reason@, hex_text(self@.readback)),
                )
            },
    {
        let text = hex_encode(self.readback.as_slice());
        let line = safe_shutdown_line(reason, self.verified, text.as_str());
        if self.verified {
            (line, None)
        } else {
            (line, Some(alarm_line(reason, text.as_str())))
        }
    }
}

/// What a process result says after a shutdown that was not verified.
pub open spec fn unverified_message() -> Seq<char> {
    "safe shutdown could not verify the safe output (see the \"alarm\" NDJSON line); the device may still hold the last commanded output"@
}

/// The result of a shutdown. A verified one permits a hard exit, and only past
/// that point may a stuck teardown be ended by force. An unverified one leaves
/// the permission as it is and reports failure, so that a supervising parent
/// detects the unverified output.
pub fn safe_shutdown_verdict(verified: bool, safe_to_hard_exit: &mut bool) -> (r: Result<i32, String>)
    ensures
        if verified {
            *final(safe_to_hard_exit) && r == Ok::<i32, String>(0)
        } else {
            *final(safe_to_hard_exit) == *old(safe_to_hard_exit) && (r matches Err(e) && e@
                == unverified_message())
        },
{
    if verified {
        *safe_to_hard_exit = true;
        Ok(0)
    } else {
        Err(
            "safe shutdown could not verify the safe output (see the \"alarm\" NDJSON line); the device may still hold the last commanded output".to_owned(),
        )
    }
}

/// Whether the process may be ended at once, and what it was asked to do.
#[derive(Debug, Clone, Copy, PartialEq, Eq, Structural)]
pub struct ExitGuard {
    pub shutting_down: bool,
    pub safe_to_hard_exit: bool,
}

impl ExitGuard {
    /// The guard of a session: a hard exit is harmless unless bits are driven,
    /// for with none ever set the image stays the safe one.
    pub fn new(allow_mask: u8) -> (r: ExitGuard)
        ensures
            r == (ExitGuard { shutting_down: false, safe_to_hard_exit: allow_mask == 0 }),
    {
        ExitGuard { shutting_down: false, safe_to_hard_exit: allow_mask == 0 }
    }

    /// A signal: gives whether the process is to end at once.
    pub fn on_signal(&mut self) -> (r: bool)
        ensures
            r == (old(self).shutting_down && old(self).safe_to_hard_exit),
            *final(self) == (ExitGuard { shutting_down: true, ..*old(self) }),
    {
        let again = self.shutting_down;
        self.shutting_down = true;
        should_hard_exit(again, self.safe_to_hard_exit)
    }
}

/// How the steps of a shutdown ended.
pub enum ShutdownEvent {
    Wrote(bool),
    Held,
    Read(Result<Seq<u8>, Seq<char>>),
}

/// After one step, if it is the one that was due.
pub open spec fn shutdown_step(m: ShutdownModel, e: ShutdownEvent) -> ShutdownModel {
    match (m.phase, e) {
        (ShutdownPhase::Writing(_), ShutdownEvent::Wrote(ok)) => m.after_write(ok),
        (ShutdownPhase::Holding, ShutdownEvent::Held) => m.after_hold(),
        (ShutdownPhase::Reading(_), ShutdownEvent::Read(r)) => m.after_read(r),
        _ => m,
    }
}

/// After some steps.
pub open spec fn shutdown_run(m: ShutdownModel, events: Seq<ShutdownEvent>) -> ShutdownModel
    decreases events.len(),
{
    if events.len() == 0 {
        m
    } else {
        shutdown_step(shutdown_run(m, events.drop_last()), events.last())
    }
}

/// A shutdown is verified only by a record that was read while it ran and that
/// proves the safe image: our data in effect, and the safe byte in it.
pub proof fn verified_means_proved(m: ShutdownModel, events: Seq<ShutdownEvent>)
    requires
        m.wf(),
        !m.verified,
    ensures
        shutdown_run(m, events).wf(),
        shutdown_run(m, events).verified ==> exists|i: int|
            0 <= i < events.len() && #[trigger] is_proof(events[i]),
    decreases events.len(),
{
    if events.len() > 0 {
        let before = shutdown_run(m, events.drop_last());
        verified_means_proved(m, events.drop_last());
        if before.verified {
            let i = choose|i: int|
                0 <= i < events.drop_last().len() && #[trigger] is_proof(events.drop_last()[i]);
            assert(is_proof(events[i]));
        } else if shutdown_run(m, events).verified {
            assert(is_proof(events[events.len() - 1]));
        }
    }
}

/// The event is a read of a record that proves the safe image.
pub open spec fn is_proof(e: ShutdownEvent) -> bool {
    e matches ShutdownEvent::Read(Ok(d)) && proves_safe(d)
}

/// The steps that a shutdown asks for, each with some outcome, end it: no
/// shutdown takes more than 24 of them.
pub proof fn a_shutdown_ends(m: ShutdownModel, e: ShutdownEvent)
    requires
        m.wf(),
        match m.next() {
            ShutdownStep::Write { .. } => e is Wrote,
            ShutdownStep::Hold { .. } => e is Held,
            ShutdownStep::Read { .. } => e is Read,
            ShutdownStep::Finish => false,
        },
    ensures
        shutdown_step(m, e).wf(),
        0 <= shutdown_step(m, e).left() < m.left() <= 24,
{
}

/// What a guard goes through.
pub enum GuardEvent {
    Signal,
    /// A shutdown ended, verified or not.
    Verdict(bool),
}

/// A guard after some events.
pub open spec fn guard_after(g: ExitGuard, events: Seq<GuardEvent>) -> ExitGuard
    decreases events.len(),
{
    if events.len() == 0 {
        g
    } else {
        let h = guard_after(g, events.drop_last());
        match events.last() {
            GuardEvent::Signal => ExitGuard { shutting_down: true, ..h },
            GuardEvent::Verdict(verified) => ExitGuard {
                safe_to_hard_exit: h.safe_to_hard_exit || verified,
                ..h
            },
        }
    }
}

/// A session that may drive bits is ended by force only after a shutdown that
/// was verified, and not before a second signal, however often it is signalled.
pub proof fn a_hard_exit_needs_proof(events: Seq<GuardEvent>)
    ensures
        ({
            let g = guard_after(ExitGuard { shutting_down: false, safe_to_hard_exit: false }, events);
            &&& g.safe_to_hard_exit ==> exists|i: int|
                0 <= i < events.len() && #[trigger] events[i] == GuardEvent::Verdict(true)
            &&& g.shutting_down ==> exists|i: int|
                0 <= i < events.len() && #[trigger] events[i] is Signal
        }),
    decreases events.len(),
{
    if events.len() > 0 {
        let rest = events.drop_last();
        a_hard_exit_needs_proof(rest);
        let h = guard_after(ExitGuard { shutting_down: false, safe_to_hard_exit: false }, rest);
        if h.safe_to_hard_exit {
            let i = choose|i: int|
                0 <= i < rest.len() && #[trigger] rest[i] == GuardEvent::Verdict(true);
            assert(events[i] == GuardEvent::Verdict(true));
        }
        if h.shutting_down {
            let i = choose|i: int| 0 <= i < rest.len() && #[trigger] rest[i] is Signal;
            assert(events[i] is Signal);
        }
        assert(events[events.len() - 1] == events.last());
    }
}

/// How many reads of a shutdown were made.
pub open spec fn reads_made(m: ShutdownModel, events: Seq<ShutdownEvent>) -> nat
    decreases events.len(),
{
    if events.len() == 0 {
        0
    } else {
        let before = shutdown_run(m, events.drop_last());
        reads_made(m, events.drop_last()) + if before.phase is Reading && events.last() is Read {
            1nat
        } else {
            0
        }
    }
}

/// How often the image of a shutdown was held.
pub open spec fn holds_made(m: ShutdownModel, events: Seq<ShutdownEvent>) -> nat
    decreases events.len(),
{
    if events.len() == 0 {
        0
    } else {
        let before = shutdown_run(m, events.drop_last());
        holds_made(m, events.drop_last()) + if before.phase is Holding && events.last() is Held {
            1nat
        } else {
            0
        }
    }
}

/// A shutdown gives up no sooner than it must: unverified, it ends only after the
/// image was held three times and nine reads have proved nothing; and a read that
/// proves the safe image ends it at once.
pub proof fn a_shutdown_gives_up_late(cycle_ms: u16, events: Seq<ShutdownEvent>)
    ensures
        ({
            let fresh = ShutdownModel {
                cycle_ms,
                round: 0,
                phase: ShutdownPhase::Writing(0),
                readback: Seq::empty(),
                verified: false,
            };
            let m = shutdown_run(fresh, events);
            &&& m.phase is Finished && !m.verified ==> reads_made(fresh, events) == 9
                && holds_made(fresh, events) == 3
            &&& forall|d: Seq<u8>|
                m.phase is Reading && #[trigger] proves_safe(d) ==> shutdown_step(
                    m,
                    ShutdownEvent::Read(Ok(d)),
                ).verified
        }),
{
    lemma_reads_made(cycle_ms, events);
}

proof fn lemma_reads_made(cycle_ms: u16, events: Seq<ShutdownEvent>)
    ensures
        ({
            let fresh = ShutdownModel {
                cycle_ms,
                round: 0,
                phase: ShutdownPhase::Writing(0),
                readback: Seq::empty(),
                verified: false,
            };
            let m = shutdown_run(fresh, events);
            let reads = reads_made(fresh, events);
            let holds = holds_made(fresh, events);
            &&& m.wf()
            &&& match m.phase {
                ShutdownPhase::Writing(_) => reads == m.round * 3 && holds == m.round,
                ShutdownPhase::Holding => reads == m.round * 3 && holds == m.round,
                ShutdownPhase::Reading(n) => reads == m.round * 3 + n && holds == m.round + 1,
                ShutdownPhase::Finished => !m.verified ==> reads == 9 && holds == 3,
            }
        }),
    decreases events.len(),
{
    if events.len() > 0 {
        lemma_reads_made(cycle_ms, events.drop_last());
    }
}

/// The image is held for five cycles, and for a tenth of a second at least, before
/// it is read.
pub proof fn the_safe_image_is_held(m: ShutdownModel)
    requires
        m.phase is Holding,
    ensures
        m.next() matches ShutdownStep::Hold { pause_ms } && pause_ms >= 100 && pause_ms >= 5
            * m.cycle_ms && (pause_ms == 100 || pause_ms == 5 * m.cycle_ms),
{
}

/// What is tried again waits before it: a write for a twentieth of a second, a read
/// for a tenth; the first of each goes out at once.
pub proof fn retries_wait(m: ShutdownModel, n: u8)
    ensures
        m.phase == ShutdownPhase::Writing(n) ==> m.next() == (ShutdownStep::Write {
            pause_ms: if n == 0 {
                0
            } else {
                50
            },
        }),
        m.phase == ShutdownPhase::Reading(n) ==> m.next() == (ShutdownStep::Read {
            pause_ms: if n == 0 {
                0
            } else {
                100
            },
        }),
{
}

} // verus!
