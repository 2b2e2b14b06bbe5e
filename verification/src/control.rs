//! The command layer over the output image: held level bits and shaped edge
//! pulses, bounded by a mask of what may ever be driven.
//!
//! It transports and fail-safes an output image and does not know what any bit
//! means.

use vstd::prelude::*;
use vstd::string::*;
use crate::json::object_text;
use crate::lines::{
    ack_keepalive_fields, ack_keepalive_line, ack_pulse_fields, ack_pulse_line,
    ack_set_level_fields, ack_set_level_line, refused_cmd_fields, refused_cmd_line, PULSE_TICKS,
};
use crate::text::{hex, push_hex};

verus! {

/// The output image that is safe: all-zero is the conventional fail-safe, and
/// what every exit drives.
pub const SAFE_OUTPUT_BYTE: u8 = 0x00;

/// After a pulse its bits stay clear for this many output cycles, so that a
/// consumer that reacts to a rising edge sees a clean one every time.
pub const PULSE_COOLDOWN_TICKS: u32 = 3;

/// With a level bit held, silence for this long ends the session.
pub const CONTROL_DEADMAN_US: u64 = 5_000_000;

/// A command for the output image.
#[derive(Debug, Clone, Copy, PartialEq, Eq, Structural)]
pub enum ControlCmd {
    /// Hold `mask` set (or clear it) until changed again.
    SetLevel { mask: u8, on: bool },
    /// Drive a shaped rising edge on `mask`: held for [`PULSE_TICKS`] output
    /// cycles, cleared, then a cooldown before the same mask may pulse again.
    Pulse { mask: u8 },
    Keepalive,
    Quit,
}

/// Pulse shaper for one edge bit: at most one pulse in flight, a mandatory
/// all-clear gap before the next, and the bit can never be left set.
#[derive(Debug, Clone, Copy, PartialEq, Eq, Structural)]
pub struct EdgePulse {
    pub remaining: u32,
    pub cooldown: u32,
}

impl Default for EdgePulse {
    fn default() -> (r: EdgePulse)
        ensures
            r == (EdgePulse { remaining: 0, cooldown: 0 }),
    {
        EdgePulse { remaining: 0, cooldown: 0 }
    }
}

/// One output cycle later.
pub open spec fn stepped(p: EdgePulse) -> EdgePulse {
    if p.remaining > 1 {
        EdgePulse { remaining: (p.remaining - 1) as u32, ..p }
    } else if p.remaining == 1 {
        EdgePulse { remaining: 0, cooldown: 3 }
    } else if p.cooldown > 0 {
        EdgePulse { cooldown: (p.cooldown - 1) as u32, ..p }
    } else {
        p
    }
}

/// `n` output cycles later.
pub open spec fn ticked(p: EdgePulse, n: nat) -> EdgePulse
    decreases n,
{
    if n == 0 {
        p
    } else {
        stepped(ticked(p, (n - 1) as nat))
    }
}

impl EdgePulse {
    /// Queue a pulse; refused while one is active or cooling down.
    pub fn trigger(&mut self) -> (r: Result<(), &'static str>)
        ensures
            if old(self).remaining > 0 {
                *final(self) == *old(self) && (r matches Err(e) && e@ == "pulse already active"@)
            } else if old(self).cooldown > 0 {
                *final(self) == *old(self) && (r matches Err(e) && e@ == "pulse cooling down"@)
            } else {
                r is Ok && *final(self) == (EdgePulse { remaining: 3, cooldown: 0 })
            },
    {
        if self.remaining > 0 {
            return Err("pulse already active");
        }
        if self.cooldown > 0 {
            return Err("pulse cooling down");
        }
        self.remaining = PULSE_TICKS;
        Ok(())
    }

    /// Whether the pulse's bits are set now.
    pub fn active(&self) -> (r: bool)
        ensures
            r == (self.remaining > 0),
    {
        self.remaining > 0
    }

    /// Advance by `periods` output cycles.
    ///
    /// Elapsed cycle periods are counted, not loop passes, because the wire
    /// holds the bit: the last written byte keeps being sent every cycle,
    /// whatever the command loop is doing.
    pub fn tick(&mut self, periods: u32)
        ensures
            *final(self) == ticked(*old(self), periods as nat),
    {
        let mut i: u32 = 0;
        while i < periods
            invariant
                i <= periods,
                *self == ticked(*old(self), i as nat),
            decreases periods - i,
        {
            if self.remaining > 0 {
                self.remaining = self.remaining - 1;
                if self.remaining == 0 {
                    self.cooldown = PULSE_COOLDOWN_TICKS;
                }
            } else if self.cooldown > 0 {
                self.cooldown = self.cooldown - 1;
            } else {
                proof {
                    lemma_rest_is_stable(*old(self), i as nat, periods as nat);
                }
                return;
            }
            i = i + 1;
        }
    }
}

proof fn lemma_rest_is_stable(p: EdgePulse, m: nat, n: nat)
    requires
        m <= n,
        stepped(ticked(p, m)) == ticked(p, m),
    ensures
        ticked(p, n) == ticked(p, m),
    decreases n,
{
    if m < n {
        lemma_rest_is_stable(p, m, (n - 1) as nat);
    }
}

/// Cycles add up: it does not matter in how many steps they are counted.
pub proof fn ticks_add_up(p: EdgePulse, m: nat, n: nat)
    ensures
        ticked(ticked(p, m), n) == ticked(p, m + n),
    decreases n,
{
    if n > 0 {
        ticks_add_up(p, m, (n - 1) as nat);
    }
}

/// A pulse that was just triggered is active for exactly three cycles, then
/// clear for at least three more, and can be triggered again after them.
pub proof fn a_pulse_has_its_shape(n: nat)
    ensures
        ({
            let p = ticked(EdgePulse { remaining: 3, cooldown: 0 }, n);
            &&& n < 3 ==> p.remaining > 0
            &&& 3 <= n < 6 ==> p.remaining == 0 && p.cooldown > 0
            &&& n >= 6 ==> p.remaining == 0 && p.cooldown == 0
        }),
    decreases n,
{
    let p = EdgePulse { remaining: 3, cooldown: 0 };
    assert(ticked(p, 0) == p);
    assert(ticked(p, 1) == stepped(ticked(p, 0)));
    assert(ticked(p, 2) == stepped(ticked(p, 1)));
    assert(ticked(p, 3) == stepped(ticked(p, 2)));
    assert(ticked(p, 4) == stepped(ticked(p, 3)));
    assert(ticked(p, 5) == stepped(ticked(p, 4)));
    assert(ticked(p, 6) == stepped(ticked(p, 5)));
    if n > 6 {
        a_pulse_has_its_shape((n - 1) as nat);
    }
}

/// No pulse is left set: as many cycles as it has left end it.
pub proof fn a_pulse_is_never_left_set(p: EdgePulse, n: nat)
    requires
        n >= p.remaining,
    ensures
        ticked(p, n).remaining == 0,
    decreases n,
{
    lemma_remaining(p, n);
}

proof fn lemma_remaining(p: EdgePulse, n: nat)
    ensures
        ticked(p, n).remaining == if n >= p.remaining {
            0
        } else {
            p.remaining - n
        },
    decreases n,
{
    if n > 0 {
        lemma_remaining(p, (n - 1) as nat);
    }
}

/// The bits of the active ones among the first `n` pulses, on top of `level`.
pub open spec fn driven(level: u8, pulses: Seq<(u8, EdgePulse)>, n: int) -> u8
    decreases n,
{
    if n <= 0 {
        level
    } else if pulses[n - 1].1.remaining > 0 {
        driven(level, pulses, n - 1) | pulses[n - 1].0
    } else {
        driven(level, pulses, n - 1)
    }
}

/// The place of a mask's shaper, or the number of shapers.
pub open spec fn shaper_of(pulses: Seq<(u8, EdgePulse)>, mask: u8, from: int) -> int
    decreases pulses.len() - from,
{
    if from >= pulses.len() {
        pulses.len() as int
    } else if pulses[from].0 == mask {
        from
    } else {
        shaper_of(pulses, mask, from + 1)
    }
}

/// The driven output byte: held level bits plus shaped edge pulses. It starts
/// all-zero, the safe default.
#[derive(Debug)]
pub struct ControlState {
    /// Level bits currently commanded; they persist until changed.
    pub level: u8,
    /// One shaper for each mask that was ever pulsed. Distinct masks pulse
    /// independently.
    pub pulses: Vec<(u8, EdgePulse)>,
}

/// What a [`ControlState`] holds, as mathematical values.
#[verifier::ext_equal]
pub struct ControlModel {
    pub level: u8,
    pub pulses: Seq<(u8, EdgePulse)>,
}

impl View for ControlState {
    type V = ControlModel;

    open spec fn view(&self) -> ControlModel {
        ControlModel { level: self.level, pulses: self.pulses@ }
    }
}

impl Default for ControlState {
    fn default() -> (r: ControlState)
        ensures
            r@ == (ControlModel { level: 0, pulses: Seq::empty() }),
    {
        ControlState { level: 0, pulses: Vec::new() }
    }
}

impl ControlModel {
    /// The byte to drive.
    pub open spec fn byte(self) -> u8 {
        driven(self.level, self.pulses, self.pulses.len() as int)
    }

    /// The shaper of a mask, idle if the mask was never pulsed.
    pub open spec fn shaper(self, mask: u8) -> EdgePulse {
        let i = shaper_of(self.pulses, mask, 0);
        if 0 <= i < self.pulses.len() {
            self.pulses[i].1
        } else {
            EdgePulse { remaining: 0, cooldown: 0 }
        }
    }

    /// Why a mask may not pulse now, if so.
    pub open spec fn pulse_refusal(self, mask: u8) -> Option<Seq<char>> {
        if self.shaper(mask).remaining > 0 {
            Some("pulse already active"@)
        } else if self.shaper(mask).cooldown > 0 {
            Some("pulse cooling down"@)
        } else {
            None
        }
    }

    /// With a pulse on a mask.
    pub open spec fn pulsed(self, mask: u8) -> ControlModel {
        let i = shaper_of(self.pulses, mask, 0);
        let p = EdgePulse { remaining: 3, cooldown: 0 };
        ControlModel {
            pulses: if 0 <= i < self.pulses.len() {
                self.pulses.update(i, (mask, p))
            } else {
                self.pulses.push((mask, p))
            },
            ..self
        }
    }

    /// With a level set or cleared.
    pub open spec fn levelled(self, mask: u8, on: bool) -> ControlModel {
        ControlModel {
            level: if on {
                self.level | mask
            } else {
                self.level & !mask
            },
            ..self
        }
    }

    /// `n` output cycles later.
    pub open spec fn ticked(self, n: nat) -> ControlModel {
        ControlModel {
            pulses: Seq::new(
                self.pulses.len(),
                |i: int| (self.pulses[i].0, ticked(self.pulses[i].1, n)),
            ),
            ..self
        }
    }
}

impl ControlState {
    /// The byte to drive this cycle: the level bits and every active pulse.
    pub fn effective(&self) -> (r: u8)
        ensures
            r == self@.byte(),
    {
        let mut acc: u8 = self.level;
        let mut i: usize = 0;
        while i < self.pulses.len()
            invariant
                i <= self.pulses@.len(),
                acc == driven(self.level, self.pulses@, i as int),
            decreases self.pulses@.len() - i,
        {
            if self.pulses[i].1.active() {
                acc = acc | self.pulses[i].0;
            }
            i = i + 1;
        }
        acc
    }

    /// Queue a shaped pulse on `mask`, reusing that mask's shaper so that its
    /// cooldown is honoured across repeats.
    pub fn trigger_pulse(&mut self, mask: u8) -> (r: Result<(), &'static str>)
        ensures
            match old(self)@.pulse_refusal(mask) {
                Some(m) => final(self)@ == old(self)@ && (r matches Err(e) && e@ == m),
                None => r is Ok && final(self)@ == old(self)@.pulsed(mask),
            },
    {
        let mut i: usize = 0;
        while i < self.pulses.len()
            invariant
                i <= self.pulses@.len(),
                *self == *old(self),
                shaper_of(self.pulses@, mask, i as int) == shaper_of(self.pulses@, mask, 0),
            decreases self.pulses@.len() - i,
        {
            if self.pulses[i].0 == mask {
                let mut pulse = self.pulses[i].1;
                return match pulse.trigger() {
                    Ok(_) => {
                        self.pulses.set(i, (mask, pulse));
                        Ok(())
                    },
                    Err(e) => Err(e),
                };
            }
            i = i + 1;
        }
        self.pulses.push((mask, EdgePulse { remaining: PULSE_TICKS, cooldown: 0 }));
        Ok(())
    }

    /// Advance every pulse shaper by `periods` output cycles.
    pub fn tick(&mut self, periods: u32)
        ensures
            final(self)@ == old(self)@.ticked(periods as nat),
    {
        let n: usize = self.pulses.len();
        let ghost want = old(self)@.ticked(periods as nat);
        let mut i: usize = 0;
        while i < n
            invariant
                n == self.pulses@.len() == old(self).pulses@.len(),
                i <= n,
                self.level == old(self).level,
                want == old(self)@.ticked(periods as nat),
                forall|j: int| 0 <= j < i ==> self.pulses@[j] == want.pulses[j],
                forall|j: int| i <= j < n ==> self.pulses@[j] == old(self).pulses@[j],
            decreases n - i,
        {
            let (mask, before) = self.pulses[i];
            let mut pulse = before;
            pulse.tick(periods);
            self.pulses.set(i, (mask, pulse));
            i = i + 1;
        }
        assert(self@ =~= want);
    }
}

/// A mask has bits that may not be driven.
pub open spec fn outside(mask: u8, allow_mask: u8) -> bool {
    mask & !allow_mask != 0
}

/// The reason for refusing a mask.
pub open spec fn mask_refusal(allow_mask: u8) -> Seq<char> {
    "mask has bits outside --allow-mask (0x"@ + hex(allow_mask as nat, 2, false) + ")"@
}

/// What a command leads to: the state behind it and the line to write, if any.
pub open spec fn applied(cmd: ControlCmd, s: ControlModel, allow_mask: u8) -> (
    ControlModel,
    Option<Seq<char>>,
) {
    match cmd {
        ControlCmd::SetLevel { mask, on } => if outside(mask, allow_mask) {
            (
                s,
                Some(
                    object_text(
                        refused_cmd_fields("set_level"@, mask, mask_refusal(allow_mask)),
                    ),
                ),
            )
        } else {
            let t = s.levelled(mask, on);
            (t, Some(object_text(ack_set_level_fields(mask, on, t.level))))
        },
        ControlCmd::Pulse { mask } => if outside(mask, allow_mask) {
            (
                s,
                Some(object_text(refused_cmd_fields("pulse"@, mask, mask_refusal(allow_mask)))),
            )
        } else {
            match s.pulse_refusal(mask) {
                Some(m) => (s, Some(object_text(refused_cmd_fields("pulse"@, mask, m)))),
                None => (s.pulsed(mask), Some(object_text(ack_pulse_fields(mask)))),
            }
        },
        ControlCmd::Keepalive => (s, Some(object_text(ack_keepalive_fields()))),
        ControlCmd::Quit => (s, None),
    }
}

/// Apply a command to the state. Gives whether it was `quit`, and the line to
/// write: an acknowledgment or a refusal.
///
/// `allow_mask` is the only authority over what may ever be driven: a command
/// that touches any bit outside it is refused whole, never masked down to the
/// permitted part, which the caller would take for success.
pub fn apply_control_cmd(cmd: ControlCmd, state: &mut ControlState, allow_mask: u8) -> (r: (
    bool,
    Option<String>,
))
    ensures
        r.0 == (cmd is Quit),
        ({
            let (s, line) = applied(cmd, old(state)@, allow_mask);
            &&& final(state)@ == s
            &&& match line {
                Some(t) => r.1 matches Some(l) && l@ == t,
                None => r.1 is None,
            }
        }),
{
    match cmd {
        ControlCmd::SetLevel { mask, on } => {
            if mask & !allow_mask != 0 {
                return (false, Some(refused_mask("set_level", mask, allow_mask)));
            }
            if on {
                state.level = state.level | mask;
            } else {
                state.level = state.level & !mask;
            }
            (false, Some(ack_set_level_line(mask, on, state.level)))
        },
        ControlCmd::Pulse { mask } => {
            if mask & !allow_mask != 0 {
                return (false, Some(refused_mask("pulse", mask, allow_mask)));
            }
            match state.trigger_pulse(mask) {
                Ok(_) => (false, Some(ack_pulse_line(mask))),
                Err(reason) => (false, Some(refused_cmd_line("pulse", mask, reason))),
            }
        },
        ControlCmd::Keepalive => (false, Some(ack_keepalive_line())),
        ControlCmd::Quit => (true, None),
    }
}

fn refused_mask(cmd: &str, mask: u8, allow_mask: u8) -> (r: String)
    ensures
        r@ == object_text(refused_cmd_fields(cmd@, mask, mask_refusal(allow_mask))),
{
    let mut reason = "mask has bits outside --allow-mask (0x".to_owned();
    push_hex(&mut reason, allow_mask as u64, 2, false);
    reason.append(")");
    refused_cmd_line(cmd, mask, reason.as_str())
}

/// No bit outside the mask is held, and no pulse has one.
pub open spec fn within(s: ControlModel, allow_mask: u8) -> bool {
    &&& !outside(s.level, allow_mask)
    &&& forall|i: int|
        0 <= i < s.pulses.len() ==> !outside((#[trigger] s.pulses[i]).0, allow_mask)
}

proof fn lemma_union_within(a: u8, b: u8, allow: u8)
    requires
        a & !allow == 0,
        b & !allow == 0,
    ensures
        (a | b) & !allow == 0,
{
    assert((a | b) & !allow == 0) by (bit_vector)
        requires
            a & !allow == 0,
            b & !allow == 0,
    ;
}

proof fn lemma_cleared_within(a: u8, b: u8, allow: u8)
    requires
        a & !allow == 0,
    ensures
        (a & !b) & !allow == 0,
{
    assert((a & !b) & !allow == 0) by (bit_vector)
        requires
            a & !allow == 0,
    ;
}

proof fn lemma_shaper_place(pulses: Seq<(u8, EdgePulse)>, mask: u8, from: int)
    requires
        0 <= from <= pulses.len(),
    ensures
        from <= shaper_of(pulses, mask, from) <= pulses.len(),
        shaper_of(pulses, mask, from) < pulses.len() ==> pulses[shaper_of(
            pulses,
            mask,
            from,
        )].0 == mask,
    decreases pulses.len() - from,
{
    if from < pulses.len() && pulses[from].0 != mask {
        lemma_shaper_place(pulses, mask, from + 1);
    }
}

proof fn lemma_driven_within(level: u8, pulses: Seq<(u8, EdgePulse)>, n: int, allow_mask: u8)
    requires
        0 <= n <= pulses.len(),
        !outside(level, allow_mask),
        forall|i: int|
            0 <= i < pulses.len() ==> !outside((#[trigger] pulses[i]).0, allow_mask),
    ensures
        !outside(driven(level, pulses, n), allow_mask),
    decreases n,
{
    if n > 0 {
        lemma_driven_within(level, pulses, n - 1, allow_mask);
        lemma_union_within(
            driven(level, pulses, n - 1),
            pulses[n - 1].0,
            allow_mask,
        );
    }
}

/// Whatever commands arrive and however much time passes, no bit outside the
/// allow mask is ever driven: the first state drives none, no command and no
/// time leads to one that does, and the byte driven lies within the mask.
pub proof fn only_allowed_bits_are_driven(s: ControlModel, cmd: ControlCmd, n: nat, allow_mask: u8)
    requires
        within(s, allow_mask),
    ensures
        within(ControlModel { level: 0, pulses: Seq::empty() }, allow_mask),
        within(applied(cmd, s, allow_mask).0, allow_mask),
        within(s.ticked(n), allow_mask),
        !outside(s.byte(), allow_mask),
{
    assert(0u8 & !allow_mask == 0) by (bit_vector);
    lemma_driven_within(s.level, s.pulses, s.pulses.len() as int, allow_mask);
    match cmd {
        ControlCmd::SetLevel { mask, on } => {
            if !outside(mask, allow_mask) {
                lemma_union_within(s.level, mask, allow_mask);
            }
            lemma_cleared_within(s.level, mask, allow_mask);
        },
        ControlCmd::Pulse { mask } => {
            lemma_shaper_place(s.pulses, mask, 0);
        },
        _ => {},
    }
}

/// A command that touches a bit outside the mask is refused whole: the state
/// is as before.
pub proof fn a_refused_mask_changes_nothing(s: ControlModel, mask: u8, on: bool, allow_mask: u8)
    requires
        outside(mask, allow_mask),
    ensures
        applied(ControlCmd::SetLevel { mask, on }, s, allow_mask).0 == s,
        applied(ControlCmd::Pulse { mask }, s, allow_mask).0 == s,
{
}

/// With an allow mask of 0, nothing is ever driven.
pub proof fn an_empty_mask_drives_nothing(s: ControlModel)
    requires
        within(s, 0),
    ensures
        s.byte() == 0,
{
    only_allowed_bits_are_driven(s, ControlCmd::Quit, 0, 0);
    let b = s.byte();
    assert(b == 0) by (bit_vector)
        requires
            b & !0u8 == 0,
    ;
}

/// Pulses decay on their own, the level stays: with enough cycles the byte
/// driven is the level.
pub proof fn pulses_decay_to_the_level(s: ControlModel, n: nat)
    requires
        forall|i: int| 0 <= i < s.pulses.len() ==> (#[trigger] s.pulses[i]).1.remaining <= n,
    ensures
        s.ticked(n).level == s.level,
        s.ticked(n).byte() == s.level,
{
    lemma_decay(s, n, s.pulses.len() as int);
}

proof fn lemma_decay(s: ControlModel, n: nat, k: int)
    requires
        0 <= k <= s.pulses.len(),
        forall|i: int| 0 <= i < s.pulses.len() ==> (#[trigger] s.pulses[i]).1.remaining <= n,
    ensures
        driven(s.level, s.ticked(n).pulses, k) == s.level,
    decreases k,
{
    if k > 0 {
        lemma_decay(s, n, k - 1);
        a_pulse_is_never_left_set(s.pulses[k - 1].1, n);
    }
}

/// A bit is driven exactly if it is held by the level or by a pulse that is active.
pub proof fn driven_bits_are_held_or_pulsed(s: ControlModel, bit: u8)
    ensures
        s.byte() & bit != 0 <==> s.level & bit != 0 || exists|i: int|
            0 <= i < s.pulses.len() && (#[trigger] s.pulses[i]).1.remaining > 0 && s.pulses[i].0 & bit
                != 0,
{
    lemma_driven_bits(s.level, s.pulses, s.pulses.len() as int, bit);
}

proof fn lemma_driven_bits(level: u8, pulses: Seq<(u8, EdgePulse)>, n: int, bit: u8)
    requires
        0 <= n <= pulses.len(),
    ensures
        driven(level, pulses, n) & bit != 0 <==> level & bit != 0 || exists|i: int|
            0 <= i < n && (#[trigger] pulses[i]).1.remaining > 0 && pulses[i].0 & bit != 0,
    decreases n,
{
    if n > 0 {
        lemma_driven_bits(level, pulses, n - 1, bit);
        let a = driven(level, pulses, n - 1);
        let m = pulses[n - 1].0;
        assert((a | m) & bit != 0 <==> a & bit != 0 || m & bit != 0) by (bit_vector);
    }
}

/// Setting a level sets the bits of its mask, clearing it clears them, and every
/// other bit stays as it is; a pulse leaves the level alone and makes its own mask
/// active, whatever the others do.
pub proof fn commands_touch_their_own_bits(s: ControlModel, mask: u8, other: u8)
    requires
        other != mask,
    ensures
        s.levelled(mask, true).level & mask == mask,
        s.levelled(mask, false).level & mask == 0,
        s.levelled(mask, true).level & !mask == s.level & !mask,
        s.levelled(mask, false).level & !mask == s.level & !mask,
        s.levelled(mask, true).pulses == s.pulses && s.levelled(mask, false).pulses == s.pulses,
        s.pulsed(mask).level == s.level,
        s.pulsed(mask).shaper(mask) == (EdgePulse { remaining: 3, cooldown: 0 }),
        s.pulsed(mask).shaper(other) == s.shaper(other),
        s.pulsed(mask).byte() & mask == mask,
{
    let l = s.level;
    assert((l | mask) & mask == mask) by (bit_vector);
    assert((l & !mask) & mask == 0) by (bit_vector);
    assert((l | mask) & !mask == l & !mask) by (bit_vector);
    assert((l & !mask) & !mask == l & !mask) by (bit_vector);
    let t = s.pulsed(mask);
    let i = shaper_of(s.pulses, mask, 0);
    lemma_shaper_at(s.pulses, mask, 0);
    lemma_shaper_at(s.pulses, other, 0);
    lemma_shaper_at(t.pulses, mask, 0);
    lemma_shaper_at(t.pulses, other, 0);
    let k = shaper_of(t.pulses, mask, 0);
    assert(t.pulses[i] == (mask, EdgePulse { remaining: 3, cooldown: 0 }));
    assert(k == i) by {
        if k < i {
            assert(t.pulses[k] == s.pulses[k]);
        }
    }
    let a = shaper_of(s.pulses, other, 0);
    let b = shaper_of(t.pulses, other, 0);
    assert(0 <= a < s.pulses.len() ==> t.pulses[a] == s.pulses[a]);
    assert(0 <= b < s.pulses.len() ==> b != i && t.pulses[b] == s.pulses[b]);
    if b >= s.pulses.len() && b < t.pulses.len() {
        assert(b == i);
    }
    lemma_mask_driven(t.level, t.pulses, t.pulses.len() as int, i);
}

proof fn lemma_shaper_at(pulses: Seq<(u8, EdgePulse)>, mask: u8, from: int)
    requires
        0 <= from <= pulses.len(),
    ensures
        ({
            let i = shaper_of(pulses, mask, from);
            &&& from <= i <= pulses.len()
            &&& i < pulses.len() ==> pulses[i].0 == mask
            &&& forall|j: int| from <= j < i ==> (#[trigger] pulses[j]).0 != mask
        }),
    decreases pulses.len() - from,
{
    if from < pulses.len() && pulses[from].0 != mask {
        lemma_shaper_at(pulses, mask, from + 1);
    }
}

proof fn lemma_mask_driven(level: u8, pulses: Seq<(u8, EdgePulse)>, n: int, i: int)
    requires
        0 <= i < n <= pulses.len(),
        pulses[i].1.remaining > 0,
    ensures
        driven(level, pulses, n) & pulses[i].0 == pulses[i].0,
    decreases n,
{
    let a = driven(level, pulses, n - 1);
    let m = pulses[n - 1].0;
    let w = pulses[i].0;
    if i < n - 1 {
        lemma_mask_driven(level, pulses, n - 1, i);
        assert(a & w == w ==> (a | m) & w == w) by (bit_vector);
    } else {
        assert((a | w) & w == w) by (bit_vector);
    }
}

/// A pulse that is allowed is taken up if and only if the one before it on the same
/// mask is over, its pause too; else nothing changes. A level that is allowed is
/// always taken up.
pub proof fn pulses_do_not_overlap(s: ControlModel, mask: u8, on: bool, allow_mask: u8)
    requires
        !outside(mask, allow_mask),
    ensures
        ({
            let p = s.shaper(mask);
            let t = applied(ControlCmd::Pulse { mask }, s, allow_mask).0;
            &&& p.remaining == 0 && p.cooldown == 0 ==> t == s.pulsed(mask)
            &&& p.remaining > 0 || p.cooldown > 0 ==> t == s
        }),
        applied(ControlCmd::SetLevel { mask, on }, s, allow_mask).0 == s.levelled(mask, on),
        applied(ControlCmd::Keepalive, s, allow_mask).0 == s,
{
}

} // verus!
