//! What a caller and a device see of a serving session and of a takeover: what is
//! asked of the device, what is answered, and when a session ends by itself.

use vstd::prelude::*;
use crate::connect::slots_fit;
use crate::cyclic::CyclicState;
use crate::gsdml::IoSlot;
use crate::json::{number_field, object_text, text_field, Field};
use crate::request_lines::{
    commands, in_quotes, states, states_place, stated_pings_and_quits_are_taken,
    stated_requests_are_taken,
};
use crate::serve::{tries_again, RequestModel, SessionModel, StopModel};
use crate::takeover::{TakeoverModel, TakeoverPhase, TakeoverStep};
use crate::text::{contains_text, dec, hex_text};
use crate::tier::{first_input, first_output, slot_at, verified_input};
use crate::transport::ConnectResult;

verus! {

/// A read or write that a line states is asked of the device with the very index,
/// slot, subslot, length and data that the line states, and nothing is said yet; a
/// read-only session asks no write, and answers at once.
pub proof fn requests_are_passed_on(
    m: SessionModel,
    line: Seq<char>,
    id: u64,
    index: u16,
    slot: u16,
    subslot: u16,
    len: u32,
    data: Seq<u8>,
    host_us: u128,
)
    requires
        states(line, "id"@, dec(id as nat)),
        states_place(line, index, slot, subslot),
    ensures
        ({
            let step = m.line_step(line, host_us).1;
            &&& commands(line, "read"@) && states(line, "len"@, dec(len as nat)) ==> step.request
                == Some(RequestModel::Read { id, index, slot, subslot, len }) && step.line is None
                && step.stop is None
            &&& commands(line, "write"@) && states(line, "hex"@, in_quotes(hex_text(data)))
                && !m.read_only ==> step.request == Some(
                RequestModel::Write { id, index, slot, subslot, data },
            ) && step.line is None && step.stop is None
            &&& commands(line, "write"@) && states(line, "hex"@, in_quotes(hex_text(data)))
                && m.read_only ==> step.request is None && step.line is Some && step.stop is None
            &&& step.request is Some ==> m.line_step(line, host_us).0 == m.control
        }),
{
    stated_requests_are_taken(line, id, index, slot, subslot, len, data);
}

/// The fields of a line say how a request ended.
pub open spec fn tells(line: Option<Seq<char>>, id: u64, kind: Seq<char>, host_us: u128, more: Seq<
    Field,
>) -> bool {
    line == Some(
        object_text(
            seq![
                number_field("id"@, id as int),
                text_field("type"@, kind),
                number_field("host_us"@, host_us as int),
            ] + more,
        ),
    )
}

/// The answer to a read gives every byte of the record in hexadecimal, and its
/// length; that to a write says that it worked; and where the request got no
/// answer, the message says why.
pub proof fn answers_give_the_data(
    m: SessionModel,
    id: u64,
    index: u16,
    slot: u16,
    subslot: u16,
    len: u32,
    written: Seq<u8>,
    d: Seq<u8>,
    message: Seq<char>,
    at: u128,
)
    requires
        d.len() <= usize::MAX,
    ensures
        tells(
            m.answer_step(RequestModel::Read { id, index, slot, subslot, len }, Ok(d), at).line,
            id,
            "data"@,
            at,
            seq![number_field("len"@, d.len() as int), text_field("hex"@, hex_text(d))],
        ),
        tells(
            m.answer_step(
                RequestModel::Write { id, index, slot, subslot, data: written },
                Ok(d),
                at,
            ).line,
            id,
            "ok"@,
            at,
            Seq::empty(),
        ),
        m.answer_step(RequestModel::Keepalive, Ok(d), at).line is None,
        m.answer_step(RequestModel::Keepalive, Err(message), at).line is None,
        !contains_text(message, "PNIO error status"@) ==> m.answer_step(
            RequestModel::Keepalive,
            Err(message),
            at,
        ).stop == Some(StopModel::ArLost(message)),
{
    let head = seq![
        number_field("id"@, id as int),
        text_field("type"@, "data"@),
        number_field("host_us"@, at as int),
    ];
    let more = seq![number_field("len"@, d.len() as int), text_field("hex"@, hex_text(d))];
    assert(head + more =~= crate::lines::data_fields(id, at, d.len() as usize, hex_text(d)));
    let done = seq![
        number_field("id"@, id as int),
        text_field("type"@, "ok"@),
        number_field("host_us"@, at as int),
    ];
    assert(done + Seq::<Field>::empty() =~= crate::lines::ok_fields(id, at));
}

/// A `ping` is answered at once with its id and the time of the host, and a `quit`
/// with its id, and then the session ends.
pub proof fn pings_and_quits_are_answered(m: SessionModel, line: Seq<char>, id: u64, host_us: u128)
    requires
        states(line, "id"@, dec(id as nat)),
    ensures
        ({
            let step = m.line_step(line, host_us).1;
            &&& commands(line, "ping"@) ==> tells(step.line, id, "pong"@, host_us, Seq::empty())
                && step.stop is None && step.request is None
            &&& commands(line, "quit"@) ==> step.line == Some(
                object_text(
                    seq![number_field("id"@, id as int), text_field("type"@, "bye"@)],
                ),
            ) && step.stop == Some(StopModel::Reason("quit"@)) && step.request is None
        }),
{
    stated_pings_and_quits_are_taken(line, id);
    let pong = seq![
        number_field("id"@, id as int),
        text_field("type"@, "pong"@),
        number_field("host_us"@, host_us as int),
    ];
    assert(pong + Seq::<Field>::empty() =~= crate::lines::pong_fields(id, host_us));
    assert(seq![number_field("id"@, id as int), text_field("type"@, "bye"@)]
        =~= crate::lines::bye_fields(id));
}

/// A session ends by itself when it is told to, when its time is up, or when the
/// exchange is no longer sound, and never else.
pub proof fn sessions_end_in_time(m: SessionModel, shutdown: bool, state: Option<CyclicState>, now_us: u64)
    requires
        m.start_us <= now_us,
    ensures
        ({
            let stop = m.stop_before(shutdown, state, now_us);
            let up = m.seconds > 0 && now_us - m.start_us >= m.seconds * 1_000_000;
            let unsound = state matches Some(s) && (s is Fault || s is Stopped);
            &&& stop is Some <==> shutdown || up || unsound
            &&& shutdown ==> stop == Some("signal"@)
            &&& !shutdown && up ==> stop == Some("timer"@)
        }),
{
    let passed = (now_us - m.start_us) as int;
    assert(passed / 1_000_000 >= m.seconds <==> passed >= m.seconds * 1_000_000) by (nonlinear_arith)
        requires
            passed >= 0,
            m.seconds >= 0,
    ;
}

/// An idle session without an exchange keeps its AR from lapsing as soon as nothing
/// was said for the interval, and never where it has none; the byte that the
/// commands ask for is driven whenever it is not yet; and a level that is held in
/// silence for five seconds ends an exchange, and nothing does before that.
pub proof fn silence_is_noticed(m: SessionModel, sent: u64, received: u64, missed: u64, now_us: u64)
    requires
        m.last_traffic_us <= now_us,
        m.last_activity_us <= now_us,
        m.last_tick_us <= now_us,
    ensures
        m.keepalive_due(now_us) <==> !m.cyclic && m.keepalive_ms > 0 && now_us
            - m.last_traffic_us >= m.keepalive_ms * 1000,
        m.deadman(now_us) <==> m.control.level != 0 && now_us - m.last_activity_us >= 5_000_000,
        m.to_drive() == if m.cyclic && m.control.byte() != m.driven_byte {
            Some(m.control.byte())
        } else {
            None::<u8>
        },
        ({
            let stop = m.turn_step(sent, received, missed, now_us).1.stop;
            &&& stop is Some ==> m.cyclic && now_us - m.last_activity_us >= 5_000_000 && stop
                == Some(StopModel::Reason("deadman"@))
            &&& m.cyclic && m.control.level != 0 && now_us - m.last_activity_us >= 5_000_000
                && m.advanced(now_us).control.level == m.control.level ==> stop is Some
        }),
{
}

/// While an exchange runs, its counters are told once a second, and no more often.
pub proof fn the_status_is_told_every_second(m: SessionModel, sent: u64, received: u64, missed: u64, now_us: u64)
    requires
        m.cyclic,
        m.last_status_us <= now_us,
        m.last_activity_us <= now_us,
        m.control.level == 0,
        m.advanced(now_us).control.level == 0,
    ensures
        ({
            let (n, step) = m.turn_step(sent, received, missed, now_us);
            &&& now_us - m.last_status_us < 1_000_000 ==> step.line is None && n.last_status_us
                == m.last_status_us
            &&& now_us - m.last_status_us >= 1_000_000 ==> n.last_status_us == now_us && step.line
                == Some(
                object_text(
                    seq![
                        text_field("type"@, "status"@),
                        number_field("tx"@, sent as int),
                        number_field("rx"@, received as int),
                        number_field("missed"@, missed as int),
                        number_field("out_byte"@, n.control.byte() as int),
                    ],
                ),
            )
            &&& step.request is None && step.stop is None
        }),
{
    let n = m.turn_step(sent, received, missed, now_us).0;
    assert(crate::lines::status_fields(sent, received, missed, n.control.byte()) =~= seq![
        text_field("type"@, "status"@),
        number_field("tx"@, sent as int),
        number_field("rx"@, received as int),
        number_field("missed"@, missed as int),
        number_field("out_byte"@, n.control.byte() as int),
    ]);
}

proof fn lemma_first_input(s: Seq<IoSlot>, from: int)
    requires
        0 <= from <= s.len(),
    ensures
        match first_input(s, from) {
            Some(o) => exists|i: int|
                from <= i < s.len() && #[trigger] s[i] == o && o.input_length > 0 && forall|j: int|
                    from <= j < i ==> (#[trigger] s[j]).input_length == 0,
            None => forall|j: int| from <= j < s.len() ==> (#[trigger] s[j]).input_length == 0,
        },
    decreases s.len() - from,
{
    if from < s.len() {
        lemma_first_input(s, from + 1);
        if s[from].input_length > 0 {
            assert(s[from] == first_input(s, from)->0);
        }
    }
}

proof fn lemma_first_output(s: Seq<IoSlot>, from: int)
    requires
        0 <= from <= s.len(),
    ensures
        match first_output(s, from) {
            Some(o) => exists|i: int|
                from <= i < s.len() && #[trigger] s[i] == o && o.output_length > 0 && forall|j: int|
                    from <= j < i ==> (#[trigger] s[j]).output_length == 0,
            None => forall|j: int| from <= j < s.len() ==> (#[trigger] s[j]).output_length == 0,
        },
    decreases s.len() - from,
{
    if from < s.len() {
        lemma_first_output(s, from + 1);
        if s[from].output_length > 0 {
            assert(s[from] == first_output(s, from)->0);
        }
    }
}

proof fn lemma_slot_at(s: Seq<IoSlot>, slot: u16, subslot: u16, from: int)
    requires
        0 <= from <= s.len(),
    ensures
        match slot_at(s, slot, subslot, from) {
            Some(o) => exists|i: int|
                from <= i < s.len() && #[trigger] s[i] == o && o.slot == slot && o.subslot == subslot
                    && forall|j: int|
                    from <= j < i ==> !((#[trigger] s[j]).slot == slot && s[j].subslot == subslot),
            None => forall|j: int|
                from <= j < s.len() ==> !((#[trigger] s[j]).slot == slot && s[j].subslot == subslot),
        },
    decreases s.len() - from,
{
    if from < s.len() {
        lemma_slot_at(s, slot, subslot, from + 1);
        if s[from].slot == slot && s[from].subslot == subslot {
            assert(s[from] == slot_at(s, slot, subslot, from)->0);
        }
    }
}

/// No submodule before the `k`-th stands at the same place.
pub open spec fn leads_at(s: Seq<IoSlot>, k: int) -> bool {
    forall|j: int|
        0 <= j < k ==> !((#[trigger] s[j]).slot == s[k].slot && s[j].subslot == s[k].subslot)
}

/// The input image that a takeover verifies is the one that was chosen, with the
/// length that the description gives it, or else that of the first submodule that
/// has inputs; a place that is not described, and a description without inputs, are
/// refused.
pub proof fn the_verified_input_is_described(s: Seq<IoSlot>, path: Seq<char>, k: int)
    requires
        0 <= k < s.len(),
        leads_at(s, k),
    ensures
        verified_input(s, Some((s[k].slot, s[k].subslot)), path) == Ok::<
            (u16, u16, usize),
            Seq<char>,
        >((s[k].slot, s[k].subslot, s[k].input_length)),
        s[k].input_length > 0 && (forall|j: int|
            0 <= j < k ==> (#[trigger] s[j]).input_length == 0) ==> verified_input(s, None, path)
            == Ok::<(u16, u16, usize), Seq<char>>((s[k].slot, s[k].subslot, s[k].input_length)),
        (forall|j: int| 0 <= j < s.len() ==> (#[trigger] s[j]).input_length == 0)
            ==> verified_input(s, None, path) is Err,
{
    lemma_first_input(s, 0);
    lemma_slot_at(s, s[k].slot, s[k].subslot, 0);
    let found = slot_at(s, s[k].slot, s[k].subslot, 0);
    assert(s[k].slot == s[k].slot && s[k].subslot == s[k].subslot);
    assert(found is Some);
    let i = choose|i: int|
        0 <= i < s.len() && #[trigger] s[i] == found->0 && (found->0).slot == s[k].slot && (
        found->0).subslot == s[k].subslot && forall|j: int|
            0 <= j < i ==> !((#[trigger] s[j]).slot == s[k].slot && s[j].subslot == s[k].subslot);
    assert(i == k);
    if s[k].input_length > 0 && forall|j: int| 0 <= j < k ==> (#[trigger] s[j]).input_length == 0 {
        let first = first_input(s, 0);
        assert(first is Some);
        let f = choose|f: int|
            0 <= f < s.len() && #[trigger] s[f] == first->0 && (first->0).input_length > 0
                && forall|j: int| 0 <= j < f ==> (#[trigger] s[j]).input_length == 0;
        assert(f == k);
    }
}

/// Once the slots are laid out, a takeover reads the verified input of those slots
/// next, and later probes the outputs of the first submodule that has any.
pub proof fn a_takeover_asks_its_own_slots(t: TakeoverModel, slots: Seq<IoSlot>, i: int, o: int)
    requires
        slots_fit(slots),
        0 <= i < slots.len(),
        0 <= o < slots.len(),
        t.wanted == Some((slots[i].slot, slots[i].subslot)),
        leads_at(slots, i),
        slots[o].output_length > 0,
        forall|j: int| 0 <= j < o ==> (#[trigger] slots[j]).output_length == 0,
    ensures
        ({
            let n = t.after_layout(Ok(slots)).0;
            &&& n.io_slots == slots
            &&& n.declared == slots[i].input_length
            &&& n.next() == TakeoverStep::ReadInput {
                slot: slots[i].slot,
                subslot: slots[i].subslot,
                pause_ms: 30,
            }
            &&& n.at(TakeoverPhase::Probing).next() == TakeoverStep::ProbeOutput {
                slot: slots[o].slot,
                subslot: slots[o].subslot,
            }
        }),
{
    the_verified_input_is_described(slots, t.path, i);
    lemma_first_output(slots, 0);
    let first = first_output(slots, 0);
    assert(first is Some);
    let f = choose|f: int|
        0 <= f < slots.len() && #[trigger] slots[f] == first->0 && (first->0).output_length > 0
            && forall|j: int| 0 <= j < f ==> (#[trigger] slots[j]).output_length == 0;
    assert(f == o);
}

/// The steps of a takeover follow one another: the slots, the layout, the input
/// image, the probe of the outputs where they are to be driven, the new AR, the end
/// of the parameters, the readiness of the device, and the exchange.
pub proof fn a_takeover_takes_its_steps(t: TakeoverModel, d: Seq<u8>)
    requires
        t.phase matches TakeoverPhase::Reading(n) && n < 4,
        crate::records::input_length(d) == Some(t.declared as nat),
    ensures
        ({
            let n = t.after_input(Ok(d)).0;
            &&& n.input_record == d
            &&& t.commanding ==> n.next() == TakeoverStep::ProbeOutput {
                slot: t.out_slot,
                subslot: t.out_subslot,
            }
            &&& !t.commanding ==> n.next() is Rebind
        }),
        t.at(TakeoverPhase::Discovering).next() is DiscoverSlots,
        t.at(TakeoverPhase::LayingOut).next() is LayOut,
        t.at(TakeoverPhase::Rebinding).next() is Rebind,
        t.at(TakeoverPhase::EndingParameters).next() is EndParameters,
        t.at(TakeoverPhase::AwaitingReady).next() is AwaitReady,
        t.at(TakeoverPhase::Ready).next() is Start,
        t.at(TakeoverPhase::Failed).next() is Stop,
{
}

/// An exchange counts as established only if the device granted one with an output
/// frame id of RT class 1; a takeover then ends the parameters, and else gives the AR
/// back.
pub proof fn an_exchange_must_be_granted(t: TakeoverModel, r: ConnectResult)
    ensures
        ({
            let granted = r.has_cyclic && 0x8000 <= r.output_frame_id && r.output_frame_id < 0xFC00;
            let (n, report) = t.after_connect(Ok(r));
            &&& granted ==> n.next() is EndParameters && n.result == r && report.failure is None
            &&& !granted ==> n.next() is Stop && (report.failure matches Some((release, _))
                && release)
        }),
{
}

/// A description that does not agree with the device, and outputs that somebody else
/// may command, end a takeover and give the AR back.
pub proof fn a_doubtful_takeover_is_refused(t: TakeoverModel, d: Seq<u8>, actual: nat)
    requires
        t.phase matches TakeoverPhase::Reading(n) && n < 4,
        crate::records::input_length(d) == Some(actual),
        actual != t.declared,
    ensures
        t.after_input(Ok(d)).0.next() is Stop,
        t.after_input(Ok(d)).1.failure matches Some((release, _)) && release,
        crate::records::control_byte(d) != Some(0u8) ==> t.at(TakeoverPhase::Probing).after_probe(
            Ok(d),
        ).0.next() is Stop && (t.at(TakeoverPhase::Probing).after_probe(
            Ok(d),
        ).1.failure matches Some((release, _)) && release),
{
}

/// A session turns once per output cycle, or ten times a second without one, and its
/// pulses advance by the cycles that have passed, none lost.
pub proof fn pulses_follow_the_cycles(m: SessionModel, now_us: u64, k: nat)
    requires
        m.last_tick_us <= now_us,
        k <= u32::MAX,
        ({
            let cycle = if m.cycle_ms == 0 {
                100_000
            } else {
                m.cycle_ms * 1000
            };
            k * cycle <= now_us - m.last_tick_us < (k + 1) * cycle
        }),
    ensures
        k > 0 ==> m.advanced(now_us).control == m.control.ticked(k) && m.advanced(
            now_us,
        ).last_tick_us == now_us,
        k == 0 ==> m.advanced(now_us) == m,
{
    let cycle = m.tick_us();
    let passed = (now_us - m.last_tick_us) as int;
    assert(passed / cycle == k) by (nonlinear_arith)
        requires
            cycle > 0,
            k * cycle <= passed < (k + 1) * cycle,
    ;
    if k > 0 {
        assert(passed >= cycle) by (nonlinear_arith)
            requires
                cycle > 0,
                k >= 1,
                k * cycle <= passed,
        ;
    } else {
        assert(passed < cycle) by (nonlinear_arith)
            requires
                k == 0,
                passed < (k + 1) * cycle,
        ;
    }
}

/// Only a device that says that it is busy is asked again, and it is asked as often
/// as is allowed in all: with the tries counted from 0, every one but the last of
/// them is followed by another.
pub proof fn a_busy_device_is_asked_again(error: Seq<char>, attempt: u32, limit: u32)
    requires
        attempt < limit,
    ensures
        tries_again(error, attempt, limit) ==> contains_text(error, "DE80C200"@),
        contains_text(error, "DE80C200"@) ==> (tries_again(error, attempt, limit) <==> attempt != limit
            - 1),
{
}

} // verus!
