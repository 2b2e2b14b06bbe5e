//! Level bits and pulses on the output image.

use profinet_rs::control::{
    apply_control_cmd, ControlCmd, ControlState, EdgePulse, PULSE_COOLDOWN_TICKS,
};
use profinet_rs::lines::PULSE_TICKS;

#[test]
fn edge_pulse_shape_and_cooldown() {
    let mut p = EdgePulse::default();
    assert!(!p.active());
    p.trigger().unwrap();
    // Exactly PULSE_TICKS active cycles...
    for _ in 0..PULSE_TICKS {
        assert!(p.active());
        assert!(p.trigger().is_err(), "no second pulse while active");
        p.tick(1);
    }
    // ...then the mandatory all-clear gap: the bit is never left set.
    for _ in 0..PULSE_COOLDOWN_TICKS {
        assert!(!p.active());
        assert!(p.trigger().is_err(), "no re-trigger during cooldown");
        p.tick(1);
    }
    // After the cooldown a fresh pulse is allowed again.
    p.trigger().unwrap();
    assert!(p.active());
}

#[test]
fn control_state_effective_byte() {
    // Bit meanings are the application's; here they are just masks.
    const LEVEL: u8 = 0x01;
    const EDGE_A: u8 = 0x02;
    const EDGE_B: u8 = 0x04;

    let mut s = ControlState::default();
    assert_eq!(s.effective(), 0x00, "safe commissioning default is 0x00");
    s.level = LEVEL;
    assert_eq!(s.effective(), LEVEL);
    s.trigger_pulse(EDGE_A).unwrap();
    assert_eq!(s.effective(), LEVEL | EDGE_A);
    // Distinct masks pulse independently.
    s.trigger_pulse(EDGE_B).unwrap();
    assert_eq!(s.effective(), LEVEL | EDGE_A | EDGE_B);
    // Pulses decay on their own; the level bits stay.
    for _ in 0..PULSE_TICKS {
        s.tick(1);
    }
    assert_eq!(s.effective(), LEVEL);
    s.level = 0;
    assert_eq!(s.effective(), 0x00);
}

#[test]
fn apply_control_cmd_refuses_masks_outside_allow_mask() {
    // Nothing is drivable by default, so an unconfigured session commands
    // nothing rather than something.
    let mut s = ControlState::default();
    assert!(!apply_control_cmd(
        ControlCmd::SetLevel {
            mask: 0x01,
            on: true
        },
        &mut s,
        0x00
    ).0);
    assert_eq!(
        s.effective(),
        0x00,
        "refused level must not reach the image"
    );

    // A mask straddling the allow mask is refused WHOLE, never masked down
    // to the permitted subset: a partial command the caller believes
    // succeeded is worse than a refusal.
    let mut s = ControlState::default();
    assert!(!apply_control_cmd(
        ControlCmd::SetLevel {
            mask: 0x06,
            on: true
        },
        &mut s,
        0x02
    ).0);
    assert_eq!(s.effective(), 0x00, "no partial application");

    // Clearing is gated too: the mask, not the direction, is the authority.
    let mut s = ControlState {
        level: 0x01,
        ..Default::default()
    };
    assert!(!apply_control_cmd(
        ControlCmd::SetLevel {
            mask: 0x01,
            on: false
        },
        &mut s,
        0x00
    ).0);
    assert_eq!(s.effective(), 0x01);

    // Within the allow mask the command applies.
    let mut s = ControlState::default();
    assert!(!apply_control_cmd(
        ControlCmd::SetLevel {
            mask: 0x01,
            on: true
        },
        &mut s,
        0x01
    ).0);
    assert_eq!(s.effective(), 0x01);
    // quit reports true and changes nothing.
    assert!(apply_control_cmd(ControlCmd::Quit, &mut s, 0x01).0);
    assert_eq!(s.effective(), 0x01);
}

#[test]
fn apply_control_cmd_single_pulse_per_mask() {
    let mut s = ControlState::default();
    assert!(!apply_control_cmd(
        ControlCmd::Pulse { mask: 0x02 },
        &mut s,
        0xFF
    ).0);
    assert_eq!(s.effective(), 0x02);
    // A second pulse on the same mask while one is in flight is dropped;
    // the refusal is emitted and the shaper is not restarted.
    assert!(!apply_control_cmd(
        ControlCmd::Pulse { mask: 0x02 },
        &mut s,
        0xFF
    ).0);
    let remaining = s
        .pulses
        .iter()
        .find(|(m, _)| *m == 0x02)
        .map(|(_, p)| p.remaining)
        .unwrap();
    assert_eq!(remaining, PULSE_TICKS);
    // A different mask is independent.
    assert!(!apply_control_cmd(
        ControlCmd::Pulse { mask: 0x04 },
        &mut s,
        0xFF
    ).0);
    assert_eq!(s.effective(), 0x06);
}

#[test]
fn edge_pulse_counts_elapsed_periods_not_loop_passes() {
    // A blocking acyclic read stalls the command loop, but the controller
    // keeps sending the last written byte every cycle: the bit is on the
    // wire for that whole time. Advancing by the elapsed period count is
    // what keeps a pulse the length it was asked to be.
    let mut p = EdgePulse::default();
    p.trigger().unwrap();
    p.tick(PULSE_TICKS);
    assert!(
        !p.active(),
        "the pulse ends after its ticks, however few loop passes"
    );
    assert!(p.trigger().is_err(), "cooldown still owed");
    p.tick(PULSE_COOLDOWN_TICKS);
    p.trigger().unwrap();

    // A single huge jump must not consume the next pulse's cooldown or
    // wrap the counters.
    let mut q = EdgePulse::default();
    q.trigger().unwrap();
    q.tick(u32::MAX);
    assert!(!q.active());
    q.trigger().expect("cooldown elapsed within the same jump");
    assert!(q.active());
}

#[test]
fn refusals_say_why() {
    let mut s = ControlState::default();
    let (quit, line) = apply_control_cmd(ControlCmd::Pulse { mask: 0x0C }, &mut s, 0x04);
    assert!(!quit);
    assert_eq!(
        line.unwrap(),
        "{\"type\":\"refused\",\"cmd\":\"pulse\",\"mask\":12,\"reason\":\"mask has bits outside --allow-mask (0x04)\"}"
    );
    apply_control_cmd(ControlCmd::Pulse { mask: 0x04 }, &mut s, 0x04);
    let (_, line) = apply_control_cmd(ControlCmd::Pulse { mask: 0x04 }, &mut s, 0x04);
    assert_eq!(
        line.unwrap(),
        "{\"type\":\"refused\",\"cmd\":\"pulse\",\"mask\":4,\"reason\":\"pulse already active\"}"
    );
    s.tick(4);
    let (_, line) = apply_control_cmd(ControlCmd::Pulse { mask: 0x04 }, &mut s, 0x04);
    assert_eq!(
        line.unwrap(),
        "{\"type\":\"refused\",\"cmd\":\"pulse\",\"mask\":4,\"reason\":\"pulse cooling down\"}"
    );
    let (_, line) = apply_control_cmd(ControlCmd::Keepalive, &mut s, 0x04);
    assert_eq!(line.unwrap(), "{\"type\":\"ack\",\"cmd\":\"keepalive\"}");
    let (_, line) = apply_control_cmd(ControlCmd::SetLevel { mask: 4, on: true }, &mut s, 0x06);
    assert_eq!(
        line.unwrap(),
        "{\"type\":\"ack\",\"cmd\":\"set_level\",\"mask\":4,\"on\":true,\"level\":4}"
    );
}

#[test]
fn no_sequence_of_commands_leaves_the_mask() {
    let mut s = ControlState::default();
    for mask in 0..=255u8 {
        apply_control_cmd(ControlCmd::SetLevel { mask, on: true }, &mut s, 0x35);
        apply_control_cmd(ControlCmd::Pulse { mask }, &mut s, 0x35);
        assert_eq!(s.effective() & !0x35, 0);
        s.tick(1);
    }
    s.tick(100);
    assert_eq!(s.effective(), s.level);
}
