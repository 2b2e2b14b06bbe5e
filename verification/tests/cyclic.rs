//! Cyclic data exchange.

use profinet_rs::cyclic::{
    output_writes_locked, CyclicController, CyclicEvent, CyclicState, CyclicStats, RxOutcome,
    TxPacer,
};
use profinet_rs::rt::{
    parse_ethernet_frame, IoDataObject, IocrConfig, RtFrame, DATA_STATUS_VALID,
    ETHERTYPE_PROFINET, IOCR_TYPE_INPUT, IOCR_TYPE_OUTPUT,
};

fn iocr(iocr_type: u16, frame_id: u16) -> IocrConfig {
    IocrConfig {
        iocr_type,
        iocr_reference: 1,
        frame_id,
        send_clock_factor: 32,
        reduction_ratio: 32,
        phase: 0,
        watchdog_factor: 3,
        data_length: 40,
        objects: vec![IoDataObject {
            slot: 1,
            subslot: 1,
            frame_offset: 0,
            data_length: 4,
            iops_offset: 4,
            iocs_offset: None,
        }],
    }
}

fn controller() -> CyclicController {
    CyclicController::new(
        "eth0",
        [0x00, 0x11, 0x22, 0x33, 0x44, 0x55],
        [0x02, 0x00, 0x00, 0x00, 0x00, 0x02],
        iocr(IOCR_TYPE_INPUT, 0xC001),
        iocr(IOCR_TYPE_OUTPUT, 0xC000),
        3,
        0,
    )
    .unwrap()
}

/// The slot 1/1 data bytes of the image being sent.
fn send_bytes(c: &CyclicController) -> Vec<u8> {
    c.output_builder.build()[0..4].to_vec()
}

/// An Ethernet+RT input frame from the device.
fn frame_with(counter: u16, valid: bool, payload: Vec<u8>) -> Vec<u8> {
    let rt = RtFrame {
        frame_id: 0xC001,
        cycle_counter: counter,
        data_status: if valid { DATA_STATUS_VALID } else { 0 },
        transfer_status: 0,
        payload,
    };
    let mut f = Vec::new();
    f.extend_from_slice(&[0x00, 0x11, 0x22, 0x33, 0x44, 0x55]); // dst: us
    f.extend_from_slice(&[0x02, 0x00, 0x00, 0x00, 0x00, 0x02]); // src: device
    f.extend_from_slice(&ETHERTYPE_PROFINET.to_be_bytes());
    f.extend_from_slice(&rt.to_bytes());
    f
}

/// An Ethernet+RT input frame from the device, marked valid or invalid.
fn device_frame(valid: bool) -> Vec<u8> {
    frame_with(1, valid, vec![0x80, 0x00, 0x00, 0x00, 0x80])
}

#[test]
fn invalid_frames_do_not_feed_the_watchdog_or_clear_fault() {
    let mut c = controller();
    // Pretend the RX watchdog already escalated.
    c.transition(CyclicState::Fault);
    c.stats.consecutive_timeouts = 3;

    // A device that keeps sending INVALID frames (provider stopped, data
    // BAD/substitute) must not look like a live link: otherwise FAULT
    // never sticks and the control loop's abort-on-FAULT never fires.
    c.process_input_frame(&device_frame(false), 10);
    assert_eq!(
        c.stats.consecutive_timeouts,
        3,
        "an invalid frame must not reset the watchdog"
    );
    assert_eq!(
        c.state(),
        CyclicState::Fault,
        "an invalid frame must not clear FAULT"
    );
    assert_eq!(c.stats.frames_invalid, 1);

    // A valid frame is genuine liveness: watchdog reset + recovery.
    c.process_input_frame(&device_frame(true), 20);
    assert_eq!(c.stats.consecutive_timeouts, 0);
    assert_eq!(c.state(), CyclicState::Running);
}

#[test]
fn stop_image_is_immutable_once_shutdown_started() {
    // Once a shutdown has begun, stop() has already applied the safe
    // output and the STOP frames will carry it. A late
    // write must not be able to put a command byte back into that image,
    // so writes are locked from Stopping onwards — not only once Stopped.
    assert!(
        output_writes_locked(CyclicState::Stopping),
        "the STOP image must be immutable while stopping"
    );
    assert!(output_writes_locked(CyclicState::Fault));
    assert!(output_writes_locked(CyclicState::Stopped));
    // Healthy states still accept commands.
    assert!(!output_writes_locked(CyclicState::Idle));
    assert!(!output_writes_locked(CyclicState::Starting));
    assert!(!output_writes_locked(CyclicState::Running));
}

#[test]
fn stop_safe_forces_safe_bytes_before_stop_frames() {
    let mut c = controller();
    c.set_output_data(1, 1, &[0x01, 0xAA, 0xBB, 0xCC]).unwrap();
    // Promote into the send buffer, as the TX loop would: the unsafe
    // safe byte is now what a plain stop's STOP frames would carry.
    c.swap();
    assert_eq!(send_bytes(&c), [0x01, 0xAA, 0xBB, 0xCC]);
    c.stop_safe(1, 1, &[0x00, 0x00, 0x00, 0x00]);
    assert_eq!(
        send_bytes(&c),
        [0x00; 4],
        "STOP frames must carry the safe image, not the last buffered byte"
    );
}

#[test]
fn drop_path_applies_registered_safe_output() {
    let mut c = controller();
    c.set_output_data(1, 1, &[0x01; 4]).unwrap();
    c.swap();
    c.set_safe_output(1, 1, &[0x00; 4]);
    // stop() is exactly what Drop runs; it must force the registered
    // safe image even on a controller that is not running.
    c.stop();
    assert_eq!(send_bytes(&c), [0x00; 4]);
}

#[test]
fn invalid_frames_do_not_keep_the_watchdog_quiet() {
    // Cycle 32 ms, watchdog 96 ms: the device sends an invalid frame every
    // cycle, and the exchange still faults after three timeouts.
    let mut c = controller();
    c.start(0).unwrap();
    c.transition(CyclicState::Running);
    let mut errors = Vec::new();
    let mut now = 0;
    while c.state() == CyclicState::Running && now < 1_000_000 {
        now += 32_000;
        let (go_on, events) = c.rx_step(RxOutcome::Frame(device_frame(false)), now);
        assert!(go_on);
        for e in events {
            if let CyclicEvent::Error(m) = e {
                errors.push(m);
            }
        }
    }
    assert_eq!(c.state(), CyclicState::Fault);
    assert_eq!(errors, ["Communication lost: 3 consecutive watchdog timeouts"]);
}

#[test]
fn the_watchdog_faults_and_a_valid_frame_recovers() {
    let mut c = controller();
    c.start(0).unwrap();
    c.transition(CyclicState::Running);
    assert_eq!(c.rx_step(RxOutcome::Idle, 96_000).1.len(), 0);
    assert_eq!(c.rx_step(RxOutcome::Idle, 96_001).1.len(), 1);
    assert_eq!(c.rx_step(RxOutcome::Idle, 192_001).1.len(), 0);
    assert_eq!(c.rx_step(RxOutcome::Idle, 192_002).1.len(), 1);
    let (_, events) = c.rx_step(RxOutcome::Idle, 300_000);
    assert_eq!(events.len(), 3);
    assert_eq!(c.state(), CyclicState::Fault);
    assert_eq!(c.stats().frames_missed, 3);
    let (_, events) = c.rx_step(RxOutcome::Frame(device_frame(true)), 310_000);
    assert!(matches!(
        events[0],
        CyclicEvent::StateChange { before: CyclicState::Fault, after: CyclicState::Running }
    ));
    assert!(c.is_running());
}

#[test]
fn inputs_count_only_while_the_device_vouches_for_them() {
    let mut c = controller();
    let events = c.process_input_frame(&frame_with(1, true, vec![1, 2, 3, 4, 0x80]), 10);
    assert!(matches!(
        &events[0],
        CyclicEvent::InputStatus { slot: 1, subslot: 1, iops: 0x80 }
    ));
    assert!(matches!(&events[1], CyclicEvent::Input { data, .. } if data == &[1, 2, 3, 4]));
    assert_eq!(c.get_input_data(1, 1), Some(vec![1, 2, 3, 4]));
    assert!(c.is_input_good(1, 1));
    let events = c.process_input_frame(&frame_with(2, true, vec![5, 6, 7, 8, 0x00]), 20);
    assert_eq!(events.len(), 1);
    assert_eq!(c.get_input_data(1, 1), None);
    assert_eq!(c.get_input_data_allow_bad(1, 1), Some(vec![5, 6, 7, 8]));
    assert_eq!(c.get_input_status(1, 1), Some(0));
    assert_eq!(c.get_input_status(2, 1), None);
    // A payload too short for the object leaves it alone.
    c.process_input_frame(&frame_with(3, true, vec![9, 9, 9, 9]), 30);
    assert_eq!(c.get_input_data_allow_bad(1, 1), Some(vec![5, 6, 7, 8]));
}

#[test]
fn foreign_frames_are_ignored() {
    let mut c = controller();
    let mut other = device_frame(true);
    other[6] = 0x04;
    assert!(c.process_input_frame(&other, 10).is_empty());
    assert_eq!(c.stats().frames_received, 0);
    // A VLAN tag changes nothing.
    let mut tagged = device_frame(true);
    tagged.splice(12..12, [0x81, 0x00, 0xC0, 0x00]);
    c.process_input_frame(&tagged, 10);
    assert_eq!(c.stats().frames_received, 1);
}

#[test]
fn cycle_counters_tell_gaps_duplicates_and_disorder() {
    let mut c = controller();
    c.track_cycle_counter(0xFC00);
    c.track_cycle_counter(0x0000); // next in sequence: the step is 1024
    assert_eq!(c.stats(), CyclicStats::new(0));
    c.track_cycle_counter(0x0000);
    assert_eq!(c.stats().frames_duplicate, 1);
    c.track_cycle_counter(0x0C00);
    assert_eq!(c.stats().frames_missed, 2);
    c.track_cycle_counter(0x0400);
    assert_eq!(c.stats().frames_out_of_order, 1);
    assert_eq!(c.last_rx_cycle_counter(), Some(0x0400));
}

#[test]
fn intervals_are_measured_between_frames() {
    let mut c = controller();
    c.process_input_frame(&device_frame(true), 1_000);
    c.process_input_frame(&device_frame(true), 41_000);
    c.process_input_frame(&device_frame(true), 61_000);
    let s = c.stats();
    assert_eq!(s.rx_interval_count, 2);
    assert_eq!(s.avg_rx_interval_us(), 30_000);
    assert_eq!(s.max_rx_jitter_us, 12_000);
    assert_eq!(s.min_rx_interval_us, 20_000);
    assert_eq!(s.max_rx_interval_us, 40_000);
    assert_eq!(s.avg_cycle_time_us(), 0);
}

#[test]
fn frames_go_out_every_cycle_but_not_in_fault() {
    let mut c = controller();
    c.start(0).unwrap();
    c.transition(CyclicState::Running);
    c.set_output_data(1, 1, &[9, 8, 7, 6]).unwrap();
    let mut pacer = TxPacer::new(0);
    let frame = parse_ethernet_frame(&c.tx_step(&mut pacer, 0).unwrap()).unwrap();
    assert_eq!(frame.frame_id, 0xC000);
    assert_eq!(frame.cycle_counter, 1024);
    assert_eq!(frame.data_status, 0x35);
    assert_eq!(&frame.payload[..5], &[9, 8, 7, 6, 0x80]);
    assert_eq!(pacer.next_send_us, 32_000);
    assert_eq!(pacer.sleep_us(1_000), 30_900);
    assert!(c.tx_step(&mut pacer, 31_999).is_none());
    assert!(c.tx_step(&mut pacer, 32_010).is_some());
    assert_eq!(pacer.next_send_us, 64_000);
    // Far behind: start over from now.
    assert!(c.tx_step(&mut pacer, 500_000).is_some());
    assert_eq!(pacer.next_send_us, 532_000);
    assert_eq!(c.stats().frames_sent, 3);
    assert_eq!(c.stats().max_cycle_time_us, 467_990);
    c.transition(CyclicState::Fault);
    assert!(c.tx_step(&mut pacer, 600_000).is_none());
    assert_eq!(c.stats().frames_sent, 3);
}

#[test]
fn a_stop_carries_the_safe_image_and_locks_it() {
    let mut c = controller();
    c.start(0).unwrap();
    c.transition(CyclicState::Running);
    c.set_safe_output(1, 1, &[0]);
    c.set_output_data(1, 1, &[0x01, 2, 3, 4]).unwrap();
    c.swap();
    let (was_running, events) = c.stop();
    assert!(was_running);
    assert_eq!(events.len(), 1);
    assert_eq!(
        c.set_output_data(1, 1, &[1]),
        Err("Cannot set output data in stopping state".to_string())
    );
    let stop = parse_ethernet_frame(&c.stop_frame()).unwrap();
    assert_eq!(stop.data_status, 0x25);
    assert_eq!(stop.payload[0], 0);
    assert_eq!(c.stop_frame_sent(0, true), Some(32_000));
    assert_eq!(c.stop_frame_sent(2, true), None);
    assert_eq!(c.stop_frame_sent(0, false), None);
    assert_eq!(c.stats().frames_sent, 2);
    assert_eq!(
        c.start(5).unwrap_err(),
        "Cannot start from stopping state".to_string()
    );
    c.transition(CyclicState::Stopped);
    assert!(!c.stop().0);
}

#[test]
fn a_safe_output_for_an_unknown_place_is_told() {
    let mut c = controller();
    let (_, events) = c.stop_safe(7, 1, &[0]);
    assert!(matches!(
        &events[0],
        CyclicEvent::Error(m) if m == "safe output not applied: Unknown slot/subslot: 7/1"
    ));
}

#[test]
fn cycles_below_a_millisecond_are_refused() {
    let mut out = iocr(IOCR_TYPE_OUTPUT, 0xC000);
    out.send_clock_factor = 4;
    out.reduction_ratio = 1;
    let e = CyclicController::new(
        "eth0",
        [0; 6],
        [0; 6],
        iocr(IOCR_TYPE_INPUT, 0xC001),
        out,
        3,
        0,
    )
    .unwrap_err();
    assert_eq!(
        e,
        "Cycle time 0.12ms is below 1ms \u{2014} not reliably achievable with thread-sleep pacing"
    );
    assert_eq!(format!("{:.2}", 125.0f64 / 1000.0), "0.12");
    assert_eq!(format!("{:.2}", 375.0f64 / 1000.0), "0.38");
    assert_eq!(
        controller().to_text(),
        "CyclicController(eth0, out_id=0xC000, in_id=0xC001, idle)"
    );
}
