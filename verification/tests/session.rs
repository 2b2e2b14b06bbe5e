//! Serving sessions: lines in, lines and requests out, and how they end.

use profinet_rs::cli::parse_hex;
use profinet_rs::cyclic::CyclicState;
use profinet_rs::line_reader::{LineRead, LineReader};
use profinet_rs::serve::{
    effective_mask, io_controller_warning_line, paced_read, serve_error_line, serve_options,
    serve_pace, serve_rpc, ServeCyclic, ServeRequest, ServeSession, ServeStop, Tried,
};
use profinet_rs::serve_run::{serve_result, RunAction, RunPhase, ServeRun};
use profinet_rs::shutdown::{
    safe_shutdown_verdict, ExitGuard, SafeShutdown, ShutdownStep,
};

const PROOF: &str = "0016001601000000010100018000800000010203040506070809";

#[test]
fn safe_shutdown_verdict_gates_hard_exit_and_exit_code() {
    let mut safe_to_hard_exit = false;
    // Unverified: non-zero result for the supervising parent, and the
    // hard-exit escape hatch stays locked.
    assert!(safe_shutdown_verdict(false, &mut safe_to_hard_exit).is_err());
    assert!(
        !safe_to_hard_exit,
        "an unverified shutdown must keep the hard exit forbidden"
    );
    // Verified: exit 0 and the hard exit unlocks.
    assert_eq!(safe_shutdown_verdict(true, &mut safe_to_hard_exit), Ok(0));
    assert!(safe_to_hard_exit);
}

/// Read the next line of a stream of bytes.
fn next_line(r: &mut LineReader, input: &mut std::vec::IntoIter<u8>) -> LineRead {
    for b in input.by_ref() {
        if let Some(line) = r.push(b) {
            return line;
        }
    }
    r.finish()
}

#[test]
fn read_bounded_line_normal_lines_and_eof() {
    let mut input = b"{\"cmd\":\"keepalive\"}\r\nquit".to_vec().into_iter();
    let mut r = LineReader::new(64);
    assert_eq!(
        next_line(&mut r, &mut input),
        LineRead::Line("{\"cmd\":\"keepalive\"}".to_string())
    );
    // Final unterminated line at EOF is still delivered.
    assert_eq!(next_line(&mut r, &mut input), LineRead::Line("quit".to_string()));
    assert_eq!(next_line(&mut r, &mut input), LineRead::End);
}

#[test]
fn read_bounded_line_rejects_overlong_and_resyncs() {
    // A 10 KB no-newline blob followed by a valid command: the blob is
    // dropped without unbounded buffering, the command still parses.
    let mut input = vec![b'x'; 10_000];
    input.push(b'\n');
    input.extend_from_slice(b"{\"cmd\":\"quit\"}\n");
    let mut input = input.into_iter();
    let mut r = LineReader::new(64);
    assert_eq!(next_line(&mut r, &mut input), LineRead::TooLong);
    assert_eq!(
        next_line(&mut r, &mut input),
        LineRead::Line("{\"cmd\":\"quit\"}".to_string())
    );
    assert_eq!(next_line(&mut r, &mut input), LineRead::End);
    // Over-long final line with no newline at all: rejected, then EOF.
    let mut input = vec![b'y'; 10_000].into_iter();
    assert_eq!(next_line(&mut r, &mut input), LineRead::TooLong);
    assert_eq!(next_line(&mut r, &mut input), LineRead::End);
    // A line exactly at the cap (newline included) is NOT an overflow.
    let mut exact = vec![b'z'; 63];
    exact.push(b'\n');
    let mut input = exact.into_iter();
    assert_eq!(next_line(&mut r, &mut input), LineRead::Line("z".repeat(63)));
    assert_eq!(next_line(&mut r, &mut input), LineRead::End);
}

#[test]
fn text_that_is_no_text_ends_the_reading() {
    let mut r = LineReader::new(64);
    let mut input = vec![0xC3, 0xA9, b'\n', 0xFF, b'\n'].into_iter();
    assert_eq!(next_line(&mut r, &mut input), LineRead::Line("\u{e9}".to_string()));
    assert_eq!(next_line(&mut r, &mut input), LineRead::End);
}

#[test]
fn serve_pacing_waits_only_when_it_must() {
    // First request after a long idle goes straight out.
    assert_eq!(serve_pace(500_000, 40, 1_000_000), 0);
    // The next one waits out the remainder of the gap.
    assert_eq!(serve_pace(1_000_000, 40, 1_000_500), 39_500);
    assert_eq!(serve_pace(0, u64::MAX, 0), u64::MAX as u128 * 1000);
}

#[test]
fn only_a_busy_device_is_asked_again() {
    let busy = || -> Result<Vec<u8>, String> {
        Err("PNIO error status 0xDE80C200 (busy)".to_string())
    };
    for attempt in 0..4 {
        assert!(matches!(serve_rpc(attempt, busy()), Tried::Again));
    }
    assert!(matches!(serve_rpc(4, busy()), Tried::Done(Err(e)) if e.contains("DE80C200")));
    assert!(matches!(
        serve_rpc(0, Err::<(), String>("No response".to_string())),
        Tried::Done(Err(_))
    ));
    assert!(matches!(serve_rpc(0, Ok(7)), Tried::Done(Ok(7))));
    for attempt in 0..3 {
        assert!(matches!(paced_read(5, attempt, busy()), Tried::Again));
    }
    match paced_read(5, 3, busy()) {
        Tried::Done(Err(e)) => assert_eq!(
            e,
            "index 5: PNIO error status 0xDE80C200 (busy) (after 4 attempts)"
        ),
        other => panic!("{other:?}"),
    }
}

#[test]
fn errors_tell_an_answer_from_silence() {
    assert_eq!(
        serve_error_line(3, "PNIO error status 0xDE80B000 (x)", 9),
        r#"{"id":3,"type":"read_error","host_us":9,"pnio":"DE80B000","msg":"PNIO error status 0xDE80B000 (x)"}"#
    );
    assert_eq!(
        serve_error_line(3, "No response", 9),
        r#"{"id":3,"type":"transport_error","host_us":9,"msg":"No response"}"#
    );
}

#[test]
fn options_are_checked_before_anything_happens() {
    assert_eq!(serve_options(false, None, 16, 0, false, 0), Ok(None));
    let (line, e) = serve_options(false, None, 16, 1, true, 0).unwrap_err();
    assert_eq!(line, None);
    assert!(e.starts_with("--allow-mask only applies"));
    let (line, e) = serve_options(true, None, 16, 0, true, 0).unwrap_err();
    assert_eq!(line, None);
    assert!(e.starts_with("--cyclic needs --gsdml"));
    let (line, e) = serve_options(true, Some("d.xml"), 16, 1, false, 0).unwrap_err();
    assert_eq!(
        line.unwrap(),
        r#"{"type":"refused","reason":"missing --i-am-on-the-bench"}"#
    );
    assert!(e.starts_with("refusing to drive outputs"));
    assert_eq!(
        serve_options(true, Some("d.xml"), 16, 1, true, 9),
        Ok(Some(armed()))
    );
}

fn armed() -> ServeCyclic {
    ServeCyclic { gsdml_path: "d.xml".to_string(), cycle_ms: 16, allow_mask: 1, seconds: 9 }
}

#[test]
fn read_only_sessions_have_no_mask() {
    assert_eq!(effective_mask(false, &Some(armed())), 1);
    assert_eq!(effective_mask(true, &Some(armed())), 0);
    assert_eq!(effective_mask(false, &None), 0);
}

#[test]
fn lines_become_requests_and_answers() {
    let mut s = ServeSession::new(false, &None, 2000, 0);
    let step = s.on_line(
        r#"{"id":1,"cmd":"read","index":2,"slot":3,"subslot":4,"len":5}"#,
        77,
        10,
    );
    assert_eq!(step.line, None);
    let request = step.request.unwrap();
    assert_eq!(
        request,
        ServeRequest::Read { id: 1, index: 2, slot: 3, subslot: 4, len: 5 }
    );
    let step = s.on_answer(&request, &Ok(vec![0xAB, 0xCD]), 78, 20);
    assert_eq!(
        step.line.unwrap(),
        r#"{"id":1,"type":"data","host_us":78,"len":2,"hex":"abcd"}"#
    );
    assert!(step.stop.is_none());
    // A device that says no does not end the session.
    let no = Err("PNIO error status 0xDE80B000 (x)".to_string());
    assert!(s.on_answer(&request, &no, 78, 20).stop.is_none());
    // A lost connection does.
    let lost = s.on_answer(&request, &Err("No response".to_string()), 78, 20).stop.unwrap();
    assert_eq!(lost, ServeStop::ArLost("No response".to_string()));
    assert_eq!(lost.reason(), "ar_lost");
    assert_eq!(lost.exit_code(), 1);
    assert_eq!(
        lost.farewell(5).unwrap(),
        r#"{"type":"ar_lost","host_us":5,"msg":"No response"}"#
    );
    assert_eq!(lost.stopped_line(), r#"{"type":"stopped","exit":1}"#);
    let write = s
        .on_line(
            r#"{"id":2,"cmd":"write","index":2,"slot":3,"subslot":4,"hex":"00"}"#,
            77,
            30,
        )
        .request
        .unwrap();
    assert_eq!(
        s.on_answer(&write, &Ok(vec![]), 79, 40).line.unwrap(),
        r#"{"id":2,"type":"ok","host_us":79}"#
    );
    assert_eq!(
        s.on_line(r#"{"id":3,"cmd":"ping"}"#, 80, 50).line.unwrap(),
        r#"{"id":3,"type":"pong","host_us":80}"#
    );
    assert_eq!(
        s.on_line(r#"{"cmd":"pulse","mask":1}"#, 80, 50).line.unwrap(),
        r#"{"type":"refused","reason":"control commands need --cyclic","line":"{\"cmd\":\"pulse\",\"mask\":1}"}"#
    );
    assert_eq!(
        s.on_line("{}", 80, 50).line.unwrap(),
        r#"{"type":"error","msg":"bad command: missing \"id\" field","line":"{}"}"#
    );
    let step = s.on_line(r#"{"id":4,"cmd":"quit"}"#, 80, 50);
    assert_eq!(step.line.unwrap(), r#"{"id":4,"type":"bye"}"#);
    assert_eq!(step.stop, Some(ServeStop::Reason("quit")));
    assert_eq!(
        s.on_line(r#"{"cmd":"quit"}"#, 80, 50).stop,
        Some(ServeStop::Reason("quit"))
    );
    assert_eq!(s.on_eof().exit_code(), 0);
    assert_eq!(s.on_eof().reason(), "stdin_eof");
}

#[test]
fn a_read_only_session_refuses_writes() {
    let mut s = ServeSession::new(true, &Some(armed()), 2000, 0);
    let step = s.on_line(
        r#"{"id":2,"cmd":"write","index":2,"slot":3,"subslot":4,"hex":"00"}"#,
        77,
        30,
    );
    assert_eq!(
        step.line.unwrap(),
        r#"{"id":2,"type":"refused","reason":"server is read-only"}"#
    );
    assert!(step.request.is_none());
    s.on_line(r#"{"cmd":"set_level","mask":1,"on":true}"#, 77, 30);
    assert_eq!(s.to_drive(), None);
}

#[test]
fn an_idle_session_keeps_its_ar() {
    let s = ServeSession::new(false, &None, 2000, 0);
    assert!(s.on_idle(1_999_999).is_none());
    assert_eq!(s.on_idle(2_000_000), Some(ServeRequest::Keepalive));
    assert_eq!(s.tick_us(), 100_000);
    let s = ServeSession::new(false, &Some(armed()), 2000, 0);
    assert!(s.on_idle(2_000_000).is_none());
    assert_eq!(s.tick_us(), 16_000);
    assert_eq!(s.settle_ms(), 57);
}

#[test]
fn what_ends_a_session_before_its_turn() {
    let s = ServeSession::new(false, &Some(armed()), 0, 1_000_000);
    assert_eq!(s.stop_before(true, None, 0), Some(ServeStop::Reason("signal")));
    assert_eq!(s.stop_before(false, None, 9_999_999), None);
    assert_eq!(
        s.stop_before(false, None, 10_000_000),
        Some(ServeStop::Reason("timer"))
    );
    assert_eq!(
        s.stop_before(false, Some(CyclicState::Fault), 1_000_000),
        Some(ServeStop::Reason("cyclic_fault"))
    );
    assert_eq!(s.stop_before(false, Some(CyclicState::Running), 1_000_000), None);
}

#[test]
fn commands_are_driven_and_held_by_the_dead_man() {
    let mut s = ServeSession::new(false, &Some(armed()), 0, 0);
    assert_eq!(s.to_drive(), None);
    s.on_line(r#"{"cmd":"set_level","mask":1,"on":true}"#, 0, 100);
    assert_eq!(s.to_drive(), Some(1));
    let failed = s.on_driven(1, &Err("no".to_string()));
    assert_eq!(
        failed.line.unwrap(),
        r#"{"type":"error","msg":"set_output_data failed: no"}"#
    );
    assert_eq!(failed.stop, Some(ServeStop::Reason("io_error")));
    assert!(s.on_driven(1, &Ok(())).stop.is_none());
    assert_eq!(s.to_drive(), None);
    assert_eq!(
        s.driven_line(&Ok(vec![0x16])),
        r#"{"type":"output","control_byte":1,"safe":false,"readback_hex":"16"}"#
    );
    assert!(s.driven_line(&Err("x".to_string())).ends_with(r#""readback_hex":""}"#));
    let status = s.on_turn(1, 2, 3, 1_000_000);
    assert_eq!(
        status.line.unwrap(),
        r#"{"type":"status","tx":1,"rx":2,"missed":3,"out_byte":1}"#
    );
    assert!(s.on_turn(1, 2, 3, 1_500_000).line.is_none());
    let end = s.on_turn(1, 2, 3, 5_000_100);
    assert_eq!(
        end.line.unwrap(),
        r#"{"type":"deadman","msg":"no command/keepalive while a level bit is held"}"#
    );
    assert_eq!(end.stop, Some(ServeStop::Reason("deadman")));
}

#[test]
fn a_pulse_lasts_its_cycles_however_the_loop_turns() {
    let mut s = ServeSession::new(false, &Some(armed()), 0, 0);
    s.on_line(r#"{"cmd":"pulse","mask":1}"#, 0, 0);
    assert_eq!(s.to_drive(), Some(1));
    s.on_driven(1, &Ok(()));
    s.on_turn(0, 0, 0, 15_999);
    assert_eq!(s.to_drive(), None);
    s.on_turn(0, 0, 0, 3 * 16_000);
    assert_eq!(s.to_drive(), Some(0));
}

#[test]
fn the_warning_is_a_line() {
    assert!(io_controller_warning_line()
        .starts_with(r#"{"type":"warning","code":"io_controller_mode","msg":"--cyclic claims"#));
}

#[test]
fn a_shutdown_verifies_the_safe_image() {
    let mut s = SafeShutdown::new(16);
    assert_eq!(s.next(), ShutdownStep::Write { pause_ms: 0 });
    let line = s.on_write(&Err("busy".to_string()));
    assert_eq!(
        line.unwrap(),
        r#"{"type":"error","msg":"safe shutdown set_output_data failed: busy"}"#
    );
    assert_eq!(s.next(), ShutdownStep::Write { pause_ms: 50 });
    assert_eq!(s.on_write(&Ok(())), None);
    assert_eq!(s.next(), ShutdownStep::Hold { pause_ms: 100 });
    s.on_held();
    assert_eq!(s.next(), ShutdownStep::Read { pause_ms: 0 });
    let line = s.on_read(Err("lost".to_string()));
    assert_eq!(
        line.unwrap(),
        r#"{"type":"error","read":"safe_shutdown_readback","msg":"lost"}"#
    );
    assert_eq!(s.next(), ShutdownStep::Read { pause_ms: 100 });
    s.on_read(Ok(parse_hex(PROOF).unwrap()));
    assert_eq!(s.next(), ShutdownStep::Finish);
    assert!(s.verified);
    let (line, alarm) = s.report("quit");
    assert!(line.starts_with(
        r#"{"type":"safe_shutdown","reason":"quit","verified_safe":true,"readback_hex":"0016"#
    ));
    assert_eq!(alarm, None);
}

#[test]
fn a_shutdown_without_proof_raises_the_alarm() {
    let mut substitutes = parse_hex(PROOF).unwrap();
    substitutes[7] = 1;
    let mut s = SafeShutdown::new(512);
    let mut reads = 0;
    loop {
        match s.next() {
            ShutdownStep::Write { .. } => {
                s.on_write(&Err("locked".to_string()));
            }
            ShutdownStep::Hold { pause_ms } => {
                assert_eq!(pause_ms, 2560);
                s.on_held();
            }
            ShutdownStep::Read { .. } => {
                reads += 1;
                s.on_read(Ok(substitutes.clone()));
            }
            ShutdownStep::Finish => break,
        }
    }
    assert_eq!(reads, 9);
    assert!(!s.verified);
    let (line, alarm) = s.report("signal");
    assert!(line.contains(r#""verified_safe":false"#));
    assert!(alarm
        .unwrap()
        .starts_with(r#"{"type":"alarm","reason":"safe output NOT verified","shutdown_reason":"signal""#));
}

#[test]
fn signals_end_the_process_only_when_that_is_harmless() {
    let mut driving = ExitGuard::new(0x01);
    assert!(!driving.on_signal());
    assert!(!driving.on_signal());
    driving.safe_to_hard_exit = true;
    assert!(driving.on_signal());
    let mut idle = ExitGuard::new(0x00);
    assert!(!idle.on_signal());
    assert!(idle.on_signal());
}

#[test]
fn the_result_follows_the_stop_and_the_verdict() {
    let quit = ServeStop::Reason("quit");
    let lost = ServeStop::ArLost("gone".to_string());
    let mut hard = false;
    assert_eq!(serve_result(&quit, None, &mut hard), Ok(0));
    assert_eq!(serve_result(&lost, None, &mut hard), Ok(1));
    assert!(serve_result(&quit, Some(false), &mut hard).unwrap_err().starts_with("safe shutdown"));
    assert!(serve_result(&lost, Some(false), &mut hard).is_err());
    assert!(!hard);
    assert_eq!(serve_result(&lost, Some(true), &mut hard), Ok(1));
    assert!(hard);
}

fn cyclic_run() -> ServeRun {
    let cyclic = Some(ServeCyclic {
        gsdml_path: "d.xml".to_string(),
        cycle_ms: 16,
        allow_mask: 0x03,
        seconds: 10,
    });
    ServeRun::new(ServeSession::new(false, &cyclic, 0, 0))
}

/// Take a run from its stop to its exit; gives how often the safe image was
/// written, and the lines.
fn way_out(run: &mut ServeRun, readback: &Result<Vec<u8>, String>, hard: &mut bool) -> (u32, Vec<String>) {
    let mut writes = 0;
    let mut lines = Vec::new();
    loop {
        let more = match run.next() {
            RunAction::ShutDown { step } => match step {
                ShutdownStep::Write { .. } => {
                    writes += 1;
                    run.on_write(&Ok(()))
                }
                ShutdownStep::Hold { pause_ms } => {
                    assert_eq!(pause_ms, 100);
                    run.on_held()
                }
                ShutdownStep::Read { .. } => run.on_read(readback.clone()),
                ShutdownStep::Finish => panic!("a finished shutdown goes on"),
            },
            RunAction::StopFrames => run.on_frames_stopped(1, 2, 3),
            RunAction::Release => run.on_released(hard),
            RunAction::Exit => return (writes, lines),
            other => panic!("{other:?} on the way out"),
        };
        lines.extend(more);
    }
}

#[test]
fn every_stop_leads_through_the_safe_shutdown() {
    let proof = Ok(parse_hex(PROOF).unwrap());
    // A signal, the timer, a lost link.
    for (shutdown, state, now_us, reason) in [
        (true, CyclicState::Running, 0, "signal"),
        (false, CyclicState::Running, 10_000_000, "timer"),
        (false, CyclicState::Fault, 0, "cyclic_fault"),
    ] {
        let mut run = cyclic_run();
        assert_eq!(run.next(), RunAction::Look);
        run.on_look(shutdown, Some(state), now_us);
        let mut hard = false;
        let (writes, lines) = way_out(&mut run, &proof, &mut hard);
        assert_eq!(writes, 1);
        assert!(hard);
        assert!(lines[0].contains("safe_shutdown") && lines[0].contains(reason));
        assert_eq!(run.result(), Some(Ok(0)));
    }
    // The caller is gone, or says quit.
    for line in [None, Some("{\"cmd\":\"quit\"}")] {
        let mut run = cyclic_run();
        run.on_look(false, Some(CyclicState::Running), 0);
        assert_eq!(run.next(), RunAction::Await { tick_us: 16_000 });
        match line {
            Some(l) => assert!(run.on_line(l, 0, 0).is_empty()),
            None => run.on_eof(),
        }
        assert_eq!(way_out(&mut run, &proof, &mut false).0, 1);
        assert_eq!(run.result(), Some(Ok(0)));
    }
    // The AR is lost.
    let mut run = cyclic_run();
    run.on_look(false, Some(CyclicState::Running), 0);
    let line = "{\"id\":7,\"cmd\":\"read\",\"index\":\"0xAFF0\",\"slot\":0,\"subslot\":1,\"len\":64}";
    assert!(run.on_line(line, 0, 0).is_empty());
    assert_eq!(run.next(), RunAction::Ask);
    assert!(matches!(run.request(), Some(ServeRequest::Read { id: 7, .. })));
    let lines = run.on_answer(&Err("timed out".to_string()), 5, 0);
    assert_eq!(lines.len(), 2);
    assert!(lines[0].contains("\"id\":7") && lines[1].contains("ar_lost"));
    assert_eq!(way_out(&mut run, &proof, &mut false).0, 1);
    assert_eq!(run.result(), Some(Ok(1)));
    // The output image cannot be written.
    let mut run = cyclic_run();
    run.on_look(false, Some(CyclicState::Running), 0);
    run.on_line("{\"cmd\":\"set_level\",\"mask\":1,\"on\":true}", 0, 0);
    assert_eq!(run.next(), RunAction::Drive { byte: 1 });
    assert!(run.on_driven(&Err("no".to_string()))[0].contains("set_output_data failed: no"));
    assert_eq!(way_out(&mut run, &proof, &mut false).0, 1);
    // A level bit is held and the caller is silent.
    let mut run = cyclic_run();
    run.on_look(false, Some(CyclicState::Running), 0);
    run.on_line("{\"cmd\":\"set_level\",\"mask\":1,\"on\":true}", 0, 0);
    assert!(run.on_driven(&Ok(())).is_empty());
    assert_eq!(run.next(), RunAction::ReadBack { settle_ms: 57 });
    assert_eq!(run.on_readback(&Ok(vec![1])).len(), 1);
    assert_eq!(run.next(), RunAction::Count);
    assert!(run.on_count(0, 0, 0, 5_000_000)[0].contains("deadman"));
    assert_eq!(way_out(&mut run, &proof, &mut false).0, 1);
    assert_eq!(run.result(), Some(Ok(0)));
}

#[test]
fn an_unverified_shutdown_fails_the_process() {
    for readback in [Err("no".to_string()), Ok(vec![])] {
        let mut run = cyclic_run();
        run.on_look(true, Some(CyclicState::Running), 0);
        let mut hard = false;
        let (writes, lines) = way_out(&mut run, &readback, &mut hard);
        assert_eq!(writes, 3, "the image is commanded anew in each round");
        assert!(!hard);
        assert!(lines.iter().any(|l| l.contains("\"alarm\"")));
        assert!(run.result().unwrap().is_err());
    }
}

#[test]
fn a_session_without_an_exchange_just_releases() {
    let mut run = ServeRun::new(ServeSession::new(false, &None, 1000, 0));
    run.on_look(false, None, 0);
    run.on_idle(999_999);
    assert_eq!(run.next(), RunAction::Look);
    run.on_look(false, None, 1_000_000);
    run.on_idle(1_000_000);
    assert!(matches!(run.request(), Some(ServeRequest::Keepalive)));
    assert!(run.on_answer(&Ok(vec![]), 0, 1_000_000).is_empty());
    run.on_look(false, None, 1_000_000);
    let lines = run.on_line("{\"id\":1,\"cmd\":\"quit\"}", 0, 1_000_000);
    assert!(lines[0].contains("bye"));
    assert_eq!(run.next(), RunAction::Release);
    let lines = run.on_released(&mut false);
    assert_eq!(lines.len(), 1);
    assert!(lines[0].contains("stopped"));
    assert_eq!(run.phase, RunPhase::Ended(Ok(0)));
    assert_eq!(run.result(), Some(Ok(0)));
}
