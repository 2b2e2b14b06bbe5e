//! The lines that a serving session writes.
//!
//! Every line is built by exactly one function here, and nowhere else: this list
//! is the protocol. A builder is a pure function of its arguments and returns
//! the line without the line break.

use vstd::prelude::*;
use vstd::string::*;
use crate::json::{flag_field, number_field, object_text, text_field, Field, LineBuilder};

verus! {

/// Version of the line protocol. A consumer that understands a different one
/// must refuse rather than misread.
pub const SERVE_PROTO: u32 = 5;

/// An edge pulse holds its bits set for this many output cycles.
pub const PULSE_TICKS: u32 = 3;

/// A named read failed and the session continues.
pub open spec fn error_read_fields(read: Seq<char>, err: Seq<char>) -> Seq<Field> {
    seq![
        text_field("type"@, "error"@),
        text_field("read"@, read),
        text_field("msg"@, err),
    ]
}

/// A named read failed and the session continues.
pub fn error_read_line(read: &str, err: &str) -> (r: String)
    ensures
        r@ == object_text(error_read_fields(read@, err@)),
{
    let mut b = LineBuilder::new();
    b.text("type", "error");
    b.text("read", read);
    b.text("msg", err);
    assert(b.fields() =~= error_read_fields(read@, err@));
    b.finish()
}

/// Something failed that is not tied to a specific read.
pub open spec fn error_msg_fields(msg: Seq<char>) -> Seq<Field> {
    seq![
        text_field("type"@, "error"@),
        text_field("msg"@, msg),
    ]
}

/// Something failed that is not tied to a specific read.
pub fn error_msg_line(msg: &str) -> (r: String)
    ensures
        r@ == object_text(error_msg_fields(msg@)),
{
    let mut b = LineBuilder::new();
    b.text("type", "error");
    b.text("msg", msg);
    assert(b.fields() =~= error_msg_fields(msg@));
    b.finish()
}

/// The input line did not parse. It is echoed, so that the caller can see what
/// arrived.
pub open spec fn bad_command_fields(msg: Seq<char>, line: Seq<char>) -> Seq<Field> {
    seq![
        text_field("type"@, "error"@),
        text_field("msg"@, "bad command: "@ + msg),
        text_field("line"@, line),
    ]
}

/// The input line did not parse. It is echoed, so that the caller can see what
/// arrived.
pub fn bad_command_line(msg: &str, line: &str) -> (r: String)
    ensures
        r@ == object_text(bad_command_fields(msg@, line@)),
{
    let mut b = LineBuilder::new();
    b.text("type", "error");
    let mut full = "bad command: ".to_owned();
    full.append(msg);
    b.text("msg", full.as_str());
    b.text("line", line);
    assert(b.fields() =~= bad_command_fields(msg@, line@));
    b.finish()
}

/// The session does something that the caller should know about but that is no
/// error.
pub open spec fn warning_fields(code: Seq<char>, msg: Seq<char>) -> Seq<Field> {
    seq![
        text_field("type"@, "warning"@),
        text_field("code"@, code),
        text_field("msg"@, msg),
    ]
}

/// The session does something that the caller should know about but that is no
/// error.
pub fn warning_line(code: &str, msg: &str) -> (r: String)
    ensures
        r@ == object_text(warning_fields(code@, msg@)),
{
    let mut b = LineBuilder::new();
    b.text("type", "warning");
    b.text("code", code);
    b.text("msg", msg);
    assert(b.fields() =~= warning_fields(code@, msg@));
    b.finish()
}

/// Always the first line. `proto` comes first, so that a consumer can reject an
/// incompatible server from the first bytes it sees.
pub open spec fn hello_fields(station: Seq<char>, read_only: bool, gap_ms: u64, cyclic: bool, allow_mask: u8) -> Seq<Field> {
    seq![
        number_field("proto"@, 5),
        text_field("type"@, "hello"@),
        text_field("station"@, station),
        flag_field("read_only"@, read_only),
        number_field("gap_ms"@, gap_ms as int),
        flag_field("cyclic"@, cyclic),
        number_field("allow_mask"@, allow_mask as int),
    ]
}

/// Always the first line. `proto` comes first, so that a consumer can reject an
/// incompatible server from the first bytes it sees.
pub fn hello_line(station: &str, read_only: bool, gap_ms: u64, cyclic: bool, allow_mask: u8) -> (r: String)
    ensures
        r@ == object_text(hello_fields(station@, read_only, gap_ms, cyclic, allow_mask)),
{
    let mut b = LineBuilder::new();
    b.number("proto", SERVE_PROTO as u128);
    b.text("type", "hello");
    b.text("station", station);
    b.flag("read_only", read_only);
    b.number("gap_ms", gap_ms as u128);
    b.flag("cyclic", cyclic);
    b.number("allow_mask", allow_mask as u128);
    assert(b.fields() =~= hello_fields(station@, read_only, gap_ms, cyclic, allow_mask));
    b.finish()
}

/// Answer to `quit`.
pub open spec fn bye_fields(id: u64) -> Seq<Field> {
    seq![
        number_field("id"@, id as int),
        text_field("type"@, "bye"@),
    ]
}

/// Answer to `quit`.
pub fn bye_line(id: u64) -> (r: String)
    ensures
        r@ == object_text(bye_fields(id)),
{
    let mut b = LineBuilder::new();
    b.number("id", id as u128);
    b.text("type", "bye");
    assert(b.fields() =~= bye_fields(id));
    b.finish()
}

/// Answer to `ping`.
pub open spec fn pong_fields(id: u64, host_us: u128) -> Seq<Field> {
    seq![
        number_field("id"@, id as int),
        text_field("type"@, "pong"@),
        number_field("host_us"@, host_us as int),
    ]
}

/// Answer to `ping`.
pub fn pong_line(id: u64, host_us: u128) -> (r: String)
    ensures
        r@ == object_text(pong_fields(id, host_us)),
{
    let mut b = LineBuilder::new();
    b.number("id", id as u128);
    b.text("type", "pong");
    b.number("host_us", host_us);
    assert(b.fields() =~= pong_fields(id, host_us));
    b.finish()
}

/// Answer to `read`.
pub open spec fn data_fields(id: u64, host_us: u128, len: usize, hex: Seq<char>) -> Seq<Field> {
    seq![
        number_field("id"@, id as int),
        text_field("type"@, "data"@),
        number_field("host_us"@, host_us as int),
        number_field("len"@, len as int),
        text_field("hex"@, hex),
    ]
}

/// Answer to `read`.
pub fn data_line(id: u64, host_us: u128, len: usize, hex: &str) -> (r: String)
    ensures
        r@ == object_text(data_fields(id, host_us, len, hex@)),
{
    let mut b = LineBuilder::new();
    b.number("id", id as u128);
    b.text("type", "data");
    b.number("host_us", host_us);
    b.number("len", len as u128);
    b.text("hex", hex);
    assert(b.fields() =~= data_fields(id, host_us, len, hex@));
    b.finish()
}

/// Answer to `write`.
pub open spec fn ok_fields(id: u64, host_us: u128) -> Seq<Field> {
    seq![
        number_field("id"@, id as int),
        text_field("type"@, "ok"@),
        number_field("host_us"@, host_us as int),
    ]
}

/// Answer to `write`.
pub fn ok_line(id: u64, host_us: u128) -> (r: String)
    ensures
        r@ == object_text(ok_fields(id, host_us)),
{
    let mut b = LineBuilder::new();
    b.number("id", id as u128);
    b.text("type", "ok");
    b.number("host_us", host_us);
    assert(b.fields() =~= ok_fields(id, host_us));
    b.finish()
}

/// The device answered no. `pnio` carries its status word, which tells a caller
/// why.
pub open spec fn read_error_fields(id: u64, host_us: u128, pnio: Seq<char>, msg: Seq<char>) -> Seq<Field> {
    seq![
        number_field("id"@, id as int),
        text_field("type"@, "read_error"@),
        number_field("host_us"@, host_us as int),
        text_field("pnio"@, pnio),
        text_field("msg"@, msg),
    ]
}

/// The device answered no. `pnio` carries its status word, which tells a caller
/// why.
pub fn read_error_line(id: u64, host_us: u128, pnio: &str, msg: &str) -> (r: String)
    ensures
        r@ == object_text(read_error_fields(id, host_us, pnio@, msg@)),
{
    let mut b = LineBuilder::new();
    b.number("id", id as u128);
    b.text("type", "read_error");
    b.number("host_us", host_us);
    b.text("pnio", pnio);
    b.text("msg", msg);
    assert(b.fields() =~= read_error_fields(id, host_us, pnio@, msg@));
    b.finish()
}

/// The request never got an answer. Distinct from a read error on purpose: this
/// one poisons the session.
pub open spec fn transport_error_fields(id: u64, host_us: u128, msg: Seq<char>) -> Seq<Field> {
    seq![
        number_field("id"@, id as int),
        text_field("type"@, "transport_error"@),
        number_field("host_us"@, host_us as int),
        text_field("msg"@, msg),
    ]
}

/// The request never got an answer. Distinct from a read error on purpose: this
/// one poisons the session.
pub fn transport_error_line(id: u64, host_us: u128, msg: &str) -> (r: String)
    ensures
        r@ == object_text(transport_error_fields(id, host_us, msg@)),
{
    let mut b = LineBuilder::new();
    b.number("id", id as u128);
    b.text("type", "transport_error");
    b.number("host_us", host_us);
    b.text("msg", msg);
    assert(b.fields() =~= transport_error_fields(id, host_us, msg@));
    b.finish()
}

/// A write arrived at a read-only server.
pub open spec fn refused_read_only_fields(id: u64) -> Seq<Field> {
    seq![
        number_field("id"@, id as int),
        text_field("type"@, "refused"@),
        text_field("reason"@, "server is read-only"@),
    ]
}

/// A write arrived at a read-only server.
pub fn refused_read_only_line(id: u64) -> (r: String)
    ensures
        r@ == object_text(refused_read_only_fields(id)),
{
    let mut b = LineBuilder::new();
    b.number("id", id as u128);
    b.text("type", "refused");
    b.text("reason", "server is read-only");
    assert(b.fields() =~= refused_read_only_fields(id));
    b.finish()
}

/// The session will not start. Carries no id because nothing was requested: it is
/// the setup itself that is refused.
pub open spec fn refused_setup_fields(reason: Seq<char>) -> Seq<Field> {
    seq![
        text_field("type"@, "refused"@),
        text_field("reason"@, reason),
    ]
}

/// The session will not start. Carries no id because nothing was requested: it is
/// the setup itself that is refused.
pub fn refused_setup_line(reason: &str) -> (r: String)
    ensures
        r@ == object_text(refused_setup_fields(reason@)),
{
    let mut b = LineBuilder::new();
    b.text("type", "refused");
    b.text("reason", reason);
    assert(b.fields() =~= refused_setup_fields(reason@));
    b.finish()
}

/// A control command arrived at an acyclic-only session.
pub open spec fn refused_needs_cyclic_fields(line: Seq<char>) -> Seq<Field> {
    seq![
        text_field("type"@, "refused"@),
        text_field("reason"@, "control commands need --cyclic"@),
        text_field("line"@, line),
    ]
}

/// A control command arrived at an acyclic-only session.
pub fn refused_needs_cyclic_line(line: &str) -> (r: String)
    ensures
        r@ == object_text(refused_needs_cyclic_fields(line@)),
{
    let mut b = LineBuilder::new();
    b.text("type", "refused");
    b.text("reason", "control commands need --cyclic");
    b.text("line", line);
    assert(b.fields() =~= refused_needs_cyclic_fields(line@));
    b.finish()
}

/// A control command was understood and not carried out.
pub open spec fn refused_cmd_fields(cmd: Seq<char>, mask: u8, reason: Seq<char>) -> Seq<Field> {
    seq![
        text_field("type"@, "refused"@),
        text_field("cmd"@, cmd),
        number_field("mask"@, mask as int),
        text_field("reason"@, reason),
    ]
}

/// A control command was understood and not carried out.
pub fn refused_cmd_line(cmd: &str, mask: u8, reason: &str) -> (r: String)
    ensures
        r@ == object_text(refused_cmd_fields(cmd@, mask, reason@)),
{
    let mut b = LineBuilder::new();
    b.text("type", "refused");
    b.text("cmd", cmd);
    b.number("mask", mask as u128);
    b.text("reason", reason);
    assert(b.fields() =~= refused_cmd_fields(cmd@, mask, reason@));
    b.finish()
}

/// A level bit was set or cleared. `level` is the resulting state, not the
/// request.
pub open spec fn ack_set_level_fields(mask: u8, on: bool, level: u8) -> Seq<Field> {
    seq![
        text_field("type"@, "ack"@),
        text_field("cmd"@, "set_level"@),
        number_field("mask"@, mask as int),
        flag_field("on"@, on),
        number_field("level"@, level as int),
    ]
}

/// A level bit was set or cleared. `level` is the resulting state, not the
/// request.
pub fn ack_set_level_line(mask: u8, on: bool, level: u8) -> (r: String)
    ensures
        r@ == object_text(ack_set_level_fields(mask, on, level)),
{
    let mut b = LineBuilder::new();
    b.text("type", "ack");
    b.text("cmd", "set_level");
    b.number("mask", mask as u128);
    b.flag("on", on);
    b.number("level", level as u128);
    assert(b.fields() =~= ack_set_level_fields(mask, on, level));
    b.finish()
}

/// A pulse was armed.
pub open spec fn ack_pulse_fields(mask: u8) -> Seq<Field> {
    seq![
        text_field("type"@, "ack"@),
        text_field("cmd"@, "pulse"@),
        number_field("mask"@, mask as int),
        number_field("pulse_ticks"@, 3),
    ]
}

/// A pulse was armed.
pub fn ack_pulse_line(mask: u8) -> (r: String)
    ensures
        r@ == object_text(ack_pulse_fields(mask)),
{
    let mut b = LineBuilder::new();
    b.text("type", "ack");
    b.text("cmd", "pulse");
    b.number("mask", mask as u128);
    b.number("pulse_ticks", PULSE_TICKS as u128);
    assert(b.fields() =~= ack_pulse_fields(mask));
    b.finish()
}

/// The dead-man timer was reset.
pub open spec fn ack_keepalive_fields() -> Seq<Field> {
    seq![
        text_field("type"@, "ack"@),
        text_field("cmd"@, "keepalive"@),
    ]
}

/// The dead-man timer was reset.
pub fn ack_keepalive_line() -> (r: String)
    ensures
        r@ == object_text(ack_keepalive_fields()),
{
    let mut b = LineBuilder::new();
    b.text("type", "ack");
    b.text("cmd", "keepalive");
    assert(b.fields() =~= ack_keepalive_fields());
    b.finish()
}

/// The output image as found before takeover.
pub open spec fn current_output_fields(len: usize, hex: Seq<char>) -> Seq<Field> {
    seq![
        text_field("type"@, "current_output"@),
        number_field("len"@, len as int),
        text_field("hex"@, hex),
    ]
}

/// The output image as found before takeover.
pub fn current_output_line(len: usize, hex: &str) -> (r: String)
    ensures
        r@ == object_text(current_output_fields(len, hex@)),
{
    let mut b = LineBuilder::new();
    b.text("type", "current_output");
    b.number("len", len as u128);
    b.text("hex", hex);
    assert(b.fields() =~= current_output_fields(len, hex@));
    b.finish()
}

/// One received input frame.
pub open spec fn cyclic_fields(slot: u16, subslot: u16, host_us: u128, len: usize, hex: Seq<char>) -> Seq<Field> {
    seq![
        text_field("type"@, "cyclic"@),
        number_field("slot"@, slot as int),
        number_field("subslot"@, subslot as int),
        number_field("host_us"@, host_us as int),
        number_field("len"@, len as int),
        text_field("hex"@, hex),
    ]
}

/// One received input frame.
pub fn cyclic_line(slot: u16, subslot: u16, host_us: u128, len: usize, hex: &str) -> (r: String)
    ensures
        r@ == object_text(cyclic_fields(slot, subslot, host_us, len, hex@)),
{
    let mut b = LineBuilder::new();
    b.text("type", "cyclic");
    b.number("slot", slot as u128);
    b.number("subslot", subslot as u128);
    b.number("host_us", host_us);
    b.number("len", len as u128);
    b.text("hex", hex);
    assert(b.fields() =~= cyclic_fields(slot, subslot, host_us, len, hex@));
    b.finish()
}

/// The cyclic exchange is up. `input_len` is the length that the description
/// promised and the firmware confirmed.
pub open spec fn cyclic_started_fields(cycle_ms: u16, input_frame_id: u16, output_frame_id: u16, input_len: usize, out_slot: u16, out_subslot: u16) -> Seq<Field> {
    seq![
        text_field("type"@, "cyclic_started"@),
        number_field("cycle_ms"@, cycle_ms as int),
        number_field("input_frame_id"@, input_frame_id as int),
        number_field("output_frame_id"@, output_frame_id as int),
        number_field("input_len"@, input_len as int),
        number_field("out_slot"@, out_slot as int),
        number_field("out_subslot"@, out_subslot as int),
    ]
}

/// The cyclic exchange is up. `input_len` is the length that the description
/// promised and the firmware confirmed.
pub fn cyclic_started_line(cycle_ms: u16, input_frame_id: u16, output_frame_id: u16, input_len: usize, out_slot: u16, out_subslot: u16) -> (r: String)
    ensures
        r@ == object_text(cyclic_started_fields(cycle_ms, input_frame_id, output_frame_id, input_len, out_slot, out_subslot)),
{
    let mut b = LineBuilder::new();
    b.text("type", "cyclic_started");
    b.number("cycle_ms", cycle_ms as u128);
    b.number("input_frame_id", input_frame_id as u128);
    b.number("output_frame_id", output_frame_id as u128);
    b.number("input_len", input_len as u128);
    b.number("out_slot", out_slot as u128);
    b.number("out_subslot", out_subslot as u128);
    assert(b.fields() =~= cyclic_started_fields(cycle_ms, input_frame_id, output_frame_id, input_len, out_slot, out_subslot));
    b.finish()
}

/// Commanding is possible, and this is what it may drive. Goes out with an
/// all-zero mask too: that is how a consumer learns that nothing has been armed.
pub open spec fn control_active_fields(output_byte: u8, allow_mask: u8) -> Seq<Field> {
    seq![
        text_field("type"@, "control_active"@),
        number_field("output_byte"@, output_byte as int),
        number_field("allow_mask"@, allow_mask as int),
    ]
}

/// Commanding is possible, and this is what it may drive. Goes out with an
/// all-zero mask too: that is how a consumer learns that nothing has been armed.
pub fn control_active_line(output_byte: u8, allow_mask: u8) -> (r: String)
    ensures
        r@ == object_text(control_active_fields(output_byte, allow_mask)),
{
    let mut b = LineBuilder::new();
    b.text("type", "control_active");
    b.number("output_byte", output_byte as u128);
    b.number("allow_mask", allow_mask as u128);
    assert(b.fields() =~= control_active_fields(output_byte, allow_mask));
    b.finish()
}

/// The output image was written, with the device's own readback of it.
pub open spec fn output_fields(control_byte: u8, safe: bool, readback_hex: Seq<char>) -> Seq<Field> {
    seq![
        text_field("type"@, "output"@),
        number_field("control_byte"@, control_byte as int),
        flag_field("safe"@, safe),
        text_field("readback_hex"@, readback_hex),
    ]
}

/// The output image was written, with the device's own readback of it.
pub fn output_line(control_byte: u8, safe: bool, readback_hex: &str) -> (r: String)
    ensures
        r@ == object_text(output_fields(control_byte, safe, readback_hex@)),
{
    let mut b = LineBuilder::new();
    b.text("type", "output");
    b.number("control_byte", control_byte as u128);
    b.flag("safe", safe);
    b.text("readback_hex", readback_hex);
    assert(b.fields() =~= output_fields(control_byte, safe, readback_hex@));
    b.finish()
}

/// A level bit was held with no traffic, so the session is stopping.
pub open spec fn deadman_fields() -> Seq<Field> {
    seq![
        text_field("type"@, "deadman"@),
        text_field("msg"@, "no command/keepalive while a level bit is held"@),
    ]
}

/// A level bit was held with no traffic, so the session is stopping.
pub fn deadman_line() -> (r: String)
    ensures
        r@ == object_text(deadman_fields()),
{
    let mut b = LineBuilder::new();
    b.text("type", "deadman");
    b.text("msg", "no command/keepalive while a level bit is held");
    assert(b.fields() =~= deadman_fields());
    b.finish()
}

/// Once a second while cyclic frames run.
pub open spec fn status_fields(tx: u64, rx: u64, missed: u64, out_byte: u8) -> Seq<Field> {
    seq![
        text_field("type"@, "status"@),
        number_field("tx"@, tx as int),
        number_field("rx"@, rx as int),
        number_field("missed"@, missed as int),
        number_field("out_byte"@, out_byte as int),
    ]
}

/// Once a second while cyclic frames run.
pub fn status_line(tx: u64, rx: u64, missed: u64, out_byte: u8) -> (r: String)
    ensures
        r@ == object_text(status_fields(tx, rx, missed, out_byte)),
{
    let mut b = LineBuilder::new();
    b.text("type", "status");
    b.number("tx", tx as u128);
    b.number("rx", rx as u128);
    b.number("missed", missed as u128);
    b.number("out_byte", out_byte as u128);
    assert(b.fields() =~= status_fields(tx, rx, missed, out_byte));
    b.finish()
}

/// The AR died under us.
pub open spec fn ar_lost_fields(host_us: u128, msg: Seq<char>) -> Seq<Field> {
    seq![
        text_field("type"@, "ar_lost"@),
        number_field("host_us"@, host_us as int),
        text_field("msg"@, msg),
    ]
}

/// The AR died under us.
pub fn ar_lost_line(host_us: u128, msg: &str) -> (r: String)
    ensures
        r@ == object_text(ar_lost_fields(host_us, msg@)),
{
    let mut b = LineBuilder::new();
    b.text("type", "ar_lost");
    b.number("host_us", host_us);
    b.text("msg", msg);
    assert(b.fields() =~= ar_lost_fields(host_us, msg@));
    b.finish()
}

/// The commanded shutdown ran, with the device's readback of the safe image and
/// whether it matched.
pub open spec fn safe_shutdown_fields(reason: Seq<char>, verified_safe: bool, readback_hex: Seq<char>) -> Seq<Field> {
    seq![
        text_field("type"@, "safe_shutdown"@),
        text_field("reason"@, reason),
        flag_field("verified_safe"@, verified_safe),
        text_field("readback_hex"@, readback_hex),
    ]
}

/// The commanded shutdown ran, with the device's readback of the safe image and
/// whether it matched.
pub fn safe_shutdown_line(reason: &str, verified_safe: bool, readback_hex: &str) -> (r: String)
    ensures
        r@ == object_text(safe_shutdown_fields(reason@, verified_safe, readback_hex@)),
{
    let mut b = LineBuilder::new();
    b.text("type", "safe_shutdown");
    b.text("reason", reason);
    b.flag("verified_safe", verified_safe);
    b.text("readback_hex", readback_hex);
    assert(b.fields() =~= safe_shutdown_fields(reason@, verified_safe, readback_hex@));
    b.finish()
}

/// The distinct machine-readable alarm for a shutdown that could not verify the
/// safe image. A supervising parent must take it as "a commanded bit possibly
/// still set"; it goes with a non-zero exit code.
pub open spec fn alarm_fields(reason: Seq<char>, readback_hex: Seq<char>) -> Seq<Field> {
    seq![
        text_field("type"@, "alarm"@),
        text_field("reason"@, "safe output NOT verified"@),
        text_field("shutdown_reason"@, reason),
        text_field("readback_hex"@, readback_hex),
    ]
}

/// The distinct machine-readable alarm for a shutdown that could not verify the
/// safe image. A supervising parent must take it as "a commanded bit possibly
/// still set"; it goes with a non-zero exit code.
pub fn alarm_line(reason: &str, readback_hex: &str) -> (r: String)
    ensures
        r@ == object_text(alarm_fields(reason@, readback_hex@)),
{
    let mut b = LineBuilder::new();
    b.text("type", "alarm");
    b.text("reason", "safe output NOT verified");
    b.text("shutdown_reason", reason);
    b.text("readback_hex", readback_hex);
    assert(b.fields() =~= alarm_fields(reason@, readback_hex@));
    b.finish()
}

/// An acyclic-only session ended.
pub open spec fn stopped_exit_fields(exit: i32) -> Seq<Field> {
    seq![
        text_field("type"@, "stopped"@),
        number_field("exit"@, exit as int),
    ]
}

/// An acyclic-only session ended.
pub fn stopped_exit_line(exit: i32) -> (r: String)
    ensures
        r@ == object_text(stopped_exit_fields(exit)),
{
    let mut b = LineBuilder::new();
    b.text("type", "stopped");
    b.signed("exit", exit);
    assert(b.fields() =~= stopped_exit_fields(exit));
    b.finish()
}

/// A cyclic session ended, with frame counts.
pub open spec fn stopped_stats_fields(tx: u64, rx: u64, missed: u64) -> Seq<Field> {
    seq![
        text_field("type"@, "stopped"@),
        number_field("tx"@, tx as int),
        number_field("rx"@, rx as int),
        number_field("missed"@, missed as int),
    ]
}

/// A cyclic session ended, with frame counts.
pub fn stopped_stats_line(tx: u64, rx: u64, missed: u64) -> (r: String)
    ensures
        r@ == object_text(stopped_stats_fields(tx, rx, missed)),
{
    let mut b = LineBuilder::new();
    b.text("type", "stopped");
    b.number("tx", tx as u128);
    b.number("rx", rx as u128);
    b.number("missed", missed as u128);
    assert(b.fields() =~= stopped_stats_fields(tx, rx, missed));
    b.finish()
}

} // verus!
