//! The lines that a serving session reads: requests for records, each with an
//! id that its answer carries, and commands for the output image.

use vstd::prelude::*;
use vstd::slice::*;
use vstd::string::*;
use crate::cli::{hex_bytes, number_of, parse_hex, parse_number};
use crate::control::ControlCmd;
use crate::text::{
    begins_with, chars_begin_with, chars_of, debug_string, debug_text, find_chars, find_from,
    string_of, str_eq, trim_chars_start, trimmed_start,
};

verus! {

/// The name of a field in quotes.
pub open spec fn quoted(key: Seq<char>) -> Seq<char> {
    seq!['"'] + key + seq!['"']
}

/// What stands behind `"key":` in a one-line JSON object, to the end of the
/// line. Enough for the fixed vocabulary, not a general parser.
pub open spec fn field_raw(line: Seq<char>, key: Seq<char>) -> Option<Seq<char>> {
    match find_from(line, quoted(key), 0) {
        None => None,
        Some(at) => {
            let rest = trimmed_start(line.skip(at + quoted(key).len()));
            if rest.len() > 0 && rest[0] == ':' {
                Some(trimmed_start(rest.skip(1)))
            } else {
                None
            }
        },
    }
}

/// The text of a string field. The vocabulary has no escapes, and none are
/// read.
pub open spec fn field_str(line: Seq<char>, key: Seq<char>) -> Option<Seq<char>> {
    match field_raw(line, key) {
        Some(raw) => if raw.len() > 0 && raw[0] == '"' {
            match find_from(raw.skip(1), seq!['"'], 0) {
                Some(end) => Some(raw.skip(1).take(end)),
                None => None,
            }
        } else {
            None
        },
        None => None,
    }
}

/// The value of a boolean field.
pub open spec fn field_bool(line: Seq<char>, key: Seq<char>) -> Option<bool> {
    match field_raw(line, key) {
        Some(raw) => if begins_with(raw, "true"@) {
            Some(true)
        } else if begins_with(raw, "false"@) {
            Some(false)
        } else {
            None
        },
        None => None,
    }
}

/// An ASCII letter or digit.
pub open spec fn is_alnum(c: char) -> bool {
    ('0' <= c && c <= '9') || ('a' <= c && c <= 'z') || ('A' <= c && c <= 'Z')
}

/// The letters and digits that a text begins with, from `n` on.
pub open spec fn token_end(s: Seq<char>, n: int) -> int
    decreases s.len() - n,
{
    if 0 <= n < s.len() && is_alnum(s[n]) {
        token_end(s, n + 1)
    } else {
        n
    }
}

/// The token that a value is: its leading letters and digits, behind a quote
/// where it has one.
pub open spec fn token_of(raw: Seq<char>) -> Seq<char> {
    let s = if raw.len() > 0 && raw[0] == '"' {
        raw.skip(1)
    } else {
        raw
    };
    s.take(token_end(s, 0))
}

/// The value of an unsigned field up to `max`, in decimal or as "0x"
/// hexadecimal, with or without quotes.
pub open spec fn field_uint(line: Seq<char>, key: Seq<char>, max: nat) -> Option<nat> {
    match field_raw(line, key) {
        Some(raw) => number_of(token_of(trimmed_start(raw)), max),
        None => None,
    }
}

/// Locate the raw value behind `"key":` in a one-line JSON object.
pub fn json_field_raw<'a>(line: &'a [char], key: &str) -> (r: Option<&'a [char]>)
    ensures
        match field_raw(line@, key@) {
            Some(v) => r matches Some(s) && s@ == v,
            None => r is None,
        },
{
    let mut name = String::new();
    name.push('"');
    name.append(key);
    name.push('"');
    assert(name@ =~= quoted(key@));
    let pat = chars_of(name.as_str());
    match find_chars(line, pat.as_slice()) {
        None => None,
        Some(at) => {
            let total: usize = line.len();
            assert(at + pat@.len() <= total);
            let behind = slice_subrange(line, at + pat.len(), total);
            assert(behind@ =~= line@.skip(at + quoted(key@).len()));
            let rest = trim_chars_start(behind);
            if rest.len() > 0 && rest[0] == ':' {
                let value = slice_subrange(rest, 1, rest.len());
                assert(value@ =~= rest@.skip(1));
                Some(trim_chars_start(value))
            } else {
                None
            }
        },
    }
}

/// Extract the value of a JSON string field.
pub fn json_field_str(line: &[char], key: &str) -> (r: Option<String>)
    ensures
        match field_str(line@, key@) {
            Some(v) => r matches Some(s) && s@ == v,
            None => r is None,
        },
{
    let raw = match json_field_raw(line, key) {
        Some(raw) => raw,
        None => {
            return None;
        },
    };
    if raw.len() == 0 || raw[0] != '"' {
        return None;
    }
    let rest = slice_subrange(raw, 1, raw.len());
    assert(rest@ =~= raw@.skip(1));
    let quote: [char; 1] = ['"'];
    assert(quote@ =~= seq!['"']);
    match find_chars(rest, quote.as_slice()) {
        Some(end) => {
            let text = slice_subrange(rest, 0, end);
            assert(text@ =~= rest@.take(end as int));
            Some(string_of(text))
        },
        None => None,
    }
}

/// Extract the value of a JSON boolean field.
pub fn json_field_bool(line: &[char], key: &str) -> (r: Option<bool>)
    ensures
        r == field_bool(line@, key@),
{
    match json_field_raw(line, key) {
        Some(raw) => {
            let yes = chars_of("true");
            let no = chars_of("false");
            if chars_begin_with(raw, yes.as_slice()) {
                Some(true)
            } else if chars_begin_with(raw, no.as_slice()) {
                Some(false)
            } else {
                None
            }
        },
        None => None,
    }
}

fn token(raw: &[char]) -> (r: &[char])
    ensures
        r@ == token_of(raw@),
{
    let s = if raw.len() > 0 && raw[0] == '"' {
        let behind = slice_subrange(raw, 1, raw.len());
        assert(behind@ =~= raw@.skip(1));
        behind
    } else {
        raw
    };
    let mut n: usize = 0;
    while n < s.len() && ((s[n] >= '0' && s[n] <= '9') || (s[n] >= 'a' && s[n] <= 'z') || (s[n]
        >= 'A' && s[n] <= 'Z'))
        invariant
            n <= s@.len(),
            token_end(s@, n as int) == token_end(s@, 0),
        decreases s@.len() - n,
    {
        n = n + 1;
    }
    let t = slice_subrange(s, 0, n);
    assert(t@ =~= s@.take(n as int));
    t
}

fn json_field_uint(line: &[char], key: &str, max: u64) -> (r: Option<u64>)
    ensures
        match field_uint(line@, key@, max as nat) {
            Some(n) => r == Some(n as u64) && n <= max,
            None => r is None,
        },
{
    match json_field_raw(line, key) {
        Some(raw) => parse_number(token(trim_chars_start(raw)), max),
        None => None,
    }
}

/// Extract an unsigned field, in decimal or as "0x" hexadecimal.
pub fn json_field_u64(line: &[char], key: &str) -> (r: Option<u64>)
    ensures
        match field_uint(line@, key@, u64::MAX as nat) {
            Some(n) => r == Some(n as u64) && n <= u64::MAX,
            None => r is None,
        },
{
    json_field_uint(line, key, u64::MAX)
}

/// Extract an unsigned byte field, in decimal or as "0x" hexadecimal.
pub fn json_field_u8(line: &[char], key: &str) -> (r: Option<u8>)
    ensures
        match field_uint(line@, key@, 255) {
            Some(n) => r == Some(n as u8) && n <= 255,
            None => r is None,
        },
{
    match json_field_uint(line, key, 255) {
        Some(n) => Some(n as u8),
        None => None,
    }
}

/// One request for a record.
#[derive(Debug, PartialEq, Eq)]
pub enum ServeCmd {
    Read { id: u64, index: u16, slot: u16, subslot: u16, len: u32 },
    Write { id: u64, index: u16, slot: u16, subslot: u16, data: Vec<u8> },
    /// Explicit liveness ping, so that a caller can confirm that the server is
    /// answering at all.
    Ping { id: u64 },
    Quit { id: u64 },
}

/// A [`ServeCmd`] as mathematical values.
pub enum ServeCmdModel {
    Read { id: u64, index: u16, slot: u16, subslot: u16, len: u32 },
    Write { id: u64, index: u16, slot: u16, subslot: u16, data: Seq<u8> },
    Ping { id: u64 },
    Quit { id: u64 },
}

impl View for ServeCmd {
    type V = ServeCmdModel;

    open spec fn view(&self) -> ServeCmdModel {
        match self {
            ServeCmd::Read { id, index, slot, subslot, len } => ServeCmdModel::Read {
                id: *id,
                index: *index,
                slot: *slot,
                subslot: *subslot,
                len: *len,
            },
            ServeCmd::Write { id, index, slot, subslot, data } => ServeCmdModel::Write {
                id: *id,
                index: *index,
                slot: *slot,
                subslot: *subslot,
                data: data@,
            },
            ServeCmd::Ping { id } => ServeCmdModel::Ping { id: *id },
            ServeCmd::Quit { id } => ServeCmdModel::Quit { id: *id },
        }
    }
}

impl ServeCmdModel {
    /// The request's id.
    pub open spec fn id(self) -> u64 {
        match self {
            ServeCmdModel::Read { id, .. } => id,
            ServeCmdModel::Write { id, .. } => id,
            ServeCmdModel::Ping { id } => id,
            ServeCmdModel::Quit { id } => id,
        }
    }
}

impl ServeCmd {
    /// The request's id.
    pub fn id(&self) -> (r: u64)
        ensures
            r == self@.id(),
    {
        match self {
            ServeCmd::Read { id, .. } => *id,
            ServeCmd::Write { id, .. } => *id,
            ServeCmd::Ping { id } => *id,
            ServeCmd::Quit { id } => *id,
        }
    }
}

/// One line, in either of the two vocabularies.
///
/// They are kept apart because they answer differently: a request owes exactly
/// one response with its id, while a command for the output image is
/// acknowledged without one.
#[derive(Debug, PartialEq, Eq)]
pub enum ServeLine {
    /// Request and response, matched by the id that the caller chose.
    Rpc(ServeCmd),
    /// Output-image command, only meaningful with a cyclic exchange.
    Control(ControlCmd),
}

/// A [`ServeLine`] as mathematical values.
pub enum ServeLineModel {
    Rpc(ServeCmdModel),
    Control(ControlCmd),
}

impl View for ServeLine {
    type V = ServeLineModel;

    open spec fn view(&self) -> ServeLineModel {
        match self {
            ServeLine::Rpc(c) => ServeLineModel::Rpc(c@),
            ServeLine::Control(c) => ServeLineModel::Control(*c),
        }
    }
}

/// The message for an unknown command.
pub open spec fn unknown_message(cmd: Seq<char>) -> Seq<char> {
    "unknown cmd "@ + debug_text(cmd)
}

/// The command for the output image that a line holds, or why there is none.
pub open spec fn control_of(line: Seq<char>) -> Result<ControlCmd, Seq<char>> {
    match field_str(line, "cmd"@) {
        None => Err("missing \"cmd\" field"@),
        Some(cmd) => if cmd == "set_level"@ {
            match (field_uint(line, "mask"@, 255), field_bool(line, "on"@)) {
                (None, _) => Err("set_level needs \"mask\":<byte>"@),
                (_, None) => Err("set_level needs \"on\":true|false"@),
                (Some(mask), Some(on)) => Ok(ControlCmd::SetLevel { mask: mask as u8, on }),
            }
        } else if cmd == "pulse"@ {
            match field_uint(line, "mask"@, 255) {
                None => Err("pulse needs \"mask\":<byte>"@),
                Some(mask) => Ok(ControlCmd::Pulse { mask: mask as u8 }),
            }
        } else if cmd == "keepalive"@ {
            Ok(ControlCmd::Keepalive)
        } else if cmd == "quit"@ {
            Ok(ControlCmd::Quit)
        } else {
            Err(unknown_message(cmd))
        },
    }
}

/// Parse a line into a command for the output image.
pub fn parse_control_cmd(line: &str) -> (r: Result<ControlCmd, String>)
    ensures
        match control_of(line@) {
            Ok(c) => r == Ok::<ControlCmd, String>(c),
            Err(m) => r matches Err(e) && e@ == m,
        },
{
    let cs = chars_of(line);
    let l = cs.as_slice();
    let cmd = match json_field_str(l, "cmd") {
        Some(c) => c,
        None => {
            return Err("missing \"cmd\" field".to_owned());
        },
    };
    if str_eq(cmd.as_str(), "set_level") {
        let mask: u8 = match json_field_u8(l, "mask") {
            Some(m) => m,
            None => {
                return Err("set_level needs \"mask\":<byte>".to_owned());
            },
        };
        match json_field_bool(l, "on") {
            Some(on) => Ok(ControlCmd::SetLevel { mask, on }),
            None => Err("set_level needs \"on\":true|false".to_owned()),
        }
    } else if str_eq(cmd.as_str(), "pulse") {
        match json_field_u8(l, "mask") {
            Some(mask) => Ok(ControlCmd::Pulse { mask }),
            None => Err("pulse needs \"mask\":<byte>".to_owned()),
        }
    } else if str_eq(cmd.as_str(), "keepalive") {
        Ok(ControlCmd::Keepalive)
    } else if str_eq(cmd.as_str(), "quit") {
        Ok(ControlCmd::Quit)
    } else {
        let mut e = "unknown cmd ".to_owned();
        e.append(debug_string(cmd.as_str()).as_str());
        Err(e)
    }
}

/// The message for a missing field, or one that does not fit 16 bits.
pub open spec fn needs_message(cmd: Seq<char>, key: Seq<char>) -> Seq<char> {
    cmd + " needs \""@ + key + "\" (0..=65535)"@
}

/// The index, slot and subslot of a request, or what the first missing one
/// gives.
pub open spec fn place_of(line: Seq<char>, cmd: Seq<char>) -> Result<(u16, u16, u16), Seq<char>> {
    match (
        field_uint(line, "index"@, u64::MAX as nat),
        field_uint(line, "slot"@, u64::MAX as nat),
        field_uint(line, "subslot"@, u64::MAX as nat),
    ) {
        (index, slot, subslot) => if !fits16(index) {
            Err(needs_message(cmd, "index"@))
        } else if !fits16(slot) {
            Err(needs_message(cmd, "slot"@))
        } else if !fits16(subslot) {
            Err(needs_message(cmd, "subslot"@))
        } else {
            Ok((index->0 as u16, slot->0 as u16, subslot->0 as u16))
        },
    }
}

/// A number that is there and fits 16 bits.
pub open spec fn fits16(n: Option<nat>) -> bool {
    n matches Some(v) && v <= 0xFFFF
}

/// The request that a line holds, or why there is none.
pub open spec fn request_of(line: Seq<char>) -> Result<ServeCmdModel, Seq<char>> {
    match (field_uint(line, "id"@, u64::MAX as nat), field_str(line, "cmd"@)) {
        (None, _) => Err("missing \"id\" field"@),
        (_, None) => Err("missing \"cmd\" field"@),
        (Some(id), Some(cmd)) => if cmd == "read"@ {
            match (place_of(line, cmd), field_uint(line, "len"@, u64::MAX as nat)) {
                (Err(m), _) => Err(m),
                (Ok((index, slot, subslot)), len) => if len matches Some(v) && v <= u32::MAX {
                    Ok(
                        ServeCmdModel::Read {
                            id: id as u64,
                            index,
                            slot,
                            subslot,
                            len: len->0 as u32,
                        },
                    )
                } else {
                    Err("read needs \"len\""@)
                },
            }
        } else if cmd == "write"@ {
            match (field_str(line, "hex"@), place_of(line, cmd)) {
                (None, _) => Err("write needs \"hex\""@),
                (_, Err(m)) => Err(m),
                (Some(hex), Ok((index, slot, subslot))) => match hex_bytes(hex) {
                    Ok(data) => Ok(
                        ServeCmdModel::Write { id: id as u64, index, slot, subslot, data },
                    ),
                    Err(m) => Err(m),
                },
            }
        } else if cmd == "ping"@ {
            Ok(ServeCmdModel::Ping { id: id as u64 })
        } else if cmd == "quit"@ {
            Ok(ServeCmdModel::Quit { id: id as u64 })
        } else {
            Err(unknown_message(cmd))
        },
    }
}

fn needs(cmd: &str, key: &str) -> (e: String)
    ensures
        e@ == needs_message(cmd@, key@),
{
    let mut e = cmd.to_owned();
    e.append(" needs \"");
    e.append(key);
    e.append("\" (0..=65535)");
    e
}

fn field_u16(line: &[char], cmd: &str, key: &str) -> (r: Result<u16, String>)
    ensures
        ({
            let n = field_uint(line@, key@, u64::MAX as nat);
            if fits16(n) {
                r == Ok::<u16, String>(n->0 as u16)
            } else {
                r matches Err(e) && e@ == needs_message(cmd@, key@)
            }
        }),
{
    match json_field_u64(line, key) {
        Some(v) => {
            if v <= 0xFFFF {
                Ok(v as u16)
            } else {
                Err(needs(cmd, key))
            }
        },
        None => Err(needs(cmd, key)),
    }
}

fn place(line: &[char], cmd: &str) -> (r: Result<(u16, u16, u16), String>)
    ensures
        match place_of(line@, cmd@) {
            Ok(p) => r == Ok::<(u16, u16, u16), String>(p),
            Err(m) => r matches Err(e) && e@ == m,
        },
{
    let index: u16 = match field_u16(line, cmd, "index") {
        Ok(v) => v,
        Err(e) => {
            return Err(e);
        },
    };
    let slot: u16 = match field_u16(line, cmd, "slot") {
        Ok(v) => v,
        Err(e) => {
            return Err(e);
        },
    };
    match field_u16(line, cmd, "subslot") {
        Ok(subslot) => Ok((index, slot, subslot)),
        Err(e) => Err(e),
    }
}

/// Parse a request line.
///
/// The id is required: responses share their channel with unsolicited lines
/// and a retried request can answer late, so that matching on anything but an
/// id that the caller chose would be ambiguous.
pub fn parse_serve_cmd(line: &str) -> (r: Result<ServeCmd, String>)
    ensures
        match request_of(line@) {
            Ok(c) => r matches Ok(v) && v@ == c,
            Err(m) => r matches Err(e) && e@ == m,
        },
{
    let cs = chars_of(line);
    let l = cs.as_slice();
    let id: u64 = match json_field_u64(l, "id") {
        Some(v) => v,
        None => {
            return Err("missing \"id\" field".to_owned());
        },
    };
    let cmd = match json_field_str(l, "cmd") {
        Some(c) => c,
        None => {
            return Err("missing \"cmd\" field".to_owned());
        },
    };
    if str_eq(cmd.as_str(), "read") {
        let (index, slot, subslot) = match place(l, cmd.as_str()) {
            Ok(p) => p,
            Err(e) => {
                return Err(e);
            },
        };
        match json_field_u64(l, "len") {
            Some(v) => {
                if v <= u32::MAX as u64 {
                    Ok(ServeCmd::Read { id, index, slot, subslot, len: v as u32 })
                } else {
                    Err("read needs \"len\"".to_owned())
                }
            },
            None => Err("read needs \"len\"".to_owned()),
        }
    } else if str_eq(cmd.as_str(), "write") {
        let hex = match json_field_str(l, "hex") {
            Some(h) => h,
            None => {
                return Err("write needs \"hex\"".to_owned());
            },
        };
        let (index, slot, subslot) = match place(l, cmd.as_str()) {
            Ok(p) => p,
            Err(e) => {
                return Err(e);
            },
        };
        match parse_hex(hex.as_str()) {
            Ok(data) => Ok(ServeCmd::Write { id, index, slot, subslot, data }),
            Err(e) => Err(e),
        }
    } else if str_eq(cmd.as_str(), "ping") {
        Ok(ServeCmd::Ping { id })
    } else if str_eq(cmd.as_str(), "quit") {
        Ok(ServeCmd::Quit { id })
    } else {
        let mut e = "unknown cmd ".to_owned();
        e.append(debug_string(cmd.as_str()).as_str());
        Err(e)
    }
}

/// The meaning of a line. `quit` exists in both vocabularies: with an id, the
/// caller expects the response that carries it back.
pub open spec fn line_of(line: Seq<char>) -> Result<ServeLineModel, Seq<char>> {
    let cmd = field_str(line, "cmd"@);
    if cmd == Some("quit"@) && field_uint(line, "id"@, u64::MAX as nat) is None {
        Ok(ServeLineModel::Control(ControlCmd::Quit))
    } else if cmd == Some("set_level"@) || cmd == Some("pulse"@) || cmd == Some("keepalive"@) {
        match control_of(line) {
            Ok(c) => Ok(ServeLineModel::Control(c)),
            Err(m) => Err(m),
        }
    } else {
        match request_of(line) {
            Ok(c) => Ok(ServeLineModel::Rpc(c)),
            Err(m) => Err(m),
        }
    }
}

/// Parse a line of either vocabulary.
pub fn parse_serve_line(line: &str) -> (r: Result<ServeLine, String>)
    ensures
        match line_of(line@) {
            Ok(c) => r matches Ok(v) && v@ == c,
            Err(m) => r matches Err(e) && e@ == m,
        },
{
    let cs = chars_of(line);
    let l = cs.as_slice();
    let mut control = false;
    if let Some(cmd) = json_field_str(l, "cmd") {
        if str_eq(cmd.as_str(), "quit") && json_field_u64(l, "id").is_none() {
            return Ok(ServeLine::Control(ControlCmd::Quit));
        }
        control = str_eq(cmd.as_str(), "set_level") || str_eq(cmd.as_str(), "pulse") || str_eq(
            cmd.as_str(),
            "keepalive",
        );
    }
    if control {
        match parse_control_cmd(line) {
            Ok(c) => Ok(ServeLine::Control(c)),
            Err(e) => Err(e),
        }
    } else {
        match parse_serve_cmd(line) {
            Ok(c) => Ok(ServeLine::Rpc(c)),
            Err(e) => Err(e),
        }
    }
}

/// Every request carries an id: a line without one is no request.
pub proof fn requests_carry_an_id(line: Seq<char>)
    ensures
        line_of(line) matches Ok(ServeLineModel::Rpc(c)) ==> field_uint(
            line,
            "id"@,
            u64::MAX as nat,
        ) == Some(c.id() as nat),
{
    if let Some(n) = field_uint(line, "id"@, u64::MAX as nat) {
        assert(n <= u64::MAX);
    }
}

} // verus!
