//! How the lines of a serving session are written, and that a line is taken for what
//! it says: each field by its own name, and each command with its own fields.

use vstd::prelude::*;
use vstd::string::*;
use crate::cli::{hex_round_trips, number_of};
use crate::control::ControlCmd;
use crate::requests::{
    field_bool, field_raw, field_str, field_uint, is_alnum, line_of, quoted, token_end,
    ServeCmdModel, ServeLineModel,
};
use crate::text::{
    all_digits, begins_with, dec, dec_is_digits, digit_char, digit_char_value, digits_value,
    find_from, fits_hex, hex, hex_round_trip, hex_text, is_digit, is_white, stands_at,
    trimmed_start, uint_of, unsigned_digits,
};

verus! {

/// A number in decimal notation reads back, as long as it is no larger than what is
/// allowed.
pub proof fn decimal_numbers_read_back(n: nat, max: nat)
    ensures
        number_of(dec(n), max) == if n <= max {
            Some(n)
        } else {
            None::<nat>
        },
        uint_of(dec(n), 10, max) == number_of(dec(n), max),
{
    lemma_dec_value(n);
    dec_is_digits(n);
    let d = dec(n);
    assert(is_digit(d[0]));
    assert(d.len() > 1 ==> is_digit(d[1]));
    assert(unsigned_digits(d) == d);
}

proof fn lemma_dec_value(n: nat)
    ensures
        all_digits(dec(n), 10),
        digits_value(dec(n), 10) == n,
    decreases n,
{
    let d = dec(n);
    if n < 10 {
        digit_char_value(n, false);
        assert(d.drop_last() =~= Seq::<char>::empty());
        assert(d.last() == digit_char(n, false));
        reveal_with_fuel(digits_value, 2);
    } else {
        lemma_dec_value(n / 10);
        digit_char_value(n % 10, false);
        assert(d.drop_last() =~= dec(n / 10));
        assert(d.last() == digit_char(n % 10, false));
    }
    dec_is_digits(n);
}

/// A number in hexadecimal notation behind "0x" reads back.
pub proof fn hexadecimal_numbers_read_back(n: nat, width: nat, upper: bool, max: nat)
    requires
        fits_hex(n, width),
        width > 0,
        n <= max,
    ensures
        number_of(seq!['0', 'x'] + hex(n, width, upper), max) == Some(n),
{
    let h = hex(n, width, upper);
    let s = seq!['0', 'x'] + h;
    hex_round_trip(n, width, upper);
    assert(s[0] == '0' && s[1] == 'x');
    assert(s.skip(2) =~= h);
}

/// A line states a value under a key: the key in quotes, a colon, the value, and
/// then a comma, a closing brace or the end; and the quoted key stands nowhere
/// before that.
pub open spec fn states_at(line: Seq<char>, key: Seq<char>, value: Seq<char>, pre: Seq<char>, post: Seq<char>) -> bool {
    &&& line == pre + quoted(key) + seq![':'] + value + post
    &&& forall|i: int| 0 <= i < pre.len() ==> !#[trigger] stands_at(line, quoted(key), i)
    &&& value.len() > 0
    &&& !is_white(value[0])
    &&& post.len() == 0 || post[0] == ',' || post[0] == '}'
}

/// A line states a value under a key.
pub open spec fn states(line: Seq<char>, key: Seq<char>, value: Seq<char>) -> bool {
    exists|pre: Seq<char>, post: Seq<char>| #[trigger] states_at(line, key, value, pre, post)
}

/// A line says nothing under a key.
pub open spec fn leaves_out(line: Seq<char>, key: Seq<char>) -> bool {
    forall|i: int| !#[trigger] stands_at(line, quoted(key), i)
}

/// A text in quotes, itself without one.
pub open spec fn in_quotes(text: Seq<char>) -> Seq<char> {
    seq!['"'] + text + seq!['"']
}

proof fn lemma_found(hay: Seq<char>, needle: Seq<char>, from: int, at: int)
    requires
        0 <= from <= at,
        stands_at(hay, needle, at),
        forall|i: int| from <= i < at ==> !#[trigger] stands_at(hay, needle, i),
    ensures
        find_from(hay, needle, from) == Some(at),
    decreases at - from,
{
    if from < at {
        assert(!stands_at(hay, needle, from));
        lemma_found(hay, needle, from + 1, at);
    }
}

proof fn lemma_not_found(hay: Seq<char>, needle: Seq<char>, from: int)
    requires
        0 <= from,
        forall|i: int| !#[trigger] stands_at(hay, needle, i),
    ensures
        find_from(hay, needle, from) is None,
    decreases hay.len() + 1 - from,
{
    if from + needle.len() <= hay.len() {
        assert(!stands_at(hay, needle, from));
        lemma_not_found(hay, needle, from + 1);
    }
}

proof fn lemma_raw(line: Seq<char>, key: Seq<char>, value: Seq<char>, pre: Seq<char>, post: Seq<char>)
    requires
        states_at(line, key, value, pre, post),
    ensures
        field_raw(line, key) == Some(value + post),
{
    let q = quoted(key);
    let at = pre.len() as int;
    assert(line.subrange(at, at + q.len()) =~= q);
    lemma_found(line, q, 0, at);
    let rest = line.skip(at + q.len());
    assert(rest =~= seq![':'] + value + post);
    assert(rest[0] == ':');
    assert(!is_white(':'));
    assert(rest.skip(1) =~= value + post);
    assert((value + post)[0] == value[0]);
}

proof fn lemma_token_end(s: Seq<char>, n: int, end: int)
    requires
        0 <= n <= end <= s.len(),
        forall|i: int| n <= i < end ==> is_alnum(#[trigger] s[i]),
        end == s.len() || !is_alnum(s[end]),
    ensures
        token_end(s, n) == end,
    decreases end - n,
{
    if n < end {
        assert(is_alnum(s[n]));
        lemma_token_end(s, n + 1, end);
    }
}

/// A number that a line states under a key is the number that is read under it;
/// without the key, none is.
pub proof fn stated_numbers_are_read(line: Seq<char>, key: Seq<char>, n: nat, max: nat)
    ensures
        states(line, key, dec(n)) && n <= max ==> field_uint(line, key, max) == Some(n),
        leaves_out(line, key) ==> field_uint(line, key, max) is None,
{
    if states(line, key, dec(n)) && n <= max {
        let (pre, post) = choose|pre: Seq<char>, post: Seq<char>| #[trigger]
            states_at(line, key, dec(n), pre, post);
        let d = dec(n);
        lemma_raw(line, key, d, pre, post);
        dec_is_digits(n);
        let raw = d + post;
        assert(is_digit(d[0]));
        assert(raw[0] == d[0]);
        assert(trimmed_start(raw) == raw);
        assert forall|i: int| 0 <= i < d.len() implies is_alnum(#[trigger] raw[i]) by {
            assert(raw[i] == d[i]);
            assert(is_digit(d[i]));
        }
        if post.len() > 0 {
            assert(raw[d.len() as int] == post[0]);
        }
        lemma_token_end(raw, 0, d.len() as int);
        assert(raw.take(d.len() as int) =~= d);
        decimal_numbers_read_back(n, max);
    }
    if leaves_out(line, key) {
        lemma_not_found(line, quoted(key), 0);
    }
}

/// A text that a line states in quotes under a key is the text that is read under
/// it; without the key, none is.
pub proof fn stated_texts_are_read(line: Seq<char>, key: Seq<char>, text: Seq<char>)
    requires
        forall|i: int| 0 <= i < text.len() ==> #[trigger] text[i] != '"',
    ensures
        states(line, key, in_quotes(text)) ==> field_str(line, key) == Some(text),
        leaves_out(line, key) ==> field_str(line, key) is None,
{
    if states(line, key, in_quotes(text)) {
        let (pre, post) = choose|pre: Seq<char>, post: Seq<char>| #[trigger]
            states_at(line, key, in_quotes(text), pre, post);
        lemma_raw(line, key, in_quotes(text), pre, post);
        let raw = in_quotes(text) + post;
        let rest = raw.skip(1);
        let q = seq!['"'];
        let at = text.len() as int;
        assert(rest =~= text + q + post);
        assert(rest.subrange(at, at + 1) =~= q);
        assert forall|i: int| 0 <= i < at implies !#[trigger] stands_at(rest, q, i) by {
            if stands_at(rest, q, i) {
                assert(rest.subrange(i, i + 1)[0] == q[0]);
                assert(rest[i] == text[i]);
            }
        }
        lemma_found(rest, q, 0, at);
        assert(rest.take(at) =~= text);
    }
    if leaves_out(line, key) {
        lemma_not_found(line, quoted(key), 0);
    }
}

/// A flag that a line states under a key is the flag that is read under it.
pub proof fn stated_flags_are_read(line: Seq<char>, key: Seq<char>)
    ensures
        states(line, key, "true"@) ==> field_bool(line, key) == Some(true),
        states(line, key, "false"@) ==> field_bool(line, key) == Some(false),
        leaves_out(line, key) ==> field_bool(line, key) is None,
{
    reveal_strlit("true");
    reveal_strlit("false");
    if states(line, key, "true"@) {
        let (pre, post) = choose|pre: Seq<char>, post: Seq<char>| #[trigger]
            states_at(line, key, "true"@, pre, post);
        lemma_raw(line, key, "true"@, pre, post);
        assert(("true"@ + post).subrange(0, 4) =~= "true"@);
    }
    if states(line, key, "false"@) {
        let (pre, post) = choose|pre: Seq<char>, post: Seq<char>| #[trigger]
            states_at(line, key, "false"@, pre, post);
        lemma_raw(line, key, "false"@, pre, post);
        let raw = "false"@ + post;
        assert(raw.subrange(0, 5) =~= "false"@);
        assert(!begins_with(raw, "true"@)) by {
            if begins_with(raw, "true"@) {
                assert(raw.subrange(0, 4)[0] == "true"@[0]);
                assert(raw[0] == 'f');
            }
        }
    }
    if leaves_out(line, key) {
        lemma_not_found(line, quoted(key), 0);
    }
}

/// A line states a command.
pub open spec fn commands(line: Seq<char>, cmd: Seq<char>) -> bool {
    states(line, "cmd"@, in_quotes(cmd))
}

proof fn lemma_commands(line: Seq<char>)
    ensures
        commands(line, "read"@) ==> field_str(line, "cmd"@) == Some("read"@),
        commands(line, "write"@) ==> field_str(line, "cmd"@) == Some("write"@),
        commands(line, "ping"@) ==> field_str(line, "cmd"@) == Some("ping"@),
        commands(line, "quit"@) ==> field_str(line, "cmd"@) == Some("quit"@),
        commands(line, "set_level"@) ==> field_str(line, "cmd"@) == Some("set_level"@),
        commands(line, "pulse"@) ==> field_str(line, "cmd"@) == Some("pulse"@),
        commands(line, "keepalive"@) ==> field_str(line, "cmd"@) == Some("keepalive"@),
        "read"@ != "quit"@ && "read"@ != "set_level"@ && "read"@ != "pulse"@ && "read"@
            != "keepalive"@ && "read"@ != "write"@,
        "write"@ != "quit"@ && "write"@ != "set_level"@ && "write"@ != "pulse"@ && "write"@
            != "keepalive"@,
        "ping"@ != "quit"@ && "ping"@ != "set_level"@ && "ping"@ != "pulse"@ && "ping"@
            != "keepalive"@ && "ping"@ != "read"@ && "ping"@ != "write"@,
        "quit"@ != "set_level"@ && "quit"@ != "pulse"@ && "quit"@ != "keepalive"@ && "quit"@
            != "read"@ && "quit"@ != "write"@,
        "pulse"@ != "quit"@ && "pulse"@ != "set_level"@,
        "set_level"@ != "quit"@,
        "keepalive"@ != "quit"@ && "keepalive"@ != "set_level"@ && "keepalive"@ != "pulse"@,
{
    reveal_strlit("read");
    reveal_strlit("write");
    reveal_strlit("ping");
    reveal_strlit("quit");
    reveal_strlit("set_level");
    reveal_strlit("pulse");
    reveal_strlit("keepalive");
    stated_texts_are_read(line, "cmd"@, "read"@);
    stated_texts_are_read(line, "cmd"@, "write"@);
    stated_texts_are_read(line, "cmd"@, "ping"@);
    stated_texts_are_read(line, "cmd"@, "quit"@);
    stated_texts_are_read(line, "cmd"@, "set_level"@);
    stated_texts_are_read(line, "cmd"@, "pulse"@);
    stated_texts_are_read(line, "cmd"@, "keepalive"@);
    assert("read"@[0] == 'r' && "write"@[0] == 'w' && "quit"@[0] == 'q' && "set_level"@[0] == 's'
        && "keepalive"@[0] == 'k');
    assert("ping"@[0] == 'p' && "ping"@[1] == 'i' && "pulse"@[0] == 'p' && "pulse"@[1] == 'u');
}

/// A line states where: index, slot and subslot.
pub open spec fn states_place(line: Seq<char>, index: u16, slot: u16, subslot: u16) -> bool {
    &&& states(line, "index"@, dec(index as nat))
    &&& states(line, "slot"@, dec(slot as nat))
    &&& states(line, "subslot"@, dec(subslot as nat))
}

/// A line that states a read, its id, its place and its length is taken for just
/// that read, and one that states a write, its id, its place and its data in
/// hexadecimal for just that write.
pub proof fn stated_requests_are_taken(
    line: Seq<char>,
    id: u64,
    index: u16,
    slot: u16,
    subslot: u16,
    len: u32,
    data: Seq<u8>,
)
    requires
        states(line, "id"@, dec(id as nat)),
        states_place(line, index, slot, subslot),
    ensures
        commands(line, "read"@) && states(line, "len"@, dec(len as nat)) ==> line_of(line) == Ok::<
            ServeLineModel,
            Seq<char>,
        >(ServeLineModel::Rpc(ServeCmdModel::Read { id, index, slot, subslot, len })),
        commands(line, "write"@) && states(line, "hex"@, in_quotes(hex_text(data))) ==> line_of(
            line,
        ) == Ok::<ServeLineModel, Seq<char>>(
            ServeLineModel::Rpc(ServeCmdModel::Write { id, index, slot, subslot, data }),
        ),
{
    let max = u64::MAX as nat;
    lemma_commands(line);
    stated_numbers_are_read(line, "id"@, id as nat, max);
    stated_numbers_are_read(line, "index"@, index as nat, max);
    stated_numbers_are_read(line, "slot"@, slot as nat, max);
    stated_numbers_are_read(line, "subslot"@, subslot as nat, max);
    stated_numbers_are_read(line, "len"@, len as nat, max);
    lemma_no_quotes(data);
    stated_texts_are_read(line, "hex"@, hex_text(data));
    hex_round_trips(data);
}

proof fn lemma_no_quotes(data: Seq<u8>)
    ensures
        forall|i: int| 0 <= i < hex_text(data).len() ==> #[trigger] hex_text(data)[i] != '"',
    decreases data.len(),
{
    if data.len() > 0 {
        lemma_no_quotes(data.drop_last());
        let b = data.last() as nat;
        let h = hex(b, 2, false);
        reveal_with_fuel(hex, 3);
        digit_char_value(b % 16, false);
        digit_char_value(b / 16 % 16, false);
        assert(h[0] == digit_char(b / 16 % 16, false));
        assert(h[1] == digit_char(b % 16, false));
        let t = hex_text(data.drop_last());
        assert(hex_text(data) == t + h);
        assert forall|i: int| 0 <= i < hex_text(data).len() implies #[trigger] hex_text(data)[i]
            != '"' by {
            if i < t.len() {
                assert(hex_text(data)[i] == t[i]);
            } else {
                assert(hex_text(data)[i] == h[i - t.len()]);
            }
        }
    }
}

/// A ping and a quit with an id are taken for what they state, with that id; a quit
/// without one ends the session.
pub proof fn stated_pings_and_quits_are_taken(line: Seq<char>, id: u64)
    ensures
        states(line, "id"@, dec(id as nat)) && commands(line, "ping"@) ==> line_of(line) == Ok::<
            ServeLineModel,
            Seq<char>,
        >(ServeLineModel::Rpc(ServeCmdModel::Ping { id })),
        states(line, "id"@, dec(id as nat)) && commands(line, "quit"@) ==> line_of(line) == Ok::<
            ServeLineModel,
            Seq<char>,
        >(ServeLineModel::Rpc(ServeCmdModel::Quit { id })),
        leaves_out(line, "id"@) && commands(line, "quit"@) ==> line_of(line) == Ok::<
            ServeLineModel,
            Seq<char>,
        >(ServeLineModel::Control(ControlCmd::Quit)),
{
    lemma_commands(line);
    stated_numbers_are_read(line, "id"@, id as nat, u64::MAX as nat);
}

/// Control commands are taken for what they state: a level with its mask and whether
/// it is to be on, a pulse with its mask, and a keepalive.
pub proof fn stated_controls_are_taken(line: Seq<char>, mask: u8)
    ensures
        commands(line, "set_level"@) && states(line, "mask"@, dec(mask as nat)) && states(
            line,
            "on"@,
            "true"@,
        ) ==> line_of(line) == Ok::<ServeLineModel, Seq<char>>(
            ServeLineModel::Control(ControlCmd::SetLevel { mask, on: true }),
        ),
        commands(line, "set_level"@) && states(line, "mask"@, dec(mask as nat)) && states(
            line,
            "on"@,
            "false"@,
        ) ==> line_of(line) == Ok::<ServeLineModel, Seq<char>>(
            ServeLineModel::Control(ControlCmd::SetLevel { mask, on: false }),
        ),
        commands(line, "pulse"@) && states(line, "mask"@, dec(mask as nat)) ==> line_of(line) == Ok::<
            ServeLineModel,
            Seq<char>,
        >(ServeLineModel::Control(ControlCmd::Pulse { mask })),
        commands(line, "keepalive"@) ==> line_of(line) == Ok::<ServeLineModel, Seq<char>>(
            ServeLineModel::Control(ControlCmd::Keepalive),
        ),
{
    lemma_commands(line);
    stated_numbers_are_read(line, "mask"@, mask as nat, 255);
    stated_flags_are_read(line, "on"@);
}

} // verus!
