//! The input and output images that a device reports as records, and what its
//! error messages say.

use vstd::prelude::*;
use vstd::slice::*;
use vstd::string::*;
use crate::bytes::{be16, be16_at, be16_placed, read_be16};
use crate::text::{
    chars_of, contains_text, find_chars, find_from, find_is_contains, fits_hex, hex,
    hex_digit_value, hex_round_trip, is_hex_digit, stands_at, str_contains, string_of,
};
use crate::transport::{status_outcome, status_text, u32_in};

verus! {

/// Where the data length of an input record stands: behind the block header
/// and two arrays of status bytes, each with its count in front.
pub open spec fn input_length_at(record: Seq<u8>) -> Option<int> {
    if record.len() <= 6 {
        None
    } else {
        let second = 7 + record[6];
        if record.len() <= second {
            None
        } else {
            Some(second + 1 + record[second])
        }
    }
}

/// The length of the input image in an input record (index 0x8028), if all of
/// it is there.
pub open spec fn input_length(record: Seq<u8>) -> Option<nat> {
    match input_length_at(record) {
        None => None,
        Some(at) => if record.len() < at + 2 || record.len() < at + 2 + be16_at(record, at) {
            None
        } else {
            Some(be16_at(record, at) as nat)
        },
    }
}

/// Length of the input image that the device actually provides, from an input
/// record (index 0x8028): block header (6), count and consumer status, count
/// and provider status, data length (2), data. None if the record is truncated
/// or a declared length runs past its end.
///
/// It catches a device description that does not match the running firmware:
/// one that declares a longer input image makes every cyclic read yield
/// nothing, with a healthy AR all the while.
pub fn parse_input_data_length(record: &[u8]) -> (r: Option<usize>)
    ensures
        match input_length(record@) {
            Some(n) => r matches Some(v) && v == n,
            None => r is None,
        },
{
    let total: usize = record.len();
    if total <= 6 {
        return None;
    }
    let second: usize = 7 + record[6] as usize;
    if total <= second {
        return None;
    }
    let at: usize = second + 1 + record[second] as usize;
    if total < at || total - at < 2 {
        return None;
    }
    let len: usize = read_be16(record, at) as usize;
    if total - at - 2 < len {
        return None;
    }
    Some(len)
}

/// The control byte in an output record (index 0x8029).
pub open spec fn control_byte(record: Seq<u8>) -> Option<u8> {
    if record.len() < 12 || record[0] != 0x00 || record[1] != 0x16 || be16_at(record, 10) == 0
        || record.len() <= 12 + record[8] {
        None
    } else {
        Some(record[12 + record[8]])
    }
}

/// The control byte in an output record (index 0x8029): block header (type
/// 0x0016, 6), substitute flag (2), lengths of consumer and provider status
/// (1 each), length of the data item (2), then the item: consumer status, data,
/// provider status. The control byte is the first data byte.
///
/// It is the byte that the device applies, whether that comes from a controller
/// or from substitute values; see [`output_substitute_active`].
pub fn parse_output_control_byte(record: &[u8]) -> (r: Option<u8>)
    ensures
        r == control_byte(record@),
{
    if record.len() < 12 || record[0] != 0x00 || record[1] != 0x16 {
        return None;
    }
    if read_be16(record, 10) == 0 {
        return None;
    }
    let at: usize = 12 + record[8] as usize;
    if at < record.len() {
        Some(record[at])
    } else {
        None
    }
}

/// The device applies substitute values.
pub open spec fn substitutes(record: Seq<u8>) -> bool {
    record.len() >= 8 && be16_at(record, 6) != 0
}

/// Substitute flag of an output record (index 0x8029): the device applies
/// substitute values instead of a controller's data.
///
/// Before a takeover that is the expected state, and the byte alone counts.
/// While we hold the AR it means that our data is not in effect, so that a safe
/// byte read back proves nothing.
pub fn output_substitute_active(record: &[u8]) -> (r: bool)
    ensures
        r == substitutes(record@),
{
    record.len() >= 8 && read_be16(record, 6) != 0
}

/// The record proves that the safe image we drive is in effect: it is our data
/// that the device applies, and that is the safe byte.
pub open spec fn proves_safe(record: Seq<u8>) -> bool {
    !substitutes(record) && control_byte(record) == Some(0u8)
}

/// Whether a record proves that the safe image we drive is in effect.
pub fn is_proof_of_safety(record: &[u8]) -> (r: bool)
    ensures
        r == proves_safe(record@),
{
    !output_substitute_active(record) && match parse_output_control_byte(record) {
        Some(b) => b == 0x00,
        None => false,
    }
}

/// Whether an error means that the AR is gone, rather than that the device
/// answered no: a device that rejects an index gives a normal negative answer,
/// while on a dead AR every later request is meaningless.
pub fn is_transport_failure(msg: &str) -> (r: bool)
    ensures
        r == !contains_text(msg@, "PNIO error status"@),
{
    !str_contains(msg, "PNIO error status")
}

/// Whether the device refused because it was asked again too soon.
pub fn is_busy(msg: &str) -> (r: bool)
    ensures
        r == contains_text(msg@, "DE80C200"@),
{
    str_contains(msg, "DE80C200")
}

/// The end of the hexadecimal digits from `n` on.
pub open spec fn digits_end(s: Seq<char>, n: int) -> int
    decreases s.len() - n,
{
    if 0 <= n < s.len() && is_hex_digit(s[n]) {
        digits_end(s, n + 1)
    } else {
        n
    }
}

/// The eight digits of the status in an error message, if it has one.
pub open spec fn status_digits(msg: Seq<char>) -> Option<Seq<char>> {
    match find_from(msg, "PNIO error status 0x"@, 0) {
        None => None,
        Some(i) => {
            let at = i + "PNIO error status 0x"@.len();
            if digits_end(msg, at) == at + 8 {
                Some(msg.subrange(at, at + 8))
            } else {
                None
            }
        },
    }
}

/// The status digits of an error message, if it has one, verbatim: callers
/// match on the exact code.
pub fn pnio_status_of(msg: &str) -> (r: Option<String>)
    ensures
        match status_digits(msg@) {
            Some(d) => r matches Some(s) && s@ == d,
            None => r is None,
        },
{
    let cs = chars_of(msg);
    let pat = chars_of("PNIO error status 0x");
    let total: usize = cs.len();
    match find_chars(cs.as_slice(), pat.as_slice()) {
        None => None,
        Some(i) => {
            assert(i + pat@.len() <= total);
            let at: usize = i + pat.len();
            let mut n: usize = at;
            while n < total && hex_digit_value(cs[n]).is_some()
                invariant
                    at <= n <= total == cs@.len(),
                    digits_end(cs@, n as int) == digits_end(cs@, at as int),
                decreases total - n,
            {
                n = n + 1;
            }
            if n - at == 8 {
                Some(string_of(slice_subrange(cs.as_slice(), at, n)))
            } else {
                None
            }
        },
    }
}

/// A device that answers with a status did not lose the connection.
pub proof fn a_status_is_an_answer(msg: Seq<char>)
    requires
        status_digits(msg) is Some,
    ensures
        contains_text(msg, "PNIO error status"@),
{
    find_is_contains(msg, "PNIO error status 0x"@, 0);
    let i = find_from(msg, "PNIO error status 0x"@, 0)->0;
    reveal_strlit("PNIO error status 0x");
    reveal_strlit("PNIO error status");
    let whole = "PNIO error status 0x"@;
    let part = "PNIO error status"@;
    assert(whole.subrange(0, 17) =~= part);
    assert(msg.subrange(i, i + 20).subrange(0, 17) =~= msg.subrange(i, i + 17));
    assert(stands_at(msg, part, i));
}

/// What a device answers to a read or a write with a status is recognised as an
/// answer, and the status found in it is the one that the device gave.
pub proof fn device_errors_are_answers(payload: Seq<u8>, le: bool)
    requires
        payload.len() >= 20,
        u32_in(payload, 0, le) != 0,
    ensures
        status_outcome(payload, le) matches Err(m) && contains_text(m, "PNIO error status"@)
            && status_digits(m) == Some(hex(u32_in(payload, 0, le) as nat, 8, true)),
{
    let status = u32_in(payload, 0, le);
    let n = status as nat;
    let m = "PNIO error status "@ + status_text(status);
    reveal_with_fuel(fits_hex, 9);
    assert(n / 16 <= 0xFFF_FFFF);
    assert(n / 16 / 16 <= 0xFF_FFFF);
    assert(n / 16 / 16 / 16 <= 0xF_FFFF);
    assert(n / 16 / 16 / 16 / 16 <= 0xFFFF);
    assert(n / 16 / 16 / 16 / 16 / 16 <= 0xFFF);
    assert(n / 16 / 16 / 16 / 16 / 16 / 16 <= 0xFF);
    assert(n / 16 / 16 / 16 / 16 / 16 / 16 / 16 <= 0xF);
    hex_round_trip(n, 8, true);
    let d = hex(n, 8, true);
    reveal_strlit("PNIO error status ");
    reveal_strlit("PNIO error status 0x");
    reveal_strlit("0x");
    reveal_strlit(" (");
    assert(m.subrange(0, 20) =~= "PNIO error status 0x"@);
    assert(stands_at(m, "PNIO error status 0x"@, 0));
    assert(m.subrange(20, 28) =~= d);
    assert forall|i: int| 20 <= i < 28 implies is_hex_digit(#[trigger] m[i]) by {
        assert(m[i] == m.subrange(20, 28)[i - 20]);
        assert(is_hex_digit(d[i - 20]));
    }
    assert(m[28] == ' ');
    assert(!is_hex_digit(m[28]));
    reveal_with_fuel(digits_end, 10);
    assert(digits_end(m, 20) == 28);
    a_status_is_an_answer(m);
}

/// An input record as a device lays it out: block header, consumer status and
/// provider status behind their lengths, and the input image behind its length.
pub open spec fn laid_out_input(header: Seq<u8>, consumer: Seq<u8>, provider: Seq<u8>, length: u16, image: Seq<u8>) -> Seq<u8> {
    header + seq![consumer.len() as u8] + consumer + seq![provider.len() as u8] + provider + be16(
        length,
    ) + image
}

/// The length of the input image is what the record states, as long as the record
/// holds that much; a record that ends before its image does gives none.
pub proof fn the_input_length_is_read(
    header: Seq<u8>,
    consumer: Seq<u8>,
    provider: Seq<u8>,
    length: u16,
    image: Seq<u8>,
)
    requires
        header.len() == 6,
        consumer.len() <= 0xFF,
        provider.len() <= 0xFF,
    ensures
        input_length(laid_out_input(header, consumer, provider, length, image)) == if image.len()
            >= length {
            Some(length as nat)
        } else {
            None::<nat>
        },
{
    let r = laid_out_input(header, consumer, provider, length, image);
    let second = 7 + consumer.len() as int;
    let at = second + 1 + provider.len();
    assert(r[6] == consumer.len());
    assert(r[second] == provider.len());
    be16_placed(r, at, length);
}

/// An output record as a device lays it out: block header, whether substitute values
/// are in effect, the lengths of consumer status, provider status and image, the
/// consumer status, the image, and the rest.
pub open spec fn laid_out_output(
    length: u16,
    version: (u8, u8),
    substitute: u16,
    provider_len: u8,
    consumer: Seq<u8>,
    image: Seq<u8>,
    rest: Seq<u8>,
) -> Seq<u8> {
    be16(0x0016) + be16(length) + seq![version.0, version.1] + be16(substitute) + seq![
        consumer.len() as u8,
        provider_len,
    ] + be16(image.len() as u16) + consumer + image + rest
}

/// The control byte is the first byte of the output image, behind the consumer
/// status; the flag for substitute values is its own; and a record proves the safe
/// image exactly if our data are in effect and that byte is zero.
pub proof fn the_output_image_is_read(
    length: u16,
    version: (u8, u8),
    substitute: u16,
    provider_len: u8,
    consumer: Seq<u8>,
    image: Seq<u8>,
    rest: Seq<u8>,
)
    requires
        consumer.len() <= 0xFF,
        0 < image.len() <= 0xFFFF,
    ensures
        ({
            let r = laid_out_output(
                length,
                version,
                substitute,
                provider_len,
                consumer,
                image,
                rest,
            );
            &&& control_byte(r) == Some(image[0])
            &&& substitutes(r) <==> substitute != 0
            &&& proves_safe(r) <==> substitute == 0 && image[0] == 0
        }),
{
    let r = laid_out_output(length, version, substitute, provider_len, consumer, image, rest);
    be16_placed(r, 0, 0x0016);
    assert(r[0] == 0x00 && r[1] == 0x16);
    be16_placed(r, 6, substitute);
    assert(r[8] == consumer.len());
    be16_placed(r, 10, image.len() as u16);
    assert(r[12 + consumer.len() as int] == image[0]);
}

/// A record of another type, and one without an image, has no control byte, and
/// proves nothing.
pub proof fn other_records_prove_nothing(
    block_type: u16,
    length: u16,
    version: (u8, u8),
    substitute: u16,
    lengths: (u8, u8),
    image_len: u16,
    rest: Seq<u8>,
)
    requires
        block_type != 0x0016 || image_len == 0,
    ensures
        ({
            let r = be16(block_type) + be16(length) + seq![version.0, version.1] + be16(substitute)
                + seq![lengths.0, lengths.1] + be16(image_len) + rest;
            control_byte(r) is None && !proves_safe(r)
        }),
{
    let r = be16(block_type) + be16(length) + seq![version.0, version.1] + be16(substitute) + seq![
        lengths.0,
        lengths.1,
    ] + be16(image_len) + rest;
    be16_placed(r, 0, block_type);
    be16_placed(r, 10, image_len);
    if r[0] == 0x00 && r[1] == 0x16 {
        assert(be16_at(r, 0) == 0x0016);
    }
}

} // verus!
