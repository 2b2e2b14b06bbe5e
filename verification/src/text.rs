//! Text built and taken apart one character at a time: numbers in decimal and
//! hexadecimal, digits back to numbers, and substring search.

use vstd::prelude::*;
use vstd::string::*;

verus! {

/// `String::push` appends the given character to the end of the string.
pub assume_specification[ String::push ](s: &mut String, c: char)
    ensures
        final(s)@ == old(s)@.push(c),
;

/// What `{:?}` prints of a string: the text in double quotes, with escapes.
pub uninterp spec fn debug_text(s: Seq<char>) -> Seq<char>;

/// The standard library's `Debug` text of a string, through `format!`. The
/// text is named rather than spelled out: it is a function of the string's
/// characters alone.
#[verifier::external_body]
pub(crate) fn debug_string(s: &str) -> (r: String)
    ensures
        r@ == debug_text(s@),
{
    format!("{:?}", s)
}

/// What the standard library reads from bytes that are not valid UTF-8: text
/// with replacement characters.
pub uninterp spec fn lossy_text(b: Seq<u8>) -> Seq<char>;

/// Bytes as text: decoded where they are valid UTF-8, repaired where not.
pub open spec fn lossy(b: Seq<u8>) -> Seq<char> {
    if vstd::utf8::valid_utf8(b) {
        vstd::utf8::decode_utf8(b)
    } else {
        lossy_text(b)
    }
}

/// The UTF-8 encoding of a text reads back as that text.
pub proof fn lossy_of_encoded(s: Seq<char>)
    ensures
        lossy(vstd::utf8::encode_utf8(s)) == s,
{
    broadcast use {vstd::utf8::encode_utf8_valid_utf8, vstd::utf8::encode_utf8_decode_utf8};

}

/// `String::from_utf8_lossy`: valid UTF-8 is decoded as it is; of other bytes
/// only that the text is a function of them is claimed.
#[verifier::external_body]
pub(crate) fn utf8_lossy(b: &[u8]) -> (r: String)
    ensures
        r@ == if vstd::utf8::valid_utf8(b@) {
            vstd::utf8::decode_utf8(b@)
        } else {
            lossy_text(b@)
        },
{
    String::from_utf8_lossy(b).into_owned()
}

/// The character of a hexadecimal digit.
pub open spec fn digit_char(n: nat, upper: bool) -> char {
    if n < 10 {
        (48 + n) as u8 as char
    } else if upper {
        (55 + n) as u8 as char
    } else {
        (87 + n) as u8 as char
    }
}

/// Decimal notation without leading zeros.
pub open spec fn dec(n: nat) -> Seq<char>
    decreases n,
{
    if n < 10 {
        seq![digit_char(n, false)]
    } else {
        dec(n / 10).push(digit_char(n % 10, false))
    }
}

/// The last `width` hexadecimal digits.
pub open spec fn hex(n: nat, width: nat, upper: bool) -> Seq<char>
    decreases width,
{
    if width == 0 {
        Seq::empty()
    } else {
        hex(n / 16, (width - 1) as nat, upper).push(digit_char(n % 16, upper))
    }
}

/// The number of hexadecimal digits that `n` needs; one for zero.
pub open spec fn hex_digits(n: nat) -> nat
    decreases n,
{
    if n < 16 {
        1
    } else {
        1 + hex_digits(n / 16)
    }
}

/// Two lower-case hexadecimal digits for each byte.
pub open spec fn hex_text(data: Seq<u8>) -> Seq<char>
    decreases data.len(),
{
    if data.len() == 0 {
        Seq::empty()
    } else {
        hex_text(data.drop_last()) + hex(data.last() as nat, 2, false)
    }
}

/// Whether `c` is an ASCII decimal digit.
pub open spec fn is_digit(c: char) -> bool {
    '0' <= c <= '9'
}

/// Whether `c` is an ASCII hexadecimal digit, in either case.
pub open spec fn is_hex_digit(c: char) -> bool {
    is_digit(c) || 'a' <= c <= 'f' || 'A' <= c <= 'F'
}

/// The value of a hexadecimal digit.
pub open spec fn hex_value(c: char) -> int
    recommends
        is_hex_digit(c),
{
    if is_digit(c) {
        c as int - '0' as int
    } else if 'a' <= c <= 'f' {
        c as int - 'a' as int + 10
    } else {
        c as int - 'A' as int + 10
    }
}

/// The value of `c` as a hexadecimal digit, if it is one.
pub fn hex_digit_value(c: char) -> (r: Option<u8>)
    ensures
        r is Some <==> is_hex_digit(c),
        r matches Some(v) ==> v == hex_value(c) && v < 16,
{
    if '0' <= c && c <= '9' {
        Some((c as u32 - 48) as u8)
    } else if 'a' <= c && c <= 'f' {
        Some((c as u32 - 97 + 10) as u8)
    } else if 'A' <= c && c <= 'F' {
        Some((c as u32 - 65 + 10) as u8)
    } else {
        None
    }
}

/// A digit's character has the digit's value.
pub proof fn digit_char_value(n: nat, upper: bool)
    requires
        n < 16,
    ensures
        is_hex_digit(digit_char(n, upper)),
        hex_value(digit_char(n, upper)) == n,
        n < 10 ==> is_digit(digit_char(n, upper)),
{
}

/// Decimal notation is made of digits, and of at least one.
pub proof fn dec_is_digits(n: nat)
    ensures
        dec(n).len() > 0,
        forall|i: int| 0 <= i < dec(n).len() ==> is_digit(#[trigger] dec(n)[i]),
    decreases n,
{
    if n >= 10 {
        dec_is_digits(n / 10);
    }
}

/// Different numbers have different decimal notations.
pub proof fn dec_injective(a: nat, b: nat)
    requires
        dec(a) == dec(b),
    ensures
        a == b,
    decreases a,
{
    dec_is_digits(a / 10);
    dec_is_digits(b / 10);
    digit_char_value(a % 10, false);
    digit_char_value(b % 10, false);
    assert(dec(a).last() == digit_char(a % 10, false));
    assert(dec(b).last() == digit_char(b % 10, false));
    if a >= 10 && b >= 10 {
        assert(dec(a).drop_last() =~= dec(a / 10));
        assert(dec(b).drop_last() =~= dec(b / 10));
        dec_injective(a / 10, b / 10);
    }
}

fn digit(n: u8, upper: bool) -> (c: char)
    requires
        n < 16,
    ensures
        c == digit_char(n as nat, upper),
{
    if n < 10 {
        (48 + n) as char
    } else if upper {
        (55 + n) as char
    } else {
        (87 + n) as char
    }
}

/// `n` in decimal.
pub fn dec_string(n: u128) -> (s: String)
    ensures
        s@ == dec(n as nat),
    decreases n,
{
    if n < 10 {
        let mut s = String::new();
        s.push(digit(n as u8, false));
        assert(s@ =~= dec(n as nat));
        s
    } else {
        let mut s = dec_string(n / 10);
        s.push(digit((n % 10) as u8, false));
        s
    }
}

/// Append `n` in decimal.
pub fn push_dec(s: &mut String, n: u128)
    ensures
        final(s)@ == old(s)@ + dec(n as nat),
{
    let d = dec_string(n);
    s.append(d.as_str());
}

/// Append the last `width` hexadecimal digits of `n`.
pub fn push_hex(s: &mut String, n: u64, width: usize, upper: bool)
    ensures
        final(s)@ == old(s)@ + hex(n as nat, width as nat, upper),
    decreases width,
{
    if width > 0 {
        push_hex(s, n / 16, width - 1, upper);
        s.push(digit((n % 16) as u8, upper));
    }
    assert(s@ =~= old(s)@ + hex(n as nat, width as nat, upper));
}

/// The texts of a list of strings.
pub open spec fn texts(s: Seq<String>) -> Seq<Seq<char>> {
    Seq::new(s.len(), |i: int| s[i]@)
}

/// The characters of a string.
pub fn chars_of(s: &str) -> (r: Vec<char>)
    ensures
        r@ == s@,
{
    let mut r: Vec<char> = Vec::new();
    for c in it: s.chars()
        invariant
            r@ == it.seq().take(it.index()),
            it.seq() == s@,
    {
        r.push(c);
        assert(r@ =~= it.seq().take(it.index() + 1));
    }
    assert(s@.take(s@.len() as int) =~= s@);
    r
}

/// The string made of the given characters.
pub fn string_of(cs: &[char]) -> (r: String)
    ensures
        r@ == cs@,
{
    let mut r = String::new();
    let mut i: usize = 0;
    while i < cs.len()
        invariant
            i <= cs@.len(),
            r@ == cs@.take(i as int),
        decreases cs@.len() - i,
    {
        r.push(cs[i]);
        i = i + 1;
        assert(r@ =~= cs@.take(i as int));
    }
    assert(cs@.take(i as int) =~= cs@);
    r
}

/// Whether two character sequences are equal.
pub fn chars_eq(a: &[char], b: &[char]) -> (r: bool)
    ensures
        r == (a@ == b@),
{
    if a.len() != b.len() {
        return false;
    }
    let mut i: usize = 0;
    while i < a.len()
        invariant
            i <= a@.len() == b@.len(),
            a@.take(i as int) == b@.take(i as int),
        decreases a@.len() - i,
    {
        if a[i] != b[i] {
            assert(a@[i as int] != b@[i as int]);
            return false;
        }
        assert(a@.take(i + 1) =~= a@.take(i as int).push(a@[i as int]));
        assert(b@.take(i + 1) =~= b@.take(i as int).push(b@[i as int]));
        i = i + 1;
    }
    assert(a@.take(i as int) =~= a@);
    assert(b@.take(i as int) =~= b@);
    true
}

/// Whether two strings are equal.
pub fn str_eq(a: &str, b: &str) -> (r: bool)
    ensures
        r == (a@ == b@),
{
    chars_eq(chars_of(a).as_slice(), chars_of(b).as_slice())
}

/// Whether `needle` stands in `hay` at `i`.
pub open spec fn stands_at(hay: Seq<char>, needle: Seq<char>, i: int) -> bool {
    0 <= i && i + needle.len() <= hay.len() && hay.subrange(i, i + needle.len() as int) == needle
}

/// Whether `needle` stands anywhere in `hay`.
pub open spec fn contains_text(hay: Seq<char>, needle: Seq<char>) -> bool {
    exists|i: int| stands_at(hay, needle, i)
}

/// The first place from `from` on where `needle` stands in `hay`.
pub open spec fn find_from(hay: Seq<char>, needle: Seq<char>, from: int) -> Option<int>
    decreases hay.len() + 1 - from,
{
    if from + needle.len() > hay.len() {
        None
    } else if stands_at(hay, needle, from) {
        Some(from)
    } else {
        find_from(hay, needle, from + 1)
    }
}

/// Finding a text is the same as containing it.
pub proof fn find_is_contains(hay: Seq<char>, needle: Seq<char>, from: int)
    requires
        0 <= from,
    ensures
        find_from(hay, needle, from) is Some <==> exists|i: int|
            from <= i && #[trigger] stands_at(hay, needle, i),
        find_from(hay, needle, from) matches Some(i) ==> from <= i && stands_at(hay, needle, i),
    decreases hay.len() + 1 - from,
{
    if from + needle.len() <= hay.len() && !stands_at(hay, needle, from) {
        find_is_contains(hay, needle, from + 1);
        if exists|i: int| from <= i && #[trigger] stands_at(hay, needle, i) {
            let i = choose|i: int| from <= i && #[trigger] stands_at(hay, needle, i);
            assert(from + 1 <= i);
        }
    }
}

/// The first place where `needle` stands in `hay`.
pub fn find_chars(hay: &[char], needle: &[char]) -> (r: Option<usize>)
    ensures
        match find_from(hay@, needle@, 0) {
            Some(i) => r == Some(i as usize) && 0 <= i && i + needle@.len() <= hay@.len(),
            None => r is None,
        },
{
    if needle.len() > hay.len() {
        return None;
    }
    let total: usize = hay.len();
    let last: usize = total - needle.len();
    let mut i: usize = 0;
    while i < last
        invariant
            i <= last,
            last + needle@.len() == hay@.len() == total,
            find_from(hay@, needle@, i as int) == find_from(hay@, needle@, 0),
        decreases last - i,
    {
        if chars_eq(vstd::slice::slice_subrange(hay, i, i + needle.len()), needle) {
            return Some(i);
        }
        i = i + 1;
    }
    if chars_eq(vstd::slice::slice_subrange(hay, last, hay.len()), needle) {
        Some(last)
    } else {
        assert(find_from(hay@, needle@, last + 1) is None);
        None
    }
}

/// Whether `needle` stands anywhere in `hay`.
pub fn str_contains(hay: &str, needle: &str) -> (r: bool)
    ensures
        r == contains_text(hay@, needle@),
{
    let h = chars_of(hay);
    let n = chars_of(needle);
    proof {
        find_is_contains(hay@, needle@, 0);
        if contains_text(hay@, needle@) {
            let i = choose|i: int| stands_at(hay@, needle@, i);
            assert(0 <= i && stands_at(hay@, needle@, i));
        }
    }
    match find_chars(h.as_slice(), n.as_slice()) {
        Some(_) => true,
        None => false,
    }
}

/// Whether `s` begins with `prefix`.
pub open spec fn begins_with(s: Seq<char>, prefix: Seq<char>) -> bool {
    stands_at(s, prefix, 0)
}

/// Whether `s` begins with `prefix`.
pub fn chars_begin_with(s: &[char], prefix: &[char]) -> (r: bool)
    ensures
        r == begins_with(s@, prefix@),
{
    prefix.len() <= s.len() && chars_eq(
        vstd::slice::slice_subrange(s, 0, prefix.len()),
        prefix,
    )
}

/// Whether `s` begins with `prefix`.
pub fn str_begins_with(s: &str, prefix: &str) -> (r: bool)
    ensures
        r == begins_with(s@, prefix@),
{
    chars_begin_with(chars_of(s).as_slice(), chars_of(prefix).as_slice())
}

/// The lower-case form of an ASCII letter; other characters are unchanged.
pub open spec fn lower_char(c: char) -> char {
    if 'A' <= c <= 'Z' {
        (c as u8 + 32) as char
    } else {
        c
    }
}

/// `s` with its ASCII letters in lower case.
pub open spec fn ascii_lower(s: Seq<char>) -> Seq<char> {
    Seq::new(s.len(), |i: int| lower_char(s[i]))
}

/// A copy of `s` with its ASCII letters in lower case.
pub fn to_ascii_lower(s: &str) -> (r: String)
    ensures
        r@ == ascii_lower(s@),
{
    let cs = chars_of(s);
    let mut r = String::new();
    let mut i: usize = 0;
    while i < cs.len()
        invariant
            i <= cs@.len(),
            cs@ == s@,
            r@ == ascii_lower(s@).take(i as int),
        decreases cs@.len() - i,
    {
        let c = cs[i];
        if 'A' <= c && c <= 'Z' {
            r.push((c as u8 + 32) as char);
        } else {
            r.push(c);
        }
        i = i + 1;
        assert(r@ =~= ascii_lower(s@).take(i as int));
    }
    assert(ascii_lower(s@).take(i as int) =~= ascii_lower(s@));
    r
}

/// All characters are digits of the radix (at most 16).
pub open spec fn all_digits(s: Seq<char>, radix: nat) -> bool {
    forall|i: int| 0 <= i < s.len() ==> is_hex_digit(#[trigger] s[i]) && hex_value(s[i]) < radix
}

/// The number that a sequence of digits writes.
pub open spec fn digits_value(s: Seq<char>, radix: nat) -> nat
    decreases s.len(),
{
    if s.len() == 0 {
        0
    } else {
        digits_value(s.drop_last(), radix) * radix + hex_value(s.last()) as nat
    }
}

/// The digits of a number: everything, but for a plus sign in front of them.
pub open spec fn unsigned_digits(s: Seq<char>) -> Seq<char> {
    if s.len() > 1 && s[0] == '+' {
        s.skip(1)
    } else {
        s
    }
}

/// The unsigned number that a text writes: at least one digit, behind an
/// optional plus sign, and no more than `max`.
pub open spec fn uint_of(s: Seq<char>, radix: nat, max: nat) -> Option<nat> {
    let d = unsigned_digits(s);
    if d.len() > 0 && all_digits(d, radix) && digits_value(d, radix) <= max {
        Some(digits_value(d, radix))
    } else {
        None
    }
}

proof fn lemma_value_grows(s: Seq<char>, radix: nat, n: int)
    requires
        radix >= 1,
        0 <= n <= s.len(),
    ensures
        digits_value(s.take(n), radix) <= digits_value(s, radix),
    decreases s.len(),
{
    if n < s.len() {
        lemma_value_grows(s.drop_last(), radix, n);
        assert(s.drop_last().take(n) =~= s.take(n));
        let v = digits_value(s.drop_last(), radix);
        assert(v <= v * radix) by (nonlinear_arith)
            requires
                radix >= 1,
                v >= 0,
        ;
    } else {
        assert(s.take(n) =~= s);
    }
}

/// Reads an unsigned number; none if the text is not one, or it exceeds `max`.
pub fn parse_uint(s: &[char], radix: u8, max: u64) -> (r: Option<u64>)
    requires
        2 <= radix <= 16,
    ensures
        match uint_of(s@, radix as nat, max as nat) {
            Some(n) => r == Some(n as u64) && n <= max,
            None => r is None,
        },
{
    let start: usize = if s.len() > 1 && s[0] == '+' {
        1
    } else {
        0
    };
    let ghost d = unsigned_digits(s@);
    assert(d =~= s@.skip(start as int));
    if s.len() == 0 {
        return None;
    }
    let mut i: usize = start;
    let mut v: u64 = 0;
    assert(d.take(0) =~= Seq::<char>::empty());
    while i < s.len()
        invariant
            2 <= radix <= 16,
            start <= i <= s@.len(),
            start <= 1,
            d == s@.skip(start as int),
            d == unsigned_digits(s@),
            v <= max,
            v == digits_value(d.take(i - start), radix as nat),
            all_digits(d.take(i - start), radix as nat),
        decreases s@.len() - i,
    {
        let ghost k = i - start;
        assert(d[k] == s@[i as int]);
        assert(d.take(k + 1).drop_last() =~= d.take(k));
        assert(d.take(k + 1).last() == d[k]);
        match hex_digit_value(s[i]) {
            Some(x) if x < radix => {
                assert(0 <= v * radix <= 0xFFFF_FFFF_FFFF_FFFF * 16) by (nonlinear_arith)
                    requires
                        v <= 0xFFFF_FFFF_FFFF_FFFF,
                        radix <= 16,
                ;
                let wide: u128 = v as u128 * radix as u128;
                let next: u128 = wide + x as u128;
                assert(next == digits_value(d.take(k + 1), radix as nat));
                if next > max as u128 {
                    proof {
                        lemma_value_grows(d, radix as nat, k + 1);
                    }
                    return None;
                }
                v = next as u64;
                assert forall|j: int| 0 <= j < k + 1 implies is_hex_digit(
                    #[trigger] d.take(k + 1)[j],
                ) && hex_value(d.take(k + 1)[j]) < radix by {
                    if j < k {
                        assert(d.take(k + 1)[j] == d.take(k)[j]);
                    }
                }
            },
            _ => {
                assert(!(is_hex_digit(d[k]) && hex_value(d[k]) < radix));
                return None;
            },
        }
        i = i + 1;
    }
    assert(d.take(i - start) =~= d);
    Some(v)
}

/// `n` is below 16 to the power of `width`.
pub open spec fn fits_hex(n: nat, width: nat) -> bool
    decreases width,
{
    if width == 0 {
        n == 0
    } else {
        fits_hex(n / 16, (width - 1) as nat)
    }
}

/// Hexadecimal notation of a fitting width reads back as the number.
pub proof fn hex_round_trip(n: nat, width: nat, upper: bool)
    requires
        fits_hex(n, width),
    ensures
        hex(n, width, upper).len() == width,
        all_digits(hex(n, width, upper), 16),
        digits_value(hex(n, width, upper), 16) == n,
        width > 0 ==> unsigned_digits(hex(n, width, upper)) == hex(n, width, upper),
    decreases width,
{
    if width > 0 {
        let h = hex(n, width, upper);
        hex_round_trip(n / 16, (width - 1) as nat, upper);
        digit_char_value(n % 16, upper);
        assert(h.drop_last() =~= hex(n / 16, (width - 1) as nat, upper));
        assert forall|i: int| 0 <= i < h.len() implies is_hex_digit(#[trigger] h[i]) && hex_value(
            h[i],
        ) < 16 by {
            if i < h.len() - 1 {
                assert(h[i] == hex(n / 16, (width - 1) as nat, upper)[i]);
            }
        }
        assert(is_hex_digit(h[0]));
    }
}

/// What `{:?}` prints of a character: the character in single quotes, with
/// escapes.
pub uninterp spec fn debug_char_text(c: char) -> Seq<char>;

/// The standard library's `Debug` text of a character, through `format!`. The
/// text is named rather than spelled out: it is a function of the character
/// alone.
#[verifier::external_body]
pub(crate) fn debug_char(c: char) -> (r: String)
    ensures
        r@ == debug_char_text(c),
{
    format!("{:?}", c)
}

/// A character of Unicode's White_Space property.
pub open spec fn is_white(c: char) -> bool {
    ('\u{9}' <= c && c <= '\u{d}') || c == ' ' || c == '\u{85}' || c == '\u{a0}' || c == '\u{1680}'
        || ('\u{2000}' <= c && c <= '\u{200a}') || c == '\u{2028}' || c == '\u{2029}' || c
        == '\u{202f}' || c == '\u{205f}' || c == '\u{3000}'
}

/// Whether a character has Unicode's White_Space property.
pub fn white(c: char) -> (r: bool)
    ensures
        r == is_white(c),
{
    ('\u{9}' <= c && c <= '\u{d}') || c == ' ' || c == '\u{85}' || c == '\u{a0}' || c == '\u{1680}'
        || ('\u{2000}' <= c && c <= '\u{200a}') || c == '\u{2028}' || c == '\u{2029}' || c
        == '\u{202f}' || c == '\u{205f}' || c == '\u{3000}'
}

/// A text without its leading white space.
pub open spec fn trimmed_start(s: Seq<char>) -> Seq<char>
    decreases s.len(),
{
    if s.len() > 0 && is_white(s[0]) {
        trimmed_start(s.skip(1))
    } else {
        s
    }
}

/// A text without its trailing white space.
pub open spec fn trimmed_end(s: Seq<char>) -> Seq<char>
    decreases s.len(),
{
    if s.len() > 0 && is_white(s.last()) {
        trimmed_end(s.drop_last())
    } else {
        s
    }
}

/// A text without its leading and trailing white space.
pub open spec fn trimmed(s: Seq<char>) -> Seq<char> {
    trimmed_end(trimmed_start(s))
}

/// The slice without its leading white space.
pub fn trim_chars_start(s: &[char]) -> (r: &[char])
    ensures
        r@ == trimmed_start(s@),
{
    let mut from: usize = 0;
    assert(s@.skip(0) =~= s@);
    while from < s.len() && white(s[from])
        invariant
            from <= s@.len(),
            trimmed_start(s@.skip(from as int)) == trimmed_start(s@),
        decreases s@.len() - from,
    {
        assert(s@.skip(from as int).skip(1) =~= s@.skip(from + 1));
        from = from + 1;
    }
    let r = vstd::slice::slice_subrange(s, from, s.len());
    assert(r@ =~= s@.skip(from as int));
    r
}

/// The slice without its leading and trailing white space.
pub fn trim_chars(s: &[char]) -> (r: &[char])
    ensures
        r@ == trimmed(s@),
{
    let t = trim_chars_start(s);
    let mut to: usize = t.len();
    assert(t@.take(to as int) =~= t@);
    while to > 0 && white(t[to - 1])
        invariant
            to <= t@.len(),
            trimmed_end(t@.take(to as int)) == trimmed_end(t@),
        decreases to,
    {
        assert(t@.take(to as int).drop_last() =~= t@.take(to - 1));
        to = to - 1;
    }
    let r = vstd::slice::slice_subrange(t, 0, to);
    assert(r@ =~= t@.take(to as int));
    r
}

/// The string without its leading and trailing white space.
pub fn trim_str(s: &str) -> (r: String)
    ensures
        r@ == trimmed(s@),
{
    let cs = chars_of(s);
    string_of(trim_chars(cs.as_slice()))
}

/// In lower case a text keeps its length and every character but its capital
/// letters, and each of those becomes the same letter of `a` to `z`.
pub proof fn lower_case_is_letter_by_letter(s: Seq<char>, i: int)
    requires
        0 <= i < s.len(),
    ensures
        ascii_lower(s).len() == s.len(),
        !('A' <= s[i] <= 'Z') ==> ascii_lower(s)[i] == s[i],
        'A' <= s[i] <= 'Z' ==> 'a' <= ascii_lower(s)[i] <= 'z' && ascii_lower(s)[i] as int - 'a' as int
            == s[i] as int - 'A' as int,
{
}

} // verus!
