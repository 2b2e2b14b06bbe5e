//! MAC and IPv4 addresses as text, and the Ethernet header with its VLAN tags.

use vstd::prelude::*;
use vstd::slice::*;
use vstd::string::*;
use crate::bytes::{be16_at, read_be16};
use crate::text::{
    chars_of, debug_string, debug_text, dec, dec_injective, dec_is_digits, digit_char,
    digit_char_value, hex, hex_digit_value, hex_value, is_digit, is_hex_digit, push_dec, push_hex,
};

verus! {

/// Six colon-separated pairs of hexadecimal digits, in either case.
pub open spec fn is_mac_text(s: Seq<char>) -> bool {
    &&& s.len() == 17
    &&& forall|i: int|
        0 <= i < 17 ==> if i % 3 == 2 {
            #[trigger] s[i] == ':'
        } else {
            is_hex_digit(s[i])
        }
}

/// The byte that the `i`-th pair of digits writes.
pub open spec fn mac_byte(s: Seq<char>, i: int) -> u8 {
    (hex_value(s[3 * i]) * 16 + hex_value(s[3 * i + 1])) as u8
}

/// The address that a well-formed text writes.
pub open spec fn mac_of_text(s: Seq<char>) -> Seq<u8> {
    Seq::new(6, |i: int| mac_byte(s, i))
}

/// Lower-case, colon-separated text of an address.
pub open spec fn mac_text(mac: Seq<u8>) -> Seq<char> {
    Seq::new(
        17,
        |i: int|
            if i % 3 == 2 {
                ':'
            } else if i % 3 == 0 {
                digit_char((mac[i / 3] / 16) as nat, false)
            } else {
                digit_char((mac[i / 3] % 16) as nat, false)
            },
    )
}

/// Dotted-decimal text of the first four bytes.
pub open spec fn ip_text(ip: Seq<u8>) -> Seq<char> {
    dec(ip[0] as nat) + seq!['.'] + dec(ip[1] as nat) + seq!['.'] + dec(ip[2] as nat) + seq!['.']
        + dec(ip[3] as nat)
}

/// The message for a text that is no MAC address.
pub open spec fn bad_mac_message(s: Seq<char>) -> Seq<char> {
    if s.len() == 0 {
        "MAC address cannot be empty"@
    } else {
        "Invalid MAC address format: "@ + debug_text(s) + ". Expected format: aa:bb:cc:dd:ee:ff"@
    }
}

/// The message for a text that is no IPv4 address.
pub open spec fn bad_ip_message(s: Seq<char>) -> Seq<char> {
    if s.len() == 0 {
        "IP address cannot be empty"@
    } else {
        "Invalid IP address: "@ + debug_text(s)
    }
}

/// The text of a MAC address reads back as that address.
pub proof fn mac_text_round_trip(mac: Seq<u8>)
    requires
        mac.len() == 6,
    ensures
        is_mac_text(mac_text(mac)),
        mac_of_text(mac_text(mac)) == mac,
{
    let s = mac_text(mac);
    assert forall|i: int| 0 <= i < 17 implies if i % 3 == 2 {
        #[trigger] s[i] == ':'
    } else {
        is_hex_digit(s[i])
    } by {
        digit_char_value((mac[i / 3] / 16) as nat, false);
        digit_char_value((mac[i / 3] % 16) as nat, false);
    }
    assert forall|i: int| 0 <= i < 6 implies mac_of_text(s)[i] == mac[i] by {
        digit_char_value((mac[i] / 16) as nat, false);
        digit_char_value((mac[i] % 16) as nat, false);
        assert(3 * i / 3 == i && (3 * i) % 3 == 0);
        assert((3 * i + 1) / 3 == i && (3 * i + 1) % 3 == 1);
    }
    assert(mac_of_text(s) =~= mac);
}

/// Where two texts agree and both continue with something other than a digit,
/// a run of digits from the same place ends at the same place.
proof fn lemma_run_unique(s: Seq<char>, from: int, a: int, b: int)
    requires
        0 <= from <= a <= s.len(),
        from <= b <= s.len(),
        forall|i: int| from <= i < a ==> is_digit(#[trigger] s[i]),
        forall|i: int| from <= i < b ==> is_digit(#[trigger] s[i]),
        a == s.len() || !is_digit(s[a]),
        b == s.len() || !is_digit(s[b]),
    ensures
        a == b,
{
}

/// The text of an IPv4 address determines its bytes.
pub proof fn ip_text_injective(a: Seq<u8>, b: Seq<u8>)
    requires
        a.len() == 4,
        b.len() == 4,
        ip_text(a) == ip_text(b),
    ensures
        a == b,
{
    let s = ip_text(a);
    lemma_ip_text_parts(a);
    lemma_ip_text_parts(b);
    let a0 = ip_dot(a, 0);
    let a1 = ip_dot(a, 1);
    let a2 = ip_dot(a, 2);
    lemma_run_unique(s, 0, a0, ip_dot(b, 0));
    dec_injective(a[0] as nat, b[0] as nat);
    lemma_run_unique(s, a0 + 1, a1, ip_dot(b, 1));
    dec_injective(a[1] as nat, b[1] as nat);
    lemma_run_unique(s, a1 + 1, a2, ip_dot(b, 2));
    dec_injective(a[2] as nat, b[2] as nat);
    dec_injective(a[3] as nat, b[3] as nat);
    assert(a =~= b);
}

/// Where the `k`-th dot of an address's text stands; for three, its end.
spec fn ip_dot(ip: Seq<u8>, k: int) -> int
    decreases k,
{
    if k <= 0 {
        dec(ip[0] as nat).len() as int
    } else {
        ip_dot(ip, k - 1) + 1 + dec(ip[k] as nat).len()
    }
}

proof fn lemma_ip_text_parts(ip: Seq<u8>)
    requires
        ip.len() == 4,
    ensures
        0 < ip_dot(ip, 0) < ip_dot(ip, 1) < ip_dot(ip, 2) < ip_dot(ip, 3) == ip_text(ip).len(),
        ip_text(ip)[ip_dot(ip, 0)] == '.',
        ip_text(ip)[ip_dot(ip, 1)] == '.',
        ip_text(ip)[ip_dot(ip, 2)] == '.',
        ip_text(ip).subrange(0, ip_dot(ip, 0)) == dec(ip[0] as nat),
        ip_text(ip).subrange(ip_dot(ip, 0) + 1, ip_dot(ip, 1)) == dec(ip[1] as nat),
        ip_text(ip).subrange(ip_dot(ip, 1) + 1, ip_dot(ip, 2)) == dec(ip[2] as nat),
        ip_text(ip).subrange(ip_dot(ip, 2) + 1, ip_dot(ip, 3)) == dec(ip[3] as nat),
        forall|i: int| 0 <= i < ip_dot(ip, 0) ==> is_digit(#[trigger] ip_text(ip)[i]),
        forall|i: int| ip_dot(ip, 0) < i < ip_dot(ip, 1) ==> is_digit(#[trigger] ip_text(ip)[i]),
        forall|i: int| ip_dot(ip, 1) < i < ip_dot(ip, 2) ==> is_digit(#[trigger] ip_text(ip)[i]),
        forall|i: int| ip_dot(ip, 2) < i < ip_dot(ip, 3) ==> is_digit(#[trigger] ip_text(ip)[i]),
{
    reveal_with_fuel(ip_dot, 4);
    dec_is_digits(ip[0] as nat);
    dec_is_digits(ip[1] as nat);
    dec_is_digits(ip[2] as nat);
    dec_is_digits(ip[3] as nat);
    let s = ip_text(ip);
    assert(s.subrange(0, ip_dot(ip, 0)) =~= dec(ip[0] as nat));
    assert(s.subrange(ip_dot(ip, 0) + 1, ip_dot(ip, 1)) =~= dec(ip[1] as nat));
    assert(s.subrange(ip_dot(ip, 1) + 1, ip_dot(ip, 2)) =~= dec(ip[2] as nat));
    assert(s.subrange(ip_dot(ip, 2) + 1, ip_dot(ip, 3)) =~= dec(ip[3] as nat));
    assert forall|i: int| 0 <= i < ip_dot(ip, 0) implies is_digit(#[trigger] s[i]) by {
        assert(s[i] == dec(ip[0] as nat)[i]);
    }
    assert forall|i: int| ip_dot(ip, 0) < i < ip_dot(ip, 1) implies is_digit(#[trigger] s[i]) by {
        assert(s[i] == dec(ip[1] as nat)[i - ip_dot(ip, 0) - 1]);
    }
    assert forall|i: int| ip_dot(ip, 1) < i < ip_dot(ip, 2) implies is_digit(#[trigger] s[i]) by {
        assert(s[i] == dec(ip[2] as nat)[i - ip_dot(ip, 1) - 1]);
    }
    assert forall|i: int| ip_dot(ip, 2) < i < ip_dot(ip, 3) implies is_digit(#[trigger] s[i]) by {
        assert(s[i] == dec(ip[3] as nat)[i - ip_dot(ip, 2) - 1]);
    }
}

/// Parse a MAC address string ("aa:bb:cc:dd:ee:ff") into 6 bytes.
pub fn s2mac(s: &str) -> (r: Result<[u8; 6], String>)
    ensures
        r is Ok <==> is_mac_text(s@),
        r matches Ok(mac) ==> mac@ == mac_of_text(s@),
        r matches Err(e) ==> e@ == bad_mac_message(s@),
{
    let cs = chars_of(s);
    if cs.len() == 0 {
        return Err("MAC address cannot be empty".to_owned());
    }
    let mut mac: [u8; 6] = [0u8; 6];
    if cs.len() == 17 {
        let mut i: usize = 0;
        while i < 6
            invariant
                0 <= i <= 6,
                cs@ == s@,
                cs@.len() == 17,
                forall|j: int|
                    0 <= j < 17 && j < 3 * i ==> if j % 3 == 2 {
                        #[trigger] cs@[j] == ':'
                    } else {
                        is_hex_digit(cs@[j])
                    },
                forall|j: int| 0 <= j < i ==> #[trigger] mac@[j] == mac_byte(cs@, j),
            decreases 6 - i,
        {
            let colon = i < 5 && cs[3 * i + 2] != ':';
            match (hex_digit_value(cs[3 * i]), hex_digit_value(cs[3 * i + 1])) {
                (Some(h), Some(l)) if !colon => {
                    mac[i] = h * 16 + l;
                },
                _ => {
                    proof {
                        assert((3 * i) % 3 == 0 && (3 * i + 1) % 3 == 1 && (3 * i + 2) % 3 == 2);
                        assert(!is_hex_digit(cs@[3 * i as int]) || !is_hex_digit(cs@[3 * i + 1])
                            || (i < 5 && cs@[3 * i + 2] != ':'));
                    }
                    return Err(bad_mac(s));
                },
            }
            i = i + 1;
        }
        assert(mac@ =~= mac_of_text(s@));
        return Ok(mac);
    }
    Err(bad_mac(s))
}

fn bad_mac(s: &str) -> (e: String)
    requires
        s@.len() > 0,
    ensures
        e@ == bad_mac_message(s@),
{
    let mut e = "Invalid MAC address format: ".to_owned();
    e.append(debug_string(s).as_str());
    e.append(". Expected format: aa:bb:cc:dd:ee:ff");
    e
}

/// Format a 6-byte MAC address as a lowercase colon-separated string.
pub fn mac2s(mac: &[u8; 6]) -> (r: String)
    ensures
        r@ == mac_text(mac@),
{
    let mut r = String::new();
    let mut i: usize = 0;
    while i < 6
        invariant
            0 <= i <= 6,
            r@ == mac_text(mac@).take(if i < 6 { 3 * i as int } else { 17 }),
        decreases 6 - i,
    {
        let ghost before = r@;
        push_hex(&mut r, mac[i] as u64, 2, false);
        proof {
            reveal_with_fuel(hex, 3);
            let t = mac_text(mac@);
            assert((3 * i) / 3 == i && (3 * i) % 3 == 0);
            assert((3 * i + 1) / 3 == i && (3 * i + 1) % 3 == 1);
            assert((3 * i + 2) % 3 == 2);
            assert(t[3 * i as int] == digit_char((mac@[i as int] / 16) as nat, false));
            assert(r@ =~= t.take(3 * i + 2));
        }
        if i < 5 {
            r.append(":");
            proof {
                reveal_strlit(":");
                assert(r@ =~= mac_text(mac@).take(3 * (i + 1)));
            }
        }
        i = i + 1;
    }
    assert(mac_text(mac@).take(17) =~= mac_text(mac@));
    r
}

/// Reads the run of digits that starts at `pos` as one octet.
fn parse_octet(cs: &[char], pos: usize) -> (r: Option<(u8, usize)>)
    requires
        pos <= cs@.len(),
    ensures
        r matches Some((v, end)) ==> pos < end <= cs@.len() && cs@.subrange(pos as int, end as int)
            == dec(v as nat) && (end == cs@.len() || !is_digit(cs@[end as int])),
        r is None ==> forall|v: u8, end: int|
            pos <= end <= cs@.len() && (end == cs@.len() || !is_digit(cs@[end]))
                ==> #[trigger] cs@.subrange(pos as int, end) != #[trigger] dec(v as nat),
{
    let mut end: usize = pos;
    let mut v: u32 = 0;
    while end < cs.len() && end - pos < 3 && '0' <= cs[end] && cs[end] <= '9'
        invariant
            pos <= end <= cs@.len(),
            end - pos <= 3,
            forall|i: int| pos <= i < end ==> is_digit(#[trigger] cs@[i]),
            end == pos ==> v == 0,
            end == pos + 1 ==> v == hex_value(cs@[pos as int]) && v < 10,
            end == pos + 2 ==> v == hex_value(cs@[pos as int]) * 10 + hex_value(cs@[pos + 1]) && v
                < 100,
            end == pos + 3 ==> v == hex_value(cs@[pos as int]) * 100 + hex_value(cs@[pos + 1]) * 10
                + hex_value(cs@[pos + 2]) && v < 1000,
        decreases cs@.len() - end,
    {
        v = v * 10 + (cs[end] as u32 - 48);
        end = end + 1;
    }
    let more = end < cs.len() && '0' <= cs[end] && cs[end] <= '9';
    let bad = end == pos || more || (end - pos > 1 && cs[pos] == '0') || v > 255;
    proof {
        let sub = cs@.subrange(pos as int, end as int);
        if bad {
            assert forall|w: u8, e: int|
                pos <= e <= cs@.len() && (e == cs@.len() || !is_digit(
                    cs@[e],
                )) implies #[trigger] cs@.subrange(pos as int, e) != #[trigger] dec(w as nat) by {
                if cs@.subrange(pos as int, e) == dec(w as nat) {
                    dec_is_digits(w as nat);
                    lemma_dec_octet(w);
                    let t = cs@.subrange(pos as int, e);
                    assert forall|i: int| pos <= i < e implies is_digit(#[trigger] cs@[i]) by {
                        assert(t[i - pos] == cs@[i]);
                    }
                    assert(e - pos <= 3);
                    assert(t.len() == e - pos);
                    if more {
                        assert(is_digit(cs@[end as int]));
                        assert(end < e);
                    } else {
                        lemma_run_unique(cs@, pos as int, e, end as int);
                        assert(t[0] == cs@[pos as int]);
                        assert(e >= pos + 2 ==> t[1] == cs@[pos + 1]);
                        assert(e >= pos + 3 ==> t[2] == cs@[pos + 2]);
                    }
                }
            }
        } else {
            lemma_dec_octet(v as u8);
            assert(sub =~= dec(v as nat)) by {
                assert(sub[0] == cs@[pos as int]);
                assert(end >= pos + 2 ==> sub[1] == cs@[pos + 1]);
                assert(end >= pos + 3 ==> sub[2] == cs@[pos + 2]);
            }
        }
    }
    if bad {
        None
    } else {
        Some((v as u8, end))
    }
}

/// The decimal notation of a byte, digit by digit.
proof fn lemma_dec_octet(v: u8)
    ensures
        v < 10 ==> dec(v as nat) == seq![digit_char(v as nat, false)],
        10 <= v < 100 ==> dec(v as nat) == seq![
            digit_char((v / 10) as nat, false),
            digit_char((v % 10) as nat, false),
        ],
        100 <= v ==> dec(v as nat) == seq![
            digit_char((v / 100) as nat, false),
            digit_char((v / 10 % 10) as nat, false),
            digit_char((v % 10) as nat, false),
        ],
{
    reveal_with_fuel(dec, 4);
    if 10 <= v < 100 {
        assert(dec(v as nat) =~= seq![
            digit_char((v / 10) as nat, false),
            digit_char((v % 10) as nat, false),
        ]);
    } else if 100 <= v {
        assert((v as nat) / 10 / 10 == v / 100);
        assert(dec(v as nat) =~= seq![
            digit_char((v / 100) as nat, false),
            digit_char((v / 10 % 10) as nat, false),
            digit_char((v % 10) as nat, false),
        ]);
    }
}

/// Parse a dotted-decimal IPv4 string ("192.168.0.2") into 4 bytes: each octet
/// is at most 255 and written without leading zeros.
pub fn ip2s(s: &str) -> (r: Result<[u8; 4], String>)
    ensures
        r matches Ok(ip) ==> ip_text(ip@) == s@,
        r is Err ==> forall|ip: Seq<u8>| ip.len() == 4 ==> #[trigger] ip_text(ip) != s@,
        r matches Err(e) ==> e@ == bad_ip_message(s@),
{
    let cs = chars_of(s);
    match parse_ip_chars(cs.as_slice()) {
        Some(ip) => Ok(ip),
        None => {
            if cs.len() == 0 {
                Err("IP address cannot be empty".to_owned())
            } else {
                let mut e = "Invalid IP address: ".to_owned();
                e.append(debug_string(s).as_str());
                Err(e)
            }
        },
    }
}

#[verifier::rlimit(60)]
#[verifier::spinoff_prover]
fn parse_ip_chars(cs: &[char]) -> (r: Option<[u8; 4]>)
    ensures
        r matches Some(ip) ==> ip_text(ip@) == cs@,
        r is None ==> forall|ip: Seq<u8>| ip.len() == 4 ==> #[trigger] ip_text(ip) != cs@,
{
    let mut ip: [u8; 4] = [0u8; 4];
    let mut i: usize = 0;
    let mut pos: usize = 0;
    while i < 4
        invariant
            0 <= i <= 4,
            pos <= cs@.len(),
            i == 4 ==> pos == cs@.len(),
            i == 0 ==> pos == 0,
            0 < i < 4 ==> pos == ip_dot(ip@, i - 1) + 1,
            i == 4 ==> pos == ip_dot(ip@, 3),
            ip_prefix(cs@, ip@, i as int),
        decreases 4 - i,
    {
        let ghost before = ip@;
        let octet = parse_octet(cs, pos);
        let (v, end) = match octet {
            Some(o) => o,
            None => {
                proof {
                    assert forall|other: Seq<u8>| other.len() == 4 implies #[trigger] ip_text(other)
                        != cs@ by {
                        if ip_text(other) == cs@ {
                            lemma_ip_text_parts(other);
                            lemma_prefix_agrees(cs@, before, other, i as int);
                            reveal_with_fuel(ip_dot, 5);
                            assert(cs@.subrange(pos as int, ip_dot(other, i as int)) == dec(
                                other[i as int] as nat,
                            ));
                        }
                    }
                }
                return None;
            },
        };
        let stop = if i < 3 {
            end >= cs.len() || cs[end] != '.'
        } else {
            end != cs.len()
        };
        if stop {
            proof {
                assert forall|other: Seq<u8>| other.len() == 4 implies #[trigger] ip_text(other)
                    != cs@ by {
                    if ip_text(other) == cs@ {
                        lemma_ip_text_parts(other);
                        lemma_prefix_agrees(cs@, before, other, i as int);
                        reveal_with_fuel(ip_dot, 5);
                        dec_is_digits(v as nat);
                        assert forall|k: int| pos <= k < end implies is_digit(#[trigger] cs@[k]) by {
                            assert(cs@.subrange(pos as int, end as int)[k - pos] == cs@[k]);
                        }
                        lemma_run_unique(cs@, pos as int, end as int, ip_dot(other, i as int));
                    }
                }
            }
            return None;
        }
        ip[i] = v;
        proof {
            reveal_with_fuel(ip_dot, 5);
            assert(forall|k: int| 0 <= k < 4 && k != i ==> ip@[k] == before[k]);
            dec_is_digits(v as nat);
            assert forall|k: int| pos <= k < end implies is_digit(#[trigger] cs@[k]) by {
                assert(cs@.subrange(pos as int, end as int)[k - pos] == cs@[k]);
            }
            assert(cs@.subrange(pos as int, end as int).len() == end - pos);
        }
        pos = if i < 3 {
            end + 1
        } else {
            end
        };
        i = i + 1;
    }
    proof {
        reveal_with_fuel(ip_dot, 5);
        let t = ip_text(ip@);
        lemma_ip_text_parts(ip@);
        let d0 = ip_dot(ip@, 0);
        let d1 = ip_dot(ip@, 1);
        let d2 = ip_dot(ip@, 2);
        assert(t =~= t.subrange(0, d0) + seq!['.'] + t.subrange(d0 + 1, d1) + seq!['.']
            + t.subrange(d1 + 1, d2) + seq!['.'] + t.subrange(d2 + 1, t.len() as int));
        assert(cs@ =~= cs@.subrange(0, d0) + seq!['.'] + cs@.subrange(d0 + 1, d1) + seq!['.']
            + cs@.subrange(d1 + 1, d2) + seq!['.'] + cs@.subrange(d2 + 1, cs@.len() as int));
    }
    Some(ip)
}

/// The first `n` octets of `ip` are written at the start of `s`, each but the
/// fourth followed by a dot.
spec fn ip_prefix(s: Seq<char>, ip: Seq<u8>, n: int) -> bool {
    &&& n >= 1 ==> ip_dot(ip, 0) <= s.len() && s.subrange(0, ip_dot(ip, 0)) == dec(ip[0] as nat)
        && ip_dot(ip, 0) < s.len() && s[ip_dot(ip, 0)] == '.' && run(s, 0, ip_dot(ip, 0))
    &&& n >= 2 ==> ip_dot(ip, 1) < s.len() && s.subrange(ip_dot(ip, 0) + 1, ip_dot(ip, 1)) == dec(
        ip[1] as nat,
    ) && s[ip_dot(ip, 1)] == '.' && run(s, ip_dot(ip, 0) + 1, ip_dot(ip, 1))
    &&& n >= 3 ==> ip_dot(ip, 2) < s.len() && s.subrange(ip_dot(ip, 1) + 1, ip_dot(ip, 2)) == dec(
        ip[2] as nat,
    ) && s[ip_dot(ip, 2)] == '.' && run(s, ip_dot(ip, 1) + 1, ip_dot(ip, 2))
    &&& n >= 4 ==> ip_dot(ip, 3) == s.len() && s.subrange(ip_dot(ip, 2) + 1, ip_dot(ip, 3)) == dec(
        ip[3] as nat,
    )
}

spec fn run(s: Seq<char>, from: int, to: int) -> bool {
    forall|i: int| from <= i < to ==> is_digit(#[trigger] s[i])
}

proof fn lemma_prefix_agrees(s: Seq<char>, ip: Seq<u8>, other: Seq<u8>, n: int)
    requires
        ip.len() == 4,
        other.len() == 4,
        s == ip_text(other),
        0 <= n <= 3,
        ip_prefix(s, ip, n),
    ensures
        n > 0 ==> ip_dot(ip, n - 1) == ip_dot(other, n - 1),
{
    reveal_with_fuel(ip_dot, 5);
    lemma_ip_text_parts(other);
    dec_is_digits(ip[0] as nat);
    dec_is_digits(ip[1] as nat);
    dec_is_digits(ip[2] as nat);
    if n >= 1 {
        lemma_run_unique(s, 0, ip_dot(ip, 0), ip_dot(other, 0));
    }
    if n >= 2 {
        lemma_run_unique(s, ip_dot(ip, 0) + 1, ip_dot(ip, 1), ip_dot(other, 1));
    }
    if n >= 3 {
        lemma_run_unique(s, ip_dot(ip, 1) + 1, ip_dot(ip, 2), ip_dot(other, 2));
    }
}

/// Format the first 4 bytes of an IP address as a dotted-decimal string.
pub fn s2ip(ip: &[u8]) -> (r: Result<String, String>)
    ensures
        r is Ok <==> ip@.len() >= 4,
        r matches Ok(s) ==> s@ == ip_text(ip@),
        r matches Err(e) ==> e@ == "IP address must be at least 4 bytes, got "@ + dec(ip@.len()),
{
    if ip.len() < 4 {
        let mut e = "IP address must be at least 4 bytes, got ".to_owned();
        push_dec(&mut e, ip.len() as u128);
        return Err(e);
    }
    Ok(ip_string(ip[0], ip[1], ip[2], ip[3]))
}

/// Dotted-decimal text of four bytes.
pub fn ip_string(a: u8, b: u8, c: u8, d: u8) -> (r: String)
    ensures
        r@ == ip_text(seq![a, b, c, d]),
{
    let mut r = String::new();
    push_dec(&mut r, a as u128);
    r.push('.');
    push_dec(&mut r, b as u128);
    r.push('.');
    push_dec(&mut r, c as u128);
    r.push('.');
    push_dec(&mut r, d as u128);
    assert(r@ =~= ip_text(seq![a, b, c, d]));
    r
}

/// TPIDs that introduce an 802.1Q / 802.1ad tag.
pub const VLAN_TPIDS: [u16; 2] = [0x8100, 0x88A8];

/// Whether a 16-bit value introduces a VLAN tag.
pub open spec fn is_tpid(x: u16) -> bool {
    x == 0x8100 || x == 0x88A8
}

/// Offset of the EtherType behind any number of VLAN tags, the first of which
/// would stand at `off`.
pub open spec fn eth_type_offset(frame: Seq<u8>, off: int) -> int
    decreases frame.len() - off,
{
    if frame.len() >= off + 4 && is_tpid(be16_at(frame, off)) {
        eth_type_offset(frame, off + 4)
    } else {
        off
    }
}

/// The offset found is no smaller than where the search began, and never
/// points past the end of a frame that reached there.
pub proof fn eth_type_offset_bounds(frame: Seq<u8>, off: int)
    ensures
        off <= eth_type_offset(frame, off),
        off <= frame.len() ==> eth_type_offset(frame, off) <= frame.len(),
    decreases frame.len() - off,
{
    if frame.len() >= off + 4 && is_tpid(be16_at(frame, off)) {
        eth_type_offset_bounds(frame, off + 4);
    }
}

/// Byte offset of the real EtherType in an Ethernet frame.
///
/// Devices commonly send real-time and alarm frames 802.1Q priority-tagged,
/// and whether the tag still reaches a raw socket depends on the driver, so a
/// receiver skips any number of tags: 12 for an untagged frame, plus 4 per tag.
pub fn skip_vlan_tags(frame: &[u8]) -> (r: usize)
    ensures
        r == eth_type_offset(frame@, 12),
{
    let mut offset: usize = 12;
    while frame.len() >= 4 && offset <= frame.len() - 4 && (read_be16(frame, offset)
        == VLAN_TPIDS[0] || read_be16(frame, offset) == VLAN_TPIDS[1])
        invariant
            12 <= offset,
            offset == 12 || offset <= frame@.len(),
            eth_type_offset(frame@, offset as int) == eth_type_offset(frame@, 12),
        decreases frame@.len() - offset,
    {
        offset = offset + 4;
    }
    offset
}

/// What `strip_eth` makes of a frame: the payload's offset, or the message.
pub open spec fn eth_payload_offset(frame: Seq<u8>, want: u16) -> Result<int, Seq<char>> {
    let at = eth_type_offset(frame, 12);
    if frame.len() < 14 {
        Err("frame too short for Ethernet header: "@ + dec(frame.len()) + " bytes"@)
    } else if frame.len() < at + 2 {
        Err("VLAN frame too short"@)
    } else if be16_at(frame, at) == want {
        Ok(at + 2)
    } else if at > 12 {
        Err("unexpected inner EtherType: 0x"@ + hex(be16_at(frame, at) as nat, 4, true))
    } else {
        Err("unexpected EtherType: 0x"@ + hex(be16_at(frame, at) as nat, 4, true))
    }
}

/// Strip the Ethernet header and return the payload, requiring the EtherType
/// to be `want`. Any number of VLAN tags is skipped, so a tagged and an
/// untagged frame are handled identically.
pub fn strip_eth(frame: &[u8], want: u16) -> (r: Result<&[u8], String>)
    ensures
        match eth_payload_offset(frame@, want) {
            Ok(at) => r is Ok && 14 <= at <= frame@.len() && r->Ok_0@ == frame@.skip(at),
            Err(m) => r is Err && r->Err_0@ == m,
        },
{
    if frame.len() < 14 {
        let mut e = "frame too short for Ethernet header: ".to_owned();
        push_dec(&mut e, frame.len() as u128);
        e.append(" bytes");
        return Err(e);
    }
    let at: usize = skip_vlan_tags(frame);
    proof {
        eth_type_offset_bounds(frame@, 12);
    }
    if frame.len() - at < 2 {
        return Err("VLAN frame too short".to_owned());
    }
    let ethertype: u16 = read_be16(frame, at);
    if ethertype != want {
        let mut e = if at > 12 {
            "unexpected inner EtherType: 0x".to_owned()
        } else {
            "unexpected EtherType: 0x".to_owned()
        };
        push_hex(&mut e, ethertype as u64, 4, true);
        return Err(e);
    }
    let r = slice_subrange(frame, at + 2, frame.len());
    assert(r@ =~= frame@.skip(at + 2));
    Ok(r)
}

/// A VLAN tag in front of the EtherType changes nothing for the receiver: the
/// tagged frame strips to the payload that the untagged one strips to.
pub proof fn vlan_tag_is_transparent(frame: Seq<u8>, tpid: u16, tci: Seq<u8>, want: u16)
    requires
        frame.len() >= 14,
        is_tpid(tpid),
        tci.len() == 2,
    ensures
        ({
            let tagged = frame.take(12) + crate::bytes::be16(tpid) + tci + frame.skip(12);
            match (eth_payload_offset(frame, want), eth_payload_offset(tagged, want)) {
                (Ok(a), Ok(b)) => frame.skip(a) == tagged.skip(b),
                (Err(_), Err(_)) => true,
                _ => false,
            }
        }),
{
    let tagged = frame.take(12) + crate::bytes::be16(tpid) + tci + frame.skip(12);
    crate::bytes::be16_round_trip(frame.take(12), tpid, tci + frame.skip(12));
    assert(tagged =~= frame.take(12) + crate::bytes::be16(tpid) + (tci + frame.skip(12)));
    assert(forall|i: int| 12 <= i < frame.len() ==> tagged[i + 4] == #[trigger] frame[i]);
    lemma_offset_shift(frame, tagged, 12);
    eth_type_offset_bounds(frame, 12);
    let at = eth_type_offset(frame, 12);
    if at + 2 <= frame.len() {
        assert(tagged[at + 4] == frame[at] && tagged[at + 1 + 4] == frame[at + 1]);
        assert(frame.skip(at + 2) =~= tagged.skip(at + 6));
    }
}

/// Four bytes inserted before `off` move the EtherType by four.
pub proof fn lemma_offset_shift(frame: Seq<u8>, tagged: Seq<u8>, off: int)
    requires
        12 <= off,
        tagged.len() == frame.len() + 4,
        forall|i: int| 12 <= i < frame.len() ==> tagged[i + 4] == #[trigger] frame[i],
    ensures
        eth_type_offset(tagged, off + 4) == eth_type_offset(frame, off) + 4,
    decreases frame.len() - off,
{
    if frame.len() >= off + 4 {
        assert(tagged[off + 4] == frame[off]);
        assert(tagged[off + 1 + 4] == frame[off + 1]);
        if is_tpid(be16_at(frame, off)) {
            lemma_offset_shift(frame, tagged, off + 4);
        }
    }
}

} // verus!
