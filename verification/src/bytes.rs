//! Fixed-width integers on the wire.
//!
//! Sequences of bytes are the common model of every frame and record in this
//! crate. The spec functions below give the big- and little-endian encodings
//! as arithmetic on bytes, and the executable ones read and append them.

use vstd::prelude::*;
use vstd::string::*;
use vstd::slice::*;

verus! {

/// Big-endian encoding of a 16-bit value.
pub open spec fn be16(x: u16) -> Seq<u8> {
    seq![(x / 0x100) as u8, (x % 0x100) as u8]
}

/// Big-endian encoding of a 32-bit value.
pub open spec fn be32(x: u32) -> Seq<u8> {
    seq![
        (x / 0x100_0000) as u8,
        (x / 0x1_0000 % 0x100) as u8,
        (x / 0x100 % 0x100) as u8,
        (x % 0x100) as u8,
    ]
}

/// Little-endian encoding of a 16-bit value.
pub open spec fn le16(x: u16) -> Seq<u8> {
    seq![(x % 0x100) as u8, (x / 0x100) as u8]
}

/// Little-endian encoding of a 32-bit value.
pub open spec fn le32(x: u32) -> Seq<u8> {
    seq![
        (x % 0x100) as u8,
        (x / 0x100 % 0x100) as u8,
        (x / 0x1_0000 % 0x100) as u8,
        (x / 0x100_0000) as u8,
    ]
}

/// The 16-bit value stored big-endian at `off`.
pub open spec fn be16_at(s: Seq<u8>, off: int) -> u16 {
    (s[off] * 0x100 + s[off + 1]) as u16
}

/// The 32-bit value stored big-endian at `off`.
pub open spec fn be32_at(s: Seq<u8>, off: int) -> u32 {
    (s[off] * 0x100_0000 + s[off + 1] * 0x1_0000 + s[off + 2] * 0x100 + s[off + 3]) as u32
}

/// The 16-bit value stored little-endian at `off`.
pub open spec fn le16_at(s: Seq<u8>, off: int) -> u16 {
    (s[off + 1] * 0x100 + s[off]) as u16
}

/// The 32-bit value stored little-endian at `off`.
pub open spec fn le32_at(s: Seq<u8>, off: int) -> u32 {
    (s[off + 3] * 0x100_0000 + s[off + 2] * 0x1_0000 + s[off + 1] * 0x100 + s[off]) as u32
}

/// `n` bytes of value zero.
pub open spec fn zeros(n: nat) -> Seq<u8> {
    Seq::new(n, |i: int| 0u8)
}

/// Reading back a big-endian 16-bit value gives the value written, wherever
/// it stands.
pub proof fn be16_round_trip(pre: Seq<u8>, x: u16, post: Seq<u8>)
    ensures
        be16_at(pre + be16(x) + post, pre.len() as int) == x,
{
    let s = pre + be16(x) + post;
    assert(s[pre.len() as int] == be16(x)[0]);
    assert(s[pre.len() as int + 1] == be16(x)[1]);
}

/// Reading back a big-endian 32-bit value gives the value written, wherever
/// it stands.
pub proof fn be32_round_trip(pre: Seq<u8>, x: u32, post: Seq<u8>)
    ensures
        be32_at(pre + be32(x) + post, pre.len() as int) == x,
{
    let s = pre + be32(x) + post;
    assert(s[pre.len() as int] == be32(x)[0]);
    assert(s[pre.len() as int + 1] == be32(x)[1]);
    assert(s[pre.len() as int + 2] == be32(x)[2]);
    assert(s[pre.len() as int + 3] == be32(x)[3]);
}

/// Writing the value read from two bytes gives those two bytes back.
pub proof fn be16_of_read(s: Seq<u8>, off: int)
    requires
        0 <= off,
        off + 2 <= s.len(),
    ensures
        be16(be16_at(s, off)) == s.subrange(off, off + 2),
{
    assert(be16(be16_at(s, off)) =~= s.subrange(off, off + 2));
}

/// Writing the value read from four bytes gives those four bytes back.
pub proof fn be32_of_read(s: Seq<u8>, off: int)
    requires
        0 <= off,
        off + 4 <= s.len(),
    ensures
        be32(be32_at(s, off)) == s.subrange(off, off + 4),
{
    lemma_be32_digits(be32_at(s, off), s[off], s[off + 1], s[off + 2], s[off + 3]);
    assert(be32(be32_at(s, off)) =~= s.subrange(off, off + 4));
}

proof fn lemma_be32_digits(x: u32, a: u8, b: u8, c: u8, d: u8)
    requires
        x == a * 0x100_0000 + b * 0x1_0000 + c * 0x100 + d,
    ensures
        (x / 0x100_0000) as u8 == a,
        (x / 0x1_0000 % 0x100) as u8 == b,
        (x / 0x100 % 0x100) as u8 == c,
        (x % 0x100) as u8 == d,
{
    let y: int = a * 0x1_0000 + b * 0x100 + c;
    let z: int = a * 0x100 + b;
    assert(x / 0x100 == y && x % 0x100 == d);
    assert(x / 0x1_0000 == z) by {
        assert(x == z * 0x1_0000 + (c * 0x100 + d));
    }
    assert(x / 0x100_0000 == a) by {
        assert(x == a * 0x100_0000 + (b * 0x1_0000 + c * 0x100 + d));
    }
    assert(y % 0x100 == c);
    assert(z % 0x100 == b);
}

/// The 16-bit value stored big-endian at `off`.
pub fn read_be16(s: &[u8], off: usize) -> (r: u16)
    requires
        off + 2 <= s@.len(),
    ensures
        r == be16_at(s@, off as int),
{
    (s[off] as u16) * 0x100 + (s[off + 1] as u16)
}

/// The 32-bit value stored big-endian at `off`.
pub fn read_be32(s: &[u8], off: usize) -> (r: u32)
    requires
        off + 4 <= s@.len(),
    ensures
        r == be32_at(s@, off as int),
{
    (s[off] as u32) * 0x100_0000 + (s[off + 1] as u32) * 0x1_0000 + (s[off + 2] as u32) * 0x100
        + (s[off + 3] as u32)
}

/// The 16-bit value stored little-endian at `off`.
pub fn read_le16(s: &[u8], off: usize) -> (r: u16)
    requires
        off + 2 <= s@.len(),
    ensures
        r == le16_at(s@, off as int),
{
    let lo: u16 = s[off] as u16;
    (s[off + 1] as u16) * 0x100 + lo
}

/// The 32-bit value stored little-endian at `off`.
pub fn read_le32(s: &[u8], off: usize) -> (r: u32)
    requires
        off + 4 <= s@.len(),
    ensures
        r == le32_at(s@, off as int),
{
    let lo: u32 = s[off] as u32;
    (s[off + 3] as u32) * 0x100_0000 + (s[off + 2] as u32) * 0x1_0000 + (s[off + 1] as u32) * 0x100
        + lo
}

/// Append a 16-bit value, big-endian.
pub fn push_be16(v: &mut Vec<u8>, x: u16)
    ensures
        final(v)@ == old(v)@ + be16(x),
{
    v.push((x / 0x100) as u8);
    v.push((x % 0x100) as u8);
    assert(v@ =~= old(v)@ + be16(x));
}

/// Append a 32-bit value, big-endian.
pub fn push_be32(v: &mut Vec<u8>, x: u32)
    ensures
        final(v)@ == old(v)@ + be32(x),
{
    v.push((x / 0x100_0000) as u8);
    v.push((x / 0x1_0000 % 0x100) as u8);
    v.push((x / 0x100 % 0x100) as u8);
    v.push((x % 0x100) as u8);
    assert(v@ =~= old(v)@ + be32(x));
}

/// Append a 16-bit value, little-endian.
pub fn push_le16(v: &mut Vec<u8>, x: u16)
    ensures
        final(v)@ == old(v)@ + le16(x),
{
    v.push((x % 0x100) as u8);
    v.push((x / 0x100) as u8);
    assert(v@ =~= old(v)@ + le16(x));
}

/// Append a 32-bit value, little-endian.
pub fn push_le32(v: &mut Vec<u8>, x: u32)
    ensures
        final(v)@ == old(v)@ + le32(x),
{
    v.push((x % 0x100) as u8);
    v.push((x / 0x100 % 0x100) as u8);
    v.push((x / 0x1_0000 % 0x100) as u8);
    v.push((x / 0x100_0000) as u8);
    assert(v@ =~= old(v)@ + le32(x));
}

/// Append a slice.
pub fn push_all(v: &mut Vec<u8>, data: &[u8])
    ensures
        final(v)@ == old(v)@ + data@,
{
    v.extend_from_slice(data);
    assert(v@ =~= old(v)@ + data@);
}

/// Append `n` zero bytes.
pub fn push_zeros(v: &mut Vec<u8>, n: usize)
    ensures
        final(v)@ == old(v)@ + zeros(n as nat),
{
    let mut i: usize = 0;
    while i < n
        invariant
            i <= n,
            v@ == old(v)@ + zeros(i as nat),
        decreases n - i,
    {
        v.push(0);
        i = i + 1;
        assert(v@ =~= old(v)@ + zeros(i as nat));
    }
}

/// A copy of `data[from..to]`.
pub fn copy_range(data: &[u8], from: usize, to: usize) -> (r: Vec<u8>)
    requires
        from <= to <= data@.len(),
    ensures
        r@ == data@.subrange(from as int, to as int),
{
    slice_to_vec(slice_subrange(data, from, to))
}

/// The four bytes at `off`.
pub fn array4(s: &[u8], off: usize) -> (r: [u8; 4])
    requires
        off + 4 <= s@.len(),
    ensures
        r@ == s@.subrange(off as int, off + 4),
{
    let r = [s[off], s[off + 1], s[off + 2], s[off + 3]];
    assert(r@ =~= s@.subrange(off as int, off + 4));
    r
}

/// The six bytes at `off`.
pub fn array6(s: &[u8], off: usize) -> (r: [u8; 6])
    requires
        off + 6 <= s@.len(),
    ensures
        r@ == s@.subrange(off as int, off + 6),
{
    let r = [s[off], s[off + 1], s[off + 2], s[off + 3], s[off + 4], s[off + 5]];
    assert(r@ =~= s@.subrange(off as int, off + 6));
    r
}

/// The sixteen bytes at `off`.
pub fn array16(s: &[u8], off: usize) -> (r: [u8; 16])
    requires
        off + 16 <= s@.len(),
    ensures
        r@ == s@.subrange(off as int, off + 16),
{
    let r = [
        s[off],
        s[off + 1],
        s[off + 2],
        s[off + 3],
        s[off + 4],
        s[off + 5],
        s[off + 6],
        s[off + 7],
        s[off + 8],
        s[off + 9],
        s[off + 10],
        s[off + 11],
        s[off + 12],
        s[off + 13],
        s[off + 14],
        s[off + 15],
    ];
    assert(r@ =~= s@.subrange(off as int, off + 16));
    r
}

/// Whether two byte slices hold the same bytes.
pub fn bytes_eq(a: &[u8], b: &[u8]) -> (r: bool)
    ensures
        r == (a@ == b@),
{
    if a.len() != b.len() {
        return false;
    }
    let mut i: usize = 0;
    while i < a.len()
        invariant
            i <= a@.len() == b@.len(),
            a@.take(i as int) == b@.take(i as int),
        decreases a@.len() - i,
    {
        if a[i] != b[i] {
            assert(a@[i as int] != b@[i as int]);
            return false;
        }
        assert(a@.take(i + 1) =~= a@.take(i as int).push(a@[i as int]));
        assert(b@.take(i + 1) =~= b@.take(i as int).push(b@[i as int]));
        i = i + 1;
    }
    assert(a@.take(i as int) =~= a@);
    assert(b@.take(i as int) =~= b@);
    true
}

/// `s` with `d` written over it from `off` on.
pub open spec fn overwrite(s: Seq<u8>, off: int, d: Seq<u8>) -> Seq<u8> {
    s.take(off) + d + s.skip(off + d.len())
}

/// Write the first `n` bytes of `d` over `v` from `off` on.
pub fn overwrite_at(v: &mut Vec<u8>, off: usize, d: &[u8], n: usize)
    requires
        n <= d@.len(),
        off + n <= old(v)@.len(),
    ensures
        final(v)@ == overwrite(old(v)@, off as int, d@.take(n as int)),
{
    let mut i: usize = 0;
    let ghost before = v@;
    let total: usize = v.len();
    while i < n
        invariant
            i <= n <= d@.len(),
            off + n <= v@.len() == total,
            v@.len() == before.len(),
            forall|j: int| 0 <= j < i ==> v@[off + j] == #[trigger] d@[j],
            forall|j: int|
                0 <= j < v@.len() && !(off <= j < off + i) ==> #[trigger] v@[j] == before[j],
        decreases n - i,
    {
        v[off + i] = d[i];
        i = i + 1;
    }
    proof {
        let after = overwrite(before, off as int, d@.take(n as int));
        assert forall|j: int| 0 <= j < v@.len() implies v@[j] == after[j] by {
            if off <= j < off + n {
                assert(v@[off + (j - off)] == d@[j - off]);
            }
        }
        assert(v@ =~= after);
    }
}

/// `s` without the zero bytes at its end.
pub open spec fn trim_nul(s: Seq<u8>) -> Seq<u8>
    decreases s.len(),
{
    if s.len() > 0 && s.last() == 0 {
        trim_nul(s.drop_last())
    } else {
        s
    }
}

/// `data` without the zero bytes at its end.
pub fn trim_trailing_nul(data: &[u8]) -> (r: &[u8])
    ensures
        r@ == trim_nul(data@),
{
    let mut n: usize = data.len();
    assert(data@.take(n as int) =~= data@);
    while n > 0 && data[n - 1] == 0
        invariant
            n <= data@.len(),
            trim_nul(data@.take(n as int)) == trim_nul(data@),
        decreases n,
    {
        assert(data@.take(n as int).drop_last() =~= data@.take(n - 1));
        n = n - 1;
    }
    let r = slice_subrange(data, 0, n);
    assert(r@ =~= data@.take(n as int));
    r
}

/// The contents of a list of byte vectors.
pub open spec fn contents(s: Seq<Vec<u8>>) -> Seq<Seq<u8>> {
    Seq::new(s.len(), |i: int| s[i]@)
}

/// The twenty bytes at `off`.
pub fn array20(s: &[u8], off: usize) -> (r: [u8; 20])
    requires
        off + 20 <= s@.len(),
    ensures
        r@ == s@.subrange(off as int, off + 20),
{
    let total: usize = s.len();
    let mut r: [u8; 20] = [0u8; 20];
    let mut i: usize = 0;
    while i < 20
        invariant
            i <= 20,
            off + 20 <= s@.len() == total,
            forall|j: int| 0 <= j < i ==> r@[j] == s@[off + j],
        decreases 20 - i,
    {
        r[i] = s[off + i];
        i = i + 1;
    }
    assert(r@ =~= s@.subrange(off as int, off + 20));
    r
}

/// The twenty-two bytes at `off`.
pub fn array22(s: &[u8], off: usize) -> (r: [u8; 22])
    requires
        off + 22 <= s@.len(),
    ensures
        r@ == s@.subrange(off as int, off + 22),
{
    let total: usize = s.len();
    let mut r: [u8; 22] = [0u8; 22];
    let mut i: usize = 0;
    while i < 22
        invariant
            i <= 22,
            off + 22 <= s@.len() == total,
            forall|j: int| 0 <= j < i ==> r@[j] == s@[off + j],
        decreases 22 - i,
    {
        r[i] = s[off + i];
        i = i + 1;
    }
    assert(r@ =~= s@.subrange(off as int, off + 22));
    r
}

/// The thirty-two bytes at `off`.
pub fn array32(s: &[u8], off: usize) -> (r: [u8; 32])
    requires
        off + 32 <= s@.len(),
    ensures
        r@ == s@.subrange(off as int, off + 32),
{
    let total: usize = s.len();
    let mut r: [u8; 32] = [0u8; 32];
    let mut i: usize = 0;
    while i < 32
        invariant
            i <= 32,
            off + 32 <= s@.len() == total,
            forall|j: int| 0 <= j < i ==> r@[j] == s@[off + j],
        decreases 32 - i,
    {
        r[i] = s[off + i];
        i = i + 1;
    }
    assert(r@ =~= s@.subrange(off as int, off + 32));
    r
}

/// The fifty-four bytes at `off`.
pub fn array54(s: &[u8], off: usize) -> (r: [u8; 54])
    requires
        off + 54 <= s@.len(),
    ensures
        r@ == s@.subrange(off as int, off + 54),
{
    let total: usize = s.len();
    let mut r: [u8; 54] = [0u8; 54];
    let mut i: usize = 0;
    while i < 54
        invariant
            i <= 54,
            off + 54 <= s@.len() == total,
            forall|j: int| 0 <= j < i ==> r@[j] == s@[off + j],
        decreases 54 - i,
    {
        r[i] = s[off + i];
        i = i + 1;
    }
    assert(r@ =~= s@.subrange(off as int, off + 54));
    r
}

/// The outcome of a read as mathematical values.
pub open spec fn bytes_outcome(r: Result<Vec<u8>, String>) -> Result<Seq<u8>, Seq<char>> {
    match r {
        Ok(d) => Ok(d@),
        Err(e) => Err(e@),
    }
}

/// The outcome of a call without a value as mathematical values.
pub open spec fn plain_outcome(r: Result<(), String>) -> Result<(), Seq<char>> {
    match r {
        Ok(_) => Ok(()),
        Err(e) => Err(e@),
    }
}

/// A 16-bit value is read where its two bytes stand.
pub proof fn be16_placed(s: Seq<u8>, off: int, x: u16)
    requires
        0 <= off,
        off + 2 <= s.len(),
        s[off] == be16(x)[0],
        s[off + 1] == be16(x)[1],
    ensures
        be16_at(s, off) == x,
{
}

/// A 32-bit value is read where its four bytes stand.
pub proof fn be32_placed(s: Seq<u8>, off: int, x: u32)
    requires
        0 <= off,
        off + 4 <= s.len(),
        s[off] == be32(x)[0],
        s[off + 1] == be32(x)[1],
        s[off + 2] == be32(x)[2],
        s[off + 3] == be32(x)[3],
    ensures
        be32_at(s, off) == x,
{
}

/// What is read from the front of some bytes is read from the front alone.
pub proof fn front_reads(head: Seq<u8>, tail: Seq<u8>)
    ensures
        forall|k: int| 0 <= k && k + 2 <= head.len() ==> #[trigger] be16_at(head + tail, k) == be16_at(
            head,
            k,
        ),
        forall|k: int| 0 <= k && k + 4 <= head.len() ==> #[trigger] be32_at(head + tail, k) == be32_at(
            head,
            k,
        ),
        forall|k: int| 0 <= k < head.len() ==> #[trigger] (head + tail)[k] == head[k],
{
}

/// Zeros behind some bytes that do not end with one are trimmed, and nothing else.
pub proof fn trimmed_of_padded(s: Seq<u8>, n: nat)
    requires
        s.len() > 0,
        s.last() != 0,
    ensures
        trim_nul(s + zeros(n)) == s,
    decreases n,
{
    if n == 0 {
        assert(s + zeros(0) =~= s);
    } else {
        trimmed_of_padded(s, (n - 1) as nat);
        assert((s + zeros(n)).drop_last() =~= s + zeros((n - 1) as nat));
        assert((s + zeros(n)).last() == 0);
    }
}

} // verus!
