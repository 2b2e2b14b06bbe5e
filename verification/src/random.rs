//! Random bytes from the operating system, for identifiers and ports.

use vstd::prelude::*;
use vstd::string::*;
use crate::bytes::read_be32;
use crate::text::begins_with;

verus! {

/// The error of the random source: a platform error code.
#[verifier::external_type_specification]
#[verifier::external_body]
pub struct ExRandomError(getrandom::Error);

/// `getrandom::fill` on a fresh buffer: on success it has overwritten all of
/// the `n` bytes. Nothing is claimed of what they are.
#[verifier::external_body]
fn fill(n: usize) -> (r: Result<Vec<u8>, getrandom::Error>)
    ensures
        r matches Ok(v) ==> v@.len() == n,
{
    let mut buf = vec![0u8; n];
    match getrandom::fill(&mut buf) {
        Ok(()) => Ok(buf),
        Err(e) => Err(e),
    }
}

/// The `Display` text of `getrandom::Error`. It may come from the operating
/// system, so nothing is claimed of it.
#[verifier::external_body]
fn error_text(e: &getrandom::Error) -> (r: String) {
    format!("{}", e)
}

/// `n` random bytes, or why there are none.
pub fn random_bytes(n: usize) -> (r: Result<Vec<u8>, String>)
    ensures
        r matches Ok(v) ==> v@.len() == n,
        r matches Err(e) ==> begins_with(e@, "getrandom failed: "@),
{
    match fill(n) {
        Ok(v) => Ok(v),
        Err(err) => {
            let mut e = "getrandom failed: ".to_owned();
            let text = error_text(&err);
            e.append(text.as_str());
            assert(e@.subrange(0, "getrandom failed: "@.len() as int) =~= "getrandom failed: "@);
            Err(e)
        },
    }
}

/// A port of the dynamic range, 49152 to 65535, from two random bytes.
pub open spec fn dynamic_port(hi: u8, lo: u8) -> u16 {
    (49152 + (hi * 0x100 + lo) % 16384) as u16
}

/// A port of the dynamic range, 49152 to 65535, from two random bytes.
pub fn port_from(hi: u8, lo: u8) -> (r: u16)
    ensures
        r == dynamic_port(hi, lo),
        r >= 49152,
{
    49152 + (hi as u16 * 0x100 + lo as u16) % 16384
}

/// A random transaction id.
pub fn gen_xid() -> (r: Result<u32, String>)
    ensures
        r matches Err(e) ==> begins_with(e@, "getrandom failed: "@),
{
    match random_bytes(4) {
        Ok(v) => Ok(read_be32(v.as_slice(), 0)),
        Err(e) => Err(e),
    }
}

} // verus!
