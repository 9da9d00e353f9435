//! The outside primitives sign-in rests on: SHA-256, constant-time
//! comparison, the operating system's random source and the clocks.
use vstd::prelude::*;

use crate::text::{encode_hex, hex_text, is_hex_digit_char, lemma_hex_text_shape};
use sha2::Digest;
use subtle::ConstantTimeEq;

verus! {

/// The SHA-256 digest of `data`.
pub uninterp spec fn sha256_digest(data: Seq<u8>) -> Seq<u8>;

/// SHA-256 of `data`.
///
/// Trusted: calls `sha2::Sha256::digest`. The contract names the result
/// (`sha256_digest` of the input bytes) and states its length, 32 bytes,
/// which the output type `GenericArray<u8, U32>` fixes.
#[verifier::external_body]
pub(crate) fn sha256(data: &[u8]) -> (d: Vec<u8>)
    ensures
        d@ == sha256_digest(data@),
        d@.len() == 32,
{
    sha2::Sha256::digest(data).to_vec()
}

/// Equality of two byte strings, in time independent of their contents.
///
/// Trusted: calls `subtle::ConstantTimeEq::ct_eq` on slices, which returns
/// 0 when the lengths differ and otherwise 1 exactly when every byte is
/// equal; the contract says the result is plain equality.
#[verifier::external_body]
pub(crate) fn constant_time_eq(a: &[u8], b: &[u8]) -> (r: bool)
    ensures
        r == (a@ == b@),
{
    a.ct_eq(b).into()
}

#[verifier::external_type_specification]
#[verifier::external_body]
pub struct ExRandomError(getrandom::Error);

/// Overwrites `buf` with bytes from the operating system's random source.
///
/// Trusted: calls `getrandom::fill`. The contract keeps the length, and
/// says that an empty buffer always succeeds (`fill` only asks the
/// operating system for a non-empty one). What the bytes are is chance, and
/// whether the source answers otherwise is up to the operating system.
#[verifier::external_body]
fn fill_from_os(buf: &mut Vec<u8>) -> (r: Result<(), getrandom::Error>)
    ensures
        final(buf)@.len() == old(buf)@.len(),
        old(buf)@.len() == 0 ==> r is Ok,
{
    getrandom::fill(buf.as_mut_slice())
}

/// The operating system's random source did not answer.
#[derive(Debug, Clone, Copy, PartialEq, Eq, Structural)]
pub struct RandomSourceError;

/// A random lowercase hex string of `bytes * 2` characters.
pub open spec fn is_random_hex(s: Seq<char>, bytes: nat) -> bool {
    exists|b: Seq<u8>| b.len() == bytes && s == hex_text(b)
}

/// Returns a random lowercase hex string of `bytes * 2` characters, or an
/// error when the operating system's random source is unavailable; asking
/// for no bytes never consults it and gives the empty string.
pub fn random_hex(bytes: usize) -> (r: Result<String, RandomSourceError>)
    requires
        bytes <= usize::MAX / 2,
    ensures
        bytes == 0 ==> (r matches Ok(s) && s@.len() == 0),
        r matches Ok(s) ==> is_random_hex(s@, bytes as nat),
        r matches Ok(s) ==> s@.len() == 2 * bytes,
        r matches Ok(s) ==> forall|i: int| 0 <= i < s@.len() ==> is_hex_digit_char(#[trigger] s@[i]),
{
    let mut buf: Vec<u8> = Vec::new();
    let mut i: usize = 0;
    while i < bytes
        invariant
            i <= bytes,
            buf@.len() == i,
        decreases bytes - i,
    {
        buf.push(0u8);
        i += 1;
    }
    match fill_from_os(&mut buf) {
        Ok(()) => {
            let s = encode_hex(buf.as_slice());
            proof {
                lemma_hex_text_shape(buf@);
            }
            Ok(s)
        },
        Err(_) => Err(RandomSourceError),
    }
}

#[verifier::external_type_specification]
#[verifier::external_body]
pub struct ExSystemTime(std::time::SystemTime);

/// The wall clock, now.
///
/// Trusted: calls `std::time::SystemTime::now`; the reading is whatever the
/// machine says, so nothing is stated.
#[verifier::external_body]
fn system_time_now() -> std::time::SystemTime {
    std::time::SystemTime::now()
}

/// How long after the Unix epoch `time` is, or `None` for a time before it.
///
/// Trusted: calls `SystemTime::duration_since(UNIX_EPOCH)`, turning its error
/// into `None`; the time is opaque here, so nothing is stated of the result.
#[verifier::external_body]
fn time_since_unix_epoch(time: &std::time::SystemTime) -> Option<std::time::Duration> {
    time.duration_since(std::time::UNIX_EPOCH).ok()
}

/// The whole nanoseconds in `d`.
///
/// Trusted: calls `Duration::as_nanos`, which is exact; the duration is
/// opaque here, so nothing is stated of the result.
#[verifier::external_body]
fn duration_nanos(d: &std::time::Duration) -> u128 {
    d.as_nanos()
}

/// Nanoseconds since the Unix epoch, now; 0 for a clock set before it.
pub(crate) fn wall_clock_nanos() -> u128 {
    match time_since_unix_epoch(&system_time_now()) {
        Some(d) => duration_nanos(&d),
        None => 0,
    }
}

#[verifier::external_type_specification]
#[verifier::external_body]
pub struct ExInstant(std::time::Instant);

/// The current reading of the monotonic clock.
///
/// Trusted: calls `std::time::Instant::now`; nothing is stated.
#[verifier::external_body]
pub(crate) fn instant_now() -> std::time::Instant {
    std::time::Instant::now()
}

/// Time elapsed on the monotonic clock since `origin`.
///
/// Trusted: calls `std::time::Instant::elapsed`; the reading depends on the
/// clock, so nothing is stated.
#[verifier::external_body]
fn elapsed_since(origin: &std::time::Instant) -> std::time::Duration {
    origin.elapsed()
}

/// Nanoseconds elapsed on the monotonic clock since `origin`.
pub(crate) fn nanos_since(origin: &std::time::Instant) -> u128 {
    duration_nanos(&elapsed_since(origin))
}

} // verus!
