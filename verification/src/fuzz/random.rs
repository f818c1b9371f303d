//! Random inputs for fuzz tests, drawn from the thread-local generator of
//! `rand`; each result is only known to lie in its range.
use rand::distributions::DistString;
use rand::Rng;
use vstd::prelude::*;

verus! {

/// Draws an `i64` with `rand::Rng::gen_range(lower..=upper)` from
/// `rand::thread_rng()`. Claimed: the result lies in the range, which the
/// call requires to be non-empty (it panics otherwise).
#[verifier::external_body]
fn rand_i64_inclusive(lower: i64, upper: i64) -> (r: i64)
    requires
        lower <= upper,
    ensures
        lower <= r <= upper,
{
    rand::thread_rng().gen_range(lower..=upper)
}

/// Draws a `u64` with `rand::Rng::gen_range(lower..=upper)` from
/// `rand::thread_rng()`. Claimed: the result lies in the range, which the
/// call requires to be non-empty (it panics otherwise).
#[verifier::external_body]
fn rand_u64_inclusive(lower: u64, upper: u64) -> (r: u64)
    requires
        lower <= upper,
    ensures
        lower <= r <= upper,
{
    rand::thread_rng().gen_range(lower..=upper)
}

/// Draws a `u16` with `rand::Rng::gen_range(lower..upper)` from
/// `rand::thread_rng()`. Claimed: the result lies in the half-open range,
/// which the call requires to be non-empty (it panics otherwise).
#[verifier::external_body]
pub(crate) fn rand_u16_below(lower: u16, upper: u16) -> (r: u16)
    requires
        lower < upper,
    ensures
        lower <= r < upper,
{
    rand::thread_rng().gen_range(lower..upper)
}

/// Draws a `u8` with `rand::Rng::gen::<u8>()` from `rand::thread_rng()`;
/// every `u8` can come out, so nothing is claimed of it.
#[verifier::external_body]
pub(crate) fn rand_u8() -> (r: u8) {
    rand::thread_rng().gen::<u8>()
}

/// Draws a `bool` with `rand::Rng::gen::<bool>()` from `rand::thread_rng()`;
/// both values can come out, so nothing is claimed of it.
#[verifier::external_body]
fn rand_bool() -> (r: bool) {
    rand::thread_rng().gen::<bool>()
}

/// An ASCII letter or digit.
pub open spec fn is_alphanumeric(c: char) -> bool {
    ('a' <= c <= 'z') || ('A' <= c <= 'Z') || ('0' <= c <= '9')
}

/// Draws a string with `rand::distributions::Alphanumeric.sample_string` of
/// `len` characters from `rand::thread_rng()`. Claimed, as `rand` documents
/// and its source shows: `len` characters, each an ASCII letter or digit.
#[verifier::external_body]
fn rand_alphanumeric(len: usize) -> (r: String)
    ensures
        r@.len() == len,
        forall|i: int| 0 <= i < len ==> is_alphanumeric(#[trigger] r@[i]),
{
    rand::distributions::Alphanumeric.sample_string(&mut rand::thread_rng(), len)
}

/// Fills the bytes with `rand::Rng::fill` from `rand::thread_rng()`.
/// Claimed: the length does not change; the bytes can be anything.
#[verifier::external_body]
fn rand_fill(bytes: &mut Vec<u8>)
    ensures
        final(bytes)@.len() == old(bytes)@.len(),
{
    rand::thread_rng().fill(&mut bytes[..])
}

/// A random `i64` between `lower` and `upper`, both included.
pub fn random_i64(lower: i64, upper: i64) -> (r: i64)
    requires
        lower <= upper,
    ensures
        lower <= r <= upper,
{
    rand_i64_inclusive(lower, upper)
}

/// A random `u64` between `lower` and `upper`, both included.
pub fn random_u64(lower: u64, upper: u64) -> (r: u64)
    requires
        lower <= upper,
    ensures
        lower <= r <= upper,
{
    rand_u64_inclusive(lower, upper)
}

/// A random `bool`.
pub fn random_bool() -> bool {
    rand_bool()
}

/// A random string of ASCII letters and digits whose length lies between
/// `length_min` and `length_max`, both included.
pub fn random_string(length_min: u64, length_max: u64) -> (s: String)
    requires
        length_min <= length_max,
        length_max <= usize::MAX,
    ensures
        length_min <= s@.len() <= length_max,
        forall|i: int| 0 <= i < s@.len() ==> is_alphanumeric(#[trigger] s@[i]),
{
    let len = random_u64(length_min, length_max);
    rand_alphanumeric(len as usize)
}

/// Random bytes whose number lies between `length_min` and `length_max`,
/// both included.
pub fn random_bytes(length_min: u64, length_max: u64) -> (bytes: Vec<u8>)
    requires
        length_min <= length_max,
        length_max <= usize::MAX,
    ensures
        length_min <= bytes@.len() <= length_max,
{
    let length = random_u64(length_min, length_max);
    let mut bytes = vec![0u8; length as usize];
    rand_fill(&mut bytes);
    bytes
}

} // verus!
