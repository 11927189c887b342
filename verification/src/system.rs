//! The clock and the system's random source.

use vstd::prelude::*;

verus! {

/// The system clock's reading.
#[verifier::external_type_specification]
#[verifier::external_body]
pub struct ExSystemTime(std::time::SystemTime);

/// The error of a reading that lies before the Unix epoch.
#[verifier::external_type_specification]
#[verifier::external_body]
pub struct ExSystemTimeError(std::time::SystemTimeError);

/// Reads the system clock (`SystemTime::now`). Nothing is stated of the
/// reading: it is the time.
#[verifier::external_body]
fn system_now() -> std::time::SystemTime {
    std::time::SystemTime::now()
}

/// How long after the Unix epoch a reading lies, an error where it lies
/// earlier (`SystemTime::duration_since` with `UNIX_EPOCH`). Nothing is
/// stated of the span: the reading is opaque here.
#[verifier::external_body]
fn since_unix_epoch(t: &std::time::SystemTime) -> Result<core::time::Duration, std::time::SystemTimeError> {
    t.duration_since(std::time::UNIX_EPOCH)
}

/// A span in whole nanoseconds (`Duration::as_nanos`). Nothing is stated of
/// the number: the span is opaque here.
#[verifier::external_body]
fn duration_nanos(d: &core::time::Duration) -> u128 {
    d.as_nanos()
}

/// Nanoseconds since the Unix epoch, 0 where the clock reads earlier.
/// Nothing is stated of the value: it is the time.
pub(crate) fn unix_time_nanos() -> u128 {
    let now = system_now();
    match since_unix_epoch(&now) {
        Ok(span) => duration_nanos(&span),
        Err(_) => 0,
    }
}

/// `len` bytes from the system's random source (`getrandom::getrandom`),
/// or `None` where it fails. Of the bytes, only their number is stated.
#[verifier::external_body]
pub(crate) fn random_bytes(len: usize) -> (r: Option<Vec<u8>>)
    ensures
        r matches Some(v) ==> v@.len() == len,
{
    let mut buf = vec![0u8; len];
    match getrandom::getrandom(&mut buf) {
        Ok(()) => Some(buf),
        Err(_) => None,
    }
}

/// Milliseconds since the Unix epoch, truncated to 64 bits.
pub fn unix_now_ms() -> (ms: u64)
{
    let nanos = unix_time_nanos();
    let millis = nanos / 1_000_000;
    #[verifier::truncate] (millis as u64)
}

} // verus!
