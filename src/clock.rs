//! Wall-clock time for payload timestamps.
use vstd::prelude::*;

verus! {

/// Relies on `SystemTime::elapsed` on `UNIX_EPOCH`: the time since the Unix
/// epoch by the system clock, `None` when the clock reads earlier than
/// that. Nothing is known of the value: it is the time now.
#[verifier::external_body]
fn since_unix_epoch() -> (r: Option<std::time::Duration>) {
    std::time::UNIX_EPOCH.elapsed().ok()
}

/// Relies on `Duration::as_millis`: the whole milliseconds in `d`.
#[verifier::external_body]
fn whole_millis(d: &std::time::Duration) -> (r: u128) {
    d.as_millis()
}

/// Milliseconds since the Unix epoch, by the system clock; 0 when the clock
/// reads earlier than the epoch, and the low 64 bits past `u64::MAX`.
pub fn timestamp() -> (r: u64) {
    match since_unix_epoch() {
        Some(d) => whole_millis(&d) as u64,
        None => 0,
    }
}

} // verus!
