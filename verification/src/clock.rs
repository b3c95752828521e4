//! Wall-clock and identifier sources.
//!
//! The domain logic takes explicit `now_ms` arguments wherever a decision
//! depends on time, so that every caller (and every test) controls the
//! clock.  The two functions here exist only for constructors that stamp
//! a fresh value on creation; nothing is promised about the time itself.

use vstd::prelude::*;

verus! {

/// Relies on std::time::SystemTime::now: milliseconds since the Unix epoch
/// (zero if the clock reports a time before the epoch).
#[verifier::external_body]
pub fn now_unix_ms() -> u64 {
    std::time::SystemTime::now()
        .duration_since(std::time::UNIX_EPOCH)
        .unwrap_or_default()
        .as_millis() as u64
}

/// Relies on uuid::Uuid::new_v4: a random 128-bit identifier whose version
/// nibble (bits 76..80 of the big-endian value) is always 4.
#[verifier::external_body]
pub fn new_order_uuid() -> (r: u128)
    ensures
        (r >> 76) & 0xf == 4,
{
    uuid::Uuid::new_v4().as_u128()
}

} // verus!
