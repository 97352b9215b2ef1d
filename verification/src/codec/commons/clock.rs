//! The wall clock and the random source that new messages draw from.
use vstd::prelude::*;

verus! {

/// `chrono`'s `Utc::now().timestamp()`: the seconds since the Unix epoch at
/// the moment of the call. Nothing is stated of the value, which depends on
/// the time of the call.
#[verifier::external_body]
pub(crate) fn utc_now_timestamp() -> i64 {
    chrono::Utc::now().timestamp()
}

/// `rand`'s `random::<u64>()`: a value drawn from the thread-local generator.
/// Nothing is stated of the value, which depends on chance.
#[verifier::external_body]
pub(crate) fn random_u64() -> u64 {
    rand::random::<u64>()
}

} // verus!
