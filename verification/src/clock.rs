//! The system clock, read through std.
use vstd::prelude::*;

verus! {

/// `std::time::SystemTime::now` since the Unix epoch, in microseconds
/// (`Duration::as_micros`), or `None` when the clock reads before the epoch
/// (`duration_since` fails). Nothing is claimed of the value: it is whatever
/// the clock says.
#[verifier::external_body]
pub(crate) fn now_micros() -> (r: Option<u128>) {
    match std::time::SystemTime::now().duration_since(std::time::UNIX_EPOCH) {
        Ok(d) => Some(d.as_micros()),
        Err(_) => None,
    }
}

/// `std::time::SystemTime::now` since the Unix epoch, in whole seconds
/// (`Duration::as_secs`), or `None` when the clock reads before the epoch.
/// Nothing is claimed of the value.
#[verifier::external_body]
pub(crate) fn now_secs() -> (r: Option<u64>) {
    match std::time::SystemTime::now().duration_since(std::time::UNIX_EPOCH) {
        Ok(d) => Some(d.as_secs()),
        Err(_) => None,
    }
}

} // verus!
