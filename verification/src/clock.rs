//! The time, where a name is made of it.

use vstd::prelude::*;

verus! {

/// Milliseconds since the start of 1970, from `SystemTime::now`; zero where the clock stands
/// before that. Nothing is claimed of the result.
#[verifier::external_body]
pub(crate) fn unix_millis() -> (r: u64) {
    std::time::SystemTime::now().duration_since(std::time::UNIX_EPOCH).map(
        |d| d.as_millis() as u64,
    ).unwrap_or(0)
}

/// The date and time of day at this place, from `jiff::Zoned::now` and its `strftime` with the
/// format `%Y-%m-%d %H:%M`. Nothing is claimed of the result.
#[verifier::external_body]
pub(crate) fn local_minute() -> (r: String) {
    jiff::Zoned::now().strftime("%Y-%m-%d %H:%M").to_string()
}

} // verus!
