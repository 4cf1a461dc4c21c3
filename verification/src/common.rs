//! Small shared helpers: fresh message ids and the clock.
use vstd::prelude::*;

verus! {

/// Relies on `uuid::Uuid::new_v4` and its `Display` form: a fresh
/// version-4 UUID in the hyphenated form, which is 36 characters
/// long. The value itself is random, so nothing more is stated.
#[verifier::external_body]
pub(crate) fn new_id_as_string() -> (r: String)
    ensures
        r@.len() == 36,
{
    uuid::Uuid::new_v4().to_string()
}

/// Relies on `std::time::SystemTime::now` and `duration_since`:
/// the whole seconds and whole milliseconds since the Unix epoch,
/// or nothing when the clock stands before the epoch. The value
/// depends on the clock, so nothing is stated of it.
#[verifier::external_body]
fn now_since_epoch() -> (r: Option<(u64, u128)>)
{
    match std::time::SystemTime::now().duration_since(std::time::UNIX_EPOCH) {
        Ok(d) => Some((d.as_secs(), d.as_millis())),
        Err(_) => None,
    }
}

/// Milliseconds since the Unix epoch; zero when the clock stands
/// before the epoch. The value depends on the clock, so the
/// contract states nothing of it.
pub fn epoch_as_millis() -> u128 {
    match now_since_epoch() {
        Some((_, millis)) => millis,
        None => 0,
    }
}

/// Seconds since the Unix epoch; zero when the clock stands before
/// the epoch.
pub fn epoch_as_secs() -> i64 {
    match now_since_epoch() {
        Some((secs, _)) => {
            if secs > i64::MAX as u64 {
                i64::MAX
            } else {
                secs as i64
            }
        },
        None => 0,
    }
}

} // verus!
