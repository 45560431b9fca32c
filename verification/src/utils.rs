use vstd::prelude::*;

verus! {

/// Relies on `std::time::SystemTime::now` and `duration_since`: the
/// milliseconds elapsed since the Unix epoch, used to stamp state writes.
/// A clock set before the epoch reads as zero, so the reading is never
/// negative.
#[verifier::external_body]
pub fn get_unix_time() -> (r: i64)
    ensures
        r >= 0,
{
    let now = std::time::SystemTime::now();
    match now.duration_since(std::time::UNIX_EPOCH) {
        Ok(d) => d.as_millis() as i64,
        Err(_) => 0,
    }
}

} // verus!
