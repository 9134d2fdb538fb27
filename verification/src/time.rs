use vstd::prelude::*;

verus! {

/// Relies on std's SystemTime: one read of the wall clock, as
/// milliseconds elapsed since the Unix epoch, or nothing when the clock
/// reads before the epoch. Nothing holds of the value itself, and the
/// call cannot panic.
#[verifier::external_body]
fn clock_unix_millis() -> (r: Option<u128>) {
    match std::time::SystemTime::now().duration_since(std::time::SystemTime::UNIX_EPOCH) {
        Ok(elapsed) => Some(elapsed.as_millis()),
        Err(_) => None,
    }
}

/// The current wall-clock time as signed 64-bit milliseconds since the
/// Unix epoch, the timestamp format every protocol response carries. A
/// clock before the epoch reads as the epoch itself, and a reading too
/// large for the signed range is clamped to its maximum.
pub fn timestamp() -> (r: i64)
    ensures
        r >= 0,
{
    match clock_unix_millis() {
        None => 0,
        Some(millis) => {
            if millis > 0x7fff_ffff_ffff_ffff_u128 {
                0x7fff_ffff_ffff_ffff_i64
            } else {
                millis as i64
            }
        },
    }
}

} // verus!
