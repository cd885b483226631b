//! The time of day.

use vstd::prelude::*;

verus! {

/// A point in time, as the system's clock gives it.
#[verifier::external_type_specification]
#[verifier::external_body]
pub struct ExSystemTime(std::time::SystemTime);

/// What comes of measuring back to a later point in time.
#[verifier::external_type_specification]
#[verifier::external_body]
pub struct ExSystemTimeError(std::time::SystemTimeError);

/// `SystemTime::now` reads the system's clock. Nothing is claimed of what it shows.
pub assume_specification[ std::time::SystemTime::now ]() -> std::time::SystemTime
;

/// `SystemTime::duration_since` measures from one point in time to another, and fails where the
/// other one is earlier. Nothing is claimed of which of these happens.
pub assume_specification[ std::time::SystemTime::duration_since ](
    this: &std::time::SystemTime,
    earlier: std::time::SystemTime,
) -> Result<std::time::Duration, std::time::SystemTimeError>
;

/// `Duration::as_millis` counts the whole milliseconds of a duration. Nothing is claimed of how
/// many there are.
pub assume_specification[ std::time::Duration::as_millis ](this: &std::time::Duration) -> u128
;

/// `UNIX_EPOCH` is the point in time from which the clock counts.
#[verifier::external_body]
fn unix_epoch() -> std::time::SystemTime {
    std::time::UNIX_EPOCH
}

/// Milliseconds since the epoch in 64 bits: none before the epoch, and the greatest number where
/// there are more.
pub open spec fn clamped_millis(elapsed: Option<u128>) -> i64 {
    match elapsed {
        Some(millis) => if millis <= i64::MAX {
            millis as i64
        } else {
            i64::MAX
        },
        None => 0,
    }
}

/// Brings milliseconds since the epoch into 64 bits.
pub fn clamp_millis(elapsed: Option<u128>) -> (millis: i64)
    ensures
        millis == clamped_millis(elapsed),
{
    match elapsed {
        Some(millis) => if millis <= i64::MAX as u128 {
            millis as i64
        } else {
            i64::MAX
        },
        None => 0,
    }
}

/// The milliseconds since the epoch, as the system's clock shows them. Which time that is, is not
/// stated.
pub fn unix_millis() -> (millis: i64)
    ensures
        millis >= 0,
{
    let elapsed = match std::time::SystemTime::now().duration_since(unix_epoch()) {
        Ok(duration) => Some(duration.as_millis()),
        Err(_) => None,
    };
    clamp_millis(elapsed)
}

/// A clock before the epoch reads zero, one beyond 64 bits the last millisecond, and any other one
/// exactly what it shows.
pub proof fn law_clock_readings(millis: u128)
    ensures
        clamped_millis(None) == 0,
        millis <= 0x7fff_ffff_ffff_ffff ==> clamped_millis(Some(millis)) == millis,
        millis > 0x7fff_ffff_ffff_ffff ==> clamped_millis(Some(millis)) == 0x7fff_ffff_ffff_ffff,
{
}

} // verus!
