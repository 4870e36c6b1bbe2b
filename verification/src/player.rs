//! Decisions of the playback control surface: volume stepping and
//! clamping, seek-target arithmetic, and progress percentages.  The
//! pipeline that carries them out lives outside; it reports positions and
//! durations in whole seconds, as signed numbers.

use vstd::prelude::*;

verus! {

/// Errors of the control-surface arithmetic.
#[derive(Debug, Clone, Copy, PartialEq, Eq, Structural)]
pub enum PlayerError {
    /// A progress query against a zero duration.
    DivideError,
    /// A seek target past the end of the track.
    ExceedsDuration,
}

/// One volume step up: five points, capped at one hundred.
pub fn volume_up(volume: i32) -> (r: i32)
    ensures
        r as int == (if volume + 5 > 100 {
            100int
        } else {
            volume + 5
        }),
{
    let v: i64 = volume as i64 + 5;
    if v > 100 {
        100
    } else {
        v as i32
    }
}

/// One volume step down: five points, floored at zero.
pub fn volume_down(volume: i32) -> (r: i32)
    ensures
        r as int == (if volume - 5 < 0 {
            0int
        } else {
            volume - 5
        }),
{
    let v: i64 = volume as i64 - 5;
    if v < 0 {
        0
    } else {
        v as i32
    }
}

/// A requested volume, clamped to the zero to one hundred range.
pub fn clamp_volume(volume: i32) -> (r: i32)
    ensures
        r as int == (if volume > 100 {
            100int
        } else if volume < 0 {
            0int
        } else {
            volume as int
        }),
{
    if volume > 100 {
        100
    } else if volume < 0 {
        0
    } else {
        volume
    }
}

/// The position a relative seek lands on: the current position moved by
/// `secs`, floored at the start; a target past the duration is refused.
pub fn seek_new_position(time_pos: i64, secs: i64, duration: i64) -> (r: Result<u64, PlayerError>)
    ensures
        ({
            let target = if time_pos + secs < 0 {
                0int
            } else {
                time_pos + secs
            };
            if target > duration {
                r matches Err(e) && e == PlayerError::ExceedsDuration
            } else {
                r matches Ok(p) && p == target
            }
        }),
{
    let wide: i128 = time_pos as i128 + secs as i128;
    let target: i128 = if wide < 0 {
        0
    } else {
        wide
    };
    if target > duration as i128 {
        Err(PlayerError::ExceedsDuration)
    } else {
        Ok(target as u64)
    }
}

/// The playback progress as a whole percentage, capped at one hundred; a
/// zero duration has no defined progress.
pub fn progress_percent(time_pos: i64, duration: i64) -> (r: Result<i64, PlayerError>)
    requires
        time_pos >= 0,
        duration >= 0,
        time_pos * 100 <= i64::MAX,
    ensures
        duration == 0 ==> (r matches Err(e) && e == PlayerError::DivideError),
        duration > 0 ==> (r matches Ok(p) && p as int == (if (time_pos as int) * 100 / (
        duration as int) > 100 {
            100int
        } else {
            (time_pos as int) * 100 / (duration as int)
        })),
{
    if duration == 0 {
        return Err(PlayerError::DivideError);
    }
    let mut percent: i64 = (time_pos * 100) / duration;
    if percent > 100 {
        percent = 100;
    }
    Ok(percent)
}

} // verus!
