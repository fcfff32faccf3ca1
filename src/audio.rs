use vstd::prelude::*;

verus! {

// Arithmetic on what a container probe reports: durations and the cut-off
// of a prefix extraction, in whole units.

/// Ticks per second of a container-level duration.
pub const CONTAINER_TICKS_PER_SECOND: i64 = 1_000_000;

/// What probing an audio stream reported: its duration in ticks of its time base `num / den` seconds.
#[derive(PartialEq, Eq, Structural, Clone, Copy, Debug)]
pub struct StreamTiming {
    pub duration: i64,
    pub time_base_num: i32,
    pub time_base_den: i32,
}

/// Milliseconds in `ticks` of a time base of `num / den` seconds, rounded down.
pub open spec fn stream_millis(ticks: int, num: int, den: int) -> int {
    (ticks * num * 1000) / den
}

/// The duration a probe yields: the container's own when positive, else the
/// best audio stream's when positive (and its time base is), else unknown.
pub open spec fn probed_duration_ms(container_duration: i64, stream: Option<StreamTiming>) -> Option<u64> {
    if container_duration > 0 {
        Some((container_duration / 1000) as u64)
    } else {
        match stream {
            Some(t) => if t.duration > 0 && t.time_base_num > 0 && t.time_base_den > 0 && stream_millis(
                t.duration as int,
                t.time_base_num as int,
                t.time_base_den as int,
            ) <= u64::MAX {
                Some(stream_millis(t.duration as int, t.time_base_num as int, t.time_base_den as int) as u64)
            } else {
                None
            },
            None => None,
        }
    }
}

/// The duration, in milliseconds, of audio whose container reports
/// `container_duration` (in microseconds) and whose best audio stream, if
/// any, reports `stream`.
pub fn duration_ms_from_probe(container_duration: i64, stream: Option<StreamTiming>) -> (r: Option<u64>)
    ensures
        r == probed_duration_ms(container_duration, stream),
{
    if container_duration > 0 {
        return Some((container_duration / 1000) as u64);
    }
    match stream {
        Some(t) => {
            if t.duration > 0 && t.time_base_num > 0 && t.time_base_den > 0 {
                assert(t.duration as int * t.time_base_num as int <= 0x8000_0000_0000_0000 * 0x8000_0000) by (nonlinear_arith)
                    requires
                        0 < t.duration <= i64::MAX,
                        0 < t.time_base_num <= i32::MAX,
                ;
                assert(t.duration as int * t.time_base_num as int >= 0) by (nonlinear_arith)
                    requires
                        0 < t.duration,
                        0 < t.time_base_num,
                ;
                let num: i128 = t.duration as i128 * t.time_base_num as i128 * 1000;
                let ms: i128 = num / t.time_base_den as i128;
                if ms <= u64::MAX as i128 {
                    Some(ms as u64)
                } else {
                    None
                }
            } else {
                None
            }
        },
        None => None,
    }
}

/// The presentation time, in ticks of a time base of `num / den` seconds,
/// at which a prefix of `seconds` seconds ends.
pub open spec fn prefix_limit(seconds: int, num: int, den: int) -> int {
    (seconds * den) / num
}

/// Where a prefix extraction of `duration_seconds` seconds stops, in ticks
/// of the stream's time base `num / den`: packets at or after it are left
/// out. `None` when the time base is not positive.
pub fn prefix_threshold(duration_seconds: u32, time_base_num: i32, time_base_den: i32) -> (r: Option<i64>)
    ensures
        time_base_num > 0 && time_base_den > 0 ==> r is Some && r.unwrap() as int == prefix_limit(
            duration_seconds as int,
            time_base_num as int,
            time_base_den as int,
        ),
        !(time_base_num > 0 && time_base_den > 0) ==> r is None,
{
    if time_base_num <= 0 || time_base_den <= 0 {
        return None;
    }
    assert(0 <= duration_seconds as int * time_base_den as int <= 0xFFFF_FFFF * 0x7FFF_FFFF) by (nonlinear_arith)
        requires
            0 <= duration_seconds <= u32::MAX,
            0 < time_base_den <= i32::MAX,
    ;
    let prod: i64 = duration_seconds as i64 * time_base_den as i64;
    Some(prod / time_base_num as i64)
}

/// Whether a packet with presentation time `pts` belongs to the prefix; a
/// packet without one is kept.
pub fn in_prefix(pts: Option<i64>, threshold: i64) -> (r: bool)
    ensures
        r == match pts {
            Some(p) => p < threshold,
            None => true,
        },
{
    match pts {
        Some(p) => p < threshold,
        None => true,
    }
}

} // verus!
