use vstd::prelude::*;
use vstd::arithmetic::div_mod::{lemma_div_is_ordered, lemma_fundamental_div_mod};

verus! {

// Processing-time estimates for transcription.
//
// The rate is fixed: 35 seconds of processing for every 600 seconds of
// audio, rounded up, and never less than one second. When the duration of
// a recording is unknown it is derived from the file size, assuming one
// minute of audio per MiB.

/// Throughput assumed when no transcription has been timed yet, in bytes per second.
pub const DEFAULT_BYTES_PER_SECOND: u64 = 34_000;

/// `x / p` rounded up.
pub open spec fn ceil_div(x: int, p: int) -> int {
    (x + p - 1) / p
}

/// Processing seconds for audio that lasts `ms` milliseconds, before the floor of one second.
pub open spec fn seconds_for_duration(ms: int) -> int {
    ceil_div(ms * 35, 600_000)
}

/// Processing seconds for a file of `bytes` bytes whose duration is unknown
/// (one minute of audio per MiB), before the floor of one second.
pub open spec fn seconds_for_size(bytes: int) -> int {
    ceil_div(bytes * 35, 10_485_760)
}

/// The estimate in seconds, at least one.
pub open spec fn processing_seconds_spec(size: int, duration_ms: Option<u64>) -> int {
    let raw = match duration_ms {
        Some(ms) => seconds_for_duration(ms as int),
        None => seconds_for_size(size),
    };
    if raw < 1 {
        1
    } else {
        raw
    }
}

/// `x` held to at most `hi`.
pub open spec fn clamp_to(x: int, hi: int) -> int {
    if x > hi {
        hi
    } else {
        x
    }
}

/// The stored estimate, as `estimate_transcription_time` computes it.
pub open spec fn estimate_of(size: u64, duration_ms: Option<u64>) -> int {
    clamp_to(processing_seconds_spec(size as int, duration_ms), i32::MAX as int)
}

/// Estimated processing seconds for a recording, with no upper limit.
pub fn processing_seconds(file_size_bytes: u64, audio_duration_ms: Option<u64>) -> (r: u64)
    ensures
        r as int == processing_seconds_spec(file_size_bytes as int, audio_duration_ms),
        r >= 1,
{
    let raw: u128 = match audio_duration_ms {
        Some(ms) => (ms as u128 * 35 + 599_999) / 600_000,
        None => (file_size_bytes as u128 * 35 + 10_485_759) / 10_485_760,
    };
    assert(raw <= u64::MAX);
    if raw < 1 {
        1
    } else {
        raw as u64
    }
}

/// Estimated seconds to transcribe a recording, as stored with each slice.
pub fn estimate_transcription_time(file_size_bytes: u64, audio_duration_ms: Option<u64>) -> (r: i32)
    ensures
        r as int == estimate_of(file_size_bytes, audio_duration_ms),
        r >= 1,
{
    let s = processing_seconds(file_size_bytes, audio_duration_ms);
    if s > i32::MAX as u64 {
        i32::MAX
    } else {
        s as i32
    }
}

proof fn lemma_ceil_div_covers(x: int, p: int)
    requires
        x >= 0,
        p > 0,
    ensures
        x <= ceil_div(x, p) * p,
        ceil_div(x, p) >= 0,
{
    lemma_fundamental_div_mod(x + p - 1, p);
    let q = (x + p - 1) / p;
    let r = (x + p - 1) % p;
    assert(x + p - 1 == p * q + r);
    assert(q * p == p * q) by (nonlinear_arith);
    lemma_div_is_ordered(0, x + p - 1, p);
}

pub proof fn lemma_ceil_div_least(x: int, p: int, c: int)
    requires
        x >= 0,
        p > 0,
        c >= 0,
        x <= c * p,
    ensures
        ceil_div(x, p) <= c,
{
    lemma_div_is_ordered(x + p - 1, c * p + (p - 1), p);
    lemma_fundamental_div_mod(c * p + (p - 1), p);
    let q = (c * p + (p - 1)) / p;
    let r = (c * p + (p - 1)) % p;
    assert(q == c) by (nonlinear_arith)
        requires
            c * p + (p - 1) == p * q + r,
            0 <= r < p,
            p > 0,
    {
    }
}

/// `a / p` and `b / q` rounded up keep the order of the exact quotients.
proof fn lemma_ceil_div_order(a: int, p: int, b: int, q: int)
    requires
        a >= 0,
        b >= 0,
        p > 0,
        q > 0,
        a * q <= b * p,
    ensures
        ceil_div(a, p) <= ceil_div(b, q),
{
    lemma_ceil_div_covers(b, q);
    let c = ceil_div(b, q);
    assert(a <= c * p) by (nonlinear_arith)
        requires
            a * q <= b * p,
            b <= c * q,
            p > 0,
            q > 0,
    {
    }
    lemma_ceil_div_least(a, p, c);
}

/// A longer recording never gets a smaller estimate than a shorter one, for
/// any file size; likewise a larger file of unknown duration. A duration
/// known to be at most (at least) what the size-based rule assumes for a file
/// (60000 ms per 1048576 bytes) gets an estimate at most (at least) the
/// size-based one, so the two agree exactly where the durations are equivalent.
pub proof fn lemma_estimate_monotone(size: u64, other_size: u64, d1: u64, d2: u64)
    ensures
        d1 <= d2 ==> estimate_of(size, Some(d1)) <= estimate_of(size, Some(d2)),
        size <= other_size ==> estimate_of(size, None) <= estimate_of(other_size, None),
        d1 as int * 1_048_576 <= size as int * 60_000 ==> estimate_of(other_size, Some(d1))
            <= estimate_of(size, None),
        d1 as int * 1_048_576 >= size as int * 60_000 ==> estimate_of(other_size, Some(d1))
            >= estimate_of(size, None),
        d1 as int * 1_048_576 == size as int * 60_000 ==> estimate_of(other_size, Some(d1))
            == estimate_of(size, None),
{
    if d1 <= d2 {
        lemma_ceil_div_order(d1 * 35, 600_000, d2 * 35, 600_000);
    }
    if size <= other_size {
        lemma_ceil_div_order(size * 35, 10_485_760, other_size * 35, 10_485_760);
    }
    if d1 as int * 1_048_576 <= size as int * 60_000 {
        assert((d1 * 35) * 10_485_760 <= (size * 35) * 600_000) by (nonlinear_arith)
            requires
                d1 as int * 1_048_576 <= size as int * 60_000,
        {
        }
        lemma_ceil_div_order(d1 * 35, 600_000, size * 35, 10_485_760);
    }
    if d1 as int * 1_048_576 >= size as int * 60_000 {
        assert((size * 35) * 600_000 <= (d1 * 35) * 10_485_760) by (nonlinear_arith)
            requires
                d1 as int * 1_048_576 >= size as int * 60_000,
        {
        }
        lemma_ceil_div_order(size * 35, 10_485_760, d1 * 35, 600_000);
    }
}

} // verus!
