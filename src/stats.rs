//! Throughput sampling from cumulative byte counters.
use vstd::prelude::*;

verus! {

/// Exact rate in kbps between two samples: bytes are turned into bits and
/// divided by the elapsed milliseconds. A span of zero (or a clock that went
/// backwards) gives zero, and so does a counter that went backwards.
pub open spec fn rate_kbps(prev_bytes: u64, prev_ts: u64, cur_bytes: u64, cur_ts: u64) -> nat {
    if cur_ts <= prev_ts || cur_bytes <= prev_bytes {
        0
    } else {
        (((cur_bytes - prev_bytes) * 8) / ((cur_ts - prev_ts) as int)) as nat
    }
}

/// The sampled rate as reported: the exact rate, capped at `u64::MAX`.
pub open spec fn reported_kbps(prev_bytes: u64, prev_ts: u64, cur_bytes: u64, cur_ts: u64) -> u64 {
    let r = rate_kbps(prev_bytes, prev_ts, cur_bytes, cur_ts);
    if r > u64::MAX as nat {
        u64::MAX
    } else {
        r as u64
    }
}

/// Rate in kbps between the sample `(prev_bytes, prev_ts)` and the sample
/// `(cur_bytes, cur_ts)`, timestamps in milliseconds.
pub fn sample(prev_bytes: u64, prev_ts: u64, cur_bytes: u64, cur_ts: u64) -> (r: u64)
    ensures
        r == reported_kbps(prev_bytes, prev_ts, cur_bytes, cur_ts),
        cur_ts == prev_ts ==> r == 0,
{
    if cur_ts <= prev_ts || cur_bytes <= prev_bytes {
        return 0;
    }
    let bits: u128 = (cur_bytes - prev_bytes) as u128 * 8;
    let elapsed: u128 = (cur_ts - prev_ts) as u128;
    let rate: u128 = bits / elapsed;
    if rate > u64::MAX as u128 {
        u64::MAX
    } else {
        rate as u64
    }
}

/// Loss fraction in parts per million, the unit that `Stats` carries.
pub const LOSS_SCALE: u32 = 1_000_000;

/// One statistics snapshot of a live session.
#[derive(Clone, Copy, Debug, PartialEq, Eq, Structural)]
pub struct Stats {
    pub send_kbps: u64,
    pub recv_kbps: u64,
    pub live_ms: u32,
    pub rtt_ms: u32,
    /// Fraction of packets lost, in parts per million (at most `LOSS_SCALE`).
    pub lost: u32,
}

} // verus!
