//! Clock-skew arithmetic and latency bookkeeping.
//!
//! Every outgoing packet is stamped with the local clock corrected by a
//! skew measured once at startup against a reference time source; on
//! receipt, the difference between the receiver's corrected clock and the
//! packet's stamp is a one-way latency sample. Samples are kept per peer
//! in a bounded FIFO, most recent first, and summarized by a weighted
//! average that favours recent samples.
use std::collections::VecDeque;
use vstd::prelude::*;

verus! {

/// Capacity of the per-peer latency FIFO.
pub const MAX_QUEUE_LATENCY: usize = 10;

/// Milliseconds since the Unix epoch by the local (uncorrected) clock.
///
/// Relies on `std::time::SystemTime::now` followed by
/// `duration_since(UNIX_EPOCH)`: the wall clock as an offset from the
/// epoch, truncated to milliseconds; reads 0 if the clock is set earlier
/// than the epoch. The result depends on the machine's clock, so nothing
/// is promised of it.
#[verifier::external_body]
fn system_now_millis() -> u64 {
    match std::time::SystemTime::now().duration_since(std::time::UNIX_EPOCH) {
        Ok(d) => d.as_millis() as u64,
        Err(_) => 0,
    }
}

/// The local clock reading corrected by a measured skew, wrapping on
/// overflow as the unchecked cast-and-add it replaces did.
pub fn apply_skew(now_millis: u64, skew_millis: i64) -> (r: u64)
    ensures
        r == vstd::wrapping::u64_specs::wrapping_add_signed(now_millis, skew_millis),
{
    now_millis.wrapping_add_signed(skew_millis)
}

/// Corrected current time in milliseconds: the local clock plus the
/// process-wide skew measured at startup (`time_delta`, 0 when clock
/// correction was disabled). The clock reading itself is outside the
/// crate, so no value is promised; the correction applied to it is
/// `apply_skew`.
pub fn get_timestamp(time_delta: i64) -> u64 {
    apply_skew(system_now_millis(), time_delta)
}

/// One-way latency of a packet: receiver's corrected clock minus the
/// sender's stamp, wrapping when the remote clock runs ahead.
pub fn latency_sample(now_millis: u64, sent_millis: u64) -> (r: u64)
    ensures
        r == vstd::wrapping::u64_specs::wrapping_sub(now_millis, sent_millis),
{
    now_millis.wrapping_sub(sent_millis)
}

/// Skew between a reference time source and the local clock, both given
/// as milliseconds since the epoch.
pub fn compute_skew(reference_millis: i64, local_millis: i64) -> (r: i64)
    requires
        i64::MIN <= reference_millis - local_millis <= i64::MAX,
    ensures
        r == reference_millis - local_millis,
{
    reference_millis - local_millis
}

/// Weighted sum of the samples from position `i` on: each sample counts
/// with weight `MAX_QUEUE_LATENCY / (position + 1)`, so the front (most
/// recent) samples weigh the most.
pub open spec fn weighted_sum_from(s: Seq<u64>, i: int) -> int
    decreases s.len() - i,
{
    if i < 0 || i >= s.len() {
        0
    } else {
        s[i] * ((MAX_QUEUE_LATENCY as int) / (i + 1)) + weighted_sum_from(s, i + 1)
    }
}

/// Weighted sum of a whole latency FIFO, front first.
pub open spec fn weighted_sum(s: Seq<u64>) -> int {
    weighted_sum_from(s, 0)
}

proof fn lemma_weighted_sum_from_bounds(s: Seq<u64>, i: int, bound: int)
    requires
        0 <= i <= s.len(),
        0 <= bound,
        forall|j: int| 0 <= j < s.len() ==> s[j] <= bound,
    ensures
        0 <= weighted_sum_from(s, i) <= (s.len() - i) * (MAX_QUEUE_LATENCY as int) * bound,
    decreases s.len() - i,
{
    if i < s.len() {
        lemma_weighted_sum_from_bounds(s, i + 1, bound);
        assert(0 <= (MAX_QUEUE_LATENCY as int) / (i + 1) <= 10);
        vstd::arithmetic::mul::lemma_mul_upper_bound(
            s[i] as int,
            bound,
            (MAX_QUEUE_LATENCY as int) / (i + 1),
            10,
        );
        assert((s.len() - i) * (MAX_QUEUE_LATENCY as int) * bound == (s.len() - (i + 1)) * (
        MAX_QUEUE_LATENCY as int) * bound + 10 * bound) by (nonlinear_arith);
    }
}

/// Average latency of a peer's FIFO, weighted toward recent samples:
/// the weighted sum divided by the number of samples. The FIFO is
/// bounded by `MAX_QUEUE_LATENCY` and must not be empty (the average of
/// nothing is undefined); samples must fit in 32 bits so that the sum
/// fits the machine word.
pub fn get_weighted_latency(latency: &VecDeque<u64>) -> (r: u64)
    requires
        1 <= latency@.len() <= MAX_QUEUE_LATENCY,
        forall|j: int| 0 <= j < latency@.len() ==> latency@[j] <= 0xFFFF_FFFFu64,
    ensures
        r == weighted_sum(latency@) / (latency@.len() as int),
{
    let len: usize = latency.len();
    let mut acc: u64 = 0;
    let mut i: usize = len;
    proof {
        lemma_weighted_sum_from_bounds(latency@, 0, 0xFFFF_FFFF);
    }
    while i > 0
        invariant
            0 <= i <= len,
            len == latency@.len(),
            1 <= len <= MAX_QUEUE_LATENCY,
            forall|j: int| 0 <= j < latency@.len() ==> latency@[j] <= 0xFFFF_FFFFu64,
            acc == weighted_sum_from(latency@, i as int),
            acc <= (len - i) * 10 * 0xFFFF_FFFFu64,
        decreases i,
    {
        i = i - 1;
        let sample: u64 = latency[i];
        let weight: u64 = (MAX_QUEUE_LATENCY as u64) / ((i as u64) + 1);
        assert(sample * weight <= 10 * 0xFFFF_FFFFu64) by {
            vstd::arithmetic::mul::lemma_mul_upper_bound(
                sample as int,
                0xFFFF_FFFF,
                weight as int,
                10,
            );
        }
        assert((len - i) * 10 * 0xFFFF_FFFFu64 == (len - (i + 1)) * 10 * 0xFFFF_FFFFu64 + 10
            * 0xFFFF_FFFFu64) by (nonlinear_arith);
        acc = acc + sample * weight;
    }
    acc / (len as u64)
}

} // verus!
