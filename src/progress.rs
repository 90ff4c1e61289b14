//! Progress counters shared between the writer and its observers.
use std::time::{Duration, Instant};
use vstd::prelude::*;

verus! {

/// std's monotonic clock reading, carried as an opaque value.
#[verifier::external_type_specification]
#[verifier::external_body]
pub struct ExInstant(Instant);

/// Relies on Instant::now: the current point of the monotonic clock; nothing
/// is known of its value.
pub assume_specification[ Instant::now ]() -> Instant;

/// Relies on Instant::elapsed: the time since the instant; nothing is known of
/// its value.
pub assume_specification[ Instant::elapsed ](i: &Instant) -> Duration;

/// Bytes written so far against the total expected, and when writing began.
pub struct Progress {
    pub bytes_written: u64,
    pub total_bytes: u64,
    pub start_time: Instant,
}

/// The completion fraction as a numerator and a denominator: the written
/// bytes clamped to the total, over the total; 0 when the total is 0.
pub open spec fn fraction_of(bytes_written: u64, total_bytes: u64) -> (u64, u64) {
    if total_bytes == 0 {
        (0, 1)
    } else if bytes_written > total_bytes {
        (total_bytes, total_bytes)
    } else {
        (bytes_written, total_bytes)
    }
}

impl Progress {
    /// Fresh counters: nothing written yet, the clock starting now.
    pub fn new(total_bytes: u64) -> (r: Progress)
        ensures
            r.bytes_written == 0,
            r.total_bytes == total_bytes,
    {
        Progress { bytes_written: 0, total_bytes, start_time: Instant::now() }
    }

    /// Time elapsed since the counters were created.
    pub fn get_elapsed_time(&self) -> Duration {
        self.start_time.elapsed()
    }

    /// Counts `n` more bytes as written.
    pub fn record_written(&mut self, n: u64)
        requires
            old(self).bytes_written + n <= u64::MAX,
        ensures
            final(self).bytes_written == old(self).bytes_written + n,
            final(self).total_bytes == old(self).total_bytes,
    {
        self.bytes_written = self.bytes_written + n;
    }

    /// Replaces the expected total.
    pub fn set_total(&mut self, n: u64)
        ensures
            final(self).bytes_written == old(self).bytes_written,
            final(self).total_bytes == n,
    {
        self.total_bytes = n;
    }

    /// The completion fraction, clamped to [0, 1], as (numerator, denominator).
    pub fn completion_parts(&self) -> (r: (u64, u64))
        ensures
            r == fraction_of(self.bytes_written, self.total_bytes),
            r.0 <= r.1,
            r.1 > 0,
    {
        if self.total_bytes == 0 {
            (0, 1)
        } else if self.bytes_written > self.total_bytes {
            (self.total_bytes, self.total_bytes)
        } else {
            (self.bytes_written, self.total_bytes)
        }
    }
}

} // verus!
