//! Frame timer: reports the time elapsed since the previous tick and
//! since construction, in nanoseconds, never negative.

use vstd::prelude::*;
use std::time::Instant;

verus! {

/// std::time::Instant, declared so that the moment of construction can
/// be stored; the timer only ever reads elapsed nanoseconds out of it
/// through `nanos_between`.
#[verifier::external_type_specification]
#[verifier::external_body]
pub struct ExInstant(Instant);

/// Relies on std::time::Instant::now: an opaque reading of the
/// monotonic clock. Nothing relates two readings, so nothing is
/// promised of the result.
#[verifier::external_body]
fn instant_now() -> Instant {
    Instant::now()
}

/// Relies on std::time::Instant::saturating_duration_since: the span
/// from `earlier` to `later` in nanoseconds, zero when `later` is the
/// earlier of the two. The instants are opaque, so nothing is promised
/// of the result.
#[verifier::external_body]
fn nanos_between(earlier: &Instant, later: &Instant) -> u64 {
    let span = later.saturating_duration_since(*earlier);
    u64::try_from(span.as_nanos()).unwrap_or(u64::MAX)
}

/// The delta a tick reports when the reference was `last` and the
/// clock reads `now`: the difference, clamped to zero should the clock
/// reading not have advanced.
pub open spec fn spec_delta(last: u64, now: u64) -> u64 {
    if now >= last {
        (now - last) as u64
    } else {
        0
    }
}

/// Tracks the instant of construction and the nanosecond reading of
/// the most recent tick, measured from that instant.
pub struct TimeManager {
    epoch: Instant,
    last_nanos: u64,
}

impl TimeManager {
    /// The clock reading (nanoseconds since construction) that the
    /// most recent tick advanced to; zero before the first tick.
    pub closed spec fn last(self) -> u64 {
        self.last_nanos
    }

    /// The instant of construction, against which every reading is
    /// taken. Opaque: all that can be said of it is whether an
    /// operation kept it.
    pub closed spec fn epoch(self) -> Instant {
        self.epoch
    }

    pub fn new() -> (t: TimeManager)
        ensures
            t.last() == 0,
    {
        TimeManager { epoch: instant_now(), last_nanos: 0 }
    }

    /// Core of `tick`, on a clock reading handed in: reports the time
    /// elapsed since the previous tick and advances the reference,
    /// which never moves backwards. The instant of construction stays
    /// untouched, so ticking has no effect on what elapsed-since-start
    /// reads.
    pub fn tick_at(&mut self, now: u64) -> (delta: u64)
        ensures
            delta == spec_delta(old(self).last(), now),
            final(self).last() == if now >= old(self).last() { now } else { old(self).last() },
            final(self).last() >= old(self).last(),
            final(self).epoch() == old(self).epoch(),
    {
        if now >= self.last_nanos {
            let delta = now - self.last_nanos;
            self.last_nanos = now;
            delta
        } else {
            0
        }
    }

    /// Nanoseconds elapsed since the previous call (or since
    /// construction, for the first call). The reading comes from the
    /// monotonic clock; whatever it returns, the reference never moves
    /// backwards and the reported delta is exactly its advance.
    pub fn tick(&mut self) -> (delta: u64)
        ensures
            final(self).last() >= old(self).last(),
            delta == final(self).last() - old(self).last(),
            final(self).epoch() == old(self).epoch(),
    {
        let now_instant = instant_now();
        let now = nanos_between(&self.epoch, &now_instant);
        self.tick_at(now)
    }

    /// Nanoseconds elapsed since construction, by the monotonic clock,
    /// independent of tick history.
    pub fn time_since_start(&self) -> u64 {
        let now_instant = instant_now();
        nanos_between(&self.epoch, &now_instant)
    }
}

/// A tick's report is never negative, and is exactly the advance of
/// the stored reference, which never moves backwards.
pub proof fn lemma_delta_is_advance(last: u64, now: u64)
    ensures
        spec_delta(last, now) >= 0,
        last + spec_delta(last, now) == if now >= last {
            now as int
        } else {
            last as int
        },
{
}

/// Ticks observed at non-decreasing clock readings account for the
/// whole span: the deltas of two successive ticks sum to the delta a
/// single tick over the same span would have reported.
pub proof fn lemma_deltas_compose(last: u64, mid: u64, now: u64)
    requires
        last <= mid,
        mid <= now,
    ensures
        spec_delta(last, mid) + spec_delta(mid, now) == spec_delta(last, now),
{
}

/// Elapsed time reported against a fixed start is monotonically
/// non-decreasing in the clock reading.
pub proof fn lemma_elapsed_monotonic(start: u64, early: u64, late: u64)
    requires
        early <= late,
    ensures
        spec_delta(start, early) <= spec_delta(start, late),
{
}

} // verus!
