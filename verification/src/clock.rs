//! The synchronized musical clock: a tempo, a quantum, a transport flag, and
//! an anchored linear mapping between wall-clock microseconds and beat
//! positions held in microbeats.
//!
//! Tempo is held as microseconds per beat so that every conversion is exact
//! integer arithmetic over the captured snapshot. `capture_app_state`
//! refreshes the snapshot once per scheduler tick; all other queries read it,
//! so one scheduler iteration sees a coherent `(tempo, beat-origin)` pair.

use vstd::prelude::*;
use crate::{SyncTime, MICROBEATS_PER_BEAT};

verus! {

/// Slowest representable tempo: one beat per minute.
pub const MAX_MICROS_PER_BEAT: u64 = 60_000_000;

/// Fastest allowed tempo, one thousand beats per minute, as the spec range
/// for tempo is bounded above by one thousand.
pub const MIN_MICROS_PER_BEAT: u64 = 60_000;

/// Default tempo: 120 beats per minute.
pub const DEFAULT_MICROS_PER_BEAT: u64 = 500_000;

/// Default quantum: four beats per bar.
pub const DEFAULT_QUANTUM: u64 = 4_000_000;

/// A peer-session snapshot: the values a peer-synchronization session hands
/// back when it is captured once per scheduler tick.
pub struct PeerState {
    /// Tempo of the peer session, in microseconds per beat.
    pub micros_per_beat: u64,
    /// A beat position of the peer timeline, in microbeats.
    pub anchor_beat: u64,
    /// The wall-clock date at which `anchor_beat` was current.
    pub anchor_date: SyncTime,
    /// Whether the peer transport is running.
    pub is_playing: bool,
}

impl PeerState {
    /// A snapshot is usable when its tempo lies in the representable range.
    pub open spec fn wf(self) -> bool {
        MIN_MICROS_PER_BEAT <= self.micros_per_beat <= MAX_MICROS_PER_BEAT
    }
}

/// The clock state: an anchored linear beat timeline.
pub struct Clock {
    /// Wall-clock date at which `origin_beat` was current.
    pub origin_date: SyncTime,
    /// Beat position, in microbeats, current at `origin_date`.
    pub origin_beat: u64,
    /// Tempo, as microseconds per beat.
    pub micros_per_beat: u64,
    /// Beats per bar, in microbeats.
    pub quantum: u64,
    /// Local transport flag.
    pub is_playing: bool,
    /// Whether peer play/pause commands propagate.
    pub sync_enabled: bool,
    /// The instant captured at the last `capture_app_state`; all scheduling
    /// queries of one tick read this value.
    pub now: SyncTime,
}

impl Clock {
    /// Well-formedness: tempo within range, a positive quantum, and the
    /// captured instant not before the beat origin.
    pub open spec fn wf(self) -> bool {
        &&& MIN_MICROS_PER_BEAT <= self.micros_per_beat <= MAX_MICROS_PER_BEAT
        &&& 0 < self.quantum
        &&& self.origin_date <= self.now
    }

    /// The beat position, in microbeats, at wall-clock date `t`: dates before
    /// the origin read as the origin beat, later dates advance the beat
    /// linearly at the tempo (rounding down to a whole microbeat).
    pub open spec fn spec_beat_at_date(self, t: SyncTime) -> int {
        if t <= self.origin_date {
            self.origin_beat as int
        } else {
            self.origin_beat + (t - self.origin_date) * MICROBEATS_PER_BEAT / (self.micros_per_beat as int)
        }
    }

    /// The first wall-clock date at which the beat position `b` (microbeats)
    /// has been reached: beats at or before the origin read as the origin
    /// date, later beats map linearly (rounding up to a whole microsecond).
    pub open spec fn spec_date_at_beat(self, b: u64) -> int {
        if b <= self.origin_beat {
            self.origin_date as int
        } else {
            self.origin_date
                + ((b - self.origin_beat) * (self.micros_per_beat as int) + (MICROBEATS_PER_BEAT - 1))
                    / (MICROBEATS_PER_BEAT as int)
        }
    }

    /// A fresh clock anchored at date `now`, beat zero, default tempo and
    /// quantum, stopped, with peer sync off.
    pub fn new(now: SyncTime) -> (c: Clock)
        ensures
            c.wf(),
            c.origin_date == now,
            c.origin_beat == 0,
            c.micros_per_beat == DEFAULT_MICROS_PER_BEAT,
            c.quantum == DEFAULT_QUANTUM,
            !c.is_playing,
            !c.sync_enabled,
            c.now == now,
    {
        Clock {
            origin_date: now,
            origin_beat: 0,
            micros_per_beat: DEFAULT_MICROS_PER_BEAT,
            quantum: DEFAULT_QUANTUM,
            is_playing: false,
            sync_enabled: false,
            now,
        }
    }

    /// The captured instant of the current tick.
    pub fn micros(&self) -> (r: SyncTime)
        ensures
            r == self.now,
    {
        self.now
    }

    /// Current tempo in microseconds per beat.
    pub fn tempo(&self) -> (r: u64)
        ensures
            r == self.micros_per_beat,
    {
        self.micros_per_beat
    }

    /// Set the tempo, re-anchoring the timeline at the captured instant so
    /// that the beat position is continuous across the change (saturated at
    /// the largest representable beat). Out-of-range tempos are rejected and
    /// the clock is unchanged.
    pub fn set_tempo(&mut self, micros_per_beat: u64) -> (ok: bool)
        requires
            old(self).wf(),
        ensures
            final(self).wf(),
            ok == (MIN_MICROS_PER_BEAT <= micros_per_beat <= MAX_MICROS_PER_BEAT),
            ok ==> final(self).micros_per_beat == micros_per_beat
                && final(self).origin_date == old(self).now
                && final(self).origin_beat == (if old(self).spec_beat_at_date(old(self).now)
                        <= u64::MAX {
                    old(self).spec_beat_at_date(old(self).now)
                } else {
                    u64::MAX as int
                })
                && final(self).quantum == old(self).quantum
                && final(self).is_playing == old(self).is_playing
                && final(self).sync_enabled == old(self).sync_enabled
                && final(self).now == old(self).now,
            !ok ==> *final(self) == *old(self),
    {
        if micros_per_beat < MIN_MICROS_PER_BEAT || micros_per_beat > MAX_MICROS_PER_BEAT {
            return false;
        }
        let b = self.beat_at_date_saturated(self.now);
        self.origin_date = self.now;
        self.origin_beat = b;
        self.micros_per_beat = micros_per_beat;
        true
    }

    /// The beat position at a date, saturated at the largest representable
    /// beat.
    pub fn beat_at_date_saturated(&self, t: SyncTime) -> (r: u64)
        requires
            self.wf(),
        ensures
            r == (if self.spec_beat_at_date(t) <= u64::MAX {
                self.spec_beat_at_date(t)
            } else {
                u64::MAX as int
            }),
    {
        if t <= self.origin_date {
            self.origin_beat
        } else {
            let delta = (t - self.origin_date) as u128;
            let mb = delta * (MICROBEATS_PER_BEAT as u128) / (self.micros_per_beat as u128);
            let total = (self.origin_beat as u128) + mb;
            proof {
                assert(mb == (t - self.origin_date) * MICROBEATS_PER_BEAT
                    / (self.micros_per_beat as int));
            }
            if total > u64::MAX as u128 {
                u64::MAX
            } else {
                total as u64
            }
        }
    }

    /// Current quantum in microbeats.
    pub fn quantum(&self) -> (r: u64)
        ensures
            r == self.quantum,
    {
        self.quantum
    }

    /// Set the quantum; zero is rejected and the clock is unchanged.
    pub fn set_quantum(&mut self, quantum: u64) -> (ok: bool)
        requires
            old(self).wf(),
        ensures
            final(self).wf(),
            ok == (quantum > 0),
            ok ==> *final(self) == (Clock { quantum, ..*old(self) }),
            !ok ==> *final(self) == *old(self),
    {
        if quantum == 0 {
            return false;
        }
        self.quantum = quantum;
        true
    }

    /// Toggle the local transport.
    pub fn play_pause(&mut self)
        ensures
            *final(self) == (Clock { is_playing: !old(self).is_playing, ..*old(self) }),
    {
        self.is_playing = !self.is_playing;
    }

    /// Re-anchor beat zero at the captured instant.
    pub fn reset_beat(&mut self)
        requires
            old(self).wf(),
        ensures
            final(self).wf(),
            *final(self) == (Clock {
                origin_date: old(self).now,
                origin_beat: 0,
                ..*old(self)
            }),
    {
        self.origin_date = self.now;
        self.origin_beat = 0;
    }

    /// Toggle whether peer play/pause commands propagate.
    pub fn set_start_stop_sync(&mut self, enabled: bool)
        ensures
            *final(self) == (Clock { sync_enabled: !!enabled, ..*old(self) }),
    {
        self.sync_enabled = enabled;
    }

    /// Refresh the snapshot for one scheduler tick: adopt the captured
    /// instant, and, when peer sync is enabled and a peer snapshot arrived,
    /// adopt the peer timeline (tempo, beat anchor, and, when start/stop sync
    /// propagates, the transport flag).
    pub fn capture_app_state(&mut self, now: SyncTime, peer: Option<PeerState>)
        requires
            old(self).wf(),
            old(self).origin_date <= now,
            (peer matches Some(p)) ==> (peer matches Some(p) && p.wf() && p.anchor_date <= now),
        ensures
            final(self).wf(),
            final(self).now == now,
            match peer {
                Some(p) => {
                    &&& final(self).micros_per_beat == p.micros_per_beat
                    &&& final(self).origin_beat == p.anchor_beat
                    &&& final(self).origin_date == p.anchor_date
                    &&& final(self).is_playing == (if old(self).sync_enabled {
                        p.is_playing
                    } else {
                        old(self).is_playing
                    })
                },
                None => *final(self) == (Clock { now, ..*old(self) }),
            },
            final(self).quantum == old(self).quantum,
            final(self).sync_enabled == old(self).sync_enabled,
    {
        self.now = now;
        if let Some(p) = peer {
            self.micros_per_beat = p.micros_per_beat;
            self.origin_beat = p.anchor_beat;
            self.origin_date = p.anchor_date;
            if self.sync_enabled {
                self.is_playing = p.is_playing;
            }
        }
    }

    /// The beat position, in microbeats, at wall-clock date `t`.
    pub fn beat_at_date(&self, t: SyncTime) -> (r: u64)
        requires
            self.wf(),
            self.spec_beat_at_date(t) <= u64::MAX,
        ensures
            r == self.spec_beat_at_date(t),
    {
        if t <= self.origin_date {
            self.origin_beat
        } else {
            let delta = (t - self.origin_date) as u128;
            let mb = delta * (MICROBEATS_PER_BEAT as u128) / (self.micros_per_beat as u128);
            proof {
                assert(mb == (t - self.origin_date) * MICROBEATS_PER_BEAT / (self.micros_per_beat as int));
                assert(self.origin_beat + mb <= u64::MAX);
            }
            self.origin_beat + (mb as u64)
        }
    }

    /// The first wall-clock date at which beat position `b` (microbeats) has
    /// been reached.
    pub fn date_at_beat(&self, b: u64) -> (r: SyncTime)
        requires
            self.wf(),
            self.spec_date_at_beat(b) <= u64::MAX,
        ensures
            r == self.spec_date_at_beat(b),
    {
        if b <= self.origin_beat {
            self.origin_date
        } else {
            let delta = (b - self.origin_beat) as u128;
            let us = (delta * (self.micros_per_beat as u128) + ((MICROBEATS_PER_BEAT - 1) as u128))
                / (MICROBEATS_PER_BEAT as u128);
            proof {
                assert(us == ((b - self.origin_beat) * (self.micros_per_beat as int)
                    + (MICROBEATS_PER_BEAT - 1)) / (MICROBEATS_PER_BEAT as int));
                assert(self.origin_date + us <= u64::MAX);
            }
            self.origin_date + (us as u64)
        }
    }
}

/// Law: converting a date to a beat position and back returns the same date,
/// as long as the tempo is unchanged between the two conversions and one beat
/// lasts at least one microsecond per microbeat (tempo of at least sixty
/// beats per minute), so that distinct dates have distinct beat positions.
pub proof fn lemma_date_beat_roundtrip(c: Clock, t: SyncTime)
    requires
        c.wf(),
        c.micros_per_beat <= MICROBEATS_PER_BEAT,
        c.origin_date <= t,
        c.spec_beat_at_date(t) <= u64::MAX,
    ensures
        c.spec_date_at_beat(c.spec_beat_at_date(t) as u64) == t,
{
    let p = MICROBEATS_PER_BEAT as int;
    let q = c.micros_per_beat as int;
    let d = t - c.origin_date;
    if d == 0 {
        assert(c.spec_beat_at_date(t) == c.origin_beat);
    } else {
        let m = d * p / q;
        vstd::arithmetic::div_mod::lemma_fundamental_div_mod(d * p, q);
        let r = d * p % q;
        vstd::arithmetic::div_mod::lemma_mod_bound(d * p, q);
        assert(d * p == q * m + r);
        assert(0 <= r < q);
        // The quotient is at least one: d >= 1 and p >= q.
        assert(d * p >= p) by (nonlinear_arith)
            requires d >= 1, p > 0;
        assert(m >= 1) by (nonlinear_arith)
            requires d * p == q * m + r, 0 <= r < q, d * p >= p, p >= q, q > 0;
        let b = c.origin_beat + m;
        assert(c.spec_beat_at_date(t) == b);
        assert(b > c.origin_beat);
        // q * m lands in the half-open microsecond window of date t:
        // (d - 1) * p < q * m <= d * p.
        assert(q * m == d * p - r);
        assert(q * m > (d - 1) * p) by (nonlinear_arith)
            requires q * m == d * p - r, r < q, q <= p;
        // Hence the rounded-up division recovers d exactly.
        let x = q * m + (p - 1);
        assert(d * p <= x < d * p + p);
        assert(x == p * d + (x - d * p));
        vstd::arithmetic::div_mod::lemma_fundamental_div_mod_converse(x, p, d, x - d * p);
        assert(x / p == d);
        assert((b - c.origin_beat) * q == q * m) by (nonlinear_arith)
            requires b - c.origin_beat == m;
        assert(c.spec_date_at_beat(b as u64) == c.origin_date + x / p);
    }
}

/// The beat position never decreases as the date advances.
pub proof fn lemma_beat_at_date_monotone(c: Clock, t1: SyncTime, t2: SyncTime)
    requires
        c.wf(),
        t1 <= t2,
    ensures
        c.spec_beat_at_date(t1) <= c.spec_beat_at_date(t2),
{
    let q = c.micros_per_beat as int;
    if t1 <= c.origin_date {
        if t2 > c.origin_date {
            vstd::arithmetic::div_mod::lemma_div_is_ordered(
                0, (t2 - c.origin_date) * MICROBEATS_PER_BEAT, q);
            assert((t2 - c.origin_date) * MICROBEATS_PER_BEAT >= 0) by (nonlinear_arith)
                requires t2 - c.origin_date >= 0;
        }
    } else {
        assert((t1 - c.origin_date) * MICROBEATS_PER_BEAT
            <= (t2 - c.origin_date) * MICROBEATS_PER_BEAT) by (nonlinear_arith)
            requires 0 <= t1 - c.origin_date <= t2 - c.origin_date;
        vstd::arithmetic::div_mod::lemma_div_is_ordered(
            (t1 - c.origin_date) * MICROBEATS_PER_BEAT,
            (t2 - c.origin_date) * MICROBEATS_PER_BEAT,
            q);
    }
}

/// The date of a beat never decreases as the beat advances.
pub proof fn lemma_date_at_beat_monotone(c: Clock, b1: u64, b2: u64)
    requires
        c.wf(),
        b1 <= b2,
    ensures
        c.spec_date_at_beat(b1) <= c.spec_date_at_beat(b2),
{
    let q = c.micros_per_beat as int;
    let p = MICROBEATS_PER_BEAT as int;
    if b1 <= c.origin_beat {
        if b2 > c.origin_beat {
            assert((b2 - c.origin_beat) * q + (p - 1) >= 0) by (nonlinear_arith)
                requires b2 - c.origin_beat >= 0, q > 0, p >= 1;
            vstd::arithmetic::div_mod::lemma_div_is_ordered(
                0, (b2 - c.origin_beat) * q + (p - 1), p);
        }
    } else {
        assert((b1 - c.origin_beat) * q <= (b2 - c.origin_beat) * q) by (nonlinear_arith)
            requires 0 <= b1 - c.origin_beat <= b2 - c.origin_beat, q > 0;
        vstd::arithmetic::div_mod::lemma_div_is_ordered(
            (b1 - c.origin_beat) * q + (p - 1),
            (b2 - c.origin_beat) * q + (p - 1),
            p);
    }
}

/// The first date of the beat reached at `t` is at or before `t`.
pub proof fn lemma_date_at_of_beat_at_le(c: Clock, t: SyncTime)
    requires
        c.wf(),
        c.origin_date <= t,
        c.spec_beat_at_date(t) <= u64::MAX,
    ensures
        c.spec_date_at_beat(c.spec_beat_at_date(t) as u64) <= t,
{
    let p = MICROBEATS_PER_BEAT as int;
    let q = c.micros_per_beat as int;
    let d = t - c.origin_date;
    if d > 0 {
        let m = d * p / q;
        vstd::arithmetic::div_mod::lemma_fundamental_div_mod(d * p, q);
        vstd::arithmetic::div_mod::lemma_mod_bound(d * p, q);
        assert(d * p >= 0) by (nonlinear_arith)
            requires d >= 0, p > 0;
        assert(m >= 0) by (nonlinear_arith)
            requires q * m + d * p % q == d * p, 0 <= d * p % q < q, d * p >= 0, q > 0;
        if m > 0 {
            let b = c.origin_beat + m;
            assert(c.spec_beat_at_date(t) == b);
            // The rounded-up division of the beat's microseconds stays at or
            // below the date offset the beat was read from.
            assert(q * m <= d * p);
            let x = (b - c.origin_beat) * q + (p - 1);
            assert((b - c.origin_beat) * q == q * m) by (nonlinear_arith)
                requires b - c.origin_beat == m;
            assert(x <= d * p + p - 1);
            vstd::arithmetic::div_mod::lemma_div_is_ordered(x, d * p + (p - 1), p);
            assert(d * p + (p - 1) == p * d + (p - 1));
            vstd::arithmetic::div_mod::lemma_fundamental_div_mod_converse(
                p * d + (p - 1), p, d, p - 1);
            assert((d * p + (p - 1)) / p == d);
        }
    }
}

} // verus!
