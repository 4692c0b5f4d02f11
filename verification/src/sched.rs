//! Scheduling arithmetic and control state: locating the current frame of a
//! line from a beat position, deferred control actions with their timing
//! predicates, and the per-tick frame-boundary detection that starts new
//! executions.
//!
//! All positions are exact fixed-point integers: beat positions in
//! microbeats, speed factors in millionths, and "scaled units" their
//! product.

use vstd::prelude::*;
use crate::SyncTime;
use crate::clock::Clock;
use crate::scene::{Line, Scene, Script, spec_sum_lens, sum_lens, MAX_FRAMES, MAX_FRAME_LEN, MAX_SPEED_FACTOR};

verus! {

/// When a control message takes effect.
pub enum ActionTiming {
    /// On the tick that drains it.
    Immediate,
    /// On the first tick at or past the given beat position (microbeats).
    AtBeat(u64),
    /// On the first tick after the named line wraps to the start of its
    /// cycle.
    EndOfLine(usize),
}

/// A transport or timeline command for the clock.
pub enum ClockCommand {
    /// Set the tempo, in microseconds per beat.
    SetTempo(u64),
    /// Set the quantum, in microbeats per bar.
    SetQuantum(u64),
    /// Toggle the local transport.
    PlayPause,
    /// Re-anchor beat zero at the current instant.
    ResetBeat,
    /// Toggle whether peer play/pause commands propagate.
    SetStartStopSync(bool),
}

/// A control message for the scheduler; the single control channel carries
/// these.
pub enum SchedulerMessage {
    /// Replace the script of one cell.
    SetScript {
        /// Line of the cell.
        line: usize,
        /// Frame of the cell.
        frame: usize,
        /// The new script.
        script: Script,
        /// When the replacement takes effect.
        timing: ActionTiming,
    },
    /// Change a line's speed factor (millionths).
    SetSpeedFactor {
        /// The line changed.
        line: usize,
        /// New speed factor in millionths.
        factor: u64,
        /// When the change takes effect.
        timing: ActionTiming,
    },
    /// Insert a default line.
    InsertLine {
        /// Where the line is inserted.
        at: usize,
        /// When the insertion takes effect.
        timing: ActionTiming,
    },
    /// Remove a line.
    RemoveLine {
        /// The line removed.
        line: usize,
        /// When the removal takes effect.
        timing: ActionTiming,
    },
    /// Bind a device to a user-facing slot.
    AssignDeviceToSlot {
        /// The slot; one-based.
        slot: usize,
        /// Name of the device.
        name: String,
    },
    /// Free a slot.
    UnassignDeviceFromSlot {
        /// The slot; one-based.
        slot: usize,
    },
    /// Open a connection to the named device.
    ConnectDeviceByName {
        /// Name of the device.
        name: String,
    },
    /// Close the connection to the named device.
    DisconnectDeviceByName {
        /// Name of the device.
        name: String,
    },
    /// Create and register a virtual output port.
    CreateVirtualMidiOutput {
        /// Name of the new port.
        name: String,
    },
    /// Drive the clock.
    ClockCommand(ClockCommand),
    /// Drop every live execution at once.
    KillAll,
    /// Stop the scheduler after the current iteration.
    Quit,
}

/// A control message waiting for its timing predicate to fire.
pub struct DeferredAction {
    /// The message to apply.
    pub action: SchedulerMessage,
    /// When it fires.
    pub timing: ActionTiming,
}

/// The scaled position of beat `b` within the cycle of `line`: the beat
/// times the speed factor, wrapped by the line's scaled cycle length.
pub open spec fn spec_pos_scaled(line: Line, b: u64) -> int {
    (b as int) * line.speed_factor % (spec_sum_lens(line.frames@) * line.speed_factor)
}

/// The frame of `line` that contains scaled position `pos`: frames are
/// scanned in order, each spanning its length times the speed factor; a
/// position exactly on a boundary belongs to the later frame.
pub open spec fn spec_step_index(frames: Seq<crate::scene::Frame>, speed: int, pos: int) -> int
    decreases frames.len(),
{
    if frames.len() == 0 {
        0
    } else if pos < frames[0].length * speed {
        0
    } else {
        1 + spec_step_index(frames.drop_first(), speed, pos - frames[0].length * speed)
    }
}

/// Law: for every position within the cycle, the scanned frame exists, its
/// scaled start is at or before the position, and its scaled end is after
/// it (the interval property of the current frame).
pub proof fn lemma_step_index_interval(frames: Seq<crate::scene::Frame>, speed: int, pos: int)
    requires
        frames.len() >= 1,
        speed >= 1,
        forall|i: int| 0 <= i < frames.len() ==> (#[trigger] frames[i]).length >= 1,
        0 <= pos < spec_sum_lens(frames) * speed,
    ensures
        0 <= spec_step_index(frames, speed, pos) < frames.len(),
        spec_sum_lens(frames.take(spec_step_index(frames, speed, pos))) * speed <= pos,
        pos < spec_sum_lens(frames.take(spec_step_index(frames, speed, pos))) * speed
            + frames[spec_step_index(frames, speed, pos)].length * speed,
    decreases frames.len(),
{
    let s0 = frames[0].length * speed;
    assert(frames[0].length * speed >= 1) by (nonlinear_arith)
        requires frames[0].length >= 1, speed >= 1;
    if pos < s0 {
        assert(frames.take(0) =~= Seq::<crate::scene::Frame>::empty());
        assert(spec_sum_lens(frames.take(0)) == 0);
    } else {
        let rest = frames.drop_first();
        assert(spec_sum_lens(frames) == spec_sum_lens(rest) + frames[0].length) by {
            lemma_sum_lens_drop_first(frames);
        }
        assert((spec_sum_lens(rest) + frames[0].length) * speed
            == spec_sum_lens(rest) * speed + frames[0].length * speed) by (nonlinear_arith);
        assert(forall|i: int| 0 <= i < rest.len() ==> (#[trigger] rest[i]).length >= 1);
        if rest.len() == 0 {
            assert(spec_sum_lens(frames) == frames[0].length);
            assert(false);
        }
        lemma_step_index_interval(rest, speed, pos - s0);
        let j = spec_step_index(rest, speed, pos - s0);
        assert(spec_step_index(frames, speed, pos) == 1 + j);
        assert(frames.take(1 + j).drop_first() =~= rest.take(j));
        assert(frames.take(1 + j).len() >= 1);
        assert(frames.take(1 + j)[0] == frames[0]);
        lemma_sum_lens_drop_first(frames.take(1 + j));
        assert(spec_sum_lens(frames.take(1 + j))
            == spec_sum_lens(rest.take(j)) + frames[0].length);
        assert((spec_sum_lens(rest.take(j)) + frames[0].length) * speed
            == spec_sum_lens(rest.take(j)) * speed + frames[0].length * speed) by (nonlinear_arith);
        assert(frames[1 + j] == rest[j]);
    }
}

/// Splitting a non-empty frame sequence at the front splits its length sum.
pub proof fn lemma_sum_lens_drop_first(frames: Seq<crate::scene::Frame>)
    requires
        frames.len() >= 1,
    ensures
        spec_sum_lens(frames) == frames[0].length + spec_sum_lens(frames.drop_first()),
    decreases frames.len(),
{
    if frames.len() == 1 {
        assert(spec_sum_lens(frames.drop_first()) == 0);
        assert(spec_sum_lens(frames.drop_last()) == 0);
        assert(frames.last() == frames[0]);
        assert(spec_sum_lens(frames) == spec_sum_lens(frames.drop_last()) + frames.last().length);
    } else {
        let dl = frames.drop_last();
        let df = frames.drop_first();
        assert(dl.len() >= 1);
        lemma_sum_lens_drop_first(dl);
        assert(spec_sum_lens(frames) == spec_sum_lens(dl) + frames.last().length);
        assert(dl.drop_first() =~= df.drop_last());
        assert(dl[0] == frames[0]);
        assert(df.last() == frames.last());
        assert(df.len() >= 1);
        assert(spec_sum_lens(df) == spec_sum_lens(df.drop_last()) + df.last().length);
        assert(spec_sum_lens(frames)
            == frames[0].length + spec_sum_lens(df.drop_last()) + frames.last().length);
        assert(spec_sum_lens(df) == spec_sum_lens(df.drop_last()) + frames.last().length);
    }
}

/// Locate the frame of `line` that beat `b` falls in. Returns the frame
/// index and the frame's start within the cycle, in scaled units. Defined
/// for every beat; a position exactly on a frame boundary belongs to the
/// later frame.
pub fn step_index(line: &Line, b: u64) -> (r: (usize, u128))
    requires
        line.frames_wf(),
    ensures
        r.0 == spec_step_index(line.frames@, line.speed_factor as int, spec_pos_scaled(*line, b)),
        r.0 < line.frames@.len(),
        r.1 == spec_sum_lens(line.frames@.take(r.0 as int)) * line.speed_factor,
        r.1 <= spec_pos_scaled(*line, b),
        spec_pos_scaled(*line, b) < r.1 + line.frames@[r.0 as int].length * line.speed_factor,
{
    let ghost speed = line.speed_factor as int;
    let total_mb = sum_lens(&line.frames);
    proof {
        crate::scene::lemma_sum_lens_bounds(line.frames@);
        assert(total_mb * speed >= 1 && total_mb * speed <= (MAX_FRAMES * MAX_FRAME_LEN) * (MAX_SPEED_FACTOR as int))
            by (nonlinear_arith)
            requires
                1 <= total_mb <= MAX_FRAMES * MAX_FRAME_LEN,
                1 <= speed <= MAX_SPEED_FACTOR;
        assert((b as int) * speed <= 0xFFFF_FFFF_FFFF_FFFFu64 * (MAX_SPEED_FACTOR as int))
            by (nonlinear_arith)
            requires b <= 0xFFFF_FFFF_FFFF_FFFFu64, 1 <= speed <= MAX_SPEED_FACTOR;
        assert((b as int) * speed >= 0) by (nonlinear_arith)
            requires b >= 0, speed >= 1;
    }
    let total: u128 = total_mb * (line.speed_factor as u128);
    let pos: u128 = ((b as u128) * (line.speed_factor as u128)) % total;
    proof {
        vstd::arithmetic::div_mod::lemma_mod_bound((b as int) * speed, total as int);
        assert(pos == spec_pos_scaled(*line, b));
        lemma_step_index_interval(line.frames@, speed, pos as int);
    }
    let ghost target = spec_step_index(line.frames@, speed, pos as int);
    let n = line.frames.len();
    let mut acc: u128 = 0;
    let mut i: usize = 0;
    proof {
        assert(line.frames@.skip(0) =~= line.frames@);
        assert(line.frames@.take(0) =~= Seq::<crate::scene::Frame>::empty());
        assert(spec_sum_lens(line.frames@.take(0)) * speed == 0) by (nonlinear_arith)
            requires spec_sum_lens(line.frames@.take(0)) == 0;
    }
    while i < n
        invariant
            line.frames_wf(),
            i < n,
            n == line.frames@.len(),
            speed == line.speed_factor as int,
            acc == spec_sum_lens(line.frames@.take(i as int)) * speed,
            acc <= pos < total,
            total == spec_sum_lens(line.frames@) * speed,
            total <= 0xFFFF_FFFF_FFFF_FFFF_FFFF_FFFFu128,
            0 <= target < n,
            target == spec_step_index(line.frames@, speed, pos as int),
            target == i + spec_step_index(line.frames@.skip(i as int), speed, pos - acc),
            i <= target,
            pos as int == spec_pos_scaled(*line, b),
            spec_sum_lens(line.frames@.take(target)) * speed <= pos,
            (pos as int) < spec_sum_lens(line.frames@.take(target)) * speed
                + line.frames@[target].length * speed,
        decreases n - i,
    {
        let ghost rest = line.frames@.skip(i as int);
        proof {
            assert(rest.len() >= 1);
            assert(rest[0] == line.frames@[i as int]);
            assert(line.frames@[i as int].length * speed
                <= (MAX_FRAME_LEN as int) * (MAX_SPEED_FACTOR as int)) by (nonlinear_arith)
                requires
                    1 <= line.frames@[i as int].length <= MAX_FRAME_LEN,
                    1 <= speed <= MAX_SPEED_FACTOR;
        }
        let slen: u128 = (line.frames[i].length as u128) * (line.speed_factor as u128);
        if pos < acc + slen {
            proof {
                assert(spec_step_index(rest, speed, pos - acc) == 0);
                assert(target == i);
            }
            return (i, acc);
        }
        proof {
            assert(spec_step_index(rest, speed, pos - acc)
                == 1 + spec_step_index(rest.drop_first(), speed, pos - acc - rest[0].length * speed));
            assert(rest.drop_first() =~= line.frames@.skip(i + 1));
            assert(line.frames@.take(i + 1).drop_last() =~= line.frames@.take(i as int));
            assert(line.frames@.take(i + 1).last() == line.frames@[i as int]);
            assert(spec_sum_lens(line.frames@.take(i + 1))
                == spec_sum_lens(line.frames@.take(i as int)) + line.frames@[i as int].length);
            assert((spec_sum_lens(line.frames@.take(i as int)) + line.frames@[i as int].length) * speed
                == spec_sum_lens(line.frames@.take(i as int)) * speed
                    + line.frames@[i as int].length * speed) by (nonlinear_arith);
            if i + 1 == n {
                assert(line.frames@.take(i + 1) =~= line.frames@);
                assert(false);
            }
        }
        acc = acc + slen;
        i = i + 1;
    }
    proof {
        assert(false);
    }
    (0, 0)
}

impl DeferredAction {
    /// Pair a message with its timing.
    pub fn new(action: SchedulerMessage, timing: ActionTiming) -> (d: DeferredAction)
        ensures
            d.action == action,
            d.timing == timing,
    {
        DeferredAction { action, timing }
    }

    /// Whether the timing predicate fires on this tick, given the current
    /// and previous beat positions (microbeats) and the scene's lines. An
    /// `Immediate` action never waits here (it was applied on arrival); an
    /// `AtBeat` action fires once the current beat has reached its target;
    /// an `EndOfLine` action fires when the named line's cycle has wrapped:
    /// the previous beat's position within the cycle exceeds the current
    /// one's.
    pub fn should_apply(&self, current_beat: u64, last_beat: u64, lines: &Vec<Line>) -> (r: bool)
        requires
            lines@.len() >= 1,
            forall|i: int| 0 <= i < lines@.len() ==> (#[trigger] lines@[i]).frames_wf(),
        ensures
            r == match self.timing {
                ActionTiming::Immediate => false,
                ActionTiming::AtBeat(target) => current_beat >= target,
                ActionTiming::EndOfLine(i) => {
                    let line = lines@[i as int % lines@.len() as int];
                    let len = spec_sum_lens(line.frames@) * line.speed_factor;
                    (last_beat * 1_000_000) % len > (current_beat * 1_000_000) % len
                },
            },
    {
        match &self.timing {
            ActionTiming::Immediate => false,
            ActionTiming::AtBeat(target) => current_beat >= *target,
            ActionTiming::EndOfLine(i) => {
                let line = &lines[*i % lines.len()];
                let len: u128 = line.length();
                proof {
                    assert((last_beat as int) * 1_000_000
                        <= 0xFFFF_FFFF_FFFF_FFFFu64 * 1_000_000) by (nonlinear_arith)
                        requires last_beat <= 0xFFFF_FFFF_FFFF_FFFFu64;
                    assert((current_beat as int) * 1_000_000
                        <= 0xFFFF_FFFF_FFFF_FFFFu64 * 1_000_000) by (nonlinear_arith)
                        requires current_beat <= 0xFFFF_FFFF_FFFF_FFFFu64;
                }
                let last_pos = ((last_beat as u128) * 1_000_000) % len;
                let cur_pos = ((current_beat as u128) * 1_000_000) % len;
                last_pos > cur_pos
            },
        }
    }
}

} // verus!
