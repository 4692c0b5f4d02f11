//! The scheduler: the single realtime loop's state and one iteration of its
//! work as a pure function. Each tick refreshes the clock snapshot, applies
//! arriving control messages (immediately or deferred to their timing),
//! detects frame boundaries, starts executions, and pumps the live
//! executions, handing the produced timed messages to the dispatcher.
//!
//! Opening and closing operating-system device handles happens outside the
//! core: the device map records the intended connection state, and the rim
//! around the engine mirrors it onto real handles.

use vstd::prelude::*;
use crate::{SyncTime, ErrorKind, SCHEDULED_DRIFT};
use crate::clock::{Clock, PeerState};
use crate::device::{DeviceMap, DeviceKind, LOG_DEVICE_ID};
use crate::dummylang;
use crate::protocol::{ConcreteEvent, LogMessage, ProtocolMessage, ProtocolPayload, TimedMessage};
use crate::scene::{Line, Scene};
use crate::sched::{ActionTiming, ClockCommand, DeferredAction, SchedulerMessage, step_index};
use crate::vm::{EvaluationContext, StackVM};

verus! {

/// Most lines a scene accepts.
pub const MAX_LINES: usize = 4_096;

/// Most frames a control message may address.
pub const MAX_ADDRESSABLE_FRAMES: usize = 4_096;

/// Most control actions that may wait for their timing.
pub const MAX_DEFERRED: usize = 65_536;

/// Most device identifiers the registry accepts.
pub const MAX_DEVICE_IDS: usize = 1_000_000;

/// Most live executions.
pub const MAX_EXECUTIONS: usize = 65_536;

/// One new execution the tick started: the cell entered and the date its
/// frame began.
pub struct FrameStart {
    /// The line whose frame boundary was crossed.
    pub line: usize,
    /// The frame entered.
    pub frame: usize,
    /// The wall-clock date at which the entered frame began.
    pub scheduled_date: SyncTime,
}

/// A live script execution on one cell.
pub struct Execution {
    /// The line of the cell.
    pub line: usize,
    /// The frame of the cell.
    pub frame: usize,
    /// The interpreter.
    pub vm: StackVM,
    /// The execution's variable scopes and stack.
    pub ctx: EvaluationContext,
    /// The date the frame began.
    pub scheduled_date: SyncTime,
    /// The next instant the execution is due to advance.
    pub ready_at: SyncTime,
}

impl Execution {
    /// An execution's context always has a local scope and in-range clock
    /// snapshot values.
    pub open spec fn wf(self) -> bool {
        self.ctx.wf() && self.ctx.tempo <= i64::MAX && self.ctx.frame_len <= i64::MAX
    }

    /// Whether the execution is due to advance at the theoretical date.
    pub fn is_ready(&self, date: SyncTime) -> (r: bool)
        ensures
            r == (self.ready_at <= date),
    {
        self.ready_at <= date
    }
}

/// What one tick produced.
pub struct TickReport {
    /// The executions started at frame boundaries, in line order.
    pub started: Vec<FrameStart>,
    /// The timed messages to hand to the dispatcher.
    pub messages: Vec<TimedMessage>,
    /// Whether a quit request ends the loop after this iteration.
    pub quit: bool,
}

/// The clock as one tick captures it: the peer snapshot adopted when one
/// arrived, the instant adopted always.
pub open spec fn spec_captured_clock(c: Clock, now: SyncTime, peer: Option<PeerState>)
    -> Clock {
    match peer {
        Some(p) => Clock {
            micros_per_beat: p.micros_per_beat,
            origin_beat: p.anchor_beat,
            origin_date: p.anchor_date,
            is_playing: if c.sync_enabled { p.is_playing } else { c.is_playing },
            quantum: c.quantum,
            sync_enabled: c.sync_enabled,
            now,
        },
        None => Clock { now, ..c },
    }
}

/// The theoretical date one tick schedules against: the captured instant
/// plus the drift, floored at the clock's origin.
pub open spec fn spec_tick_date(c1: Clock, now: SyncTime) -> int {
    if now + SCHEDULED_DRIFT < c1.origin_date {
        c1.origin_date as int
    } else {
        now + SCHEDULED_DRIFT
    }
}

/// The beat position one tick works at, saturated at the representable top.
pub open spec fn spec_tick_beat(c: Clock, now: SyncTime, peer: Option<PeerState>) -> int {
    let c1 = spec_captured_clock(c, now, peer);
    let b = c1.spec_beat_at_date(spec_tick_date(c1, now) as u64);
    if b <= u64::MAX {
        b
    } else {
        u64::MAX as int
    }
}

/// The scheduler state.
pub struct Scheduler {
    /// The scene driving the lines.
    pub scene: Scene,
    /// The clock snapshot.
    pub clock: Clock,
    /// The device registry and slot table.
    pub devices: DeviceMap,
    /// The live executions.
    pub executions: Vec<Execution>,
    /// Control actions waiting for their timing.
    pub deferred: Vec<DeferredAction>,
    /// The previous tick's beat position, in microbeats.
    pub last_beat: u64,
    /// Set once a quit request arrived.
    pub quit: bool,
}

impl Scheduler {
    /// Well-formedness of the whole state, including the resource caps that
    /// keep every operation within machine limits.
    pub open spec fn wf(self) -> bool {
        &&& self.scene.wf()
        &&& self.clock.wf()
        &&& self.devices.wf()
        &&& (forall|i: int| 0 <= i < self.executions@.len()
            ==> (#[trigger] self.executions@[i]).wf())
        &&& self.scene.lines@.len() <= MAX_LINES
        &&& self.devices.names@.len() <= MAX_DEVICE_IDS
        &&& self.deferred@.len() <= MAX_DEFERRED
        &&& self.executions@.len() <= MAX_EXECUTIONS
    }

    /// A fresh scheduler with an empty scene, anchored at `now`.
    pub fn new(now: SyncTime) -> (s: Scheduler)
        ensures
            s.wf(),
            s.scene.lines@.len() == 0,
            s.executions@.len() == 0,
            s.deferred@.len() == 0,
            !s.quit,
            s.clock.now == now,
    {
        Scheduler {
            scene: Scene { lines: Vec::new() },
            clock: Clock::new(now),
            devices: DeviceMap::new(),
            executions: Vec::new(),
            deferred: Vec::new(),
            last_beat: 0,
            quit: false,
        }
    }

    /// Drop every live execution at once; pending dispatcher messages are
    /// unaffected.
    pub fn kill_all(&mut self)
        ensures
            final(self).executions@.len() == 0,
            final(self).scene == old(self).scene,
            final(self).clock == old(self).clock,
            final(self).devices == old(self).devices,
            final(self).deferred == old(self).deferred,
            final(self).quit == old(self).quit,
            final(self).last_beat == old(self).last_beat,
            old(self).wf() ==> final(self).wf(),
    {
        self.executions.clear();
    }

    /// Apply one control message now, ignoring its timing. A rejected
    /// message reports the error kind, which the tick turns into a log
    /// message; the scheduler never dies of one.
    #[verifier::rlimit(100)]
    #[verifier::spinoff_prover]
    pub fn apply_message(&mut self, msg: SchedulerMessage) -> (r: Result<(), ErrorKind>)
        requires
            old(self).wf(),
        ensures
            final(self).wf(),
            final(self).executions == old(self).executions,
            final(self).deferred == old(self).deferred,
            final(self).quit == old(self).quit,
            final(self).last_beat == old(self).last_beat,
            // What each message does, and exactly when it is rejected.
            match msg {
                SchedulerMessage::SetScript { line, frame, script, .. } => {
                    &&& ((r is Ok) <==> (line < MAX_LINES && frame < MAX_ADDRESSABLE_FRAMES
                        && script.lang@ == "dummy"@
                        && crate::dummylang::spec_parse_tokens(
                            crate::dummylang::spec_tokenize(script.content@)) is Some))
                    &&& ((r is Err) ==> final(self).scene == old(self).scene
                        && (r == Err::<(), ErrorKind>(ErrorKind::InvalidArgument)
                            || r == Err::<(), ErrorKind>(ErrorKind::CompileError)))
                    &&& ((r is Ok) ==> {
                        &&& final(self).scene.lines@.len()
                            == (if old(self).scene.lines@.len() > line {
                                old(self).scene.lines@.len() as int
                            } else {
                                line + 1
                            })
                        &&& frame < final(self).scene.lines@[line as int].frames@.len()
                        &&& final(self).scene.lines@[line as int]
                            .frames@[frame as int].script == script
                        // Every other pre-existing line keeps its content.
                        &&& (forall|j: int| 0 <= j < old(self).scene.lines@.len() && j != line
                            ==> final(self).scene.lines@[j].scripts()
                                    == (#[trigger] old(self).scene.lines@[j]).scripts()
                                && final(self).scene.lines@[j].speed_factor
                                    == old(self).scene.lines@[j].speed_factor)
                    })
                    &&& final(self).devices == old(self).devices
                    &&& final(self).clock == old(self).clock
                },
                SchedulerMessage::SetSpeedFactor { line, factor, .. } => {
                    &&& ((r is Ok) <==> line < MAX_LINES)
                    &&& ((r is Err) ==> final(self).scene == old(self).scene
                        && r == Err::<(), ErrorKind>(ErrorKind::InvalidArgument))
                    &&& ((r is Ok) ==> {
                        &&& final(self).scene.lines@.len()
                            == (if old(self).scene.lines@.len() > line {
                                old(self).scene.lines@.len() as int
                            } else {
                                line + 1
                            })
                        &&& final(self).scene.lines@[line as int].speed_factor
                            == (if factor < 1 {
                                1u64
                            } else if factor > crate::scene::MAX_SPEED_FACTOR {
                                crate::scene::MAX_SPEED_FACTOR
                            } else {
                                factor
                            })
                        &&& (forall|j: int| 0 <= j < old(self).scene.lines@.len() && j != line
                            ==> final(self).scene.lines@[j].scripts()
                                    == (#[trigger] old(self).scene.lines@[j]).scripts()
                                && final(self).scene.lines@[j].speed_factor
                                    == old(self).scene.lines@[j].speed_factor)
                    })
                    &&& final(self).devices == old(self).devices
                    &&& final(self).clock == old(self).clock
                },
                SchedulerMessage::InsertLine { at, .. } => {
                    &&& ((r is Ok) <==> (at < MAX_LINES
                        && old(self).scene.lines@.len() < MAX_LINES))
                    &&& ((r is Err) ==> final(self).scene == old(self).scene
                        && r == Err::<(), ErrorKind>(ErrorKind::InvalidArgument))
                    &&& ((r is Ok) ==> {
                        &&& final(self).scene.lines@.len()
                            == (if old(self).scene.lines@.len() >= at {
                                old(self).scene.lines@.len() as int + 1
                            } else {
                                at as int + 1
                            })
                        // Lines before the insertion point stay; later ones
                        // shift one slot right, content preserved.
                        &&& (forall|j: int| 0 <= j < at && j < old(self).scene.lines@.len()
                            ==> final(self).scene.lines@[j].scripts()
                                    == (#[trigger] old(self).scene.lines@[j]).scripts()
                                && final(self).scene.lines@[j].speed_factor
                                    == old(self).scene.lines@[j].speed_factor)
                        &&& (forall|j: int| at <= j < old(self).scene.lines@.len()
                            ==> final(self).scene.lines@[j + 1].scripts()
                                    == (#[trigger] old(self).scene.lines@[j]).scripts()
                                && final(self).scene.lines@[j + 1].speed_factor
                                    == old(self).scene.lines@[j].speed_factor)
                    })
                    &&& final(self).devices == old(self).devices
                    &&& final(self).clock == old(self).clock
                },
                SchedulerMessage::RemoveLine { line, .. } => {
                    &&& r is Ok
                    &&& (line >= old(self).scene.lines@.len()
                        ==> final(self).scene == old(self).scene)
                    &&& (line < old(self).scene.lines@.len() ==> {
                        &&& final(self).scene.lines@.len()
                            == old(self).scene.lines@.len() - 1
                        &&& (forall|j: int| 0 <= j < line
                            ==> final(self).scene.lines@[j] == old(self).scene.lines@[j])
                        &&& (forall|j: int| line <= j < final(self).scene.lines@.len()
                            ==> (#[trigger] final(self).scene.lines@[j]).frames
                                    == old(self).scene.lines@[j + 1].frames
                                && final(self).scene.lines@[j].speed_factor
                                    == old(self).scene.lines@[j + 1].speed_factor)
                    })
                    &&& final(self).devices == old(self).devices
                    &&& final(self).clock == old(self).clock
                },
                SchedulerMessage::AssignDeviceToSlot { slot, name } => {
                    &&& final(self).scene == old(self).scene
                    &&& final(self).clock == old(self).clock
                    &&& final(self).devices.names == old(self).devices.names
                    &&& final(self).devices.connections == old(self).devices.connections
                    &&& ((r is Ok) ==> 1 <= slot <= crate::device::MAX_ASSIGNABLE_SLOT
                        && (exists|i: int| 0 <= i < final(self).devices.slots@.len()
                            && (#[trigger] final(self).devices.slots@[i]).0 == slot
                            && final(self).devices.slots@[i].1@ == name@))
                    &&& ((r is Err) ==> final(self).devices.slots == old(self).devices.slots)
                },
                SchedulerMessage::UnassignDeviceFromSlot { slot } => {
                    &&& final(self).scene == old(self).scene
                    &&& final(self).clock == old(self).clock
                    &&& final(self).devices.names == old(self).devices.names
                    &&& final(self).devices.connections == old(self).devices.connections
                    &&& ((r is Ok) ==> forall|i: int|
                        0 <= i < final(self).devices.slots@.len()
                        ==> (#[trigger] final(self).devices.slots@[i]).0 != slot)
                    &&& ((r is Err) ==> *final(self) == *old(self)
                        && r == Err::<(), ErrorKind>(ErrorKind::InvalidArgument)
                        && (slot == 0 || slot > crate::device::MAX_ASSIGNABLE_SLOT))
                },
                SchedulerMessage::ConnectDeviceByName { name } => {
                    &&& final(self).scene == old(self).scene
                    &&& final(self).clock == old(self).clock
                    &&& final(self).devices.slots == old(self).devices.slots
                    &&& ((r is Ok) <==> old(self).devices.spec_id_of(name@) is Some)
                    &&& ((r is Err) ==> *final(self) == *old(self)
                        && r == Err::<(), ErrorKind>(ErrorKind::DeviceNotFound))
                    &&& ((r is Ok) ==> (old(self).devices.spec_id_of(name@) matches Some(id)
                        && final(self).devices.spec_connected(id)
                        // The device reconnects under its remembered kind; a
                        // device never registered before opens as MIDI.
                        && final(self).devices.spec_connection_kind(id)
                            == Some(match old(self).devices.spec_known_kind(id) {
                                Some(k) => k,
                                None => crate::device::DeviceKind::Midi,
                            })
                        && final(self).devices.names@.len()
                            == old(self).devices.names@.len()))
                },
                SchedulerMessage::DisconnectDeviceByName { name } => {
                    &&& final(self).scene == old(self).scene
                    &&& final(self).clock == old(self).clock
                    &&& final(self).devices.slots == old(self).devices.slots
                    &&& final(self).devices.names == old(self).devices.names
                    &&& ((r is Err) ==> final(self).devices == old(self).devices
                        && r == Err::<(), ErrorKind>(ErrorKind::DeviceNotFound))
                    &&& ((r is Ok) ==> (old(self).devices.spec_id_of(name@) matches Some(id)
                        && old(self).devices.spec_connected(id)
                        && !final(self).devices.spec_connected(id)
                        && final(self).devices.spec_known_kind(id)
                            == old(self).devices.spec_known_kind(id)))
                },
                SchedulerMessage::CreateVirtualMidiOutput { name } => {
                    &&& final(self).scene == old(self).scene
                    &&& final(self).clock == old(self).clock
                    &&& final(self).devices.slots == old(self).devices.slots
                    &&& ((r is Err) ==> final(self).devices == old(self).devices
                        && r == Err::<(), ErrorKind>(ErrorKind::InvalidArgument))
                    &&& ((r is Ok) ==> (final(self).devices.spec_id_of(name@) matches Some(id)
                        && final(self).devices.spec_connected(id)
                        && final(self).devices.spec_connection_kind(id)
                            == Some(crate::device::DeviceKind::Midi)
                        && old(self).devices.spec_id_of(name@) is None))
                },
                SchedulerMessage::ClockCommand(cmd) => {
                    &&& final(self).scene == old(self).scene
                    &&& final(self).devices == old(self).devices
                    &&& match cmd {
                        ClockCommand::SetTempo(t) => {
                            &&& ((r is Ok) <==> (crate::clock::MIN_MICROS_PER_BEAT <= t
                                <= crate::clock::MAX_MICROS_PER_BEAT))
                            &&& ((r is Err) ==> final(self).clock == old(self).clock)
                            &&& ((r is Ok) ==> final(self).clock.micros_per_beat == t
                                && final(self).clock.origin_date == old(self).clock.now
                                && final(self).clock.now == old(self).clock.now
                                && final(self).clock.quantum == old(self).clock.quantum)
                        },
                        ClockCommand::SetQuantum(q) => {
                            &&& ((r is Ok) <==> q > 0)
                            &&& ((r is Err) ==> final(self).clock == old(self).clock)
                            &&& ((r is Ok) ==> final(self).clock
                                == (crate::clock::Clock { quantum: q, ..old(self).clock }))
                        },
                        ClockCommand::PlayPause => r is Ok && final(self).clock
                            == (crate::clock::Clock {
                                is_playing: !old(self).clock.is_playing,
                                ..old(self).clock
                            }),
                        ClockCommand::ResetBeat => r is Ok && final(self).clock
                            == (crate::clock::Clock {
                                origin_date: old(self).clock.now,
                                origin_beat: 0,
                                ..old(self).clock
                            }),
                        ClockCommand::SetStartStopSync(on) => r is Ok && final(self).clock
                            == (crate::clock::Clock {
                                sync_enabled: on,
                                ..old(self).clock
                            }),
                    }
                },
                SchedulerMessage::KillAll => *final(self) == *old(self)
                    && r == Err::<(), ErrorKind>(ErrorKind::InvalidArgument),
                SchedulerMessage::Quit => *final(self) == *old(self)
                    && r == Err::<(), ErrorKind>(ErrorKind::InvalidArgument),
            },
    {
        match msg {
            SchedulerMessage::SetScript { line, frame, script, .. } => {
                if line >= MAX_LINES || frame >= MAX_ADDRESSABLE_FRAMES {
                    return Err(ErrorKind::InvalidArgument);
                }
                // A script that does not compile leaves the previous script
                // in place.
                if dummylang::compile_script(&script).is_err() {
                    return Err(ErrorKind::CompileError);
                }
                let ghost target = script;
                let f = self.scene.get_frame_mut(line, frame);
                f.script = script;
                let ghost mid = self.scene;
                proof {
                    assert(mid.lines@[line as int].frames@[frame as int].script == target);
                    assert(1 <= mid.lines@[line as int].frames@.len()
                        <= crate::scene::MAX_FRAMES);
                    assert(forall|j: int| 0 <= j < old(self).scene.lines@.len() && j != line
                        ==> (#[trigger] mid.lines@[j]) == old(self).scene.lines@[j]);
                }
                self.scene.make_consistent();
                proof {
                    assert(self.scene.lines@[line as int].frames@[frame as int].script
                        == target);
                    assert forall|j: int| 0 <= j < old(self).scene.lines@.len() && j != line
                        implies self.scene.lines@[j].scripts()
                                == (#[trigger] old(self).scene.lines@[j]).scripts()
                            && self.scene.lines@[j].speed_factor
                                == old(self).scene.lines@[j].speed_factor
                    by {
                        assert(old(self).scene.lines@[j].frames_wf());
                        assert(mid.lines@[j] == old(self).scene.lines@[j]);
                    }
                }
                Ok(())
            },
            SchedulerMessage::SetSpeedFactor { line, factor, .. } => {
                if line >= MAX_LINES {
                    return Err(ErrorKind::InvalidArgument);
                }
                let l = self.scene.line_mut(line);
                l.set_speed_factor(factor);
                self.scene.make_consistent();
                Ok(())
            },
            SchedulerMessage::InsertLine { at, .. } => {
                if at >= MAX_LINES || self.scene.lines.len() >= MAX_LINES {
                    return Err(ErrorKind::InvalidArgument);
                }
                self.scene.insert_line(at, Line::default_line());
                Ok(())
            },
            SchedulerMessage::RemoveLine { line, .. } => {
                self.scene.remove_line(line);
                Ok(())
            },
            SchedulerMessage::AssignDeviceToSlot { slot, name } => {
                if self.devices.slots.len() >= 1_000_000 {
                    return Err(ErrorKind::SlotConflict);
                }
                self.devices.assign_device_to_slot(slot, &name)
            },
            SchedulerMessage::UnassignDeviceFromSlot { slot } => {
                self.devices.unassign_device_from_slot(slot)
            },
            SchedulerMessage::ConnectDeviceByName { name } => {
                // Record the intended connection; the rim opens the handle.
                // A returning device reconnects under its remembered kind.
                match self.devices.find_id(&name) {
                    None => Err(ErrorKind::DeviceNotFound),
                    Some(id) => {
                        let kind = match self.devices.known_kind(id) {
                            Some(k) => k,
                            None => DeviceKind::Midi,
                        };
                        let _ = self.devices.register_output_connection(&name, kind);
                        Ok(())
                    },
                }
            },
            SchedulerMessage::DisconnectDeviceByName { name } => {
                match self.devices.find_id(&name) {
                    None => Err(ErrorKind::DeviceNotFound),
                    Some(id) => self.devices.disconnect_output(id),
                }
            },
            SchedulerMessage::CreateVirtualMidiOutput { name } => {
                if self.devices.names.len() >= MAX_DEVICE_IDS {
                    return Err(ErrorKind::InvalidArgument);
                }
                // The rim validates against live system port names before
                // submitting, so only the registry is consulted here.
                let no_system_ports: Vec<String> = Vec::new();
                match self.devices.create_virtual_midi_output(&name, &no_system_ports) {
                    Ok(_) => Ok(()),
                    Err(e) => Err(e),
                }
            },
            SchedulerMessage::ClockCommand(cmd) => match cmd {
                ClockCommand::SetTempo(t) => {
                    if self.clock.set_tempo(t) {
                        Ok(())
                    } else {
                        Err(ErrorKind::InvalidArgument)
                    }
                },
                ClockCommand::SetQuantum(q) => {
                    if self.clock.set_quantum(q) {
                        Ok(())
                    } else {
                        Err(ErrorKind::InvalidArgument)
                    }
                },
                ClockCommand::PlayPause => {
                    self.clock.play_pause();
                    Ok(())
                },
                ClockCommand::ResetBeat => {
                    self.clock.reset_beat();
                    Ok(())
                },
                ClockCommand::SetStartStopSync(on) => {
                    self.clock.set_start_stop_sync(on);
                    Ok(())
                },
            },
            SchedulerMessage::KillAll => Err(ErrorKind::InvalidArgument),
            SchedulerMessage::Quit => Err(ErrorKind::InvalidArgument),
        }
    }

    /// File one control message: quit and kill requests act at once,
    /// immediate messages apply now, everything else waits for its timing.
    /// A rejected message becomes an error log at `date`.
    fn process_message(&mut self, msg: SchedulerMessage, date: SyncTime,
        messages: &mut Vec<TimedMessage>)
        requires
            old(self).wf(),
        ensures
            final(self).wf(),
            final(self).quit == (old(self).quit || msg is Quit),
            final(self).last_beat == old(self).last_beat,
    {
        match msg {
            SchedulerMessage::Quit => {
                self.quit = true;
            },
            SchedulerMessage::KillAll => {
                self.kill_all();
            },
            SchedulerMessage::SetScript {
                line, frame, script, timing: ActionTiming::Immediate,
            } => {
                let r = self.apply_message(SchedulerMessage::SetScript {
                    line, frame, script, timing: ActionTiming::Immediate,
                });
                push_error_log(r, date, messages);
            },
            SchedulerMessage::SetScript { line, frame, script, timing } => {
                self.defer(SchedulerMessage::SetScript {
                    line, frame, script, timing: ActionTiming::Immediate,
                }, timing, date, messages);
            },
            SchedulerMessage::SetSpeedFactor {
                line, factor, timing: ActionTiming::Immediate,
            } => {
                let r = self.apply_message(SchedulerMessage::SetSpeedFactor {
                    line, factor, timing: ActionTiming::Immediate,
                });
                push_error_log(r, date, messages);
            },
            SchedulerMessage::SetSpeedFactor { line, factor, timing } => {
                self.defer(SchedulerMessage::SetSpeedFactor {
                    line, factor, timing: ActionTiming::Immediate,
                }, timing, date, messages);
            },
            SchedulerMessage::InsertLine { at, timing: ActionTiming::Immediate } => {
                let r = self.apply_message(SchedulerMessage::InsertLine {
                    at, timing: ActionTiming::Immediate,
                });
                push_error_log(r, date, messages);
            },
            SchedulerMessage::InsertLine { at, timing } => {
                self.defer(SchedulerMessage::InsertLine {
                    at, timing: ActionTiming::Immediate,
                }, timing, date, messages);
            },
            SchedulerMessage::RemoveLine { line, timing: ActionTiming::Immediate } => {
                let r = self.apply_message(SchedulerMessage::RemoveLine {
                    line, timing: ActionTiming::Immediate,
                });
                push_error_log(r, date, messages);
            },
            SchedulerMessage::RemoveLine { line, timing } => {
                self.defer(SchedulerMessage::RemoveLine {
                    line, timing: ActionTiming::Immediate,
                }, timing, date, messages);
            },
            other => {
                let r = self.apply_message(other);
                push_error_log(r, date, messages);
            },
        }
    }

    /// Queue a deferred action; a full queue rejects it with a log.
    fn defer(&mut self, action: SchedulerMessage, timing: ActionTiming, date: SyncTime,
        messages: &mut Vec<TimedMessage>)
        requires
            old(self).wf(),
        ensures
            final(self).wf(),
            final(self).quit == old(self).quit,
            final(self).last_beat == old(self).last_beat,
    {
        if self.deferred.len() < MAX_DEFERRED {
            self.deferred.push(DeferredAction::new(action, timing));
        } else {
            push_error_log(Err(ErrorKind::InvalidArgument), date, messages);
        }
    }

    /// Start an execution for a cell whose frame began at `scheduled_date`:
    /// compile its script and set up the interpreter. A compile failure
    /// becomes an error log and no execution; the next boundary retries.
    fn start_execution(&mut self, line: usize, frame: usize, scheduled_date: SyncTime,
        messages: &mut Vec<TimedMessage>)
        requires
            old(self).wf(),
        ensures
            final(self).wf(),
            final(self).scene == old(self).scene,
            final(self).clock == old(self).clock,
            final(self).devices == old(self).devices,
            final(self).deferred == old(self).deferred,
            final(self).quit == old(self).quit,
            final(self).last_beat == old(self).last_beat,
    {
        if self.executions.len() >= MAX_EXECUTIONS {
            return;
        }
        let frame_len: u64 = match self.scene.get_frame(line, frame) {
            None => {
                return;
            },
            Some(f) => f.frame_len(),
        };
        let compiled = match self.scene.get_frame(line, frame) {
            None => {
                return;
            },
            Some(f) => dummylang::compile_script(&f.script),
        };
        match compiled {
            Err(_) => {
                push_error_log(Err(ErrorKind::CompileError), scheduled_date, messages);
            },
            Ok(program) => {
                let tempo = self.clock.tempo();
                let fl = if frame_len > 0x7FFF_FFFF_FFFF_FFFF {
                    0x7FFF_FFFF_FFFF_FFFF
                } else {
                    frame_len
                };
                let ctx = EvaluationContext::new(tempo, fl);
                let vm = StackVM::new(program);
                self.executions.push(Execution {
                    line,
                    frame,
                    vm,
                    ctx,
                    scheduled_date,
                    ready_at: scheduled_date,
                });
            },
        }
    }

    /// One iteration of the scheduler's loop, as a pure function of the
    /// captured instant, an optional peer snapshot, and the control messages
    /// that arrived since the last tick. Returns the executions started at
    /// frame boundaries, the timed messages for the dispatcher, and whether
    /// a quit request ends the loop.
    pub fn tick(&mut self, now: SyncTime, peer: Option<PeerState>,
        inbox: Vec<SchedulerMessage>) -> (r: TickReport)
        requires
            old(self).wf(),
            old(self).clock.origin_date <= now,
            (peer matches Some(p)) ==> (peer matches Some(p)
                && p.wf() && p.anchor_date <= now),
            now + SCHEDULED_DRIFT <= u64::MAX,
        ensures
            final(self).wf(),
            r.quit == final(self).quit,
            old(self).quit ==> final(self).quit,
            // The tick's beat position becomes the next tick's previous
            // beat.
            final(self).last_beat as int == spec_tick_beat(old(self).clock, now, peer),
            // Every line ends on the frame its beat position names.
            forall|l: int| 0 <= l < final(self).scene.lines@.len()
                ==> (#[trigger] final(self).scene.lines@[l]).current_frame as int
                    == crate::sched::spec_step_index(
                        final(self).scene.lines@[l].frames@,
                        final(self).scene.lines@[l].speed_factor as int,
                        crate::sched::spec_pos_scaled(
                            final(self).scene.lines@[l],
                            spec_tick_beat(old(self).clock, now, peer) as u64)),
            // At most one start per line, in line order, each on the frame
            // the line ended on.
            forall|a: int, b: int| 0 <= a < b < r.started@.len()
                ==> (#[trigger] r.started@[a]).line < (#[trigger] r.started@[b]).line,
            forall|k: int| 0 <= k < r.started@.len()
                ==> (#[trigger] r.started@[k]).line < final(self).scene.lines@.len()
                    && r.started@[k].frame == final(self).scene
                        .lines@[r.started@[k].line as int].current_frame,
    {
        let mut messages: Vec<TimedMessage> = Vec::new();
        let mut started: Vec<FrameStart> = Vec::new();

        // 1. Refresh the clock snapshot.
        self.clock.capture_app_state(now, peer);
        proof {
            assert(self.clock == spec_captured_clock(old(self).clock, now, peer));
        }
        let date = crate::theoretical_date(now);
        let date = if date < self.clock.origin_date {
            self.clock.origin_date
        } else {
            date
        };
        proof {
            assert(date as int == spec_tick_date(
                spec_captured_clock(old(self).clock, now, peer), now));
        }
        let current_beat = self.clock.beat_at_date_saturated(date);
        proof {
            assert(current_beat as int == spec_tick_beat(old(self).clock, now, peer));
        }

        // 2. Drain the control channel in arrival order.
        let mut inbox = inbox;
        loop
            invariant
                self.wf(),
                old(self).quit ==> self.quit,
                self.last_beat == old(self).last_beat,
            ensures
                self.wf(),
                old(self).quit ==> self.quit,
                self.last_beat == old(self).last_beat,
            decreases inbox@.len(),
        {
            if inbox.len() == 0 {
                break;
            }
            let msg = inbox.remove(0);
            self.process_message(msg, date, &mut messages);
        }

        // 3. Apply the deferred actions whose timing fires. Deferred actions
        // wait untouched while the scene is empty.
        if self.scene.lines.len() > 0 {
            let mut remaining: Vec<DeferredAction> = Vec::new();
            let mut to_apply: Vec<DeferredAction> = Vec::new();
            loop
                invariant
                    self.wf(),
                    self.scene.lines@.len() >= 1,
                    old(self).quit ==> self.quit,
                    self.last_beat == old(self).last_beat,
                    remaining@.len() + to_apply@.len() + self.deferred@.len() <= MAX_DEFERRED,
                ensures
                    self.wf(),
                    old(self).quit ==> self.quit,
                    self.last_beat == old(self).last_beat,
                    remaining@.len() <= MAX_DEFERRED,
                    self.deferred@.len() == 0,
                decreases self.deferred@.len(),
            {
                if self.deferred.len() == 0 {
                    break;
                }
                let d = self.deferred.remove(0);
                proof {
                    assert(forall|k: int| 0 <= k < self.scene.lines@.len()
                        ==> (#[trigger] self.scene.lines@[k]).wf_at(k));
                    assert(forall|k: int| 0 <= k < self.scene.lines@.len()
                        ==> (#[trigger] self.scene.lines@[k]).frames_wf());
                }
                if d.should_apply(current_beat, self.last_beat, &self.scene.lines) {
                    to_apply.push(d);
                } else {
                    remaining.push(d);
                }
            }
            self.deferred = remaining;
            loop
                invariant
                    self.wf(),
                    old(self).quit ==> self.quit,
                    self.last_beat == old(self).last_beat,
                ensures
                    self.wf(),
                    old(self).quit ==> self.quit,
                    self.last_beat == old(self).last_beat,
                decreases to_apply@.len(),
            {
                if to_apply.len() == 0 {
                    break;
                }
                let d = to_apply.remove(0);
                let r = self.apply_message(d.action);
                push_error_log(r, date, &mut messages);
            }
        }

        // 4. Locate the current frame of each line; on a boundary, start a
        // new execution at the frame's start date and remember the cell.
        let mut li: usize = 0;
        while li < self.scene.lines.len()
            invariant
                self.wf(),
                old(self).quit ==> self.quit,
                self.last_beat == old(self).last_beat,
                li <= self.scene.lines@.len(),
                forall|l: int| 0 <= l < li
                    ==> (#[trigger] self.scene.lines@[l]).current_frame as int
                        == crate::sched::spec_step_index(
                            self.scene.lines@[l].frames@,
                            self.scene.lines@[l].speed_factor as int,
                            crate::sched::spec_pos_scaled(
                                self.scene.lines@[l], current_beat)),
                forall|a: int, b: int| 0 <= a < b < started@.len()
                    ==> (#[trigger] started@[a]).line < (#[trigger] started@[b]).line,
                forall|k: int| 0 <= k < started@.len()
                    ==> (#[trigger] started@[k]).line < li
                        && started@[k].line < self.scene.lines@.len()
                        && started@[k].frame == self.scene
                            .lines@[started@[k].line as int].current_frame,
            decreases self.scene.lines@.len() - li,
        {
            proof {
                assert(self.scene.lines@[li as int].wf_at(li as int));
            }
            let (idx, start_scaled) = step_index(&self.scene.lines[li], current_beat);
            if idx != self.scene.lines[li].current_frame {
                let sched_date = self.frame_start_date(li, current_beat, start_scaled, date);
                let ghost pre = self.scene.lines@;
                let lmut = &mut self.scene.lines[li];
                lmut.current_frame = idx;
                proof {
                    assert(self.scene.lines@ =~= pre.update(
                        li as int, self.scene.lines@[li as int]));
                    assert forall|k: int| 0 <= k < self.scene.lines@.len()
                        implies (#[trigger] self.scene.lines@[k]).wf_at(k)
                    by {
                        if k != li {
                            assert(self.scene.lines@[k] == pre[k]);
                        }
                    }
                    assert(self.scene.lines@[li as int].frames == pre[li as int].frames);
                }
                self.start_execution(li, idx, sched_date, &mut messages);
                if started.len() < usize::MAX {
                    started.push(FrameStart {
                        line: li,
                        frame: idx,
                        scheduled_date: sched_date,
                    });
                }
            }
            li = li + 1;
        }

        // 5. Pump the live executions.
        self.pump(date, &mut messages);

        self.last_beat = current_beat;
        TickReport { started, messages, quit: self.quit }
    }

    /// The wall-clock date at which the current frame of line `li` began:
    /// the tick date, stepped back by the time the current cycle position
    /// lies past the frame's scaled start.
    fn frame_start_date(&self, li: usize, b: u64, start_scaled: u128, date: SyncTime)
        -> (r: SyncTime)
        requires
            self.wf(),
            li < self.scene.lines@.len(),
        ensures
            r <= date,
    {
        proof {
            assert(self.scene.lines@[li as int].wf_at(li as int));
        }
        let line = &self.scene.lines[li];
        let speed = line.speed_factor;
        let total = line.length();
        proof {
            assert((b as int) * (speed as int)
                <= 0xFFFF_FFFF_FFFF_FFFFu64 * (crate::scene::MAX_SPEED_FACTOR as int))
                by (nonlinear_arith)
                requires
                    b <= 0xFFFF_FFFF_FFFF_FFFFu64,
                    1 <= speed <= crate::scene::MAX_SPEED_FACTOR;
        }
        let pos: u128 = ((b as u128) * (speed as u128)) % total;
        if pos < start_scaled {
            return date;
        }
        let offset_scaled = pos - start_scaled;
        let offset_mb_wide = offset_scaled / (speed as u128);
        let offset_mb = if offset_mb_wide > b as u128 {
            b
        } else {
            offset_mb_wide as u64
        };
        let start_beat = b - offset_mb;
        self.date_at_checked(start_beat, date)
    }

    /// The date of a beat, bounded above by the tick date.
    fn date_at_checked(&self, b: u64, date: SyncTime) -> (r: SyncTime)
        requires
            self.clock.wf(),
        ensures
            r <= date,
    {
        if b <= self.clock.origin_beat {
            if self.clock.origin_date > date {
                return date;
            }
            return self.clock.origin_date;
        }
        let delta = (b - self.clock.origin_beat) as u128;
        proof {
            assert((delta as int) * (self.clock.micros_per_beat as int)
                <= 0xFFFF_FFFF_FFFF_FFFFu64 * (crate::clock::MAX_MICROS_PER_BEAT as int))
                by (nonlinear_arith)
                requires
                    delta <= 0xFFFF_FFFF_FFFF_FFFFu64,
                    self.clock.micros_per_beat <= crate::clock::MAX_MICROS_PER_BEAT;
        }
        let us = (delta * (self.clock.micros_per_beat as u128)
            + ((crate::MICROBEATS_PER_BEAT - 1) as u128))
            / (crate::MICROBEATS_PER_BEAT as u128);
        proof {
            vstd::arithmetic::div_mod::lemma_div_is_ordered(
                us as int,
                0xFFFF_FFFF_FFFF_FFFFu64 * (crate::clock::MAX_MICROS_PER_BEAT as int)
                    + (crate::MICROBEATS_PER_BEAT - 1),
                crate::MICROBEATS_PER_BEAT as int,
            );
        }
        let total = (self.clock.origin_date as u128) + us;
        if total > date as u128 {
            date
        } else {
            total as u64
        }
    }

    /// The execution pump: advance every execution that is due, forward the
    /// events it emits as timed messages at the execution's ready instant,
    /// move the ready instant by the delay it requests (a missing delay is a
    /// tight loop), and drop it once its interpreter terminates.
    fn pump(&mut self, date: SyncTime, messages: &mut Vec<TimedMessage>)
        requires
            old(self).wf(),
        ensures
            final(self).wf(),
            final(self).scene == old(self).scene,
            final(self).clock == old(self).clock,
            final(self).devices == old(self).devices,
            final(self).deferred == old(self).deferred,
            final(self).quit == old(self).quit,
            final(self).last_beat == old(self).last_beat,
            // Messages already queued stay, in order; the pump only appends,
            // so equal due times keep production order through the stable
            // dispatch queue.
            final(messages)@.len() >= old(messages)@.len(),
            final(messages)@.subrange(0, old(messages)@.len() as int) == old(messages)@,
    {
        let mut kept: Vec<Execution> = Vec::new();
        loop
            invariant
                self.wf(),
                self.scene == old(self).scene,
                self.clock == old(self).clock,
                self.devices == old(self).devices,
                self.deferred == old(self).deferred,
                self.quit == old(self).quit,
                self.last_beat == old(self).last_beat,
                kept@.len() + self.executions@.len() <= MAX_EXECUTIONS,
                forall|i: int| 0 <= i < kept@.len() ==> (#[trigger] kept@[i]).wf(),
                messages@.len() >= old(messages)@.len(),
                messages@.subrange(0, old(messages)@.len() as int) == old(messages)@,
            ensures
                self.wf(),
                self.scene == old(self).scene,
                self.clock == old(self).clock,
                self.devices == old(self).devices,
                self.deferred == old(self).deferred,
                self.quit == old(self).quit,
                self.last_beat == old(self).last_beat,
                kept@.len() <= MAX_EXECUTIONS,
                forall|i: int| 0 <= i < kept@.len() ==> (#[trigger] kept@[i]).wf(),
                messages@.len() >= old(messages)@.len(),
                messages@.subrange(0, old(messages)@.len() as int) == old(messages)@,
            decreases self.executions@.len(),
        {
            if self.executions.len() == 0 {
                break;
            }
            let mut exec = self.executions.remove(0);
            if !exec.is_ready(date) {
                kept.push(exec);
                continue;
            }
            let (event, delay) = exec.vm.execute_next(&mut exec.ctx);
            if let Some(ev) = event {
                let due = exec.ready_at;
                let ev = clamp_note_duration(ev, due);
                let mut msgs = self.devices.map_event(ev, due);
                loop
                    invariant
                        messages@.len() >= old(messages)@.len(),
                        messages@.subrange(0, old(messages)@.len() as int)
                            == old(messages)@,
                    ensures
                        messages@.len() >= old(messages)@.len(),
                        messages@.subrange(0, old(messages)@.len() as int)
                            == old(messages)@,
                    decreases msgs@.len(),
                {
                    if msgs.len() == 0 {
                        break;
                    }
                    let m = msgs.remove(0);
                    if messages.len() < usize::MAX {
                        let ghost pre = messages@;
                        messages.push(m);
                        proof {
                            assert(messages@.subrange(0, old(messages)@.len() as int)
                                =~= pre.subrange(0, old(messages)@.len() as int));
                        }
                    }
                }
            }
            if let Some(d) = delay {
                exec.ready_at = if (exec.ready_at as u128) + (d as u128) > u64::MAX as u128 {
                    u64::MAX
                } else {
                    exec.ready_at + d
                };
            }
            if !exec.vm.has_terminated() {
                kept.push(exec);
            }
        }
        self.executions = kept;
    }
}

/// Cut a note's duration so that its key-up date is representable.
fn clamp_note_duration(ev: ConcreteEvent, due: SyncTime) -> (r: ConcreteEvent)
    ensures
        match r {
            ConcreteEvent::MidiNote { duration, .. } => due + duration <= u64::MAX,
            _ => true,
        },
        (ev is MidiNote) == (r is MidiNote),
{
    match ev {
        ConcreteEvent::MidiNote { note, velocity, channel, duration, device_id } => {
            let headroom = u64::MAX - due;
            let d = if duration > headroom {
                headroom
            } else {
                duration
            };
            ConcreteEvent::MidiNote { note, velocity, channel, duration: d, device_id }
        },
        other => other,
    }
}

/// Turn a rejected control message into an error log for the dispatcher.
fn push_error_log(r: Result<(), ErrorKind>, date: SyncTime, messages: &mut Vec<TimedMessage>)
{
    match r {
        Ok(()) => {},
        Err(_) => {
            if messages.len() < usize::MAX {
                messages.push(ProtocolMessage {
                    device_id: LOG_DEVICE_ID,
                    payload: ProtocolPayload::LOG(LogMessage::error(
                        String::from_str("control message rejected"),
                    )),
                }.timed(date));
            }
        },
    }
}

} // verus!
