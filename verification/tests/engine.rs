//! End-to-end tests of the engine core: the clock's conversions, the scene
//! model, frame location, deferred timings, the device map, the dispatcher,
//! the virtual machine, the dummy language, and the control-message codec.

use bubocore::clock::Clock;
use bubocore::codec::{encode_message, parse_message};
use bubocore::device::{DeviceKind, DeviceMap, LOG_DEVICE_ID};
use bubocore::dispatch::{delivery_action, DeliveryAction, DispatchQueue, NoteTracker,
    QueueEntry};
use bubocore::boinx::{execute_boinx_function, BoinxIdent, BoinxIdentQualif, BoinxItem};
use bubocore::clock::PeerState;
use bubocore::config::{Config, EditorConfig, ServerConfig};
use bubocore::interp::{apply_external_actions, split_at_sentinel, ExternalAction};
use bubocore::protocol::ntp_of_micros;
use bubocore::ui::{EditorData, Flash};
use bubocore::dummylang::{compile, compile_script, Inst, Prog};
use bubocore::text::parse_beats;
use bubocore::logger::{Logger, LoggerMode, TerminalStream};
use bubocore::protocol::{ConcreteEvent, MIDIMessage, MIDIMessageType, ProtocolMessage,
    ProtocolPayload, Severity, TimedMessage};
use bubocore::scene::{Frame, Line, Scene, Script};
use bubocore::sched::{step_index, ActionTiming, ClockCommand, DeferredAction,
    SchedulerMessage};
use bubocore::scheduler::Scheduler;
use bubocore::ui::Page;
use bubocore::vm::{binop, BinOp, ControlASM, EnvironmentFunc, EvaluationContext, StackVM,
    Variable, VariableValue};
use bubocore::ErrorKind;

fn dummy_script(content: &str) -> Script {
    Script {
        lang: String::from("dummy"),
        content: String::from(content),
        args: Vec::new(),
    }
}

// The clock's linear mapping: date to beat and back (tempo constant).
#[test]
fn clock_beat_date_roundtrip() {
    let mut clock = Clock::new(1_000_000);
    assert!(clock.set_tempo(500_000)); // 120 beats per minute
    // One beat after the origin is half a second later.
    assert_eq!(clock.date_at_beat(1_000_000), 1_500_000);
    // An arbitrary date survives the round trip.
    for t in [1_000_000u64, 1_000_001, 1_234_567, 2_000_000, 9_999_999] {
        let b = clock.beat_at_date(t);
        assert_eq!(clock.date_at_beat(b), t);
    }
}

#[test]
fn clock_rejects_out_of_range_tempo() {
    let mut clock = Clock::new(0);
    assert!(!clock.set_tempo(10)); // faster than a thousand beats per minute
    assert!(!clock.set_quantum(0));
    assert!(clock.set_quantum(4_000_000));
}

#[test]
fn clock_play_pause_and_reset() {
    let mut clock = Clock::new(5_000);
    assert!(!clock.is_playing);
    clock.play_pause();
    assert!(clock.is_playing);
    clock.reset_beat();
    assert_eq!(clock.origin_beat, 0);
    assert_eq!(clock.origin_date, 5_000);
}

// The frame-length override: a `len` argument in beats, fixed-point.
#[test]
fn frame_len_reads_script_argument() {
    let mut script = dummy_script("N 60 1 1");
    script.args.push((String::from("len"), String::from("2.5")));
    let frame = Frame::new(script);
    assert_eq!(frame.frame_len(), 2_500_000);

    let plain = Frame::new(dummy_script("N 60 1 1"));
    assert_eq!(plain.frame_len(), 1_000_000);

    let mut bad = dummy_script("N 60 1 1");
    bad.args.push((String::from("len"), String::from("x2")));
    let fallback = Frame::new(bad);
    assert_eq!(fallback.frame_len(), 1_000_000);
}

#[test]
fn scene_grows_and_renumbers() {
    let mut scene = Scene { lines: Vec::new() };
    scene.set_line(2, Line::default_line());
    assert_eq!(scene.n_lines(), 3);
    for (i, line) in scene.lines().iter().enumerate() {
        assert_eq!(line.index, i);
    }
    scene.remove_line(1);
    assert_eq!(scene.n_lines(), 2);
    assert_eq!(scene.lines()[1].index, 1);
    scene.insert_line(1, Line::default_line());
    assert_eq!(scene.n_lines(), 3);
    assert_eq!(scene.lines()[2].index, 2);
    assert_eq!(scene.get_frames_positions(), vec![0, 0, 0]);
}

// Locating the current frame of a line: the interval property, and the
// later frame winning an exact boundary.
#[test]
fn step_index_interval_and_boundary() {
    let mut line = Line::default_line();
    line.frames.push(Frame::new(dummy_script("N 61 1 1")));
    line.make_consistent();
    // Mid first frame.
    let (idx, start) = step_index(&line, 500_000);
    assert_eq!(idx, 0);
    assert_eq!(start, 0);
    // Exactly on the boundary: the later frame wins.
    let (idx, start) = step_index(&line, 1_000_000);
    assert_eq!(idx, 1);
    assert_eq!(start, 1_000_000u128 * 1_000_000u128);
    // Wrapped past the cycle's end.
    let (idx, _) = step_index(&line, 2_500_000);
    assert_eq!(idx, 0);
}

// Deferred timings: at-beat fires at the beat, end-of-line on the wrap.
#[test]
fn at_beat_fires_exactly_at_target() {
    let lines = vec![Line::default_line()];
    let d = DeferredAction::new(SchedulerMessage::KillAll, ActionTiming::AtBeat(8_000_000));
    assert!(!d.should_apply(3_500_000, 3_000_000, &lines));
    assert!(!d.should_apply(7_999_999, 7_500_000, &lines));
    assert!(d.should_apply(8_000_000, 7_500_000, &lines));
    assert!(d.should_apply(9_000_000, 8_500_000, &lines));
}

#[test]
fn end_of_line_fires_on_wrap() {
    let lines = vec![Line::default_line()]; // cycle of one beat
    let d = DeferredAction::new(SchedulerMessage::KillAll, ActionTiming::EndOfLine(0));
    // Mid-cycle, no wrap: previous position is before the current one.
    assert!(!d.should_apply(700_000, 400_000, &lines));
    // The cycle wrapped: the previous position exceeds the current one.
    assert!(d.should_apply(1_100_000, 900_000, &lines));
}

// The scheduler's frame boundaries: half a second at 120 beats per minute
// crosses exactly one boundary of a two-frame line.
#[test]
fn tick_crosses_one_boundary() {
    let t0 = 1_000_000u64;
    let mut sched = Scheduler::new(t0);
    // Default tempo is 120 beats per minute. Build one line of two frames.
    let inbox = vec![SchedulerMessage::SetScript {
        line: 0,
        frame: 1,
        script: dummy_script("N 60 1 1"),
        timing: ActionTiming::Immediate,
    }];
    let report = sched.tick(t0, None, inbox);
    assert!(!report.quit);
    assert_eq!(report.started.len(), 0);
    assert_eq!(sched.scene.n_lines(), 1);
    assert_eq!(sched.scene.lines()[0].frames.len(), 2);

    // Half a second later the beat is past one, inside the second frame.
    let report = sched.tick(t0 + 500_000, None, Vec::new());
    assert_eq!(report.started.len(), 1);
    assert_eq!(report.started[0].line, 0);
    assert_eq!(report.started[0].frame, 1);

    // A moment later, still inside the same frame: nothing new starts.
    let report = sched.tick(t0 + 600_000, None, Vec::new());
    assert_eq!(report.started.len(), 0);
}

// A deferred script replacement takes effect at the start of the next
// cycle, not mid-frame.
#[test]
fn set_script_at_end_of_line_waits_for_wrap() {
    let t0 = 1_000_000u64;
    let mut sched = Scheduler::new(t0);
    let setup = vec![SchedulerMessage::SetScript {
        line: 0,
        frame: 1,
        script: dummy_script("N 60 1 1"),
        timing: ActionTiming::Immediate,
    }];
    sched.tick(t0, None, setup);

    // Submit the replacement during frame zero, deferred to the line's end.
    let submit = vec![SchedulerMessage::SetScript {
        line: 0,
        frame: 0,
        script: dummy_script("N 61 1 1"),
        timing: ActionTiming::EndOfLine(0),
    }];
    sched.tick(t0 + 250_000, None, submit);
    // Still mid-cycle: the old (empty) script is in place.
    assert_eq!(sched.scene.get_frame(0, 0).unwrap().script.content, "");
    sched.tick(t0 + 900_000, None, Vec::new());
    assert_eq!(sched.scene.get_frame(0, 0).unwrap().script.content, "");
    // Past the wrap of the two-beat cycle, the replacement applies.
    sched.tick(t0 + 1_100_000, None, Vec::new());
    assert_eq!(sched.scene.get_frame(0, 0).unwrap().script.content, "N 61 1 1");
}

// A rejected control message becomes an error log, and the scheduler
// survives.
#[test]
fn rejected_message_logs_and_continues() {
    let t0 = 0u64;
    let mut sched = Scheduler::new(t0);
    let inbox = vec![SchedulerMessage::SetScript {
        line: 0,
        frame: 0,
        script: dummy_script("this is not a script"),
        timing: ActionTiming::Immediate,
    }];
    let report = sched.tick(t0, None, inbox);
    assert!(!report.quit);
    assert_eq!(report.messages.len(), 1);
    match &report.messages[0].message.payload {
        ProtocolPayload::LOG(m) => assert!(matches!(m.level, Severity::Error)),
        _ => panic!("expected a log payload"),
    }
}

#[test]
fn quit_request_ends_the_loop() {
    let mut sched = Scheduler::new(0);
    let report = sched.tick(0, None, vec![SchedulerMessage::Quit]);
    assert!(report.quit);
}

// Device identifiers are stable across disconnects and returns.
#[test]
fn device_ids_survive_unplug_and_return() {
    let mut map = DeviceMap::new();
    let id = map.register_output_connection(&String::from("synth"), DeviceKind::Midi);
    assert!(map.is_connected(id));

    // The device disappears: the connection goes, the identifier stays.
    map.disconnect_output(id).unwrap();
    assert!(!map.is_connected(id));

    let outs = vec![String::from("synth")];
    let ins: Vec<String> = Vec::new();
    let listed = map.device_list(&outs, &ins);
    let entry = listed.iter().find(|d| d.name == "synth").unwrap();
    assert_eq!(entry.id, id);
    assert!(!entry.is_connected);

    // It returns and is reconnected under the same identifier.
    let id2 = map.register_output_connection(&String::from("synth"), DeviceKind::Midi);
    assert_eq!(id2, id);
    let listed = map.device_list(&outs, &ins);
    let entry = listed.iter().find(|d| d.name == "synth").unwrap();
    assert_eq!(entry.id, id);
    assert!(entry.is_connected);
}

#[test]
fn device_list_is_sorted_and_has_log() {
    let mut map = DeviceMap::new();
    let outs = vec![String::from("b"), String::from("a")];
    let ins = vec![String::from("c")];
    let listed = map.device_list(&outs, &ins);
    assert!(listed.iter().any(|d| d.id == LOG_DEVICE_ID && d.is_connected));
    for w in listed.windows(2) {
        assert!(w[0].id < w[1].id);
    }
    assert!(listed.iter().any(|d| d.name == "a"));
    assert!(listed.iter().any(|d| d.name == "b"));
    assert!(listed.iter().any(|d| d.name == "c"));
}

// The slot table is injective: one device per slot, one slot per device.
#[test]
fn slot_assignment_conflicts() {
    let mut map = DeviceMap::new();
    assert!(map.assign_device_to_slot(1, &String::from("a")).is_ok());
    // Re-assigning the same binding is a no-op.
    assert!(map.assign_device_to_slot(1, &String::from("a")).is_ok());
    // The slot is taken by a different device.
    assert_eq!(map.assign_device_to_slot(1, &String::from("b")),
        Err(ErrorKind::SlotConflict));
    // The device already holds another slot: direct moves are rejected.
    assert_eq!(map.assign_device_to_slot(2, &String::from("a")),
        Err(ErrorKind::SlotConflict));
    // Slot zero and slots beyond the range are invalid.
    assert_eq!(map.assign_device_to_slot(0, &String::from("c")),
        Err(ErrorKind::InvalidArgument));
    assert_eq!(map.assign_device_to_slot(17, &String::from("c")),
        Err(ErrorKind::InvalidArgument));
    // Unassign, then the move is allowed.
    assert!(map.unassign_device_from_slot(1).is_ok());
    assert!(map.assign_device_to_slot(2, &String::from("a")).is_ok());
}

#[test]
fn disconnect_unknown_device_fails() {
    let mut map = DeviceMap::new();
    assert_eq!(map.disconnect_output(999), Err(ErrorKind::DeviceNotFound));
}

#[test]
fn virtual_output_rejects_taken_names() {
    let mut map = DeviceMap::new();
    let system: Vec<String> = vec![String::from("hw")];
    let id = map.create_virtual_midi_output(&String::from("v1"), &system).unwrap();
    assert!(map.is_connected(id));
    assert_eq!(map.create_virtual_midi_output(&String::from("v1"), &system),
        Err(ErrorKind::InvalidArgument));
    assert_eq!(map.create_virtual_midi_output(&String::from("hw"), &system),
        Err(ErrorKind::InvalidArgument));
}

// A note event becomes a key-down at its date and a key-up one duration
// later.
#[test]
fn note_event_makes_two_timed_messages() {
    let mut map = DeviceMap::new();
    let id = map.register_output_connection(&String::from("synth"), DeviceKind::Midi);
    let t = 10_000_000u64;
    let msgs = map.map_event(ConcreteEvent::MidiNote {
        note: 60,
        velocity: 100,
        channel: 1,
        duration: 200_000,
        device_id: id,
    }, t);
    assert_eq!(msgs.len(), 2);
    assert_eq!(msgs[0].time, t);
    assert_eq!(msgs[1].time, t + 200_000);
    match &msgs[0].message.payload {
        ProtocolPayload::MIDI(m) => {
            assert_eq!(m.channel, 0);
            assert!(matches!(m.payload,
                MIDIMessageType::NoteOn { note: 60, velocity: 100 }));
            assert_eq!(m.encode(), vec![0x90, 60, 100]);
        },
        _ => panic!("expected a MIDI payload"),
    }
    match &msgs[1].message.payload {
        ProtocolPayload::MIDI(m) => {
            assert!(matches!(m.payload,
                MIDIMessageType::NoteOff { note: 60, velocity: 0 }));
            assert_eq!(m.encode(), vec![0x80, 60, 0]);
        },
        _ => panic!("expected a MIDI payload"),
    }
}

#[test]
fn unknown_device_event_routes_error_to_log() {
    let map = DeviceMap::new();
    let msgs = map.map_event(ConcreteEvent::MidiStart { device_id: 42 }, 5);
    assert_eq!(msgs.len(), 1);
    assert_eq!(msgs[0].message.device_id, LOG_DEVICE_ID);
    match &msgs[0].message.payload {
        ProtocolPayload::LOG(m) => {
            assert!(matches!(m.level, Severity::Error));
            assert_eq!(m.msg, "unable to find target device 42");
        },
        _ => panic!("expected a log payload"),
    }
}

#[test]
fn midi_wire_bytes() {
    let cases: Vec<(MIDIMessageType, u8, Vec<u8>)> = vec![
        (MIDIMessageType::ControlChange { control: 7, value: 99 }, 2, vec![0xB2, 7, 99]),
        (MIDIMessageType::ProgramChange { program: 12 }, 0, vec![0xC0, 12]),
        (MIDIMessageType::Aftertouch { note: 60, value: 10 }, 1, vec![0xA1, 60, 10]),
        (MIDIMessageType::ChannelPressure { value: 33 }, 3, vec![0xD3, 33]),
        (MIDIMessageType::Start, 0, vec![0xFA]),
        (MIDIMessageType::Stop, 0, vec![0xFC]),
        (MIDIMessageType::Continue, 0, vec![0xFB]),
        (MIDIMessageType::Clock, 0, vec![0xF8]),
        (MIDIMessageType::Reset, 0, vec![0xFF]),
        (MIDIMessageType::SystemExclusive { data: vec![1, 2, 3] }, 0,
            vec![0xF0, 1, 2, 3, 0xF7]),
    ];
    for (payload, channel, wire) in cases {
        let m = MIDIMessage { payload, channel };
        assert_eq!(m.encode(), wire);
    }
}

// Same due time leaves the queue in submission order.
#[test]
fn equal_due_times_keep_submission_order() {
    let mut q = DispatchQueue::new();
    let t = 1_000u64;
    let a = ProtocolMessage {
        device_id: 1,
        payload: ProtocolPayload::LOG(bubocore::protocol::LogMessage::info(
            String::from("a"))),
    }.timed(t);
    let b = ProtocolMessage {
        device_id: 2,
        payload: ProtocolPayload::LOG(bubocore::protocol::LogMessage::info(
            String::from("b"))),
    }.timed(t);
    q.push(a);
    q.push(b);
    let first: QueueEntry = q.pop().unwrap();
    let second: QueueEntry = q.pop().unwrap();
    assert_eq!(first.msg.message.device_id, 1);
    assert_eq!(second.msg.message.device_id, 2);
    assert!(q.pop().is_none());
}

#[test]
fn queue_orders_by_due_time() {
    let mut q = DispatchQueue::new();
    for (id, t) in [(1usize, 500u64), (2, 100), (3, 300)] {
        q.push(ProtocolMessage {
            device_id: id,
            payload: ProtocolPayload::LOG(bubocore::protocol::LogMessage::info(
                String::new())),
        }.timed(t));
    }
    assert_eq!(q.next_due(), Some(100));
    assert_eq!(q.pop().unwrap().msg.message.device_id, 2);
    assert_eq!(q.pop().unwrap().msg.message.device_id, 3);
    assert_eq!(q.pop().unwrap().msg.message.device_id, 1);
}

#[test]
fn late_messages_are_dropped_within_grace() {
    assert_eq!(delivery_action(2_000, 1_000, 1_000), DeliveryAction::Wait);
    assert_eq!(delivery_action(1_000, 1_000, 1_000), DeliveryAction::Deliver);
    assert_eq!(delivery_action(500, 1_000, 1_000), DeliveryAction::Deliver);
    assert_eq!(delivery_action(500, 1_600, 1_000), DeliveryAction::DropLate);
}

// Closing a device releases every held note.
#[test]
fn close_releases_active_notes() {
    let mut tracker = NoteTracker::new();
    tracker.apply(&MIDIMessage {
        payload: MIDIMessageType::NoteOn { note: 60, velocity: 100 },
        channel: 0,
    });
    tracker.apply(&MIDIMessage {
        payload: MIDIMessageType::NoteOn { note: 64, velocity: 90 },
        channel: 1,
    });
    tracker.apply(&MIDIMessage {
        payload: MIDIMessageType::NoteOn { note: 67, velocity: 80 },
        channel: 0,
    });
    // One of them is released by a key-up, one by a zero-velocity key-down.
    tracker.apply(&MIDIMessage {
        payload: MIDIMessageType::NoteOff { note: 60, velocity: 0 },
        channel: 0,
    });
    tracker.apply(&MIDIMessage {
        payload: MIDIMessageType::NoteOn { note: 64, velocity: 0 },
        channel: 1,
    });
    let offs = tracker.close();
    assert_eq!(offs.len(), 1);
    assert!(matches!(offs[0].payload, MIDIMessageType::NoteOff { note: 67, velocity: 0 }));
    assert_eq!(offs[0].channel, 0);
    assert_eq!(tracker.close().len(), 0);
}

// The control codec: serialize, parse, compare.
fn roundtrip(m: SchedulerMessage) -> SchedulerMessage {
    let encoded = encode_message(&m);
    parse_message(&encoded).expect("the canonical form must parse")
}

#[test]
fn codec_roundtrip_set_script() {
    let mut script = Script {
        lang: String::from("dummy"),
        content: String::from("N 60 1 1, with 7:colons and , commas"),
        args: Vec::new(),
    };
    script.args.push((String::from("len"), String::from("2.5")));
    script.args.push((String::from("mode"), String::from("loud")));
    let m = SchedulerMessage::SetScript {
        line: 3,
        frame: 7,
        script,
        timing: ActionTiming::EndOfLine(0),
    };
    match roundtrip(m) {
        SchedulerMessage::SetScript { line, frame, script, timing } => {
            assert_eq!(line, 3);
            assert_eq!(frame, 7);
            assert_eq!(script.lang, "dummy");
            assert_eq!(script.content, "N 60 1 1, with 7:colons and , commas");
            assert_eq!(script.args.len(), 2);
            assert_eq!(script.args[0].0, "len");
            assert_eq!(script.args[0].1, "2.5");
            assert_eq!(script.args[1].0, "mode");
            assert_eq!(script.args[1].1, "loud");
            assert!(matches!(timing, ActionTiming::EndOfLine(0)));
        },
        _ => panic!("wrong variant after the round trip"),
    }
}

#[test]
fn codec_roundtrip_all_variants() {
    let msgs = vec![
        SchedulerMessage::SetSpeedFactor {
            line: 1,
            factor: 2_000_000,
            timing: ActionTiming::AtBeat(8_000_000),
        },
        SchedulerMessage::InsertLine { at: 4, timing: ActionTiming::Immediate },
        SchedulerMessage::RemoveLine { line: 2, timing: ActionTiming::Immediate },
        SchedulerMessage::AssignDeviceToSlot { slot: 3, name: String::from("synth") },
        SchedulerMessage::UnassignDeviceFromSlot { slot: 3 },
        SchedulerMessage::ConnectDeviceByName { name: String::from("a b c") },
        SchedulerMessage::DisconnectDeviceByName { name: String::new() },
        SchedulerMessage::CreateVirtualMidiOutput { name: String::from("v:1,2") },
        SchedulerMessage::ClockCommand(ClockCommand::SetTempo(500_000)),
        SchedulerMessage::ClockCommand(ClockCommand::SetQuantum(4_000_000)),
        SchedulerMessage::ClockCommand(ClockCommand::PlayPause),
        SchedulerMessage::ClockCommand(ClockCommand::ResetBeat),
        SchedulerMessage::ClockCommand(ClockCommand::SetStartStopSync(true)),
        SchedulerMessage::KillAll,
        SchedulerMessage::Quit,
    ];
    for m in msgs {
        let encoded = encode_message(&m);
        let back = parse_message(&encoded).expect("the canonical form must parse");
        assert_eq!(encode_message(&back), encoded);
    }
}

#[test]
fn codec_rejects_garbage() {
    let garbage: Vec<char> = "hello world".chars().collect();
    assert!(parse_message(&garbage).is_none());
    let empty: Vec<char> = Vec::new();
    assert!(parse_message(&empty).is_none());
    let truncated: Vec<char> = "10:set_script3,".chars().collect();
    assert!(parse_message(&truncated).is_none());
}

// The dummy language: compile, disassemble, compile again.
#[test]
fn dummy_compile_reads_statements() {
    let p = compile("N 60 1 1").unwrap();
    assert_eq!(p.instructions.len(), 1);
    match &p.instructions[0] {
        Inst::EventPlayNote(nums) => assert_eq!(nums, &vec![60, 1, 1]),
        _ => panic!("expected a note statement"),
    }
    let p = compile("N 60 1 1 C 1 2 3 100 4 5 A 7 8 9 1 1").unwrap();
    assert_eq!(p.instructions.len(), 3);
    match &p.instructions[1] {
        Inst::EventPlayChord(nums) => assert_eq!(nums, &vec![1, 2, 3, 100, 4, 5]),
        _ => panic!("expected a chord statement"),
    }
    match &p.instructions[2] {
        Inst::EventPlayArpeggio(nums) => assert_eq!(nums, &vec![7, 8, 9, 1, 1]),
        _ => panic!("expected an arpeggio statement"),
    }
}

#[test]
fn dummy_compile_rejects_bad_text() {
    assert!(compile("X 1 2 3").is_err());
    assert!(compile("N").is_err());
    assert!(compile("N 1 2 3 4").is_err());
    assert!(compile("C 1 2").is_err());
    assert!(compile("1 2 3").is_err());
}

#[test]
fn dummy_disassemble_compiles_back() {
    let text = "N 60 1 1 C 1 2 3 100 4 5 A 7 8 9 1 1 N 72";
    let p = compile(text).unwrap();
    let printed = p.disassemble();
    assert_eq!(printed, text);
    let again = compile(&printed).unwrap();
    assert_eq!(again.instructions.len(), p.instructions.len());
    for (a, b) in p.instructions.iter().zip(again.instructions.iter()) {
        match (a, b) {
            (Inst::EventPlayNote(x), Inst::EventPlayNote(y)) => assert_eq!(x, y),
            (Inst::EventPlayChord(x), Inst::EventPlayChord(y)) => assert_eq!(x, y),
            (Inst::EventPlayArpeggio(x), Inst::EventPlayArpeggio(y)) => assert_eq!(x, y),
            _ => panic!("statement kinds differ after the round trip"),
        }
    }
}

#[test]
fn dummy_prog_builders() {
    let mut p = Prog::new(Inst::EventPlayNote(vec![60, 1, 1]));
    p.add_instruction(Inst::EventPlayNote(vec![62, 1, 1]));
    assert_eq!(p.instructions.len(), 2);
    // Two notes assemble to eight machine instructions each.
    let program = compile_script(&dummy_script("N 60 1 1 N 62 1 1")).unwrap();
    assert_eq!(program.len(), 16);
}

// The virtual machine: a compiled note plays and then rests.
#[test]
fn vm_plays_a_note() {
    let program = compile_script(&dummy_script("N 60 2 3")).unwrap();
    let mut vm = StackVM::new(program);
    let mut ctx = EvaluationContext::new(500_000, 1_000_000);
    let mut event = None;
    let mut delay = None;
    for _ in 0..32 {
        let (e, d) = vm.execute_next(&mut ctx);
        if e.is_some() {
            event = e;
        }
        if d.is_some() {
            delay = d;
        }
        if vm.has_terminated() {
            break;
        }
    }
    match event.expect("the note must be emitted") {
        ConcreteEvent::MidiNote { note, velocity, channel, duration, device_id } => {
            assert_eq!(note, 60);
            assert_eq!(velocity, 100);
            assert_eq!(channel, 1);
            assert_eq!(duration, 200_000);
            assert_eq!(device_id, 0);
        },
        _ => panic!("expected a note event"),
    }
    assert_eq!(delay, Some(300_000));
}

#[test]
fn vm_variables_and_scopes() {
    let program: Vec<ControlASM> = vec![
        ControlASM::Push(Variable::Value(VariableValue::Int(41))),
        ControlASM::Push(Variable::Value(VariableValue::Int(1))),
        ControlASM::BinaryOp(BinOp::Add),
        ControlASM::Pop(Variable::Instance(String::from("x"))),
        ControlASM::Push(Variable::Instance(String::from("x"))),
    ];
    let mut vm = StackVM::new(program);
    let mut ctx = EvaluationContext::new(500_000, 1_000_000);
    for _ in 0..5 {
        vm.execute_next(&mut ctx);
    }
    assert_eq!(ctx.stack.len(), 1);
    assert!(matches!(ctx.stack[0], VariableValue::Int(42)));
}

#[test]
fn vm_runtime_fault_stops_the_machine() {
    let program: Vec<ControlASM> = vec![ControlASM::BinaryOp(BinOp::Add)];
    let mut vm = StackVM::new(program);
    let mut ctx = EvaluationContext::new(500_000, 1_000_000);
    let (e, d) = vm.execute_next(&mut ctx);
    assert!(e.is_none() && d.is_none());
    assert!(vm.has_terminated());
}

#[test]
fn binop_saturates() {
    match binop(BinOp::Add, &VariableValue::Int(i64::MAX), &VariableValue::Int(1)) {
        VariableValue::Int(x) => assert_eq!(x, i64::MAX),
        _ => panic!("expected an integer"),
    }
    match binop(BinOp::Mul, &VariableValue::Int(i64::MIN), &VariableValue::Int(2)) {
        VariableValue::Int(x) => assert_eq!(x, i64::MIN),
        _ => panic!("expected an integer"),
    }
    match binop(BinOp::Div, &VariableValue::Int(7), &VariableValue::Int(0)) {
        VariableValue::Int(x) => assert_eq!(x, 0),
        _ => panic!("expected an integer"),
    }
    match binop(BinOp::Div, &VariableValue::Int(-7), &VariableValue::Int(2)) {
        VariableValue::Int(x) => assert_eq!(x, -3),
        _ => panic!("expected an integer"),
    }
}

// The random environment functions stay within their documented ranges.
#[test]
fn environment_functions_in_range() {
    let ctx = EvaluationContext::new(500_000, 2_000_000);
    match EnvironmentFunc::GetTempo.execute(&ctx) {
        VariableValue::Int(x) => assert_eq!(x, 500_000),
        _ => panic!("expected an integer"),
    }
    match EnvironmentFunc::FrameLen.execute(&ctx) {
        VariableValue::Int(x) => assert_eq!(x, 2_000_000),
        _ => panic!("expected an integer"),
    }
    for _ in 0..64 {
        match EnvironmentFunc::RandomU8.execute(&ctx) {
            VariableValue::Int(x) => assert!(0 <= x && x < 256),
            _ => panic!("expected an integer"),
        }
        match EnvironmentFunc::RandomFix.execute(&ctx) {
            VariableValue::Fix(x) => assert!(0 <= x && x < 1_000_000),
            _ => panic!("expected a fixed-point value"),
        }
    }
}

#[test]
fn boinx_functions() {
    let ctx = EvaluationContext::new(500_000, 1_000_000);
    let args = vec![BoinxItem::Note(1), BoinxItem::Note(2), BoinxItem::Note(3)];
    match execute_boinx_function(&ctx, &String::from("choice"), args) {
        BoinxItem::Note(x) => assert!(x == 1 || x == 2 || x == 3),
        _ => panic!("choice must return one of its arguments"),
    }
    let args = vec![BoinxItem::Note(5), BoinxItem::Note(6)];
    match execute_boinx_function(&ctx, &String::from("shuffle"), args) {
        BoinxItem::Sequence(items) => {
            let mut notes: Vec<i64> = items.iter().map(|i| match i {
                BoinxItem::Note(x) => *x,
                _ => panic!("unexpected item"),
            }).collect();
            notes.sort();
            assert_eq!(notes, vec![5, 6]);
        },
        _ => panic!("shuffle must return a sequence"),
    }
    match execute_boinx_function(&ctx, &String::from("range"),
        vec![BoinxItem::Note(2), BoinxItem::Note(5)]) {
        BoinxItem::Sequence(items) => assert_eq!(items.len(), 3),
        _ => panic!("range must return a sequence"),
    }
}

#[test]
fn logger_routes_by_mode() {
    let mut logger = Logger::new_standalone();
    let d = logger.log(Severity::Error, String::from("boom"));
    assert_eq!(d.terminal, Some(TerminalStream::Failures));
    assert!(!d.to_host);
    assert!(d.notification.is_none());

    logger.set_embedded_mode();
    let d = logger.info(String::from("hello"));
    assert!(d.terminal.is_none());
    assert!(d.to_host);

    logger.set_dual_mode();
    assert!(matches!(logger.mode, LoggerMode::Dual));
    let d = logger.warn(String::from("careful"));
    assert_eq!(d.terminal, Some(TerminalStream::Ordinary));
    let n: TimedMessage = d.notification.expect("dual mode broadcasts");
    assert_eq!(n.time, 0);
    assert_eq!(n.message.device_id, LOG_DEVICE_ID);

    logger.set_standalone_mode();
    assert!(matches!(logger.mode, LoggerMode::Standalone));
}

#[test]
fn pages_walk_the_map() {
    let mut p = Page::Scene;
    p.right();
    assert_eq!(p, Page::Edit);
    p.down();
    assert_eq!(p, Page::Vars);
    p.left();
    assert_eq!(p, Page::Logs);
    p.up();
    assert_eq!(p, Page::Scene);
}

#[test]
fn frames_split_on_terminator() {
    let buf: Vec<u8> = vec![1, 2, 0x07, 3, 0x07, 4, 5];
    let (frames, tail) = bubocore::server::split_frames(&buf);
    assert_eq!(frames.len(), 2);
    assert_eq!(frames[0], vec![1, 2]);
    assert_eq!(frames[1], vec![3]);
    assert_eq!(tail, vec![4, 5]);
}

#[test]
fn parse_beats_grammar() {
    let chars = |s: &str| -> Vec<char> { s.chars().collect() };
    assert_eq!(parse_beats(&chars("1")), Some(1_000_000));
    assert_eq!(parse_beats(&chars("2.5")), Some(2_500_000));
    assert_eq!(parse_beats(&chars("0.000001")), Some(1));
    assert_eq!(parse_beats(&chars("")), None);
    assert_eq!(parse_beats(&chars("1.2345678")), None);
    assert_eq!(parse_beats(&chars(".5")), None);
    assert_eq!(parse_beats(&chars("2.")), None);
    assert_eq!(parse_beats(&chars("x")), None);
}

#[test]
fn pump_delivers_note_messages() {
    let t0 = 1_000_000u64;
    let mut sched = Scheduler::new(t0);
    // Route the dummy language's notes (device zero is the log device, so
    // the pump renders them as log messages).
    let inbox = vec![SchedulerMessage::SetScript {
        line: 0,
        frame: 1,
        script: dummy_script("N 60 1 1"),
        timing: ActionTiming::Immediate,
    }];
    sched.tick(t0, None, inbox);
    // Cross the boundary into the scripted frame, then pump it.
    let mut produced = Vec::new();
    for k in 1..30u64 {
        let report = sched.tick(t0 + 500_000 + k * 1_000, None, Vec::new());
        for m in report.messages {
            produced.push(m);
        }
    }
    assert!(produced.iter().any(|m| matches!(
        &m.message.payload,
        ProtocolPayload::LOG(l) if l.msg.starts_with("midi note 60")
    )));
}

#[test]
fn ntp_timetag_formula() {
    // A whole second: the seconds part carries the epoch offset, no fraction.
    assert_eq!(ntp_of_micros(1_000_000), (1 + 2_208_988_800, 0));
    // Half a second of remainder is half the fractional range.
    let (_, frac) = ntp_of_micros(1_500_000);
    assert_eq!(frac, 1u64.wrapping_shl(31) as u32);
}

#[test]
fn clock_adopts_peer_snapshot() {
    let mut clock = Clock::new(1_000);
    clock.set_start_stop_sync(true);
    clock.capture_app_state(5_000, Some(PeerState {
        micros_per_beat: 600_000,
        anchor_beat: 2_000_000,
        anchor_date: 4_000,
        is_playing: true,
    }));
    assert_eq!(clock.micros(), 5_000);
    assert_eq!(clock.tempo(), 600_000);
    assert!(clock.is_playing);
    assert_eq!(clock.origin_beat, 2_000_000);
}

#[test]
fn editor_counts_lines() {
    let mut editor = EditorData::new();
    assert_eq!(editor.line_count, 1);
    editor.set_content(String::from("a\nb\nc"));
    assert_eq!(editor.line_count, 3);
    editor.set_content(String::new());
    assert_eq!(editor.line_count, 1);
}

#[test]
fn flash_runs_its_course() {
    let mut flash = Flash::new();
    flash.start(1_000);
    flash.advance(100_000);
    assert!(flash.is_flashing);
    flash.advance(300_000);
    assert!(!flash.is_flashing);
}

#[test]
fn boinx_identifier_markers() {
    let plain = BoinxIdent::from_text("melody");
    assert_eq!(plain.qualifier, BoinxIdentQualif::LocalVar);
    assert_eq!(plain.name, "melody");
    let envf = BoinxIdent::from_text("_tempo");
    assert_eq!(envf.qualifier, BoinxIdentQualif::EnvFunc);
    assert_eq!(envf.name, "tempo");
    let seqv = BoinxIdent::from_text("\u{a7}shared");
    assert_eq!(seqv.qualifier, BoinxIdentQualif::SeqVar);
    assert_eq!(seqv.name, "shared");
}

#[test]
fn sentinel_splits_external_output() {
    let buf: Vec<u8> = vec![10, 20, 7, 30];
    let (step, rest) = split_at_sentinel(&buf).unwrap();
    assert_eq!(step, vec![10, 20]);
    assert_eq!(rest, vec![30]);
    let unfinished: Vec<u8> = vec![10, 20];
    assert!(split_at_sentinel(&unfinished).is_none());
}

#[test]
fn external_actions_apply_in_order() {
    let mut ctx = EvaluationContext::new(500_000, 1_000_000);
    let actions = vec![
        ExternalAction::Var(Variable::Instance(String::from("x")),
            VariableValue::Int(5)),
        ExternalAction::Delay(1_000),
        ExternalAction::Event(ConcreteEvent::MidiStart { device_id: 0 }),
        ExternalAction::Delay(2_000),
        ExternalAction::Terminate,
    ];
    let step = apply_external_actions(&mut ctx, actions);
    assert!(matches!(step.event, Some(ConcreteEvent::MidiStart { device_id: 0 })));
    assert_eq!(step.delay, Some(2_000));
    assert!(step.terminate);
    assert!(matches!(ctx.resolve(&String::from("x")), VariableValue::Int(5)));
}

#[test]
fn kill_all_drops_every_execution() {
    let t0 = 1_000_000u64;
    let mut sched = Scheduler::new(t0);
    let inbox = vec![SchedulerMessage::SetScript {
        line: 0,
        frame: 1,
        script: dummy_script("N 60 9 9"),
        timing: ActionTiming::Immediate,
    }];
    sched.tick(t0, None, inbox);
    sched.tick(t0 + 500_000, None, Vec::new());
    assert_eq!(sched.executions.len(), 1);
    sched.tick(t0 + 501_000, None, vec![SchedulerMessage::KillAll]);
    assert_eq!(sched.executions.len(), 0);
}

#[test]
fn config_defaults() {
    let server = ServerConfig::default_config();
    assert_eq!(server.ip, "0.0.0.0");
    assert_eq!(server.port, 8080);
    assert_eq!(server.sample_rate, 44100);
    assert_eq!(server.instance_name, "local");
    let editor = EditorConfig::default();
    assert_eq!(editor.font_size, 14);
    assert_eq!(editor.tab_size, 4);
    let front = Config::default();
    assert_eq!(front.appearance.transparency, 100);
}
