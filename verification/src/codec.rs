//! The canonical serialized form of control messages: every scheduler
//! message has one stable text form, and parsing the form of any message
//! gives the message back. The network rim frames these (or an equivalent
//! form) on the wire; the core owns the round trip.
//!
//! The form is a tag followed by the message's fields: a number is its
//! decimal numeral closed by a comma; a text is its length followed by a
//! colon and exactly that many characters.

use vstd::prelude::*;
use crate::text::{dec_val, dec_chars_of, dec_chars, is_dec_digit, all_digits,
    lemma_dec_chars_roundtrip, str_to_chars, chars_to_string};
use crate::sched::{ActionTiming, ClockCommand, SchedulerMessage};
use crate::scene::Script;

verus! {

/// The mathematical reading of a timing.
pub ghost enum TimingModel {
    /// Applies on arrival.
    Immediate,
    /// Applies at a beat position, in microbeats.
    AtBeat(u64),
    /// Applies when a line wraps.
    EndOfLine(u64),
}

/// The mathematical reading of a control message.
pub ghost enum MsgModel {
    /// Replace a cell's script.
    SetScript {
        /// Line of the cell.
        line: u64,
        /// Frame of the cell.
        frame: u64,
        /// The script's language.
        lang: Seq<char>,
        /// The script's text.
        content: Seq<char>,
        /// The script's named arguments.
        args: Seq<(Seq<char>, Seq<char>)>,
        /// When it applies.
        timing: TimingModel,
    },
    /// Change a line's speed factor.
    SetSpeed {
        /// The line.
        line: u64,
        /// The factor in millionths.
        factor: u64,
        /// When it applies.
        timing: TimingModel,
    },
    /// Insert a default line.
    InsertLine {
        /// Where.
        at: u64,
        /// When it applies.
        timing: TimingModel,
    },
    /// Remove a line.
    RemoveLine {
        /// The line.
        line: u64,
        /// When it applies.
        timing: TimingModel,
    },
    /// Bind a device to a slot.
    AssignSlot {
        /// The slot.
        slot: u64,
        /// The device name.
        name: Seq<char>,
    },
    /// Free a slot.
    UnassignSlot {
        /// The slot.
        slot: u64,
    },
    /// Open a connection.
    Connect {
        /// The device name.
        name: Seq<char>,
    },
    /// Close a connection.
    Disconnect {
        /// The device name.
        name: Seq<char>,
    },
    /// Create a virtual output.
    CreateVirtual {
        /// The port name.
        name: Seq<char>,
    },
    /// Set the tempo, microseconds per beat.
    SetTempo(u64),
    /// Set the quantum, microbeats.
    SetQuantum(u64),
    /// Toggle the transport.
    PlayPause,
    /// Re-anchor beat zero.
    ResetBeat,
    /// Toggle peer start/stop propagation.
    SetSync(bool),
    /// Drop every execution.
    KillAll,
    /// Stop the loop.
    Quit,
}

/// The mathematical reading of a timing value.
pub open spec fn timing_model(t: ActionTiming) -> TimingModel {
    match t {
        ActionTiming::Immediate => TimingModel::Immediate,
        ActionTiming::AtBeat(b) => TimingModel::AtBeat(b),
        ActionTiming::EndOfLine(l) => TimingModel::EndOfLine(l as u64),
    }
}

/// The argument list of a script, read mathematically.
pub open spec fn args_model(args: Seq<(String, String)>) -> Seq<(Seq<char>, Seq<char>)> {
    args.map_values(|p: (String, String)| (p.0@, p.1@))
}

impl SchedulerMessage {
    /// The message read mathematically.
    pub open spec fn model(self) -> MsgModel {
        match self {
            SchedulerMessage::SetScript { line, frame, script, timing } => MsgModel::SetScript {
                line: line as u64,
                frame: frame as u64,
                lang: script.lang@,
                content: script.content@,
                args: args_model(script.args@),
                timing: timing_model(timing),
            },
            SchedulerMessage::SetSpeedFactor { line, factor, timing } => MsgModel::SetSpeed {
                line: line as u64,
                factor,
                timing: timing_model(timing),
            },
            SchedulerMessage::InsertLine { at, timing } => MsgModel::InsertLine {
                at: at as u64,
                timing: timing_model(timing),
            },
            SchedulerMessage::RemoveLine { line, timing } => MsgModel::RemoveLine {
                line: line as u64,
                timing: timing_model(timing),
            },
            SchedulerMessage::AssignDeviceToSlot { slot, name } => MsgModel::AssignSlot {
                slot: slot as u64,
                name: name@,
            },
            SchedulerMessage::UnassignDeviceFromSlot { slot } => MsgModel::UnassignSlot {
                slot: slot as u64,
            },
            SchedulerMessage::ConnectDeviceByName { name } => MsgModel::Connect { name: name@ },
            SchedulerMessage::DisconnectDeviceByName { name } => MsgModel::Disconnect {
                name: name@,
            },
            SchedulerMessage::CreateVirtualMidiOutput { name } => MsgModel::CreateVirtual {
                name: name@,
            },
            SchedulerMessage::ClockCommand(cmd) => match cmd {
                ClockCommand::SetTempo(t) => MsgModel::SetTempo(t),
                ClockCommand::SetQuantum(q) => MsgModel::SetQuantum(q),
                ClockCommand::PlayPause => MsgModel::PlayPause,
                ClockCommand::ResetBeat => MsgModel::ResetBeat,
                ClockCommand::SetStartStopSync(on) => MsgModel::SetSync(on),
            },
            SchedulerMessage::KillAll => MsgModel::KillAll,
            SchedulerMessage::Quit => MsgModel::Quit,
        }
    }
}

// ---------------------------------------------------------------------------
// The encoded form.

/// A number's form: its decimal numeral closed by a comma.
pub open spec fn enc_uint(n: u64) -> Seq<char> {
    dec_chars_of(n as int).push(',')
}

/// A text's form: its length, a colon, then exactly its characters.
pub open spec fn enc_str(x: Seq<char>) -> Seq<char> {
    dec_chars_of(x.len() as int).push(':') + x
}

/// A timing's form.
pub open spec fn enc_timing(t: TimingModel) -> Seq<char> {
    match t {
        TimingModel::Immediate => enc_str("immediate"@),
        TimingModel::AtBeat(b) => enc_str("at_beat"@) + enc_uint(b),
        TimingModel::EndOfLine(l) => enc_str("end_of_line"@) + enc_uint(l),
    }
}

/// An argument list's form: the count, then each name and value.
pub open spec fn enc_args(args: Seq<(Seq<char>, Seq<char>)>) -> Seq<char>
    decreases args.len(),
{
    if args.len() == 0 {
        Seq::empty()
    } else {
        enc_str(args[0].0) + enc_str(args[0].1) + enc_args(args.drop_first())
    }
}

/// A message's form: its tag, then its fields.
pub open spec fn enc_msg(m: MsgModel) -> Seq<char> {
    match m {
        MsgModel::SetScript { line, frame, lang, content, args, timing } =>
            enc_str("set_script"@) + enc_uint(line) + enc_uint(frame) + enc_str(lang)
                + enc_str(content) + enc_uint(args.len() as u64) + enc_args(args)
                + enc_timing(timing),
        MsgModel::SetSpeed { line, factor, timing } =>
            enc_str("set_speed"@) + enc_uint(line) + enc_uint(factor) + enc_timing(timing),
        MsgModel::InsertLine { at, timing } =>
            enc_str("insert_line"@) + enc_uint(at) + enc_timing(timing),
        MsgModel::RemoveLine { line, timing } =>
            enc_str("remove_line"@) + enc_uint(line) + enc_timing(timing),
        MsgModel::AssignSlot { slot, name } =>
            enc_str("assign_slot"@) + enc_uint(slot) + enc_str(name),
        MsgModel::UnassignSlot { slot } => enc_str("unassign_slot"@) + enc_uint(slot),
        MsgModel::Connect { name } => enc_str("connect"@) + enc_str(name),
        MsgModel::Disconnect { name } => enc_str("disconnect"@) + enc_str(name),
        MsgModel::CreateVirtual { name } => enc_str("create_virtual"@) + enc_str(name),
        MsgModel::SetTempo(t) => enc_str("clock_tempo"@) + enc_uint(t),
        MsgModel::SetQuantum(q) => enc_str("clock_quantum"@) + enc_uint(q),
        MsgModel::PlayPause => enc_str("clock_play_pause"@),
        MsgModel::ResetBeat => enc_str("clock_reset_beat"@),
        MsgModel::SetSync(on) => enc_str("clock_sync"@) + enc_uint(if on { 1u64 } else { 0u64 }),
        MsgModel::KillAll => enc_str("kill_all"@),
        MsgModel::Quit => enc_str("quit"@),
    }
}

// ---------------------------------------------------------------------------
// The parsed form.

/// Length of the leading digit run.
pub open spec fn spec_digit_run(s: Seq<char>) -> int
    decreases s.len(),
{
    if s.len() == 0 || !is_dec_digit(s[0]) {
        0
    } else {
        1 + spec_digit_run(s.drop_first())
    }
}

/// The digit run is within the text.
pub proof fn lemma_digit_run_bounds(s: Seq<char>)
    ensures
        0 <= spec_digit_run(s) <= s.len(),
    decreases s.len(),
{
    if s.len() > 0 && is_dec_digit(s[0]) {
        lemma_digit_run_bounds(s.drop_first());
    }
}

/// Read a number: a non-empty digit run whose value fits, closed by a comma.
pub open spec fn p_uint(s: Seq<char>) -> Option<(u64, Seq<char>)> {
    let k = spec_digit_run(s);
    if k < 1 || dec_val(s.take(k)) > u64::MAX {
        None
    } else if s.len() < k + 1 || s[k] != ',' {
        None
    } else {
        Some((dec_val(s.take(k)) as u64, s.skip(k + 1)))
    }
}

/// Read a length, closed by a colon.
pub open spec fn p_len(s: Seq<char>) -> Option<(u64, Seq<char>)> {
    let k = spec_digit_run(s);
    if k < 1 || dec_val(s.take(k)) > u64::MAX {
        None
    } else if s.len() < k + 1 || s[k] != ':' {
        None
    } else {
        Some((dec_val(s.take(k)) as u64, s.skip(k + 1)))
    }
}

/// Read a text: its length, then exactly that many characters.
pub open spec fn p_str(s: Seq<char>) -> Option<(Seq<char>, Seq<char>)> {
    match p_len(s) {
        None => None,
        Some((n, rest)) => if rest.len() < n {
            None
        } else {
            Some((rest.take(n as int), rest.skip(n as int)))
        },
    }
}

/// Read a timing.
pub open spec fn p_timing(s: Seq<char>) -> Option<(TimingModel, Seq<char>)> {
    match p_str(s) {
        None => None,
        Some((kind, rest)) => if kind == "immediate"@ {
            Some((TimingModel::Immediate, rest))
        } else if kind == "at_beat"@ {
            match p_uint(rest) {
                None => None,
                Some((b, rest2)) => Some((TimingModel::AtBeat(b), rest2)),
            }
        } else if kind == "end_of_line"@ {
            match p_uint(rest) {
                None => None,
                Some((l, rest2)) => Some((TimingModel::EndOfLine(l), rest2)),
            }
        } else {
            None
        },
    }
}

/// Read `count` argument pairs.
pub open spec fn p_args(s: Seq<char>, count: int)
    -> Option<(Seq<(Seq<char>, Seq<char>)>, Seq<char>)>
    decreases count,
{
    if count <= 0 {
        Some((Seq::empty(), s))
    } else {
        match p_str(s) {
            None => None,
            Some((k, rest)) => match p_str(rest) {
                None => None,
                Some((v, rest2)) => match p_args(rest2, count - 1) {
                    None => None,
                    Some((tail, rest3)) => Some((seq![(k, v)] + tail, rest3)),
                },
            },
        }
    }
}

/// Read a whole message; every character must be consumed.
pub open spec fn p_msg(s: Seq<char>) -> Option<MsgModel> {
    match p_str(s) {
        None => None,
        Some((tag, r)) => if tag == "set_script"@ {
            match p_uint(r) {
                None => None,
                Some((line, r)) => match p_uint(r) {
                    None => None,
                    Some((frame, r)) => match p_str(r) {
                        None => None,
                        Some((lang, r)) => match p_str(r) {
                            None => None,
                            Some((content, r)) => match p_uint(r) {
                                None => None,
                                Some((nargs, r)) => match p_args(r, nargs as int) {
                                    None => None,
                                    Some((args, r)) => match p_timing(r) {
                                        None => None,
                                        Some((timing, r)) => if r.len() == 0 {
                                            Some(MsgModel::SetScript {
                                                line, frame, lang, content, args, timing,
                                            })
                                        } else {
                                            None
                                        },
                                    },
                                },
                            },
                        },
                    },
                },
            }
        } else if tag == "set_speed"@ {
            match p_uint(r) {
                None => None,
                Some((line, r)) => match p_uint(r) {
                    None => None,
                    Some((factor, r)) => match p_timing(r) {
                        None => None,
                        Some((timing, r)) => if r.len() == 0 {
                            Some(MsgModel::SetSpeed { line, factor, timing })
                        } else {
                            None
                        },
                    },
                },
            }
        } else if tag == "insert_line"@ {
            match p_uint(r) {
                None => None,
                Some((at, r)) => match p_timing(r) {
                    None => None,
                    Some((timing, r)) => if r.len() == 0 {
                        Some(MsgModel::InsertLine { at, timing })
                    } else {
                        None
                    },
                },
            }
        } else if tag == "remove_line"@ {
            match p_uint(r) {
                None => None,
                Some((line, r)) => match p_timing(r) {
                    None => None,
                    Some((timing, r)) => if r.len() == 0 {
                        Some(MsgModel::RemoveLine { line, timing })
                    } else {
                        None
                    },
                },
            }
        } else if tag == "assign_slot"@ {
            match p_uint(r) {
                None => None,
                Some((slot, r)) => match p_str(r) {
                    None => None,
                    Some((name, r)) => if r.len() == 0 {
                        Some(MsgModel::AssignSlot { slot, name })
                    } else {
                        None
                    },
                },
            }
        } else if tag == "unassign_slot"@ {
            match p_uint(r) {
                None => None,
                Some((slot, r)) => if r.len() == 0 {
                    Some(MsgModel::UnassignSlot { slot })
                } else {
                    None
                },
            }
        } else if tag == "connect"@ {
            match p_str(r) {
                None => None,
                Some((name, r)) => if r.len() == 0 {
                    Some(MsgModel::Connect { name })
                } else {
                    None
                },
            }
        } else if tag == "disconnect"@ {
            match p_str(r) {
                None => None,
                Some((name, r)) => if r.len() == 0 {
                    Some(MsgModel::Disconnect { name })
                } else {
                    None
                },
            }
        } else if tag == "create_virtual"@ {
            match p_str(r) {
                None => None,
                Some((name, r)) => if r.len() == 0 {
                    Some(MsgModel::CreateVirtual { name })
                } else {
                    None
                },
            }
        } else if tag == "clock_tempo"@ {
            match p_uint(r) {
                None => None,
                Some((t, r)) => if r.len() == 0 {
                    Some(MsgModel::SetTempo(t))
                } else {
                    None
                },
            }
        } else if tag == "clock_quantum"@ {
            match p_uint(r) {
                None => None,
                Some((q, r)) => if r.len() == 0 {
                    Some(MsgModel::SetQuantum(q))
                } else {
                    None
                },
            }
        } else if tag == "clock_play_pause"@ {
            if r.len() == 0 {
                Some(MsgModel::PlayPause)
            } else {
                None
            }
        } else if tag == "clock_reset_beat"@ {
            if r.len() == 0 {
                Some(MsgModel::ResetBeat)
            } else {
                None
            }
        } else if tag == "clock_sync"@ {
            match p_uint(r) {
                None => None,
                Some((on, r)) => if r.len() == 0 {
                    Some(MsgModel::SetSync(on != 0))
                } else {
                    None
                },
            }
        } else if tag == "kill_all"@ {
            if r.len() == 0 {
                Some(MsgModel::KillAll)
            } else {
                None
            }
        } else if tag == "quit"@ {
            if r.len() == 0 {
                Some(MsgModel::Quit)
            } else {
                None
            }
        } else {
            None
        },
    }
}

// ---------------------------------------------------------------------------
// Laws of the pieces.

/// A numeral followed by a non-digit scans as exactly the numeral.
proof fn lemma_digit_run_of_numeral(n: u64, rest: Seq<char>)
    requires
        rest.len() >= 1,
        !is_dec_digit(rest[0]),
    ensures
        spec_digit_run(dec_chars_of(n as int) + rest) == dec_chars_of(n as int).len(),
{
    lemma_dec_chars_roundtrip(n as int);
    lemma_digit_run_all(dec_chars_of(n as int), rest);
}

/// A digit text followed by a non-digit scans as itself.
proof fn lemma_digit_run_all(d: Seq<char>, rest: Seq<char>)
    requires
        all_digits(d),
        rest.len() >= 1,
        !is_dec_digit(rest[0]),
    ensures
        spec_digit_run(d + rest) == d.len(),
    decreases d.len(),
{
    if d.len() == 0 {
        assert(d + rest =~= rest);
    } else {
        assert((d + rest)[0] == d[0]);
        assert(is_dec_digit(d[0]));
        assert((d + rest).drop_first() =~= d.drop_first() + rest);
        assert(all_digits(d.drop_first())) by {
            assert(forall|i: int| 0 <= i < d.len() - 1
                ==> (#[trigger] d.drop_first()[i]) == d[i + 1]);
        }
        lemma_digit_run_all(d.drop_first(), rest);
    }
}

/// Reading back an encoded number gives the number and the rest.
proof fn lemma_p_uint(n: u64, rest: Seq<char>)
    ensures
        p_uint(enc_uint(n) + rest) == Some((n, rest)),
{
    let d = dec_chars_of(n as int);
    lemma_dec_chars_roundtrip(n as int);
    let s = enc_uint(n) + rest;
    assert(s =~= d + (seq![','] + rest));
    assert(!is_dec_digit(',')) by {
        assert(',' as u32 == 44);
    }
    lemma_digit_run_all(d, seq![','] + rest);
    assert(spec_digit_run(s) == d.len());
    assert(s.take(d.len() as int) =~= d);
    assert(s[d.len() as int] == ',');
    assert(s.skip(d.len() as int + 1) =~= rest);
}

/// Reading back an encoded text gives the text and the rest.
proof fn lemma_p_str(x: Seq<char>, rest: Seq<char>)
    requires
        x.len() <= u64::MAX,
    ensures
        p_str(enc_str(x) + rest) == Some((x, rest)),
{
    let d = dec_chars_of(x.len() as int);
    lemma_dec_chars_roundtrip(x.len() as int);
    let s = enc_str(x) + rest;
    assert(s =~= d + (seq![':'] + (x + rest)));
    assert(!is_dec_digit(':')) by {
        assert(':' as u32 == 58);
    }
    lemma_digit_run_all(d, seq![':'] + (x + rest));
    assert(spec_digit_run(s) == d.len());
    assert(s.take(d.len() as int) =~= d);
    assert(s[d.len() as int] == ':');
    assert(s.skip(d.len() as int + 1) =~= x + rest);
    assert((x + rest).take(x.len() as int) =~= x);
    assert((x + rest).skip(x.len() as int) =~= rest);
}

/// Reading back an encoded timing gives the timing and the rest.
proof fn lemma_p_timing(t: TimingModel, rest: Seq<char>)
    ensures
        p_timing(enc_timing(t) + rest) == Some((t, rest)),
{
    reveal_strlit("immediate");
    reveal_strlit("at_beat");
    reveal_strlit("end_of_line");
    match t {
        TimingModel::Immediate => {
            lemma_p_str("immediate"@, rest);
        },
        TimingModel::AtBeat(b) => {
            assert(enc_timing(t) + rest =~= enc_str("at_beat"@) + (enc_uint(b) + rest));
            lemma_p_str("at_beat"@, enc_uint(b) + rest);
            lemma_p_uint(b, rest);
            assert("at_beat"@ != "immediate"@) by {
                assert("at_beat"@.len() == 7 && "immediate"@.len() == 9);
            }
        },
        TimingModel::EndOfLine(l) => {
            assert(enc_timing(t) + rest =~= enc_str("end_of_line"@) + (enc_uint(l) + rest));
            lemma_p_str("end_of_line"@, enc_uint(l) + rest);
            lemma_p_uint(l, rest);
            assert("end_of_line"@ != "immediate"@ && "end_of_line"@ != "at_beat"@) by {
                assert("end_of_line"@.len() == 11);
                assert("immediate"@.len() == 9);
                assert("at_beat"@.len() == 7);
            }
        },
    }
}

/// Reading back an encoded argument list gives the arguments and the rest.
proof fn lemma_p_args(args: Seq<(Seq<char>, Seq<char>)>, rest: Seq<char>)
    requires
        forall|i: int| 0 <= i < args.len()
            ==> (#[trigger] args[i]).0.len() <= u64::MAX && args[i].1.len() <= u64::MAX,
    ensures
        p_args(enc_args(args) + rest, args.len() as int) == Some((args, rest)),
    decreases args.len(),
{
    if args.len() == 0 {
        assert(enc_args(args) + rest =~= rest);
        assert(p_args(rest, 0) == Some((Seq::<(Seq<char>, Seq<char>)>::empty(), rest)));
        assert(Seq::<(Seq<char>, Seq<char>)>::empty() =~= args);
    } else {
        let k = args[0].0;
        let v = args[0].1;
        let tail = args.drop_first();
        let s = enc_args(args) + rest;
        assert(s =~= enc_str(k) + (enc_str(v) + (enc_args(tail) + rest)));
        lemma_p_str(k, enc_str(v) + (enc_args(tail) + rest));
        lemma_p_str(v, enc_args(tail) + rest);
        assert(forall|i: int| 0 <= i < tail.len()
            ==> (#[trigger] tail[i]).0.len() <= u64::MAX && tail[i].1.len() <= u64::MAX)
        by {
            assert(forall|i: int| 0 <= i < tail.len() ==> (#[trigger] tail[i]) == args[i + 1]);
        }
        lemma_p_args(tail, rest);
        assert(seq![(k, v)] + tail =~= args);
    }
}

/// Whether every text a message carries is of serializable length.
pub open spec fn msg_wf(m: MsgModel) -> bool {
    match m {
        MsgModel::SetScript { lang, content, args, .. } => lang.len() <= u64::MAX
            && content.len() <= u64::MAX
            && args.len() <= u64::MAX
            && (forall|i: int| 0 <= i < args.len()
                ==> (#[trigger] args[i]).0.len() <= u64::MAX && args[i].1.len() <= u64::MAX),
        MsgModel::AssignSlot { name, .. } => name.len() <= u64::MAX,
        MsgModel::Connect { name } => name.len() <= u64::MAX,
        MsgModel::Disconnect { name } => name.len() <= u64::MAX,
        MsgModel::CreateVirtual { name } => name.len() <= u64::MAX,
        _ => true,
    }
}

/// Law: the serialized form of any control message parses back to the same
/// message.
#[verifier::spinoff_prover]
#[verifier::rlimit(60)]
proof fn lemma_rt_set_script(m: MsgModel)
    requires
        msg_wf(m),
        m is SetScript,
    ensures
        p_msg(enc_msg(m)) == Some(m),
{
    reveal_strlit("set_script");
    reveal_strlit("set_speed");
    reveal_strlit("insert_line");
    reveal_strlit("remove_line");
    reveal_strlit("assign_slot");
    reveal_strlit("unassign_slot");
    reveal_strlit("connect");
    reveal_strlit("disconnect");
    reveal_strlit("create_virtual");
    reveal_strlit("clock_tempo");
    reveal_strlit("clock_quantum");
    reveal_strlit("clock_play_pause");
    reveal_strlit("clock_reset_beat");
    reveal_strlit("clock_sync");
    reveal_strlit("kill_all");
    reveal_strlit("quit");
    let empty = Seq::<char>::empty();
    match m {
        MsgModel::SetScript { line, frame, lang, content, args, timing } => {
            let r6 = enc_timing(timing);
            let r5 = enc_args(args) + r6;
            let r4 = enc_uint(args.len() as u64) + r5;
            let r3 = enc_str(content) + r4;
            let r2 = enc_str(lang) + r3;
            let r1 = enc_uint(frame) + r2;
            let r0 = enc_uint(line) + r1;
            assert(enc_msg(m) =~= enc_str("set_script"@) + r0);
            lemma_p_str("set_script"@, r0);
            lemma_p_uint(line, r1);
            lemma_p_uint(frame, r2);
            lemma_p_str(lang, r3);
            lemma_p_str(content, r4);
            lemma_p_uint(args.len() as u64, r5);
            lemma_p_args(args, r6);
            lemma_p_timing(timing, empty);
            assert(r6 =~= enc_timing(timing) + empty);
        },
        _ => {},
    }
}

#[verifier::spinoff_prover]
#[verifier::rlimit(60)]
proof fn lemma_rt_line_ops(m: MsgModel)
    requires
        msg_wf(m),
        m is SetSpeed || m is InsertLine || m is RemoveLine,
    ensures
        p_msg(enc_msg(m)) == Some(m),
{
    reveal_strlit("set_script");
    reveal_strlit("set_speed");
    reveal_strlit("insert_line");
    reveal_strlit("remove_line");
    reveal_strlit("assign_slot");
    reveal_strlit("unassign_slot");
    reveal_strlit("connect");
    reveal_strlit("disconnect");
    reveal_strlit("create_virtual");
    reveal_strlit("clock_tempo");
    reveal_strlit("clock_quantum");
    reveal_strlit("clock_play_pause");
    reveal_strlit("clock_reset_beat");
    reveal_strlit("clock_sync");
    reveal_strlit("kill_all");
    reveal_strlit("quit");
    let empty = Seq::<char>::empty();
    match m {
        MsgModel::SetSpeed { line, factor, timing } => {
            let r2 = enc_timing(timing);
            let r1 = enc_uint(factor) + r2;
            let r0 = enc_uint(line) + r1;
            assert(enc_msg(m) =~= enc_str("set_speed"@) + r0);
            lemma_p_str("set_speed"@, r0);
            lemma_p_uint(line, r1);
            lemma_p_uint(factor, r2);
            lemma_p_timing(timing, empty);
            assert(r2 =~= enc_timing(timing) + empty);
        },
        MsgModel::InsertLine { at, timing } => {
            let r1 = enc_timing(timing);
            let r0 = enc_uint(at) + r1;
            assert(enc_msg(m) =~= enc_str("insert_line"@) + r0);
            lemma_p_str("insert_line"@, r0);
            lemma_p_uint(at, r1);
            lemma_p_timing(timing, empty);
            assert(r1 =~= enc_timing(timing) + empty);
        },
        MsgModel::RemoveLine { line, timing } => {
            assert("remove_line"@ != "insert_line"@) by {
                assert("remove_line"@[0] == 'r' && "insert_line"@[0] == 'i');
            }
            let r1 = enc_timing(timing);
            let r0 = enc_uint(line) + r1;
            assert(enc_msg(m) =~= enc_str("remove_line"@) + r0);
            lemma_p_str("remove_line"@, r0);
            lemma_p_uint(line, r1);
            lemma_p_timing(timing, empty);
            assert(r1 =~= enc_timing(timing) + empty);
        },
        _ => {},
    }
}

#[verifier::spinoff_prover]
#[verifier::rlimit(60)]
proof fn lemma_rt_device_ops(m: MsgModel)
    requires
        msg_wf(m),
        m is AssignSlot || m is UnassignSlot || m is Connect || m is Disconnect
            || m is CreateVirtual,
    ensures
        p_msg(enc_msg(m)) == Some(m),
{
    reveal_strlit("set_script");
    reveal_strlit("set_speed");
    reveal_strlit("insert_line");
    reveal_strlit("remove_line");
    reveal_strlit("assign_slot");
    reveal_strlit("unassign_slot");
    reveal_strlit("connect");
    reveal_strlit("disconnect");
    reveal_strlit("create_virtual");
    reveal_strlit("clock_tempo");
    reveal_strlit("clock_quantum");
    reveal_strlit("clock_play_pause");
    reveal_strlit("clock_reset_beat");
    reveal_strlit("clock_sync");
    reveal_strlit("kill_all");
    reveal_strlit("quit");
    let empty = Seq::<char>::empty();
    match m {
        MsgModel::AssignSlot { slot, name } => {
            assert("assign_slot"@ != "insert_line"@) by {
                assert("assign_slot"@[0] == 'a' && "insert_line"@[0] == 'i');
            }
            assert("assign_slot"@ != "remove_line"@) by {
                assert("assign_slot"@[0] == 'a' && "remove_line"@[0] == 'r');
            }
            let r1 = enc_str(name) + empty;
            let r0 = enc_uint(slot) + r1;
            assert(enc_msg(m) =~= enc_str("assign_slot"@) + r0);
            lemma_p_str("assign_slot"@, r0);
            lemma_p_uint(slot, r1);
            lemma_p_str(name, empty);
        },
        MsgModel::UnassignSlot { slot } => {
            let r0 = enc_uint(slot) + empty;
            assert(enc_msg(m) =~= enc_str("unassign_slot"@) + r0);
            lemma_p_str("unassign_slot"@, r0);
            lemma_p_uint(slot, empty);
            assert(r0 =~= enc_uint(slot) + empty);
        },
        MsgModel::Connect { name } => {
            let r0 = enc_str(name) + empty;
            assert(enc_msg(m) =~= enc_str("connect"@) + r0);
            lemma_p_str("connect"@, r0);
            lemma_p_str(name, empty);
        },
        MsgModel::Disconnect { name } => {
            assert("disconnect"@ != "set_script"@) by {
                assert("disconnect"@[0] == 'd' && "set_script"@[0] == 's');
            }
            let r0 = enc_str(name) + empty;
            assert(enc_msg(m) =~= enc_str("disconnect"@) + r0);
            lemma_p_str("disconnect"@, r0);
            lemma_p_str(name, empty);
        },
        MsgModel::CreateVirtual { name } => {
            let r0 = enc_str(name) + empty;
            assert(enc_msg(m) =~= enc_str("create_virtual"@) + r0);
            lemma_p_str("create_virtual"@, r0);
            lemma_p_str(name, empty);
        },
        _ => {},
    }
}

#[verifier::spinoff_prover]
#[verifier::rlimit(60)]
proof fn lemma_rt_clock_ops(m: MsgModel)
    requires
        msg_wf(m),
        m is SetTempo || m is SetQuantum || m is PlayPause || m is ResetBeat
            || m is SetSync || m is KillAll || m is Quit,
    ensures
        p_msg(enc_msg(m)) == Some(m),
{
    reveal_strlit("set_script");
    reveal_strlit("set_speed");
    reveal_strlit("insert_line");
    reveal_strlit("remove_line");
    reveal_strlit("assign_slot");
    reveal_strlit("unassign_slot");
    reveal_strlit("connect");
    reveal_strlit("disconnect");
    reveal_strlit("create_virtual");
    reveal_strlit("clock_tempo");
    reveal_strlit("clock_quantum");
    reveal_strlit("clock_play_pause");
    reveal_strlit("clock_reset_beat");
    reveal_strlit("clock_sync");
    reveal_strlit("kill_all");
    reveal_strlit("quit");
    let empty = Seq::<char>::empty();
    match m {
        MsgModel::SetTempo(t) => {
            assert("clock_tempo"@ != "insert_line"@) by {
                assert("clock_tempo"@[0] == 'c' && "insert_line"@[0] == 'i');
            }
            assert("clock_tempo"@ != "remove_line"@) by {
                assert("clock_tempo"@[0] == 'c' && "remove_line"@[0] == 'r');
            }
            assert("clock_tempo"@ != "assign_slot"@) by {
                assert("clock_tempo"@[0] == 'c' && "assign_slot"@[0] == 'a');
            }
            let r0 = enc_uint(t) + empty;
            assert(enc_msg(m) =~= enc_str("clock_tempo"@) + r0);
            lemma_p_str("clock_tempo"@, r0);
            lemma_p_uint(t, empty);
            assert(r0 =~= enc_uint(t) + empty);
        },
        MsgModel::SetQuantum(q) => {
            assert("clock_quantum"@ != "unassign_slot"@) by {
                assert("clock_quantum"@[0] == 'c' && "unassign_slot"@[0] == 'u');
            }
            let r0 = enc_uint(q) + empty;
            assert(enc_msg(m) =~= enc_str("clock_quantum"@) + r0);
            lemma_p_str("clock_quantum"@, r0);
            lemma_p_uint(q, empty);
            assert(r0 =~= enc_uint(q) + empty);
        },
        MsgModel::PlayPause => {
            assert(enc_msg(m) =~= enc_str("clock_play_pause"@) + empty);
            lemma_p_str("clock_play_pause"@, empty);
        },
        MsgModel::ResetBeat => {
            assert("clock_reset_beat"@ != "clock_play_pause"@) by {
                assert("clock_reset_beat"@[6] == 'r' && "clock_play_pause"@[6] == 'p');
            }
            assert(enc_msg(m) =~= enc_str("clock_reset_beat"@) + empty);
            lemma_p_str("clock_reset_beat"@, empty);
        },
        MsgModel::SetSync(on) => {
            assert("clock_sync"@ != "set_script"@) by {
                assert("clock_sync"@[0] == 'c' && "set_script"@[0] == 's');
            }
            assert("clock_sync"@ != "disconnect"@) by {
                assert("clock_sync"@[0] == 'c' && "disconnect"@[0] == 'd');
            }
            let b: u64 = if on { 1 } else { 0 };
            let r0 = enc_uint(b) + empty;
            assert(enc_msg(m) =~= enc_str("clock_sync"@) + r0);
            lemma_p_str("clock_sync"@, r0);
            lemma_p_uint(b, empty);
            assert(r0 =~= enc_uint(b) + empty);
        },
        MsgModel::KillAll => {
            assert(enc_msg(m) =~= enc_str("kill_all"@) + empty);
            lemma_p_str("kill_all"@, empty);
        },
        MsgModel::Quit => {
            assert(enc_msg(m) =~= enc_str("quit"@) + empty);
            lemma_p_str("quit"@, empty);
        },
        _ => {},
    }
}

/// Law: the serialized form of any control message parses back to the same
/// message.
pub proof fn lemma_message_roundtrip(m: MsgModel)
    requires
        msg_wf(m),
    ensures
        p_msg(enc_msg(m)) == Some(m),
{
    match m {
        MsgModel::SetScript { .. } => lemma_rt_set_script(m),
        MsgModel::SetSpeed { .. } => lemma_rt_line_ops(m),
        MsgModel::InsertLine { .. } => lemma_rt_line_ops(m),
        MsgModel::RemoveLine { .. } => lemma_rt_line_ops(m),
        MsgModel::AssignSlot { .. } => lemma_rt_device_ops(m),
        MsgModel::UnassignSlot { .. } => lemma_rt_device_ops(m),
        MsgModel::Connect { .. } => lemma_rt_device_ops(m),
        MsgModel::Disconnect { .. } => lemma_rt_device_ops(m),
        MsgModel::CreateVirtual { .. } => lemma_rt_device_ops(m),
        MsgModel::SetTempo(..) => lemma_rt_clock_ops(m),
        MsgModel::SetQuantum(..) => lemma_rt_clock_ops(m),
        MsgModel::PlayPause => lemma_rt_clock_ops(m),
        MsgModel::ResetBeat => lemma_rt_clock_ops(m),
        MsgModel::SetSync(..) => lemma_rt_clock_ops(m),
        MsgModel::KillAll => lemma_rt_clock_ops(m),
        MsgModel::Quit => lemma_rt_clock_ops(m),
    }
}

// ---------------------------------------------------------------------------
// The executable codec.

/// Append a number's form.
fn push_uint(out: &mut Vec<char>, n: u64)
    ensures
        final(out)@ == old(out)@ + enc_uint(n),
{
    let digits = dec_chars(n);
    let mut i: usize = 0;
    while i < digits.len()
        invariant
            i <= digits@.len(),
            digits@ == dec_chars_of(n as int),
            out@ =~= old(out)@ + digits@.subrange(0, i as int),
        decreases digits@.len() - i,
    {
        out.push(digits[i]);
        proof {
            assert(out@ =~= old(out)@ + digits@.subrange(0, i + 1));
        }
        i = i + 1;
    }
    out.push(',');
    proof {
        assert(digits@.subrange(0, digits@.len() as int) =~= digits@);
        assert(out@ =~= old(out)@ + enc_uint(n));
    }
}

/// Append a text's form.
fn push_text(out: &mut Vec<char>, s: &str)
    ensures
        final(out)@ == old(out)@ + enc_str(s@),
{
    let chars = str_to_chars(s);
    let digits = dec_chars(chars.len() as u64);
    let mut i: usize = 0;
    while i < digits.len()
        invariant
            i <= digits@.len(),
            digits@ == dec_chars_of(chars@.len() as int),
            out@ =~= old(out)@ + digits@.subrange(0, i as int),
        decreases digits@.len() - i,
    {
        out.push(digits[i]);
        proof {
            assert(out@ =~= old(out)@ + digits@.subrange(0, i + 1));
        }
        i = i + 1;
    }
    out.push(':');
    let ghost mid = out@;
    proof {
        assert(digits@.subrange(0, digits@.len() as int) =~= digits@);
    }
    let mut i: usize = 0;
    while i < chars.len()
        invariant
            i <= chars@.len(),
            out@ =~= mid + chars@.subrange(0, i as int),
        decreases chars@.len() - i,
    {
        out.push(chars[i]);
        proof {
            assert(out@ =~= mid + chars@.subrange(0, i + 1));
        }
        i = i + 1;
    }
    proof {
        assert(chars@.subrange(0, chars@.len() as int) =~= chars@);
        assert(out@ =~= old(out)@ + enc_str(s@));
    }
}

/// Append a timing's form.
fn push_timing(out: &mut Vec<char>, t: &ActionTiming)
    ensures
        final(out)@ == old(out)@ + enc_timing(timing_model(*t)),
{
    match t {
        ActionTiming::Immediate => {
            push_text(out, "immediate");
        },
        ActionTiming::AtBeat(b) => {
            push_text(out, "at_beat");
            push_uint(out, *b);
            proof {
                assert(out@ =~= old(out)@ + enc_timing(timing_model(*t)));
            }
        },
        ActionTiming::EndOfLine(l) => {
            push_text(out, "end_of_line");
            push_uint(out, *l as u64);
            proof {
                assert(out@ =~= old(out)@ + enc_timing(timing_model(*t)));
            }
        },
    }
}

/// Serialize a control message into its canonical form.
pub fn encode_message(m: &SchedulerMessage) -> (r: Vec<char>)
    ensures
        r@ == enc_msg(m.model()),
{
    let mut out: Vec<char> = Vec::new();
    match m {
        SchedulerMessage::SetScript { line, frame, script, timing } => {
            push_text(&mut out, "set_script");
            push_uint(&mut out, *line as u64);
            push_uint(&mut out, *frame as u64);
            push_text(&mut out, script.lang.as_str());
            push_text(&mut out, script.content.as_str());
            push_uint(&mut out, script.args.len() as u64);
            let ghost base = out@;
            let n = script.args.len();
            let mut i: usize = 0;
            while i < n
                invariant
                    i <= n,
                    n == script.args@.len(),
                    out@ =~= base + enc_args(args_model(script.args@).take(i as int)),
                decreases n - i,
            {
                let ghost pre = args_model(script.args@).take(i as int);
                push_text(&mut out, script.args[i].0.as_str());
                push_text(&mut out, script.args[i].1.as_str());
                proof {
                    lemma_enc_args_push(pre, args_model(script.args@)[i as int]);
                    assert(args_model(script.args@).take(i + 1)
                        =~= pre.push(args_model(script.args@)[i as int]));
                    assert(args_model(script.args@)[i as int]
                        == (script.args@[i as int].0@, script.args@[i as int].1@));
                    assert(out@ =~= base + enc_args(args_model(script.args@).take(i + 1)));
                }
                i = i + 1;
            }
            proof {
                assert(args_model(script.args@).take(n as int) =~= args_model(script.args@));
            }
            push_timing(&mut out, timing);
            proof {
                assert(out@ =~= enc_msg(m.model()));
            }
        },
        SchedulerMessage::SetSpeedFactor { line, factor, timing } => {
            push_text(&mut out, "set_speed");
            push_uint(&mut out, *line as u64);
            push_uint(&mut out, *factor);
            push_timing(&mut out, timing);
            proof {
                assert(out@ =~= enc_msg(m.model()));
            }
        },
        SchedulerMessage::InsertLine { at, timing } => {
            push_text(&mut out, "insert_line");
            push_uint(&mut out, *at as u64);
            push_timing(&mut out, timing);
            proof {
                assert(out@ =~= enc_msg(m.model()));
            }
        },
        SchedulerMessage::RemoveLine { line, timing } => {
            push_text(&mut out, "remove_line");
            push_uint(&mut out, *line as u64);
            push_timing(&mut out, timing);
            proof {
                assert(out@ =~= enc_msg(m.model()));
            }
        },
        SchedulerMessage::AssignDeviceToSlot { slot, name } => {
            push_text(&mut out, "assign_slot");
            push_uint(&mut out, *slot as u64);
            push_text(&mut out, name.as_str());
            proof {
                assert(out@ =~= enc_msg(m.model()));
            }
        },
        SchedulerMessage::UnassignDeviceFromSlot { slot } => {
            push_text(&mut out, "unassign_slot");
            push_uint(&mut out, *slot as u64);
            proof {
                assert(out@ =~= enc_msg(m.model()));
            }
        },
        SchedulerMessage::ConnectDeviceByName { name } => {
            push_text(&mut out, "connect");
            push_text(&mut out, name.as_str());
            proof {
                assert(out@ =~= enc_msg(m.model()));
            }
        },
        SchedulerMessage::DisconnectDeviceByName { name } => {
            push_text(&mut out, "disconnect");
            push_text(&mut out, name.as_str());
            proof {
                assert(out@ =~= enc_msg(m.model()));
            }
        },
        SchedulerMessage::CreateVirtualMidiOutput { name } => {
            push_text(&mut out, "create_virtual");
            push_text(&mut out, name.as_str());
            proof {
                assert(out@ =~= enc_msg(m.model()));
            }
        },
        SchedulerMessage::ClockCommand(cmd) => {
            match cmd {
                ClockCommand::SetTempo(t) => {
                    push_text(&mut out, "clock_tempo");
                    push_uint(&mut out, *t);
                },
                ClockCommand::SetQuantum(q) => {
                    push_text(&mut out, "clock_quantum");
                    push_uint(&mut out, *q);
                },
                ClockCommand::PlayPause => {
                    push_text(&mut out, "clock_play_pause");
                },
                ClockCommand::ResetBeat => {
                    push_text(&mut out, "clock_reset_beat");
                },
                ClockCommand::SetStartStopSync(on) => {
                    push_text(&mut out, "clock_sync");
                    push_uint(&mut out, if *on { 1 } else { 0 });
                },
            }
            proof {
                assert(out@ =~= enc_msg(m.model()));
            }
        },
        SchedulerMessage::KillAll => {
            push_text(&mut out, "kill_all");
            proof {
                assert(out@ =~= enc_msg(m.model()));
            }
        },
        SchedulerMessage::Quit => {
            push_text(&mut out, "quit");
            proof {
                assert(out@ =~= enc_msg(m.model()));
            }
        },
    }
    out
}

/// An argument list's form grows one pair at a time.
proof fn lemma_enc_args_push(args: Seq<(Seq<char>, Seq<char>)>, p: (Seq<char>, Seq<char>))
    ensures
        enc_args(args.push(p)) =~= enc_args(args) + enc_str(p.0) + enc_str(p.1),
    decreases args.len(),
{
    if args.len() == 0 {
        assert(args.push(p)[0] == p);
        assert(args.push(p).drop_first() =~= Seq::<(Seq<char>, Seq<char>)>::empty());
        assert(enc_args(args.push(p).drop_first()) =~= Seq::<char>::empty());
    } else {
        assert(args.push(p)[0] == args[0]);
        assert(args.push(p).drop_first() =~= args.drop_first().push(p));
        lemma_enc_args_push(args.drop_first(), p);
    }
}

/// A prefix of digits with a non-digit (or the end) after it scans as
/// exactly its length.
proof fn lemma_digit_run_at(s: Seq<char>, k: int)
    requires
        0 <= k <= s.len(),
        forall|j: int| 0 <= j < k ==> is_dec_digit(#[trigger] s[j]),
        k == s.len() || !is_dec_digit(s[k]),
    ensures
        spec_digit_run(s) == k,
    decreases k,
{
    if k == 0 {
    } else {
        assert(is_dec_digit(s[0]));
        let t = s.drop_first();
        assert(forall|j: int| 0 <= j < k - 1 ==> #[trigger] t[j] == s[j + 1]);
        assert(k - 1 == t.len() || t[k - 1] == s[k]);
        lemma_digit_run_at(t, k - 1);
    }
}

/// Whether a character is a decimal digit.
fn is_digit_char(c: char) -> (r: bool)
    ensures
        r == is_dec_digit(c),
{
    let u = c as u32;
    48 <= u && u <= 57
}

/// Read a number at `i`: digits closed by the given terminator.
fn e_number(v: &Vec<char>, i: usize, terminator: char) -> (r: Option<(u64, usize)>)
    requires
        i <= v@.len(),
        terminator == ',' || terminator == ':',
        !is_dec_digit(terminator),
    ensures
        ({
            let spec = if terminator == ',' {
                p_uint(v@.skip(i as int))
            } else {
                p_len(v@.skip(i as int))
            };
            match r {
                Some((n, j)) => i <= j <= v@.len() && spec == Some((n, v@.skip(j as int))),
                None => spec is None,
            }
        }),
{
    let ghost s = v@.skip(i as int);
    let n = v.len();
    let mut k: usize = i;
    while k < n && is_digit_char(v[k])
        invariant
            i <= k <= n,
            n == v@.len(),
            forall|j: int| i <= j < k ==> is_dec_digit(#[trigger] v@[j]),
        decreases n - k,
    {
        k = k + 1;
    }
    proof {
        assert(forall|j: int| 0 <= j < k - i ==> #[trigger] s[j] == v@[i + j]);
        assert(k - i == s.len() || !is_dec_digit(s[k - i]));
        lemma_digit_run_at(s, k - i);
        assert(spec_digit_run(s) == k - i);
    }
    if k == i {
        return None;
    }
    let ghost digits = s.take(k - i);
    let value = match crate::text::parse_dec(v, i, k) {
        None => {
            proof {
                assert(v@.subrange(i as int, k as int) =~= digits);
            }
            return None;
        },
        Some(x) => {
            proof {
                assert(v@.subrange(i as int, k as int) =~= digits);
            }
            x
        },
    };
    if k >= n {
        proof {
            assert(s.len() == k - i);
        }
        return None;
    }
    if v[k] != terminator {
        proof {
            assert(s[k - i] == v@[k as int]);
        }
        return None;
    }
    proof {
        assert(s[k - i] == terminator);
        assert(s.skip(k - i + 1) =~= v@.skip(k + 1));
    }
    Some((value, k + 1))
}

/// Read a text at `i`.
fn e_text(v: &Vec<char>, i: usize) -> (r: Option<(String, usize)>)
    requires
        i <= v@.len(),
    ensures
        match r {
            Some((x, j)) => i <= j <= v@.len()
                && p_str(v@.skip(i as int)) == Some((x@, v@.skip(j as int))),
            None => p_str(v@.skip(i as int)) is None,
        },
{
    let (len, j) = match e_number(v, i, ':') {
        None => {
            return None;
        },
        Some(p) => p,
    };
    if len > (v.len() - j) as u64 {
        proof {
            assert(v@.skip(j as int).len() < len);
        }
        return None;
    }
    let end = j + (len as usize);
    let mut content: Vec<char> = Vec::new();
    let mut k: usize = j;
    while k < end
        invariant
            j <= k <= end <= v@.len(),
            content@ =~= v@.subrange(j as int, k as int),
        decreases end - k,
    {
        content.push(v[k]);
        proof {
            assert(content@ =~= v@.subrange(j as int, k + 1));
        }
        k = k + 1;
    }
    proof {
        assert(content@ =~= v@.skip(j as int).take(len as int));
        assert(v@.skip(j as int).skip(len as int) =~= v@.skip(end as int));
    }
    Some((chars_to_string(&content), end))
}

/// Read a timing at `i`. A wrap line outside the addressable range fails.
fn e_timing(v: &Vec<char>, i: usize) -> (r: Option<(ActionTiming, usize)>)
    requires
        i <= v@.len(),
    ensures
        match r {
            Some((t, j)) => i <= j <= v@.len()
                && p_timing(v@.skip(i as int))
                    == Some((timing_model(t), v@.skip(j as int))),
            None => match p_timing(v@.skip(i as int)) {
                Some((t, _)) => (t matches TimingModel::EndOfLine(l) && l > usize::MAX),
                None => true,
            },
        },
{
    let (kind, j) = match e_text(v, i) {
        None => {
            return None;
        },
        Some(p) => p,
    };
    proof {
        reveal_strlit("immediate");
        reveal_strlit("at_beat");
        reveal_strlit("end_of_line");
    }
    if kind.eq(&String::from_str("immediate")) {
        return Some((ActionTiming::Immediate, j));
    }
    if kind.eq(&String::from_str("at_beat")) {
        proof {
            assert(kind@ != "immediate"@) by {
                assert("at_beat"@.len() == 7 && "immediate"@.len() == 9);
            }
        }
        let (b, j2) = match e_number(v, j, ',') {
            None => {
                return None;
            },
            Some(p) => p,
        };
        return Some((ActionTiming::AtBeat(b), j2));
    }
    if kind.eq(&String::from_str("end_of_line")) {
        proof {
            assert(kind@ != "immediate"@ && kind@ != "at_beat"@) by {
                assert("end_of_line"@.len() == 11);
                assert("immediate"@.len() == 9);
                assert("at_beat"@.len() == 7);
            }
        }
        let (l, j2) = match e_number(v, j, ',') {
            None => {
                return None;
            },
            Some(p) => p,
        };
        if l > usize::MAX as u64 {
            return None;
        }
        return Some((ActionTiming::EndOfLine(l as usize), j2));
    }
    None
}

/// Whether a parsed message's positions all fit the machine's address
/// range, so an executable value can carry them.
pub open spec fn msg_fits(m: MsgModel) -> bool {
    match m {
        MsgModel::SetScript { line, frame, timing, .. } => line <= usize::MAX
            && frame <= usize::MAX && timing_fits(timing),
        MsgModel::SetSpeed { line, timing, .. } => line <= usize::MAX && timing_fits(timing),
        MsgModel::InsertLine { at, timing } => at <= usize::MAX && timing_fits(timing),
        MsgModel::RemoveLine { line, timing } => line <= usize::MAX && timing_fits(timing),
        MsgModel::AssignSlot { slot, .. } => slot <= usize::MAX,
        MsgModel::UnassignSlot { slot } => slot <= usize::MAX,
        _ => true,
    }
}

/// Whether a timing's line fits the machine's address range.
pub open spec fn timing_fits(t: TimingModel) -> bool {
    match t {
        TimingModel::EndOfLine(l) => l <= usize::MAX,
        _ => true,
    }
}

/// Parse the fields of a script-replacement message, after its tag.
#[verifier::rlimit(100)]
#[verifier::spinoff_prover]
fn parse_set_script(v: &Vec<char>, i: usize) -> (r: Option<SchedulerMessage>)
    requires
        i <= v@.len(),
        p_str(v@) == Some(("set_script"@, v@.skip(i as int))),
    ensures
        match p_msg(v@) {
            Some(mm) => if msg_fits(mm) {
                (r matches Some(m) && m.model() == mm)
            } else {
                r is None
            },
            None => r is None,
        },
{

        let (line, i1) = match e_number(v, i, ',') {
            None => { return None; },
            Some(p) => p,
        };
        let (frame, i2) = match e_number(v, i1, ',') {
            None => { return None; },
            Some(p) => p,
        };
        let (lang, i3) = match e_text(v, i2) {
            None => { return None; },
            Some(p) => p,
        };
        let (content, i4) = match e_text(v, i3) {
            None => { return None; },
            Some(p) => p,
        };
        let (nargs, i5) = match e_number(v, i4, ',') {
            None => { return None; },
            Some(p) => p,
        };
        let mut args: Vec<(String, String)> = Vec::new();
        let mut left = nargs;
        let mut pos = i5;
        #[verifier::loop_isolation(false)]
        while left > 0
            invariant
                pos <= v@.len(),
                args@.len() + left <= u64::MAX,
                p_args(v@.skip(i5 as int), nargs as int) == (match p_args(
                    v@.skip(pos as int), left as int) {
                    Some((tail, rest)) => Some((args_model(args@) + tail, rest)),
                    None => None::<(Seq<(Seq<char>, Seq<char>)>, Seq<char>)>,
                }),
            decreases left,
        {
            let ghost pre_args = args@;
            let ghost pre_pos = pos;
            let (k, p1) = match e_text(v, pos) {
                None => { return None; },
                Some(p) => p,
            };
            let (val, p2) = match e_text(v, p1) {
                None => { return None; },
                Some(p) => p,
            };
            args.push((k, val));
            pos = p2;
            left = left - 1;
            proof {
                assert(args@ =~= pre_args.push((k, val)));
                assert(args_model(args@)
                    =~= args_model(pre_args).push((k@, val@)));
                assert forall|tail: Seq<(Seq<char>, Seq<char>)>|
                    true implies #[trigger] (args_model(pre_args) + (seq![(k@, val@)] + tail))
                        =~= args_model(args@) + tail
                by {}
            }
        }
        let (timing, i6) = match e_timing(v, pos) {
            None => { return None; },
            Some(p) => p,
        };
        if i6 != v.len() {
            proof {
                assert(v@.skip(i6 as int).len() != 0);
            }
            return None;
        }
        if line > usize::MAX as u64 || frame > usize::MAX as u64 {
            return None;
        }
        let m = SchedulerMessage::SetScript {
            line: line as usize,
            frame: frame as usize,
            script: Script { lang, content, args },
            timing,
        };
        proof {
            assert(v@.skip(i6 as int).len() == 0);
            assert(p_args(v@.skip(pos as int), 0int)
                == Some((Seq::<(Seq<char>, Seq<char>)>::empty(), v@.skip(pos as int))));
            assert(args_model(m->SetScript_script.args@) + Seq::<(Seq<char>, Seq<char>)>::empty()
                =~= args_model(m->SetScript_script.args@));
        }
        return Some(m);
    }

/// Parse the canonical form back into a control message. The form of any
/// message parses back to that message; ill-formed text, and positions
/// beyond the machine's address range, are rejected.
#[verifier::rlimit(100)]
#[verifier::spinoff_prover]
pub fn parse_message(v: &Vec<char>) -> (r: Option<SchedulerMessage>)
    ensures
        match p_msg(v@) {
            Some(mm) => if msg_fits(mm) {
                (r matches Some(m) && m.model() == mm)
            } else {
                r is None
            },
            None => r is None,
        },
{
    proof {
        assert(v@.skip(0) =~= v@);
        reveal_strlit("set_script");
        reveal_strlit("set_speed");
        reveal_strlit("insert_line");
        reveal_strlit("remove_line");
        reveal_strlit("assign_slot");
        reveal_strlit("unassign_slot");
        reveal_strlit("connect");
        reveal_strlit("disconnect");
        reveal_strlit("create_virtual");
        reveal_strlit("clock_tempo");
        reveal_strlit("clock_quantum");
        reveal_strlit("clock_play_pause");
        reveal_strlit("clock_reset_beat");
        reveal_strlit("clock_sync");
        reveal_strlit("kill_all");
        reveal_strlit("quit");
    }
    let (tag, mut i) = match e_text(v, 0) {
        None => {
            return None;
        },
        Some(p) => p,
    };
    if tag.eq(&String::from_str("set_script")) {
        return parse_set_script(v, i);
    }
    if tag.eq(&String::from_str("set_speed")) {
        let (line, i1) = match e_number(v, i, ',') {
            None => { return None; },
            Some(p) => p,
        };
        let (factor, i2) = match e_number(v, i1, ',') {
            None => { return None; },
            Some(p) => p,
        };
        let (timing, i3) = match e_timing(v, i2) {
            None => { return None; },
            Some(p) => p,
        };
        if i3 != v.len() || line > usize::MAX as u64 {
            return None;
        }
        return Some(SchedulerMessage::SetSpeedFactor {
            line: line as usize, factor, timing,
        });
    }
    if tag.eq(&String::from_str("insert_line")) {
        let (at, i1) = match e_number(v, i, ',') {
            None => { return None; },
            Some(p) => p,
        };
        let (timing, i2) = match e_timing(v, i1) {
            None => { return None; },
            Some(p) => p,
        };
        if i2 != v.len() || at > usize::MAX as u64 {
            return None;
        }
        return Some(SchedulerMessage::InsertLine { at: at as usize, timing });
    }
    if tag.eq(&String::from_str("remove_line")) {
        let (line, i1) = match e_number(v, i, ',') {
            None => { return None; },
            Some(p) => p,
        };
        let (timing, i2) = match e_timing(v, i1) {
            None => { return None; },
            Some(p) => p,
        };
        if i2 != v.len() || line > usize::MAX as u64 {
            return None;
        }
        return Some(SchedulerMessage::RemoveLine { line: line as usize, timing });
    }
    if tag.eq(&String::from_str("assign_slot")) {
        let (slot, i1) = match e_number(v, i, ',') {
            None => { return None; },
            Some(p) => p,
        };
        let (name, i2) = match e_text(v, i1) {
            None => { return None; },
            Some(p) => p,
        };
        if i2 != v.len() || slot > usize::MAX as u64 {
            return None;
        }
        return Some(SchedulerMessage::AssignDeviceToSlot { slot: slot as usize, name });
    }
    if tag.eq(&String::from_str("unassign_slot")) {
        let (slot, i1) = match e_number(v, i, ',') {
            None => { return None; },
            Some(p) => p,
        };
        if i1 != v.len() || slot > usize::MAX as u64 {
            return None;
        }
        return Some(SchedulerMessage::UnassignDeviceFromSlot { slot: slot as usize });
    }
    if tag.eq(&String::from_str("connect")) {
        let (name, i1) = match e_text(v, i) {
            None => { return None; },
            Some(p) => p,
        };
        if i1 != v.len() {
            return None;
        }
        return Some(SchedulerMessage::ConnectDeviceByName { name });
    }
    if tag.eq(&String::from_str("disconnect")) {
        let (name, i1) = match e_text(v, i) {
            None => { return None; },
            Some(p) => p,
        };
        if i1 != v.len() {
            return None;
        }
        return Some(SchedulerMessage::DisconnectDeviceByName { name });
    }
    if tag.eq(&String::from_str("create_virtual")) {
        let (name, i1) = match e_text(v, i) {
            None => { return None; },
            Some(p) => p,
        };
        if i1 != v.len() {
            return None;
        }
        return Some(SchedulerMessage::CreateVirtualMidiOutput { name });
    }
    if tag.eq(&String::from_str("clock_tempo")) {
        let (t, i1) = match e_number(v, i, ',') {
            None => { return None; },
            Some(p) => p,
        };
        if i1 != v.len() {
            return None;
        }
        return Some(SchedulerMessage::ClockCommand(ClockCommand::SetTempo(t)));
    }
    if tag.eq(&String::from_str("clock_quantum")) {
        let (q, i1) = match e_number(v, i, ',') {
            None => { return None; },
            Some(p) => p,
        };
        if i1 != v.len() {
            return None;
        }
        return Some(SchedulerMessage::ClockCommand(ClockCommand::SetQuantum(q)));
    }
    if tag.eq(&String::from_str("clock_play_pause")) {
        if i != v.len() {
            return None;
        }
        return Some(SchedulerMessage::ClockCommand(ClockCommand::PlayPause));
    }
    if tag.eq(&String::from_str("clock_reset_beat")) {
        if i != v.len() {
            return None;
        }
        return Some(SchedulerMessage::ClockCommand(ClockCommand::ResetBeat));
    }
    if tag.eq(&String::from_str("clock_sync")) {
        let (on, i1) = match e_number(v, i, ',') {
            None => { return None; },
            Some(p) => p,
        };
        if i1 != v.len() {
            return None;
        }
        return Some(SchedulerMessage::ClockCommand(
            ClockCommand::SetStartStopSync(on != 0)));
    }
    if tag.eq(&String::from_str("kill_all")) {
        if i != v.len() {
            return None;
        }
        return Some(SchedulerMessage::KillAll);
    }
    if tag.eq(&String::from_str("quit")) {
        if i != v.len() {
            return None;
        }
        return Some(SchedulerMessage::Quit);
    }
    None
}

} // verus!
