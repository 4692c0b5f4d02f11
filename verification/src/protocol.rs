//! Typed protocol payloads: log messages, MIDI messages with their standard
//! wire encoding, OSC payloads, and the timed message envelope that the
//! dispatcher delivers.

use vstd::prelude::*;
use crate::SyncTime;

verus! {

/// Message severity.
#[derive(Clone, Copy, PartialEq, Eq, Structural, Debug)]
pub enum Severity {
    /// Diagnostic chatter.
    Debug,
    /// Ordinary reports.
    Info,
    /// Something odd but recoverable.
    Warn,
    /// An operation failed.
    Error,
    /// The process cannot continue.
    Fatal,
}

/// A log payload.
pub struct LogMessage {
    /// Severity of the report.
    pub level: Severity,
    /// The report itself.
    pub msg: String,
}

impl LogMessage {
    /// A log message of the given severity.
    pub fn new(level: Severity, msg: String) -> (m: LogMessage)
        ensures
            m.level == level,
            m.msg == msg,
    {
        LogMessage { level, msg }
    }

    /// An informational message.
    pub fn info(msg: String) -> (m: LogMessage)
        ensures
            m.level == Severity::Info,
            m.msg == msg,
    {
        LogMessage { level: Severity::Info, msg }
    }

    /// An error message.
    pub fn error(msg: String) -> (m: LogMessage)
        ensures
            m.level == Severity::Error,
            m.msg == msg,
    {
        LogMessage { level: Severity::Error, msg }
    }
}

/// A MIDI payload, before the channel is applied.
pub enum MIDIMessageType {
    /// Key down.
    NoteOn {
        /// Note number.
        note: u8,
        /// Strike velocity.
        velocity: u8,
    },
    /// Key up.
    NoteOff {
        /// Note number.
        note: u8,
        /// Release velocity.
        velocity: u8,
    },
    /// Continuous controller change.
    ControlChange {
        /// Controller number.
        control: u8,
        /// Controller value.
        value: u8,
    },
    /// Patch selection.
    ProgramChange {
        /// Program number.
        program: u8,
    },
    /// Polyphonic key pressure.
    Aftertouch {
        /// Note number.
        note: u8,
        /// Pressure value.
        value: u8,
    },
    /// Channel-wide pressure.
    ChannelPressure {
        /// Pressure value.
        value: u8,
    },
    /// Transport start.
    Start,
    /// Transport stop.
    Stop,
    /// Transport continue.
    Continue,
    /// Timing clock pulse.
    Clock,
    /// System reset.
    Reset,
    /// Raw system-exclusive data, without the framing bytes.
    SystemExclusive {
        /// The payload between the framing bytes.
        data: Vec<u8>,
    },
}

/// A MIDI message: a payload on a zero-based channel.
pub struct MIDIMessage {
    /// The payload.
    pub payload: MIDIMessageType,
    /// Zero-based channel; system messages use channel zero.
    pub channel: u8,
}

impl MIDIMessage {
    /// Channels are four bits on the wire.
    pub open spec fn wf(self) -> bool {
        self.channel < 16
    }
}

/// The standard MIDI wire form of a message: a status byte carrying the
/// channel in its low nibble, followed by the data bytes; system real-time
/// messages are a single byte; system-exclusive data is framed by the
/// start and end bytes.
pub open spec fn spec_midi_bytes(m: MIDIMessage) -> Seq<u8> {
    match m.payload {
        MIDIMessageType::NoteOn { note, velocity } =>
            seq![(0x90 + m.channel) as u8, note, velocity],
        MIDIMessageType::NoteOff { note, velocity } =>
            seq![(0x80 + m.channel) as u8, note, velocity],
        MIDIMessageType::ControlChange { control, value } =>
            seq![(0xB0 + m.channel) as u8, control, value],
        MIDIMessageType::ProgramChange { program } =>
            seq![(0xC0 + m.channel) as u8, program],
        MIDIMessageType::Aftertouch { note, value } =>
            seq![(0xA0 + m.channel) as u8, note, value],
        MIDIMessageType::ChannelPressure { value } =>
            seq![(0xD0 + m.channel) as u8, value],
        MIDIMessageType::Start => seq![0xFAu8],
        MIDIMessageType::Stop => seq![0xFCu8],
        MIDIMessageType::Continue => seq![0xFBu8],
        MIDIMessageType::Clock => seq![0xF8u8],
        MIDIMessageType::Reset => seq![0xFFu8],
        MIDIMessageType::SystemExclusive { data } => seq![0xF0u8] + data@ + seq![0xF7u8],
    }
}

impl MIDIMessage {
    /// Encode the message into its standard wire bytes.
    pub fn encode(&self) -> (v: Vec<u8>)
        requires
            self.wf(),
        ensures
            v@ == spec_midi_bytes(*self),
    {
        let mut v: Vec<u8> = Vec::new();
        match &self.payload {
            MIDIMessageType::NoteOn { note, velocity } => {
                v.push(0x90 + self.channel);
                v.push(*note);
                v.push(*velocity);
            },
            MIDIMessageType::NoteOff { note, velocity } => {
                v.push(0x80 + self.channel);
                v.push(*note);
                v.push(*velocity);
            },
            MIDIMessageType::ControlChange { control, value } => {
                v.push(0xB0 + self.channel);
                v.push(*control);
                v.push(*value);
            },
            MIDIMessageType::ProgramChange { program } => {
                v.push(0xC0 + self.channel);
                v.push(*program);
            },
            MIDIMessageType::Aftertouch { note, value } => {
                v.push(0xA0 + self.channel);
                v.push(*note);
                v.push(*value);
            },
            MIDIMessageType::ChannelPressure { value } => {
                v.push(0xD0 + self.channel);
                v.push(*value);
            },
            MIDIMessageType::Start => {
                v.push(0xFA);
            },
            MIDIMessageType::Stop => {
                v.push(0xFC);
            },
            MIDIMessageType::Continue => {
                v.push(0xFB);
            },
            MIDIMessageType::Clock => {
                v.push(0xF8);
            },
            MIDIMessageType::Reset => {
                v.push(0xFF);
            },
            MIDIMessageType::SystemExclusive { data } => {
                v.push(0xF0);
                let mut i: usize = 0;
                while i < data.len()
                    invariant
                        i <= data@.len(),
                        v@ =~= seq![0xF0u8] + data@.subrange(0, i as int),
                        self.payload == (MIDIMessageType::SystemExclusive { data: *data }),
                    decreases data@.len() - i,
                {
                    v.push(data[i]);
                    proof {
                        assert(v@ =~= seq![0xF0u8] + data@.subrange(0, i + 1));
                    }
                    i = i + 1;
                }
                proof {
                    assert(data@.subrange(0, data@.len() as int) =~= data@);
                }
                v.push(0xF7);
            },
        }
        proof {
            assert(v@ =~= spec_midi_bytes(*self));
        }
        v
    }
}

/// One argument of an OSC message. Floating-point arguments are carried by
/// the unverified rim around the engine; the core holds the argument kinds
/// its scripts produce.
pub enum OscArg {
    /// A 32-bit integer argument.
    Int(i32),
    /// A string argument.
    Str(String),
    /// A binary blob argument.
    Blob(Vec<u8>),
    /// A 64-bit timetag argument, in NTP form.
    Timetag(u64),
}

/// An OSC message: an address pattern and its arguments, with an optional
/// due-time for bundling.
pub struct OSCMessage {
    /// The address pattern.
    pub addr: String,
    /// The arguments.
    pub args: Vec<OscArg>,
    /// When set, the wall-clock microsecond date the message is for; it is
    /// sent inside a bundle stamped with the NTP form of this date.
    pub timetag: Option<SyncTime>,
}

/// Seconds between the NTP epoch and the wall-clock epoch.
pub const NTP_UNIX_OFFSET_SECS: u64 = 2_208_988_800;

/// The NTP seconds part of a wall-clock microsecond date.
pub open spec fn spec_ntp_secs(us: u64) -> int {
    us as int / 1_000_000 + NTP_UNIX_OFFSET_SECS
}

/// The NTP fractional part of a wall-clock microsecond date: the remaining
/// microseconds scaled to units of two to the negative thirty-second power
/// of a second.
pub open spec fn spec_ntp_frac(us: u64) -> int {
    (us as int % 1_000_000) * 0x1_0000_0000 / 1_000_000
}

/// Convert a wall-clock microsecond date to an NTP timetag pair
/// (seconds, fractional).
pub fn ntp_of_micros(us: u64) -> (r: (u64, u32))
    ensures
        r.0 == spec_ntp_secs(us),
        r.1 == spec_ntp_frac(us),
{
    let secs = us / 1_000_000 + NTP_UNIX_OFFSET_SECS;
    let rem = (us % 1_000_000) as u128;
    let frac = (rem * 0x1_0000_0000) / 1_000_000;
    proof {
        assert(rem < 1_000_000);
        assert(rem * 0x1_0000_0000 < 1_000_000 * 0x1_0000_0000) by (nonlinear_arith)
            requires rem < 1_000_000;
        vstd::arithmetic::div_mod::lemma_div_is_ordered(
            rem as int * 0x1_0000_0000,
            1_000_000 * 0x1_0000_0000 - 1,
            1_000_000,
        );
    }
    (secs, frac as u32)
}

/// An abstract event produced by a script execution. Every event names its
/// target device by stable identifier; the device map translates it into
/// timed protocol messages.
pub enum ConcreteEvent {
    /// Nothing to play; routed to the log device.
    Nop,
    /// A note with a duration: a key-down now and a key-up after the
    /// duration.
    MidiNote {
        /// Note number.
        note: u64,
        /// Strike velocity.
        velocity: u64,
        /// One-based user channel.
        channel: u64,
        /// How long the note is held, in microseconds.
        duration: SyncTime,
        /// Target device.
        device_id: usize,
    },
    /// A continuous controller change.
    MidiControl {
        /// Controller number.
        control: u64,
        /// Controller value.
        value: u64,
        /// One-based user channel.
        channel: u64,
        /// Target device.
        device_id: usize,
    },
    /// A patch selection.
    MidiProgram {
        /// Program number.
        program: u64,
        /// One-based user channel.
        channel: u64,
        /// Target device.
        device_id: usize,
    },
    /// Polyphonic key pressure.
    MidiAftertouch {
        /// Note number.
        note: u64,
        /// Pressure value.
        value: u64,
        /// One-based user channel.
        channel: u64,
        /// Target device.
        device_id: usize,
    },
    /// Channel-wide pressure.
    MidiChannelPressure {
        /// Pressure value.
        value: u64,
        /// One-based user channel.
        channel: u64,
        /// Target device.
        device_id: usize,
    },
    /// Raw system-exclusive data.
    MidiSystemExclusive {
        /// The payload between the framing bytes.
        data: Vec<u8>,
        /// Target device.
        device_id: usize,
    },
    /// Transport start.
    MidiStart {
        /// Target device.
        device_id: usize,
    },
    /// Transport stop.
    MidiStop {
        /// Target device.
        device_id: usize,
    },
    /// Transport continue.
    MidiContinue {
        /// Target device.
        device_id: usize,
    },
    /// Timing clock pulse.
    MidiClock {
        /// Target device.
        device_id: usize,
    },
    /// System reset.
    MidiReset {
        /// Target device.
        device_id: usize,
    },
    /// An OSC message for a network endpoint.
    Osc {
        /// Address pattern.
        addr: String,
        /// Arguments.
        args: Vec<OscArg>,
        /// Target device.
        device_id: usize,
    },
}

impl ConcreteEvent {
    /// The device the event targets; an empty event goes to the log device.
    pub open spec fn spec_device_id(self) -> int {
        match self {
            ConcreteEvent::Nop => 0int,
            ConcreteEvent::MidiNote { device_id, .. } => device_id as int,
            ConcreteEvent::MidiControl { device_id, .. } => device_id as int,
            ConcreteEvent::MidiProgram { device_id, .. } => device_id as int,
            ConcreteEvent::MidiAftertouch { device_id, .. } => device_id as int,
            ConcreteEvent::MidiChannelPressure { device_id, .. } => device_id as int,
            ConcreteEvent::MidiSystemExclusive { device_id, .. } => device_id as int,
            ConcreteEvent::MidiStart { device_id } => device_id as int,
            ConcreteEvent::MidiStop { device_id } => device_id as int,
            ConcreteEvent::MidiContinue { device_id } => device_id as int,
            ConcreteEvent::MidiClock { device_id } => device_id as int,
            ConcreteEvent::MidiReset { device_id } => device_id as int,
            ConcreteEvent::Osc { device_id, .. } => device_id as int,
        }
    }

    /// The device the event targets.
    pub fn device_id(&self) -> (r: usize)
        ensures
            r as int == self.spec_device_id(),
    {
        match self {
            ConcreteEvent::Nop => 0,
            ConcreteEvent::MidiNote { device_id, .. } => *device_id,
            ConcreteEvent::MidiControl { device_id, .. } => *device_id,
            ConcreteEvent::MidiProgram { device_id, .. } => *device_id,
            ConcreteEvent::MidiAftertouch { device_id, .. } => *device_id,
            ConcreteEvent::MidiChannelPressure { device_id, .. } => *device_id,
            ConcreteEvent::MidiSystemExclusive { device_id, .. } => *device_id,
            ConcreteEvent::MidiStart { device_id } => *device_id,
            ConcreteEvent::MidiStop { device_id } => *device_id,
            ConcreteEvent::MidiContinue { device_id } => *device_id,
            ConcreteEvent::MidiClock { device_id } => *device_id,
            ConcreteEvent::MidiReset { device_id } => *device_id,
            ConcreteEvent::Osc { device_id, .. } => *device_id,
        }
    }
}

/// A protocol payload: what one timed message carries.
pub enum ProtocolPayload {
    /// A log report for the logger.
    LOG(LogMessage),
    /// A MIDI message for an open MIDI connection.
    MIDI(MIDIMessage),
    /// An OSC message for a UDP endpoint.
    OSC(OSCMessage),
}

/// A protocol message: a payload aimed at a device, named by its stable
/// device identifier; the unverified rim resolves the identifier to the
/// open handle.
pub struct ProtocolMessage {
    /// The target device's stable identifier.
    pub device_id: usize,
    /// What to deliver.
    pub payload: ProtocolPayload,
}

/// A timed message: a protocol message due at an instant.
pub struct TimedMessage {
    /// The message.
    pub message: ProtocolMessage,
    /// The wall-clock microsecond date it is due.
    pub time: SyncTime,
}

impl ProtocolMessage {
    /// Stamp the message with a due date.
    pub fn timed(self, time: SyncTime) -> (t: TimedMessage)
        ensures
            t.message == self,
            t.time == time,
    {
        TimedMessage { message: self, time }
    }
}

} // verus!
