//! Live-coding performance engine: a synchronized musical clock, a scene of
//! script-bearing frames, a scheduler that launches and pumps script
//! executions, a bytecode virtual machine, a device registry with stable
//! identifiers, and a dispatch queue that delivers timed protocol messages.

use vstd::prelude::*;

pub mod clock;
pub mod scene;
pub mod sched;
pub mod protocol;
pub mod device;
pub mod dispatch;
pub mod vm;
pub mod dummylang;
pub mod scheduler;
pub mod ui;
pub mod logger;
pub mod interp;
pub mod server;
pub mod config;
pub mod boinx;
pub mod rhai;
pub mod codec;
pub mod text;

verus! {

/// Monotonic wall-clock time in microseconds since a fixed epoch.
pub type SyncTime = u64;

/// Microbeats per beat: beat positions and lengths are held in fixed-point
/// microbeat units so that scheduling arithmetic is exact.
pub const MICROBEATS_PER_BEAT: u64 = 1_000_000;

/// Lookahead between the current instant and the theoretical scheduling date,
/// in microseconds, giving dispatch time to meet the target instant.
pub const SCHEDULED_DRIFT: SyncTime = 1_000;

/// The kinds of errors the engine reports.
#[derive(Clone, Copy, PartialEq, Eq, Structural, Debug)]
pub enum ErrorKind {
    /// A script failed to compile; the previous script stays in place.
    CompileError,
    /// A running script failed; its execution is stopped and removed.
    RuntimeError,
    /// No device carries the given identifier or name.
    DeviceNotFound,
    /// A connection could not be opened.
    ConnectionFailed,
    /// A protocol message could not be encoded; only that message is lost.
    ProtocolEncodeError,
    /// A channel between the engine's threads closed; fatal.
    ChannelClosed,
    /// A request carried an out-of-range or ill-formed value.
    InvalidArgument,
    /// A slot is already taken, or the device already holds another slot.
    SlotConflict,
    /// An operating-system input or output operation failed.
    IoError,
}

/// The theoretical date used for all scheduling decisions: a small lookahead
/// past the current instant.
pub fn theoretical_date(now: SyncTime) -> (r: SyncTime)
    requires
        now + SCHEDULED_DRIFT <= u64::MAX,
    ensures
        r == now + SCHEDULED_DRIFT,
{
    now + SCHEDULED_DRIFT
}

} // verus!
