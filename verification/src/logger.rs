//! The logger's routing logic. The logger runs in one of four modes; each
//! report is routed to the terminal, to a host channel, to the network
//! notification bus, or to both terminal and bus. The channels themselves
//! live outside the core: routing produces a directive saying exactly where
//! a report must go, and the rim performs the sends, falling back to the
//! terminal when a channel is full or closed.

use vstd::prelude::*;
use crate::protocol::{LogMessage, ProtocolMessage, ProtocolPayload, Severity, TimedMessage};
use crate::device::LOG_DEVICE_ID;

verus! {

/// Which terminal stream a report goes to.
#[derive(Clone, Copy, PartialEq, Eq, Structural, Debug)]
pub enum TerminalStream {
    /// The ordinary output stream.
    Ordinary,
    /// The error stream, for errors and fatal reports.
    Failures,
}

/// The logger's operating mode.
#[derive(Clone, Copy, PartialEq, Eq, Structural, Debug)]
pub enum LoggerMode {
    /// Terminal only.
    Standalone,
    /// A bounded channel to a host.
    Embedded,
    /// The network notification bus only.
    Network,
    /// Terminal and network notification bus.
    Dual,
}

/// Where one report must go: at most one terminal stream, at most one
/// channel send, and optionally a timed message for the notification bus.
pub struct LogDirective {
    /// The terminal stream to print to, when any.
    pub terminal: Option<TerminalStream>,
    /// Whether the report goes onto the host channel.
    pub to_host: bool,
    /// The notification to broadcast, when any: the report wrapped as an
    /// immediate timed message for the log device.
    pub notification: Option<TimedMessage>,
}

/// The terminal stream of a severity: errors and fatal reports go to the
/// error stream, everything else to the ordinary one.
pub open spec fn spec_stream_of(level: Severity) -> TerminalStream {
    match level {
        Severity::Error => TerminalStream::Failures,
        Severity::Fatal => TerminalStream::Failures,
        _ => TerminalStream::Ordinary,
    }
}

/// The logger: an atomically replaceable mode.
pub struct Logger {
    /// The current mode.
    pub mode: LoggerMode,
}

impl Logger {
    /// A logger writing to the terminal only.
    pub fn new_standalone() -> (r: Logger)
        ensures
            r.mode == LoggerMode::Standalone,
    {
        Logger { mode: LoggerMode::Standalone }
    }

    /// Switch to the host channel.
    pub fn set_embedded_mode(&mut self)
        ensures
            final(self).mode == LoggerMode::Embedded,
    {
        self.mode = LoggerMode::Embedded;
    }

    /// Switch to the notification bus.
    pub fn set_network_mode(&mut self)
        ensures
            final(self).mode == LoggerMode::Network,
    {
        self.mode = LoggerMode::Network;
    }

    /// Switch to terminal and notification bus together.
    pub fn set_dual_mode(&mut self)
        ensures
            final(self).mode == LoggerMode::Dual,
    {
        self.mode = LoggerMode::Dual;
    }

    /// Switch to terminal only.
    pub fn set_standalone_mode(&mut self)
        ensures
            final(self).mode == LoggerMode::Standalone,
    {
        self.mode = LoggerMode::Standalone;
    }

    /// Route one report: standalone prints to the severity's stream;
    /// embedded sends to the host channel; network broadcasts the report as
    /// an immediate timed message for the log device; dual both prints and
    /// broadcasts.
    pub fn log(&self, level: Severity, msg: String) -> (r: LogDirective)
        ensures
            match self.mode {
                LoggerMode::Standalone => r.terminal == Some(spec_stream_of(level))
                    && !r.to_host && r.notification is None,
                LoggerMode::Embedded => r.terminal is None && r.to_host
                    && r.notification is None,
                LoggerMode::Network => r.terminal is None && !r.to_host
                    && spec_is_notification(r.notification, level, msg@),
                LoggerMode::Dual => r.terminal == Some(spec_stream_of(level))
                    && !r.to_host
                    && spec_is_notification(r.notification, level, msg@),
            },
    {
        let stream = match level {
            Severity::Error => TerminalStream::Failures,
            Severity::Fatal => TerminalStream::Failures,
            _ => TerminalStream::Ordinary,
        };
        match self.mode {
            LoggerMode::Standalone => LogDirective {
                terminal: Some(stream),
                to_host: false,
                notification: None,
            },
            LoggerMode::Embedded => LogDirective {
                terminal: None,
                to_host: true,
                notification: None,
            },
            LoggerMode::Network => LogDirective {
                terminal: None,
                to_host: false,
                notification: Some(notification_of(level, msg)),
            },
            LoggerMode::Dual => LogDirective {
                terminal: Some(stream),
                to_host: false,
                notification: Some(notification_of(level, msg)),
            },
        }
    }

    /// Route a diagnostic report.
    pub fn debug(&self, msg: String) -> (r: LogDirective)
    {
        self.log(Severity::Debug, msg)
    }

    /// Route an ordinary report.
    pub fn info(&self, msg: String) -> (r: LogDirective)
    {
        self.log(Severity::Info, msg)
    }

    /// Route a warning.
    pub fn warn(&self, msg: String) -> (r: LogDirective)
    {
        self.log(Severity::Warn, msg)
    }

    /// Route an error report.
    pub fn error(&self, msg: String) -> (r: LogDirective)
    {
        self.log(Severity::Error, msg)
    }

    /// Route a fatal report.
    pub fn fatal(&self, msg: String) -> (r: LogDirective)
    {
        self.log(Severity::Fatal, msg)
    }
}

/// Whether a broadcast notification carries exactly the given report, as an
/// immediate timed message for the log device.
pub open spec fn spec_is_notification(n: Option<TimedMessage>, level: Severity,
    msg: Seq<char>) -> bool {
    match n {
        Some(t) => t.time == 0
            && t.message.device_id == LOG_DEVICE_ID
            && (t.message.payload matches ProtocolPayload::LOG(l)
                && l.level == level && l.msg@ == msg),
        None => false,
    }
}

/// Wrap a report as an immediate timed message for the log device.
fn notification_of(level: Severity, msg: String) -> (r: TimedMessage)
    ensures
        spec_is_notification(Some(r), level, msg@),
{
    ProtocolMessage {
        device_id: LOG_DEVICE_ID,
        payload: ProtocolPayload::LOG(LogMessage::new(level, msg)),
    }.timed(0)
}

/// A fresh standalone logger, for the start of the process before a mode is
/// chosen.
pub fn init_standalone() -> (r: Logger)
    ensures
        r.mode == LoggerMode::Standalone,
{
    Logger::new_standalone()
}

/// Put a logger back into terminal-only mode.
pub fn set_standalone_mode(logger: &mut Logger)
    ensures
        final(logger).mode == LoggerMode::Standalone,
{
    logger.set_standalone_mode();
}

} // verus!
