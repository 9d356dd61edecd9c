//! What the core reports of its work, for the driver to log.

use crate::channel::{Message, RecvError, SendError};
use crate::registry::TaskEvent;
use crate::task::ConnectionError;
use vstd::prelude::*;

verus! {

/// How much a report matters.
#[derive(Debug, Clone, Copy, PartialEq, Eq, Structural)]
pub enum Level {
    Info,
    Warn,
}

/// One report.
#[derive(Debug, PartialEq, Eq)]
pub enum LogEntry {
    /// A connection attempt was started for the slot.
    ConnectionRequested { slot: u64 },
    /// The attempt succeeded; the slot is live.
    Connected { slot: u64 },
    /// The attempt failed; the slot is gone.
    ConnectionFailed { slot: u64, error: ConnectionError },
    /// A send cycle is due.
    SendDue,
    /// The transport took the payload.
    Sent { slot: u64 },
    /// The transport failed on a write.
    SendFailed { slot: u64, send_error: SendError },
    /// A message came in.
    Received { slot: u64, message: Message },
    /// The transport failed on a read.
    ReceiveFailed { slot: u64, recv_error: RecvError },
}

impl LogEntry {
    /// Failures of an installed channel are warnings; all else is
    /// information.
    pub open spec fn level_of(&self) -> Level {
        match self {
            LogEntry::SendFailed { .. } => Level::Warn,
            LogEntry::ReceiveFailed { .. } => Level::Warn,
            _ => Level::Info,
        }
    }

    /// The words that the report starts with.
    pub open spec fn headline_of(&self) -> Seq<char> {
        match self {
            LogEntry::ConnectionRequested { .. } => "Setting up connection!"@,
            LogEntry::Connected { .. } => "Connected successfully!"@,
            LogEntry::ConnectionFailed { .. } => "Connection failed with"@,
            LogEntry::SendDue => "Time to send data again..."@,
            LogEntry::Sent { .. } => "Data successfully sent!"@,
            LogEntry::SendFailed { .. } => "Could not send the message"@,
            LogEntry::Received { .. } => "Received message"@,
            LogEntry::ReceiveFailed { .. } => "error receiving"@,
        }
    }

    /// The report of a resolved connection task.
    pub open spec fn of_task(event: TaskEvent) -> LogEntry {
        match event {
            TaskEvent::Connected { slot } => LogEntry::Connected { slot },
            TaskEvent::Failed { slot, error } => LogEntry::ConnectionFailed { slot, error },
        }
    }

    /// How much the report matters.
    pub fn level(&self) -> (level: Level)
        ensures
            level == self.level_of(),
    {
        match self {
            LogEntry::SendFailed { .. } => Level::Warn,
            LogEntry::ReceiveFailed { .. } => Level::Warn,
            _ => Level::Info,
        }
    }

    /// The words that the report starts with.
    pub fn headline(&self) -> (text: &'static str)
        ensures
            text@ == self.headline_of(),
    {
        match self {
            LogEntry::ConnectionRequested { .. } => "Setting up connection!",
            LogEntry::Connected { .. } => "Connected successfully!",
            LogEntry::ConnectionFailed { .. } => "Connection failed with",
            LogEntry::SendDue => "Time to send data again...",
            LogEntry::Sent { .. } => "Data successfully sent!",
            LogEntry::SendFailed { .. } => "Could not send the message",
            LogEntry::Received { .. } => "Received message",
            LogEntry::ReceiveFailed { .. } => "error receiving",
        }
    }

    /// The report of a resolved connection task.
    pub fn from_task(event: TaskEvent) -> (entry: LogEntry)
        ensures
            entry == LogEntry::of_task(event),
    {
        match event {
            TaskEvent::Connected { slot } => LogEntry::Connected { slot },
            TaskEvent::Failed { slot, error } => LogEntry::ConnectionFailed { slot, error },
        }
    }
}

} // verus!
