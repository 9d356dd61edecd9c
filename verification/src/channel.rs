//! The socket channel: what an outcome reported by a non-blocking transport
//! means to the caller of `send` and `receive_one`.
//!
//! The write or read itself is made by the driver, on a stream that never
//! blocks. This module turns what the transport said into what the caller
//! is told: "nothing could be done right now" is an ordinary outcome, and
//! only a genuine failure is an error.

use vstd::prelude::*;

verus! {

/// A genuine failure of the transport.
#[derive(Debug, PartialEq, Eq)]
pub enum Fault {
    /// The byte stream failed: reset, broken pipe and the like.
    Io(String),
    /// The peer broke the protocol, or the connection is closed.
    Protocol(String),
}

/// What the transport says of an operation that did not go through.
#[derive(Debug, PartialEq, Eq)]
pub enum TransportError {
    /// The operation could not complete without blocking.
    WouldBlock,
    /// The operation failed.
    Failed(Fault),
}

/// A message from the peer. The core hands messages on and does not look
/// into them.
#[derive(Debug, PartialEq, Eq)]
pub enum Message {
    Text(String),
    Binary(Vec<u8>),
    Ping(Vec<u8>),
    Pong(Vec<u8>),
    Close,
}

/// What became of a payload that was handed to `send` without an error.
#[derive(Debug, Clone, Copy, PartialEq, Eq, Structural)]
pub enum Delivery {
    /// The transport took the payload.
    Sent,
    /// The transport had no room right now. The payload is dropped; the next
    /// send cycle brings a newer one.
    Deferred,
}

/// `send` failed.
#[derive(Debug, PartialEq, Eq)]
pub struct SendError(pub Fault);

/// `receive_one` failed.
#[derive(Debug, PartialEq, Eq)]
pub struct RecvError(pub Fault);

/// What `send` returns for what the transport said of the write.
pub open spec fn send_result(raw: Result<(), TransportError>) -> Result<Delivery, SendError> {
    match raw {
        Ok(()) => Ok(Delivery::Sent),
        Err(TransportError::WouldBlock) => Ok(Delivery::Deferred),
        Err(TransportError::Failed(fault)) => Err(SendError(fault)),
    }
}

/// What `receive_one` returns for what the transport said of the read.
pub open spec fn receive_result(raw: Result<Message, TransportError>) -> Result<
    Option<Message>,
    RecvError,
> {
    match raw {
        Ok(message) => Ok(Some(message)),
        Err(TransportError::WouldBlock) => Ok(None),
        Err(TransportError::Failed(fault)) => Err(RecvError(fault)),
    }
}

/// The outcome of a non-blocking write of a whole payload, given what the
/// transport said of it. A write that would have blocked is no error; any
/// other failure is reported.
pub fn send(raw: Result<(), TransportError>) -> (out: Result<Delivery, SendError>)
    ensures
        out == send_result(raw),
        raw == Err::<(), TransportError>(TransportError::WouldBlock) ==> out is Ok,
{
    match raw {
        Ok(()) => Ok(Delivery::Sent),
        Err(TransportError::WouldBlock) => Ok(Delivery::Deferred),
        Err(TransportError::Failed(fault)) => Err(SendError(fault)),
    }
}

/// The outcome of a non-blocking read, given what the transport said of it:
/// one message, or `None` where no message is there right now, which is no
/// error; any other failure is reported.
pub fn receive_one(raw: Result<Message, TransportError>) -> (out: Result<
    Option<Message>,
    RecvError,
>)
    ensures
        out == receive_result(raw),
        raw == Err::<Message, TransportError>(TransportError::WouldBlock) ==> out == Ok::<
            Option<Message>,
            RecvError,
        >(None),
{
    match raw {
        Ok(message) => Ok(Some(message)),
        Err(TransportError::WouldBlock) => Ok(None),
        Err(TransportError::Failed(fault)) => Err(RecvError(fault)),
    }
}

} // verus!
