//! The connection task: a one-shot promise for the outcome of a handshake.

use vstd::prelude::*;

verus! {

/// Why a connection attempt failed. Each variant carries the description
/// given by the layer that failed.
#[derive(Debug, PartialEq, Eq)]
pub enum ConnectionError {
    /// The byte stream could not be set up or configured.
    Io(String),
    /// The WebSocket handshake on the stream failed.
    WebSocket(String),
}

impl ConnectionError {
    /// The short text that a report of this error starts with.
    pub open spec fn message_text(&self) -> Seq<char> {
        match self {
            ConnectionError::Io(_) => "IO"@,
            ConnectionError::WebSocket(_) => "WebSocket"@,
        }
    }

    /// The short text that a report of this error starts with.
    pub fn message(&self) -> (text: String)
        ensures
            text@ == self.message_text(),
    {
        match self {
            ConnectionError::Io(_) => "IO".to_owned(),
            ConnectionError::WebSocket(_) => "WebSocket".to_owned(),
        }
    }
}

/// How far a connection task has come.
pub enum TaskState<C> {
    /// The handshake has not reported a result yet.
    Working,
    /// The handshake has reported a result that nobody has taken yet.
    Finished(Result<C, ConnectionError>),
    /// The result was handed out by `poll`.
    Spent,
}

/// The model of a connection task that contracts speak of.
pub struct TaskView<C> {
    pub endpoint: Seq<char>,
    pub state: TaskState<C>,
}

/// One attempt to connect to an endpoint. The handshake runs elsewhere and
/// reports through `complete`; `poll` hands the result to the owner of the
/// task, once.
pub struct ConnectionTask<C> {
    endpoint: String,
    state: TaskState<C>,
}

impl<C> View for ConnectionTask<C> {
    type V = TaskView<C>;

    closed spec fn view(&self) -> TaskView<C> {
        TaskView { endpoint: self.endpoint@, state: self.state }
    }
}

impl<C> ConnectionTask<C> {
    /// A task for a handshake with `endpoint` that has not reported yet.
    pub fn start(endpoint: &str) -> (task: Self)
        ensures
            task@ == (TaskView::<C> { endpoint: endpoint@, state: TaskState::Working }),
    {
        ConnectionTask { endpoint: endpoint.to_owned(), state: TaskState::Working }
    }

    /// The endpoint that the task connects to.
    pub fn endpoint(&self) -> (endpoint: &str)
        ensures
            endpoint@ == self@.endpoint,
    {
        self.endpoint.as_str()
    }

    /// Records the result of the handshake. The first result is kept and
    /// `true` returned; a task that already has one, or has handed it out,
    /// stays as it is.
    pub fn complete(&mut self, result: Result<C, ConnectionError>) -> (accepted: bool)
        ensures
            accepted <==> old(self)@.state is Working,
            final(self)@.endpoint == old(self)@.endpoint,
            final(self)@.state == if accepted {
                TaskState::Finished(result)
            } else {
                old(self)@.state
            },
    {
        match self.state {
            TaskState::Working => {
                self.state = TaskState::Finished(result);
                true
            },
            _ => false,
        }
    }

    /// Checks for completion without waiting. Returns `None` while the
    /// handshake is outstanding, and changes nothing then. Returns the result
    /// once it is there; the task is spent after that.
    pub fn poll(&mut self) -> (out: Option<Result<C, ConnectionError>>)
        ensures
            final(self)@.endpoint == old(self)@.endpoint,
            match old(self)@.state {
                TaskState::Finished(result) => out == Some(result) && final(self)@.state
                    == TaskState::<C>::Spent,
                _ => out is None && final(self)@.state == old(self)@.state,
            },
    {
        let mut state = TaskState::Spent;
        std::mem::swap(&mut self.state, &mut state);
        match state {
            TaskState::Finished(result) => Some(result),
            other => {
                self.state = other;
                None
            },
        }
    }
}

} // verus!
