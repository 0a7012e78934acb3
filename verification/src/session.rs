//! The class `session`, as the 1C side drives it: start, send, stop, and the last error.
//!
//! [`SessionState`] decides which call is in order. The integration itself belongs to the caller.
use vstd::prelude::*;

use crate::text;
use crate::tunnel::SendError;

verus! {

/// Why a call was refused.
#[derive(Debug, Clone, Copy, PartialEq, Eq, Structural)]
pub enum SessionError {
    /// An integration runs already.
    AlreadyRunning,
    /// The platform has not given its connection yet.
    NotInitialized,
    /// No integration runs.
    NotRunning,
    /// The message could not be queued.
    Send(SendError),
}

/// The text of an error, as the 1C side sees it.
pub open spec fn message_of(error: SessionError) -> Seq<char> {
    match error {
        SessionError::AlreadyRunning => "Сессионная интеграция уже запущена"@,
        SessionError::NotInitialized => "Connection недоступен — addin не инициализирован"@,
        SessionError::NotRunning => "Сессионная интеграция не запущена"@,
        SessionError::Send(SendError::Closed) => "send: Closed"@,
    }
}

impl SessionError {
    /// The text of this error.
    pub fn message(self) -> (out: &'static str)
        ensures
            out@ == message_of(self),
    {
        match self {
            SessionError::AlreadyRunning => "Сессионная интеграция уже запущена",
            SessionError::NotInitialized => "Connection недоступен — addin не инициализирован",
            SessionError::NotRunning => "Сессионная интеграция не запущена",
            SessionError::Send(SendError::Closed) => "send: Closed",
        }
    }
}

/// What an integration is started with.
#[derive(Debug)]
pub struct StartRequest {
    pub url: String,
    /// `None` where the 1C side gave an empty one.
    pub correlation_id: Option<String>,
}

/// What is known of one object of the class.
#[derive(Debug)]
pub struct SessionState {
    /// Whether the platform has given its connection.
    pub initialized: bool,
    /// Whether an integration runs.
    pub running: bool,
    /// The text of the last error.
    pub last_error: Option<String>,
}

impl Default for SessionState {
    fn default() -> (out: Self)
        ensures
            !out.initialized,
            !out.running,
            out.last_error is None,
    {
        SessionState::new()
    }
}

impl SessionState {
    /// The answer to a request to start.
    pub open spec fn start_answer(self) -> Result<(), SessionError> {
        if self.running {
            Err(SessionError::AlreadyRunning)
        } else if !self.initialized {
            Err(SessionError::NotInitialized)
        } else {
            Ok(())
        }
    }

    /// The answer to a request to send.
    pub open spec fn send_answer(self) -> Result<(), SessionError> {
        if self.running {
            Ok(())
        } else {
            Err(SessionError::NotRunning)
        }
    }

    /// An object before the platform has given its connection.
    pub fn new() -> (out: Self)
        ensures
            !out.initialized,
            !out.running,
            out.last_error is None,
    {
        SessionState { initialized: false, running: false, last_error: None }
    }

    /// Takes note of the platform's connection.
    pub fn init(&mut self)
        ensures
            *final(self) == (SessionState { initialized: true, ..*old(self) }),
    {
        self.initialized = true;
    }

    /// Whether an integration may be started now. That one runs already is reported before that the
    /// connection is missing.
    pub fn check_start(&self) -> (out: Result<(), SessionError>)
        ensures
            out == self.start_answer(),
    {
        if self.running {
            Err(SessionError::AlreadyRunning)
        } else if !self.initialized {
            Err(SessionError::NotInitialized)
        } else {
            Ok(())
        }
    }

    /// Takes note that an integration is started, and says with what. An empty correlation
    /// identifier is none.
    pub fn start(&mut self, url: String, correlation_id: String) -> (out: StartRequest)
        requires
            old(self).start_answer() is Ok,
        ensures
            *final(self) == (SessionState { running: true, ..*old(self) }),
            out.url == url,
            out.correlation_id == if correlation_id@.len() == 0 {
                None
            } else {
                Some(correlation_id)
            },
    {
        self.running = true;
        let correlation_id = if correlation_id.as_str().is_empty() {
            None
        } else {
            Some(correlation_id)
        };
        StartRequest { url, correlation_id }
    }

    /// Whether there is an integration to send through.
    pub fn check_send(&self) -> (out: Result<(), SessionError>)
        ensures
            out == self.send_answer(),
    {
        if self.running {
            Ok(())
        } else {
            Err(SessionError::NotRunning)
        }
    }

    /// Takes note that the integration is to stop. Returns whether there was one: stopping twice is
    /// no error.
    pub fn stop(&mut self) -> (was_running: bool)
        ensures
            was_running == old(self).running,
            *final(self) == (SessionState { running: false, ..*old(self) }),
    {
        let was_running: bool = self.running;
        self.running = false;
        was_running
    }

    /// Keeps the text of the last error; `None` after a call without one.
    pub fn save_error(&mut self, error: Option<String>)
        ensures
            *final(self) == (SessionState { last_error: error, ..*old(self) }),
    {
        self.last_error = error;
    }

    /// The text of the last error, empty where there is none.
    pub fn error_text(&self) -> (out: String)
        ensures
            out@ == match text::text_of(self.last_error) {
                Some(error) => error,
                None => Seq::empty(),
            },
    {
        match &self.last_error {
            Some(error) => error.clone(),
            None => String::new(),
        }
    }
}

/// What the 1C side is answered for the result of queueing a message.
pub fn send_outcome(result: Result<(), SendError>) -> (out: Result<(), SessionError>)
    ensures
        out == match result {
            Ok(_) => Ok::<(), SessionError>(()),
            Err(error) => Err(SessionError::Send(error)),
        },
{
    match result {
        Ok(_) => Ok(()),
        Err(error) => Err(SessionError::Send(error)),
    }
}

/// There is never a second integration beside a running one, and there can be one again as soon as
/// the first was stopped: sending is in order exactly between the two.
pub proof fn law_one_integration_at_a_time(before: SessionState)
    requires
        before.start_answer() is Ok,
    ensures
        ({
            let running = SessionState { running: true, ..before };
            let stopped = SessionState { running: false, ..running };
            &&& before.send_answer() == Err::<(), SessionError>(SessionError::NotRunning)
            &&& running.start_answer() == Err::<(), SessionError>(SessionError::AlreadyRunning)
            &&& running.send_answer() is Ok
            &&& stopped.start_answer() is Ok
            &&& stopped.send_answer() == Err::<(), SessionError>(SessionError::NotRunning)
        }),
{
}

/// When a start and a sending are in order: a start exactly where nothing runs and the connection is
/// there, a sending exactly where an integration runs. The last error plays no part.
pub proof fn law_when_calls_are_in_order(state: SessionState)
    ensures
        state.start_answer() is Ok <==> !state.running && state.initialized,
        state.running ==> state.start_answer() == Err::<(), SessionError>(
            SessionError::AlreadyRunning,
        ),
        !state.running && !state.initialized ==> state.start_answer() == Err::<(), SessionError>(
            SessionError::NotInitialized,
        ),
        state.send_answer() is Ok <==> state.running,
        !state.running ==> state.send_answer() == Err::<(), SessionError>(
            SessionError::NotRunning,
        ),
{
}

} // verus!
