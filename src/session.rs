use vstd::prelude::*;
use crate::store::{PacketStore, StoreError};
use crate::terminate::{RetryPolicy, TerminateAction, TerminateLoop, terminate_step};

verus! {

/// Where a device session stands.
#[derive(Debug, Clone, Copy, PartialEq, Eq, Structural)]
pub enum SessionState {
    /// Looking for the device; not connected yet.
    Discovering,
    Connected,
    /// The handshake is done; streaming commands are valid.
    Initialized,
    /// History is being received and stored.
    Streaming,
    /// Streaming is over; the terminate command still has to be delivered.
    Draining,
    /// The terminate command was sent.
    Terminated,
    /// The session attempt was aborted.
    Failed,
}

/// How the history stream ended.
#[derive(Debug, Clone, Copy, PartialEq, Eq, Structural)]
pub enum StreamEnd {
    /// The device signalled the end of its history.
    EndOfHistory,
    /// The connection dropped before the end of history.
    Disconnected,
    /// The notification channel failed otherwise.
    ChannelError,
}

/// Errors surfaced by a session.
#[derive(Debug, Clone, Copy, PartialEq, Eq, Structural)]
pub enum SessionError {
    /// The connection could not be established.
    Transport,
    /// The handshake was rejected.
    Protocol,
    /// A received packet could not be stored.
    Store(StoreError),
    /// The event does not fit the current state.
    OutOfOrder,
    /// The retry ceiling was reached before the terminate command was sent.
    TerminateNotDelivered,
}

/// One discover, connect, initialize, stream, terminate lifecycle.
#[derive(Debug, Clone, Copy, PartialEq, Eq, Structural)]
pub struct Session {
    pub state: SessionState,
    /// Packets stored during this session.
    pub captured: u64,
    /// How streaming ended, once it has.
    pub stream_end: Option<StreamEnd>,
    pub terminate: TerminateLoop,
}

impl Session {
    pub open spec fn wf(&self) -> bool {
        self.terminate.wf()
    }

    pub fn new(policy: RetryPolicy) -> (r: Session)
        ensures
            r.wf(),
            r.state == SessionState::Discovering,
            r.captured == 0,
            r.stream_end is None,
            r.terminate.policy == policy,
            r.terminate.attempts == 0,
            !r.terminate.finished,
    {
        Session {
            state: SessionState::Discovering,
            captured: 0,
            stream_end: None,
            terminate: TerminateLoop::new(policy),
        }
    }

    /// Records the outcome of a connect attempt. Connecting when already
    /// connected changes nothing; a failed connect aborts the session.
    pub fn on_connect(&mut self, connected: bool) -> (r: Result<(), SessionError>)
        requires
            old(self).wf(),
        ensures
            final(self).wf(),
            final(self).captured == old(self).captured,
            final(self).terminate == old(self).terminate,
            final(self).stream_end == old(self).stream_end,
            match old(self).state {
                SessionState::Discovering | SessionState::Connected => if connected {
                    r is Ok && final(self).state == SessionState::Connected
                } else {
                    r == Err::<(), SessionError>(SessionError::Transport) && final(self).state
                        == SessionState::Failed
                },
                _ => r == Err::<(), SessionError>(SessionError::OutOfOrder) && final(self).state == old(self).state,
            },
    {
        match self.state {
            SessionState::Discovering | SessionState::Connected => {
                if connected {
                    self.state = SessionState::Connected;
                    Ok(())
                } else {
                    self.state = SessionState::Failed;
                    Err(SessionError::Transport)
                }
            },
            _ => Err(SessionError::OutOfOrder),
        }
    }

    /// Records the outcome of the handshake; a rejected one aborts the session.
    pub fn on_initialize(&mut self, accepted: bool) -> (r: Result<(), SessionError>)
        requires
            old(self).wf(),
        ensures
            final(self).wf(),
            final(self).captured == old(self).captured,
            final(self).terminate == old(self).terminate,
            final(self).stream_end == old(self).stream_end,
            old(self).state == SessionState::Connected ==> if accepted {
                r is Ok && final(self).state == SessionState::Initialized
            } else {
                r == Err::<(), SessionError>(SessionError::Protocol) && final(self).state == SessionState::Failed
            },
            old(self).state != SessionState::Connected ==> r == Err::<(), SessionError>(SessionError::OutOfOrder)
                && final(self).state == old(self).state,
    {
        if self.state != SessionState::Connected {
            return Err(SessionError::OutOfOrder);
        }
        if accepted {
            self.state = SessionState::Initialized;
            Ok(())
        } else {
            self.state = SessionState::Failed;
            Err(SessionError::Protocol)
        }
    }

    /// Enters streaming; the caller then issues the start-streaming command.
    pub fn start_streaming(&mut self) -> (r: Result<(), SessionError>)
        requires
            old(self).wf(),
        ensures
            final(self).wf(),
            final(self).captured == old(self).captured,
            final(self).terminate == old(self).terminate,
            final(self).stream_end == old(self).stream_end,
            old(self).state == SessionState::Initialized ==> r is Ok && final(self).state
                == SessionState::Streaming,
            old(self).state != SessionState::Initialized ==> r == Err::<(), SessionError>(
                SessionError::OutOfOrder,
            ) && final(self).state == old(self).state,
    {
        if self.state != SessionState::Initialized {
            return Err(SessionError::OutOfOrder);
        }
        self.state = SessionState::Streaming;
        Ok(())
    }

    /// Appends a received payload to `store` before anything else happens to
    /// it, and returns its id. A payload that cannot be stored ends streaming:
    /// the session moves on to delivering the terminate command.
    pub fn on_packet(&mut self, store: &mut PacketStore, payload: Vec<u8>) -> (r: Result<u64, SessionError>)
        requires
            old(self).wf(),
            old(store).wf(),
        ensures
            final(self).wf(),
            final(store).wf(),
            final(self).terminate == old(self).terminate,
            old(self).state != SessionState::Streaming ==> r == Err::<u64, SessionError>(
                SessionError::OutOfOrder,
            ) && *final(self) == *old(self) && final(store)@ == old(store)@,
            old(self).state == SessionState::Streaming && old(store)@.len() < u64::MAX ==> r == Ok::<
                u64,
                SessionError,
            >((old(store)@.len() + 1) as u64) && final(store)@ == old(store)@.push(payload@)
                && final(self).state == SessionState::Streaming && final(self).captured == if old(self).captured < u64::MAX {
                old(self).captured + 1
            } else {
                old(self).captured as int
            },
            old(self).state == SessionState::Streaming && old(store)@.len() == u64::MAX ==> r == Err::<
                u64,
                SessionError,
            >(SessionError::Store(StoreError::IdSpaceExhausted)) && final(store)@ == old(store)@
                && final(self).state == SessionState::Draining && final(self).stream_end == Some(
                StreamEnd::ChannelError,
            ),
    {
        if self.state != SessionState::Streaming {
            return Err(SessionError::OutOfOrder);
        }
        match store.append(payload) {
            Ok(id) => {
                if self.captured < u64::MAX {
                    self.captured = self.captured + 1;
                }
                Ok(id)
            },
            Err(e) => {
                self.state = SessionState::Draining;
                self.stream_end = Some(StreamEnd::ChannelError);
                Err(SessionError::Store(e))
            },
        }
    }

    /// Ends streaming however it ended. A stream that broke off is not fatal:
    /// the packets already stored stay, and the terminate command is still owed.
    pub fn on_stream_end(&mut self, end: StreamEnd) -> (r: Result<(), SessionError>)
        requires
            old(self).wf(),
        ensures
            final(self).wf(),
            final(self).captured == old(self).captured,
            final(self).terminate == old(self).terminate,
            old(self).state == SessionState::Streaming ==> r is Ok && final(self).state
                == SessionState::Draining && final(self).stream_end == Some(end),
            old(self).state != SessionState::Streaming ==> r == Err::<(), SessionError>(
                SessionError::OutOfOrder,
            ) && *final(self) == *old(self),
    {
        if self.state != SessionState::Streaming {
            return Err(SessionError::OutOfOrder);
        }
        self.state = SessionState::Draining;
        self.stream_end = Some(end);
        Ok(())
    }

    /// One round of terminate delivery, after a check that found the device
    /// `connected`: the action comes from the retry loop; sending the command
    /// ends the session, reaching the retry ceiling fails it.
    pub fn on_connection_check(&mut self, connected: bool) -> (r: Result<TerminateAction, SessionError>)
        requires
            old(self).wf(),
        ensures
            final(self).wf(),
            final(self).captured == old(self).captured,
            final(self).stream_end == old(self).stream_end,
            old(self).state != SessionState::Draining ==> r == Err::<TerminateAction, SessionError>(
                SessionError::OutOfOrder,
            ) && *final(self) == *old(self),
            old(self).state == SessionState::Draining ==> {
                let (t, a) = terminate_step(old(self).terminate, connected);
                &&& final(self).terminate == t
                &&& a == TerminateAction::GiveUp ==> r == Err::<TerminateAction, SessionError>(
                    SessionError::TerminateNotDelivered,
                ) && final(self).state == SessionState::Failed
                &&& a != TerminateAction::GiveUp ==> r == Ok::<TerminateAction, SessionError>(a)
                &&& a == TerminateAction::SendTerminate ==> final(self).state == SessionState::Terminated
                &&& a != TerminateAction::SendTerminate && a != TerminateAction::GiveUp ==> final(self).state == SessionState::Draining
            },
    {
        if self.state != SessionState::Draining {
            return Err(SessionError::OutOfOrder);
        }
        let a = self.terminate.on_check(connected);
        match a {
            TerminateAction::SendTerminate => {
                self.state = SessionState::Terminated;
                Ok(a)
            },
            TerminateAction::GiveUp => {
                self.state = SessionState::Failed;
                Err(SessionError::TerminateNotDelivered)
            },
            _ => Ok(a),
        }
    }
}

} // verus!
