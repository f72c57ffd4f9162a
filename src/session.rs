//! The lifecycle of one hardware signing session: open, authenticate, sign,
//! deauthenticate, close. The machine decides the next device operation from
//! the result of the previous one; the caller performs the operations. On
//! every path, success or failure, a session that was opened is closed and an
//! authentication that succeeded is released before the machine finishes.

use crate::crypto::BackendError;
use vstd::prelude::*;

verus! {

/// The device operation the session asks for next.
#[derive(Debug, Clone, Copy, PartialEq, Eq, Structural)]
pub enum SessionAction {
    OpenSession,
    Authenticate,
    Sign,
    Deauthenticate,
    CloseSession,
    /// Nothing is left to do; the outcome is available.
    Finished,
}

/// The result of the operation last asked for.
pub enum SessionEvent {
    /// The operation succeeded (and produced nothing).
    Completed,
    /// The signing operation succeeded with these signature bytes.
    Produced(Vec<u8>),
    /// The operation failed.
    Failed,
}

/// The abstract state of a session.
pub struct SessionView {
    pub pending: SessionAction,
    pub open: bool,
    pub authenticated: bool,
    pub signature: Option<Seq<u8>>,
    pub error: Option<BackendError>,
}

/// How many operations at most are left before the session finishes.
pub open spec fn remaining(a: SessionAction) -> nat {
    match a {
        SessionAction::OpenSession => 5,
        SessionAction::Authenticate => 4,
        SessionAction::Sign => 3,
        SessionAction::Deauthenticate => 2,
        SessionAction::CloseSession => 1,
        SessionAction::Finished => 0,
    }
}

/// The state of a session that has not started any operation.
pub open spec fn initial_view() -> SessionView {
    SessionView {
        pending: SessionAction::OpenSession,
        open: false,
        authenticated: false,
        signature: None,
        error: None,
    }
}

/// Exactly one of a signature and an error has been settled.
pub open spec fn settled(s: SessionView) -> bool {
    s.signature is Some != s.error is Some
}

/// The states a session can be in.
pub open spec fn session_wf(s: SessionView) -> bool {
    match s.pending {
        SessionAction::OpenSession => !s.open && !s.authenticated && s.signature is None
            && s.error is None,
        SessionAction::Authenticate => s.open && !s.authenticated && s.signature is None
            && s.error is None,
        SessionAction::Sign => s.open && s.authenticated && s.signature is None && s.error is None,
        SessionAction::Deauthenticate => s.open && s.authenticated && settled(s),
        SessionAction::CloseSession => s.open && !s.authenticated && settled(s),
        SessionAction::Finished => !s.open && !s.authenticated && settled(s),
    }
}

/// The state after the pending operation ended with `ev`.
pub open spec fn next_view(s: SessionView, ev: SessionEvent) -> SessionView {
    match s.pending {
        SessionAction::OpenSession => match ev {
            SessionEvent::Failed => SessionView {
                pending: SessionAction::Finished,
                error: Some(BackendError::SessionOpenFailed),
                ..s
            },
            _ => SessionView { pending: SessionAction::Authenticate, open: true, ..s },
        },
        SessionAction::Authenticate => match ev {
            SessionEvent::Failed => SessionView {
                pending: SessionAction::CloseSession,
                error: Some(BackendError::AuthenticationFailed),
                ..s
            },
            _ => SessionView { pending: SessionAction::Sign, authenticated: true, ..s },
        },
        SessionAction::Sign => match ev {
            SessionEvent::Produced(v) => SessionView {
                pending: SessionAction::Deauthenticate,
                signature: Some(v@),
                ..s
            },
            _ => SessionView {
                pending: SessionAction::Deauthenticate,
                error: Some(BackendError::SigningFailed),
                ..s
            },
        },
        SessionAction::Deauthenticate => SessionView {
            pending: SessionAction::CloseSession,
            authenticated: false,
            ..s
        },
        SessionAction::CloseSession => SessionView {
            pending: SessionAction::Finished,
            open: false,
            ..s
        },
        SessionAction::Finished => s,
    }
}

/// What a finished session hands to the wallet.
pub open spec fn outcome_of(s: SessionView) -> Result<Seq<u8>, BackendError> {
    match s.error {
        Some(e) => Err(e),
        None => Ok(s.signature->Some_0),
    }
}

/// One hardware signing session, driven one operation at a time.
pub struct HsmSession {
    pending: SessionAction,
    open: bool,
    authenticated: bool,
    signature: Option<Vec<u8>>,
    error: Option<BackendError>,
}

impl View for HsmSession {
    type V = SessionView;

    closed spec fn view(&self) -> SessionView {
        SessionView {
            pending: self.pending,
            open: self.open,
            authenticated: self.authenticated,
            signature: match self.signature {
                Some(v) => Some(v@),
                None => None,
            },
            error: self.error,
        }
    }
}

impl HsmSession {
    /// A session about to be opened.
    pub fn start() -> (r: HsmSession)
        ensures
            r@ == initial_view(),
            session_wf(r@),
    {
        HsmSession {
            pending: SessionAction::OpenSession,
            open: false,
            authenticated: false,
            signature: None,
            error: None,
        }
    }

    /// The operation asked for next.
    pub fn pending(&self) -> (r: SessionAction)
        ensures
            r == self@.pending,
    {
        self.pending
    }

    /// Whether a device session is currently open.
    pub fn is_open(&self) -> (r: bool)
        ensures
            r == self@.open,
    {
        self.open
    }

    /// Whether the device session is currently authenticated.
    pub fn is_authenticated(&self) -> (r: bool)
        ensures
            r == self@.authenticated,
    {
        self.authenticated
    }

    /// Whether the session has finished.
    pub fn is_finished(&self) -> (r: bool)
        ensures
            r == (self@.pending == SessionAction::Finished),
    {
        match self.pending {
            SessionAction::Finished => true,
            _ => false,
        }
    }

    /// Records how the pending operation ended and returns the next one.
    pub fn step(&mut self, event: SessionEvent) -> (r: SessionAction)
        requires
            session_wf(old(self)@),
        ensures
            final(self)@ == next_view(old(self)@, event),
            session_wf(final(self)@),
            r == final(self)@.pending,
            old(self)@.pending != SessionAction::Finished ==> remaining(final(self)@.pending)
                < remaining(old(self)@.pending),
    {
        match self.pending {
            SessionAction::OpenSession => match event {
                SessionEvent::Failed => {
                    self.error = Some(BackendError::SessionOpenFailed);
                    self.pending = SessionAction::Finished;
                },
                _ => {
                    self.open = true;
                    self.pending = SessionAction::Authenticate;
                },
            },
            SessionAction::Authenticate => match event {
                SessionEvent::Failed => {
                    self.error = Some(BackendError::AuthenticationFailed);
                    self.pending = SessionAction::CloseSession;
                },
                _ => {
                    self.authenticated = true;
                    self.pending = SessionAction::Sign;
                },
            },
            SessionAction::Sign => {
                match event {
                    SessionEvent::Produced(v) => {
                        self.signature = Some(v);
                    },
                    _ => {
                        self.error = Some(BackendError::SigningFailed);
                    },
                }
                self.pending = SessionAction::Deauthenticate;
            },
            SessionAction::Deauthenticate => {
                self.authenticated = false;
                self.pending = SessionAction::CloseSession;
            },
            SessionAction::CloseSession => {
                self.open = false;
                self.pending = SessionAction::Finished;
            },
            SessionAction::Finished => {},
        }
        self.pending
    }

    /// The signature the session produced, or the error that ended it.
    pub fn outcome(&self) -> (r: Result<Vec<u8>, BackendError>)
        requires
            session_wf(self@),
            self@.pending == SessionAction::Finished,
        ensures
            match (r, outcome_of(self@)) {
                (Ok(v), Ok(w)) => v@ == w,
                (Err(e), Err(f)) => e == f,
                _ => false,
            },
    {
        match self.error {
            Some(e) => Err(e),
            None => match &self.signature {
                Some(v) => Ok(v.clone()),
                None => Err(BackendError::SigningFailed),
            },
        }
    }
}

/// Whatever the device reports, a finished session is closed and no longer
/// authenticated.
pub proof fn lemma_finished_session_released(s: SessionView)
    requires
        session_wf(s),
        s.pending == SessionAction::Finished,
    ensures
        !s.open,
        !s.authenticated,
{
}

/// Every operation result keeps the session in one of its valid states and
/// brings it closer to finishing; once finished, it stays finished.
pub proof fn lemma_step_progresses(s: SessionView, ev: SessionEvent)
    requires
        session_wf(s),
    ensures
        session_wf(next_view(s, ev)),
        s.pending != SessionAction::Finished ==> remaining(next_view(s, ev).pending) < remaining(
            s.pending,
        ),
        s.pending == SessionAction::Finished ==> next_view(s, ev) == s,
{
}

} // verus!
