//! SMTP session state.
//!
//! SMTP is a stateful protocol where certain commands are only valid in certain states.
//! The session progresses through states as commands are executed successfully:
//! Connect, Greeted (220), Ready (after EHLO/HELO), Mail (after MAIL FROM),
//! Rcpt (after RCPT TO), Data (after DATA), back to Ready after the message,
//! and Quit.

use vstd::prelude::*;

verus! {

/// State of an SMTP session.
///
/// # Reference
///
/// RFC 5321 Section 3: The SMTP Procedures
#[derive(Debug, Clone, Copy, PartialEq, Eq, Hash, Structural)]
pub enum State {
    /// Initial state after connection, waiting for server greeting.
    Connect,
    /// After receiving the 220 greeting, before EHLO/HELO.
    Greeted,
    /// After successful EHLO/HELO, ready for mail transaction.
    Ready,
    /// After successful MAIL FROM, waiting for RCPT TO.
    Mail,
    /// After at least one successful RCPT TO, ready for DATA or more RCPT TO.
    Rcpt,
    /// After DATA command, transferring message content.
    Data,
    /// Session ended (after QUIT or server disconnect).
    Quit,
}

impl Default for State {
    fn default() -> (r: State)
        ensures
            r == State::Connect,
    {
        State::Connect
    }
}

impl State {
    /// MAIL FROM is valid in this state.
    pub open spec fn allows_mail(self) -> bool {
        self == State::Ready
    }

    /// RCPT TO is valid in this state.
    pub open spec fn allows_rcpt(self) -> bool {
        self == State::Mail || self == State::Rcpt
    }

    /// DATA is valid in this state.
    pub open spec fn allows_data(self) -> bool {
        self == State::Rcpt
    }

    /// RSET is valid in this state.
    pub open spec fn allows_rset(self) -> bool {
        !(self == State::Connect || self == State::Quit || self == State::Data)
    }

    /// The session has not ended.
    pub open spec fn active(self) -> bool {
        self != State::Quit
    }

    /// A mail transaction is under way.
    pub open spec fn transaction(self) -> bool {
        self == State::Mail || self == State::Rcpt || self == State::Data
    }

    /// Returns true if MAIL FROM is valid in this state.
    pub fn can_mail(&self) -> (r: bool)
        ensures
            r == self.allows_mail(),
            r <==> *self == State::Ready,
    {
        matches!(self, State::Ready)
    }

    /// Returns true if RCPT TO is valid in this state.
    pub fn can_rcpt(&self) -> (r: bool)
        ensures
            r == self.allows_rcpt(),
            r <==> (*self == State::Mail || *self == State::Rcpt),
    {
        matches!(self, State::Mail | State::Rcpt)
    }

    /// Returns true if DATA is valid in this state.
    pub fn can_data(&self) -> (r: bool)
        ensures
            r == self.allows_data(),
            r <==> *self == State::Rcpt,
    {
        matches!(self, State::Rcpt)
    }

    /// Returns true if RSET is valid in this state.
    pub fn can_rset(&self) -> (r: bool)
        ensures
            r == self.allows_rset(),
            r <==> (*self == State::Greeted || *self == State::Ready || *self == State::Mail
                || *self == State::Rcpt),
    {
        !matches!(self, State::Connect | State::Quit | State::Data)
    }

    /// Returns true if the session is active (not quit).
    pub fn is_active(&self) -> (r: bool)
        ensures
            r == self.active(),
            r <==> *self != State::Quit,
    {
        !matches!(self, State::Quit)
    }

    /// Returns true if we're in the middle of a mail transaction.
    pub fn in_transaction(&self) -> (r: bool)
        ensures
            r == self.transaction(),
            r <==> (*self == State::Mail || *self == State::Rcpt || *self == State::Data),
    {
        matches!(self, State::Mail | State::Rcpt | State::Data)
    }
}

/// How the permissions of a state fit together: DATA is only allowed where
/// RCPT TO is, RCPT TO only inside a mail transaction, a transaction only in
/// an active session and never where MAIL FROM is allowed, and RSET only in
/// an active session.
pub proof fn law_state_permissions(s: State)
    ensures
        s.allows_data() ==> s.allows_rcpt(),
        s.allows_rcpt() ==> s.transaction(),
        s.transaction() ==> s.active() && !s.allows_mail(),
        s.allows_rset() ==> s.active(),
        s.allows_mail() ==> s.allows_rset(),
{
}

/// The states in which each command is accepted: MAIL FROM only once the
/// session is ready; RCPT TO only after MAIL FROM or another RCPT TO, so
/// never before MAIL FROM and never while the message content is being
/// transferred; DATA only after a RCPT TO; RSET in a greeted, open session
/// outside of the data transfer. The session is active until QUIT, and a mail
/// transaction runs from MAIL FROM through DATA.
pub proof fn law_state_commands(s: State)
    ensures
        s.allows_mail() <==> s == State::Ready,
        s.allows_rcpt() <==> (s == State::Mail || s == State::Rcpt),
        s.allows_data() <==> s == State::Rcpt,
        s.allows_rset() <==> (s == State::Greeted || s == State::Ready || s == State::Mail || s
            == State::Rcpt),
        s.active() <==> s != State::Quit,
        s.transaction() <==> (s == State::Mail || s == State::Rcpt || s == State::Data),
        s.allows_rcpt() <==> (s.transaction() && s != State::Data),
{
}

} // verus!
