//! The lifecycle status of a session and its stored and displayed forms.

use vstd::prelude::*;
use vstd::string::StringExecFns;

verus! {

/// Where a session stands in its lifecycle.
#[derive(Clone, Copy, Debug, PartialEq, Eq, Structural)]
pub enum SessionStatus {
    /// Created and not yet decided.
    Pending,
    /// Confirmed.
    Accepted,
    /// Called off; nothing follows.
    Cancelled,
    /// A stored value that names no status. Never written.
    Unknown,
}

/// The status that the stored number `code` stands for.
pub open spec fn status_of_code(code: int) -> SessionStatus {
    if code == 0 {
        SessionStatus::Pending
    } else if code == 1 {
        SessionStatus::Accepted
    } else if code == 2 {
        SessionStatus::Cancelled
    } else {
        SessionStatus::Unknown
    }
}

/// The number stored for a status. `Unknown` has none: it is never written.
pub open spec fn code_of_status(status: SessionStatus) -> Option<i64> {
    match status {
        SessionStatus::Pending => Some(0i64),
        SessionStatus::Accepted => Some(1i64),
        SessionStatus::Cancelled => Some(2i64),
        SessionStatus::Unknown => None,
    }
}

/// The word shown for a status.
pub open spec fn status_label(status: SessionStatus) -> Seq<char> {
    match status {
        SessionStatus::Pending => "Pending"@,
        SessionStatus::Accepted => "Accepted"@,
        SessionStatus::Cancelled => "Cancelled"@,
        SessionStatus::Unknown => "Unknown"@,
    }
}

/// Whether a session in the status `from` can be given the status `to`:
/// nothing follows `Cancelled`, and `Unknown` is never written.
pub open spec fn can_become(from: SessionStatus, to: SessionStatus) -> bool {
    from != SessionStatus::Cancelled && to != SessionStatus::Unknown
}

impl SessionStatus {
    /// Whether a session in this status can be given the status `to`.
    pub fn allows(&self, to: SessionStatus) -> (b: bool)
        ensures
            b == can_become(*self, to),
    {
        !self.is_terminal() && match to {
            SessionStatus::Unknown => false,
            _ => true,
        }
    }

    /// Decodes a stored number; any number but 0, 1 and 2 gives `Unknown`.
    pub fn from_code(code: i64) -> (status: SessionStatus)
        ensures
            status == status_of_code(code as int),
    {
        if code == 0 {
            SessionStatus::Pending
        } else if code == 1 {
            SessionStatus::Accepted
        } else if code == 2 {
            SessionStatus::Cancelled
        } else {
            SessionStatus::Unknown
        }
    }

    /// The number to store, if the status is one that is written.
    pub fn code(&self) -> (code: Option<i64>)
        ensures
            code == code_of_status(*self),
    {
        match self {
            SessionStatus::Pending => Some(0),
            SessionStatus::Accepted => Some(1),
            SessionStatus::Cancelled => Some(2),
            SessionStatus::Unknown => None,
        }
    }

    /// The word to show.
    pub fn label(&self) -> (text: String)
        ensures
            text@ == status_label(*self),
    {
        match self {
            SessionStatus::Pending => String::from_str("Pending"),
            SessionStatus::Accepted => String::from_str("Accepted"),
            SessionStatus::Cancelled => String::from_str("Cancelled"),
            SessionStatus::Unknown => String::from_str("Unknown"),
        }
    }

    /// Whether nothing can follow this status.
    pub fn is_terminal(&self) -> (b: bool)
        ensures
            b == (*self == SessionStatus::Cancelled),
    {
        match self {
            SessionStatus::Cancelled => true,
            _ => false,
        }
    }
}

/// The number of a status decodes to that status, and the numbers that
/// decode to a status that is written are the numbers of the statuses.
pub proof fn lemma_code_round_trip(status: SessionStatus, code: i64)
    ensures
        code_of_status(status) matches Some(c) ==> status_of_code(c as int) == status,
        code_of_status(status) is None <==> status == SessionStatus::Unknown,
        status_of_code(code as int) != SessionStatus::Unknown <==> 0 <= code <= 2,
        status_of_code(code as int) != SessionStatus::Unknown ==> code_of_status(
            status_of_code(code as int),
        ) == Some(code),
{
}

/// The four words are different, so a shown word tells the status.
pub proof fn lemma_labels_differ(a: SessionStatus, b: SessionStatus)
    requires
        status_label(a) == status_label(b),
    ensures
        a == b,
{
    reveal_strlit("Pending");
    reveal_strlit("Accepted");
    reveal_strlit("Cancelled");
    reveal_strlit("Unknown");
    let la = status_label(a);
    let lb = status_label(b);
    assert(la.len() == lb.len());
    assert(la[0] == lb[0]);
}

} // verus!
