//! Classification of HTTP status codes into the six counted ranges.

use vstd::prelude::*;

verus! {

/// The range a status code falls into.
#[derive(Clone, Copy, Debug, PartialEq, Eq, Structural)]
pub enum StatusClass {
    Informational,
    Success,
    Redirection,
    ClientError,
    ServerError,
    Other,
}

/// The range of `code`: 100–199, 200–299, 300–399, 400–499, 500–511, or
/// anything else.
pub open spec fn class_of(code: u16) -> StatusClass {
    if 100 <= code < 200 {
        StatusClass::Informational
    } else if 200 <= code < 300 {
        StatusClass::Success
    } else if 300 <= code < 400 {
        StatusClass::Redirection
    } else if 400 <= code < 500 {
        StatusClass::ClientError
    } else if 500 <= code <= 511 {
        StatusClass::ServerError
    } else {
        StatusClass::Other
    }
}

/// Classifies a status code.
pub fn classify(code: u16) -> (r: StatusClass)
    ensures
        r == class_of(code),
{
    if code >= 100 && code < 200 {
        StatusClass::Informational
    } else if code >= 200 && code < 300 {
        StatusClass::Success
    } else if code >= 300 && code < 400 {
        StatusClass::Redirection
    } else if code >= 400 && code < 500 {
        StatusClass::ClientError
    } else if code >= 500 && code <= 511 {
        StatusClass::ServerError
    } else {
        StatusClass::Other
    }
}

/// One counter per status range.
#[derive(Clone, Copy, Debug, PartialEq, Eq, Structural)]
pub struct StatusCounts {
    pub informational: u64,
    pub success: u64,
    pub redirection: u64,
    pub client_error: u64,
    pub server_error: u64,
    pub other: u64,
}

impl StatusCounts {
    /// The counter of one range.
    pub open spec fn get(self, c: StatusClass) -> u64 {
        match c {
            StatusClass::Informational => self.informational,
            StatusClass::Success => self.success,
            StatusClass::Redirection => self.redirection,
            StatusClass::ClientError => self.client_error,
            StatusClass::ServerError => self.server_error,
            StatusClass::Other => self.other,
        }
    }

    /// The sum of all six counters.
    pub open spec fn sum(self) -> int {
        self.informational + self.success + self.redirection + self.client_error
            + self.server_error + self.other
    }

    /// The counters after one response with status `code`.
    pub open spec fn with_recorded(self, code: u16) -> StatusCounts {
        match class_of(code) {
            StatusClass::Informational => StatusCounts {
                informational: (self.informational + 1) as u64,
                ..self
            },
            StatusClass::Success => StatusCounts { success: (self.success + 1) as u64, ..self },
            StatusClass::Redirection => StatusCounts {
                redirection: (self.redirection + 1) as u64,
                ..self
            },
            StatusClass::ClientError => StatusCounts {
                client_error: (self.client_error + 1) as u64,
                ..self
            },
            StatusClass::ServerError => StatusCounts {
                server_error: (self.server_error + 1) as u64,
                ..self
            },
            StatusClass::Other => StatusCounts { other: (self.other + 1) as u64, ..self },
        }
    }

    /// All counters at zero.
    pub fn new() -> (r: StatusCounts)
        ensures
            forall|c: StatusClass| r.get(c) == 0,
            r.sum() == 0,
    {
        StatusCounts {
            informational: 0,
            success: 0,
            redirection: 0,
            client_error: 0,
            server_error: 0,
            other: 0,
        }
    }

    /// The counter of one range.
    pub fn count(&self, c: StatusClass) -> (r: u64)
        ensures
            r == self.get(c),
    {
        match c {
            StatusClass::Informational => self.informational,
            StatusClass::Success => self.success,
            StatusClass::Redirection => self.redirection,
            StatusClass::ClientError => self.client_error,
            StatusClass::ServerError => self.server_error,
            StatusClass::Other => self.other,
        }
    }

    /// Counts one response with status `code`: the counter of its range goes
    /// up by one and the other five stay as they were.
    pub fn record(&mut self, code: u16)
        requires
            old(self).get(class_of(code)) < u64::MAX,
        ensures
            *final(self) == old(self).with_recorded(code),
            final(self).get(class_of(code)) == old(self).get(class_of(code)) + 1,
            forall|c: StatusClass| c != class_of(code) ==> final(self).get(c) == old(self).get(c),
            final(self).sum() == old(self).sum() + 1,
    {
        match classify(code) {
            StatusClass::Informational => self.informational = self.informational + 1,
            StatusClass::Success => self.success = self.success + 1,
            StatusClass::Redirection => self.redirection = self.redirection + 1,
            StatusClass::ClientError => self.client_error = self.client_error + 1,
            StatusClass::ServerError => self.server_error = self.server_error + 1,
            StatusClass::Other => self.other = self.other + 1,
        }
    }
}

/// Counting a response moves exactly one counter, the one of its range, up
/// by one.
pub proof fn lemma_record_moves_one_counter(counts: StatusCounts, code: u16)
    requires
        counts.get(class_of(code)) < u64::MAX,
    ensures
        counts.with_recorded(code).get(class_of(code)) == counts.get(class_of(code)) + 1,
        forall|c: StatusClass|
            c != class_of(code) ==> #[trigger] counts.with_recorded(code).get(c) == counts.get(c),
        counts.with_recorded(code).sum() == counts.sum() + 1,
{
}

} // verus!
