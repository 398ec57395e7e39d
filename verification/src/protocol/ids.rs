//! Identifier and counter types.

use vstd::prelude::*;

use crate::text::{append_decimal, decimal, decimal_string, owned, push_str};

verus! {

/// Largest integer every JSON implementation represents exactly (2^53 − 1).
pub const MAX_SAFE_INTEGER: u64 = 9007199254740991;

/// An integer outside the range allowed by the protocol.
#[derive(Debug, Clone, Copy, PartialEq, Eq, Structural)]
pub struct OutOfRange {
    pub value: u64,
    pub min: u64,
    pub max: u64,
}

/// An opaque string identifier that was empty.
#[derive(Debug, Clone, Copy, PartialEq, Eq, Structural)]
pub struct EmptyId;

/// How an out-of-range error is written: the value, then the allowed range.
pub open spec fn out_of_range_text(e: OutOfRange) -> Seq<char> {
    decimal(e.value as nat) + " is outside the allowed range "@ + decimal(e.min as nat) + "..="@
        + decimal(e.max as nat)
}

impl OutOfRange {
    /// The human-readable description of this error.
    pub fn message(&self) -> (text: String)
        ensures
            text@ == out_of_range_text(*self),
    {
        let mut text = decimal_string(self.value);
        push_str(&mut text, " is outside the allowed range ");
        append_decimal(&mut text, self.min);
        push_str(&mut text, "..=");
        append_decimal(&mut text, self.max);
        proof {
            assert(text@ =~= out_of_range_text(*self));
        }
        text
    }
}

impl EmptyId {
    /// The human-readable description of this error.
    pub fn message(&self) -> (text: String)
        ensures
            text@ == "identifier must not be empty"@,
    {
        owned("identifier must not be empty")
    }
}

/// Per-session request number, increasing from 1. Echoed in the matching response.
#[derive(Debug, Clone, Copy, PartialEq, Eq, PartialOrd, Ord, Hash, Structural)]
pub struct RequestId(u64);

/// Run-unique agent identifier.
#[derive(Debug, Clone, Copy, PartialEq, Eq, PartialOrd, Ord, Hash, Structural)]
pub struct AgentId(u64);

/// World-state identifier. A run starts at state 0.
#[derive(Debug, Clone, Copy, PartialEq, Eq, PartialOrd, Ord, Hash, Structural)]
pub struct StateId(u64);

impl View for RequestId {
    type V = u64;

    closed spec fn view(&self) -> u64 {
        self.0
    }
}

impl View for AgentId {
    type V = u64;

    closed spec fn view(&self) -> u64 {
        self.0
    }
}

impl View for StateId {
    type V = u64;

    closed spec fn view(&self) -> u64 {
        self.0
    }
}

impl RequestId {
    /// The number in decimal, as written in messages.
    pub fn to_text(&self) -> (text: String)
        ensures
            text@ == decimal(self@ as nat),
    {
        decimal_string(self.0)
    }

    /// Smallest request number.
    pub const MIN: u64 = 1;

    #[verifier::type_invariant]
    spec fn in_range(self) -> bool {
        1 <= self.0 <= MAX_SAFE_INTEGER
    }

    /// Returns `None` outside `MIN..=MAX_SAFE_INTEGER`.
    pub fn new(value: u64) -> (id: Option<RequestId>)
        ensures
            id is Some <==> 1 <= value <= MAX_SAFE_INTEGER,
            id matches Some(id) ==> id@ == value,
    {
        if value >= 1 && value <= MAX_SAFE_INTEGER {
            Some(RequestId(value))
        } else {
            None
        }
    }

    /// Like `new`, reporting the allowed range on failure.
    pub fn try_new(value: u64) -> (id: Result<RequestId, OutOfRange>)
        ensures
            1 <= value <= MAX_SAFE_INTEGER ==> (id matches Ok(id) && id@ == value),
            !(1 <= value <= MAX_SAFE_INTEGER) ==> id == Err::<RequestId, OutOfRange>(
                OutOfRange { value, min: 1, max: MAX_SAFE_INTEGER },
            ),
    {
        match RequestId::new(value) {
            Some(id) => Ok(id),
            None => Err(OutOfRange { value, min: 1, max: MAX_SAFE_INTEGER }),
        }
    }

    pub fn get(self) -> (value: u64)
        ensures
            value == self@,
            1 <= value <= MAX_SAFE_INTEGER,
    {
        proof {
            use_type_invariant(&self);
        }
        self.0
    }
}

impl AgentId {
    /// The number in decimal, as written in messages.
    pub fn to_text(&self) -> (text: String)
        ensures
            text@ == decimal(self@ as nat),
    {
        decimal_string(self.0)
    }

    /// Smallest agent ID.
    pub const MIN: u64 = 1;

    #[verifier::type_invariant]
    spec fn in_range(self) -> bool {
        1 <= self.0 <= MAX_SAFE_INTEGER
    }

    /// Returns `None` outside `MIN..=MAX_SAFE_INTEGER`.
    pub fn new(value: u64) -> (id: Option<AgentId>)
        ensures
            id is Some <==> 1 <= value <= MAX_SAFE_INTEGER,
            id matches Some(id) ==> id@ == value,
    {
        if value >= 1 && value <= MAX_SAFE_INTEGER {
            Some(AgentId(value))
        } else {
            None
        }
    }

    /// Like `new`, reporting the allowed range on failure.
    pub fn try_new(value: u64) -> (id: Result<AgentId, OutOfRange>)
        ensures
            1 <= value <= MAX_SAFE_INTEGER ==> (id matches Ok(id) && id@ == value),
            !(1 <= value <= MAX_SAFE_INTEGER) ==> id == Err::<AgentId, OutOfRange>(
                OutOfRange { value, min: 1, max: MAX_SAFE_INTEGER },
            ),
    {
        match AgentId::new(value) {
            Some(id) => Ok(id),
            None => Err(OutOfRange { value, min: 1, max: MAX_SAFE_INTEGER }),
        }
    }

    pub fn get(self) -> (value: u64)
        ensures
            value == self@,
            1 <= value <= MAX_SAFE_INTEGER,
    {
        proof {
            use_type_invariant(&self);
        }
        self.0
    }
}

impl StateId {
    /// The number in decimal, as written in messages.
    pub fn to_text(&self) -> (text: String)
        ensures
            text@ == decimal(self@ as nat),
    {
        decimal_string(self.0)
    }

    /// Smallest state ID.
    pub const MIN: u64 = 0;

    #[verifier::type_invariant]
    spec fn in_range(self) -> bool {
        self.0 <= MAX_SAFE_INTEGER
    }

    /// Returns `None` outside `MIN..=MAX_SAFE_INTEGER`.
    pub fn new(value: u64) -> (id: Option<StateId>)
        ensures
            id is Some <==> value <= MAX_SAFE_INTEGER,
            id matches Some(id) ==> id@ == value,
    {
        if value <= MAX_SAFE_INTEGER {
            Some(StateId(value))
        } else {
            None
        }
    }

    /// Like `new`, reporting the allowed range on failure.
    pub fn try_new(value: u64) -> (id: Result<StateId, OutOfRange>)
        ensures
            value <= MAX_SAFE_INTEGER ==> (id matches Ok(id) && id@ == value),
            value > MAX_SAFE_INTEGER ==> id == Err::<StateId, OutOfRange>(
                OutOfRange { value, min: 0, max: MAX_SAFE_INTEGER },
            ),
    {
        match StateId::new(value) {
            Some(id) => Ok(id),
            None => Err(OutOfRange { value, min: 0, max: MAX_SAFE_INTEGER }),
        }
    }

    pub fn get(self) -> (value: u64)
        ensures
            value == self@,
            value <= MAX_SAFE_INTEGER,
    {
        proof {
            use_type_invariant(&self);
        }
        self.0
    }
}

/// Server-assigned run identifier, shared with joining clients.
#[derive(Debug, PartialEq, Eq, PartialOrd, Ord, Hash)]
pub struct RunId(String);

/// Server-assigned logical session identifier.
#[derive(Debug, PartialEq, Eq, PartialOrd, Ord, Hash)]
pub struct SessionId(String);

/// Environment catalog entry identifier.
#[derive(Debug, PartialEq, Eq, PartialOrd, Ord, Hash)]
pub struct CatalogEntryId(String);

impl View for RunId {
    type V = Seq<char>;

    closed spec fn view(&self) -> Seq<char> {
        self.0@
    }
}

impl View for SessionId {
    type V = Seq<char>;

    closed spec fn view(&self) -> Seq<char> {
        self.0@
    }
}

impl View for CatalogEntryId {
    type V = Seq<char>;

    closed spec fn view(&self) -> Seq<char> {
        self.0@
    }
}

impl RunId {
    #[verifier::type_invariant]
    spec fn non_empty(self) -> bool {
        self.0@.len() > 0
    }

    /// Returns `None` for an empty string.
    pub fn new(value: String) -> (id: Option<RunId>)
        ensures
            id is Some <==> value@.len() > 0,
            id matches Some(id) ==> id@ == value@,
    {
        if value.as_str().is_empty() {
            None
        } else {
            Some(RunId(value))
        }
    }

    /// Like `new`, reporting an empty string as `EmptyId`.
    pub fn try_new(value: String) -> (id: Result<RunId, EmptyId>)
        ensures
            value@.len() > 0 ==> (id matches Ok(id) && id@ == value@),
            value@.len() == 0 ==> id == Err::<RunId, EmptyId>(EmptyId),
    {
        match RunId::new(value) {
            Some(id) => Ok(id),
            None => Err(EmptyId),
        }
    }

    pub fn as_str(&self) -> (s: &str)
        ensures
            s@ == self@,
            s@.len() > 0,
    {
        proof {
            use_type_invariant(self);
        }
        self.0.as_str()
    }

    /// Whether two identifiers are the same string.
    pub fn same_as(&self, other: &RunId) -> (eq: bool)
        ensures
            eq == (self@ == other@),
    {
        self.0 == other.0
    }
}

impl SessionId {
    #[verifier::type_invariant]
    spec fn non_empty(self) -> bool {
        self.0@.len() > 0
    }

    /// Returns `None` for an empty string.
    pub fn new(value: String) -> (id: Option<SessionId>)
        ensures
            id is Some <==> value@.len() > 0,
            id matches Some(id) ==> id@ == value@,
    {
        if value.as_str().is_empty() {
            None
        } else {
            Some(SessionId(value))
        }
    }

    /// Like `new`, reporting an empty string as `EmptyId`.
    pub fn try_new(value: String) -> (id: Result<SessionId, EmptyId>)
        ensures
            value@.len() > 0 ==> (id matches Ok(id) && id@ == value@),
            value@.len() == 0 ==> id == Err::<SessionId, EmptyId>(EmptyId),
    {
        match SessionId::new(value) {
            Some(id) => Ok(id),
            None => Err(EmptyId),
        }
    }

    pub fn as_str(&self) -> (s: &str)
        ensures
            s@ == self@,
            s@.len() > 0,
    {
        proof {
            use_type_invariant(self);
        }
        self.0.as_str()
    }

    /// Whether two identifiers are the same string.
    pub fn same_as(&self, other: &SessionId) -> (eq: bool)
        ensures
            eq == (self@ == other@),
    {
        self.0 == other.0
    }
}

impl CatalogEntryId {
    #[verifier::type_invariant]
    spec fn non_empty(self) -> bool {
        self.0@.len() > 0
    }

    /// Returns `None` for an empty string.
    pub fn new(value: String) -> (id: Option<CatalogEntryId>)
        ensures
            id is Some <==> value@.len() > 0,
            id matches Some(id) ==> id@ == value@,
    {
        if value.as_str().is_empty() {
            None
        } else {
            Some(CatalogEntryId(value))
        }
    }

    /// Like `new`, reporting an empty string as `EmptyId`.
    pub fn try_new(value: String) -> (id: Result<CatalogEntryId, EmptyId>)
        ensures
            value@.len() > 0 ==> (id matches Ok(id) && id@ == value@),
            value@.len() == 0 ==> id == Err::<CatalogEntryId, EmptyId>(EmptyId),
    {
        match CatalogEntryId::new(value) {
            Some(id) => Ok(id),
            None => Err(EmptyId),
        }
    }

    pub fn as_str(&self) -> (s: &str)
        ensures
            s@ == self@,
            s@.len() > 0,
    {
        proof {
            use_type_invariant(self);
        }
        self.0.as_str()
    }

    /// Whether two identifiers are the same string.
    pub fn same_as(&self, other: &CatalogEntryId) -> (eq: bool)
        ensures
            eq == (self@ == other@),
    {
        self.0 == other.0
    }
}

impl Clone for RunId {
    fn clone(&self) -> (id: RunId)
        ensures
            id == *self,
    {
        proof {
            use_type_invariant(self);
        }
        RunId(self.0.clone())
    }
}

impl Clone for SessionId {
    fn clone(&self) -> (id: SessionId)
        ensures
            id == *self,
    {
        proof {
            use_type_invariant(self);
        }
        SessionId(self.0.clone())
    }
}

impl Clone for CatalogEntryId {
    fn clone(&self) -> (id: CatalogEntryId)
        ensures
            id == *self,
    {
        proof {
            use_type_invariant(self);
        }
        CatalogEntryId(self.0.clone())
    }
}

} // verus!
