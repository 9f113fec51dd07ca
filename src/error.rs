use vstd::prelude::*;

verus! {

/// What went wrong, independent of any backend.
#[derive(Debug, Clone, Copy, PartialEq, Eq, Structural)]
pub enum ErrorKind {
    /// No identity (keypair) is stored for the room.
    KeyNotFound,
    /// No room with the given id is stored.
    RoomNotFound,
    /// A row with the same primary key already exists.
    DuplicateKey,
    /// Stored key bytes do not decode to a keypair.
    InvalidKey,
    /// An address does not parse as a multi-address.
    InvalidAddress,
}

/// An error: its kind, and an optional context message.
#[derive(Debug, Clone)]
pub struct Error(pub ErrorKind, pub Option<String>);

pub type Result<T> = core::result::Result<T, Error>;

impl Error {
    pub fn kind(&self) -> (r: ErrorKind)
        ensures
            r == self.0,
    {
        self.0
    }

    /// The error with a context message attached.
    pub fn chain_err(self, context: String) -> (r: Error)
        ensures
            r.0 == self.0,
            r.1 == Some(context),
    {
        Error(self.0, Some(context))
    }
}

impl From<ErrorKind> for Error {
    fn from(kind: ErrorKind) -> (r: Error)
        ensures
            r.0 == kind,
            r.1.is_none(),
    {
        Error(kind, None)
    }
}

impl vstd::std_specs::convert::FromSpecImpl<ErrorKind> for Error {
    open spec fn obeys_from_spec() -> bool {
        true
    }

    open spec fn from_spec(kind: ErrorKind) -> Error {
        Error(kind, None)
    }
}

/// An error of the given kind, without context.
pub fn err_of(kind: ErrorKind) -> (r: Error)
    ensures
        r.0 == kind,
        r.1.is_none(),
{
    Error(kind, None)
}

} // verus!
