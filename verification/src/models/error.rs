use vstd::prelude::*;
use vstd::string::*;

verus! {

/// The errors that the database answers with; each carries a message.
#[derive(Debug, PartialEq, Eq)]
pub enum DBError {
    DocumentExists(String),
    InternalServerError(String),
    NotFound(String),
    Unauthorized(String),
    UnableToAcquireIndexLock(String),
}

impl DBError {
    /// The text shown for an error: a fixed prefix for its kind, then its
    /// message.
    pub open spec fn text(&self) -> Seq<char> {
        match self {
            DBError::DocumentExists(msg) => "Document already exists: "@ + msg@,
            DBError::InternalServerError(msg) => "Internal Server Error: "@ + msg@,
            DBError::NotFound(msg) => "Not Found: "@ + msg@,
            DBError::Unauthorized(msg) => "Unauthorized: "@ + msg@,
            DBError::UnableToAcquireIndexLock(msg) => "Unable to acquire index lock "@ + msg@,
        }
    }

    /// Renders the error as text.
    pub fn display_text(&self) -> (s: String)
        ensures
            s@ == self.text(),
    {
        let (prefix, msg) = match self {
            DBError::DocumentExists(msg) => ("Document already exists: ", msg),
            DBError::InternalServerError(msg) => ("Internal Server Error: ", msg),
            DBError::NotFound(msg) => ("Not Found: ", msg),
            DBError::Unauthorized(msg) => ("Unauthorized: ", msg),
            DBError::UnableToAcquireIndexLock(msg) => ("Unable to acquire index lock ", msg),
        };
        let mut s = prefix.to_owned();
        s.append(msg.as_str());
        s
    }
}

} // verus!
