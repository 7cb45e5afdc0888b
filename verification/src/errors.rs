//! What can go wrong while the service starts and while it answers a prompt.

use vstd::prelude::*;
use vstd::string::StringExecFns;

verus! {

/// Why the service could not be set up.
pub enum SetupError {
    /// A secret that the service needs is not in the store; the field is its name.
    Missing(&'static str),
    /// The address of the vector database cannot be used.
    Endpoint,
}

impl SetupError {
    /// The text that describes the error to an operator.
    pub open spec fn message_text(self) -> Seq<char> {
        match self {
            SetupError::Missing(name) => name@ + " not available"@,
            SetupError::Endpoint => "QDRANT_URL not usable"@,
        }
    }

    /// Describes the error to an operator.
    pub fn message(&self) -> (text: String)
        ensures
            text@ == self.message_text(),
    {
        match self {
            SetupError::Missing(name) => {
                let mut text = String::from_str(name);
                text.append(" not available");
                text
            },
            SetupError::Endpoint => String::from_str("QDRANT_URL not usable"),
        }
    }
}

/// Why a prompt got no answer.
#[derive(Clone, Copy, PartialEq, Eq, Debug, Structural)]
pub enum PromptError {
    /// The embedding service failed.
    Embedding,
    /// The vector database failed, or had no record to offer.
    Index,
    /// The record that matched best names a document that is not loaded.
    NotFound,
    /// The completion service failed.
    Completion,
}

} // verus!
