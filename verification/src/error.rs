//! The engine's error type.
use vstd::prelude::*;

verus! {

/// Everything that can go wrong in the engine.
#[derive(Debug)]
pub enum AeonError {
    /// A configuration or lifecycle request that the engine refuses.
    Config { message: String },
    /// A connector failure, with the connector's own word on whether to try again.
    Connection { message: String, retryable: bool },
    /// A processor that failed or could not be loaded.
    Processor { message: String },
    /// State that is missing, corrupt or already in use.
    State { message: String },
    /// Data that could not be encoded or decoded.
    Serialization { message: String },
    /// Something that was looked up by name and is not there.
    NotFound { message: String },
    /// An operation that took too long.
    Timeout { message: String },
}

impl AeonError {
    /// The text that describes the error.
    pub open spec fn text(self) -> Seq<char> {
        match self {
            AeonError::Config { message } => message@,
            AeonError::Connection { message, .. } => message@,
            AeonError::Processor { message } => message@,
            AeonError::State { message } => message@,
            AeonError::Serialization { message } => message@,
            AeonError::NotFound { message } => message@,
            AeonError::Timeout { message } => message@,
        }
    }

    /// Whether another attempt may succeed: a timeout, or a connection error that says so.
    pub open spec fn retryable(self) -> bool {
        match self {
            AeonError::Connection { retryable, .. } => retryable,
            AeonError::Timeout { .. } => true,
            _ => false,
        }
    }

    pub fn message(&self) -> (r: &str)
        ensures
            r@ == self.text(),
    {
        match self {
            AeonError::Config { message } => message.as_str(),
            AeonError::Connection { message, .. } => message.as_str(),
            AeonError::Processor { message } => message.as_str(),
            AeonError::State { message } => message.as_str(),
            AeonError::Serialization { message } => message.as_str(),
            AeonError::NotFound { message } => message.as_str(),
            AeonError::Timeout { message } => message.as_str(),
        }
    }

    pub fn is_retryable(&self) -> (r: bool)
        ensures
            r == self.retryable(),
    {
        match self {
            AeonError::Connection { retryable, .. } => *retryable,
            AeonError::Timeout { .. } => true,
            _ => false,
        }
    }

    pub fn config(message: String) -> (r: Self)
        ensures
            r == (AeonError::Config { message }),
    {
        AeonError::Config { message }
    }

    pub fn not_found(message: String) -> (r: Self)
        ensures
            r == (AeonError::NotFound { message }),
    {
        AeonError::NotFound { message }
    }

    pub fn state(message: String) -> (r: Self)
        ensures
            r == (AeonError::State { message }),
    {
        AeonError::State { message }
    }

    pub fn processor(message: String) -> (r: Self)
        ensures
            r == (AeonError::Processor { message }),
    {
        AeonError::Processor { message }
    }

    pub fn serialization(message: String) -> (r: Self)
        ensures
            r == (AeonError::Serialization { message }),
    {
        AeonError::Serialization { message }
    }

    /// A connection error that may be tried again.
    pub fn connection(message: String) -> (r: Self)
        ensures
            r == (AeonError::Connection { message, retryable: true }),
    {
        AeonError::Connection { message, retryable: true }
    }

    pub fn timeout(message: String) -> (r: Self)
        ensures
            r == (AeonError::Timeout { message }),
    {
        AeonError::Timeout { message }
    }
}

/// Another attempt is worth its while after a timeout and after a connection error that says so,
/// and after nothing else.
pub proof fn law_which_errors_are_retried(e: AeonError)
    ensures
        e is Timeout ==> e.retryable(),
        e is Connection ==> (e.retryable() <==> e->Connection_retryable),
        e.retryable() ==> e is Timeout || e is Connection,
{
}

} // verus!
