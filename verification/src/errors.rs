use vstd::prelude::*;

verus! {

/// The run's error taxonomy: configuration problems are fatal to the whole
/// run, header and HTTP problems are scoped to a single job.
#[derive(Debug, Clone)]
pub enum ClientError {
    ConfigError(String),
    HTTPError(String),
    HeaderError(String),
}

impl ClientError {
    /// The human-readable text carried by the error.
    pub fn message(&self) -> (r: &String)
        ensures
            r@ == self.message_view(),
    {
        match self {
            ClientError::ConfigError(s) => s,
            ClientError::HTTPError(s) => s,
            ClientError::HeaderError(s) => s,
        }
    }

    pub open spec fn message_view(&self) -> Seq<char> {
        match self {
            ClientError::ConfigError(s) => s@,
            ClientError::HTTPError(s) => s@,
            ClientError::HeaderError(s) => s@,
        }
    }
}

} // verus!
