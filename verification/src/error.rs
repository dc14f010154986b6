use vstd::prelude::*;

use crate::text::push_str;

verus! {

/// The ways a request or the configuration can fail.
pub enum HybridSearchError {
    MissingConfig(String),
    InvalidParams(String),
    Provider(String),
    Parse(String),
    Timeout(String),
    NotFound(String),
}

/// The text of an error, as it is shown to a client.
pub open spec fn error_message_spec(e: HybridSearchError) -> Seq<char> {
    match e {
        HybridSearchError::MissingConfig(d) => "missing configuration: "@ + d@,
        HybridSearchError::InvalidParams(d) => "invalid parameters: "@ + d@,
        HybridSearchError::Provider(d) => "provider error: "@ + d@,
        HybridSearchError::Parse(d) => "response parse error: "@ + d@,
        HybridSearchError::Timeout(d) => "request timed out: "@ + d@,
        HybridSearchError::NotFound(d) => "not found: "@ + d@,
    }
}

impl HybridSearchError {
    /// The text of the error.
    pub fn message(&self) -> (m: String)
        ensures
            m@ == error_message_spec(*self),
    {
        let (prefix, detail) = match self {
            HybridSearchError::MissingConfig(d) => ("missing configuration: ", d),
            HybridSearchError::InvalidParams(d) => ("invalid parameters: ", d),
            HybridSearchError::Provider(d) => ("provider error: ", d),
            HybridSearchError::Parse(d) => ("response parse error: ", d),
            HybridSearchError::Timeout(d) => ("request timed out: ", d),
            HybridSearchError::NotFound(d) => ("not found: ", d),
        };
        let mut m = String::new();
        push_str(&mut m, prefix);
        push_str(&mut m, detail.as_str());
        m
    }
}

} // verus!
