use vstd::prelude::*;

use crate::error::HybridSearchError;
use crate::text::push_str;

verus! {

/// What became of an HTTP request, as the transport reports it.
pub enum HttpOutcome {
    /// The request could not be sent: whether it timed out, and the transport's message.
    SendFailed { timed_out: bool, message: String },
    /// The response came but its body could not be read.
    ReadFailed(String),
    /// A response: its status code, the status as displayed (`404 Not Found`), and its
    /// body as text.
    Response { status: u16, status_text: String, body: String },
}

/// A failed request: the HTTP status when a response came, and the error.
pub struct HttpFailure {
    pub status: Option<u16>,
    pub error: HybridSearchError,
}

/// The failure of a request to the API named `label`, or `None` when the response has a
/// success status (`2xx`) and its body is to be read.
pub fn http_failure(label: &str, outcome: &HttpOutcome) -> (r: Option<HttpFailure>)
    ensures
        match *outcome {
            HttpOutcome::SendFailed { timed_out, message } => r matches Some(f) && (f.status is None && if timed_out {
                f.error matches HybridSearchError::Timeout(m) && m@ == label@ + " request"@
            } else {
                f.error matches HybridSearchError::Provider(m) && m@ == label@ + " request failed: "@ + message@
            }),
            HttpOutcome::ReadFailed(message) => r matches Some(f) && (f.status is None
                && (f.error matches HybridSearchError::Provider(m) && m@ == label@ + " response read failed: "@ + message@)),
            HttpOutcome::Response { status, status_text, body } => if 200 <= status < 300 {
                r is None
            } else {
                r matches Some(f) && (f.status == Some(status)
                    && (f.error matches HybridSearchError::Provider(m)
                    && m@ == label@ + " returned HTTP "@ + status_text@ + ": "@ + body@))
            },
        },
{
    match outcome {
        HttpOutcome::SendFailed { timed_out, message } => {
            let mut m = label.to_owned();
            if *timed_out {
                push_str(&mut m, " request");
                Some(HttpFailure { status: None, error: HybridSearchError::Timeout(m) })
            } else {
                push_str(&mut m, " request failed: ");
                push_str(&mut m, message.as_str());
                Some(HttpFailure { status: None, error: HybridSearchError::Provider(m) })
            }
        }
        HttpOutcome::ReadFailed(message) => {
            let mut m = label.to_owned();
            push_str(&mut m, " response read failed: ");
            push_str(&mut m, message.as_str());
            Some(HttpFailure { status: None, error: HybridSearchError::Provider(m) })
        }
        HttpOutcome::Response { status, status_text, body } => {
            if 200 <= *status && *status < 300 {
                None
            } else {
                let mut m = label.to_owned();
                push_str(&mut m, " returned HTTP ");
                push_str(&mut m, status_text.as_str());
                push_str(&mut m, ": ");
                push_str(&mut m, body.as_str());
                Some(HttpFailure { status: Some(*status), error: HybridSearchError::Provider(m) })
            }
        }
    }
}

/// The failure of a response with status `status` whose body is not JSON.
pub fn json_failure(label: &str, status: u16, message: &str) -> (f: HttpFailure)
    ensures
        f.status == Some(status),
        f.error matches HybridSearchError::Parse(m) && m@ == "invalid "@ + label@ + " JSON: "@ + message@,
{
    let mut m = "invalid ".to_owned();
    push_str(&mut m, label);
    push_str(&mut m, " JSON: ");
    push_str(&mut m, message);
    HttpFailure { status: Some(status), error: HybridSearchError::Parse(m) }
}

} // verus!
