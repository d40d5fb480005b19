//! The errors that the shim reports, and the text it reports them with.

use vstd::prelude::*;
use vstd::string::*;

verus! {

/// What went wrong while serving a request. The first four variants carry the
/// text of an error that an outside service reported.
#[derive(Debug, Clone, PartialEq, Eq)]
pub enum Error {
    Io(String),
    Kube(String),
    Hyper(String),
    Json(String),
    NotFound(String),
    BadRequest(String),
    Internal(String),
}

/// The text of an error: a prefix that names its kind, then its detail.
pub open spec fn error_text(e: Error) -> Seq<char> {
    match e {
        Error::Io(m) => "IO error: "@ + m@,
        Error::Kube(m) => "Kubernetes error: "@ + m@,
        Error::Hyper(m) => "Hyper error: "@ + m@,
        Error::Json(m) => "JSON error: "@ + m@,
        Error::NotFound(m) => "Not found: "@ + m@,
        Error::BadRequest(m) => "Bad request: "@ + m@,
        Error::Internal(m) => "Internal error: "@ + m@,
    }
}

fn prefixed(prefix: &str, detail: &String) -> (s: String)
    ensures
        s@ == prefix@ + detail@,
{
    let mut s = String::new();
    s.append(prefix);
    s.append(detail.as_str());
    s
}

impl Error {
    /// The text of the error, as it is shown to a client.
    pub fn message(&self) -> (text: String)
        ensures
            text@ == error_text(*self),
    {
        match self {
            Error::Io(m) => prefixed("IO error: ", m),
            Error::Kube(m) => prefixed("Kubernetes error: ", m),
            Error::Hyper(m) => prefixed("Hyper error: ", m),
            Error::Json(m) => prefixed("JSON error: ", m),
            Error::NotFound(m) => prefixed("Not found: ", m),
            Error::BadRequest(m) => prefixed("Bad request: ", m),
            Error::Internal(m) => prefixed("Internal error: ", m),
        }
    }
}

/// The error for a container whose Job cannot be found or removed.
pub fn container_not_found(container_id: &str) -> (e: Error)
    ensures
        e matches Error::NotFound(m) && m@ == "Container "@ + container_id@ + " not found"@,
{
    let mut m = String::new();
    m.append("Container ");
    m.append(container_id);
    m.append(" not found");
    Error::NotFound(m)
}

/// The error for a Pod that cannot be found.
pub fn pod_not_found(pod_name: &str) -> (e: Error)
    ensures
        e matches Error::NotFound(m) && m@ == "Pod "@ + pod_name@ + " not found"@,
{
    let mut m = String::new();
    m.append("Pod ");
    m.append(pod_name);
    m.append(" not found");
    Error::NotFound(m)
}

} // verus!
