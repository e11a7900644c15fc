//! The library's error type: I/O, image, state, format, remote,
//! serialization and backend failures, kept apart so that callers can match
//! on them.
use vstd::prelude::*;

verus! {

/// Why an operation failed.
#[derive(Debug)]
pub enum X86Error {
    /// Reading or writing `path` failed, for the reason `message`.
    Io { path: String, message: String },
    /// An image is unusable.
    InvalidImage(String),
    /// A saved state is unusable.
    InvalidState(String),
    /// A format is not supported.
    UnsupportedFormat(String),
    /// Remote loading was not built in.
    RemoteDisabled,
    /// Fetching `url` failed, for the reason `message`.
    Remote { url: String, message: String },
    /// Encoding or decoding a value failed.
    Serialization(String),
    /// The operation needs an execution backend that is not there.
    BackendUnavailable(String),
}

/// The text that describes an error.
pub open spec fn error_text(e: X86Error) -> Seq<char> {
    match e {
        X86Error::Io { path, message } => "I/O error while accessing "@ + path@ + ": "@ + message@,
        X86Error::InvalidImage(m) => "invalid image: "@ + m@,
        X86Error::InvalidState(m) => "invalid saved state: "@ + m@,
        X86Error::UnsupportedFormat(m) => "unsupported format: "@ + m@,
        X86Error::RemoteDisabled => "remote loading is disabled; enable the `remote` feature"@,
        X86Error::Remote { url, message } => "remote request failed for "@ + url@ + ": "@ + message@,
        X86Error::Serialization(m) => "serialization error: "@ + m@,
        X86Error::BackendUnavailable(m) => "operation is not available in the current backend: "@ + m@,
    }
}

/// `a`, `b`, `c` and `d` one after another.
fn join4(a: &str, b: &str, c: &str, d: &str) -> (s: String)
    ensures
        s@ == a@ + b@ + c@ + d@,
{
    let mut s = String::from_str(a);
    s.append(b);
    s.append(c);
    s.append(d);
    s
}

impl X86Error {
    /// The text that describes the error.
    pub fn message(&self) -> (s: String)
        ensures
            s@ == error_text(*self),
    {
        proof {
            reveal_strlit("");
        }
        match self {
            X86Error::Io { path, message } => join4("I/O error while accessing ", path.as_str(), ": ", message.as_str()),
            X86Error::InvalidImage(m) => join4("invalid image: ", m.as_str(), "", ""),
            X86Error::InvalidState(m) => join4("invalid saved state: ", m.as_str(), "", ""),
            X86Error::UnsupportedFormat(m) => join4("unsupported format: ", m.as_str(), "", ""),
            X86Error::RemoteDisabled => String::from_str("remote loading is disabled; enable the `remote` feature"),
            X86Error::Remote { url, message } => join4("remote request failed for ", url.as_str(), ": ", message.as_str()),
            X86Error::Serialization(m) => join4("serialization error: ", m.as_str(), "", ""),
            X86Error::BackendUnavailable(m) => join4(
                "operation is not available in the current backend: ",
                m.as_str(),
                "",
                "",
            ),
        }
    }
}

} // verus!
