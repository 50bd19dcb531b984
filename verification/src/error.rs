//! The kinds of failure that callers may want to tell apart.
use vstd::prelude::*;
use vstd::string::StringExecFns;

verus! {

/// A failure, by its kind. Each kind carries a message.
#[derive(Debug, Clone)]
pub enum LocalLlmError {
    Download(String),
    Compression(String),
    Inference(String),
    Registry(String),
    Config(String),
    Gpu(String),
    /// A failure of input or output, in its own words.
    Io(String),
    /// A failure of an HTTP request, in its own words.
    Reqwest(String),
    /// A failure to read or write JSON, in its own words.
    Json(String),
}

/// A failure as a sentence: the kind and the message, or the message alone where
/// the failure speaks for itself.
pub open spec fn failure_text(e: LocalLlmError) -> Seq<char> {
    match e {
        LocalLlmError::Download(m) => "Download error: "@ + m@,
        LocalLlmError::Compression(m) => "Compression error: "@ + m@,
        LocalLlmError::Inference(m) => "Inference error: "@ + m@,
        LocalLlmError::Registry(m) => "Registry error: "@ + m@,
        LocalLlmError::Config(m) => "Config error: "@ + m@,
        LocalLlmError::Gpu(m) => "GPU error: "@ + m@,
        LocalLlmError::Io(m) => m@,
        LocalLlmError::Reqwest(m) => m@,
        LocalLlmError::Json(m) => m@,
    }
}

impl LocalLlmError {
    /// The failure as a sentence.
    pub fn message(&self) -> (r: String)
        ensures
            r@ == failure_text(*self),
    {
        match self {
            LocalLlmError::Download(m) => String::from_str("Download error: ").concat(m.as_str()),
            LocalLlmError::Compression(m) => String::from_str("Compression error: ").concat(
                m.as_str(),
            ),
            LocalLlmError::Inference(m) => String::from_str("Inference error: ").concat(
                m.as_str(),
            ),
            LocalLlmError::Registry(m) => String::from_str("Registry error: ").concat(m.as_str()),
            LocalLlmError::Config(m) => String::from_str("Config error: ").concat(m.as_str()),
            LocalLlmError::Gpu(m) => String::from_str("GPU error: ").concat(m.as_str()),
            LocalLlmError::Io(m) => m.clone(),
            LocalLlmError::Reqwest(m) => m.clone(),
            LocalLlmError::Json(m) => m.clone(),
        }
    }
}

} // verus!
