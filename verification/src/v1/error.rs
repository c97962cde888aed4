//! Error values handed to callers.
use vstd::prelude::*;
use vstd::string::StringExecFns;

verus! {

/// A failure reported while talking to the API or while decoding what it sent.
#[derive(Debug)]
pub struct ApiError {
    pub message: String,
}

impl ApiError {
    /// The text shown for this error: the message behind a fixed label.
    pub open spec fn display(&self) -> Seq<char> {
        "ApiError: "@ + self.message@
    }

    /// Renders the error as text.
    pub fn to_string(&self) -> (text: String)
        ensures
            text@ == self.display(),
    {
        String::from_str("ApiError: ").concat(self.message.as_str())
    }
}

/// A failure to set a client up.
#[derive(Debug, Clone, Copy, PartialEq, Eq, Structural)]
pub enum ClientError {
    /// No API key was given and none was found in the environment.
    MissingApiKey,
}

impl ClientError {
    /// The text shown for this error.
    pub open spec fn display(&self) -> Seq<char> {
        "You must either set the `MISTRAL_API_KEY` environment variable or specify it in `Client::new(api_key, ...)."@
    }

    /// Renders the error as text.
    pub fn to_string(&self) -> (text: String)
        ensures
            text@ == self.display(),
    {
        String::from_str(
            "You must either set the `MISTRAL_API_KEY` environment variable or specify it in `Client::new(api_key, ...).",
        )
    }
}

} // verus!
