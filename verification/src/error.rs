//! What can go wrong.

use vstd::prelude::*;

verus! {

/// A failure on the way to a model or back.
#[derive(Debug, PartialEq)]
pub enum LlmClientError {
    /// The response could not be translated.
    ResponseTranslation(String),
    /// The upstream server answered with a failure.
    UpstreamHttp { status: u16, body: String },
    /// Any other failure, in words.
    Other(String),
}

/// What an [`LlmClientError`] holds.
pub enum ClientErrorView {
    ResponseTranslation(Seq<char>),
    UpstreamHttp { status: u16, body: Seq<char> },
    Other(Seq<char>),
}

impl View for LlmClientError {
    type V = ClientErrorView;

    open spec fn view(&self) -> ClientErrorView {
        match self {
            LlmClientError::ResponseTranslation(message) => ClientErrorView::ResponseTranslation(
                message@,
            ),
            LlmClientError::UpstreamHttp { status, body } => ClientErrorView::UpstreamHttp {
                status: *status,
                body: body@,
            },
            LlmClientError::Other(message) => ClientErrorView::Other(message@),
        }
    }
}

/// A failure of routing.
#[derive(Debug, PartialEq)]
pub enum LibsyError {
    /// The router cannot work as it was asked to.
    AlgorithmError { message: String },
    /// The call of a model failed.
    ClientCall { target: String, source: LlmClientError },
}

/// A failure of the router itself.
pub fn algorithm_error(message: String) -> (error: LibsyError)
    ensures
        error == (LibsyError::AlgorithmError { message }),
{
    LibsyError::AlgorithmError { message }
}

impl LibsyError {
    /// A failed call of the model `target`.
    pub fn client_call(target: String, source: LlmClientError) -> (error: LibsyError)
        ensures
            error == (LibsyError::ClientCall { target, source }),
    {
        LibsyError::ClientCall { target, source }
    }

    /// Whether this is the router's own failure, with this message.
    pub open spec fn says(self, message: Seq<char>) -> bool {
        self matches LibsyError::AlgorithmError { message: given } && given@ == message
    }
}

} // verus!
