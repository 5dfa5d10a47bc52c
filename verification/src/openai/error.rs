use vstd::prelude::*;

verus! {

/// The body of a response that reports a failure.
#[derive(Clone, Debug, PartialEq, Eq)]
pub struct OpenAIError {
    pub error: OpenAIErrorInner,
}

#[derive(Clone, Debug, PartialEq, Eq)]
pub struct OpenAIErrorInner {
    pub message: String,
    /// The kind of failure; the field `type` of the response.
    pub kind: String,
    pub param: Option<String>,
    pub code: Option<String>,
}

} // verus!
