use vstd::prelude::*;

verus! {

/// The body of a completion response; `T` is the kind of choice it lists.
#[derive(Clone, Debug)]
pub struct OpenAICompletionResponse<T> {
    pub choices: Vec<T>,
    pub created: usize,
    pub model: String,
    pub object: String,
    pub id: String,
    pub usage: Option<OpenAIUsage>,
}

#[derive(Clone, Copy, Debug, PartialEq, Eq)]
pub struct OpenAIUsage {
    pub prompt_tokens: usize,
    pub completion_tokens: usize,
    pub total_tokens: usize,
}

#[derive(Clone, Debug, PartialEq, Eq)]
pub struct OpenAIChoice {
    pub text: String,
    pub index: u32,
    pub logprobs: Option<u32>,
    pub finish_reason: Option<String>,
}

} // verus!
