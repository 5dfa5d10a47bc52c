use vstd::prelude::*;
use crate::session::{Model, ModelFocus, SessionError};

verus! {

/// The completion models that OpenAI offers.
#[derive(Clone, Copy, Debug, PartialEq, Eq, Structural)]
pub enum OpenAIModel {
    TextDavinci,
    TextCurie,
    TextBabbage,
    TextAda,
    CodeDavinci,
    CodeCushman,
}

impl Default for OpenAIModel {
    fn default() -> (r: OpenAIModel)
        ensures
            r == OpenAIModel::TextDavinci,
    {
        OpenAIModel::TextDavinci
    }
}

/// One answer of a completion response.
#[derive(Clone, Debug, PartialEq, Eq)]
pub struct OpenAISessionChoice {
    pub text: String,
    pub index: u32,
    pub logprobs: Option<u32>,
    pub finish_reason: Option<String>,
}

impl OpenAIModel {
    /// The name by which the provider knows the model.
    pub open spec fn versioned(self) -> Seq<char> {
        match self {
            OpenAIModel::TextDavinci => "text-davinci-003"@,
            OpenAIModel::TextCurie => "text-curie-001"@,
            OpenAIModel::TextBabbage => "text-babbage-001"@,
            OpenAIModel::TextAda => "text-ada-001"@,
            OpenAIModel::CodeDavinci => "code-davinci-002"@,
            OpenAIModel::CodeCushman => "code-cushman-001"@,
        }
    }

    /// The OpenAI model for a focus and a size, where there is one. There
    /// is no model for code below the medium size.
    pub open spec fn of(focus: ModelFocus, model: Model) -> Option<OpenAIModel> {
        match (focus, model) {
            (ModelFocus::Code, Model::Tiny) | (ModelFocus::Code, Model::Small) => None,
            (ModelFocus::Text, Model::Tiny) => Some(OpenAIModel::TextAda),
            (ModelFocus::Text, Model::Small) => Some(OpenAIModel::TextBabbage),
            (ModelFocus::Text, Model::XXLarge) => Some(OpenAIModel::TextDavinci),
            (ModelFocus::Text, _) => Some(OpenAIModel::TextCurie),
            (ModelFocus::Code, Model::XXLarge) => Some(OpenAIModel::CodeDavinci),
            (ModelFocus::Code, _) => Some(OpenAIModel::CodeCushman),
        }
    }

    /// The name by which the provider knows the model.
    pub fn to_versioned(&self) -> (r: &'static str)
        ensures
            r@ == self.versioned(),
    {
        match self {
            OpenAIModel::TextDavinci => "text-davinci-003",
            OpenAIModel::TextCurie => "text-curie-001",
            OpenAIModel::TextBabbage => "text-babbage-001",
            OpenAIModel::TextAda => "text-ada-001",
            OpenAIModel::CodeDavinci => "code-davinci-002",
            OpenAIModel::CodeCushman => "code-cushman-001",
        }
    }

    /// The OpenAI model for a focus and a size, and whether OpenAI has a
    /// model of just that size: for `Large` and `XLarge` it has not, and the
    /// medium one is taken.
    pub fn try_from(models: (ModelFocus, Model)) -> (r: Result<(OpenAIModel, bool), SessionError>)
        ensures
            match r {
                Ok((m, exact)) => OpenAIModel::of(models.0, models.1) == Some(m) && exact == (
                models.1 != Model::Large && models.1 != Model::XLarge),
                Err(e) => OpenAIModel::of(models.0, models.1) is None && e
                    == SessionError::NoMatchingModel,
            },
    {
        match models {
            (ModelFocus::Text, Model::Tiny) => Ok((OpenAIModel::TextAda, true)),
            (ModelFocus::Code, Model::Tiny) => Err(SessionError::NoMatchingModel),
            (ModelFocus::Code, Model::Small) => Err(SessionError::NoMatchingModel),
            (ModelFocus::Text, Model::Small) => Ok((OpenAIModel::TextBabbage, true)),
            (ModelFocus::Text, Model::Medium) => Ok((OpenAIModel::TextCurie, true)),
            (ModelFocus::Code, Model::Medium) => Ok((OpenAIModel::CodeCushman, true)),
            (ModelFocus::Text, Model::Large) => Ok((OpenAIModel::TextCurie, false)),
            (ModelFocus::Code, Model::Large) => Ok((OpenAIModel::CodeCushman, false)),
            (ModelFocus::Text, Model::XLarge) => Ok((OpenAIModel::TextCurie, false)),
            (ModelFocus::Code, Model::XLarge) => Ok((OpenAIModel::CodeCushman, false)),
            (ModelFocus::Code, Model::XXLarge) => Ok((OpenAIModel::CodeDavinci, true)),
            (ModelFocus::Text, Model::XXLarge) => Ok((OpenAIModel::TextDavinci, true)),
        }
    }
}

} // verus!
