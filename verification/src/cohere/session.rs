use vstd::prelude::*;
use crate::session::{Model, ModelFocus, SessionError, SessionOptions};

verus! {

/// The models that Cohere offers.
#[derive(Clone, Copy, Debug, PartialEq, Eq, Structural)]
pub enum CohereModel {
    Small,
    Medium,
    Large,
    XLarge,
}

impl Default for CohereModel {
    fn default() -> (r: CohereModel)
        ensures
            r == CohereModel::XLarge,
    {
        CohereModel::XLarge
    }
}

/// The body of a response that reports a failure.
#[derive(Clone, Debug, PartialEq, Eq)]
pub struct CohereError {
    pub message: String,
}

impl CohereModel {
    /// The name by which the provider knows the model.
    pub open spec fn versioned(self) -> Seq<char> {
        match self {
            CohereModel::Small => "small"@,
            CohereModel::Medium => "medium"@,
            CohereModel::Large => "large"@,
            CohereModel::XLarge => "xlarge"@,
        }
    }

    /// The Cohere model for a size.
    pub open spec fn of(model: Model) -> CohereModel {
        match model {
            Model::Tiny | Model::Small => CohereModel::Small,
            Model::Medium => CohereModel::Medium,
            Model::Large => CohereModel::Large,
            Model::XLarge | Model::XXLarge => CohereModel::XLarge,
        }
    }

    /// The name by which the provider knows the model.
    pub fn to_versioned(&self) -> (r: &'static str)
        ensures
            r@ == self.versioned(),
    {
        match self {
            CohereModel::Small => "small",
            CohereModel::Medium => "medium",
            CohereModel::Large => "large",
            CohereModel::XLarge => "xlarge",
        }
    }

    /// The Cohere model for a size, and whether Cohere has a model of just
    /// that size: for `Small` and `XXLarge` it has not, and the nearest is
    /// taken.
    pub fn try_from(model: Model) -> (r: Result<(CohereModel, bool), SessionError>)
        ensures
            r matches Ok((m, exact)) && m == CohereModel::of(model) && exact == (model
                != Model::Small && model != Model::XXLarge),
    {
        Ok(
            match model {
                Model::Tiny => (CohereModel::Small, true),
                Model::Small => (CohereModel::Small, false),
                Model::Medium => (CohereModel::Medium, true),
                Model::Large => (CohereModel::Large, true),
                Model::XLarge => (CohereModel::XLarge, true),
                Model::XXLarge => (CohereModel::XLarge, false),
            },
        )
    }
}

/// A session with Cohere, settled: the model and the number of answers.
#[derive(Clone, Copy, Debug, PartialEq, Eq)]
pub struct CohereSessionCommand {
    pub model: CohereModel,
    pub response_count: usize,
}

impl CohereSessionCommand {
    /// Settles a session for Cohere, which has no model for code.
    pub fn try_from(options: &SessionOptions) -> (r: Result<CohereSessionCommand, SessionError>)
        ensures
            match r {
                Ok(c) => options.model_focus != ModelFocus::Code && c.model == CohereModel::of(
                    options.model,
                ) && c.response_count == match options.completion.response_count {
                    Some(n) => n,
                    None => 1usize,
                },
                Err(e) => options.model_focus == ModelFocus::Code && e
                    == SessionError::NoMatchingModel,
            },
    {
        if let ModelFocus::Code = options.model_focus {
            return Err(SessionError::NoMatchingModel);
        }
        let model = match CohereModel::try_from(options.model) {
            Ok((m, _)) => m,
            Err(e) => { return Err(e); },
        };
        Ok(
            CohereSessionCommand {
                model,
                response_count: match options.completion.response_count {
                    Some(n) => n,
                    None => 1,
                },
            },
        )
    }
}

} // verus!
