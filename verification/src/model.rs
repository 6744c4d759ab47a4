//! Model identifiers, and the names under which the completion service
//! knows them.

use vstd::prelude::*;

verus! {

/// The models of the completion service that are supported by name.
#[derive(Debug, Clone, Copy, PartialEq, Eq, Hash)]
pub enum OpenAiModel {
    Gpt5,
    Gpt5Nano,
    Gpt5Mini,
    Gpt5_1,
    Gpt5_2,
    Gpt4o,
    Gpt4oMini,
    O3,
    O3Mini,
    O4Mini,
}

/// A model: one that is supported by name, or any other by the name that
/// its provider gives it.
#[derive(Debug, Clone, PartialEq, Eq, Hash)]
pub enum Model {
    OpenAi(OpenAiModel),
    Custom(&'static str),
}

impl Model {
    /// The model that stands for a supported model of the service.
    pub fn from_openai(value: OpenAiModel) -> (model: Model)
        ensures
            model == Model::OpenAi(value),
    {
        Model::OpenAi(value)
    }
}

impl From<OpenAiModel> for Model {
    fn from(value: OpenAiModel) -> (model: Model) {
        Model::from_openai(value)
    }
}

impl vstd::std_specs::convert::FromSpecImpl<OpenAiModel> for Model {
    open spec fn obeys_from_spec() -> bool {
        true
    }

    open spec fn from_spec(value: OpenAiModel) -> Model {
        Model::OpenAi(value)
    }
}

/// The name of a supported model on the wire.
pub open spec fn openai_model_name(model: OpenAiModel) -> Seq<char> {
    match model {
        OpenAiModel::Gpt4o => "gpt-4o"@,
        OpenAiModel::Gpt4oMini => "gpt-4o-mini"@,
        OpenAiModel::O3 => "o3"@,
        OpenAiModel::O3Mini => "o3-mini"@,
        OpenAiModel::O4Mini => "o4-mini"@,
        OpenAiModel::Gpt5 => "gpt-5"@,
        OpenAiModel::Gpt5Nano => "gpt-5-nano"@,
        OpenAiModel::Gpt5Mini => "gpt-5-mini"@,
        OpenAiModel::Gpt5_1 => "gpt-5.1"@,
        OpenAiModel::Gpt5_2 => "gpt-5.2"@,
    }
}

/// The name of a model on the wire: a custom model goes by its own name.
pub open spec fn model_name(model: Model) -> Seq<char> {
    match model {
        Model::Custom(name) => name@,
        Model::OpenAi(known) => openai_model_name(known),
    }
}

/// The name under which the service knows `model`. Every model has one.
pub fn map_model(model: &Model) -> (name: Option<&'static str>)
    ensures
        name matches Some(text) && text@ == model_name(*model),
{
    match model {
        Model::Custom(custom) => Some(*custom),
        Model::OpenAi(known) => match known {
            OpenAiModel::Gpt4o => Some("gpt-4o"),
            OpenAiModel::Gpt4oMini => Some("gpt-4o-mini"),
            OpenAiModel::O3 => Some("o3"),
            OpenAiModel::O3Mini => Some("o3-mini"),
            OpenAiModel::O4Mini => Some("o4-mini"),
            OpenAiModel::Gpt5 => Some("gpt-5"),
            OpenAiModel::Gpt5Nano => Some("gpt-5-nano"),
            OpenAiModel::Gpt5Mini => Some("gpt-5-mini"),
            OpenAiModel::Gpt5_1 => Some("gpt-5.1"),
            OpenAiModel::Gpt5_2 => Some("gpt-5.2"),
        },
    }
}

} // verus!
