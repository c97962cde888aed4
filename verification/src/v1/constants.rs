//! Fixed values of the API: its address and the models it serves.
use vstd::prelude::*;
use crate::v1::text::text_eq;

verus! {

/// Address of the official API.
pub const API_URL_BASE: &'static str = "https://api.mistral.ai/v1";

/// A chat model.
#[derive(Clone, Copy, Debug, PartialEq, Eq, Structural)]
pub enum Model {
    OpenMistral7b,
    OpenMixtral8x7b,
    OpenMixtral8x22b,
    MistralTiny,
    MistralSmallLatest,
    MistralMediumLatest,
    MistralLargeLatest,
    CodestralLatest,
}

impl Model {
    /// The name by which the API knows this model.
    pub open spec fn name(self) -> Seq<char> {
        match self {
            Model::OpenMistral7b => "open-mistral-7b"@,
            Model::OpenMixtral8x7b => "open-mixtral-8x7b"@,
            Model::OpenMixtral8x22b => "open-mixtral-8x22b"@,
            Model::MistralTiny => "mistral-tiny"@,
            Model::MistralSmallLatest => "mistral-small-latest"@,
            Model::MistralMediumLatest => "mistral-medium-latest"@,
            Model::MistralLargeLatest => "mistral-large-latest"@,
            Model::CodestralLatest => "codestral-latest"@,
        }
    }

    /// The model that the API knows by `name`, if there is one.
    pub open spec fn named(name: Seq<char>) -> Option<Model> {
        if name == Model::OpenMistral7b.name() {
            Some(Model::OpenMistral7b)
        } else if name == Model::OpenMixtral8x7b.name() {
            Some(Model::OpenMixtral8x7b)
        } else if name == Model::OpenMixtral8x22b.name() {
            Some(Model::OpenMixtral8x22b)
        } else if name == Model::MistralTiny.name() {
            Some(Model::MistralTiny)
        } else if name == Model::MistralSmallLatest.name() {
            Some(Model::MistralSmallLatest)
        } else if name == Model::MistralMediumLatest.name() {
            Some(Model::MistralMediumLatest)
        } else if name == Model::MistralLargeLatest.name() {
            Some(Model::MistralLargeLatest)
        } else if name == Model::CodestralLatest.name() {
            Some(Model::CodestralLatest)
        } else {
            None
        }
    }

    /// The name by which the API knows this model.
    pub fn as_str(&self) -> (r: &'static str)
        ensures
            r@ == self.name(),
    {
        match self {
            Model::OpenMistral7b => "open-mistral-7b",
            Model::OpenMixtral8x7b => "open-mixtral-8x7b",
            Model::OpenMixtral8x22b => "open-mixtral-8x22b",
            Model::MistralTiny => "mistral-tiny",
            Model::MistralSmallLatest => "mistral-small-latest",
            Model::MistralMediumLatest => "mistral-medium-latest",
            Model::MistralLargeLatest => "mistral-large-latest",
            Model::CodestralLatest => "codestral-latest",
        }
    }

    /// Looks a model up by its name.
    pub fn from_name(name: &str) -> (r: Option<Model>)
        ensures
            r == Model::named(name@),
    {
        if text_eq(name, "open-mistral-7b") {
            Some(Model::OpenMistral7b)
        } else if text_eq(name, "open-mixtral-8x7b") {
            Some(Model::OpenMixtral8x7b)
        } else if text_eq(name, "open-mixtral-8x22b") {
            Some(Model::OpenMixtral8x22b)
        } else if text_eq(name, "mistral-tiny") {
            Some(Model::MistralTiny)
        } else if text_eq(name, "mistral-small-latest") {
            Some(Model::MistralSmallLatest)
        } else if text_eq(name, "mistral-medium-latest") {
            Some(Model::MistralMediumLatest)
        } else if text_eq(name, "mistral-large-latest") {
            Some(Model::MistralLargeLatest)
        } else if text_eq(name, "codestral-latest") {
            Some(Model::CodestralLatest)
        } else {
            None
        }
    }

    /// Every model is found again by its own name: no two models share one.
    pub proof fn lemma_named_name(self)
        ensures
            Model::named(self.name()) == Some(self),
    {
        reveal_strlit("open-mistral-7b");
        reveal_strlit("open-mixtral-8x7b");
        reveal_strlit("open-mixtral-8x22b");
        reveal_strlit("mistral-tiny");
        reveal_strlit("mistral-small-latest");
        reveal_strlit("mistral-medium-latest");
        reveal_strlit("mistral-large-latest");
        reveal_strlit("codestral-latest");
        assert("open-mistral-7b"@.len() == 15);
        assert("open-mixtral-8x7b"@.len() == 17);
        assert("open-mixtral-8x22b"@.len() == 18);
        assert("mistral-tiny"@.len() == 12);
        assert("mistral-small-latest"@.len() == 20);
        assert("mistral-medium-latest"@.len() == 21);
        assert("mistral-large-latest"@.len() == 20);
        assert("codestral-latest"@.len() == 16);
        assert("mistral-small-latest"@[8] == 's');
        assert("mistral-large-latest"@[8] == 'l');
    }
}

/// An embedding model.
#[derive(Clone, Copy, Debug, PartialEq, Eq, Structural)]
pub enum EmbedModel {
    MistralEmbed,
}

impl EmbedModel {
    /// The name by which the API knows this model.
    pub open spec fn name(self) -> Seq<char> {
        "mistral-embed"@
    }

    /// The name by which the API knows this model.
    pub fn as_str(&self) -> (r: &'static str)
        ensures
            r@ == self.name(),
    {
        "mistral-embed"
    }

    /// Looks a model up by its name.
    pub fn from_name(name: &str) -> (r: Option<EmbedModel>)
        ensures
            r == (if name@ == EmbedModel::MistralEmbed.name() {
                Some(EmbedModel::MistralEmbed)
            } else {
                None
            }),
    {
        if text_eq(name, "mistral-embed") {
            Some(EmbedModel::MistralEmbed)
        } else {
            None
        }
    }
}

} // verus!
