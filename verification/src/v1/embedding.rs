//! Embedding requests and the replies to them.
use vstd::prelude::*;
use crate::v1::common::{ResponseUsage, Single};
use crate::v1::constants::EmbedModel;

verus! {

/// The options of an embedding request.
#[derive(Debug)]
pub struct EmbeddingRequestOptions {
    pub encoding_format: Option<EmbeddingRequestEncodingFormat>,
}

impl Default for EmbeddingRequestOptions {
    fn default() -> (r: Self)
        ensures
            r.encoding_format is None,
    {
        Self { encoding_format: None }
    }
}

/// An embedding request, as it is sent.
#[derive(Debug)]
pub struct EmbeddingRequest {
    pub model: EmbedModel,
    pub input: Vec<String>,
    pub encoding_format: Option<EmbeddingRequestEncodingFormat>,
}

impl EmbeddingRequest {
    /// Whether this is the request made of the given model, texts and options.
    pub open spec fn describes(
        &self,
        model: EmbedModel,
        input: Vec<String>,
        options: Option<EmbeddingRequestOptions>,
    ) -> bool {
        &&& self.model == model
        &&& self.input == input
        &&& self.encoding_format == (match options {
            Some(given) => given.encoding_format,
            None => None,
        })
    }

    /// Makes a request of a model, the texts to embed and options. Where no
    /// options are given no encoding format is set.
    pub fn new(model: EmbedModel, input: Vec<String>, options: Option<EmbeddingRequestOptions>) -> (r:
        Self)
        ensures
            r.describes(model, input, options),
    {
        let EmbeddingRequestOptions { encoding_format } = match options {
            Some(given) => given,
            None => EmbeddingRequestOptions::default(),
        };

        Self { model, input, encoding_format }
    }
}

/// How the numbers of an embedding are written.
#[derive(Clone, Copy, Debug, PartialEq, Eq, Structural)]
#[allow(non_camel_case_types)]
pub enum EmbeddingRequestEncodingFormat {
    float,
}

impl EmbeddingRequestEncodingFormat {
    /// The name by which the API knows this format.
    pub open spec fn name(self) -> Seq<char> {
        "float"@
    }

    /// The name by which the API knows this format.
    pub fn as_str(&self) -> (r: &'static str)
        ensures
            r@ == self.name(),
    {
        "float"
    }
}

/// The reply to an embedding request.
#[derive(Clone, Debug)]
pub struct EmbeddingResponse {
    pub id: String,
    pub object: String,
    pub model: EmbedModel,
    pub data: Vec<EmbeddingResponseDataItem>,
    pub usage: ResponseUsage,
}

/// The embedding of one input text.
#[derive(Clone, Debug)]
pub struct EmbeddingResponseDataItem {
    pub index: u32,
    pub embedding: Vec<Single>,
    pub object: String,
}

} // verus!
