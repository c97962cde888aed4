//! Values shared by several responses.
use vstd::prelude::*;
use crate::v1::error::ApiError;
use crate::v1::json::{decoded, invalid, invalid_field, json_view, read_u32, u32_member, JsonModel};

verus! {

/// How many tokens a request used.
#[derive(Clone, Copy, Debug, PartialEq, Eq, Structural)]
pub struct ResponseUsage {
    pub prompt_tokens: u32,
    pub completion_tokens: u32,
    pub total_tokens: u32,
}

/// A single-precision number, held by its IEEE 754 bit pattern. The crate
/// carries such numbers and never computes with them.
#[derive(Clone, Copy, Debug, PartialEq, Eq, Structural)]
pub struct Single {
    pub bits: u32,
}

impl View for ResponseUsage {
    type V = ResponseUsage;

    open spec fn view(&self) -> ResponseUsage {
        *self
    }
}

/// The usage summary that a JSON document describes: an object with three
/// token counts.
pub open spec fn usage_of(document: JsonModel) -> Result<ResponseUsage, Seq<char>> {
    if !(document is Object) {
        Err(invalid_field("usage"@))
    } else {
        match u32_member(document, "prompt_tokens"@) {
            Err(message) => Err(message),
            Ok(prompt_tokens) => match u32_member(document, "completion_tokens"@) {
                Err(message) => Err(message),
                Ok(completion_tokens) => match u32_member(document, "total_tokens"@) {
                    Err(message) => Err(message),
                    Ok(total_tokens) => Ok(
                        ResponseUsage { prompt_tokens, completion_tokens, total_tokens },
                    ),
                },
            },
        }
    }
}

/// Decodes the usage summary that a JSON document describes.
pub fn usage_from_json(value: &serde_json::Value) -> (r: Result<ResponseUsage, ApiError>)
    ensures
        decoded(r, usage_of(json_view(*value))),
{
    if !value.is_object() {
        return Err(invalid("usage"));
    }
    let prompt_tokens = match read_u32(value, "prompt_tokens") {
        Err(error) => {
            return Err(error);
        },
        Ok(n) => n,
    };
    let completion_tokens = match read_u32(value, "completion_tokens") {
        Err(error) => {
            return Err(error);
        },
        Ok(n) => n,
    };
    match read_u32(value, "total_tokens") {
        Err(error) => Err(error),
        Ok(total_tokens) => Ok(ResponseUsage { prompt_tokens, completion_tokens, total_tokens }),
    }
}

} // verus!
