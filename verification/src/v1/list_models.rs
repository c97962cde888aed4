//! The list of models, as the API returns it.
use vstd::prelude::*;

verus! {

/// The reply to a request for the list of models.
#[derive(Clone, Debug)]
pub struct ListModelsResponse {
    pub object: String,
    pub data: Vec<ListModelsModel>,
}

/// One model of the list.
#[derive(Clone, Debug)]
pub struct ListModelsModel {
    pub id: String,
    pub object: String,
    /// Unix timestamp (in seconds).
    pub created: u32,
    pub owned_by: String,
    pub permission: Vec<ListModelsModelPermission>,
}

/// What may be done with a model.
#[derive(Clone, Debug)]
pub struct ListModelsModelPermission {
    pub id: String,
    pub object: String,
    /// Unix timestamp (in seconds).
    pub created: u32,
    pub allow_create_engine: bool,
    pub allow_sampling: bool,
    pub allow_logprobs: bool,
    pub allow_search_indices: bool,
    pub allow_view: bool,
    pub allow_fine_tuning: bool,
    pub organization: String,
    pub is_blocking: bool,
}

} // verus!
