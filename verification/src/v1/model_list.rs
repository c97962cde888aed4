//! The list of models, as a client hands it out.
use vstd::prelude::*;
use crate::v1::error::ApiError;
use crate::v1::json::{
    array_member,
    bool_member,
    decoded,
    invalid,
    invalid_field,
    json_parse,
    json_view,
    json_views,
    not_an_object,
    not_object,
    parse_json,
    read_array,
    read_bool,
    read_text,
    read_u32,
    text_member,
    u32_member,
    JsonModel,
};

verus! {

// -----------------------------------------------------------------------------
// Response

/// The reply to a request for the list of models.
#[derive(Clone, Debug)]
pub struct ModelListResponse {
    pub object: String,
    pub data: Vec<ModelListData>,
}

/// One model of the list.
#[derive(Clone, Debug)]
pub struct ModelListData {
    pub id: String,
    pub object: String,
    /// Unix timestamp (in seconds).
    pub created: u32,
    pub owned_by: String,
    pub permission: Vec<ModelListDataPermission>,
}

/// What may be done with a model.
#[derive(Clone, Debug)]
pub struct ModelListDataPermission {
    pub id: String,
    pub object: String,
    /// Unix timestamp (in seconds).
    pub created: u32,
    pub allow_create_engine: bool,
    pub allow_sampling: bool,
    pub allow_logprobs: bool,
    pub allow_search_indices: bool,
    pub allow_view: bool,
    pub allow_fine_tuning: bool,
    pub organization: String,
    pub is_blocking: bool,
}

/// The content of a [`ModelListDataPermission`].
pub struct PermissionModel {
    pub id: Seq<char>,
    pub object: Seq<char>,
    pub created: u32,
    pub allow_create_engine: bool,
    pub allow_sampling: bool,
    pub allow_logprobs: bool,
    pub allow_search_indices: bool,
    pub allow_view: bool,
    pub allow_fine_tuning: bool,
    pub organization: Seq<char>,
    pub is_blocking: bool,
}

/// The content of a [`ModelListData`].
pub struct ModelDataModel {
    pub id: Seq<char>,
    pub object: Seq<char>,
    pub created: u32,
    pub owned_by: Seq<char>,
    pub permission: Seq<PermissionModel>,
}

/// The content of a [`ModelListResponse`].
pub struct ModelListModel {
    pub object: Seq<char>,
    pub data: Seq<ModelDataModel>,
}

impl View for ModelListDataPermission {
    type V = PermissionModel;

    open spec fn view(&self) -> PermissionModel {
        PermissionModel {
            id: self.id@,
            object: self.object@,
            created: self.created,
            allow_create_engine: self.allow_create_engine,
            allow_sampling: self.allow_sampling,
            allow_logprobs: self.allow_logprobs,
            allow_search_indices: self.allow_search_indices,
            allow_view: self.allow_view,
            allow_fine_tuning: self.allow_fine_tuning,
            organization: self.organization@,
            is_blocking: self.is_blocking,
        }
    }
}

/// The contents of a list of permissions.
pub open spec fn permission_models(permissions: Seq<ModelListDataPermission>) -> Seq<
    PermissionModel,
> {
    permissions.map_values(|permission: ModelListDataPermission| permission@)
}

impl View for ModelListData {
    type V = ModelDataModel;

    open spec fn view(&self) -> ModelDataModel {
        ModelDataModel {
            id: self.id@,
            object: self.object@,
            created: self.created,
            owned_by: self.owned_by@,
            permission: permission_models(self.permission@),
        }
    }
}

/// The contents of a list of models.
pub open spec fn model_data_models(data: Seq<ModelListData>) -> Seq<ModelDataModel> {
    data.map_values(|item: ModelListData| item@)
}

impl View for ModelListResponse {
    type V = ModelListModel;

    open spec fn view(&self) -> ModelListModel {
        ModelListModel { object: self.object@, data: model_data_models(self.data@) }
    }
}

// -----------------------------------------------------------------------------
// The schema

/// The three flags of a permission that are read first.
pub open spec fn first_flags_of(document: JsonModel) -> Result<(bool, bool, bool), Seq<char>> {
    match bool_member(document, "allow_create_engine"@) {
        Err(message) => Err(message),
        Ok(allow_create_engine) => match bool_member(document, "allow_sampling"@) {
            Err(message) => Err(message),
            Ok(allow_sampling) => match bool_member(document, "allow_logprobs"@) {
                Err(message) => Err(message),
                Ok(allow_logprobs) => Ok((allow_create_engine, allow_sampling, allow_logprobs)),
            },
        },
    }
}

/// The three flags of a permission that are read next.
pub open spec fn next_flags_of(document: JsonModel) -> Result<(bool, bool, bool), Seq<char>> {
    match bool_member(document, "allow_search_indices"@) {
        Err(message) => Err(message),
        Ok(allow_search_indices) => match bool_member(document, "allow_view"@) {
            Err(message) => Err(message),
            Ok(allow_view) => match bool_member(document, "allow_fine_tuning"@) {
                Err(message) => Err(message),
                Ok(allow_fine_tuning) => Ok((allow_search_indices, allow_view, allow_fine_tuning)),
            },
        },
    }
}

/// The permission that a JSON document describes: an object with the texts
/// `id`, `object` and `organization`, the number `created` and seven flags.
/// Members are read in the order of the fields, and the first that fails
/// decides the error.
pub open spec fn permission_of(document: JsonModel) -> Result<PermissionModel, Seq<char>> {
    if !(document is Object) {
        Err(invalid_field("permission"@))
    } else {
        match text_member(document, "id"@) {
            Err(message) => Err(message),
            Ok(id) => match text_member(document, "object"@) {
                Err(message) => Err(message),
                Ok(object) => match u32_member(document, "created"@) {
                    Err(message) => Err(message),
                    Ok(created) => match first_flags_of(document) {
                        Err(message) => Err(message),
                        Ok(first) => match next_flags_of(document) {
                            Err(message) => Err(message),
                            Ok(next) => match text_member(document, "organization"@) {
                                Err(message) => Err(message),
                                Ok(organization) => match bool_member(document, "is_blocking"@) {
                                    Err(message) => Err(message),
                                    Ok(is_blocking) => Ok(
                                        PermissionModel {
                                            id,
                                            object,
                                            created,
                                            allow_create_engine: first.0,
                                            allow_sampling: first.1,
                                            allow_logprobs: first.2,
                                            allow_search_indices: next.0,
                                            allow_view: next.1,
                                            allow_fine_tuning: next.2,
                                            organization,
                                            is_blocking,
                                        },
                                    ),
                                },
                            },
                        },
                    },
                },
            },
        }
    }
}

/// The permissions that a JSON array describes, in order; the first element
/// that describes none decides the error.
pub open spec fn permissions_of(items: Seq<JsonModel>) -> Result<Seq<PermissionModel>, Seq<char>>
    decreases items.len(),
{
    if items.len() == 0 {
        Ok(Seq::empty())
    } else {
        match permissions_of(items.drop_last()) {
            Err(message) => Err(message),
            Ok(before) => match permission_of(items.last()) {
                Err(message) => Err(message),
                Ok(permission) => Ok(before.push(permission)),
            },
        }
    }
}

/// The model that a JSON document describes: an object with the texts `id`,
/// `object` and `owned_by`, the number `created` and an array `permission`.
pub open spec fn model_data_of(document: JsonModel) -> Result<ModelDataModel, Seq<char>> {
    if !(document is Object) {
        Err(invalid_field("data"@))
    } else {
        match text_member(document, "id"@) {
            Err(message) => Err(message),
            Ok(id) => match text_member(document, "object"@) {
                Err(message) => Err(message),
                Ok(object) => match u32_member(document, "created"@) {
                    Err(message) => Err(message),
                    Ok(created) => match text_member(document, "owned_by"@) {
                        Err(message) => Err(message),
                        Ok(owned_by) => match array_member(document, "permission"@) {
                            Err(message) => Err(message),
                            Ok(items) => match permissions_of(items) {
                                Err(message) => Err(message),
                                Ok(permission) => Ok(
                                    ModelDataModel { id, object, created, owned_by, permission },
                                ),
                            },
                        },
                    },
                },
            },
        }
    }
}

/// The models that a JSON array describes, in order; the first element that
/// describes none decides the error.
pub open spec fn model_list_data_of(items: Seq<JsonModel>) -> Result<Seq<ModelDataModel>, Seq<char>>
    decreases items.len(),
{
    if items.len() == 0 {
        Ok(Seq::empty())
    } else {
        match model_list_data_of(items.drop_last()) {
            Err(message) => Err(message),
            Ok(before) => match model_data_of(items.last()) {
                Err(message) => Err(message),
                Ok(item) => Ok(before.push(item)),
            },
        }
    }
}

/// The list of models that a JSON document describes: an object with the text
/// `object` and an array `data`.
pub open spec fn model_list_of(document: JsonModel) -> Result<ModelListModel, Seq<char>> {
    if !(document is Object) {
        Err(not_an_object())
    } else {
        match text_member(document, "object"@) {
            Err(message) => Err(message),
            Ok(object) => match array_member(document, "data"@) {
                Err(message) => Err(message),
                Ok(items) => match model_list_data_of(items) {
                    Err(message) => Err(message),
                    Ok(data) => Ok(ModelListModel { object, data }),
                },
            },
        }
    }
}

/// The list of models that a body describes: what `model_list_of` makes of
/// the document that the JSON parser reads, or the parser's error message.
pub open spec fn decode_list(body: Seq<char>) -> Result<ModelListModel, Seq<char>> {
    match json_parse(body) {
        Err(message) => Err(message),
        Ok(document) => model_list_of(document),
    }
}

/// A failed element fails the whole array of permissions, with the error of
/// the first such element.
pub proof fn lemma_permissions_fail_early(items: Seq<JsonModel>, n: int)
    requires
        0 <= n <= items.len(),
        permissions_of(items.take(n)) is Err,
    ensures
        permissions_of(items) == permissions_of(items.take(n)),
    decreases items.len() - n,
{
    if n < items.len() {
        assert(items.take(n + 1).drop_last() == items.take(n));
        lemma_permissions_fail_early(items, n + 1);
    } else {
        assert(items.take(n) == items);
    }
}

/// A failed element fails the whole array of models, with the error of the
/// first such element.
pub proof fn lemma_model_list_data_fail_early(items: Seq<JsonModel>, n: int)
    requires
        0 <= n <= items.len(),
        model_list_data_of(items.take(n)) is Err,
    ensures
        model_list_data_of(items) == model_list_data_of(items.take(n)),
    decreases items.len() - n,
{
    if n < items.len() {
        assert(items.take(n + 1).drop_last() == items.take(n));
        lemma_model_list_data_fail_early(items, n + 1);
    } else {
        assert(items.take(n) == items);
    }
}

/// Reads three flags of a permission.
fn read_flags(value: &serde_json::Value, first: &str, second: &str, third: &str) -> (r: Result<
    (bool, bool, bool),
    ApiError,
>)
    ensures
        match bool_member(json_view(*value), first@) {
            Err(message) => r matches Err(error) && error.message@ == message,
            Ok(a) => match bool_member(json_view(*value), second@) {
                Err(message) => r matches Err(error) && error.message@ == message,
                Ok(b) => match bool_member(json_view(*value), third@) {
                    Err(message) => r matches Err(error) && error.message@ == message,
                    Ok(c) => r == Ok::<(bool, bool, bool), ApiError>((a, b, c)),
                },
            },
        },
{
    let a = match read_bool(value, first) {
        Err(error) => {
            return Err(error);
        },
        Ok(a) => a,
    };
    let b = match read_bool(value, second) {
        Err(error) => {
            return Err(error);
        },
        Ok(b) => b,
    };
    match read_bool(value, third) {
        Err(error) => Err(error),
        Ok(c) => Ok((a, b, c)),
    }
}

/// Decodes the permission that a JSON document describes.
pub fn permission_from_json(value: &serde_json::Value) -> (r: Result<
    ModelListDataPermission,
    ApiError,
>)
    ensures
        decoded(r, permission_of(json_view(*value))),
{
    if !value.is_object() {
        return Err(invalid("permission"));
    }
    let id = match read_text(value, "id") {
        Err(error) => {
            return Err(error);
        },
        Ok(id) => id,
    };
    let object = match read_text(value, "object") {
        Err(error) => {
            return Err(error);
        },
        Ok(object) => object,
    };
    let created = match read_u32(value, "created") {
        Err(error) => {
            return Err(error);
        },
        Ok(created) => created,
    };
    let first = match read_flags(value, "allow_create_engine", "allow_sampling", "allow_logprobs") {
        Err(error) => {
            return Err(error);
        },
        Ok(first) => first,
    };
    let next = match read_flags(value, "allow_search_indices", "allow_view", "allow_fine_tuning") {
        Err(error) => {
            return Err(error);
        },
        Ok(next) => next,
    };
    let organization = match read_text(value, "organization") {
        Err(error) => {
            return Err(error);
        },
        Ok(organization) => organization,
    };
    match read_bool(value, "is_blocking") {
        Err(error) => Err(error),
        Ok(is_blocking) => Ok(
            ModelListDataPermission {
                id,
                object,
                created,
                allow_create_engine: first.0,
                allow_sampling: first.1,
                allow_logprobs: first.2,
                allow_search_indices: next.0,
                allow_view: next.1,
                allow_fine_tuning: next.2,
                organization,
                is_blocking,
            },
        ),
    }
}

/// Decodes the permissions that the elements of a JSON array describe.
pub fn permissions_from_json(items: &Vec<serde_json::Value>) -> (r: Result<
    Vec<ModelListDataPermission>,
    ApiError,
>)
    ensures
        match permissions_of(json_views(items@)) {
            Ok(models) => r matches Ok(permissions) && permission_models(permissions@) == models,
            Err(message) => r matches Err(error) && error.message@ == message,
        },
{
    let ghost documents = json_views(items@);
    let mut permissions: Vec<ModelListDataPermission> = Vec::new();
    let mut i: usize = 0;
    assert(documents.take(0) == Seq::<JsonModel>::empty());
    assert(permission_models(permissions@) == Seq::<PermissionModel>::empty());
    while i < items.len()
        invariant
            i <= items@.len(),
            documents == json_views(items@),
            permissions_of(documents.take(i as int)) == Ok::<Seq<PermissionModel>, Seq<char>>(
                permission_models(permissions@),
            ),
        decreases items@.len() - i,
    {
        let ghost before = permission_models(permissions@);
        assert(documents.take(i + 1).drop_last() == documents.take(i as int));
        assert(documents.take(i + 1).last() == json_view(items@[i as int]));
        match permission_from_json(&items[i]) {
            Err(error) => {
                proof {
                    lemma_permissions_fail_early(documents, i + 1);
                }
                return Err(error);
            },
            Ok(permission) => {
                permissions.push(permission);
                assert(permission_models(permissions@) == before.push(permission@));
            },
        }
        i += 1;
    }
    assert(documents.take(i as int) == documents);
    Ok(permissions)
}

/// Decodes the model that a JSON document describes.
pub fn model_data_from_json(value: &serde_json::Value) -> (r: Result<ModelListData, ApiError>)
    ensures
        decoded(r, model_data_of(json_view(*value))),
{
    if !value.is_object() {
        return Err(invalid("data"));
    }
    let id = match read_text(value, "id") {
        Err(error) => {
            return Err(error);
        },
        Ok(id) => id,
    };
    let object = match read_text(value, "object") {
        Err(error) => {
            return Err(error);
        },
        Ok(object) => object,
    };
    let created = match read_u32(value, "created") {
        Err(error) => {
            return Err(error);
        },
        Ok(created) => created,
    };
    let owned_by = match read_text(value, "owned_by") {
        Err(error) => {
            return Err(error);
        },
        Ok(owned_by) => owned_by,
    };
    match read_array(value, "permission") {
        Err(error) => Err(error),
        Ok(items) => match permissions_from_json(items) {
            Err(error) => Err(error),
            Ok(permission) => Ok(ModelListData { id, object, created, owned_by, permission }),
        },
    }
}

/// Decodes the models that the elements of a JSON array describe.
pub fn model_list_data_from_json(items: &Vec<serde_json::Value>) -> (r: Result<
    Vec<ModelListData>,
    ApiError,
>)
    ensures
        match model_list_data_of(json_views(items@)) {
            Ok(models) => r matches Ok(data) && model_data_models(data@) == models,
            Err(message) => r matches Err(error) && error.message@ == message,
        },
{
    let ghost documents = json_views(items@);
    let mut data: Vec<ModelListData> = Vec::new();
    let mut i: usize = 0;
    assert(documents.take(0) == Seq::<JsonModel>::empty());
    assert(model_data_models(data@) == Seq::<ModelDataModel>::empty());
    while i < items.len()
        invariant
            i <= items@.len(),
            documents == json_views(items@),
            model_list_data_of(documents.take(i as int)) == Ok::<Seq<ModelDataModel>, Seq<char>>(
                model_data_models(data@),
            ),
        decreases items@.len() - i,
    {
        let ghost before = model_data_models(data@);
        assert(documents.take(i + 1).drop_last() == documents.take(i as int));
        assert(documents.take(i + 1).last() == json_view(items@[i as int]));
        match model_data_from_json(&items[i]) {
            Err(error) => {
                proof {
                    lemma_model_list_data_fail_early(documents, i + 1);
                }
                return Err(error);
            },
            Ok(item) => {
                data.push(item);
                assert(model_data_models(data@) == before.push(item@));
            },
        }
        i += 1;
    }
    assert(documents.take(i as int) == documents);
    Ok(data)
}

/// Decodes the list of models that a parsed JSON document describes.
pub fn model_list_from_json(value: &serde_json::Value) -> (r: Result<ModelListResponse, ApiError>)
    ensures
        decoded(r, model_list_of(json_view(*value))),
{
    if !value.is_object() {
        return Err(not_object());
    }
    let object = match read_text(value, "object") {
        Err(error) => {
            return Err(error);
        },
        Ok(object) => object,
    };
    match read_array(value, "data") {
        Err(error) => Err(error),
        Ok(items) => match model_list_data_from_json(items) {
            Err(error) => Err(error),
            Ok(data) => Ok(ModelListResponse { object, data }),
        },
    }
}

/// Decodes the body of a reply to a request for the list of models.
pub fn decode_model_list(body: &str) -> (r: Result<ModelListResponse, ApiError>)
    ensures
        decoded(r, decode_list(body@)),
{
    match parse_json(body) {
        Err(message) => Err(ApiError { message }),
        Ok(value) => model_list_from_json(&value),
    }
}

} // verus!
