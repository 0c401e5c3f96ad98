use vstd::prelude::*;
use crate::errors::{ServiceError, bad_request, fails_bad_request, is_bad_request};
use crate::models::{UnifiedId, SlimUser, is_member, find_org_role};
use crate::chunk::opt_view;

verus! {

/// Where a dataset's search index can be downloaded.
#[derive(Debug, Clone)]
pub struct GetPagefindIndexResponse {
    pub url: String,
}

/// Optional limit and offset of a dataset listing.
#[derive(Debug, Clone, Copy)]
pub struct GetDatasetsPagination {
    pub limit: Option<i64>,
    pub offset: Option<i64>,
}

/// Page of the tags of a dataset.
#[derive(Debug, Clone, Copy)]
pub struct GetAllTagsReqPayload {
    pub page_size: Option<i64>,
    pub page: Option<i64>,
}

/// A tag and how many chunks carry it.
#[derive(Debug, Clone)]
pub struct TagsWithCount {
    pub tag: String,
    pub count: i64,
}

/// A page of tags and the total number of tags.
#[derive(Debug, Clone)]
pub struct GetAllTagsResponse {
    pub tags: Vec<TagsWithCount>,
    pub total: i64,
}

/// Whether an organization with `dataset_count` datasets may create another
/// under a plan that allows `plan_dataset_count`; when it may not, the
/// request is answered with "upgrade required".
pub fn dataset_creation_admitted(limits_checked: bool, dataset_count: i32, plan_dataset_count: i32) -> (b: bool)
    ensures
        b == (!limits_checked || dataset_count < plan_dataset_count),
{
    !(limits_checked && dataset_count >= plan_dataset_count)
}

/// The dataset an update names: by id when given, else by tracking id; an
/// update that names neither is refused.
pub fn dataset_update_target(dataset_id: Option<u128>, tracking_id: Option<String>) -> (r: Result<UnifiedId, ServiceError>)
    ensures
        dataset_id matches Some(id) ==> r == Ok::<UnifiedId, ServiceError>(UnifiedId::TrieveUuid(id)),
        dataset_id is None && tracking_id is Some ==> (r matches Ok(UnifiedId::TrackingId(t)) && Some(t@) == opt_view(tracking_id)),
        dataset_id is None && tracking_id is None ==> fails_bad_request(
            r,
            "You must provide a dataset_id or tracking_id to update a dataset"@,
        ),
{
    match dataset_id {
        Some(id) => Ok(UnifiedId::TrieveUuid(id)),
        None => match tracking_id {
            Some(t) => Ok(UnifiedId::TrackingId(t)),
            None => Err(bad_request("You must provide a dataset_id or tracking_id to update a dataset")),
        },
    }
}

/// Admits an operation only for a verified owner of the organization.
pub fn require_verified(verified: bool) -> (r: Result<(), ServiceError>)
    ensures
        r is Ok <==> verified,
        r is Err ==> r == Err::<(), ServiceError>(ServiceError::Forbidden),
{
    if !verified {
        return Err(ServiceError::Forbidden);
    }
    Ok(())
}

/// Checks a request that deletes or clears a dataset: the dataset in the
/// header must be the one in the path, then the user must own the
/// organization.
pub fn check_dataset_owner_operation(header_dataset_id: u128, path_dataset_id: u128, owner_verified: bool) -> (r: Result<(), ServiceError>)
    ensures
        header_dataset_id != path_dataset_id ==> fails_bad_request(r, "Dataset header does not match provided dataset ID"@),
        header_dataset_id == path_dataset_id && !owner_verified ==> r == Err::<(), ServiceError>(ServiceError::Forbidden),
        r is Ok <==> (header_dataset_id == path_dataset_id && owner_verified),
{
    if header_dataset_id != path_dataset_id {
        return Err(bad_request("Dataset header does not match provided dataset ID"));
    }
    require_verified(owner_verified)
}

/// Refuses the search index of a dataset that has it disabled.
pub fn check_pagefind_enabled(enabled: bool, dataset_id: u128) -> (r: Result<(), ServiceError>)
    ensures
        r is Ok <==> enabled,
        r matches Err(e) ==> is_bad_request(
            e,
            "Dataset "@ + crate::ids::hyphenated(dataset_id)
                + " does not have pagefind enabled, please set PAGEFIND_ENABLED to true in dataset settings"@,
        ),
{
    broadcast use vstd::string::group_string_axioms;
    if !enabled {
        let mut m = "Dataset ".to_string();
        let id = crate::ids::uuid_to_string(dataset_id);
        m.append(id.as_str());
        m.append(" does not have pagefind enabled, please set PAGEFIND_ENABLED to true in dataset settings");
        return Err(ServiceError::BadRequest(m));
    }
    Ok(())
}

/// Checks a dataset listing: the user must belong to the organization, and
/// an offset and a limit must come together or not at all.
pub fn check_datasets_listing(user: &SlimUser, organization_id: u128, pagination: GetDatasetsPagination) -> (r: Result<(), ServiceError>)
    ensures
        !is_member(user.user_orgs@, organization_id) ==> r == Err::<(), ServiceError>(ServiceError::Forbidden),
        is_member(user.user_orgs@, organization_id) && (pagination.offset is Some != pagination.limit is Some) ==> fails_bad_request(
            r,
            "Pagination requires both offset and limit."@,
        ),
        r is Ok <==> (is_member(user.user_orgs@, organization_id) && (pagination.offset is Some == pagination.limit is Some)),
{
    if find_org_role(&user.user_orgs, organization_id).is_none() {
        return Err(ServiceError::Forbidden);
    }
    if pagination.offset.is_some() != pagination.limit.is_some() {
        return Err(bad_request("Pagination requires both offset and limit."));
    }
    Ok(())
}

/// Page and page size of a tag listing: page 1 and 20 tags by default; a
/// page below 1 is refused.
pub fn tags_page(req: GetAllTagsReqPayload) -> (r: Result<(i64, i64), ServiceError>)
    ensures
        ({
            let page = match req.page { Some(p) => p, None => 1 };
            let size = match req.page_size { Some(s) => s, None => 20 };
            &&& page < 1 ==> fails_bad_request(r, "Page must be greater than 0"@)
            &&& page >= 1 ==> r == Ok::<(i64, i64), ServiceError>((page, size))
        }),
{
    let page = match req.page {
        Some(p) => p,
        None => 1,
    };
    if page < 1 {
        return Err(bad_request("Page must be greater than 0"));
    }
    let size = match req.page_size {
        Some(s) => s,
        None => 20,
    };
    Ok((page, size))
}

/// Request to create a dataset; `C` is its server configuration.
pub struct CreateDatasetReqPayload<C> {
    pub dataset_name: String,
    pub tracking_id: Option<String>,
    pub server_configuration: Option<C>,
}

/// One dataset of a batch creation.
pub struct CreateBatchDataset<C> {
    pub dataset_name: String,
    pub tracking_id: Option<String>,
    pub server_configuration: Option<C>,
}

/// Request to create several datasets, updating those whose tracking id
/// exists when `upsert` is set.
pub struct CreateDatasetBatchReqPayload<C> {
    pub datasets: Vec<CreateBatchDataset<C>>,
    pub upsert: Option<bool>,
}

/// The datasets a batch creation made.
pub struct Datasets<D>(pub Vec<D>);

} // verus!
