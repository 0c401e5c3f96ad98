use vstd::prelude::*;
use crate::errors::{ServiceError, bad_request, fails_bad_request};
use crate::models::UnifiedId;
use crate::chunk::opt_view;

verus! {

/// Tracking id of a group to fetch.
#[derive(Debug, Clone)]
pub struct GetGroupByTrackingIDData {
    pub tracking_id: String,
}

/// Whether deleting a group by tracking id deletes its chunks too.
#[derive(Debug, Clone, Copy)]
pub struct DeleteGroupByTrackingIDData {
    pub delete_chunks: Option<bool>,
}

/// Whether deleting a group deletes its chunks too.
#[derive(Debug, Clone, Copy)]
pub struct DeleteGroupData {
    pub delete_chunks: Option<bool>,
}

/// A page of the chunks of a group named by tracking id.
#[derive(Debug, Clone)]
pub struct GetAllBookmarksByTrackingIdData {
    pub tracking_id: String,
    pub page: Option<u64>,
}

/// Refuses access to a group or collection that belongs to another dataset.
pub fn check_owned_by_dataset(owner_dataset_id: u128, dataset_id: u128) -> (r: Result<(), ServiceError>)
    ensures
        r is Ok <==> owner_dataset_id == dataset_id,
        r is Err ==> r == Err::<(), ServiceError>(ServiceError::Forbidden),
{
    if owner_dataset_id != dataset_id {
        return Err(ServiceError::Forbidden);
    }
    Ok(())
}

/// An id or, failing that, a tracking id; with neither the request is
/// refused with `message`.
pub fn id_or_tracking_id(id: Option<u128>, tracking_id: Option<String>, message: &str) -> (r: Result<UnifiedId, ServiceError>)
    ensures
        id matches Some(i) ==> r == Ok::<UnifiedId, ServiceError>(UnifiedId::TrieveUuid(i)),
        id is None && tracking_id is Some ==> (r matches Ok(UnifiedId::TrackingId(t)) && Some(t@) == opt_view(tracking_id)),
        id is None && tracking_id is None ==> fails_bad_request(r, message@),
{
    match id {
        Some(i) => Ok(UnifiedId::TrieveUuid(i)),
        None => match tracking_id {
            Some(t) => Ok(UnifiedId::TrackingId(t)),
            None => Err(bad_request(message)),
        },
    }
}

/// The group an update names.
pub fn group_update_target(group_id: Option<u128>, tracking_id: Option<String>) -> (r: Result<UnifiedId, ServiceError>)
    ensures
        group_id matches Some(i) ==> r == Ok::<UnifiedId, ServiceError>(UnifiedId::TrieveUuid(i)),
        group_id is None && tracking_id is Some ==> (r matches Ok(UnifiedId::TrackingId(t)) && Some(t@) == opt_view(tracking_id)),
        group_id is None && tracking_id is None ==> fails_bad_request(r, "No group id or tracking id provided"@),
{
    id_or_tracking_id(group_id, tracking_id, "No group id or tracking id provided")
}

/// The chunk added to a group.
pub fn group_chunk_target(chunk_id: Option<u128>, tracking_id: Option<String>) -> (r: Result<UnifiedId, ServiceError>)
    ensures
        chunk_id matches Some(i) ==> r == Ok::<UnifiedId, ServiceError>(UnifiedId::TrieveUuid(i)),
        chunk_id is None && tracking_id is Some ==> (r matches Ok(UnifiedId::TrackingId(t)) && Some(t@) == opt_view(tracking_id)),
        chunk_id is None && tracking_id is None ==> fails_bad_request(r, "No chunk id or tracking id provided"@),
{
    id_or_tracking_id(chunk_id, tracking_id, "No chunk id or tracking id provided")
}

/// The group searched within.
pub fn search_group_target(group_id: Option<u128>, group_tracking_id: Option<String>) -> (r: Result<UnifiedId, ServiceError>)
    ensures
        group_id matches Some(i) ==> r == Ok::<UnifiedId, ServiceError>(UnifiedId::TrieveUuid(i)),
        group_id is None && group_tracking_id is Some ==> (r matches Ok(UnifiedId::TrackingId(t)) && Some(t@) == opt_view(group_tracking_id)),
        group_id is None && group_tracking_id is None ==> fails_bad_request(
            r,
            "You must provide either group_id or group_tracking_id"@,
        ),
{
    id_or_tracking_id(group_id, group_tracking_id, "You must provide either group_id or group_tracking_id")
}

/// How a search is run.
#[derive(Debug, Clone, Copy, PartialEq, Eq)]
pub enum SearchMode {
    FullText,
    Hybrid,
    Semantic,
}

/// The search mode named by `search_type`: `fulltext` (refused where the
/// dataset has full-text search disabled), `hybrid`, and anything else
/// semantic.
pub fn group_search_mode(search_type: &str, fulltext_enabled: bool) -> (r: Result<SearchMode, ServiceError>)
    ensures
        search_type@ == "fulltext"@ && fulltext_enabled ==> r == Ok::<SearchMode, ServiceError>(SearchMode::FullText),
        search_type@ == "fulltext"@ && !fulltext_enabled ==> fails_bad_request(
            r,
            "Fulltext search is not enabled for this dataset"@,
        ),
        search_type@ == "hybrid"@ ==> r == Ok::<SearchMode, ServiceError>(SearchMode::Hybrid),
        search_type@ != "fulltext"@ && search_type@ != "hybrid"@ ==> r == Ok::<SearchMode, ServiceError>(SearchMode::Semantic),
{
    let t = crate::text::to_chars(search_type);
    let ft = crate::text::to_chars("fulltext");
    let hy = crate::text::to_chars("hybrid");
    proof {
        reveal_strlit("fulltext");
        reveal_strlit("hybrid");
        assert("fulltext"@ != "hybrid"@) by {
            assert("fulltext"@.len() != "hybrid"@.len());
        }
    }
    if crate::text::chars_equal(&t, &ft) {
        if !fulltext_enabled {
            return Err(bad_request("Fulltext search is not enabled for this dataset"));
        }
        Ok(SearchMode::FullText)
    } else if crate::text::chars_equal(&t, &hy) {
        Ok(SearchMode::Hybrid)
    } else {
        Ok(SearchMode::Semantic)
    }
}

/// Refuses a group recommendation without any positive group id or group
/// tracking id.
pub fn check_group_recommendation(has_positive_ids: bool, has_positive_tracking_ids: bool) -> (r: Result<(), ServiceError>)
    ensures
        r is Ok <==> (has_positive_ids || has_positive_tracking_ids),
        r is Err ==> fails_bad_request(
            r,
            "You must provide at least one positive group id or group tracking id"@,
        ),
{
    if !has_positive_ids && !has_positive_tracking_ids {
        return Err(bad_request("You must provide at least one positive group id or group tracking id"));
    }
    Ok(())
}

/// Page of a listing: the one asked for, else the first.
pub fn page_or_first(page: Option<u64>) -> (p: u64)
    ensures
        page matches Some(x) ==> p == x,
        page is None ==> p == 1,
{
    match page {
        Some(x) => x,
        None => 1,
    }
}

/// Number of recommendations: the one asked for, else 10.
pub fn recommendation_limit(limit: Option<u64>) -> (n: u64)
    ensures
        limit matches Some(x) ==> n == x,
        limit is None ==> n == 10,
{
    match limit {
        Some(x) => x,
        None => 10,
    }
}

/// Number of chunks fetched for each recommended group: the one asked for,
/// else 3.
pub fn recommended_group_size(group_size: Option<u32>) -> (n: u32)
    ensures
        group_size matches Some(x) ==> n == x,
        group_size is None ==> n == 3,
{
    match group_size {
        Some(x) => x,
        None => 3,
    }
}

/// Name, description and tags of an updated group: each the one given, else
/// the group's own; given tags are stored as present tags.
pub fn updated_group_fields(
    name: Option<String>,
    description: Option<String>,
    tag_set: Option<Vec<String>>,
    current_name: String,
    current_description: String,
    current_tag_set: Option<Vec<Option<String>>>,
) -> (r: (String, Option<String>, Option<Vec<Option<String>>>))
    ensures
        r.0@ == match name { Some(n) => n@, None => current_name@ },
        opt_view(r.1) == match description { Some(d) => Some(d@), None => Some(current_description@) },
        tag_set is None ==> r.2 == current_tag_set,
        tag_set matches Some(tags) ==> (r.2 matches Some(v) && v@.len() == tags@.len()
            && forall|k: int| 0 <= k < v@.len() ==> (#[trigger] v@[k] matches Some(t) && t@ == tags@[k]@)),
{
    let n = match name {
        Some(n) => n,
        None => current_name,
    };
    let d = match description {
        Some(d) => Some(d),
        None => Some(current_description),
    };
    let t = match tag_set {
        Some(tags) => {
            let mut v: Vec<Option<String>> = Vec::new();
            let mut i: usize = 0;
            while i < tags.len()
                invariant
                    i <= tags@.len(),
                    v@.len() == i,
                    forall|k: int| 0 <= k < i ==> (#[trigger] v@[k] matches Some(t) && t@ == tags@[k]@),
                decreases tags.len() - i,
            {
                v.push(Some(tags[i].clone()));
                i = i + 1;
            }
            Some(v)
        },
        None => current_tag_set,
    };
    (n, d, t)
}

/// A page of a dataset's groups.
pub struct GroupData<G> {
    pub groups: Vec<G>,
    pub total_pages: i32,
}

/// The results of a search within a group.
pub struct SearchWithinGroupResults<S, G> {
    pub bookmarks: Vec<S>,
    pub group: G,
    pub total_pages: i64,
}

} // verus!
