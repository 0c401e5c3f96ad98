use vstd::prelude::*;
use crate::errors::{ServiceError, bad_request, fails_bad_request, payload_too_large, is_payload_too_large};
use crate::models::{UnifiedId, RecommendationStrategy};
use crate::text::{to_chars, str_contains, has_substring, parse_usize, parsed_usize};
use vstd::string::StringSliceAdditionalSpecFns;

verus! {

/// One modality of a search query.
#[derive(Debug, Clone)]
pub enum SearchModalities {
    Image { image_url: String, llm_prompt: Option<String> },
    Audio { audio_base64: String },
    Text(String),
}

/// A search query: one modality, or several to be combined (their weights
/// are kept by the caller; nothing here reads them).
#[derive(Debug, Clone)]
pub enum QueryTypes {
    Single(SearchModalities),
    Multi(Vec<SearchModalities>),
}

/// Whether the query is a single audio query, whose transcript the search
/// answer echoes back in a header.
pub fn is_audio(query: QueryTypes) -> (b: bool)
    ensures
        b == (query matches QueryTypes::Single(m) && m is Audio),
{
    match query {
        QueryTypes::Single(SearchModalities::Audio { .. }) => true,
        _ => false,
    }
}

/// A chunk of a bulk upload that could not be queued.
#[derive(Debug, Clone)]
pub struct FailedChunk {
    pub index: usize,
    pub message: String,
}

/// Number of chunks that match a count query.
#[derive(Debug, Clone, Copy)]
pub struct CountChunkQueryResponseBody {
    pub count: u32,
}

/// Tracking ids of the chunks to fetch.
#[derive(Debug, Clone)]
pub struct GetTrackingChunksData {
    pub tracking_ids: Vec<String>,
}

/// HTML to be split into chunks by its headings.
#[derive(Debug, Clone)]
pub struct ChunkHtmlContentReqPayload {
    pub chunk_html: String,
    pub heading_remove_strings: Option<Vec<String>>,
    pub body_remove_strings: Option<Vec<String>>,
}

/// One chunk of split HTML: its headings and its body.
#[derive(Debug, Clone)]
pub struct ChunkedContent {
    pub headings: Vec<String>,
    pub body: String,
}

/// The chunks of split HTML.
#[derive(Debug, Clone)]
pub struct SplitHtmlResponse {
    pub chunks: Vec<ChunkedContent>,
}

/// OpenAPI schema to crawl alongside a site.
#[derive(Debug, Clone)]
pub struct CrawlOpenAPIOptions {
    pub openapi_schema_url: String,
    pub openapi_tag: String,
}

/// How often a crawl repeats.
#[derive(Debug, Clone, Copy, PartialEq, Eq)]
pub enum CrawlInterval {
    Daily,
    Weekly,
    Monthly,
}

/// The text view of an optional string.
pub open spec fn opt_view(o: Option<String>) -> Option<Seq<char>> {
    match o {
        Some(s) => Some(s@),
        None => None,
    }
}

/// Maximum number of chunks in one bulk upload: the configured value when it
/// reads as a number, else 120.
pub open spec fn batch_chunk_limit_spec(configured: Option<Seq<char>>) -> usize {
    match configured {
        Some(t) => match parsed_usize(t) {
            Some(n) => n,
            None => 120,
        },
        None => 120,
    }
}

/// Maximum number of chunks in one bulk upload, from the configured text
/// (absent when the setting is not set).
pub fn batch_chunk_limit(configured: Option<&str>) -> (n: usize)
    ensures
        n == batch_chunk_limit_spec(match configured { Some(t) => Some(t@), None => None }),
{
    match configured {
        Some(t) => match parse_usize(t) {
            Some(n) => n,
            None => 120,
        },
        None => 120,
    }
}

/// Refuses a bulk upload of more chunks than the limit allows.
pub fn check_chunk_batch_size(count: usize, limit: usize) -> (r: Result<(), ServiceError>)
    ensures
        r is Ok <==> count <= limit,
        r matches Err(e) ==> is_payload_too_large(
            e,
            "Too many chunks provided in bulk. The limit is 120 chunks per bulk upload"@,
        ),
{
    if count > limit {
        return Err(payload_too_large(
            "Too many chunks provided in bulk. The limit is 120 chunks per bulk upload",
        ));
    }
    Ok(())
}

/// Whether the plan's limits are checked: only when the unlimited setting
/// reads exactly `false` (an unset setting counts as `false`).
pub open spec fn limits_apply(unlimited_setting: Option<Seq<char>>) -> bool {
    match unlimited_setting {
        Some(t) => t == "false"@,
        None => true,
    }
}

/// Whether the plan's limits are checked for chunk and dataset creation.
pub fn plan_limits_apply(unlimited_setting: Option<&str>) -> (b: bool)
    ensures
        b == limits_apply(match unlimited_setting { Some(t) => Some(t@), None => None }),
{
    match unlimited_setting {
        Some(t) => {
            let a = to_chars(t);
            let f = to_chars("false");
            crate::text::chars_equal(&a, &f)
        },
        None => true,
    }
}

/// Whether an organization holding `chunk_count` chunks may add `new_chunks`
/// more under a plan that allows `plan_chunk_count` (read as a `usize`);
/// when it may not, the request is answered with "upgrade required".
pub fn chunk_upload_admitted(limits_checked: bool, chunk_count: usize, new_chunks: usize, plan_chunk_count: i32) -> (b: bool)
    requires
        chunk_count + new_chunks <= usize::MAX,
    ensures
        b == (!limits_checked || chunk_count + new_chunks <= plan_chunk_count as usize),
{
    if limits_checked {
        if chunk_count + new_chunks > plan_chunk_count as usize {
            return false;
        }
    }
    true
}

/// An empty tracking id counts as none.
pub open spec fn normalized_tracking_id(t: Option<Seq<char>>) -> Option<Seq<char>> {
    match t {
        Some(s) => if s.len() == 0 { None } else { Some(s) },
        None => None,
    }
}

/// The tracking id of a chunk, with an empty one dropped.
pub fn normalize_tracking_id(t: Option<String>) -> (r: Option<String>)
    ensures
        opt_view(r) == normalized_tracking_id(opt_view(t)),
{
    match t {
        Some(s) => if s.as_str().is_empty() { None } else { Some(s) },
        None => None,
    }
}

/// Normalizing twice is normalizing once.
pub proof fn law_normalize_tracking_id_idempotent(t: Option<Seq<char>>)
    ensures
        normalized_tracking_id(normalized_tracking_id(t)) == normalized_tracking_id(t),
{
}

/// The positions `0..n`.
pub open spec fn positions(n: nat) -> Seq<usize> {
    Seq::new(n, |i: int| i as usize)
}

/// The positions of chunks that ask to be upserted by tracking id.
pub open spec fn upsert_positions(flags: Seq<Option<bool>>) -> Seq<usize> {
    positions(flags.len()).filter(|i: usize| flags[i as int] == Some(true))
}

/// The positions of the other chunks.
pub open spec fn plain_positions(flags: Seq<Option<bool>>) -> Seq<usize> {
    positions(flags.len()).filter(|i: usize| flags[i as int] != Some(true))
}

/// Splits a batch of chunks into those to upsert by tracking id and the rest,
/// by position, each part in the batch's order (`Iterator::partition` on
/// `upsert_by_tracking_id.unwrap_or(false)`).
pub fn partition_by_upsert(flags: &Vec<Option<bool>>) -> (r: (Vec<usize>, Vec<usize>))
    ensures
        r.0@ == upsert_positions(flags@),
        r.1@ == plain_positions(flags@),
{
    let mut up: Vec<usize> = Vec::new();
    let mut plain: Vec<usize> = Vec::new();
    let mut i: usize = 0;
    while i < flags.len()
        invariant
            i <= flags@.len(),
            up@ == positions(i as nat).filter(|k: usize| flags@[k as int] == Some(true)),
            plain@ == positions(i as nat).filter(|k: usize| flags@[k as int] != Some(true)),
        decreases flags.len() - i,
    {
        proof {
            reveal_with_fuel(Seq::<_>::filter, 1);
            assert(positions((i + 1) as nat).drop_last() =~= positions(i as nat));
            assert(positions((i + 1) as nat).last() == i);
        }
        let f = match flags[i] {
            Some(b) => b,
            None => false,
        };
        if f {
            up.push(i);
        } else {
            plain.push(i);
        }
        i = i + 1;
    }
    assert(positions(flags@.len()) =~= positions(i as nat));
    r_pair(up, plain)
}

fn r_pair(a: Vec<usize>, b: Vec<usize>) -> (r: (Vec<usize>, Vec<usize>))
    ensures
        r.0 == a,
        r.1 == b,
{
    (a, b)
}

proof fn lemma_filter_complement_len(n: nat, p: spec_fn(usize) -> bool, q: spec_fn(usize) -> bool)
    requires
        forall|x: usize| #[trigger] q(x) == !p(x),
    ensures
        positions(n).filter(p).len() + positions(n).filter(q).len() == n,
    decreases n,
{
    reveal_with_fuel(Seq::<_>::filter, 1);
    if n > 0 {
        let m = (n - 1) as nat;
        lemma_filter_complement_len(m, p, q);
        assert(positions(n).drop_last() =~= positions(m));
    } else {
        assert(positions(n).filter(p).len() == 0);
        assert(positions(n).filter(q).len() == 0);
    }
}

/// Every chunk of a batch is handled exactly once: each position is either
/// among those upserted by tracking id or among the others, never both, and
/// together they count the whole batch.
pub proof fn law_upsert_partition(flags: Seq<Option<bool>>)
    requires
        flags.len() <= usize::MAX,
    ensures
        forall|k: int| 0 <= k < flags.len() ==> (#[trigger] upsert_positions(flags).contains(k as usize)
            <==> !plain_positions(flags).contains(k as usize)),
        upsert_positions(flags).len() + plain_positions(flags).len() == flags.len(),
{
    let p = |i: usize| flags[i as int] == Some(true);
    let q = |i: usize| flags[i as int] != Some(true);
    lemma_filter_positions(flags.len(), p);
    lemma_filter_positions(flags.len(), q);
    lemma_filter_complement_len(flags.len(), p, q);
    assert forall|k: int| 0 <= k < flags.len() implies (#[trigger] upsert_positions(flags).contains(k as usize)
        <==> !plain_positions(flags).contains(k as usize)) by {
        let u = positions(flags.len()).filter(p);
        let v = positions(flags.len()).filter(q);
        if p(k as usize) {
            assert(u.contains(k as usize));
            if v.contains(k as usize) {
                let i = choose|i: int| 0 <= i < v.len() && v[i] == k as usize;
                assert(q(v[i]));
            }
        } else {
            assert(q(k as usize));
            assert(v.contains(k as usize));
            if u.contains(k as usize) {
                let i = choose|i: int| 0 <= i < u.len() && u[i] == k as usize;
                assert(p(u[i]));
            }
        }
    }
}

/// Whether the chunk at position `i` stays when runs of consecutive equal
/// tracking ids are reduced to their first chunk.
pub open spec fn kept_after_dedup(keys: Seq<Option<Seq<char>>>, i: int) -> bool {
    i == 0 || keys[i] != keys[i - 1]
}

/// `kept_after_dedup` as a predicate on positions.
pub open spec fn dedup_pred(keys: Seq<Option<Seq<char>>>) -> spec_fn(usize) -> bool {
    |i: usize| kept_after_dedup(keys, i as int)
}

/// The positions that stay after consecutive duplicates are dropped.
pub open spec fn dedup_positions(keys: Seq<Option<Seq<char>>>) -> Seq<usize> {
    positions(keys.len()).filter(dedup_pred(keys))
}

/// Whether two optional texts are equal.
pub fn opt_str_eq(a: &Option<String>, b: &Option<String>) -> (r: bool)
    ensures
        r == (opt_view(*a) == opt_view(*b)),
{
    match (a, b) {
        (Some(x), Some(y)) => {
            let xs = to_chars(x.as_str());
            let ys = to_chars(y.as_str());
            crate::text::chars_equal(&xs, &ys)
        },
        (None, None) => true,
        _ => false,
    }
}

/// Positions of the chunks that remain when each run of consecutive chunks
/// with equal tracking ids is reduced to its first chunk
/// (`Itertools::dedup_by` on the tracking id).
pub fn dedup_by_tracking_id(keys: &Vec<Option<String>>) -> (r: Vec<usize>)
    ensures
        r@ == dedup_positions(keys@.map_values(|k: Option<String>| opt_view(k))),
{
    let ghost ks = keys@.map_values(|k: Option<String>| opt_view(k));
    let mut out: Vec<usize> = Vec::new();
    let mut i: usize = 0;
    while i < keys.len()
        invariant
            i <= keys@.len(),
            ks == keys@.map_values(|k: Option<String>| opt_view(k)),
            out@ == positions(i as nat).filter(dedup_pred(ks)),
        decreases keys.len() - i,
    {
        proof {
            reveal_with_fuel(Seq::<_>::filter, 1);
            assert(positions((i + 1) as nat).drop_last() =~= positions(i as nat));
            assert(positions((i + 1) as nat).last() == i);
        }
        let keep = if i == 0 {
            true
        } else {
            !opt_str_eq(&keys[i], &keys[i - 1])
        };
        if keep {
            out.push(i);
        }
        i = i + 1;
    }
    assert(positions(keys@.len()) =~= positions(i as nat));
    out
}

/// After dropping consecutive duplicates, no two neighbouring chunks in the
/// result carry equal tracking ids.
pub proof fn law_dedup_no_consecutive_duplicates(keys: Seq<Option<Seq<char>>>, j: int)
    requires
        keys.len() <= usize::MAX,
        0 < j < dedup_positions(keys).len(),
    ensures
        keys[dedup_positions(keys)[j] as int] != keys[dedup_positions(keys)[j - 1] as int],
{
    lemma_dedup_positions(keys);
    let d = dedup_positions(keys);
    let lo = d[j - 1] as int;
    let hi = d[j] as int;
    assert forall|k: int| lo < k < hi implies !kept_after_dedup(keys, k) by {
        if kept_after_dedup(keys, k) {
            assert(dedup_pred(keys)(k as usize));
            let i = choose|i: int| 0 <= i < d.len() && d[i] == k as usize;
            if i < j {
                assert(d[i] <= d[j - 1]) by {
                    if i < j - 1 {
                        assert(d[i] < d[j - 1]);
                    }
                }
            } else {
                assert(d[j] <= d[i]) by {
                    if j < i {
                        assert(d[j] < d[i]);
                    }
                }
            }
        }
    }
    lemma_run_equal(keys, lo, hi - 1);
}

proof fn lemma_run_equal(keys: Seq<Option<Seq<char>>>, lo: int, k: int)
    requires
        0 <= lo <= k < keys.len(),
        forall|m: int| lo < m <= k ==> !kept_after_dedup(keys, m),
    ensures
        keys[k] == keys[lo],
    decreases k - lo,
{
    if k > lo {
        assert(!kept_after_dedup(keys, k));
        lemma_run_equal(keys, lo, k - 1);
    }
}

/// The kept positions are increasing, in range, and each kept.
proof fn lemma_dedup_positions(keys: Seq<Option<Seq<char>>>)
    requires
        keys.len() <= usize::MAX,
    ensures
        forall|j: int| 0 <= j < dedup_positions(keys).len() ==> 0 <= #[trigger] dedup_positions(keys)[j] < keys.len()
            && kept_after_dedup(keys, dedup_positions(keys)[j] as int),
        forall|a: int, b: int| 0 <= a < b < dedup_positions(keys).len() ==> #[trigger] dedup_positions(keys)[a] < #[trigger] dedup_positions(keys)[b],
        forall|k: int| 0 <= k < keys.len() && #[trigger] kept_after_dedup(keys, k) ==> exists|i: int| 0 <= i < dedup_positions(keys).len() && dedup_positions(keys)[i] == k as usize,
{
    let p = dedup_pred(keys);
    lemma_filter_positions(keys.len(), p);
    assert forall|k: int| 0 <= k < keys.len() && #[trigger] kept_after_dedup(keys, k) implies exists|i: int|
        0 <= i < dedup_positions(keys).len() && dedup_positions(keys)[i] == k as usize by {
        assert(p(k as usize));
        assert(exists|i: int| 0 <= i < positions(keys.len()).filter(p).len() && positions(keys.len()).filter(p)[i] == k as usize);
        assert(dedup_positions(keys) == positions(keys.len()).filter(p));
    }
}

/// Filtered positions are increasing, in range, and satisfy the filter.
pub proof fn lemma_filter_positions(n: nat, p: spec_fn(usize) -> bool)
    requires
        n <= usize::MAX,
    ensures
        forall|j: int| 0 <= j < positions(n).filter(p).len() ==> (#[trigger] positions(n).filter(p)[j]) < n
            && p(positions(n).filter(p)[j]),
        forall|a: int, b: int| 0 <= a < b < positions(n).filter(p).len() ==> #[trigger] positions(n).filter(p)[a] < #[trigger] positions(n).filter(p)[b],
        forall|k: int| 0 <= k < n && #[trigger] p(k as usize) ==> exists|i: int| 0 <= i < positions(n).filter(p).len() && positions(n).filter(p)[i] == k as usize,
    decreases n,
{
    reveal_with_fuel(Seq::<_>::filter, 1);
    if n > 0 {
        let m = (n - 1) as nat;
        lemma_filter_positions(m, p);
        assert(positions(n).drop_last() =~= positions(m));
        assert(positions(n).last() == m as usize);
        let f = positions(m).filter(p);
        let g = positions(n).filter(p);
        if p(m as usize) {
            assert(g == f.push(m as usize));
            assert forall|j: int| 0 <= j < g.len() implies (#[trigger] g[j]) < n && p(g[j]) by {
                if j < f.len() {
                    assert(g[j] == f[j]);
                }
            }
            assert forall|a: int, b: int| 0 <= a < b < g.len() implies #[trigger] g[a] < #[trigger] g[b] by {
                assert(g[a] == f[a]);
                if b < f.len() {
                    assert(g[b] == f[b]);
                }
            }
            assert forall|k: int| 0 <= k < n && #[trigger] p(k as usize) implies exists|i: int| 0 <= i < g.len() && g[i] == k as usize by {
                if k < m {
                    let i = choose|i: int| 0 <= i < f.len() && f[i] == k as usize;
                    assert(g[i] == f[i]);
                } else {
                    assert(g[f.len() as int] == m as usize);
                }
            }
        } else {
            assert(g == f);
            assert forall|k: int| 0 <= k < n && #[trigger] p(k as usize) implies exists|i: int| 0 <= i < g.len() && g[i] == k as usize by {
                if k < m {
                    let i = choose|i: int| 0 <= i < f.len() && f[i] == k as usize;
                    assert(g[i] == f[i]);
                }
            }
        }
    } else {
        assert(positions(n).filter(p).len() == 0);
    }
}

/// Name of the ingestion queue for a dataset: the OpenAI queue when its
/// embedding server's URL mentions `openai`, else the general one.
pub fn ingestion_queue_name(embedding_base_url: &str) -> (q: &'static str)
    ensures
        has_substring(embedding_base_url@, "openai"@) ==> q@ == "openai_ingestion"@,
        !has_substring(embedding_base_url@, "openai"@) ==> q@ == "ingestion"@,
{
    if str_contains(embedding_base_url, "openai") {
        "openai_ingestion"
    } else {
        "ingestion"
    }
}

} // verus!

verus! {

/// Tracking id of an updated chunk: an empty requested one clears it, a
/// non-empty one replaces it, and none keeps the chunk's current one.
pub open spec fn merged_tracking_id(requested: Option<Seq<char>>, current: Option<Seq<char>>) -> Option<Seq<char>> {
    match requested {
        Some(t) => if t.len() == 0 { None } else { Some(t) },
        None => current,
    }
}

/// Tracking id of a chunk after an update.
pub fn merge_tracking_id(requested: Option<String>, current: Option<String>) -> (r: Option<String>)
    ensures
        opt_view(r) == merged_tracking_id(opt_view(requested), opt_view(current)),
{
    match requested {
        Some(t) => if t.as_str().is_empty() { None } else { Some(t) },
        None => current,
    }
}

/// The chunk an update names: by id when one is given, else by tracking id;
/// an update that names neither is refused.
pub fn chunk_update_target(chunk_id: Option<u128>, tracking_id: Option<String>) -> (r: Result<UnifiedId, ServiceError>)
    ensures
        chunk_id matches Some(id) ==> r == Ok::<UnifiedId, ServiceError>(UnifiedId::TrieveUuid(id)),
        chunk_id is None && tracking_id is Some ==> (r matches Ok(UnifiedId::TrackingId(t)) && Some(t@) == opt_view(tracking_id)),
        chunk_id is None && tracking_id is None ==> fails_bad_request(
            r,
            "Either chunk_id or tracking_id must be provided to update a chunk"@,
        ),
{
    match chunk_id {
        Some(id) => Ok(UnifiedId::TrieveUuid(id)),
        None => match tracking_id {
            Some(t) => Ok(UnifiedId::TrackingId(t)),
            None => Err(bad_request("Either chunk_id or tracking_id must be provided to update a chunk")),
        },
    }
}

/// Refuses an update by tracking id whose tracking id is empty.
pub fn check_update_tracking_id(tracking_id: &str) -> (r: Result<(), ServiceError>)
    ensures
        r is Ok <==> tracking_id@.len() > 0,
        r is Err ==> fails_bad_request(r, "Tracking id must be provided to update by tracking_id"@),
{
    if tracking_id.is_empty() {
        return Err(bad_request("Tracking id must be provided to update by tracking_id"));
    }
    Ok(())
}

/// The groups an updated chunk is put into: the group ids when given, else
/// the group tracking ids, else none; in the order given.
pub fn group_targets(group_ids: Option<Vec<u128>>, group_tracking_ids: Option<Vec<String>>) -> (r: Option<Vec<UnifiedId>>)
    ensures
        group_ids matches Some(ids) ==> (r matches Some(v) && v@ == ids@.map_values(|id: u128| UnifiedId::TrieveUuid(id))),
        group_ids is None && group_tracking_ids is None ==> r is None,
        group_ids is None ==> (group_tracking_ids matches Some(ts) ==> (r matches Some(v) && v@.len() == ts@.len()
            && forall|k: int| 0 <= k < v@.len() ==> (#[trigger] v@[k] matches UnifiedId::TrackingId(t) && t@ == ts@[k]@))),
{
    match group_ids {
        Some(ids) => {
            let mut v: Vec<UnifiedId> = Vec::new();
            let mut i: usize = 0;
            while i < ids.len()
                invariant
                    i <= ids@.len(),
                    v@ == ids@.take(i as int).map_values(|id: u128| UnifiedId::TrieveUuid(id)),
                decreases ids.len() - i,
            {
                v.push(UnifiedId::TrieveUuid(ids[i]));
                assert(ids@.take(i + 1).map_values(|id: u128| UnifiedId::TrieveUuid(id)) =~= ids@.take(i as int).map_values(|id: u128| UnifiedId::TrieveUuid(id)).push(UnifiedId::TrieveUuid(ids@[i as int])));
                i = i + 1;
            }
            assert(ids@.take(ids@.len() as int) =~= ids@);
            Some(v)
        },
        None => match group_tracking_ids {
            Some(ts) => {
                let mut v: Vec<UnifiedId> = Vec::new();
                let mut i: usize = 0;
                while i < ts.len()
                    invariant
                        i <= ts@.len(),
                        v@.len() == i,
                        forall|k: int| 0 <= k < v@.len() ==> (#[trigger] v@[k] matches UnifiedId::TrackingId(t) && t@ == ts@[k]@),
                    decreases ts.len() - i,
                {
                    v.push(UnifiedId::TrackingId(ts[i].clone()));
                    i = i + 1;
                }
                Some(v)
            },
            None => None,
        },
    }
}

/// The strategy a recommendation runs with when the request names none.
pub open spec fn effective_strategy(strategy: Option<RecommendationStrategy>) -> RecommendationStrategy {
    match strategy {
        Some(s) => s,
        None => RecommendationStrategy::AverageVector,
    }
}

/// Refuses, before any lookup, a recommendation by average vector (the
/// strategy taken when none is named) that gives neither positive chunk ids
/// nor positive tracking ids.
pub fn check_recommendation_request(
    has_positive_ids: bool,
    has_positive_tracking_ids: bool,
    strategy: Option<RecommendationStrategy>,
) -> (r: Result<(), ServiceError>)
    ensures
        r is Err <==> (!has_positive_ids && !has_positive_tracking_ids
            && effective_strategy(strategy) == RecommendationStrategy::AverageVector),
        r is Err ==> fails_bad_request(
            r,
            "Either positive_chunk_ids or positive_tracking_ids must be provided for average_vector strategy"@,
        ),
{
    let average = match strategy {
        Some(RecommendationStrategy::BestScore) => false,
        _ => true,
    };
    if !has_positive_ids && !has_positive_tracking_ids && average {
        return Err(bad_request(
            "Either positive_chunk_ids or positive_tracking_ids must be provided for average_vector strategy",
        ));
    }
    Ok(())
}

/// Refuses a recommendation once the ids were looked up: with no positive
/// point found under the average-vector strategy (the strategy taken when
/// none is named), or with no point found at all.
pub fn check_recommendation_points(
    positive_found: usize,
    negative_found: usize,
    strategy: Option<RecommendationStrategy>,
) -> (r: Result<(), ServiceError>)
    ensures
        r is Ok <==> (positive_found > 0 || (negative_found > 0
            && effective_strategy(strategy) != RecommendationStrategy::AverageVector)),
        positive_found == 0 && effective_strategy(strategy) == RecommendationStrategy::AverageVector ==> fails_bad_request(
            r,
            "Positive chunk ids could not be found, must return at least 1 positive id for average vector strategy"@,
        ),
        positive_found == 0 && negative_found == 0 && effective_strategy(strategy) != RecommendationStrategy::AverageVector
            ==> fails_bad_request(
            r,
            "No positive or negative chunk ids could be found. At least one positive or negative id must be provided."@,
        ),
{
    let average = match strategy {
        Some(RecommendationStrategy::BestScore) => false,
        _ => true,
    };
    if positive_found == 0 && average {
        return Err(bad_request(
            "Positive chunk ids could not be found, must return at least 1 positive id for average vector strategy",
        ));
    } else if positive_found == 0 && negative_found == 0 {
        return Err(bad_request(
            "No positive or negative chunk ids could be found. At least one positive or negative id must be provided.",
        ));
    }
    Ok(())
}

/// Answer to a request that queued one chunk.
pub struct SingleQueuedChunkResponse<M> {
    /// The chunk that was queued.
    pub chunk_metadata: M,
    /// Position of the request in the ingestion queue.
    pub pos_in_queue: i32,
}

/// Answer to a request that queued a batch of chunks.
pub struct BatchQueuedChunkResponse<M> {
    /// The chunks that were queued, in the order of the request.
    pub chunk_metadata: Vec<M>,
    /// Position of the request in the ingestion queue.
    pub pos_in_queue: i32,
}

/// Answer to a chunk creation, shaped as the request was: one or a batch.
pub enum ReturnQueuedChunk<M> {
    Single(SingleQueuedChunkResponse<M>),
    Batch(BatchQueuedChunkResponse<M>),
}

/// Builds the answer to a chunk creation from the chunks that were queued: a
/// single request answers its first chunk, and is refused when nothing was
/// queued; a batch answers all of them.
pub fn queued_chunk_response<M>(single: bool, chunk_metadatas: Vec<M>, pos_in_queue: i32) -> (r: Result<ReturnQueuedChunk<M>, ServiceError>)
    ensures
        single && chunk_metadatas@.len() == 0 ==> fails_bad_request(
            r,
            "Failed to queue a single chunk due to deriving 0 ingestion_messages from the request data"@,
        ),
        single && chunk_metadatas@.len() > 0 ==> (r matches Ok(ReturnQueuedChunk::Single(resp))
            && resp.chunk_metadata == chunk_metadatas@[0] && resp.pos_in_queue == pos_in_queue),
        !single ==> (r matches Ok(ReturnQueuedChunk::Batch(resp))
            && resp.chunk_metadata@ == chunk_metadatas@ && resp.pos_in_queue == pos_in_queue),
{
    if single {
        if chunk_metadatas.len() == 0 {
            return Err(bad_request(
                "Failed to queue a single chunk due to deriving 0 ingestion_messages from the request data",
            ));
        }
        let mut v = chunk_metadatas;
        let first = v.remove(0);
        Ok(ReturnQueuedChunk::Single(SingleQueuedChunkResponse { chunk_metadata: first, pos_in_queue }))
    } else {
        Ok(ReturnQueuedChunk::Batch(BatchQueuedChunkResponse { chunk_metadata: chunk_metadatas, pos_in_queue }))
    }
}

/// Request to start crawling a site into a dataset.
pub struct CreateCrawlReqPayload<O> {
    pub crawl_options: O,
}

/// Request for a page of a dataset's crawl requests.
pub struct GetCrawlRequestsReqPayload {
    pub page: Option<i64>,
    pub limit: Option<i64>,
}

/// Refuses a count whose limit exceeds the dataset's maximum.
pub fn check_count_limit(limit: u64, max_limit: u64) -> (r: Result<(), ServiceError>)
    ensures
        r is Ok <==> limit <= max_limit,
        r is Err ==> fails_bad_request(
            r,
            "Limit of "@ + crate::text::decimal(limit as nat) + " is greater than the maximum limit of "@
                + crate::text::decimal(max_limit as nat) + ". Please reduce the limit."@,
        ),
{
    if limit > max_limit {
        let mut m = to_chars("Limit of ");
        crate::text::extend_chars(&mut m, &crate::text::decimal_chars(limit));
        crate::text::extend_chars(&mut m, &to_chars(" is greater than the maximum limit of "));
        crate::text::extend_chars(&mut m, &crate::text::decimal_chars(max_limit));
        crate::text::extend_chars(&mut m, &to_chars(". Please reduce the limit."));
        return Err(crate::errors::bad_request_chars(&m));
    }
    Ok(())
}

/// Refuses HTML of more than 256 KiB (262144 bytes) for splitting.
pub fn check_html_size(html: &str) -> (r: Result<(), ServiceError>)
    ensures
        r is Ok <==> html.spec_bytes().len() <= 262144,
        r matches Err(e) ==> is_payload_too_large(e, "The HTML content is too large"@),
{
    if html.as_bytes().len() > 262144 {
        return Err(payload_too_large("The HTML content is too large"));
    }
    Ok(())
}

/// The answer to a split of HTML: each (heading, body) piece as a chunk
/// with that one heading, in order.
pub fn split_html_response(pieces: Vec<(String, String)>) -> (r: SplitHtmlResponse)
    ensures
        r.chunks@.len() == pieces@.len(),
        forall|k: int| 0 <= k < pieces@.len() ==> {
            &&& (#[trigger] r.chunks@[k]).headings@.len() == 1
            &&& r.chunks@[k].headings@[0]@ == pieces@[k].0@
            &&& r.chunks@[k].body@ == pieces@[k].1@
        },
{
    let mut chunks: Vec<ChunkedContent> = Vec::new();
    let mut i: usize = 0;
    while i < pieces.len()
        invariant
            i <= pieces@.len(),
            chunks@.len() == i,
            forall|k: int| 0 <= k < i ==> {
                &&& (#[trigger] chunks@[k]).headings@.len() == 1
                &&& chunks@[k].headings@[0]@ == pieces@[k].0@
                &&& chunks@[k].body@ == pieces@[k].1@
            },
        decreases pieces.len() - i,
    {
        let heading = pieces[i].0.clone();
        let body = pieces[i].1.clone();
        chunks.push(ChunkedContent { headings: vec![heading], body });
        i = i + 1;
    }
    SplitHtmlResponse { chunks }
}

/// Answers a fetch of chunks by id: refused as not found unless every
/// chunk's point exists in the vector store.
pub fn check_points_exist(all_exist: bool) -> (r: Result<(), ServiceError>)
    ensures
        r is Ok <==> all_exist,
        r is Err ==> (r matches Err(ServiceError::NotFound(m)) && m@ == "Any one of the specified chunks not found"@),
{
    broadcast use vstd::string::group_string_axioms;
    if !all_exist {
        return Err(ServiceError::NotFound("Any one of the specified chunks not found".to_string()));
    }
    Ok(())
}

/// What an update of a chunk gives; what is not given is kept. `M` is the
/// metadata, `T` the time stamp, `L` the location and `W` the weight and
/// numeric value, carried as the caller holds them.
pub struct ChunkUpdate<M, T, L, W> {
    pub link: Option<String>,
    pub tracking_id: Option<String>,
    pub tag_set: Option<Vec<String>>,
    pub chunk_html: Option<String>,
    pub metadata: Option<M>,
    pub time_stamp: Option<T>,
    pub location: Option<L>,
    pub image_urls: Option<Vec<String>>,
    pub weight: Option<W>,
    pub num_value: Option<W>,
}

/// The fields of a stored chunk that an update may change.
pub struct ChunkFields<M, T, L, W> {
    pub link: Option<String>,
    pub tracking_id: Option<String>,
    pub tag_set: Option<Vec<Option<String>>>,
    pub chunk_html: Option<String>,
    pub metadata: Option<M>,
    pub time_stamp: Option<T>,
    pub location: Option<L>,
    pub image_urls: Option<Vec<Option<String>>>,
    pub weight: W,
    pub num_value: Option<W>,
}

/// The fields of an updated chunk.
pub struct UpdatedChunkFields<M, T, L, W> {
    pub link: Option<String>,
    pub tracking_id: Option<String>,
    pub tag_set: Option<Vec<Option<String>>>,
    pub chunk_html: Option<String>,
    pub metadata: Option<M>,
    pub time_stamp: Option<T>,
    pub location: Option<L>,
    pub image_urls: Option<Vec<String>>,
    pub weight: W,
    pub num_value: Option<W>,
}

/// The texts of a list of optional strings, an absent entry as `None`.
pub open spec fn opt_strings_view(v: Seq<Option<String>>) -> Seq<Option<Seq<char>>> {
    v.map_values(|o: Option<String>| opt_view(o))
}

/// Whether every entry of a stored list of image URLs is present.
pub open spec fn all_present(v: Option<Vec<Option<String>>>) -> bool {
    v matches Some(urls) ==> forall|k: int| 0 <= k < urls@.len() ==> (#[trigger] urls@[k]) is Some
}

/// Merges an update into a stored chunk: each field given replaces the
/// stored one and each field not given is kept, weight included; given tags
/// are stored as present tags; an empty tracking id clears it. A stored list
/// of image URLs is kept only where all its entries are present (the stored
/// list is unwrapped).
pub fn merge_chunk_update<M, T, L, W>(
    update: ChunkUpdate<M, T, L, W>,
    current: ChunkFields<M, T, L, W>,
) -> (r: UpdatedChunkFields<M, T, L, W>)
    requires
        update.image_urls is None ==> all_present(current.image_urls),
    ensures
        opt_view(r.link) == match update.link { Some(l) => Some(l@), None => opt_view(current.link) },
        opt_view(r.tracking_id) == merged_tracking_id(opt_view(update.tracking_id), opt_view(current.tracking_id)),
        match update.tag_set {
            Some(tags) => r.tag_set matches Some(v)
                && opt_strings_view(v@) == tags@.map_values(|t: String| Some(t@)),
            None => r.tag_set == current.tag_set,
        },
        opt_view(r.chunk_html) == match update.chunk_html { Some(h) => Some(h@), None => opt_view(current.chunk_html) },
        r.metadata == match update.metadata { Some(m) => Some(m), None => current.metadata },
        r.time_stamp == match update.time_stamp { Some(t) => Some(t), None => current.time_stamp },
        r.location == match update.location { Some(l) => Some(l), None => current.location },
        match update.image_urls {
            Some(urls) => r.image_urls matches Some(v) && string_views_of(v@) == string_views_of(urls@),
            None => match current.image_urls {
                Some(urls) => r.image_urls matches Some(v)
                    && opt_strings_view(urls@) == string_views_of(v@).map_values(|u: Seq<char>| Some(u)),
                None => r.image_urls is None,
            },
        },
        r.weight == match update.weight { Some(w) => w, None => current.weight },
        r.num_value == match update.num_value { Some(n) => Some(n), None => current.num_value },
{
    let link = match update.link {
        Some(l) => Some(l),
        None => current.link,
    };
    let tracking_id = merge_tracking_id(update.tracking_id, current.tracking_id);
    let tag_set = match update.tag_set {
        Some(tags) => {
            let mut v: Vec<Option<String>> = Vec::new();
            let mut i: usize = 0;
            while i < tags.len()
                invariant
                    i <= tags@.len(),
                    opt_strings_view(v@) == tags@.take(i as int).map_values(|t: String| Some(t@)),
                decreases tags.len() - i,
            {
                let ghost before = v@;
                v.push(Some(tags[i].clone()));
                assert(tags@.take(i + 1) =~= tags@.take(i as int).push(tags@[i as int]));
                assert(opt_strings_view(v@) =~= opt_strings_view(before).push(Some(tags@[i as int]@)));
                i = i + 1;
            }
            assert(tags@.take(tags@.len() as int) =~= tags@);
            Some(v)
        },
        None => current.tag_set,
    };
    let chunk_html = match update.chunk_html {
        Some(h) => Some(h),
        None => current.chunk_html,
    };
    let metadata = match update.metadata {
        Some(m) => Some(m),
        None => current.metadata,
    };
    let time_stamp = match update.time_stamp {
        Some(t) => Some(t),
        None => current.time_stamp,
    };
    let location = match update.location {
        Some(l) => Some(l),
        None => current.location,
    };
    let image_urls = match update.image_urls {
        Some(urls) => Some(urls),
        None => match current.image_urls {
            Some(urls) => {
                let mut v: Vec<String> = Vec::new();
                let mut i: usize = 0;
                while i < urls.len()
                    invariant
                        i <= urls@.len(),
                        forall|k: int| 0 <= k < urls@.len() ==> (#[trigger] urls@[k]) is Some,
                        opt_strings_view(urls@.take(i as int)) == string_views_of(v@).map_values(|u: Seq<char>| Some(u)),
                    decreases urls.len() - i,
                {
                    let ghost before = v@;
                    let u = match &urls[i] {
                        Some(u) => u.clone(),
                        None => String::new(),
                    };
                    assert(opt_view(urls@[i as int]) == Some(u@));
                    v.push(u);
                    assert(urls@.take(i + 1) =~= urls@.take(i as int).push(urls@[i as int]));
                    assert(string_views_of(v@) =~= string_views_of(before).push(u@));
                    assert(opt_strings_view(urls@.take(i + 1)) =~= opt_strings_view(urls@.take(i as int)).push(Some(u@)));
                    assert(string_views_of(v@).map_values(|u: Seq<char>| Some(u)) =~= string_views_of(before).map_values(|u: Seq<char>| Some(u)).push(Some(u@)));
                    assert(opt_strings_view(urls@.take(i + 1)) =~= string_views_of(v@).map_values(|u: Seq<char>| Some(u)));
                    i = i + 1;
                }
                assert(urls@.take(urls@.len() as int) =~= urls@);
                Some(v)
            },
            None => None,
        },
    };
    let weight = match update.weight {
        Some(w) => w,
        None => current.weight,
    };
    let num_value = match update.num_value {
        Some(n) => Some(n),
        None => current.num_value,
    };
    UpdatedChunkFields { link, tracking_id, tag_set, chunk_html, metadata, time_stamp, location, image_urls, weight, num_value }
}

/// The texts of a list of strings.
pub open spec fn string_views_of(v: Seq<String>) -> Seq<Seq<char>> {
    v.map_values(|s: String| s@)
}

/// Why a chunk creation is refused.
pub enum ChunkRefusal {
    /// The plan's chunk count would be exceeded: answered "upgrade required".
    UpgradeRequired,
    /// The request is refused with this error.
    Error(ServiceError),
}

/// Admits a chunk creation, checking in turn the plan's chunk count (only
/// when the plan's limits apply) and the bulk limit: more chunks than the
/// plan allows asks for an upgrade before a batch over the limit is refused
/// as too large.
pub fn admit_chunk_creation(
    limits_checked: bool,
    chunk_count: usize,
    new_chunks: usize,
    plan_chunk_count: i32,
    batch_limit: usize,
) -> (r: Result<(), ChunkRefusal>)
    requires
        chunk_count + new_chunks <= usize::MAX,
    ensures
        limits_checked && chunk_count + new_chunks > plan_chunk_count as usize ==> r matches Err(ChunkRefusal::UpgradeRequired),
        !(limits_checked && chunk_count + new_chunks > plan_chunk_count as usize) && new_chunks > batch_limit
            ==> (r matches Err(ChunkRefusal::Error(e)) && is_payload_too_large(
                e,
                "Too many chunks provided in bulk. The limit is 120 chunks per bulk upload"@,
            )),
        r is Ok <==> (!(limits_checked && chunk_count + new_chunks > plan_chunk_count as usize) && new_chunks <= batch_limit),
{
    if !chunk_upload_admitted(limits_checked, chunk_count, new_chunks, plan_chunk_count) {
        return Err(ChunkRefusal::UpgradeRequired);
    }
    match check_chunk_batch_size(new_chunks, batch_limit) {
        Ok(()) => Ok(()),
        Err(e) => Err(ChunkRefusal::Error(e)),
    }
}

/// A filter on chunks: any of `should`, all of `must`, none of `must_not`.
pub struct ChunkFilter<C> {
    pub should: Option<Vec<C>>,
    pub must: Option<Vec<C>>,
    pub must_not: Option<Vec<C>>,
}

/// Request to delete the chunks a filter selects.
pub struct BulkDeleteChunkPayload<C> {
    pub filter: ChunkFilter<C>,
}

/// Answer to a search, in the first form of the API.
pub struct SearchChunkQueryResponseBody<S> {
    pub score_chunks: Vec<S>,
    pub corrected_query: Option<String>,
    pub total_chunk_pages: i64,
}

/// A chunk as either form of the API returns it.
pub enum ChunkReturnTypes<V2, V1> {
    V2(V2),
    V1(V1),
}

/// A page of chunks from a scroll through a dataset.
pub struct ScrollChunksResponseBody<M> {
    pub chunks: Vec<M>,
}

/// Recommended chunks, in the first form of the API.
pub struct V1RecommendChunksResponseBody<M>(pub Vec<M>);

} // verus!
