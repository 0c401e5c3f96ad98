use trieve_handlers::chunk::{admit_chunk_creation, merge_chunk_update, ChunkFields, ChunkRefusal, ChunkUpdate, check_count_limit, check_html_size, check_points_exist, split_html_response};
use trieve_handlers::chunk::{
    batch_chunk_limit, check_chunk_batch_size, check_recommendation_points,
    check_recommendation_request, check_update_tracking_id, chunk_update_target,
    chunk_upload_admitted, dedup_by_tracking_id, group_targets, ingestion_queue_name, is_audio,
    merge_tracking_id, normalize_tracking_id, opt_str_eq, partition_by_upsert,
    plan_limits_apply, queued_chunk_response, QueryTypes, ReturnQueuedChunk, SearchModalities,
};
use trieve_handlers::errors::ServiceError;
use trieve_handlers::models::{RecommendationStrategy, UnifiedId};

fn bad(msg: &str) -> ServiceError {
    ServiceError::BadRequest(msg.to_string())
}

#[test]
fn audio_queries_are_single_audio() {
    assert!(is_audio(QueryTypes::Single(SearchModalities::Audio { audio_base64: "AAAA".to_string() })));
    assert!(!is_audio(QueryTypes::Single(SearchModalities::Text("hi".to_string()))));
    assert!(!is_audio(QueryTypes::Multi(vec![SearchModalities::Audio { audio_base64: "A".to_string() }])));
}

#[test]
fn batch_limit_defaults_to_120() {
    assert_eq!(batch_chunk_limit(None), 120);
    assert_eq!(batch_chunk_limit(Some("250")), 250);
    assert_eq!(batch_chunk_limit(Some("lots")), 120);
    assert_eq!(check_chunk_batch_size(120, 120), Ok(()));
    assert_eq!(
        check_chunk_batch_size(121, 120),
        Err(ServiceError::PayloadTooLarge(
            "Too many chunks provided in bulk. The limit is 120 chunks per bulk upload".to_string()
        ))
    );
}

#[test]
fn plan_limits_and_admission() {
    assert!(plan_limits_apply(None));
    assert!(plan_limits_apply(Some("false")));
    assert!(!plan_limits_apply(Some("true")));
    assert!(!plan_limits_apply(Some("False")));
    assert!(chunk_upload_admitted(true, 90, 10, 100));
    assert!(!chunk_upload_admitted(true, 91, 10, 100));
    assert!(chunk_upload_admitted(false, 1000, 10, 100));
}

#[test]
fn empty_tracking_ids_are_dropped() {
    assert_eq!(normalize_tracking_id(Some(String::new())), None);
    assert_eq!(normalize_tracking_id(Some("t1".to_string())), Some("t1".to_string()));
    assert_eq!(normalize_tracking_id(None), None);
    let once = normalize_tracking_id(Some("".to_string()));
    assert_eq!(normalize_tracking_id(once.clone()), once);
}

#[test]
fn upsert_partition_keeps_order_and_covers_batch() {
    let flags = vec![Some(true), None, Some(false), Some(true), None];
    let (up, plain) = partition_by_upsert(&flags);
    assert_eq!(up, vec![0, 3]);
    assert_eq!(plain, vec![1, 2, 4]);
    assert_eq!(up.len() + plain.len(), flags.len());
    for k in 0..flags.len() {
        assert!(up.contains(&k) != plain.contains(&k));
    }
}

#[test]
fn dedup_keeps_first_of_each_run() {
    let keys = vec![
        Some("a".to_string()),
        Some("a".to_string()),
        None,
        None,
        Some("b".to_string()),
        Some("a".to_string()),
    ];
    let kept = dedup_by_tracking_id(&keys);
    assert_eq!(kept, vec![0, 2, 4, 5]);
    for w in kept.windows(2) {
        assert_ne!(keys[w[0]], keys[w[1]]);
    }
    assert!(opt_str_eq(&None, &None));
    assert!(!opt_str_eq(&Some("x".to_string()), &None));
}

#[test]
fn ingestion_queue_by_embedding_server() {
    assert_eq!(ingestion_queue_name("https://api.openai.com/v1"), "openai_ingestion");
    assert_eq!(ingestion_queue_name("http://embeddings.local"), "ingestion");
}

#[test]
fn tracking_id_merge_and_update_target() {
    assert_eq!(merge_tracking_id(Some("new".to_string()), Some("old".to_string())), Some("new".to_string()));
    assert_eq!(merge_tracking_id(Some(String::new()), Some("old".to_string())), None);
    assert_eq!(merge_tracking_id(None, Some("old".to_string())), Some("old".to_string()));
    assert_eq!(chunk_update_target(Some(5), Some("t".to_string())), Ok(UnifiedId::TrieveUuid(5)));
    assert_eq!(chunk_update_target(None, Some("t".to_string())), Ok(UnifiedId::TrackingId("t".to_string())));
    assert_eq!(
        chunk_update_target(None, None),
        Err(bad("Either chunk_id or tracking_id must be provided to update a chunk"))
    );
    assert_eq!(check_update_tracking_id("x"), Ok(()));
    assert_eq!(check_update_tracking_id(""), Err(bad("Tracking id must be provided to update by tracking_id")));
}

#[test]
fn group_targets_prefer_ids() {
    assert_eq!(
        group_targets(Some(vec![1, 2]), Some(vec!["g".to_string()])),
        Some(vec![UnifiedId::TrieveUuid(1), UnifiedId::TrieveUuid(2)])
    );
    assert_eq!(
        group_targets(None, Some(vec!["g".to_string(), "h".to_string()])),
        Some(vec![UnifiedId::TrackingId("g".to_string()), UnifiedId::TrackingId("h".to_string())])
    );
    assert_eq!(group_targets(None, None), None);
}

#[test]
fn recommendation_request_needs_positives_for_average_vector() {
    let msg = "Either positive_chunk_ids or positive_tracking_ids must be provided for average_vector strategy";
    assert_eq!(check_recommendation_request(false, false, None), Err(bad(msg)));
    assert_eq!(check_recommendation_request(false, false, Some(RecommendationStrategy::AverageVector)), Err(bad(msg)));
    assert_eq!(check_recommendation_request(false, false, Some(RecommendationStrategy::BestScore)), Ok(()));
    assert_eq!(check_recommendation_request(true, false, None), Ok(()));
    assert_eq!(check_recommendation_request(false, true, None), Ok(()));
}

#[test]
fn recommendation_points_checks() {
    assert_eq!(
        check_recommendation_points(0, 3, Some(RecommendationStrategy::AverageVector)),
        Err(bad("Positive chunk ids could not be found, must return at least 1 positive id for average vector strategy"))
    );
    assert_eq!(
        check_recommendation_points(0, 0, Some(RecommendationStrategy::BestScore)),
        Err(bad("No positive or negative chunk ids could be found. At least one positive or negative id must be provided."))
    );
    assert_eq!(
        check_recommendation_points(0, 0, None),
        Err(bad("Positive chunk ids could not be found, must return at least 1 positive id for average vector strategy"))
    );
    assert_eq!(
        check_recommendation_points(0, 2, None),
        Err(bad("Positive chunk ids could not be found, must return at least 1 positive id for average vector strategy"))
    );
    assert_eq!(check_recommendation_points(0, 2, Some(RecommendationStrategy::BestScore)), Ok(()));
    assert_eq!(check_recommendation_points(1, 0, Some(RecommendationStrategy::AverageVector)), Ok(()));
}

#[test]
fn queued_response_matches_request_shape() {
    match queued_chunk_response(true, vec!["c1", "c2"], 4) {
        Ok(ReturnQueuedChunk::Single(r)) => {
            assert_eq!(r.chunk_metadata, "c1");
            assert_eq!(r.pos_in_queue, 4);
        }
        _ => panic!("expected a single answer"),
    }
    match queued_chunk_response(false, vec!["c1", "c2"], 2) {
        Ok(ReturnQueuedChunk::Batch(r)) => {
            assert_eq!(r.chunk_metadata, vec!["c1", "c2"]);
            assert_eq!(r.pos_in_queue, 2);
        }
        _ => panic!("expected a batch answer"),
    }
    match queued_chunk_response::<&str>(true, vec![], 0) {
        Err(e) => assert_eq!(
            e,
            bad("Failed to queue a single chunk due to deriving 0 ingestion_messages from the request data")
        ),
        Ok(_) => panic!("expected a refusal"),
    }
}

#[test]
fn count_and_split_limits() {
    assert_eq!(check_count_limit(10, 10), Ok(()));
    assert_eq!(
        check_count_limit(10001, 10000),
        Err(bad("Limit of 10001 is greater than the maximum limit of 10000. Please reduce the limit."))
    );
    assert_eq!(check_html_size("<p>small</p>"), Ok(()));
    let big = "a".repeat(262_145);
    assert_eq!(
        check_html_size(&big),
        Err(ServiceError::PayloadTooLarge("The HTML content is too large".to_string()))
    );
    assert_eq!(check_html_size(&big[1..]), Ok(()));
    let r = split_html_response(vec![("H1".to_string(), "b1".to_string()), ("H2".to_string(), "b2".to_string())]);
    assert_eq!(r.chunks.len(), 2);
    assert_eq!(r.chunks[1].headings, vec!["H2".to_string()]);
    assert_eq!(r.chunks[1].body, "b2");
    assert_eq!(check_points_exist(true), Ok(()));
    assert_eq!(check_points_exist(false), Err(ServiceError::NotFound("Any one of the specified chunks not found".to_string())));
}

#[test]
fn chunk_creation_checks_upgrade_before_size() {
    assert!(matches!(admit_chunk_creation(true, 95, 130, 100, 120), Err(ChunkRefusal::UpgradeRequired)));
    assert!(matches!(
        admit_chunk_creation(false, 95, 130, 100, 120),
        Err(ChunkRefusal::Error(e)) if e == ServiceError::PayloadTooLarge(
            "Too many chunks provided in bulk. The limit is 120 chunks per bulk upload".to_string())
    ));
    assert!(admit_chunk_creation(true, 0, 120, 200, 120).is_ok());
}

#[test]
fn chunk_update_keeps_what_is_not_given() {
    let current = ChunkFields {
        link: Some("old-link".to_string()),
        tracking_id: Some("t".to_string()),
        tag_set: Some(vec![Some("x".to_string())]),
        chunk_html: Some("<p>old</p>".to_string()),
        metadata: Some("{}"),
        time_stamp: Some(5i64),
        location: Some((1, 2)),
        image_urls: Some(vec![Some("i1".to_string())]),
        weight: 2.5f64,
        num_value: Some(7.0f64),
    };
    let update = ChunkUpdate {
        link: None,
        tracking_id: Some(String::new()),
        tag_set: Some(vec!["a".to_string(), "b".to_string()]),
        chunk_html: Some("<p>new</p>".to_string()),
        metadata: None,
        time_stamp: None,
        location: None,
        image_urls: None,
        weight: None,
        num_value: Some(1.0),
    };
    let r = merge_chunk_update(update, current);
    assert_eq!(r.link, Some("old-link".to_string()));
    assert_eq!(r.tracking_id, None);
    assert_eq!(r.tag_set, Some(vec![Some("a".to_string()), Some("b".to_string())]));
    assert_eq!(r.chunk_html, Some("<p>new</p>".to_string()));
    assert_eq!(r.metadata, Some("{}"));
    assert_eq!(r.time_stamp, Some(5));
    assert_eq!(r.location, Some((1, 2)));
    assert_eq!(r.image_urls, Some(vec!["i1".to_string()]));
    assert_eq!(r.weight, 2.5);
    assert_eq!(r.num_value, Some(1.0));
}
