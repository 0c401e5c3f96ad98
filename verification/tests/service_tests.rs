use trieve_handlers::card::{card_document_message, card_question_message};
use trieve_handlers::group::{recommended_group_size, updated_group_fields};
use trieve_handlers::file::{crawl_page_metadata, MetadataField};
use trieve_handlers::card::{
    check_card_author, converted_text, created_card_time_stamp, updated_card_fields,
    updated_card_time_stamp,
};
use trieve_handlers::dataset::{
    check_dataset_owner_operation, check_datasets_listing, check_pagefind_enabled,
    dataset_creation_admitted, dataset_update_target, require_verified, tags_page,
    GetAllTagsReqPayload, GetDatasetsPagination,
};
use trieve_handlers::errors::ServiceError;
use trieve_handlers::events::{events_query, GetEventsData};
use trieve_handlers::file::{
    check_dataset_header_matches, check_file_storage, check_upload_options, check_webhook_secret,
    default_auto_generation_strategy, default_cropping_strategy, default_embed_sources,
    default_ignore_headers_and_footers, default_job_interval, default_llm_generation_strategy,
    default_picture_cropping_strategy, default_target_length, default_task_timeout, parse_flag,
    signed_url_object_key, signed_url_ttl, validate_file_name, AutoGenerationConfig,
    ChunkProcessing, CroppingStrategy, EmbedSource, GenerationStrategy, Pdf2MdOptions,
    PictureCroppingStrategy, SegmentProcessing,
};
use trieve_handlers::group::{
    check_group_recommendation, check_owned_by_dataset, group_chunk_target, group_search_mode,
    group_update_target, page_or_first, recommendation_limit, search_group_target, SearchMode,
};
use trieve_handlers::metrics::{check_x_api_access, poll_wait_ms};
use trieve_handlers::models::{SlimUser, UnifiedId, UserOrganization};
use trieve_handlers::organization::{updated_organization, UpdateOrganizationReqPayload};
use trieve_handlers::page::{
    dashboard_url, hero_background_color, hero_body_style, public_page_dataset,
    search_component_url, DatasetRef, PublicPageTheme,
};
use trieve_handlers::paging::{ceil_div_i64, listing_total_pages, result_pages, uploaded_file_size};
use trieve_handlers::stripe::{
    check_usage_plan, checkout_subscription, metadata_get, payment_link_conflicts,
    payment_method_subscription, plan_change, setup_subscription_id, BillingKind, PlanChange,
};
use trieve_handlers::stripe::{checkout_actions, CheckoutAction, SubscriptionCheckout};
use trieve_handlers::topic::{check_topic_name, cloned_topic_name, topic_name_source, TopicName};
use trieve_handlers::webhook::{
    webhook_action, webhook_chunk, webhook_dataset_id, ContentEntry, ContentFieldValue,
    ContentValue, Operation, WebhookAction, WebhookQueryParams,
};

fn bad(msg: &str) -> ServiceError {
    ServiceError::BadRequest(msg.to_string())
}

const ID: u128 = 0x67e5504410b1426f9247bb680e5fe0c8;
const ID_TEXT: &str = "67e55044-10b1-426f-9247-bb680e5fe0c8";

#[test]
fn converter_output_joined_by_spaces() {
    for s in ["line one\nline two\n", "a\r\nb\r\n\r\n", "x\ry", "  trailing  \n\n", "", "\n"] {
        let expected = s.lines().collect::<Vec<&str>>().join(" ").trim_end().to_string();
        assert_eq!(converted_text(s), expected);
    }
    assert_eq!(converted_text("a\nb"), "a b");
}

#[test]
fn card_author_and_fields() {
    assert_eq!(check_card_author(3, 3), Ok(()));
    assert_eq!(check_card_author(3, 4), Err(ServiceError::Forbidden));
    let (link, html) = updated_card_fields(None, Some("old".to_string()), None, Some("<p>x</p>".to_string()));
    assert_eq!(link, "old");
    assert_eq!(html, Some("<p>x</p>".to_string()));
    let (link, html) = updated_card_fields(Some("new".to_string()), None, Some("h".to_string()), None);
    assert_eq!((link.as_str(), html), ("new", Some("h".to_string())));
    assert_eq!(updated_card_fields(None, None, None, None).0, "");
}

#[test]
fn card_time_stamps_read_by_chrono() {
    assert_eq!(created_card_time_stamp(None), Ok(None));
    assert_eq!(created_card_time_stamp(Some("2021-01-01 00:00:00")), Ok(Some((1609459200, 0))));
    let reason = chrono::NaiveDateTime::parse_from_str("yesterday", "%Y-%m-%d %H:%M:%S").unwrap_err().to_string();
    assert_eq!(
        created_card_time_stamp(Some("yesterday")),
        Err(bad(&format!("Invalid timestamp format {}", reason)))
    );
    assert_eq!(updated_card_time_stamp(Some("2021-01-01 00:00:01")), Ok(Some((1609459201, 0))));
    assert_eq!(updated_card_time_stamp(Some("2021-13-01 00:00:00")), Err(bad("Invalid timestamp format")));
}

#[test]
fn dataset_rules() {
    assert!(dataset_creation_admitted(false, 10, 1));
    assert!(dataset_creation_admitted(true, 0, 1));
    assert!(!dataset_creation_admitted(true, 1, 1));
    assert_eq!(dataset_update_target(Some(2), None), Ok(UnifiedId::TrieveUuid(2)));
    assert_eq!(
        dataset_update_target(None, None),
        Err(bad("You must provide a dataset_id or tracking_id to update a dataset"))
    );
    assert_eq!(require_verified(false), Err(ServiceError::Forbidden));
    assert_eq!(
        check_dataset_owner_operation(1, 2, true),
        Err(bad("Dataset header does not match provided dataset ID"))
    );
    assert_eq!(check_dataset_owner_operation(1, 1, false), Err(ServiceError::Forbidden));
    assert_eq!(check_dataset_owner_operation(1, 1, true), Ok(()));
    assert_eq!(
        check_pagefind_enabled(false, ID),
        Err(bad(&format!(
            "Dataset {} does not have pagefind enabled, please set PAGEFIND_ENABLED to true in dataset settings",
            ID_TEXT
        )))
    );
    assert_eq!(check_pagefind_enabled(true, ID), Ok(()));
}

#[test]
fn dataset_listing_and_tags() {
    let user = SlimUser {
        id: 1,
        email: "u@x.io".to_string(),
        user_orgs: vec![UserOrganization { user_id: 1, organization_id: 4, role: 0 }],
    };
    assert_eq!(
        check_datasets_listing(&user, 5, GetDatasetsPagination { limit: None, offset: None }),
        Err(ServiceError::Forbidden)
    );
    assert_eq!(
        check_datasets_listing(&user, 4, GetDatasetsPagination { limit: Some(10), offset: None }),
        Err(bad("Pagination requires both offset and limit."))
    );
    assert_eq!(check_datasets_listing(&user, 4, GetDatasetsPagination { limit: Some(10), offset: Some(0) }), Ok(()));
    assert_eq!(tags_page(GetAllTagsReqPayload { page_size: None, page: None }), Ok((1, 20)));
    assert_eq!(tags_page(GetAllTagsReqPayload { page_size: Some(5), page: Some(3) }), Ok((3, 5)));
    assert_eq!(tags_page(GetAllTagsReqPayload { page_size: None, page: Some(0) }), Err(bad("Page must be greater than 0")));
}

#[test]
fn events_query_defaults() {
    let all = vec!["a", "b"];
    let (page, size, types) = events_query(GetEventsData { page: None, page_size: None, event_types: None }, all.clone());
    assert_eq!((page, size, types), (1, 10, vec!["a", "b"]));
    let (_, _, types) = events_query(GetEventsData { page: Some(2), page_size: Some(3), event_types: Some(vec![]) }, all.clone());
    assert_eq!(types, vec!["a", "b"]);
    let (p, s, types) = events_query(GetEventsData { page: Some(2), page_size: Some(3), event_types: Some(vec!["b"]) }, all);
    assert_eq!((p, s, types), (2, 3, vec!["b"]));
}

#[test]
fn file_defaults() {
    assert_eq!(default_target_length(), 512);
    assert!(default_ignore_headers_and_footers());
    assert_eq!(default_embed_sources(), vec![EmbedSource::Markdown]);
    assert_eq!(default_cropping_strategy(), CroppingStrategy::Auto);
    assert_eq!(default_picture_cropping_strategy(), PictureCroppingStrategy::All);
    assert_eq!(default_auto_generation_strategy(), GenerationStrategy::Auto);
    assert_eq!(default_llm_generation_strategy(), GenerationStrategy::LLM);
    assert_eq!(default_job_interval(), 600);
    assert_eq!(default_task_timeout(), 1800);
    let auto = AutoGenerationConfig::default();
    assert_eq!(auto.html, GenerationStrategy::Auto);
    assert_eq!(auto.embed_sources, vec![EmbedSource::Markdown]);
    let seg = SegmentProcessing::default();
    assert_eq!(seg.table.unwrap().html, GenerationStrategy::LLM);
    let picture = seg.picture.unwrap();
    assert_eq!(picture.crop_image, PictureCroppingStrategy::All);
    assert_eq!(picture.html, GenerationStrategy::LLM);
    assert_eq!(picture.markdown, GenerationStrategy::LLM);
    let pd = trieve_handlers::file::PictureGenerationConfig::default();
    assert_eq!((pd.html, pd.markdown, pd.llm), (GenerationStrategy::LLM, GenerationStrategy::LLM, None));
    assert_eq!(pd.embed_sources, vec![EmbedSource::Markdown]);
    let cp = ChunkProcessing::default();
    assert_eq!(cp.target_length, 512);
    assert!(cp.ignore_headers_and_footers);
}

#[test]
fn file_names_lose_their_directories() {
    assert_eq!(validate_file_name("dir/sub/report.pdf".to_string()), Ok("report.pdf".to_string()));
    assert_eq!(validate_file_name("plain.txt".to_string()), Ok("plain.txt".to_string()));
    assert_eq!(validate_file_name("a/..hidden".to_string()), Err(bad("Invalid file name")));
    assert_eq!(validate_file_name("../etc/passwd".to_string()), Ok("passwd".to_string()));
    assert_eq!(validate_file_name("dir/".to_string()), Ok(String::new()));
}

#[test]
fn file_upload_checks() {
    let ocr = Some(Pdf2MdOptions { use_pdf2md_ocr: true, system_prompt: None, split_headings: None });
    assert_eq!(check_upload_options(&ocr, Some(true)), Err(bad("split_avg is not supported with pdf2md")));
    assert_eq!(check_upload_options(&ocr, Some(false)), Ok(()));
    assert_eq!(check_upload_options(&None, Some(true)), Ok(()));
    assert_eq!(check_file_storage(10, 11), Ok(()));
    assert_eq!(check_file_storage(11, 11), Err(bad("File size limit reached")));
    assert_eq!(signed_url_ttl(None), 86400);
    assert_eq!(signed_url_ttl(Some(60)), 60);
    assert_eq!(check_dataset_header_matches(1, 2), Err(bad("Dataset header does not match given path")));
    assert_eq!(check_webhook_secret("s", "s"), Ok(()));
    assert_eq!(check_webhook_secret("s", "t"), Err(bad("Webhook secret does not match.")));
    assert_eq!(signed_url_object_key(true, ID, "f.pdf"), "files/f.pdf");
    assert_eq!(signed_url_object_key(false, ID, "f.pdf"), format!("{}/f.pdf", ID_TEXT));
    assert!(parse_flag("true"));
    assert!(!parse_flag("TRUE"));
}

#[test]
fn group_rules() {
    assert_eq!(check_owned_by_dataset(1, 1), Ok(()));
    assert_eq!(check_owned_by_dataset(1, 2), Err(ServiceError::Forbidden));
    assert_eq!(group_update_target(Some(3), None), Ok(UnifiedId::TrieveUuid(3)));
    assert!(group_update_target(None, None).is_err());
    assert_eq!(group_chunk_target(None, Some("c".to_string())), Ok(UnifiedId::TrackingId("c".to_string())));
    assert!(search_group_target(None, None).is_err());
    assert_eq!(group_search_mode("fulltext", true), Ok(SearchMode::FullText));
    assert_eq!(group_search_mode("fulltext", false), Err(bad("Fulltext search is not enabled for this dataset")));
    assert_eq!(group_search_mode("hybrid", false), Ok(SearchMode::Hybrid));
    assert_eq!(group_search_mode("semantic", false), Ok(SearchMode::Semantic));
    assert_eq!(
        check_group_recommendation(false, false),
        Err(bad("You must provide at least one positive group id or group tracking id"))
    );
    assert_eq!(check_group_recommendation(false, true), Ok(()));
    assert_eq!(page_or_first(None), 1);
    assert_eq!(recommendation_limit(None), 10);
    assert_eq!(recommendation_limit(Some(3)), 3);
}

#[test]
fn metrics_access_by_admin_key() {
    assert!(!check_x_api_access(None, Some("k"), Some("Bearer k")));
    assert!(check_x_api_access(Some("k"), Some("k"), None));
    assert!(!check_x_api_access(Some("k"), Some("wrong"), Some("Bearer k")));
    assert!(check_x_api_access(Some("k"), None, Some("Bearer k")));
    assert!(!check_x_api_access(Some("k"), None, Some("k")));
    assert!(!check_x_api_access(Some("k"), None, None));
}

#[test]
fn worker_backoff() {
    assert_eq!(poll_wait_ms(40000, true), 100);
    assert_eq!(poll_wait_ms(100, false), 10000);
    assert_eq!(poll_wait_ms(10000, false), 20000);
}

#[test]
fn organization_update_sanitizes_name() {
    let input = "<b>Acme</b><script>alert(1)</script>";
    let expected = sanitize_html::sanitize_str(&sanitize_html::rules::predefined::DEFAULT, input).unwrap();
    let (name, partner) = updated_organization(
        UpdateOrganizationReqPayload { name: Some(input.to_string()), partner_configuration: None },
        "Old".to_string(),
        7,
    )
    .unwrap();
    assert_eq!(name, expected);
    assert_ne!(name, input);
    assert_eq!(partner, 7);
    let (kept, partner) = updated_organization(
        UpdateOrganizationReqPayload::<i32> { name: None, partner_configuration: Some(9) },
        "Old Name".to_string(),
        7,
    )
    .unwrap();
    assert_eq!(kept, "Old Name");
    assert_eq!(partner, 9);
}

#[test]
fn public_page_settings() {
    assert!(matches!(public_page_dataset(ID_TEXT.to_string()), DatasetRef::Id(id) if id == ID));
    assert!(matches!(public_page_dataset("my-docs".to_string()), DatasetRef::TrackingId(t) if t == "my-docs"));
    assert_eq!(search_component_url(true, true, Some("x")), "https://cdn.trieve.ai/beta/search-component");
    assert_eq!(search_component_url(false, true, Some("x")), "http://localhost:8000/dist");
    assert_eq!(search_component_url(false, false, Some("https://c")), "https://c");
    assert_eq!(search_component_url(false, false, None), "https://search-component.trieve.ai/dist");
    assert_eq!(dashboard_url(None), "https://dashboard.trieve.ai");
    assert_eq!(hero_body_style(Some("https://p.svg")), Some("background-image: url('https://p.svg')".to_string()));
    assert_eq!(hero_body_style(None), None);
    assert_eq!(hero_background_color(Some("#fff")), Some("background-color: #fff".to_string()));
    assert_eq!(PublicPageTheme::default(), PublicPageTheme::Light);
}

#[test]
fn page_counts_round_up() {
    assert_eq!(ceil_div_i64(0, 10), 0);
    assert_eq!(ceil_div_i64(1, 10), 1);
    assert_eq!(ceil_div_i64(20, 10), 2);
    assert_eq!(ceil_div_i64(21, 10), 3);
    assert_eq!(ceil_div_i64(-5, 10), 0);
    assert_eq!(ceil_div_i64(-15, 10), -1);
    for c in [-25i64, -10, -1, 0, 1, 9, 10, 11, 99, 100, 12345] {
        assert_eq!(ceil_div_i64(c, 10), (c as f64 / 10.0).ceil() as i64);
    }
    assert_eq!(listing_total_pages(None), 1);
    assert_eq!(listing_total_pages(Some(None)), 1);
    assert_eq!(listing_total_pages(Some(Some(31))), 4);
    assert_eq!(result_pages(0), 0);
    assert_eq!(result_pages(11), 2);
    assert_eq!(uploaded_file_size(1025), 2);
    assert_eq!(uploaded_file_size(1024), 1);
}

#[test]
fn stripe_checkout_metadata() {
    let meta = |pairs: &[(&str, &str)]| -> Vec<(String, String)> {
        pairs.iter().map(|(k, v)| (k.to_string(), v.to_string())).collect()
    };
    let good = meta(&[("organization_id", ID_TEXT), ("plan_type", "flat"), ("plan_id", ID_TEXT)]);
    assert_eq!(metadata_get(&good, "plan_type"), Some("flat".to_string()));
    assert_eq!(metadata_get(&good, "missing"), None);
    let c = checkout_subscription(Some("sub_1".to_string()), Some(good)).ok().unwrap();
    assert_eq!(c.stripe_subscription_id, "sub_1");
    assert_eq!(c.organization_id, ID);
    assert_eq!(c.plan_id, ID);
    assert_eq!(c.kind, Some(BillingKind::Flat));
    let usage = meta(&[("organization_id", ID_TEXT), ("plan_type", "usage-based"), ("plan_id", ID_TEXT)]);
    assert_eq!(checkout_subscription(Some("s".to_string()), Some(usage)).ok().unwrap().kind, Some(BillingKind::UsageBased));
    let other = meta(&[("organization_id", ID_TEXT), ("plan_type", "trial"), ("plan_id", ID_TEXT)]);
    assert_eq!(checkout_subscription(Some("s".to_string()), Some(other)).ok().unwrap().kind, None);
    assert!(matches!(checkout_subscription(None, None), Err(e) if e == bad("Checkout session must have a subscription")));
    assert!(matches!(checkout_subscription(Some("s".to_string()), None), Err(e) if e == bad("Checkout session must have metadata")));
    let no_org = meta(&[("plan_type", "flat")]);
    assert!(matches!(checkout_subscription(Some("s".to_string()), Some(no_org)),
        Err(e) if e == bad("Checkout session must have an organization_id metadata")));
    let bad_org = meta(&[("organization_id", "nope")]);
    assert!(matches!(checkout_subscription(Some("s".to_string()), Some(bad_org)),
        Err(e) if e == bad("organization_id metadata must be a uuid")));
    let no_type = meta(&[("organization_id", ID_TEXT)]);
    assert!(matches!(checkout_subscription(Some("s".to_string()), Some(no_type)),
        Err(e) if e == bad("Checkout session must have an plan_type metadata")));
    let no_plan = meta(&[("organization_id", ID_TEXT), ("plan_type", "flat")]);
    assert!(matches!(checkout_subscription(Some("s".to_string()), Some(no_plan)),
        Err(e) if e == bad("Checkout session must have an organization_id metadata")));
    let bad_plan = meta(&[("organization_id", ID_TEXT), ("plan_type", "flat"), ("plan_id", "x")]);
    assert!(matches!(checkout_subscription(Some("s".to_string()), Some(bad_plan)),
        Err(e) if e == bad("organization_id metadata must be a uuid")));
}

#[test]
fn stripe_subscription_changes() {
    assert_eq!(setup_subscription_id(None), Err(bad("Checkout session must have metadata")));
    assert_eq!(
        setup_subscription_id(Some(vec![("x".to_string(), "y".to_string())])),
        Err(bad("Checkout session must have an subscription_id metadata"))
    );
    assert_eq!(setup_subscription_id(Some(vec![("subscription_id".to_string(), "sub".to_string())])), Ok("sub".to_string()));
    assert_eq!(plan_change(false, BillingKind::Flat, BillingKind::Flat), Err(ServiceError::Forbidden));
    assert_eq!(plan_change(true, BillingKind::Flat, BillingKind::Flat), Ok(PlanChange::UpdateFlat));
    assert_eq!(plan_change(true, BillingKind::UsageBased, BillingKind::Flat), Ok(PlanChange::UsageToFlat));
    assert_eq!(plan_change(true, BillingKind::UsageBased, BillingKind::UsageBased), Ok(PlanChange::UpdateUsage));
    assert_eq!(plan_change(true, BillingKind::Flat, BillingKind::UsageBased), Ok(PlanChange::FlatToUsage));
    assert!(payment_link_conflicts(Some(None)));
    assert!(!payment_link_conflicts(Some(Some(5))));
    assert!(!payment_link_conflicts(None));
    assert_eq!(payment_method_subscription(Some("f".to_string()), Some("u".to_string())), Ok("f".to_string()));
    assert_eq!(payment_method_subscription(None, Some("u".to_string())), Ok("u".to_string()));
    assert_eq!(payment_method_subscription(None, None), Err(bad("Organization does not have an active subscription")));
    assert_eq!(check_usage_plan(BillingKind::Flat), Err(bad("Plan is not usage based")));
    assert_eq!(check_usage_plan(BillingKind::UsageBased), Ok(()));
}

#[test]
fn topic_rules() {
    assert!(matches!(topic_name_source(Some("hello".to_string()), Some("n".to_string())), Ok(TopicName::FromFirstMessage(m)) if m == "hello"));
    assert!(matches!(topic_name_source(None, Some("n".to_string())), Ok(TopicName::Given(n)) if n == "n"));
    assert!(matches!(topic_name_source(None, None), Err(e) if e == bad("first_user_message and name must not be empty")));
    assert_eq!(cloned_topic_name(None, "orig".to_string()), "orig");
    assert_eq!(cloned_topic_name(Some("new".to_string()), "orig".to_string()), "new");
    assert_eq!(check_topic_name(""), Err(bad("Topic name must not be empty")));
    assert_eq!(check_topic_name("t"), Ok(()));
}

#[test]
fn webhook_handling() {
    assert_eq!(webhook_action(Operation::Publish), WebhookAction::Publish);
    assert_eq!(webhook_action(Operation::ScheduledStart), WebhookAction::Publish);
    for op in [Operation::Archive, Operation::Delete, Operation::Unpublish, Operation::ScheduledEnd] {
        assert_eq!(webhook_action(op), WebhookAction::Delete);
    }
    let q = |k: &str, d: &str| WebhookQueryParams { trieve_key: k.to_string(), trieve_dataset: d.to_string() };
    assert_eq!(webhook_dataset_id(&q("", ID_TEXT)), Err(bad("trieve_key and trieve_dataset are required")));
    assert_eq!(webhook_dataset_id(&q("key", "")), Err(bad("trieve_key and trieve_dataset are required")));
    assert_eq!(webhook_dataset_id(&q("key", "abc")), Err(bad("Invalid dataset id: abc")));
    assert_eq!(webhook_dataset_id(&q("key", ID_TEXT)), Ok(ID));
    let content = ContentValue {
        id: "entry-1".to_string(),
        name: "Title".to_string(),
        model_id: "m".to_string(),
        data: vec![
            ContentEntry { key: "body".to_string(), value: ContentFieldValue::Text("First".to_string()) },
            ContentEntry {
                key: "tags".to_string(),
                value: ContentFieldValue::Array(vec![Some("t1".to_string()), None, Some("t2".to_string())]),
            },
            ContentEntry { key: "price".to_string(), value: ContentFieldValue::Kept(5) },
            ContentEntry { key: "featured".to_string(), value: ContentFieldValue::Kept(1) },
            ContentEntry { key: "none".to_string(), value: ContentFieldValue::Ignored },
            ContentEntry { key: "more".to_string(), value: ContentFieldValue::Text("Second".to_string()) },
        ],
    };
    let chunk = webhook_chunk(content);
    assert_eq!(chunk.tracking_id, "entry-1");
    assert_eq!(chunk.chunk_html, "Title\nFirst\nSecond");
    assert_eq!(chunk.tag_set, vec!["t1".to_string(), "t2".to_string()]);
    assert_eq!(chunk.metadata, vec![("price".to_string(), 5), ("featured".to_string(), 1)]);
}

#[test]
fn card_completion_messages() {
    assert_eq!(card_document_message(0, "  several   words here "), "Doc 1: several words here");
    let long: Vec<String> = (0..300).map(|i| format!("w{}", i)).collect();
    let text = long.join("\n");
    let expected = format!("Doc 3: {}", long[..240].join(" "));
    assert_eq!(card_document_message(2, &text), expected);
    assert_eq!(card_document_message(4, ""), "Doc 5: ");
    assert_eq!(
        card_question_message("why?"),
        "Respond to this question and include the doc numbers that you used in square brackets at the end of the sentences that you used the docs for.: why?"
    );
}

#[test]
fn group_update_fields() {
    let (n, d, t) = updated_group_fields(None, None, None, "g".to_string(), "desc".to_string(), None);
    assert_eq!((n.as_str(), d), ("g", Some("desc".to_string())));
    assert_eq!(t, None);
    let (n, d, t) = updated_group_fields(
        Some("new".to_string()),
        Some("d2".to_string()),
        Some(vec!["a".to_string()]),
        "g".to_string(),
        "desc".to_string(),
        Some(vec![None]),
    );
    assert_eq!((n.as_str(), d), ("new", Some("d2".to_string())));
    assert_eq!(t, Some(vec![Some("a".to_string())]));
}

#[test]
fn crawl_page_metadata_reading() {
    let text = |k: &str, v: &str| (k.to_string(), MetadataField::Text(v.to_string()));
    assert_eq!(crawl_page_metadata(None), Err(bad("metadata field must be a JSON object")));
    assert_eq!(
        crawl_page_metadata(Some(vec![text("webhook_secret", "s")])),
        Err(bad("metadata field is required to specify dataset_id"))
    );
    assert_eq!(
        crawl_page_metadata(Some(vec![("dataset_id".to_string(), MetadataField::Other)])),
        Err(bad("metadata field must have a valid dataset_id"))
    );
    assert_eq!(
        crawl_page_metadata(Some(vec![text("dataset_id", "nope")])),
        Err(bad("metadata field must have a valid dataset_id"))
    );
    assert_eq!(
        crawl_page_metadata(Some(vec![text("dataset_id", ID_TEXT)])),
        Err(bad("metadata field is required to specify dataset_id"))
    );
    assert_eq!(
        crawl_page_metadata(Some(vec![text("dataset_id", ID_TEXT), ("webhook_secret".to_string(), MetadataField::Other)])),
        Err(bad("metadata field must have a valid dataset_id"))
    );
    assert_eq!(
        crawl_page_metadata(Some(vec![text("webhook_secret", "s3cret"), text("dataset_id", ID_TEXT)])),
        Ok((ID, "s3cret".to_string()))
    );
}

#[test]
fn recommended_groups_default_to_three_chunks() {
    assert_eq!(recommended_group_size(None), 3);
    assert_eq!(recommended_group_size(Some(8)), 8);
}

#[test]
fn checkout_steps_follow_the_plan_type() {
    let checkout = |kind| SubscriptionCheckout { stripe_subscription_id: "sub_9".to_string(), organization_id: 7, plan_id: 8, kind };
    let usage = checkout_actions(checkout(Some(BillingKind::UsageBased)), Some("in_1".to_string()));
    assert_eq!(usage.len(), 2);
    assert!(matches!(usage[0], CheckoutAction::DeleteExistingSubscriptions { organization_id: 7 }));
    assert!(matches!(&usage[1], CheckoutAction::CreateUsageSubscription { stripe_subscription_id, plan_id: 8, organization_id: 7 } if stripe_subscription_id == "sub_9"));
    let flat = checkout_actions(checkout(Some(BillingKind::Flat)), Some("in_1".to_string()));
    assert_eq!(flat.len(), 3);
    assert!(matches!(&flat[1], CheckoutAction::CreateFlatSubscription { stripe_subscription_id, plan_id: 8, organization_id: 7 } if stripe_subscription_id == "sub_9"));
    assert!(matches!(&flat[2], CheckoutAction::RecordInvoice { organization_id: 7, invoice_id } if invoice_id == "in_1"));
    assert_eq!(checkout_actions(checkout(Some(BillingKind::Flat)), None).len(), 2);
    assert!(checkout_actions(checkout(None), Some("in_1".to_string())).is_empty());
}

#[test]
fn top_datasets_request_holds_its_fields() {
    let body = trieve_handlers::analytics::GetTopDatasetsRequestBody { request_type: "search", date_range: Some((1, 2)) };
    assert_eq!(body.request_type, "search");
    assert_eq!(body.date_range, Some((1, 2)));
}
