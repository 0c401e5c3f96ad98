use vstd::prelude::*;

verus! {

/// Request for a page of a dataset's events, of the given types.
pub struct GetEventsData<T> {
    pub page: Option<i64>,
    pub page_size: Option<i64>,
    pub event_types: Option<Vec<T>>,
}

/// The page, page size and event types an events request asks for: page 1
/// and 10 events a page unless given, and every event type (`all_types`)
/// when no type or an empty list of types is given.
pub fn events_query<T>(data: GetEventsData<T>, all_types: Vec<T>) -> (r: (i64, i64, Vec<T>))
    ensures
        r.0 == match data.page { Some(p) => p, None => 1 },
        r.1 == match data.page_size { Some(s) => s, None => 10 },
        r.2@ == match data.event_types {
            Some(ts) => if ts@.len() == 0 { all_types@ } else { ts@ },
            None => all_types@,
        },
{
    let page = match data.page {
        Some(p) => p,
        None => 1,
    };
    let page_size = match data.page_size {
        Some(s) => s,
        None => 10,
    };
    let types = match data.event_types {
        Some(ts) => if ts.len() == 0 { all_types } else { ts },
        None => all_types,
    };
    (page, page_size, types)
}

/// Request to extract structured data from a dataset's chunks with a model.
pub struct CreateSchemaReqPayload {
    pub prompt: String,
    pub model: Option<String>,
    pub tag_enum: Option<Vec<String>>,
    pub include_images: Option<bool>,
}

/// Notice that an extraction job produced its batch.
pub struct EtlWebhookResponse {
    pub job_id: String,
    pub batch_url: String,
}

/// A new extraction job for a dataset.
pub struct EtlJobRequest {
    pub payload: CreateSchemaReqPayload,
    pub dataset_id: u128,
}

/// A message of the extraction queue.
pub enum EtlJobMessage {
    CreateJob(EtlJobRequest),
    WebhookResponse(EtlWebhookResponse),
}

/// A notification shown to the users of a dataset.
pub enum Notification<F> {
    /// A file finished uploading.
    FileUploadComplete(F),
}

} // verus!
