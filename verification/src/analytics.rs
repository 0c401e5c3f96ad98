use vstd::prelude::*;

verus! {

/// Request for an organization's top datasets: `T` names what the datasets
/// are ranked by (searches, recommendations, ...), `D` the date range that
/// bounds the events counted, when one is given.
pub struct GetTopDatasetsRequestBody<T, D> {
    pub request_type: T,
    pub date_range: Option<D>,
}

} // verus!
