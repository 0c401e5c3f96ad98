use vstd::prelude::*;
use crate::ids::{parse_uuid, parsed_uuid};
use crate::text::concat_strs;

verus! {

/// Color scheme of a public page.
#[derive(Debug, Clone, Copy, PartialEq, Eq)]
pub enum PublicPageTheme {
    Light,
    Dark,
}

impl Default for PublicPageTheme {
    fn default() -> (t: Self)
        ensures
            t == PublicPageTheme::Light,
    {
        PublicPageTheme::Light
    }
}

/// A tab of a public page, with the HTML it shows.
#[derive(Debug, Clone, Default)]
pub struct PublicPageTabMessage {
    pub title: String,
    pub tab_inner_html: String,
    pub show_component_code: bool,
}

/// Open Graph metadata of a public page.
#[derive(Debug, Clone, Default)]
pub struct OpenGraphMetadata {
    pub title: Option<String>,
    pub image: Option<String>,
    pub description: Option<String>,
}

/// An element of the host page that opens the search component.
#[derive(Debug, Clone, Default)]
pub struct ButtonTrigger {
    pub selector: String,
    pub mode: String,
    pub remove_triggers: Option<bool>,
}

/// The product a single-product page is about.
#[derive(Debug, Clone, Default)]
pub struct SingleProductOptions {
    pub product_tracking_id: Option<String>,
    pub group_tracking_id: Option<String>,
    pub product_name: Option<String>,
    pub product_description_html: Option<String>,
    pub product_primary_image_url: Option<String>,
    pub rec_search_query: Option<String>,
    pub product_questions: Option<Vec<String>>,
}

/// A tag the visitors of a public page can filter by.
#[derive(Debug, Clone, Default)]
pub struct PublicPageTag {
    pub tag: String,
    pub label: Option<String>,
    pub selected: Option<bool>,
    pub icon_class_name: Option<String>,
    pub description: Option<String>,
}

/// Descriptions given to the language model for the relevance tool.
#[derive(Debug, Clone, Default)]
pub struct RelevanceToolCallOptions {
    pub user_message_text_prefix: Option<String>,
    pub include_images: Option<bool>,
    pub tool_description: String,
    pub high_description: Option<String>,
    pub medium_description: Option<String>,
    pub low_description: Option<String>,
}

/// Descriptions given to the language model for the price tool.
#[derive(Debug, Clone, Default)]
pub struct PriceToolCallOptions {
    pub tool_description: String,
    pub min_price_description: Option<String>,
    pub max_price_description: Option<String>,
}

/// How a public page names its dataset.
pub enum DatasetRef {
    /// By id: the path was a UUID.
    Id(u128),
    /// By tracking id: the path was anything else.
    TrackingId(String),
}

/// Reads the dataset named in a public page's path: by id when the text
/// parses as a UUID, else by tracking id.
pub fn public_page_dataset(path: String) -> (r: DatasetRef)
    ensures
        match parsed_uuid(path@) {
            Some(id) => r == DatasetRef::Id(id),
            None => r matches DatasetRef::TrackingId(t) && t@ == path@,
        },
{
    match parse_uuid(path.as_str()) {
        Some(id) => DatasetRef::Id(id),
        None => DatasetRef::TrackingId(path),
    }
}

/// Where the search component of a public page is loaded from.
pub open spec fn search_component_url_spec(is_test_mode: bool, use_local: bool, configured: Option<Seq<char>>) -> Seq<char> {
    if is_test_mode {
        "https://cdn.trieve.ai/beta/search-component"@
    } else if use_local {
        "http://localhost:8000/dist"@
    } else {
        match configured {
            Some(u) => u,
            None => "https://search-component.trieve.ai/dist"@,
        }
    }
}

/// Where the search component of a public page is loaded from: the beta
/// build in test mode, a local build when asked for, else the configured
/// location or the published build.
pub fn search_component_url(is_test_mode: bool, use_local: bool, configured: Option<&str>) -> (u: String)
    ensures
        u@ == search_component_url_spec(is_test_mode, use_local, match configured {
            Some(c) => Some(c@),
            None => None,
        }),
{
    broadcast use vstd::string::group_string_axioms;
    if is_test_mode {
        "https://cdn.trieve.ai/beta/search-component".to_string()
    } else if use_local {
        "http://localhost:8000/dist".to_string()
    } else {
        match configured {
            Some(c) => c.to_string(),
            None => "https://search-component.trieve.ai/dist".to_string(),
        }
    }
}

/// Address of the dashboard linked from a public page: the configured one,
/// else the hosted dashboard.
pub fn dashboard_url(configured: Option<&str>) -> (u: String)
    ensures
        configured matches Some(c) ==> u@ == c@,
        configured is None ==> u@ == "https://dashboard.trieve.ai"@,
{
    broadcast use vstd::string::group_string_axioms;
    match configured {
        Some(c) => c.to_string(),
        None => "https://dashboard.trieve.ai".to_string(),
    }
}

/// Style of the page body when the hero pattern has an image:
/// `background-image: url('<image>')`.
pub fn hero_body_style(pattern_svg: Option<&str>) -> (s: Option<String>)
    ensures
        pattern_svg is None ==> s is None,
        pattern_svg matches Some(url) ==> (s matches Some(t) && t@ == "background-image: url('"@ + url@ + "')"@),
{
    match pattern_svg {
        Some(url) => {
            let head = concat_strs("background-image: url('", url);
            Some(concat_strs(head.as_str(), "')"))
        },
        None => None,
    }
}

/// Background of the page when the hero pattern has a color:
/// `background-color: <color>`.
pub fn hero_background_color(color: Option<&str>) -> (s: Option<String>)
    ensures
        color is None ==> s is None,
        color matches Some(c) ==> (s matches Some(t) && t@ == "background-color: "@ + c@),
{
    match color {
        Some(c) => Some(concat_strs("background-color: ", c)),
        None => None,
    }
}

} // verus!
