use vstd::prelude::*;
use crate::errors::{ServiceError, bad_request, fails_bad_request};
use crate::text::{to_chars, string_from_chars, slice_chars, has_substring, contains_chars};

verus! {

/// Default number of words per chunk.
pub fn default_target_length() -> (n: u32)
    ensures
        n == 512,
{
    512
}

/// By default headers and footers are left out of chunks.
pub fn default_ignore_headers_and_footers() -> (b: bool)
    ensures
        b,
{
    true
}

/// Content source that goes into a chunk's embedded text.
#[derive(Debug, Clone, Copy, PartialEq, Eq)]
pub enum EmbedSource {
    HTML,
    Markdown,
    LLM,
    Content,
}

/// By default only the Markdown of a segment is embedded.
pub fn default_embed_sources() -> (v: Vec<EmbedSource>)
    ensures
        v@ == seq![EmbedSource::Markdown],
{
    let mut v: Vec<EmbedSource> = Vec::new();
    v.push(EmbedSource::Markdown);
    assert(v@ =~= seq![EmbedSource::Markdown]);
    v
}

/// Whether the images of an item are cropped: always (`All`) or only when
/// post-processing needs them (`Auto`).
#[derive(Debug, Clone, Copy, PartialEq, Eq)]
pub enum CroppingStrategy {
    All,
    Auto,
}

impl Default for CroppingStrategy {
    fn default() -> (r: Self)
        ensures
            r == CroppingStrategy::Auto,
    {
        CroppingStrategy::Auto
    }
}

/// Cropping strategy for pictures.
#[derive(Debug, Clone, Copy, PartialEq, Eq)]
pub enum PictureCroppingStrategy {
    All,
    Auto,
}

impl Default for PictureCroppingStrategy {
    fn default() -> (r: Self)
        ensures
            r == PictureCroppingStrategy::All,
    {
        PictureCroppingStrategy::All
    }
}

/// How HTML and Markdown are produced for a segment: by a model (`LLM`) or
/// by heuristics (`Auto`).
#[derive(Debug, Clone, Copy, PartialEq, Eq)]
pub enum GenerationStrategy {
    LLM,
    Auto,
}

/// Cropping used when a configuration leaves it out.
pub fn default_cropping_strategy() -> (r: CroppingStrategy)
    ensures
        r == CroppingStrategy::Auto,
{
    CroppingStrategy::Auto
}

/// Picture cropping used when a configuration leaves it out.
pub fn default_picture_cropping_strategy() -> (r: PictureCroppingStrategy)
    ensures
        r == PictureCroppingStrategy::All,
{
    PictureCroppingStrategy::All
}

/// Generation strategy used by heuristic segment configurations.
pub fn default_auto_generation_strategy() -> (r: GenerationStrategy)
    ensures
        r == GenerationStrategy::Auto,
{
    GenerationStrategy::Auto
}

/// Generation strategy used by model-driven segment configurations.
pub fn default_llm_generation_strategy() -> (r: GenerationStrategy)
    ensures
        r == GenerationStrategy::LLM,
{
    GenerationStrategy::LLM
}

/// Processing of a segment type whose output is produced by heuristics.
#[derive(Debug, Clone)]
pub struct AutoGenerationConfig {
    pub crop_image: CroppingStrategy,
    pub html: GenerationStrategy,
    pub llm: Option<String>,
    pub markdown: GenerationStrategy,
    pub embed_sources: Vec<EmbedSource>,
}

impl Default for AutoGenerationConfig {
    fn default() -> (r: Self)
        ensures
            r.html == GenerationStrategy::Auto,
            r.llm is None,
            r.markdown == GenerationStrategy::Auto,
            r.crop_image == CroppingStrategy::Auto,
            r.embed_sources@ == seq![EmbedSource::Markdown],
    {
        AutoGenerationConfig {
            html: GenerationStrategy::Auto,
            llm: None,
            markdown: GenerationStrategy::Auto,
            crop_image: default_cropping_strategy(),
            embed_sources: default_embed_sources(),
        }
    }
}

/// Processing of a segment type whose output is produced by a model.
#[derive(Debug, Clone)]
pub struct LlmGenerationConfig {
    pub crop_image: CroppingStrategy,
    pub html: GenerationStrategy,
    pub llm: Option<String>,
    pub markdown: GenerationStrategy,
    pub embed_sources: Vec<EmbedSource>,
}

impl Default for LlmGenerationConfig {
    fn default() -> (r: Self)
        ensures
            r.html == GenerationStrategy::LLM,
            r.llm is None,
            r.markdown == GenerationStrategy::LLM,
            r.crop_image == CroppingStrategy::Auto,
            r.embed_sources@ == seq![EmbedSource::Markdown],
    {
        LlmGenerationConfig {
            html: GenerationStrategy::LLM,
            llm: None,
            markdown: GenerationStrategy::LLM,
            crop_image: default_cropping_strategy(),
            embed_sources: default_embed_sources(),
        }
    }
}

/// Processing of pictures.
#[derive(Debug, Clone)]
pub struct PictureGenerationConfig {
    pub crop_image: PictureCroppingStrategy,
    pub html: GenerationStrategy,
    pub llm: Option<String>,
    pub markdown: GenerationStrategy,
    pub embed_sources: Vec<EmbedSource>,
}

impl Default for PictureGenerationConfig {
    fn default() -> (r: Self)
        ensures
            r.html == GenerationStrategy::LLM,
            r.llm is None,
            r.markdown == GenerationStrategy::LLM,
            r.crop_image == PictureCroppingStrategy::All,
            r.embed_sources@ == seq![EmbedSource::Markdown],
    {
        PictureGenerationConfig {
            html: default_llm_generation_strategy(),
            llm: None,
            markdown: default_llm_generation_strategy(),
            crop_image: default_picture_cropping_strategy(),
            embed_sources: default_embed_sources(),
        }
    }
}

/// The heuristic defaults: Auto cropping and generation, Markdown embedded.
pub open spec fn is_default_auto(c: AutoGenerationConfig) -> bool {
    &&& c.html == GenerationStrategy::Auto
    &&& c.llm is None
    &&& c.markdown == GenerationStrategy::Auto
    &&& c.crop_image == CroppingStrategy::Auto
    &&& c.embed_sources@ == seq![EmbedSource::Markdown]
}

/// The model-driven defaults: Auto cropping, LLM generation, Markdown embedded.
pub open spec fn is_default_llm(c: LlmGenerationConfig) -> bool {
    &&& c.html == GenerationStrategy::LLM
    &&& c.llm is None
    &&& c.markdown == GenerationStrategy::LLM
    &&& c.crop_image == CroppingStrategy::Auto
    &&& c.embed_sources@ == seq![EmbedSource::Markdown]
}

/// The picture defaults: every picture cropped, HTML and Markdown generated
/// by the model, Markdown embedded.
pub open spec fn is_default_picture(c: PictureGenerationConfig) -> bool {
    &&& c.html == GenerationStrategy::LLM
    &&& c.llm is None
    &&& c.markdown == GenerationStrategy::LLM
    &&& c.crop_image == PictureCroppingStrategy::All
    &&& c.embed_sources@ == seq![EmbedSource::Markdown]
}

/// Post-processing of each segment type.
#[derive(Debug, Clone)]
pub struct SegmentProcessing {
    pub title: Option<AutoGenerationConfig>,
    pub section_header: Option<AutoGenerationConfig>,
    pub text: Option<AutoGenerationConfig>,
    pub list_item: Option<AutoGenerationConfig>,
    pub table: Option<LlmGenerationConfig>,
    pub picture: Option<PictureGenerationConfig>,
    pub caption: Option<AutoGenerationConfig>,
    pub formula: Option<LlmGenerationConfig>,
    pub footnote: Option<AutoGenerationConfig>,
    pub page_header: Option<AutoGenerationConfig>,
    pub page_footer: Option<AutoGenerationConfig>,
    pub page: Option<LlmGenerationConfig>,
}

impl Default for SegmentProcessing {
    /// Every segment type configured: tables, formulas and whole pages by a
    /// model, pictures with the picture defaults, the rest by heuristics.
    fn default() -> (r: Self)
        ensures
            r.title matches Some(c) && is_default_auto(c),
            r.section_header matches Some(c) && is_default_auto(c),
            r.text matches Some(c) && is_default_auto(c),
            r.list_item matches Some(c) && is_default_auto(c),
            r.table matches Some(c) && is_default_llm(c),
            r.picture matches Some(c) && is_default_picture(c),
            r.caption matches Some(c) && is_default_auto(c),
            r.formula matches Some(c) && is_default_llm(c),
            r.footnote matches Some(c) && is_default_auto(c),
            r.page_header matches Some(c) && is_default_auto(c),
            r.page_footer matches Some(c) && is_default_auto(c),
            r.page matches Some(c) && is_default_llm(c),
    {
        SegmentProcessing {
            title: Some(AutoGenerationConfig::default()),
            section_header: Some(AutoGenerationConfig::default()),
            text: Some(AutoGenerationConfig::default()),
            list_item: Some(AutoGenerationConfig::default()),
            table: Some(LlmGenerationConfig::default()),
            picture: Some(PictureGenerationConfig::default()),
            caption: Some(AutoGenerationConfig::default()),
            formula: Some(LlmGenerationConfig::default()),
            footnote: Some(AutoGenerationConfig::default()),
            page_header: Some(AutoGenerationConfig::default()),
            page_footer: Some(AutoGenerationConfig::default()),
            page: Some(LlmGenerationConfig::default()),
        }
    }
}

/// Predefined tokenizers.
#[derive(Debug, Clone, Copy, PartialEq, Eq)]
pub enum Tokenizer {
    Word,
    Cl100kBase,
    XlmRobertaBase,
    BertBaseUncased,
}

impl Default for Tokenizer {
    fn default() -> (r: Self)
        ensures
            r == Tokenizer::Word,
    {
        Tokenizer::Word
    }
}

/// Tokenizer for chunking: a predefined one, or any tokenizer named by its
/// model id.
#[derive(Debug, Clone)]
pub enum TokenizerType {
    Enum(Tokenizer),
    String(String),
}

impl Default for TokenizerType {
    fn default() -> (r: Self)
        ensures
            r matches TokenizerType::Enum(t) && t == Tokenizer::Word,
    {
        TokenizerType::Enum(Tokenizer::default())
    }
}

/// Chunking settings.
#[derive(Debug, Clone)]
pub struct ChunkProcessing {
    pub ignore_headers_and_footers: bool,
    pub target_length: u32,
    pub tokenizer: TokenizerType,
}

impl Default for ChunkProcessing {
    fn default() -> (r: Self)
        ensures
            r.ignore_headers_and_footers,
            r.target_length == 512,
            r.tokenizer matches TokenizerType::Enum(t) && t == Tokenizer::Word,
    {
        ChunkProcessing {
            ignore_headers_and_footers: default_ignore_headers_and_footers(),
            target_length: default_target_length(),
            tokenizer: TokenizerType::Enum(Tokenizer::default()),
        }
    }
}

/// Which pages go through optical character recognition.
#[derive(Debug, Clone, Copy, PartialEq, Eq)]
pub enum OcrStrategy {
    All,
    Auto,
}

impl Default for OcrStrategy {
    fn default() -> (r: Self)
        ensures
            r == OcrStrategy::All,
    {
        OcrStrategy::All
    }
}

/// How pages are divided into segments.
#[derive(Debug, Clone, Copy, PartialEq, Eq)]
pub enum SegmentationStrategy {
    LayoutAnalysis,
    Page,
}

impl Default for SegmentationStrategy {
    fn default() -> (r: Self)
        ensures
            r == SegmentationStrategy::LayoutAnalysis,
    {
        SegmentationStrategy::LayoutAnalysis
    }
}

/// Provider of the segmentation and recognition models.
#[derive(Debug, Clone, Copy, PartialEq, Eq)]
pub enum PipelineType {
    Azure,
    Chunkr,
}

impl Default for PipelineType {
    fn default() -> (r: Self)
        ensures
            r == PipelineType::Chunkr,
    {
        PipelineType::Chunkr
    }
}

/// Timing of document-processing jobs.
#[derive(Debug, Clone, Copy)]
pub struct JobConfig {
    pub task_timeout: u32,
    pub expiration_time: Option<i32>,
    pub job_interval: u64,
}

/// Seconds between job polls when none is configured.
pub fn default_job_interval() -> (n: u64)
    ensures
        n == 600,
{
    600
}

/// Seconds before a task times out when none is configured.
pub fn default_task_timeout() -> (n: u32)
    ensures
        n == 1800,
{
    1800
}

/// Options for processing a file with the document-processing service.
#[derive(Debug, Clone)]
pub struct CreateFormWithoutFile {
    pub chunk_processing: Option<ChunkProcessing>,
    pub expires_in: Option<i32>,
    pub high_resolution: Option<bool>,
    pub ocr_strategy: Option<OcrStrategy>,
    pub pipeline: Option<PipelineType>,
    pub segment_processing: Option<SegmentProcessing>,
    pub segmentation_strategy: Option<SegmentationStrategy>,
}

/// Options of the legacy vision-model conversion of a file to Markdown.
#[derive(Debug, Clone)]
pub struct Pdf2MdOptions {
    pub use_pdf2md_ocr: bool,
    pub system_prompt: Option<String>,
    pub split_headings: Option<bool>,
}

/// Query options of a signed file URL.
#[derive(Debug, Clone)]
pub struct FileSignedUrlOptions {
    pub content_type: Option<String>,
    pub ttl: Option<u32>,
}

/// A signed URL.
#[derive(Debug, Clone)]
pub struct GetImageResponse {
    pub signed_url: String,
}

} // verus!

verus! {

/// The part of `s` after its last `/` (all of `s` when it has none): the last
/// item of `s.split('/')`.
pub open spec fn last_path_segment(s: Seq<char>) -> Seq<char>
    decreases s.len(),
{
    if s.len() == 0 {
        s
    } else if s.last() == '/' {
        Seq::empty()
    } else {
        last_path_segment(s.drop_last()).push(s.last())
    }
}

proof fn lemma_last_path_segment(s: Seq<char>, j: int)
    requires
        0 <= j <= s.len(),
        forall|k: int| j <= k < s.len() ==> s[k] != '/',
        j > 0 ==> s[j - 1] == '/',
    ensures
        last_path_segment(s) == s.subrange(j, s.len() as int),
    decreases s.len(),
{
    if s.len() == 0 {
        assert(s.subrange(j, 0) =~= s);
    } else if j == s.len() {
        assert(s.subrange(j, s.len() as int) =~= Seq::<char>::empty());
    } else {
        let d = s.drop_last();
        assert forall|k: int| j <= k < d.len() implies d[k] != '/' by {
            assert(d[k] == s[k]);
        }
        if j > 0 {
            assert(d[j - 1] == s[j - 1]);
        }
        lemma_last_path_segment(d, j);
        assert(s.subrange(j, s.len() as int) =~= d.subrange(j, d.len() as int).push(s.last()));
    }
}

/// The segment after the last `/` never holds a `/`.
pub proof fn lemma_last_path_segment_no_slash(s: Seq<char>)
    ensures
        !last_path_segment(s).contains('/'),
    decreases s.len(),
{
    if s.len() > 0 && s.last() != '/' {
        lemma_last_path_segment_no_slash(s.drop_last());
        let p = last_path_segment(s.drop_last());
        assert forall|k: int| 0 <= k < p.push(s.last()).len() implies p.push(s.last())[k] != '/' by {
            if k < p.len() {
                assert(p.push(s.last())[k] == p[k]);
            }
        }
    }
}

/// File name of an upload: the part of `s` after its last `/`. A name that
/// holds `..` is refused with `Invalid file name`.
pub fn validate_file_name(s: String) -> (r: Result<String, ServiceError>)
    ensures
        has_substring(last_path_segment(s@), ".."@) ==> fails_bad_request(r, "Invalid file name"@),
        !has_substring(last_path_segment(s@), ".."@) ==> (r matches Ok(n) && n@ == last_path_segment(s@)),
        r matches Ok(n) ==> !n@.contains('/') && !has_substring(n@, ".."@),
{
    let cs = to_chars(s.as_str());
    let mut j = cs.len();
    while j > 0 && cs[j - 1] != '/'
        invariant
            j <= cs@.len(),
            forall|k: int| j <= k < cs@.len() ==> cs@[k] != '/',
        decreases j,
    {
        j = j - 1;
    }
    proof {
        lemma_last_path_segment(cs@, j as int);
        lemma_last_path_segment_no_slash(cs@);
    }
    let name = slice_chars(&cs, j, cs.len());
    let dots = to_chars("..");
    if contains_chars(&name, &dots) {
        return Err(bad_request("Invalid file name"));
    }
    Ok(string_from_chars(&name))
}

/// Refuses an upload that asks for both the vision-model Markdown conversion
/// and split averaging.
pub fn check_upload_options(pdf2md_options: &Option<Pdf2MdOptions>, split_avg: Option<bool>) -> (r: Result<(), ServiceError>)
    ensures
        r is Err <==> (pdf2md_options matches Some(o) && o.use_pdf2md_ocr && split_avg == Some(true)),
        r is Err ==> fails_bad_request(r, "split_avg is not supported with pdf2md"@),
{
    if let Some(o) = pdf2md_options {
        let avg = match split_avg {
            Some(b) => b,
            None => false,
        };
        if o.use_pdf2md_ocr && avg {
            return Err(bad_request("split_avg is not supported with pdf2md"));
        }
    }
    Ok(())
}

/// Refuses an upload once the organization's files take up as much storage
/// as its plan allows.
pub fn check_file_storage(file_size_sum: i64, plan_file_storage: i64) -> (r: Result<(), ServiceError>)
    ensures
        r is Ok <==> file_size_sum < plan_file_storage,
        r is Err ==> fails_bad_request(r, "File size limit reached"@),
{
    if file_size_sum >= plan_file_storage {
        return Err(bad_request("File size limit reached"));
    }
    Ok(())
}

/// Lifetime of a signed file URL in seconds: the one asked for, else one day.
pub fn signed_url_ttl(ttl: Option<u32>) -> (t: u32)
    ensures
        ttl matches Some(x) ==> t == x,
        ttl is None ==> t == 86400,
{
    match ttl {
        Some(x) => x,
        None => 86400,
    }
}

/// Refuses a request whose dataset header names another dataset than its
/// path.
pub fn check_dataset_header_matches(header_dataset_id: u128, path_dataset_id: u128) -> (r: Result<(), ServiceError>)
    ensures
        r is Ok <==> header_dataset_id == path_dataset_id,
        r is Err ==> fails_bad_request(r, "Dataset header does not match given path"@),
{
    if header_dataset_id != path_dataset_id {
        return Err(bad_request("Dataset header does not match given path"));
    }
    Ok(())
}

/// Refuses a crawl upload whose webhook secret is not the expected one.
pub fn check_webhook_secret(given: &str, expected: &str) -> (r: Result<(), ServiceError>)
    ensures
        r is Ok <==> given@ == expected@,
        r is Err ==> fails_bad_request(r, "Webhook secret does not match."@),
{
    let g = to_chars(given);
    let e = to_chars(expected);
    if !crate::text::chars_equal(&g, &e) {
        return Err(bad_request("Webhook secret does not match."));
    }
    Ok(())
}

/// Storage key of a file in the bucket: under `files/` when storage is
/// unlimited, else under the organization's id.
pub open spec fn signed_url_key(unlimited: bool, organization_id: u128, file_id: Seq<char>) -> Seq<char> {
    (if unlimited { "files"@ } else { crate::ids::hyphenated(organization_id) }) + "/"@ + file_id
}

/// Storage key under which a file is signed for download.
pub fn signed_url_object_key(unlimited: bool, organization_id: u128, file_id: &str) -> (k: String)
    ensures
        k@ == signed_url_key(unlimited, organization_id, file_id@),
{
    broadcast use vstd::string::group_string_axioms;
    let mut k = if unlimited {
        "files".to_string()
    } else {
        crate::ids::uuid_to_string(organization_id)
    };
    k.append("/");
    k.append(file_id);
    k
}

/// Whether a flag read as text means `true`, as `str::parse::<bool>`
/// followed by `unwrap_or(false)` reads it: only the exact text `true` does.
pub fn parse_flag(s: &str) -> (b: bool)
    ensures
        b == (s@ == "true"@),
{
    let cs = to_chars(s);
    let t = to_chars("true");
    crate::text::chars_equal(&cs, &t)
}

/// A value of the crawl document's metadata object, as far as the upload
/// reads it.
pub enum MetadataField {
    Text(String),
    /// A number, boolean, array, object or null.
    Other,
}

/// Whether no two entries share a key, as in the map they come from.
pub open spec fn unique_keys<V>(entries: Seq<(String, V)>) -> bool {
    forall|i: int, j: int| 0 <= i < j < entries.len() ==> #[trigger] entries[i].0@ != #[trigger] entries[j].0@
}

/// Position of the first entry with key `key`, if any.
pub open spec fn first_key_position<V>(entries: Seq<(String, V)>, key: Seq<char>) -> Option<int>
    decreases entries.len(),
{
    if entries.len() == 0 {
        None
    } else if entries[0].0@ == key {
        Some(0)
    } else {
        match first_key_position(entries.drop_first(), key) {
            Some(i) => Some(i + 1),
            None => None,
        }
    }
}

proof fn lemma_first_key_position_range<V>(entries: Seq<(String, V)>, key: Seq<char>)
    ensures
        first_key_position(entries, key) matches Some(i) ==> 0 <= i < entries.len() && entries[i].0@ == key,
    decreases entries.len(),
{
    if entries.len() > 0 {
        lemma_first_key_position_range(entries.drop_first(), key);
    }
}

/// Finds the entry with key `key` (keys are unique, as in the JSON object
/// they come from).
pub fn find_key<V>(entries: &Vec<(String, V)>, key: &str) -> (r: Option<usize>)
    ensures
        match first_key_position(entries@, key@) {
            Some(i) => r == Some(i as usize),
            None => r is None,
        },
        r matches Some(i) ==> i < entries@.len(),
{
    proof { lemma_first_key_position_range(entries@, key@); }
    let mut i: usize = 0;
    assert(entries@.skip(0) =~= entries@);
    while i < entries.len()
        invariant
            i <= entries@.len(),
            first_key_position(entries@, key@) == match first_key_position(entries@.skip(i as int), key@) {
                Some(k) => Some(k + i),
                None => None::<int>,
            },
        decreases entries.len() - i,
    {
        assert(entries@.skip(i as int)[0] == entries@[i as int]);
        if crate::text::str_eq(entries[i].0.as_str(), key) {
            return Some(i);
        }
        assert(entries@.skip(i as int).drop_first() =~= entries@.skip(i + 1));
        i = i + 1;
    }
    None
}

/// The dataset and webhook secret of a crawled page, read from its
/// metadata: a JSON object (`None` when the metadata is anything else) whose
/// `dataset_id` is a UUID string and whose `webhook_secret` is a string.
pub fn crawl_page_metadata(metadata: Option<Vec<(String, MetadataField)>>) -> (r: Result<(u128, String), ServiceError>)
    requires
        metadata matches Some(m) ==> unique_keys(m@),
    ensures
        metadata is None ==> fails_bad_request(r, "metadata field must be a JSON object"@),
        metadata matches Some(m) ==> match first_key_position(m@, "dataset_id"@) {
            None => fails_bad_request(r, "metadata field is required to specify dataset_id"@),
            Some(d) => match m@[d].1 {
                MetadataField::Other => fails_bad_request(r, "metadata field must have a valid dataset_id"@),
                MetadataField::Text(t) => match crate::ids::parsed_uuid(t@) {
                    None => fails_bad_request(r, "metadata field must have a valid dataset_id"@),
                    Some(id) => match first_key_position(m@, "webhook_secret"@) {
                        None => fails_bad_request(r, "metadata field is required to specify dataset_id"@),
                        Some(w) => match m@[w].1 {
                            MetadataField::Other => fails_bad_request(r, "metadata field must have a valid dataset_id"@),
                            MetadataField::Text(secret) => r matches Ok((i, s)) && i == id && s@ == secret@,
                        },
                    },
                },
            },
        },
{
    let m = match metadata {
        Some(m) => m,
        None => { return Err(bad_request("metadata field must be a JSON object")); },
    };
    proof {
        lemma_first_key_position_range(m@, "dataset_id"@);
        lemma_first_key_position_range(m@, "webhook_secret"@);
    }
    let d = match find_key(&m, "dataset_id") {
        Some(d) => d,
        None => { return Err(bad_request("metadata field is required to specify dataset_id")); },
    };
    assert(first_key_position(m@, "dataset_id"@) == Some(d as int));
    let dataset_id = match &m[d].1 {
        MetadataField::Text(t) => match crate::ids::parse_uuid(t.as_str()) {
            Some(id) => id,
            None => {
                assert(m@[d as int].1 matches MetadataField::Text(u) && u@ == t@);
                assert(crate::ids::parsed_uuid(t@) is None);
                return Err(bad_request("metadata field must have a valid dataset_id"));
            },
        },
        MetadataField::Other => {
            assert(m@[d as int].1 is Other);
            return Err(bad_request("metadata field must have a valid dataset_id"));
        },
    };
    let w = match find_key(&m, "webhook_secret") {
        Some(w) => w,
        None => { return Err(bad_request("metadata field is required to specify dataset_id")); },
    };
    match &m[w].1 {
        MetadataField::Text(secret) => Ok((dataset_id, secret.clone())),
        MetadataField::Other => Err(bad_request("metadata field must have a valid dataset_id")),
    }
}

/// Answer to a file upload: the stored file.
pub struct UploadFileResponseBody<F> {
    pub file_metadata: F,
}

/// Answer to a CSV or JSONL upload: the stored file and where to put its
/// content.
pub struct CreatePresignedUrlForCsvJsonResponseBody<F> {
    pub file_metadata: F,
    pub presigned_put_url: String,
}

/// A page of a dataset's files with their groups.
pub struct FileData<F> {
    pub file_and_group_ids: Vec<F>,
    pub total_pages: i64,
}

} // verus!
