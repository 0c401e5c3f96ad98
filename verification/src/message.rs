use vstd::prelude::*;
use crate::errors::{ServiceError, bad_request, fails_bad_request};
use crate::chunk::opt_view;

verus! {

/// Queries suggested to the user.
#[derive(Debug, Clone)]
pub struct SuggestedQueriesResponse {
    pub queries: Vec<String>,
}

/// JSON type of a tool-function parameter.
#[derive(Debug, Clone, Copy, PartialEq, Eq)]
pub enum ToolFunctionParameterType {
    Number,
    Boolean,
}

/// Name under which a parameter type is written in a JSON schema.
pub fn parameter_type_name(t: ToolFunctionParameterType) -> (s: &'static str)
    ensures
        t == ToolFunctionParameterType::Number ==> s@ == "number"@,
        t == ToolFunctionParameterType::Boolean ==> s@ == "boolean"@,
{
    match t {
        ToolFunctionParameterType::Number => "number",
        ToolFunctionParameterType::Boolean => "boolean",
    }
}

/// One parameter of a tool function.
#[derive(Debug, Clone)]
pub struct ToolFunctionParameter {
    pub name: String,
    pub parameter_type: ToolFunctionParameterType,
    pub description: String,
}

/// A function the model may call, with its parameters.
#[derive(Debug, Clone)]
pub struct ToolFunction {
    pub name: String,
    pub description: String,
    pub parameters: Vec<ToolFunctionParameter>,
}

/// Request for the parameters the model would call a tool function with.
#[derive(Debug, Clone)]
pub struct GetToolFunctionParamsReqPayload {
    pub user_message_text: Option<String>,
    pub image_url: Option<String>,
    pub image_urls: Option<Vec<String>>,
    pub audio_input: Option<String>,
    pub tool_function: ToolFunction,
    pub model: Option<String>,
}

/// Refuses a tool function unless it has fewer than 50 parameters.
pub fn check_tool_parameter_count(count: usize) -> (r: Result<(), ServiceError>)
    ensures
        r is Ok <==> count < 50,
        r is Err ==> fails_bad_request(
            r,
            "The number of parameters for the tool function must be less than 50"@,
        ),
{
    if count >= 50 {
        return Err(bad_request("The number of parameters for the tool function must be less than 50"));
    }
    Ok(())
}

/// Text of a new message, or the text a tool-function call is decided on:
/// the transcript of the audio input when there is one, else the user's
/// text, which is then required.
pub fn tool_message_text(transcript: Option<String>, user_message_text: Option<String>) -> (r: Result<String, ServiceError>)
    ensures
        transcript matches Some(t) ==> (r matches Ok(m) && m@ == t@),
        transcript is None && user_message_text is Some ==> (r matches Ok(m) && Some(m@) == opt_view(user_message_text)),
        transcript is None && user_message_text is None ==> fails_bad_request(
            r,
            "No message content provided. Must provide either a audio or text input"@,
        ),
{
    match transcript {
        Some(t) => Ok(t),
        None => match user_message_text {
            Some(m) => Ok(m),
            None => Err(bad_request("No message content provided. Must provide either a audio or text input")),
        },
    }
}

/// One part of a user message.
#[derive(Debug, Clone, PartialEq, Eq)]
pub enum ContentPart {
    Text(String),
    ImageUrl(String),
}

/// The text view of a content part.
pub open spec fn part_view(p: ContentPart) -> (bool, Seq<char>) {
    match p {
        ContentPart::Text(t) => (true, t@),
        ContentPart::ImageUrl(u) => (false, u@),
    }
}

/// Parts of the message a tool-function call is decided on: each image is put
/// in front of what is there, so the list of image URLs comes out reversed,
/// then the single image URL, then the text.
pub open spec fn tool_parts_spec(text: Seq<char>, image_url: Option<Seq<char>>, image_urls: Seq<Seq<char>>) -> Seq<(bool, Seq<char>)> {
    image_urls.reverse().map_values(|u: Seq<char>| (false, u)) + (match image_url {
        Some(u) => seq![(false, u)],
        None => Seq::empty(),
    }) + seq![(true, text)]
}

/// The texts of an optional list of strings (empty when there is none).
pub open spec fn strings_view(o: Option<Vec<String>>) -> Seq<Seq<char>> {
    match o {
        Some(v) => v@.map_values(|s: String| s@),
        None => Seq::empty(),
    }
}

/// The parts of the tool-function message, in the order they are sent.
pub fn tool_content_parts(text: String, image_url: Option<String>, image_urls: Option<Vec<String>>) -> (r: Vec<ContentPart>)
    ensures
        r@.map_values(|p: ContentPart| part_view(p)) == tool_parts_spec(
            text@,
            opt_view(image_url),
            strings_view(image_urls),
        ),
{
    let ghost t = text@;
    let ghost iu = opt_view(image_url);
    let ghost us: Seq<Seq<char>> = strings_view(image_urls);
    let mut r: Vec<ContentPart> = Vec::new();
    match image_urls {
        Some(v) => {
            let mut i = v.len();
            while i > 0
                invariant
                    i <= v@.len(),
                    us == v@.map_values(|s: String| s@),
                    r@.map_values(|p: ContentPart| part_view(p)) == us.subrange(i as int, us.len() as int).reverse().map_values(|u: Seq<char>| (false, u)),
                decreases i,
            {
                i = i - 1;
                let ghost before = r@;
                r.push(ContentPart::ImageUrl(v[i].clone()));
                assert(us[i as int] == v@[i as int]@);
                assert(us.subrange(i as int, us.len() as int).reverse() =~= us.subrange(i + 1, us.len() as int).reverse().push(us[i as int]));
                assert(r@.map_values(|p: ContentPart| part_view(p)) =~= before.map_values(|p: ContentPart| part_view(p)).push((false, us[i as int])));
                assert(r@.map_values(|p: ContentPart| part_view(p)) =~= us.subrange(i as int, us.len() as int).reverse().map_values(|u: Seq<char>| (false, u)));
            }
            assert(us.subrange(0, us.len() as int) =~= us);
        },
        None => {
            assert(r@.map_values(|p: ContentPart| part_view(p)) =~= us.reverse().map_values(|u: Seq<char>| (false, u)));
        },
    }
    let ghost mid = r@.map_values(|p: ContentPart| part_view(p));
    match image_url {
        Some(u) => {
            r.push(ContentPart::ImageUrl(u));
            assert(r@.map_values(|p: ContentPart| part_view(p)) =~= mid + seq![(false, iu.unwrap())]);
        },
        None => {
            assert(mid + Seq::<(bool, Seq<char>)>::empty() =~= mid);
        },
    }
    let ghost mid2 = r@.map_values(|p: ContentPart| part_view(p));
    r.push(ContentPart::Text(text));
    assert(r@.map_values(|p: ContentPart| part_view(p)) =~= mid2 + seq![(true, t)]);
    r
}

/// Whether the parameter at position `i` is the last with its name: the one
/// whose type and description a JSON object keyed by name keeps.
pub open spec fn last_with_name(names: Seq<Seq<char>>, i: int) -> bool {
    forall|k: int| i < k < names.len() ==> names[k] != #[trigger] names[i]
}

/// Positions of the parameters that make up the `properties` object of the
/// tool schema: for each name, its last parameter, in the order of the list.
pub fn schema_property_positions(params: &Vec<ToolFunctionParameter>) -> (r: Vec<usize>)
    ensures
        r@ == crate::chunk::positions(params@.len()).filter(|i: usize| last_with_name(params@.map_values(|p: ToolFunctionParameter| p.name@), i as int)),
{
    let ghost names = params@.map_values(|p: ToolFunctionParameter| p.name@);
    let mut r: Vec<usize> = Vec::new();
    let mut i: usize = 0;
    while i < params.len()
        invariant
            i <= params@.len(),
            names == params@.map_values(|p: ToolFunctionParameter| p.name@),
            r@ == crate::chunk::positions(i as nat).filter(|k: usize| last_with_name(names, k as int)),
        decreases params.len() - i,
    {
        proof {
            reveal_with_fuel(Seq::<_>::filter, 1);
            assert(crate::chunk::positions((i + 1) as nat).drop_last() =~= crate::chunk::positions(i as nat));
            assert(crate::chunk::positions((i + 1) as nat).last() == i);
        }
        let name_i = crate::text::to_chars(params[i].name.as_str());
        let mut later = false;
        let mut k = i + 1;
        while k < params.len()
            invariant
                i < k <= params@.len(),
                names == params@.map_values(|p: ToolFunctionParameter| p.name@),
                name_i@ == names[i as int],
                later == exists|m: int| i < m < k && names[m] == names[i as int],
            decreases params.len() - k,
        {
            let name_k = crate::text::to_chars(params[k].name.as_str());
            assert(names[k as int] == params@[k as int].name@);
            if crate::text::chars_equal(&name_i, &name_k) {
                later = true;
            }
            k = k + 1;
        }
        if !later {
            r.push(i);
        }
        i = i + 1;
    }
    assert(crate::chunk::positions(params@.len()) =~= crate::chunk::positions(i as nat));
    r
}

/// Names listed as required by the tool schema: every parameter's, in order.
pub fn schema_required_names(params: &Vec<ToolFunctionParameter>) -> (r: Vec<String>)
    ensures
        r@.len() == params@.len(),
        forall|k: int| 0 <= k < r@.len() ==> #[trigger] r@[k]@ == params@[k].name@,
{
    let mut r: Vec<String> = Vec::new();
    let mut i: usize = 0;
    while i < params.len()
        invariant
            i <= params@.len(),
            r@.len() == i,
            forall|k: int| 0 <= k < r@.len() ==> #[trigger] r@[k]@ == params@[k].name@,
        decreases params.len() - i,
    {
        r.push(params[i].name.clone());
        i = i + 1;
    }
    r
}

/// The model a tool-function call uses: the requested one, else the dataset's
/// default.
pub fn tool_model(requested: Option<String>, default_model: String) -> (m: String)
    ensures
        requested matches Some(r) ==> m@ == r@,
        requested is None ==> m@ == default_model@,
{
    match requested {
        Some(r) => r,
        None => default_model,
    }
}

/// Quality of an edited image.
#[derive(Debug, Clone, Copy, PartialEq, Eq)]
pub enum InputImageQuality {
    Low,
    Medium,
    High,
}

impl Default for InputImageQuality {
    fn default() -> (r: Self)
        ensures
            r == InputImageQuality::Low,
    {
        InputImageQuality::Low
    }
}

/// Size of an edited image.
#[derive(Debug, Clone, Copy, PartialEq, Eq)]
pub enum InputImageSize {
    Size1024X1024,
    Size1024x1536,
    Size1536x1024,
}

impl Default for InputImageSize {
    fn default() -> (r: Self)
        ensures
            r == InputImageSize::Size1024X1024,
    {
        InputImageSize::Size1024X1024
    }
}

/// Where an input image comes from: inline base64 text or a URL.
#[derive(Debug, Clone)]
pub enum ImageSourceType {
    Base64(String),
    Url(String),
}

/// An input image and the file name to give it.
#[derive(Debug, Clone)]
pub struct ImageUpload {
    pub image_src: ImageSourceType,
    pub file_name: String,
}

/// Request to edit images with a prompt.
#[derive(Debug, Clone)]
pub struct EditImageReqPayload {
    pub input_images: Vec<ImageUpload>,
    pub prompt: String,
    pub n: Option<u32>,
    pub size: Option<InputImageSize>,
    pub quality: Option<InputImageQuality>,
    pub mime_type: Option<String>,
}

/// URLs of the edited images.
#[derive(Debug, Clone)]
pub struct ImageEditResponse {
    pub image_urls: Vec<String>,
}

/// One edited image, base64-encoded.
#[derive(Debug, Clone)]
pub struct ImageResponseData {
    pub b64_json: String,
}

/// Settings of an image edit after defaults are applied.
#[derive(Debug, Clone)]
pub struct EditImageSettings {
    pub quality: InputImageQuality,
    pub size: InputImageSize,
    pub mime_type: String,
    pub n: u32,
}

/// Refuses image editing unless the dataset's model server is OpenAI's, and
/// fills in the defaults: low quality, 1024x1024, `image/png`, one image.
pub fn edit_image_settings(base_url: &str, req: &EditImageReqPayload) -> (r: Result<EditImageSettings, ServiceError>)
    ensures
        !crate::text::has_substring(base_url@, "openai.com"@) ==> fails_bad_request(
            r,
            "Only OpenAI is supported for image editing. Change the base URL to access image editing features."@,
        ),
        crate::text::has_substring(base_url@, "openai.com"@) ==> (r matches Ok(s) && {
            &&& s.quality == match req.quality { Some(q) => q, None => InputImageQuality::Low }
            &&& s.size == match req.size { Some(z) => z, None => InputImageSize::Size1024X1024 }
            &&& s.mime_type@ == match opt_view(req.mime_type) { Some(m) => m, None => "image/png"@ }
            &&& s.n == match req.n { Some(n) => n, None => 1u32 }
        }),
{
    broadcast use vstd::string::group_string_axioms;
    if !crate::text::str_contains(base_url, "openai.com") {
        return Err(bad_request(
            "Only OpenAI is supported for image editing. Change the base URL to access image editing features.",
        ));
    }
    let quality = match req.quality {
        Some(q) => q,
        None => InputImageQuality::default(),
    };
    let size = match req.size {
        Some(z) => z,
        None => InputImageSize::default(),
    };
    let mime_type = match &req.mime_type {
        Some(m) => m.clone(),
        None => "image/png".to_string(),
    };
    let n = match req.n {
        Some(n) => n,
        None => 1,
    };
    Ok(EditImageSettings { quality, size, mime_type, n })
}

/// Bytes of an inline base64 image; an image given by URL is fetched by the
/// caller instead, and `None` is answered for it.
pub fn inline_image_bytes(src: &ImageSourceType) -> (r: Option<Result<Vec<u8>, ServiceError>>)
    ensures
        src is Url ==> r is None,
        src matches ImageSourceType::Base64(b) ==> (r matches Some(x) && match crate::codec::base64_standard_decoded(vstd::utf8::encode_utf8(b@)) {
            Some(bytes) => x matches Ok(v) && v@ == bytes,
            None => fails_bad_request(x, "Invalid base64 string"@),
        }),
{
    match src {
        ImageSourceType::Base64(b) => Some(crate::codec::decode_base64_image(b.as_str())),
        ImageSourceType::Url(_) => None,
    }
}

/// What the completion checks read of the language-model options of a
/// request: whether each sampling value given lies in its range, and how
/// many stop tokens are given.
pub struct LlmOptionChecks {
    /// Whether the temperature given lies in [0, 2]; `None` when none is given.
    pub temperature_in_range: Option<bool>,
    /// Whether the frequency penalty given lies in [-2, 2].
    pub frequency_penalty_in_range: Option<bool>,
    /// Whether the presence penalty given lies in [-2, 2].
    pub presence_penalty_in_range: Option<bool>,
    /// Number of stop tokens given.
    pub stop_token_count: Option<usize>,
}

/// Refuses language-model options out of range, checking in turn the
/// temperature, the frequency penalty, the presence penalty and the number
/// of stop tokens (at most 4); a request without options passes.
pub fn check_completion_param_validity(llm_options: Option<LlmOptionChecks>) -> (r: Result<(), ServiceError>)
    ensures
        llm_options is None ==> r is Ok,
        llm_options matches Some(o) ==> {
            if o.temperature_in_range == Some(false) {
                fails_bad_request(r, "Temperature must be between 0 and 2"@)
            } else if o.frequency_penalty_in_range == Some(false) {
                fails_bad_request(r, "Frequency penalty must be between -2.0 and 2.0"@)
            } else if o.presence_penalty_in_range == Some(false) {
                fails_bad_request(r, "Presence penalty must be between -2.0 and 2.0"@)
            } else if o.stop_token_count matches Some(n) && n > 4 {
                fails_bad_request(r, "Stop tokens must be less than or equal to 4"@)
            } else {
                r is Ok
            }
        },
{
    match llm_options {
        None => Ok(()),
        Some(o) => {
            if let Some(false) = o.temperature_in_range {
                return Err(bad_request("Temperature must be between 0 and 2"));
            }
            if let Some(false) = o.frequency_penalty_in_range {
                return Err(bad_request("Frequency penalty must be between -2.0 and 2.0"));
            }
            if let Some(false) = o.presence_penalty_in_range {
                return Err(bad_request("Presence penalty must be between -2.0 and 2.0"));
            }
            if let Some(n) = o.stop_token_count {
                if n > 4 {
                    return Err(bad_request("Stop tokens must be less than or equal to 4"));
                }
            }
            Ok(())
        },
    }
}

/// Whether an organization has used up the message completions of its
/// plan, which then asks for an upgrade.
pub fn message_limit_reached(org_message_count: i64, plan_message_count: i64) -> (b: bool)
    ensures
        b == (org_message_count >= plan_message_count),
{
    org_message_count >= plan_message_count
}

/// The `X-TR-Query` header of a tool-function answer: the transcribed text
/// without its ASCII control characters, sent only when the request gave
/// audio.
pub fn query_header(audio_given: bool, message_content: &str) -> (h: Option<String>)
    ensures
        !audio_given ==> h is None,
        audio_given ==> (h matches Some(v) && v@ == crate::text::strip_ascii_control(message_content@)),
{
    if audio_given {
        let cleaned = crate::text::remove_ascii_control(&crate::text::to_chars(message_content));
        Some(crate::text::string_from_chars(&cleaned))
    } else {
        None
    }
}

/// The first choice of a completion; a completion without one is refused.
pub fn first_choice<T>(choices: Vec<T>) -> (r: Result<T, ServiceError>)
    ensures
        choices@.len() > 0 ==> r == Ok::<T, ServiceError>(choices@[0]),
        choices@.len() == 0 ==> fails_bad_request(r, "No first message in choices on call to LLM"@),
{
    if choices.len() == 0 {
        return Err(bad_request("No first message in choices on call to LLM"));
    }
    let mut v = choices;
    Ok(v.remove(0))
}

/// A property of a tool's parameter schema: name, JSON type and description.
pub struct SchemaProperty {
    pub name: String,
    pub parameter_type: &'static str,
    pub description: String,
}

/// The function tool offered to the model: its name and description, and
/// its parameter schema (an object with these properties, all required).
pub struct ToolDefinition {
    pub name: String,
    pub description: String,
    /// The `properties` object, one entry per parameter name.
    pub properties: Vec<SchemaProperty>,
    /// The `required` list.
    pub required: Vec<String>,
}

/// The positions of the parameters that make up the schema's properties.
pub open spec fn property_positions(params: Seq<ToolFunctionParameter>) -> Seq<usize> {
    crate::chunk::positions(params.len()).filter(|i: usize| last_with_name(params.map_values(|p: ToolFunctionParameter| p.name@), i as int))
}

/// The JSON type name of a parameter type.
pub open spec fn parameter_type_text(t: ToolFunctionParameterType) -> Seq<char> {
    match t {
        ToolFunctionParameterType::Number => "number"@,
        ToolFunctionParameterType::Boolean => "boolean"@,
    }
}

/// The tool offered to the model for a tool-function request: named and
/// described as the request's function; each parameter name becomes a
/// property with its type and description (a name given twice keeps its last
/// parameter, as a JSON object keyed by name does); every parameter name,
/// in order, is required.
pub fn tool_definition(f: &ToolFunction) -> (t: ToolDefinition)
    ensures
        t.name@ == f.name@,
        t.description@ == f.description@,
        t.properties@.len() == property_positions(f.parameters@).len(),
        forall|k: int| 0 <= k < t.properties@.len() ==> {
            let p = f.parameters@[property_positions(f.parameters@)[k] as int];
            &&& (#[trigger] t.properties@[k]).name@ == p.name@
            &&& t.properties@[k].parameter_type@ == parameter_type_text(p.parameter_type)
            &&& t.properties@[k].description@ == p.description@
        },
        t.required@.len() == f.parameters@.len(),
        forall|k: int| 0 <= k < t.required@.len() ==> #[trigger] t.required@[k]@ == f.parameters@[k].name@,
{
    let positions = schema_property_positions(&f.parameters);
    assert(f.parameters@.len() == f.parameters.len());
    proof {
        crate::chunk::lemma_filter_positions(f.parameters@.len(), |i: usize| last_with_name(f.parameters@.map_values(|p: ToolFunctionParameter| p.name@), i as int));
    }
    let mut properties: Vec<SchemaProperty> = Vec::new();
    let mut k: usize = 0;
    while k < positions.len()
        invariant
            k <= positions@.len(),
            positions@ == property_positions(f.parameters@),
            forall|j: int| 0 <= j < positions@.len() ==> (#[trigger] positions@[j]) < f.parameters@.len(),
            properties@.len() == k,
            forall|j: int| 0 <= j < k ==> {
                let p = f.parameters@[positions@[j] as int];
                &&& (#[trigger] properties@[j]).name@ == p.name@
                &&& properties@[j].parameter_type@ == parameter_type_text(p.parameter_type)
                &&& properties@[j].description@ == p.description@
            },
        decreases positions.len() - k,
    {
        let p = &f.parameters[positions[k]];
        proof {
            reveal_strlit("number");
            reveal_strlit("boolean");
        }
        let ty = parameter_type_name(p.parameter_type);
        assert(ty@ == parameter_type_text(p.parameter_type));
        properties.push(SchemaProperty { name: p.name.clone(), parameter_type: ty, description: p.description.clone() });
        k = k + 1;
    }
    let required = schema_required_names(&f.parameters);
    ToolDefinition { name: f.name.clone(), description: f.description.clone(), properties, required }
}

/// Request for suggested queries; `M` is the search method, `T` the kind of
/// suggestion and `F` the filter.
pub struct SuggestedQueriesReqPayload<M, T, F> {
    pub suggestions_to_create: Option<usize>,
    pub query: Option<String>,
    pub search_type: Option<M>,
    pub suggestion_type: Option<T>,
    pub context: Option<String>,
    pub filters: Option<F>,
    pub is_followup: Option<bool>,
}

} // verus!
