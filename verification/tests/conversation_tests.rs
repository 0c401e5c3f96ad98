use trieve_handlers::rag::{retrieval_messages, ChatContent, ChatRole, ChatTurn, RetrievalChunk};
use trieve_handlers::message::{tool_definition, ToolFunction};
use trieve_handlers::codec::{decode_base64_image, decode_uploaded_file};
use trieve_handlers::errors::ServiceError;
use trieve_handlers::history::{
    first_rbar_piece, last_bar_piece, regeneration_content, regeneration_plan, strip_citations,
    text_after_last_close, visible_content, HistoryMessage, Regeneration,
};
use trieve_handlers::message::{
    check_completion_param_validity, check_tool_parameter_count, edit_image_settings,
    first_choice, inline_image_bytes, message_limit_reached, parameter_type_name, query_header,
    schema_property_positions, schema_required_names, tool_content_parts, tool_message_text,
    tool_model, ContentPart, EditImageReqPayload, ImageSourceType, InputImageQuality,
    InputImageSize, LlmOptionChecks, ToolFunctionParameter, ToolFunctionParameterType,
};
use trieve_handlers::query::{parse_query, parsed_query_from_captures};
use trieve_handlers::rag::{
    check_prior_messages, chunk_images, document_message, llm_api_key_source, llm_base_url,
    order_by_request, rag_user_message, split_last_message, stream_requested, user_image_parts,
    ContextOptions, ImageConfig, LlmApiKeySource,
};

fn bad(msg: &str) -> ServiceError {
    ServiceError::BadRequest(msg.to_string())
}

fn chars(s: &str) -> Vec<char> {
    s.chars().collect()
}

fn msg(id: u128, role: &str, content: &str) -> HistoryMessage {
    HistoryMessage { id, role: role.to_string(), content: content.to_string() }
}

#[test]
fn fetched_chunks_follow_request_order() {
    let requested = vec![30u128, 10, 20];
    let fetched = vec![10u128, 20, 30];
    assert_eq!(order_by_request(&requested, &fetched), vec![2, 0, 1]);
    let with_repeat = vec![20u128, 10, 20];
    assert_eq!(order_by_request(&vec![10, 20], &with_repeat), vec![1, 0, 2]);
}

#[test]
fn completion_setup_rules() {
    assert_eq!(check_prior_messages(0), Err(bad("There needs to be at least 1 prior message")));
    assert_eq!(check_prior_messages(1), Ok(()));
    assert_eq!(llm_base_url(String::new()), "https://openrouter.ai/api/v1");
    assert_eq!(llm_base_url("http://llm.local".to_string()), "http://llm.local");
    assert_eq!(llm_api_key_source("k".to_string(), "https://api.openai.com"), LlmApiKeySource::Configured("k".to_string()));
    assert_eq!(llm_api_key_source(String::new(), "https://api.openai.com/v1"), LlmApiKeySource::OpenAiSetting);
    assert_eq!(llm_api_key_source(String::new(), "https://openrouter.ai"), LlmApiKeySource::LlmSetting);
    assert!(stream_requested(None));
    assert!(!stream_requested(Some(false)));
    assert_eq!(rag_user_message("Use the docs:", "what is x?"), "Use the docs: what is x?");
}

#[test]
fn document_messages_show_links_on_request() {
    assert_eq!(document_message(0, None, Some("https://l"), "body"), "{'doc': 1, 'text': '', body}");
    assert_eq!(
        document_message(9, Some(ContextOptions { include_links: Some(true) }), Some("https://l"), "body"),
        "{'doc': 10, 'text': ''link': 'https://l'', body}"
    );
    assert_eq!(
        document_message(1, Some(ContextOptions { include_links: Some(true) }), None, "b"),
        "{'doc': 2, 'text': '', b}"
    );
}

#[test]
fn chunk_images_take_present_urls() {
    let urls = vec![Some("a".to_string()), None, Some("b".to_string()), Some("c".to_string())];
    let cfg = ImageConfig { use_images: Some(true), images_per_chunk: Some(2) };
    assert_eq!(chunk_images(Some(cfg), Some(urls.clone())), Some(vec!["a".to_string(), "b".to_string()]));
    let all = ImageConfig { use_images: Some(true), images_per_chunk: None };
    assert_eq!(chunk_images(Some(all), Some(urls.clone())), Some(vec!["a".to_string(), "b".to_string(), "c".to_string()]));
    assert_eq!(chunk_images(None, Some(urls.clone())), None);
    assert_eq!(chunk_images(Some(ImageConfig { use_images: Some(false), images_per_chunk: None }), Some(urls)), None);
}

#[test]
fn prior_messages_split_at_last() {
    let (rest, last) = split_last_message(vec!["a", "b", "c"]);
    assert_eq!(rest, vec!["a", "b"]);
    assert_eq!(last, "c");
    assert_eq!(user_image_parts(None), None);
    assert_eq!(user_image_parts(Some(vec![])), None);
    assert_eq!(
        user_image_parts(Some(vec!["u1".to_string(), "u2".to_string()])),
        Some(vec![
            ContentPart::ImageUrl("u1".to_string()),
            ContentPart::ImageUrl("u2".to_string()),
            ContentPart::Text("These are the images that the user provided with their query.".to_string()),
        ])
    );
}

#[test]
fn citation_pieces_follow_str_split() {
    for s in ["a||b||c", "a|||b", "||", "x", "", "|||", "[{q}]||answer||"] {
        let last = s.split("||").last().unwrap();
        assert_eq!(last_bar_piece(&chars(s)), chars(last));
        let first = s.rsplit("||").last().unwrap();
        assert_eq!(first_rbar_piece(&chars(s)), chars(first));
    }
    assert_eq!(text_after_last_close(&chars("||[{a}]x}]answer")), Some(chars("answer")));
    assert_eq!(text_after_last_close(&chars("no close")), None);
}

#[test]
fn stored_answers_are_read_back() {
    assert_eq!(visible_content("assistant", "[{\"id\":1}]||the answer"), "the answer");
    assert_eq!(visible_content("assistant", "the answer||[{\"a\":\"x||y\"}]"), "the answer");
    assert_eq!(visible_content("user", "[{kept}]||as is"), "[{kept}]||as is");
    assert_eq!(regeneration_content("assistant", "||[{\"id\":1}]the answer"), "the answer");
    assert_eq!(regeneration_content("assistant", "||[{no close"), "||[{no close");
    assert_eq!(regeneration_content("assistant", "[{c}]||ans"), "ans");
    let once = visible_content("assistant", "[{c}]||a|||b");
    assert_eq!(visible_content("assistant", &once), once);
}

#[test]
fn strip_citations_keeps_ids_and_roles() {
    let messages = vec![msg(1, "user", "hi||there"), msg(2, "assistant", "[{c}]||hello")];
    let stripped = strip_citations(&messages);
    assert_eq!(stripped.len(), 2);
    assert_eq!((stripped[0].id, stripped[0].role.as_str(), stripped[0].content.as_str()), (1, "user", "hi||there"));
    assert_eq!((stripped[1].id, stripped[1].role.as_str(), stripped[1].content.as_str()), (2, "assistant", "hello"));
}

#[test]
fn regeneration_plans() {
    assert!(matches!(regeneration_plan(&vec![msg(1, "system", "s")]), Err(e) if e == bad("Not enough messages to regenerate")));
    assert!(matches!(regeneration_plan(&vec![msg(1, "system", "s"), msg(2, "user", "u")]), Ok(Regeneration::Whole)));
    let no_assistant = vec![msg(1, "system", "s"), msg(2, "user", "u"), msg(3, "user", "v")];
    assert!(matches!(regeneration_plan(&no_assistant), Err(e) if e == bad("No message to regenerate")));
    let topic = vec![
        msg(1, "system", "s"),
        msg(2, "user", "q1"),
        msg(3, "assistant", "[{c}]||a1"),
        msg(4, "user", "q2"),
        msg(5, "assistant", "a2||[{c}]"),
    ];
    match regeneration_plan(&topic) {
        Ok(Regeneration::Replace { deleted, history }) => {
            assert_eq!(deleted, 5);
            let seen: Vec<(u128, String)> = history.iter().map(|m| (m.id, m.content.clone())).collect();
            assert_eq!(
                seen,
                vec![(1, "s".to_string()), (2, "q1".to_string()), (3, "a1".to_string()), (4, "q2".to_string())]
            );
        }
        _ => panic!("expected a replacement"),
    }
}

#[test]
fn tool_function_requests() {
    assert_eq!(parameter_type_name(ToolFunctionParameterType::Number), "number");
    assert_eq!(parameter_type_name(ToolFunctionParameterType::Boolean), "boolean");
    assert_eq!(check_tool_parameter_count(49), Ok(()));
    assert_eq!(
        check_tool_parameter_count(50),
        Err(bad("The number of parameters for the tool function must be less than 50"))
    );
    assert_eq!(tool_message_text(Some("spoken".to_string()), Some("typed".to_string())), Ok("spoken".to_string()));
    assert_eq!(tool_message_text(None, Some("typed".to_string())), Ok("typed".to_string()));
    assert_eq!(
        tool_message_text(None, None),
        Err(bad("No message content provided. Must provide either a audio or text input"))
    );
    assert_eq!(tool_model(None, "default".to_string()), "default");
    assert_eq!(tool_model(Some("m".to_string()), "default".to_string()), "m");
}

#[test]
fn tool_parts_and_schema() {
    let parts = tool_content_parts(
        "text".to_string(),
        Some("single".to_string()),
        Some(vec!["u1".to_string(), "u2".to_string()]),
    );
    assert_eq!(
        parts,
        vec![
            ContentPart::ImageUrl("u2".to_string()),
            ContentPart::ImageUrl("u1".to_string()),
            ContentPart::ImageUrl("single".to_string()),
            ContentPart::Text("text".to_string()),
        ]
    );
    let p = |n: &str| ToolFunctionParameter {
        name: n.to_string(),
        parameter_type: ToolFunctionParameterType::Boolean,
        description: String::new(),
    };
    let params = vec![p("a"), p("b"), p("a")];
    assert_eq!(schema_property_positions(&params), vec![1, 2]);
    assert_eq!(schema_required_names(&params), vec!["a".to_string(), "b".to_string(), "a".to_string()]);
}

#[test]
fn completion_parameter_checks_in_order() {
    assert_eq!(check_completion_param_validity(None), Ok(()));
    let opts = |t, f, p, s| Some(LlmOptionChecks {
        temperature_in_range: t,
        frequency_penalty_in_range: f,
        presence_penalty_in_range: p,
        stop_token_count: s,
    });
    assert_eq!(
        check_completion_param_validity(opts(Some(false), Some(false), None, Some(9))),
        Err(bad("Temperature must be between 0 and 2"))
    );
    assert_eq!(
        check_completion_param_validity(opts(Some(true), Some(false), Some(false), None)),
        Err(bad("Frequency penalty must be between -2.0 and 2.0"))
    );
    assert_eq!(
        check_completion_param_validity(opts(None, None, Some(false), None)),
        Err(bad("Presence penalty must be between -2.0 and 2.0"))
    );
    assert_eq!(
        check_completion_param_validity(opts(None, None, None, Some(5))),
        Err(bad("Stop tokens must be less than or equal to 4"))
    );
    assert_eq!(check_completion_param_validity(opts(Some(true), Some(true), Some(true), Some(4))), Ok(()));
    assert!(message_limit_reached(10, 10));
    assert!(!message_limit_reached(9, 10));
}

#[test]
fn query_header_and_first_choice() {
    assert_eq!(query_header(false, "x"), None);
    assert_eq!(query_header(true, "a\u{7}b\nc\u{7f}"), Some("abc".to_string()));
    assert_eq!(first_choice(vec![3, 4]), Ok(3));
    assert_eq!(first_choice::<i32>(vec![]), Err(bad("No first message in choices on call to LLM")));
}

#[test]
fn image_edit_defaults_and_decoding() {
    let req = EditImageReqPayload {
        input_images: vec![],
        prompt: "p".to_string(),
        n: None,
        size: None,
        quality: None,
        mime_type: None,
    };
    assert!(matches!(
        edit_image_settings("https://openrouter.ai", &req),
        Err(e) if e == bad("Only OpenAI is supported for image editing. Change the base URL to access image editing features.")
    ));
    let s = edit_image_settings("https://api.openai.com/v1", &req).ok().unwrap();
    assert_eq!(s.quality, InputImageQuality::Low);
    assert_eq!(s.size, InputImageSize::Size1024X1024);
    assert_eq!(s.mime_type, "image/png");
    assert_eq!(s.n, 1);
    assert_eq!(inline_image_bytes(&ImageSourceType::Url("https://x".to_string())), None);
    assert_eq!(inline_image_bytes(&ImageSourceType::Base64("aGk=".to_string())), Some(Ok(b"hi".to_vec())));
    assert_eq!(decode_base64_image("aGVsbG8="), Ok(b"hello".to_vec()));
    assert_eq!(decode_base64_image("***"), Err(bad("Invalid base64 string")));
}

#[test]
fn uploaded_files_try_url_safe_then_standard() {
    assert_eq!(decode_uploaded_file("aGVsbG8"), Ok(b"hello".to_vec()));
    assert_eq!(decode_uploaded_file("aGVsbG8="), Ok(b"hello".to_vec()));
    assert_eq!(decode_uploaded_file("-_8"), Ok(vec![0xfb, 0xff]));
    assert_eq!(decode_uploaded_file("%%%"), Err(bad("Could not decode base64 file")));
}

#[test]
fn queries_are_parsed_into_quoted_and_negated_words() {
    let p = parse_query("find \"exact phrase\" -not -this \"\" plain".to_string());
    assert_eq!(p.query, "find \"exact phrase\" -not -this \"\" plain");
    assert_eq!(p.quote_words, Some(vec!["exact phrase".to_string()]));
    assert_eq!(p.negated_words, Some(vec!["not".to_string(), "this".to_string()]));
    let q = parse_query("nothing special".to_string());
    assert_eq!(q.quote_words, None);
    assert_eq!(q.negated_words, None);
    let r = parse_query("say \\\"hi\\\" now".to_string());
    assert_eq!(r.quote_words, Some(vec!["hi".to_string()]));
    let from = parsed_query_from_captures("a -b".to_string(), vec!["".to_string(), "x".to_string()]);
    assert_eq!(from.quote_words, Some(vec!["x".to_string()]));
    assert_eq!(from.negated_words, Some(vec!["b".to_string()]));
}

fn turn_text(t: &ChatTurn) -> (ChatRole, String) {
    match &t.content {
        ChatContent::Text(s) => (t.role, s.clone()),
        ChatContent::Parts(p) => (t.role, format!("{:?}", p)),
    }
}

#[test]
fn retrieval_conversation_layout() {
    let chunks = vec![
        RetrievalChunk { content: "first".to_string(), link: Some("https://l".to_string()), image_urls: Some(vec![Some("img".to_string()), None]) },
        RetrievalChunk { content: "second".to_string(), link: None, image_urls: None },
    ];
    let prior = vec![ChatTurn { role: ChatRole::Assistant, content: ChatContent::Text("earlier".to_string()) }];
    let r = retrieval_messages(
        "be brief".to_string(),
        chunks,
        Some(ContextOptions { include_links: Some(true) }),
        Some(ImageConfig { use_images: Some(true), images_per_chunk: None }),
        prior,
        Some(vec!["u.png".to_string()]),
        "Use the docs:",
        "what?",
    );
    let seen: Vec<(ChatRole, String)> = r.iter().map(turn_text).collect();
    assert_eq!(
        seen,
        vec![
            (ChatRole::System, "be brief".to_string()),
            (ChatRole::User, "{'doc': 1, 'text': ''link': 'https://l'', first}".to_string()),
            (ChatRole::User, format!("{:?}", vec![ContentPart::ImageUrl("img".to_string())])),
            (ChatRole::User, "{'doc': 2, 'text': '', second}".to_string()),
            (ChatRole::Assistant, "earlier".to_string()),
            (ChatRole::User, format!("{:?}", vec![
                ContentPart::ImageUrl("u.png".to_string()),
                ContentPart::Text("These are the images that the user provided with their query.".to_string()),
            ])),
            (ChatRole::User, "Use the docs: what?".to_string()),
        ]
    );
}

#[test]
fn tool_definition_schema() {
    let p = |n: &str, t, d: &str| ToolFunctionParameter { name: n.to_string(), parameter_type: t, description: d.to_string() };
    let f = ToolFunction {
        name: "get_filters".to_string(),
        description: "Pick filters".to_string(),
        parameters: vec![
            p("jackets", ToolFunctionParameterType::Boolean, "old"),
            p("price", ToolFunctionParameterType::Number, "max price"),
            p("jackets", ToolFunctionParameterType::Boolean, "new"),
        ],
    };
    let t = tool_definition(&f);
    assert_eq!(t.name, "get_filters");
    assert_eq!(t.description, "Pick filters");
    let props: Vec<(String, &str, String)> = t.properties.iter().map(|q| (q.name.clone(), q.parameter_type, q.description.clone())).collect();
    assert_eq!(
        props,
        vec![("price".to_string(), "number", "max price".to_string()), ("jackets".to_string(), "boolean", "new".to_string())]
    );
    assert_eq!(t.required, vec!["jackets".to_string(), "price".to_string(), "jackets".to_string()]);
}

#[test]
fn quoted_phrases_follow_the_regex() {
    let re = regex::Regex::new(r#""(.*?)""#).unwrap();
    for q in ["a \"b c\" d \"e\"", "\"x\ny\" \"z\"", "\"\" \"k\"", "\"open", "\"a\"\"b\"", "no quotes", "\"a\nb\"c\"d\""] {
        let cleaned = q.replace('\\', "");
        let expected: Vec<String> = re
            .captures_iter(&cleaned)
            .map(|c| c[1].to_string())
            .filter(|w| !w.is_empty())
            .collect();
        let got = parse_query(q.to_string()).quote_words.unwrap_or_default();
        assert_eq!(got, expected, "{:?}", q);
    }
}

#[test]
fn chunk_completion_orders_by_request() {
    let chunk = |c: &str| RetrievalChunk { content: c.to_string(), link: None, image_urls: None };
    let r = trieve_handlers::rag::chunk_completion_messages(
        "sys".to_string(),
        &vec![30, 10, 20],
        &vec![10, 20, 30, 10],
        vec![chunk("a"), chunk("b"), chunk("c"), chunk("d")],
        None,
        None,
        vec![],
        None,
        "Answer:",
        "q",
    );
    let seen: Vec<(ChatRole, String)> = r.iter().map(turn_text).collect();
    assert_eq!(
        seen,
        vec![
            (ChatRole::System, "sys".to_string()),
            (ChatRole::User, "{'doc': 1, 'text': '', c}".to_string()),
            (ChatRole::User, "{'doc': 2, 'text': '', a}".to_string()),
            (ChatRole::User, "{'doc': 3, 'text': '', d}".to_string()),
            (ChatRole::User, "{'doc': 4, 'text': '', b}".to_string()),
            (ChatRole::User, "Answer: q".to_string()),
        ]
    );
}

#[test]
fn card_conversation_layout() {
    let prev = vec![
        (ChatRole::User, "hello".to_string()),
        (ChatRole::Assistant, "hi".to_string()),
        (ChatRole::User, "what is up?".to_string()),
    ];
    let r = trieve_handlers::card::card_conversation(prev, &vec!["one  two".to_string(), "three".to_string()]);
    let seen: Vec<(ChatRole, String)> = r.iter().map(turn_text).collect();
    assert_eq!(
        seen,
        vec![
            (ChatRole::User, "hello".to_string()),
            (ChatRole::Assistant, "hi".to_string()),
            (ChatRole::User, "I am going to provide several pieces of information for you to use in response to a request or question. You will not respond until I ask you to.".to_string()),
            (ChatRole::Assistant, "Understood, I will not reply until I receive a direct request or question.".to_string()),
            (ChatRole::User, "Doc 1: one two".to_string()),
            (ChatRole::Assistant, "".to_string()),
            (ChatRole::User, "Doc 2: three".to_string()),
            (ChatRole::Assistant, "".to_string()),
            (ChatRole::User, "Respond to this question and include the doc numbers that you used in square brackets at the end of the sentences that you used the docs for.: what is up?".to_string()),
        ]
    );
    let only = trieve_handlers::card::card_conversation(vec![(ChatRole::User, "q".to_string())], &vec![]);
    assert_eq!(only.len(), 3);
}
