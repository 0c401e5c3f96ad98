use vstd::prelude::*;
use crate::errors::{ServiceError, bad_request, fails_bad_request};
use crate::chunk::positions;
use crate::message::{ContentPart, part_view, strings_view};

verus! {

/// Position of the first occurrence of `x` in `s`, or `s.len()` when `x`
/// does not occur.
pub open spec fn first_index(s: Seq<u128>, x: u128) -> int
    decreases s.len(),
{
    if s.len() == 0 {
        0
    } else if s[0] == x {
        0
    } else {
        1 + first_index(s.drop_first(), x)
    }
}

proof fn lemma_first_index(s: Seq<u128>, x: u128)
    ensures
        0 <= first_index(s, x) <= s.len(),
        first_index(s, x) < s.len() ==> s[first_index(s, x)] == x,
        forall|k: int| 0 <= k < first_index(s, x) ==> s[k] != x,
        s.contains(x) ==> first_index(s, x) < s.len(),
    decreases s.len(),
{
    if s.len() > 0 && s[0] != x {
        lemma_first_index(s.drop_first(), x);
        assert forall|k: int| 0 <= k < first_index(s, x) implies s[k] != x by {
            if k > 0 {
                assert(s[k] == s.drop_first()[k - 1]);
            }
        }
        if s.contains(x) {
            let k = choose|k: int| 0 <= k < s.len() && s[k] == x;
            assert(s.drop_first()[k - 1] == x);
        }
    }
}

/// Order key of the chunk at position `i`: where its id first appears among
/// the requested ids.
pub open spec fn request_rank(requested: Seq<u128>, fetched: Seq<u128>, i: int) -> int {
    first_index(requested, fetched[i])
}

/// `x` comes before `y`: its id was requested earlier, or both were
/// requested at the same place and `x` was fetched first.
pub open spec fn ranks_before(requested: Seq<u128>, fetched: Seq<u128>, x: int, y: int) -> bool {
    request_rank(requested, fetched, x) < request_rank(requested, fetched, y) || (request_rank(
        requested,
        fetched,
        x,
    ) == request_rank(requested, fetched, y) && x < y)
}

/// Position `i` appears in `order`.
pub open spec fn listed(order: Seq<usize>, i: int) -> bool {
    exists|a: int| 0 <= a < order.len() && order[a] == i
}

/// `order` lists every fetched position exactly once, sorted by where its id
/// first appears among the requested ids, fetched order breaking ties: the
/// result of a stable sort of the fetched chunks by request position.
pub open spec fn is_request_order(requested: Seq<u128>, fetched: Seq<u128>, order: Seq<usize>) -> bool {
    &&& order.len() == fetched.len()
    &&& forall|a: int| 0 <= a < order.len() ==> #[trigger] order[a] < fetched.len()
    &&& forall|i: int| 0 <= i < fetched.len() ==> #[trigger] listed(order, i)
    &&& forall|a: int, b: int|
        0 <= a < b < order.len() ==> ranks_before(requested, fetched, #[trigger] order[a] as int, #[trigger] order[b] as int)
}

/// Whether `x` occurs in `s` before position `j`.
fn occurs_before(s: &Vec<u128>, x: u128, j: usize) -> (b: bool)
    requires
        j <= s@.len(),
    ensures
        b == s@.take(j as int).contains(x),
{
    let mut k: usize = 0;
    while k < j
        invariant
            k <= j <= s@.len(),
            forall|m: int| 0 <= m < k ==> s@[m] != x,
        decreases j - k,
    {
        if s[k] == x {
            assert(s@.take(j as int)[k as int] == x);
            return true;
        }
        k = k + 1;
    }
    false
}

/// Order in which the fetched chunks are given to the model: sorted by the
/// position of their id in the request, as `sort_by` on that position does
/// (a stable sort). Every fetched id must be among the requested ones.
pub fn order_by_request(requested: &Vec<u128>, fetched: &Vec<u128>) -> (order: Vec<usize>)
    requires
        forall|i: int| 0 <= i < fetched@.len() ==> requested@.contains(#[trigger] fetched@[i]),
    ensures
        is_request_order(requested@, fetched@, order@),
{
    let ghost rq = requested@;
    let ghost ft = fetched@;
    let mut order: Vec<usize> = Vec::new();
    let mut j: usize = 0;
    proof {
        assert forall|i: int| 0 <= i < ft.len() && #[trigger] request_rank(rq, ft, i) < 0 implies listed(order@, i) by {
            lemma_first_index(rq, ft[i]);
        }
    }
    while j < requested.len()
        invariant
            j <= rq.len(),
            rq == requested@,
            ft == fetched@,
            forall|i: int| 0 <= i < ft.len() ==> rq.contains(#[trigger] ft[i]),
            forall|a: int| 0 <= a < order@.len() ==> #[trigger] order@[a] < ft.len()
                && request_rank(rq, ft, order@[a] as int) < j,
            forall|a: int, b: int|
                0 <= a < b < order@.len() ==> ranks_before(rq, ft, #[trigger] order@[a] as int, #[trigger] order@[b] as int),
            forall|i: int| 0 <= i < ft.len() && #[trigger] request_rank(rq, ft, i) < j ==> listed(order@, i),
        decreases requested.len() - j,
    {
        let x = requested[j];
        if !occurs_before(requested, x, j) {
            proof {
                lemma_first_index(rq, x);
                assert forall|k: int| 0 <= k < j implies rq[k] != x by {
                    assert(rq.take(j as int)[k] == rq[k]);
                    if rq[k] == x {
                        assert(rq.take(j as int).contains(x));
                    }
                }
                assert(first_index(rq, x) == j);
            }
            let ghost len0 = order@.len();
            let mut i: usize = 0;
            while i < fetched.len()
                invariant
                    j < rq.len(),
                    rq == requested@,
                    ft == fetched@,
                    x == rq[j as int],
                    first_index(rq, x) == j,
                    i <= ft.len(),
                    len0 <= order@.len(),
                    forall|i2: int| 0 <= i2 < ft.len() ==> rq.contains(#[trigger] ft[i2]),
                    forall|a: int| 0 <= a < len0 ==> #[trigger] order@[a] < ft.len()
                        && request_rank(rq, ft, order@[a] as int) < j,
                    forall|a: int| len0 <= a < order@.len() ==> #[trigger] order@[a] < i
                        && request_rank(rq, ft, order@[a] as int) == j,
                    forall|a: int, b: int|
                        0 <= a < b < order@.len() ==> ranks_before(rq, ft, #[trigger] order@[a] as int, #[trigger] order@[b] as int),
                    forall|i2: int| 0 <= i2 < ft.len() && #[trigger] request_rank(rq, ft, i2) < j ==> listed(order@, i2),
                    forall|i2: int| 0 <= i2 < i && #[trigger] request_rank(rq, ft, i2) == j ==> listed(order@, i2),
                decreases fetched.len() - i,
            {
                if fetched[i] == x {
                    let ghost before = order@;
                    order.push(i);
                    proof {
                        assert(request_rank(rq, ft, i as int) == j);
                        assert forall|i2: int| 0 <= i2 < ft.len() && #[trigger] request_rank(rq, ft, i2) < j implies listed(order@, i2) by {
                            let a = choose|a: int| 0 <= a < before.len() && before[a] == i2;
                            assert(order@[a] == before[a]);
                        }
                        assert forall|i2: int| 0 <= i2 < i + 1 && #[trigger] request_rank(rq, ft, i2) == j implies listed(order@, i2) by {
                            if i2 < i {
                                let a = choose|a: int| 0 <= a < before.len() && before[a] == i2;
                                assert(order@[a] == before[a]);
                            } else {
                                assert(order@[before.len() as int] == i2);
                            }
                        }
                    }
                } else {
                    proof {
                        if request_rank(rq, ft, i as int) == j {
                            lemma_first_index(rq, ft[i as int]);
                        }
                    }
                }
                i = i + 1;
            }
            proof {
                assert forall|a: int| 0 <= a < order@.len() implies #[trigger] order@[a] < ft.len()
                    && request_rank(rq, ft, order@[a] as int) < j + 1 by {
                    if a < len0 {
                    } else {
                    }
                }
                assert forall|i2: int| 0 <= i2 < ft.len() && #[trigger] request_rank(rq, ft, i2) < j + 1 implies listed(order@, i2) by {
                    if request_rank(rq, ft, i2) < j {
                    } else {
                        assert(request_rank(rq, ft, i2) == j);
                    }
                }
            }
        } else {
            proof {
                assert forall|i2: int| 0 <= i2 < ft.len() && #[trigger] request_rank(rq, ft, i2) < j + 1 implies listed(order@, i2) by {
                    if request_rank(rq, ft, i2) == j {
                        lemma_first_index(rq, ft[i2]);
                        assert(rq[j as int] == ft[i2]);
                        let k = choose|k: int| 0 <= k < j && rq.take(j as int)[k] == x;
                        assert(rq[k] == x);
                    }
                }
            }
        }
        j = j + 1;
    }
    let nf = fetched.len();
    proof {
        assert forall|i: int| 0 <= i < ft.len() implies #[trigger] listed(order@, i) by {
            lemma_first_index(rq, ft[i]);
            assert(request_rank(rq, ft, i) < j);
        }
        assert(order@.no_duplicates()) by {
            assert forall|a: int, b: int| 0 <= a < order@.len() && 0 <= b < order@.len() && a != b implies order@[a] != order@[b] by {
                if a < b {
                    assert(ranks_before(rq, ft, order@[a] as int, order@[b] as int));
                } else {
                    assert(ranks_before(rq, ft, order@[b] as int, order@[a] as int));
                }
            }
        }
        lemma_order_len(order@, ft.len());
    }
    order
}

/// A list of positions below `n`, listed without repetition and covering all
/// of them, has length `n`.
proof fn lemma_order_len(order: Seq<usize>, n: nat)
    requires
        n <= usize::MAX,
        order.no_duplicates(),
        forall|a: int| 0 <= a < order.len() ==> #[trigger] order[a] < n,
        forall|i: int| 0 <= i < n ==> #[trigger] listed(order, i),
    ensures
        order.len() == n,
{
    let p = positions(n);
    assert(p.no_duplicates());
    assert(order.to_set() =~= p.to_set()) by {
        assert forall|v: usize| order.to_set().contains(v) implies p.to_set().contains(v) by {
            let a = choose|a: int| 0 <= a < order.len() && order[a] == v;
            assert(p[v as int] == v);
        }
        assert forall|v: usize| p.to_set().contains(v) implies order.to_set().contains(v) by {
            let k = choose|k: int| 0 <= k < p.len() && p[k] == v;
            assert(listed(order, k));
            let a = choose|a: int| 0 <= a < order.len() && order[a] == k;
            assert(order[a] == v);
        }
    }
    order.unique_seq_to_set();
    p.unique_seq_to_set();
}

} // verus!

verus! {

/// Refuses a completion over chosen chunks without any prior message.
pub fn check_prior_messages(count: usize) -> (r: Result<(), ServiceError>)
    ensures
        r is Ok <==> count >= 1,
        r is Err ==> fails_bad_request(r, "There needs to be at least 1 prior message"@),
{
    if count < 1 {
        return Err(bad_request("There needs to be at least 1 prior message"));
    }
    Ok(())
}

/// Base URL of the language-model server: the configured one, or the
/// OpenRouter API when none is configured.
pub fn llm_base_url(configured: String) -> (u: String)
    ensures
        configured@.len() == 0 ==> u@ == "https://openrouter.ai/api/v1"@,
        configured@.len() > 0 ==> u@ == configured@,
{
    broadcast use vstd::string::group_string_axioms;
    if configured.as_str().is_empty() {
        "https://openrouter.ai/api/v1".to_string()
    } else {
        configured
    }
}

/// Where the language-model API key comes from.
#[derive(Debug, PartialEq, Eq)]
pub enum LlmApiKeySource {
    /// The key configured on the dataset.
    Configured(String),
    /// The `OPENAI_API_KEY` setting of the server.
    OpenAiSetting,
    /// The `LLM_API_KEY` setting of the server.
    LlmSetting,
}

/// The dataset's own key when it has one; else the OpenAI key for a server
/// URL that mentions `openai.com`; else the general language-model key.
pub fn llm_api_key_source(configured_key: String, base_url: &str) -> (s: LlmApiKeySource)
    ensures
        configured_key@.len() > 0 ==> (s matches LlmApiKeySource::Configured(k) && k@ == configured_key@),
        configured_key@.len() == 0 && crate::text::has_substring(base_url@, "openai.com"@) ==> s == LlmApiKeySource::OpenAiSetting,
        configured_key@.len() == 0 && !crate::text::has_substring(base_url@, "openai.com"@) ==> s == LlmApiKeySource::LlmSetting,
{
    if !configured_key.as_str().is_empty() {
        LlmApiKeySource::Configured(configured_key)
    } else if crate::text::str_contains(base_url, "openai.com") {
        LlmApiKeySource::OpenAiSetting
    } else {
        LlmApiKeySource::LlmSetting
    }
}

/// Which context parts go into the prompt.
#[derive(Debug, Clone, Copy)]
pub struct ContextOptions {
    pub include_links: Option<bool>,
}

/// Whether a chunk's link goes into its document message.
pub open spec fn link_shown(context_options: Option<ContextOptions>, link: Option<Seq<char>>) -> bool {
    (context_options matches Some(o) && o.include_links == Some(true)) && link is Some
}

/// Text of the message that hands the model the chunk at position `index`
/// (counted from 0): `{'doc': N, 'text': 'L', C}` where N is `index + 1`, L is
/// `'link': '<link>'` when links are shown and empty otherwise, and C is the
/// chunk's text.
pub open spec fn document_message_spec(index: nat, link_part: Seq<char>, content: Seq<char>) -> Seq<char> {
    "{'doc': "@ + crate::text::decimal(index + 1) + ", 'text': '"@ + link_part + "', "@ + content + "}"@
}

/// The link part of a document message.
pub open spec fn link_part_spec(context_options: Option<ContextOptions>, link: Option<Seq<char>>) -> Seq<char> {
    if link_shown(context_options, link) {
        "'link': '"@ + link.unwrap() + "'"@
    } else {
        Seq::empty()
    }
}

/// The message that presents one chunk to the model.
pub fn document_message(index: u64, context_options: Option<ContextOptions>, link: Option<&str>, content: &str) -> (m: String)
    requires
        index < u64::MAX,
    ensures
        m@ == document_message_spec(
            index as nat,
            link_part_spec(context_options, match link { Some(l) => Some(l@), None => None }),
            content@,
        ),
{
    broadcast use vstd::string::group_string_axioms;
    let show = match context_options {
        Some(o) => match o.include_links {
            Some(b) => b,
            None => false,
        },
        None => false,
    };
    let mut m = "{'doc': ".to_string();
    let digits = crate::text::decimal_chars(index + 1);
    let ds = crate::text::string_from_chars(&digits);
    m.append(ds.as_str());
    m.append(", 'text': '");
    match link {
        Some(l) => {
            if show {
                m.append("'link': '");
                m.append(l);
                m.append("'");
            }
        },
        None => {},
    }
    m.append("', ");
    m.append(content);
    m.append("}");
    proof {
        let lp = link_part_spec(context_options, match link { Some(l) => Some(l@), None => None });
        if show && link is Some {
            assert(lp == "'link': '"@ + link.unwrap()@ + "'"@);
        } else {
            assert(lp == Seq::<char>::empty());
        }
    }
    m
}

/// Whether images go along with the chunks, and how many per chunk.
#[derive(Debug, Clone, Copy)]
pub struct ImageConfig {
    pub use_images: Option<bool>,
    pub images_per_chunk: Option<usize>,
}

/// The present image URLs of `urls`, in order.
pub open spec fn present_urls(urls: Seq<Option<String>>) -> Seq<Seq<char>>
    decreases urls.len(),
{
    if urls.len() == 0 {
        Seq::empty()
    } else {
        let rest = present_urls(urls.drop_last());
        match urls.last() {
            Some(u) => rest.push(u@),
            None => rest,
        }
    }
}

/// The image URLs handed to the model with a chunk: when images are used, the
/// first `images_per_chunk` (5 by default) of the chunk's present URLs;
/// `None` when images are not used or the chunk has no image list.
pub fn chunk_images(image_config: Option<ImageConfig>, image_urls: Option<Vec<Option<String>>>) -> (r: Option<Vec<String>>)
    ensures
        (image_config matches Some(c) && c.use_images == Some(true) && image_urls is Some) <==> r is Some,
        r matches Some(v) ==> ({
            let all = present_urls(image_urls.unwrap()@);
            let n = match image_config.unwrap().images_per_chunk { Some(n) => n as int, None => 5 };
            &&& v@.len() == if all.len() < n { all.len() as int } else { n }
            &&& forall|k: int| 0 <= k < v@.len() ==> #[trigger] v@[k]@ == all[k]
        }),
{
    let c = match image_config {
        Some(c) => c,
        None => return None,
    };
    let use_images = match c.use_images {
        Some(b) => b,
        None => false,
    };
    if !use_images {
        return None;
    }
    let urls = match image_urls {
        Some(u) => u,
        None => return None,
    };
    let limit: usize = match c.images_per_chunk {
        Some(n) => n,
        None => 5,
    };
    let ghost all = present_urls(urls@);
    let mut out: Vec<String> = Vec::new();
    let mut i: usize = 0;
    while i < urls.len() && out.len() < limit
        invariant
            i <= urls@.len(),
            all == present_urls(urls@),
            out@.len() <= limit,
            out@.len() == present_urls(urls@.take(i as int)).len(),
            forall|k: int| 0 <= k < out@.len() ==> #[trigger] out@[k]@ == present_urls(urls@.take(i as int))[k],
        decreases urls.len() - i,
    {
        assert(urls@.take(i + 1).drop_last() =~= urls@.take(i as int));
        match &urls[i] {
            Some(u) => {
                out.push(u.clone());
            },
            None => {},
        }
        i = i + 1;
    }
    proof {
        lemma_present_urls_prefix(urls@, i as int);
        if i == urls@.len() {
            assert(urls@.take(i as int) =~= urls@);
        }
    }
    Some(out)
}

proof fn lemma_present_urls_prefix(urls: Seq<Option<String>>, i: int)
    requires
        0 <= i <= urls.len(),
    ensures
        present_urls(urls.take(i)).len() <= present_urls(urls).len(),
        forall|k: int| 0 <= k < present_urls(urls.take(i)).len() ==> #[trigger] present_urls(urls.take(i))[k] == present_urls(urls)[k],
    decreases urls.len() - i,
{
    if i < urls.len() {
        lemma_present_urls_prefix(urls, i + 1);
        assert(urls.take(i + 1).drop_last() =~= urls.take(i));
        let a = present_urls(urls.take(i));
        let b = present_urls(urls.take(i + 1));
        assert forall|k: int| 0 <= k < a.len() implies #[trigger] a[k] == present_urls(urls)[k] by {
            assert(a[k] == b[k]);
        }
    } else {
        assert(urls.take(i) =~= urls);
    }
}

/// Whether the answer is streamed: unless the request says otherwise, it is.
pub fn stream_requested(stream_response: Option<bool>) -> (b: bool)
    ensures
        b == (stream_response != Some(false)),
{
    match stream_response {
        Some(b) => b,
        None => true,
    }
}

/// The final user message: the dataset's retrieval prompt, a space, and the
/// user's last message.
pub fn rag_user_message(rag_prompt: &str, last_message: &str) -> (m: String)
    ensures
        m@ == rag_prompt@ + " "@ + last_message@,
{
    broadcast use vstd::string::group_string_axioms;
    let mut m = rag_prompt.to_string();
    m.append(" ");
    m.append(last_message);
    m
}

/// Splits the prior messages of a completion into the conversation sent as
/// it is and the last message, which is answered.
pub fn split_last_message<M>(prev_messages: Vec<M>) -> (r: (Vec<M>, M))
    requires
        prev_messages@.len() >= 1,
    ensures
        r.0@ == prev_messages@.drop_last(),
        r.1 == prev_messages@.last(),
{
    let mut v = prev_messages;
    let last = v.pop().unwrap();
    (v, last)
}

/// The text sent after the images a user gave with the query.
pub open spec fn user_images_note() -> Seq<char> {
    "These are the images that the user provided with their query."@
}

/// Parts of the message carrying the images a user gave with the query: the
/// images in order, then a note saying what they are; no message when no
/// image is given.
pub fn user_image_parts(image_urls: Option<Vec<String>>) -> (r: Option<Vec<ContentPart>>)
    ensures
        (image_urls is None || strings_view(image_urls).len() == 0) ==> r is None,
        image_urls is Some && strings_view(image_urls).len() > 0 ==> (r matches Some(parts)
            && parts@.map_values(|p: ContentPart| part_view(p))
                == strings_view(image_urls).map_values(|u: Seq<char>| (false, u)).push((true, user_images_note()))),
{
    match image_urls {
        None => None,
        Some(urls) => {
            if urls.len() == 0 {
                assert(strings_view(Some(urls)) =~= Seq::<Seq<char>>::empty());
                return None;
            }
            let ghost us = strings_view(Some(urls));
            let mut parts: Vec<ContentPart> = Vec::new();
            let mut i: usize = 0;
            while i < urls.len()
                invariant
                    i <= urls@.len(),
                    us == urls@.map_values(|s: String| s@),
                    parts@.map_values(|p: ContentPart| part_view(p)) == us.take(i as int).map_values(|u: Seq<char>| (false, u)),
                decreases urls.len() - i,
            {
                let ghost before = parts@;
                parts.push(ContentPart::ImageUrl(urls[i].clone()));
                assert(us[i as int] == urls@[i as int]@);
                assert(us.take(i + 1) =~= us.take(i as int).push(us[i as int]));
                assert(parts@.map_values(|p: ContentPart| part_view(p)) =~= before.map_values(|p: ContentPart| part_view(p)).push((false, us[i as int])));
                assert(parts@.map_values(|p: ContentPart| part_view(p)) =~= us.take(i + 1).map_values(|u: Seq<char>| (false, u)));
                i = i + 1;
            }
            assert(us.take(us.len() as int) =~= us);
            let ghost mid = parts@.map_values(|p: ContentPart| part_view(p));
            broadcast use vstd::string::group_string_axioms;
            parts.push(ContentPart::Text("These are the images that the user provided with their query.".to_string()));
            assert(parts@.map_values(|p: ContentPart| part_view(p)) =~= mid.push((true, user_images_note())));
            Some(parts)
        },
    }
}

/// Who speaks a message of a conversation with the model.
#[derive(Debug, Clone, Copy, PartialEq, Eq)]
pub enum ChatRole {
    System,
    User,
    Assistant,
}

/// What a message of a conversation holds: text, or parts (text and images).
pub enum ChatContent {
    Text(String),
    Parts(Vec<ContentPart>),
}

/// A message of a conversation with the model.
pub struct ChatTurn {
    pub role: ChatRole,
    pub content: ChatContent,
}

/// A chunk handed to the model: its text (the chunk's HTML converted to
/// text), its link and its image URLs.
pub struct RetrievalChunk {
    pub content: String,
    pub link: Option<String>,
    pub image_urls: Option<Vec<Option<String>>>,
}

/// The view of a message: its role, whether it is text, the text, and the parts.
pub open spec fn turn_view(t: ChatTurn) -> (ChatRole, bool, Seq<char>, Seq<(bool, Seq<char>)>) {
    match t.content {
        ChatContent::Text(s) => (t.role, true, s@, seq![]),
        ChatContent::Parts(p) => (t.role, false, seq![], p@.map_values(|q: ContentPart| part_view(q))),
    }
}

/// The views of a list of messages.
pub open spec fn turns_view(ts: Seq<ChatTurn>) -> Seq<(ChatRole, bool, Seq<char>, Seq<(bool, Seq<char>)>)> {
    ts.map_values(|t: ChatTurn| turn_view(t))
}

/// A text message.
pub open spec fn text_turn(role: ChatRole, s: Seq<char>) -> (ChatRole, bool, Seq<char>, Seq<(bool, Seq<char>)>) {
    (role, true, s, seq![])
}

/// A user message of images.
pub open spec fn image_turn(urls: Seq<Seq<char>>) -> (ChatRole, bool, Seq<char>, Seq<(bool, Seq<char>)>) {
    (ChatRole::User, false, seq![], urls.map_values(|u: Seq<char>| (false, u)))
}

/// The image URLs handed to the model with a chunk, as `chunk_images` picks them.
pub open spec fn chunk_image_urls(image_config: Option<ImageConfig>, image_urls: Option<Vec<Option<String>>>) -> Option<Seq<Seq<char>>> {
    match (image_config, image_urls) {
        (Some(c), Some(urls)) => if c.use_images == Some(true) {
            let all = present_urls(urls@);
            let n = match c.images_per_chunk { Some(n) => n as int, None => 5 };
            Some(all.take(if all.len() < n { all.len() as int } else { n }))
        } else {
            None
        },
        _ => None,
    }
}

/// The messages presenting the chunks, in order: for each, its document
/// message, then a message of its images when images go along.
pub open spec fn chunk_turns(
    chunks: Seq<RetrievalChunk>,
    context_options: Option<ContextOptions>,
    image_config: Option<ImageConfig>,
) -> Seq<(ChatRole, bool, Seq<char>, Seq<(bool, Seq<char>)>)>
    decreases chunks.len(),
{
    if chunks.len() == 0 {
        seq![]
    } else {
        let c = chunks.last();
        let doc = text_turn(
            ChatRole::User,
            document_message_spec(
                (chunks.len() - 1) as nat,
                link_part_spec(context_options, crate::chunk::opt_view(c.link)),
                c.content@,
            ),
        );
        chunk_turns(chunks.drop_last(), context_options, image_config).push(doc) + match chunk_image_urls(image_config, c.image_urls) {
            Some(urls) => seq![image_turn(urls)],
            None => seq![],
        }
    }
}

/// The conversation handed to the model for a completion over chosen
/// chunks: the system prompt; the chunks' messages in order; the earlier
/// messages; a message of the user's images with a note, when images are
/// given; and the retrieval prompt with the user's last message.
pub open spec fn retrieval_turns(
    system_prompt: Seq<char>,
    chunks: Seq<RetrievalChunk>,
    context_options: Option<ContextOptions>,
    image_config: Option<ImageConfig>,
    prior: Seq<(ChatRole, bool, Seq<char>, Seq<(bool, Seq<char>)>)>,
    user_images: Seq<Seq<char>>,
    rag_prompt: Seq<char>,
    last_message: Seq<char>,
) -> Seq<(ChatRole, bool, Seq<char>, Seq<(bool, Seq<char>)>)> {
    seq![text_turn(ChatRole::System, system_prompt)] + chunk_turns(chunks, context_options, image_config) + prior
        + (if user_images.len() > 0 {
            seq![(ChatRole::User, false, Seq::<char>::empty(), user_images.map_values(|u: Seq<char>| (false, u)).push((true, user_images_note())))]
        } else {
            seq![]
        })
        + seq![text_turn(ChatRole::User, rag_prompt + " "@ + last_message)]
}

/// Builds the conversation handed to the model for a completion over
/// chosen chunks (given in the order they are presented).
pub fn retrieval_messages(
    system_prompt: String,
    chunks: Vec<RetrievalChunk>,
    context_options: Option<ContextOptions>,
    image_config: Option<ImageConfig>,
    prior: Vec<ChatTurn>,
    image_urls: Option<Vec<String>>,
    rag_prompt: &str,
    last_message: &str,
) -> (r: Vec<ChatTurn>)
    requires
        chunks@.len() < u64::MAX,
    ensures
        turns_view(r@) == retrieval_turns(
            system_prompt@,
            chunks@,
            context_options,
            image_config,
            turns_view(prior@),
            strings_view(image_urls),
            rag_prompt@,
            last_message@,
        ),
{
    let ghost all = chunks@;
    let ghost sys = system_prompt@;
    let mut r: Vec<ChatTurn> = Vec::new();
    r.push(ChatTurn { role: ChatRole::System, content: ChatContent::Text(system_prompt) });
    assert(turns_view(r@) =~= seq![text_turn(ChatRole::System, sys)]);
    let mut rest = chunks;
    let total: usize = rest.len();
    let mut i: usize = 0;
    assert(all.skip(0) =~= all);
    assert(all.take(0) =~= Seq::<RetrievalChunk>::empty());
    while rest.len() > 0
        invariant
            i <= all.len() < u64::MAX,
            total == all.len(),
            rest@ == all.skip(i as int),
            turns_view(r@) == seq![text_turn(ChatRole::System, sys)] + chunk_turns(all.take(i as int), context_options, image_config),
        decreases rest@.len(),
    {
        assert(all.skip(i as int)[0] == all[i as int]);
        let c = rest.remove(0);
        assert(all.skip(i as int).remove(0) =~= all.skip(i + 1));
        assert(all.take(i + 1).drop_last() =~= all.take(i as int));
        assert(all.take(i + 1).last() == all[i as int]);
        let link: Option<&str> = match &c.link {
            Some(l) => Some(l.as_str()),
            None => None,
        };
        let idx: u64 = i as u64;
        let doc = document_message(idx, context_options, link, c.content.as_str());
        let ghost before = turns_view(r@);
        r.push(ChatTurn { role: ChatRole::User, content: ChatContent::Text(doc) });
        assert(turns_view(r@) =~= before.push(text_turn(ChatRole::User, doc@)));
        let ghost cv = c;
        let images = chunk_images(image_config, c.image_urls);
        match images {
            Some(urls) => {
                let ghost mid = turns_view(r@);
                let mut parts: Vec<ContentPart> = Vec::new();
                let mut k: usize = 0;
                while k < urls.len()
                    invariant
                        k <= urls@.len(),
                        parts@.map_values(|q: ContentPart| part_view(q)) == urls@.take(k as int).map_values(|u: String| (false, u@)),
                    decreases urls.len() - k,
                {
                    let ghost pb = parts@;
                    parts.push(ContentPart::ImageUrl(urls[k].clone()));
                    assert(urls@.take(k + 1) =~= urls@.take(k as int).push(urls@[k as int]));
                    assert(parts@.map_values(|q: ContentPart| part_view(q)) =~= pb.map_values(|q: ContentPart| part_view(q)).push((false, urls@[k as int]@)));
                    assert(parts@.map_values(|q: ContentPart| part_view(q)) =~= urls@.take(k + 1).map_values(|u: String| (false, u@)));
                    k = k + 1;
                }
                assert(urls@.take(urls@.len() as int) =~= urls@);
                let ghost chosen = chunk_image_urls(image_config, cv.image_urls).unwrap();
                assert(urls@.map_values(|u: String| (false, u@)) =~= chosen.map_values(|u: Seq<char>| (false, u)));
                r.push(ChatTurn { role: ChatRole::User, content: ChatContent::Parts(parts) });
                assert(turns_view(r@) =~= mid.push(image_turn(chosen)));
            },
            None => {},
        }
        assert(turns_view(r@) =~= seq![text_turn(ChatRole::System, sys)] + chunk_turns(all.take(i + 1), context_options, image_config));
        i = i + 1;
    }
    assert(all.take(all.len() as int) =~= all);
    let ghost after_chunks = turns_view(r@);
    let ghost pv = turns_view(prior@);
    let mut prior = prior;
    r.append(&mut prior);
    assert(turns_view(r@) =~= after_chunks + pv);
    let ghost after_prior = turns_view(r@);
    let ghost ui = strings_view(image_urls);
    match user_image_parts(image_urls) {
        Some(parts) => {
            r.push(ChatTurn { role: ChatRole::User, content: ChatContent::Parts(parts) });
            assert(turns_view(r@) =~= after_prior.push((ChatRole::User, false, Seq::<char>::empty(), ui.map_values(|u: Seq<char>| (false, u)).push((true, user_images_note())))));
        },
        None => {},
    }
    let ghost after_images = turns_view(r@);
    let fin = rag_user_message(rag_prompt, last_message);
    r.push(ChatTurn { role: ChatRole::User, content: ChatContent::Text(fin) });
    assert(turns_view(r@) =~= after_images.push(text_turn(ChatRole::User, rag_prompt@ + " "@ + last_message@)));
    r
}


/// The order in which chosen chunks are handed to the model is fixed by the
/// request: two orders that both sort the fetched chunks by request position
/// (fetched order breaking ties) are the same order.
pub proof fn law_request_order_unique(requested: Seq<u128>, fetched: Seq<u128>, o1: Seq<usize>, o2: Seq<usize>)
    requires
        is_request_order(requested, fetched, o1),
        is_request_order(requested, fetched, o2),
    ensures
        o1 == o2,
{
    lemma_request_order_prefix(requested, fetched, o1, o2, o1.len() as int);
    assert(o1 =~= o2);
}

proof fn lemma_request_order_prefix(requested: Seq<u128>, fetched: Seq<u128>, o1: Seq<usize>, o2: Seq<usize>, k: int)
    requires
        is_request_order(requested, fetched, o1),
        is_request_order(requested, fetched, o2),
        0 <= k <= o1.len(),
    ensures
        forall|a: int| 0 <= a < k ==> o1[a] == o2[a],
    decreases k,
{
    if k > 0 {
        lemma_request_order_prefix(requested, fetched, o1, o2, k - 1);
        let a = k - 1;
        let x = o1[a];
        let y = o2[a];
        if x != y {
            assert(listed(o2, x as int));
            let b = choose|b: int| 0 <= b < o2.len() && o2[b] == x;
            if b < a {
                assert(o1[b] == x);
                assert(ranks_before(requested, fetched, o1[b] as int, o1[a] as int));
            }
            assert(ranks_before(requested, fetched, o2[a] as int, o2[b] as int));
            assert(listed(o1, y as int));
            let c = choose|c: int| 0 <= c < o1.len() && o1[c] == y;
            if c < a {
                assert(o2[c] == y);
                assert(ranks_before(requested, fetched, o2[c] as int, o2[a] as int));
            }
            assert(ranks_before(requested, fetched, o1[a] as int, o1[c] as int));
        }
    }
}

/// The chunks in the order given by `order`.
pub open spec fn presented(order: Seq<usize>, chunks: Seq<RetrievalChunk>) -> Seq<RetrievalChunk> {
    order.map_values(|i: usize| chunks[i as int])
}

/// Position `i` is among the first `a` entries of `order`.
spec fn taken(order: Seq<usize>, a: int, i: int) -> bool {
    exists|b: int| 0 <= b < a && order[b] == i
}

/// Builds the conversation for a completion over chosen chunks: the fetched
/// chunks (`fetched_ids[i]` is the id of `chunks[i]`) are first sorted by
/// where their id stands in the request, fetched order breaking ties, and
/// then presented as `retrieval_messages` does. Every fetched id must be
/// among the requested ones.
pub fn chunk_completion_messages(
    system_prompt: String,
    requested: &Vec<u128>,
    fetched_ids: &Vec<u128>,
    chunks: Vec<RetrievalChunk>,
    context_options: Option<ContextOptions>,
    image_config: Option<ImageConfig>,
    prior: Vec<ChatTurn>,
    image_urls: Option<Vec<String>>,
    rag_prompt: &str,
    last_message: &str,
) -> (r: Vec<ChatTurn>)
    requires
        chunks@.len() < u64::MAX,
        fetched_ids@.len() == chunks@.len(),
        forall|i: int| 0 <= i < fetched_ids@.len() ==> requested@.contains(#[trigger] fetched_ids@[i]),
    ensures
        exists|order: Seq<usize>| #[trigger] is_request_order(requested@, fetched_ids@, order),
        forall|order: Seq<usize>| #[trigger] is_request_order(requested@, fetched_ids@, order) ==>
            turns_view(r@) == retrieval_turns(
                system_prompt@,
                presented(order, chunks@),
                context_options,
                image_config,
                turns_view(prior@),
                strings_view(image_urls),
                rag_prompt@,
                last_message@,
            ),
{
    let order = order_by_request(requested, fetched_ids);
    let ghost all = chunks@;
    let ghost ov = order@;
    let n: usize = chunks.len();
    let mut slots: Vec<Option<RetrievalChunk>> = Vec::new();
    let mut rest = chunks;
    let mut i: usize = 0;
    assert(all.skip(0) =~= all);
    while rest.len() > 0
        invariant
            i <= n == all.len(),
            rest@ == all.skip(i as int),
            slots@.len() == i,
            forall|k: int| 0 <= k < i ==> #[trigger] slots@[k] == Some(all[k]),
        decreases rest@.len(),
    {
        assert(all.skip(i as int)[0] == all[i as int]);
        let c = rest.remove(0);
        assert(all.skip(i as int).remove(0) =~= all.skip(i + 1));
        slots.push(Some(c));
        i = i + 1;
    }
    proof {
        assert forall|a: int, b: int| 0 <= a < b < ov.len() implies ov[a] != ov[b] by {
            assert(ranks_before(requested@, fetched_ids@, ov[a] as int, ov[b] as int));
        }
    }
    let mut out: Vec<RetrievalChunk> = Vec::new();
    let mut a: usize = 0;
    while a < order.len()
        invariant
            n == all.len(),
            ov == order@,
            ov.len() == n,
            slots@.len() == n,
            a <= n,
            forall|b: int| 0 <= b < ov.len() ==> #[trigger] ov[b] < n,
            forall|b: int, c: int| 0 <= b < c < ov.len() ==> #[trigger] ov[b] != #[trigger] ov[c],
            forall|k: int| 0 <= k < n ==> #[trigger] slots@[k] == if taken(ov, a as int, k) { None } else { Some(all[k]) },
            out@ == presented(ov.take(a as int), all),
        decreases n - a,
    {
        let idx = order[a];
        proof {
            if taken(ov, a as int, idx as int) {
                let b = choose|b: int| 0 <= b < a && ov[b] == idx;
                assert(ov[b] != ov[a as int]);
            }
        }
        let c = slots[idx].take();
        proof {
            assert forall|k: int| 0 <= k < n implies #[trigger] slots@[k] == if taken(ov, a + 1, k) { None } else { Some(all[k]) } by {
                if k == idx {
                    assert(ov[a as int] == idx);
                } else if taken(ov, a + 1, k) {
                    let b = choose|b: int| 0 <= b < a + 1 && ov[b] == k;
                    assert(b < a);
                    assert(taken(ov, a as int, k));
                } else if taken(ov, a as int, k) {
                    let b = choose|b: int| 0 <= b < a && ov[b] == k;
                    assert(taken(ov, a + 1, k));
                }
            }
        }
        match c {
            Some(ch) => {
                out.push(ch);
            },
            None => {},
        }
        assert(ov.take(a + 1) =~= ov.take(a as int).push(ov[a as int]));
        assert(out@ =~= presented(ov.take(a + 1), all));
        a = a + 1;
    }
    assert(ov.take(n as int) =~= ov);
    let r = retrieval_messages(
        system_prompt,
        out,
        context_options,
        image_config,
        prior,
        image_urls,
        rag_prompt,
        last_message,
    );
    proof {
        assert forall|o: Seq<usize>| #[trigger] is_request_order(requested@, fetched_ids@, o) implies turns_view(r@)
            == retrieval_turns(
                system_prompt@,
                presented(o, all),
                context_options,
                image_config,
                turns_view(prior@),
                strings_view(image_urls),
                rag_prompt@,
                last_message@,
            ) by {
            law_request_order_unique(requested@, fetched_ids@, o, ov);
        }
    }
    r
}


/// The conversation for a completion over chosen chunks opens with the
/// system prompt, then the chunks' messages, then the earlier messages
/// exactly as given (same messages, same order), and closes with the
/// retrieval prompt followed by a space and the user's last message.
pub proof fn law_retrieval_conversation_shape(
    system_prompt: Seq<char>,
    chunks: Seq<RetrievalChunk>,
    context_options: Option<ContextOptions>,
    image_config: Option<ImageConfig>,
    prior: Seq<(ChatRole, bool, Seq<char>, Seq<(bool, Seq<char>)>)>,
    user_images: Seq<Seq<char>>,
    rag_prompt: Seq<char>,
    last_message: Seq<char>,
)
    ensures ({
        let r = retrieval_turns(system_prompt, chunks, context_options, image_config, prior, user_images, rag_prompt, last_message);
        let n = chunk_turns(chunks, context_options, image_config).len() as int;
        &&& r.len() == 1 + n + prior.len() + (if user_images.len() > 0 { 1int } else { 0int }) + 1
        &&& r[0] == (ChatRole::System, true, system_prompt, Seq::<(bool, Seq<char>)>::empty())
        &&& r.subrange(1 + n, 1 + n + prior.len() as int) == prior
        &&& forall|k: int| 0 <= k < prior.len() ==> r[1 + n + k] == #[trigger] prior[k]
        &&& r[r.len() - 1] == (ChatRole::User, true, rag_prompt + " "@ + last_message, Seq::<(bool, Seq<char>)>::empty())
    }),
{
    let r = retrieval_turns(system_prompt, chunks, context_options, image_config, prior, user_images, rag_prompt, last_message);
    let ct = chunk_turns(chunks, context_options, image_config);
    let n = ct.len() as int;
    assert(r.subrange(1 + n, 1 + n + prior.len() as int) =~= prior);
    assert forall|k: int| 0 <= k < prior.len() implies r[1 + n + k] == #[trigger] prior[k] by {
        assert(r.subrange(1 + n, 1 + n + prior.len() as int)[k] == r[1 + n + k]);
    }
}


/// Without images, the chunks are presented one message each, in the order
/// given: the message at position `i` is the document message of chunk `i`,
/// numbered `i + 1`.
pub proof fn law_chunk_turns_in_order(chunks: Seq<RetrievalChunk>, context_options: Option<ContextOptions>)
    ensures
        chunk_turns(chunks, context_options, None).len() == chunks.len(),
        forall|i: int| 0 <= i < chunks.len() ==> #[trigger] chunk_turns(chunks, context_options, None)[i] == (
            ChatRole::User,
            true,
            document_message_spec(i as nat, link_part_spec(context_options, crate::chunk::opt_view(chunks[i].link)), chunks[i].content@),
            Seq::<(bool, Seq<char>)>::empty(),
        ),
    decreases chunks.len(),
{
    if chunks.len() > 0 {
        law_chunk_turns_in_order(chunks.drop_last(), context_options);
        let prev = chunk_turns(chunks.drop_last(), context_options, None);
        let c = chunk_turns(chunks, context_options, None);
        assert forall|i: int| 0 <= i < chunks.len() implies #[trigger] c[i] == (
            ChatRole::User,
            true,
            document_message_spec(i as nat, link_part_spec(context_options, crate::chunk::opt_view(chunks[i].link)), chunks[i].content@),
            Seq::<(bool, Seq<char>)>::empty(),
        ) by {
            if i < chunks.len() - 1 {
                assert(c[i] == prev[i]);
                assert(chunks.drop_last()[i] == chunks[i]);
            }
        }
    }
}

} // verus!
