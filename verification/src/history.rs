use vstd::prelude::*;
use crate::errors::{ServiceError, bad_request, fails_bad_request};
use crate::text::{to_chars, slice_chars, string_from_chars, str_eq};

verus! {

/// Whether the separator `||` starts at position `i` of `s`.
pub open spec fn bars_at(s: Seq<char>, i: int) -> bool {
    0 <= i && i + 1 < s.len() && s[i] == '|' && s[i + 1] == '|'
}

/// The pieces of `s` cut at `||`, separators matched from the left without
/// overlap, as `str::split("||")` yields them.
pub open spec fn bar_split(s: Seq<char>) -> Seq<Seq<char>>
    decreases s.len(),
{
    if s.len() < 2 {
        seq![s]
    } else if bars_at(s, 0) {
        seq![Seq::<char>::empty()] + bar_split(s.skip(2))
    } else {
        let rest = bar_split(s.skip(1));
        rest.update(0, seq![s[0]] + rest[0])
    }
}

/// The pieces of `s` cut at `||`, separators matched from the right without
/// overlap, in left-to-right order: `str::rsplit("||")` yields them from the
/// last to the first.
pub open spec fn rbar_split(s: Seq<char>) -> Seq<Seq<char>>
    decreases s.len(),
{
    if s.len() < 2 {
        seq![s]
    } else if bars_at(s, s.len() - 2) {
        rbar_split(s.take(s.len() - 2)).push(Seq::<char>::empty())
    } else {
        let rest = rbar_split(s.drop_last());
        rest.update(rest.len() - 1, rest.last().push(s.last()))
    }
}

proof fn lemma_bar_split_nonempty(s: Seq<char>)
    ensures
        bar_split(s).len() >= 1,
    decreases s.len(),
{
    if s.len() >= 2 {
        if bars_at(s, 0) {
            lemma_bar_split_nonempty(s.skip(2));
        } else {
            lemma_bar_split_nonempty(s.skip(1));
        }
    }
}

proof fn lemma_rbar_split_nonempty(s: Seq<char>)
    ensures
        rbar_split(s).len() >= 1,
    decreases s.len(),
{
    if s.len() >= 2 {
        if bars_at(s, s.len() - 2) {
            lemma_rbar_split_nonempty(s.take(s.len() - 2));
        } else {
            lemma_rbar_split_nonempty(s.drop_last());
        }
    }
}

/// Taking one character that starts no separator off the front of `s`.
proof fn lemma_bar_split_step(s: Seq<char>)
    requires
        s.len() >= 1,
        !bars_at(s, 0),
    ensures
        bar_split(s) == bar_split(s.skip(1)).update(0, seq![s[0]] + bar_split(s.skip(1))[0]),
{
    if s.len() < 2 {
        assert(s.skip(1) =~= Seq::<char>::empty());
        assert(seq![s[0]] + Seq::<char>::empty() =~= s);
        assert(bar_split(s.skip(1)).update(0, seq![s[0]] + bar_split(s.skip(1))[0]) =~= seq![s]);
    }
}

/// Taking one character that ends no separator off the back of `s`.
proof fn lemma_rbar_split_step(s: Seq<char>)
    requires
        s.len() >= 1,
        !bars_at(s, s.len() - 2),
    ensures
        rbar_split(s) == rbar_split(s.drop_last()).update(
            rbar_split(s.drop_last()).len() - 1,
            rbar_split(s.drop_last()).last().push(s.last()),
        ),
{
    if s.len() < 2 {
        assert(s.drop_last() =~= Seq::<char>::empty());
        assert(Seq::<char>::empty().push(s.last()) =~= s);
        assert(rbar_split(s.drop_last()).update(0, Seq::<char>::empty().push(s.last())) =~= seq![s]);
    }
}

/// The last piece of `s` cut at `||` (matched from the left): what
/// `s.split("||").last()` gives.
pub fn last_bar_piece(s: &Vec<char>) -> (out: Vec<char>)
    ensures
        out@ == bar_split(s@).last(),
{
    let mut i: usize = 0;
    let mut start: usize = 0;
    let ghost mut done: Seq<Seq<char>> = seq![];
    assert(s@.skip(0) =~= s@);
    proof { lemma_bar_split_nonempty(s@); }
    assert(bar_split(s@) =~= done + seq![s@.subrange(0, 0) + bar_split(s@.skip(0))[0]] + bar_split(s@.skip(0)).skip(1));
    while i < s.len()
        invariant
            start <= i <= s@.len(),
            bar_split(s@) == done + seq![s@.subrange(start as int, i as int) + bar_split(s@.skip(i as int))[0]]
                + bar_split(s@.skip(i as int)).skip(1),
        decreases s.len() - i,
    {
        let ghost t = s@.skip(i as int);
        let ghost cur = s@.subrange(start as int, i as int);
        if i + 1 < s.len() && s[i] == '|' && s[i + 1] == '|' {
            assert(bars_at(t, 0));
            assert(t.skip(2) =~= s@.skip(i + 2));
            let ghost b = bar_split(s@.skip(i + 2));
            proof { lemma_bar_split_nonempty(s@.skip(i + 2)); }
            assert(bar_split(t)[0] =~= Seq::<char>::empty());
            assert(bar_split(t).skip(1) =~= b);
            proof { done = done.push(cur); }
            assert(s@.subrange(i + 2, i + 2) =~= Seq::<char>::empty());
            assert(seq![s@.subrange(i + 2, i + 2) + b[0]] + b.skip(1) =~= b);
            assert(bar_split(s@) =~= done + seq![s@.subrange(i + 2, i + 2) + b[0]] + b.skip(1));
            i = i + 2;
            start = i;
        } else {
            assert(!bars_at(t, 0));
            proof { lemma_bar_split_step(t); }
            assert(t.skip(1) =~= s@.skip(i + 1));
            let ghost r = bar_split(s@.skip(i + 1));
            proof { lemma_bar_split_nonempty(s@.skip(i + 1)); }
            assert(t[0] == s@[i as int]);
            assert(s@.subrange(start as int, i + 1) =~= cur + seq![s@[i as int]]);
            assert(bar_split(t).skip(1) =~= r.skip(1));
            assert(cur + bar_split(t)[0] =~= s@.subrange(start as int, i + 1) + r[0]);
            i = i + 1;
        }
    }
    assert(s@.skip(i as int) =~= Seq::<char>::empty());
    let out = slice_chars(s, start, s.len());
    assert(bar_split(s@) =~= done.push(out@));
    out
}

/// The first piece of `s` cut at `||` (matched from the right): what
/// `s.rsplit("||").last()` gives.
pub fn first_rbar_piece(s: &Vec<char>) -> (out: Vec<char>)
    ensures
        out@ == rbar_split(s@)[0],
{
    let mut i: usize = s.len();
    let mut end: usize = s.len();
    let ghost mut done: Seq<Seq<char>> = seq![];
    assert(s@.take(s@.len() as int) =~= s@);
    proof { lemma_rbar_split_nonempty(s@); }
    assert(rbar_split(s@) =~= rbar_split(s@.take(i as int)).drop_last()
        + seq![rbar_split(s@.take(i as int)).last() + s@.subrange(i as int, end as int)] + done);
    while i > 0
        invariant
            i <= end <= s@.len(),
            rbar_split(s@) == rbar_split(s@.take(i as int)).drop_last()
                + seq![rbar_split(s@.take(i as int)).last() + s@.subrange(i as int, end as int)] + done,
        decreases i,
    {
        let ghost t = s@.take(i as int);
        let ghost cur = s@.subrange(i as int, end as int);
        if i >= 2 && s[i - 2] == '|' && s[i - 1] == '|' {
            assert(bars_at(t, t.len() - 2));
            assert(t.take(t.len() - 2) =~= s@.take(i - 2));
            let ghost b = rbar_split(s@.take(i - 2));
            proof { lemma_rbar_split_nonempty(s@.take(i - 2)); }
            assert(rbar_split(t).last() =~= Seq::<char>::empty());
            assert(rbar_split(t).drop_last() =~= b);
            proof { done = seq![cur] + done; }
            assert(s@.subrange(i - 2, i - 2) =~= Seq::<char>::empty());
            assert(b.drop_last() + seq![b.last() + s@.subrange(i - 2, i - 2)] =~= b);
            assert(rbar_split(s@) =~= b.drop_last() + seq![b.last() + s@.subrange(i - 2, i - 2)] + done);
            i = i - 2;
            end = i;
        } else {
            assert(!bars_at(t, t.len() - 2));
            proof { lemma_rbar_split_step(t); }
            assert(t.drop_last() =~= s@.take(i - 1));
            let ghost r = rbar_split(s@.take(i - 1));
            proof { lemma_rbar_split_nonempty(s@.take(i - 1)); }
            assert(t.last() == s@[i - 1]);
            assert(s@.subrange(i - 1, end as int) =~= seq![s@[i - 1]] + cur);
            assert(rbar_split(t).drop_last() =~= r.drop_last());
            assert(rbar_split(t).last() + cur =~= r.last() + s@.subrange(i - 1, end as int));
            i = i - 1;
        }
    }
    assert(s@.take(0) =~= Seq::<char>::empty());
    let out = slice_chars(s, 0, end);
    assert(rbar_split(s@) =~= seq![out@] + done);
    out
}

/// What follows the last `}]` in `s`, or `None` when `s` holds none: the
/// right part of `str::rsplit_once("}]")`.
pub open spec fn after_last_close(s: Seq<char>) -> Option<Seq<char>>
    decreases s.len(),
{
    if s.len() < 2 {
        None
    } else if s[s.len() - 2] == '}' && s[s.len() - 1] == ']' {
        Some(Seq::<char>::empty())
    } else {
        match after_last_close(s.drop_last()) {
            Some(t) => Some(t.push(s.last())),
            None => None,
        }
    }
}

/// The text after the last `}]` of `s`, if it holds one.
pub fn text_after_last_close(s: &Vec<char>) -> (r: Option<Vec<char>>)
    ensures
        match r {
            Some(t) => after_last_close(s@) == Some(t@),
            None => after_last_close(s@) is None,
        },
{
    let mut j: usize = s.len();
    while j >= 2 && !(s[j - 2] == '}' && s[j - 1] == ']')
        invariant
            j <= s@.len(),
            forall|k: int| #![trigger s@.take(k)] j <= k <= s@.len() ==> after_last_close(s@.take(k)) == match after_last_close(s@.take(j as int)) {
                Some(t) => Some(t + s@.subrange(j as int, k)),
                None => None::<Seq<char>>,
            },
        decreases j,
    {
        let ghost t = s@.take(j as int);
        assert(t.drop_last() =~= s@.take(j - 1));
        assert forall|k: int| #![trigger s@.take(k)] j - 1 <= k <= s@.len() implies after_last_close(s@.take(k)) == match after_last_close(s@.take(j - 1)) {
            Some(u) => Some(u + s@.subrange(j - 1, k)),
            None => None::<Seq<char>>,
        } by {
            if k == j - 1 {
                match after_last_close(s@.take(j - 1)) {
                    Some(u) => { assert(u + s@.subrange(j - 1, k) =~= u); },
                    None => {},
                }
            } else {
                match after_last_close(s@.take(j - 1)) {
                    Some(u) => {
                        assert(u.push(s@[j - 1]) + s@.subrange(j as int, k) =~= u + s@.subrange(j - 1, k));
                    },
                    None => {},
                }
            }
        }
        j = j - 1;
    }
    assert(s@.take(s@.len() as int) =~= s@);
    if j >= 2 {
        let ghost t = s@.take(j as int);
        assert(t[t.len() - 2] == s@[j - 2] && t[t.len() - 1] == s@[j - 1]);
        let out = slice_chars(s, j, s.len());
        assert(Seq::<char>::empty() + s@.subrange(j as int, s@.len() as int) =~= out@);
        Some(out)
    } else {
        None
    }
}

/// Whether `s` starts with `p`.
pub open spec fn starts_with(s: Seq<char>, p: Seq<char>) -> bool {
    s.len() >= p.len() && s.take(p.len() as int) == p
}

/// Whether the text `s` starts with the text `p`.
pub fn chars_start_with(s: &Vec<char>, p: &str) -> (b: bool)
    ensures
        b == starts_with(s@, p@),
{
    let pc = to_chars(p);
    if s.len() < pc.len() {
        return false;
    }
    let mut k: usize = 0;
    while k < pc.len()
        invariant
            k <= pc@.len() <= s@.len(),
            pc@ == p@,
            s@.take(k as int) == pc@.take(k as int),
        decreases pc.len() - k,
    {
        if s[k] != pc[k] {
            assert(s@.take(pc@.len() as int)[k as int] != pc@[k as int]);
            return false;
        }
        assert(s@.take(k + 1) =~= s@.take(k as int).push(s@[k as int]));
        assert(pc@.take(k + 1) =~= pc@.take(k as int).push(pc@[k as int]));
        k = k + 1;
    }
    assert(pc@.take(pc@.len() as int) =~= pc@);
    true
}

/// The text of an earlier message that the language model is shown when a
/// new message is added: an assistant message is stored with its cited
/// chunks, either before `||` (`[{...}]||answer`) or after it
/// (`answer||[{...}]`); the model is shown the answer alone.
pub open spec fn model_visible_content(role: Seq<char>, content: Seq<char>) -> Seq<char> {
    if role == "assistant"@ {
        if starts_with(content, "[{"@) {
            bar_split(content).last()
        } else {
            rbar_split(content)[0]
        }
    } else {
        content
    }
}

/// The text of an earlier message that the language model is shown when a
/// message is regenerated: as for a new message, and an assistant message
/// stored as `||[{...}]answer` is shown what follows its last `}]` (all of
/// it when it holds none).
pub open spec fn regeneration_visible_content(role: Seq<char>, content: Seq<char>) -> Seq<char> {
    if role == "assistant"@ && starts_with(content, "||[{"@) {
        match after_last_close(content) {
            Some(t) => t,
            None => content,
        }
    } else {
        model_visible_content(role, content)
    }
}

/// The answer alone of an earlier message, for a new message.
pub fn visible_content(role: &str, content: &str) -> (out: String)
    ensures
        out@ == model_visible_content(role@, content@),
{
    proof {
        reveal_strlit("assistant");
        reveal_strlit("[{");
    }
    if !str_eq(role, "assistant") {
        return content.to_string();
    }
    let c = to_chars(content);
    if chars_start_with(&c, "[{") {
        string_from_chars(&last_bar_piece(&c))
    } else {
        string_from_chars(&first_rbar_piece(&c))
    }
}

/// The answer alone of an earlier message, for a regeneration.
pub fn regeneration_content(role: &str, content: &str) -> (out: String)
    ensures
        out@ == regeneration_visible_content(role@, content@),
{
    let c = to_chars(content);
    if str_eq(role, "assistant") && chars_start_with(&c, "||[{") {
        match text_after_last_close(&c) {
            Some(t) => string_from_chars(&t),
            None => content.to_string(),
        }
    } else {
        visible_content(role, content)
    }
}

/// What the handlers read of a stored message of a topic.
pub struct HistoryMessage {
    pub id: u128,
    pub role: String,
    pub content: String,
}

/// `m` with its content replaced by `content`.
pub open spec fn with_content(m: HistoryMessage, content: Seq<char>) -> (u128, Seq<char>, Seq<char>) {
    (m.id, m.role@, content)
}

/// The view of a message: its id, role and content.
pub open spec fn message_view(m: HistoryMessage) -> (u128, Seq<char>, Seq<char>) {
    (m.id, m.role@, m.content@)
}

/// The earlier messages of a topic as the language model is shown them
/// when a new message is added: each assistant message reduced to its answer.
pub fn strip_citations(messages: &Vec<HistoryMessage>) -> (r: Vec<HistoryMessage>)
    ensures
        r@.len() == messages@.len(),
        forall|i: int| 0 <= i < r@.len() ==> message_view(#[trigger] r@[i]) == with_content(
            messages@[i],
            model_visible_content(messages@[i].role@, messages@[i].content@),
        ),
{
    let mut r: Vec<HistoryMessage> = Vec::new();
    let mut i: usize = 0;
    while i < messages.len()
        invariant
            i <= messages@.len(),
            r@.len() == i,
            forall|k: int| 0 <= k < i ==> message_view(#[trigger] r@[k]) == with_content(
                messages@[k],
                model_visible_content(messages@[k].role@, messages@[k].content@),
            ),
        decreases messages.len() - i,
    {
        let m = &messages[i];
        let content = visible_content(m.role.as_str(), m.content.as_str());
        r.push(HistoryMessage { id: m.id, role: m.role.clone(), content });
        i = i + 1;
    }
    r
}

/// Index of the last assistant message among `messages`, if any.
pub open spec fn last_assistant(messages: Seq<HistoryMessage>) -> Option<int>
    decreases messages.len(),
{
    if messages.len() == 0 {
        None
    } else if messages.last().role@ == "assistant"@ {
        Some(messages.len() - 1)
    } else {
        last_assistant(messages.drop_last())
    }
}

/// Index of the first message with id `id`, or the number of messages when
/// none has it.
pub open spec fn first_with_id(messages: Seq<HistoryMessage>, id: u128) -> int
    decreases messages.len(),
{
    if messages.len() == 0 {
        0
    } else if messages[0].id == id {
        0
    } else {
        1 + first_with_id(messages.drop_first(), id)
    }
}

/// How a regeneration proceeds.
pub enum Regeneration {
    /// The topic holds exactly two messages: the answer is produced again
    /// from them as they are.
    Whole,
    /// The message `deleted` (the last assistant message) is deleted and the
    /// answer is produced again from the messages before it.
    Replace { deleted: u128, history: Vec<HistoryMessage> },
}

proof fn lemma_last_assistant_bounds(messages: Seq<HistoryMessage>)
    ensures
        last_assistant(messages) matches Some(i) ==> 0 <= i < messages.len()
            && messages[i].role@ == "assistant"@
            && forall|k: int| i < k < messages.len() ==> messages[k].role@ != "assistant"@,
        last_assistant(messages) is None ==> forall|k: int| 0 <= k < messages.len() ==> messages[k].role@ != "assistant"@,
    decreases messages.len(),
{
    if messages.len() > 0 {
        let d = messages.drop_last();
        lemma_last_assistant_bounds(d);
        assert forall|k: int| 0 <= k < d.len() implies #[trigger] d[k] == messages[k] by {}
        if messages.last().role@ != "assistant"@ {
            assert forall|k: int| 0 <= k < messages.len() && (last_assistant(d) is None || k > last_assistant(d).unwrap())
                implies #[trigger] messages[k].role@ != "assistant"@ by {
                if k < d.len() {
                    assert(d[k] == messages[k]);
                }
            }
        }
    }
}

/// Decides a regeneration from the stored messages of a topic: fewer than
/// two are refused; exactly two are used as they are; otherwise the
/// messages are reduced to their answers, the last assistant message is the
/// one replaced (a topic without one is refused), and the answer is produced
/// again from the messages before the first message with its id.
pub fn regeneration_plan(messages: &Vec<HistoryMessage>) -> (r: Result<Regeneration, ServiceError>)
    ensures
        messages@.len() < 2 ==> fails_bad_request(r, "Not enough messages to regenerate"@),
        messages@.len() == 2 ==> r matches Ok(Regeneration::Whole),
        messages@.len() > 2 ==> match last_assistant(messages@) {
            None => fails_bad_request(r, "No message to regenerate"@),
            Some(a) => r matches Ok(Regeneration::Replace { deleted, history }) && deleted == messages@[a].id
                && history@.len() == first_with_id(messages@, deleted)
                && forall|i: int| 0 <= i < history@.len() ==> message_view(#[trigger] history@[i]) == with_content(
                    messages@[i],
                    regeneration_visible_content(messages@[i].role@, messages@[i].content@),
                ),
        },
{
    if messages.len() < 2 {
        return Err(bad_request("Not enough messages to regenerate"));
    }
    if messages.len() == 2 {
        return Ok(Regeneration::Whole);
    }
    let mut cleaned: Vec<HistoryMessage> = Vec::new();
    let mut i: usize = 0;
    while i < messages.len()
        invariant
            i <= messages@.len(),
            cleaned@.len() == i,
            forall|k: int| 0 <= k < i ==> message_view(#[trigger] cleaned@[k]) == with_content(
                messages@[k],
                regeneration_visible_content(messages@[k].role@, messages@[k].content@),
            ),
        decreases messages.len() - i,
    {
        let m = &messages[i];
        let content = regeneration_content(m.role.as_str(), m.content.as_str());
        cleaned.push(HistoryMessage { id: m.id, role: m.role.clone(), content });
        i = i + 1;
    }
    proof { lemma_last_assistant_bounds(messages@); }
    let mut j: usize = cleaned.len();
    while j > 0 && !str_eq(cleaned[j - 1].role.as_str(), "assistant")
        invariant
            j <= cleaned@.len() == messages@.len(),
            forall|k: int| 0 <= k < cleaned@.len() ==> message_view(#[trigger] cleaned@[k]) == with_content(
                messages@[k],
                regeneration_visible_content(messages@[k].role@, messages@[k].content@),
            ),
            forall|k: int| j <= k < messages@.len() ==> messages@[k].role@ != "assistant"@,
        decreases j,
    {
        assert(message_view(cleaned@[j - 1]).1 == messages@[j - 1].role@);
        j = j - 1;
    }
    if j == 0 {
        return Err(bad_request("No message to regenerate"));
    }
    assert(message_view(cleaned@[j - 1]).1 == messages@[j - 1].role@);
    let deleted = cleaned[j - 1].id;
    assert(message_view(cleaned@[j - 1]).0 == messages@[j - 1].id);
    let mut history: Vec<HistoryMessage> = Vec::new();
    let mut k: usize = 0;
    assert(messages@.skip(0) =~= messages@);
    while k < cleaned.len() && cleaned[k].id != deleted
        invariant
            k <= cleaned@.len() == messages@.len(),
            forall|x: int| 0 <= x < cleaned@.len() ==> message_view(#[trigger] cleaned@[x]) == with_content(
                messages@[x],
                regeneration_visible_content(messages@[x].role@, messages@[x].content@),
            ),
            history@.len() == k,
            forall|x: int| 0 <= x < k ==> message_view(#[trigger] history@[x]) == message_view(cleaned@[x]),
            first_with_id(messages@, deleted) == k + first_with_id(messages@.skip(k as int), deleted),
        decreases cleaned.len() - k,
    {
        assert(message_view(cleaned@[k as int]).0 == messages@[k as int].id);
        assert(messages@.skip(k as int).drop_first() =~= messages@.skip(k + 1));
        let c = &cleaned[k];
        history.push(HistoryMessage { id: c.id, role: c.role.clone(), content: c.content.clone() });
        k = k + 1;
    }
    proof {
        if k < cleaned.len() {
            assert(message_view(cleaned@[k as int]).0 == messages@[k as int].id);
            assert(messages@.skip(k as int)[0] == messages@[k as int]);
        } else {
            assert(messages@.skip(k as int) =~= Seq::<HistoryMessage>::empty());
        }
    }
    Ok(Regeneration::Replace { deleted, history })
}

/// Whether `s` holds no `|`.
pub open spec fn no_bar(s: Seq<char>) -> bool {
    forall|i: int| 0 <= i < s.len() ==> s[i] != '|'
}

proof fn lemma_bar_split_no_bar(m: Seq<char>)
    requires
        no_bar(m),
    ensures
        bar_split(m) == seq![m],
        rbar_split(m) == seq![m],
    decreases m.len(),
{
    if m.len() >= 2 {
        assert(no_bar(m.skip(1)));
        assert(no_bar(m.drop_last()));
        lemma_bar_split_no_bar(m.skip(1));
        lemma_bar_split_no_bar(m.drop_last());
        assert(seq![m[0]] + m.skip(1) =~= m);
        assert(m.drop_last().push(m.last()) =~= m);
        assert(bar_split(m) =~= seq![m]);
        assert(rbar_split(m) =~= seq![m]);
    }
}

proof fn lemma_last_piece_after_separator(j: Seq<char>, m: Seq<char>)
    requires
        no_bar(m),
        j.len() == 0 || j.last() != '|',
    ensures
        bar_split(j + "||"@ + m).len() >= 2,
        bar_split(j + "||"@ + m).last() == m,
    decreases j.len(),
{
    reveal_strlit("||");
    let s = j + "||"@ + m;
    lemma_bar_split_no_bar(m);
    if j.len() == 0 {
        assert(s =~= "||"@ + m);
        assert(bars_at(s, 0));
        assert(s.skip(2) =~= m);
    } else if bars_at(s, 0) {
        assert(j.len() >= 2);
        assert(s.skip(2) =~= j.skip(2) + "||"@ + m);
        lemma_last_piece_after_separator(j.skip(2), m);
    } else {
        assert(s.skip(1) =~= j.skip(1) + "||"@ + m);
        lemma_last_piece_after_separator(j.skip(1), m);
    }
}

proof fn lemma_first_piece_before_separator(m: Seq<char>, j: Seq<char>)
    requires
        no_bar(m),
        j.len() == 0 || j[0] != '|',
    ensures
        rbar_split(m + "||"@ + j).len() >= 2,
        rbar_split(m + "||"@ + j)[0] == m,
    decreases j.len(),
{
    reveal_strlit("||");
    let s = m + "||"@ + j;
    lemma_bar_split_no_bar(m);
    if j.len() == 0 {
        assert(s =~= m + "||"@);
        assert(bars_at(s, s.len() - 2));
        assert(s.take(s.len() - 2) =~= m);
    } else if bars_at(s, s.len() - 2) {
        assert(j.len() >= 2);
        assert(s.take(s.len() - 2) =~= m + "||"@ + j.take(j.len() - 2));
        lemma_first_piece_before_separator(m, j.take(j.len() - 2));
    } else {
        assert(s.drop_last() =~= m + "||"@ + j.drop_last());
        lemma_first_piece_before_separator(m, j.drop_last());
    }
}

/// An assistant message stored as its cited chunks, `||` and its answer
/// (`[{...}]||answer`), or as its answer, `||` and its cited chunks
/// (`answer||[{...}]`), is shown to the language model as the answer alone,
/// whatever the chunks hold, for an answer without `|` that does not itself
/// start like a list of chunks.
pub proof fn law_stored_answer_read_back(chunks: Seq<char>, answer: Seq<char>)
    requires
        starts_with(chunks, "[{"@),
        chunks.last() != '|',
        no_bar(answer),
        !starts_with(answer, "[{"@),
    ensures
        model_visible_content("assistant"@, chunks + "||"@ + answer) == answer,
        model_visible_content("assistant"@, answer + "||"@ + chunks) == answer,
{
    reveal_strlit("[{");
    reveal_strlit("||");
    lemma_last_piece_after_separator(chunks, answer);
    assert(chunks.take(2)[0] == chunks[0]);
    lemma_first_piece_before_separator(answer, chunks);
    assert((chunks + "||"@ + answer).take(2) =~= chunks.take(2));
    let t = answer + "||"@ + chunks;
    if answer.len() >= 2 {
        assert(t.take(2) =~= answer.take(2));
    } else if answer.len() == 1 {
        assert(t.take(2)[1] == '|');
    } else {
        assert(t.take(2)[0] == '|');
    }
}

/// Whether `s` holds no `}]`.
pub open spec fn no_close(s: Seq<char>) -> bool {
    forall|i: int| 0 <= i < s.len() - 1 ==> !(#[trigger] s[i] == '}' && s[i + 1] == ']')
}

proof fn lemma_after_last_close(x: Seq<char>, a: Seq<char>)
    requires
        x.len() >= 2,
        x[x.len() - 2] == '}',
        x[x.len() - 1] == ']',
        no_close(a),
    ensures
        after_last_close(x + a) == Some(a),
    decreases a.len(),
{
    let s = x + a;
    if a.len() == 0 {
        assert(s =~= x);
    } else {
        assert(s.drop_last() =~= x + a.drop_last());
        assert(no_close(a.drop_last()));
        lemma_after_last_close(x, a.drop_last());
        if a.len() >= 2 {
            assert(s[s.len() - 2] == a[a.len() - 2] && s[s.len() - 1] == a[a.len() - 1]);
        } else {
            assert(s[s.len() - 2] == x[x.len() - 1]);
        }
        assert(a.drop_last().push(a.last()) =~= a);
    }
}

/// A regenerated answer is produced from the earlier answers alone: an
/// assistant message stored as `[{...}]||answer`, as `answer||[{...}]` or
/// as `||[{...}]answer` is shown to the language model as its answer, for an
/// answer without `|` or `}]` that does not itself start like a list of
/// chunks, and chunks that end as a list does, with `}]`.
pub proof fn law_regenerated_answer_read_back(chunks: Seq<char>, answer: Seq<char>)
    requires
        starts_with(chunks, "[{"@),
        chunks.len() >= 2,
        chunks[chunks.len() - 2] == '}',
        chunks[chunks.len() - 1] == ']',
        no_bar(answer),
        no_close(answer),
        !starts_with(answer, "[{"@),
    ensures
        regeneration_visible_content("assistant"@, chunks + "||"@ + answer) == answer,
        regeneration_visible_content("assistant"@, answer + "||"@ + chunks) == answer,
        regeneration_visible_content("assistant"@, "||"@ + chunks + answer) == answer,
{
    reveal_strlit("[{");
    reveal_strlit("||");
    reveal_strlit("||[{");
    law_stored_answer_read_back(chunks, answer);
    assert(chunks.take(2) == "[{"@);
    assert("||"@ + "[{"@ =~= "||[{"@);
    assert(chunks.take(2)[0] == chunks[0]);
    let first = chunks + "||"@ + answer;
    assert(first[0] == chunks[0]);
    assert(first.take(4)[0] == '[');
    let second = answer + "||"@ + chunks;
    if answer.len() == 0 {
        assert(second =~= "||"@ + chunks);
        assert(second.take(4) =~= "||"@ + chunks.take(2));
        lemma_after_last_close("||"@ + chunks, answer);
        assert(("||"@ + chunks) + answer =~= "||"@ + chunks);
    } else {
        assert(second.take(4)[0] == answer[0]);
        assert(answer[0] != '|');
    }
    let third = "||"@ + chunks + answer;
    assert(third.take(4) =~= "||"@ + chunks.take(2));
    let x = "||"@ + chunks;
    assert(x[x.len() - 2] == '}' && x[x.len() - 1] == ']');
    lemma_after_last_close(x, answer);
}

/// Whether `s` holds no `||`.
pub open spec fn no_separator(s: Seq<char>) -> bool {
    forall|i: int| !#[trigger] bars_at(s, i)
}

proof fn lemma_split_without_separator(s: Seq<char>)
    requires
        no_separator(s),
    ensures
        bar_split(s) == seq![s],
        rbar_split(s) == seq![s],
    decreases s.len(),
{
    if s.len() >= 2 {
        assert(!bars_at(s, 0));
        assert(!bars_at(s, s.len() - 2));
        assert forall|i: int| !#[trigger] bars_at(s.skip(1), i) by {
            if bars_at(s.skip(1), i) {
                assert(bars_at(s, i + 1));
            }
        }
        assert forall|i: int| !#[trigger] bars_at(s.drop_last(), i) by {
            if bars_at(s.drop_last(), i) {
                assert(bars_at(s, i));
            }
        }
        lemma_split_without_separator(s.skip(1));
        lemma_split_without_separator(s.drop_last());
        assert(seq![s[0]] + s.skip(1) =~= s);
        assert(s.drop_last().push(s.last()) =~= s);
        assert(bar_split(s) =~= seq![s]);
        assert(rbar_split(s) =~= seq![s]);
    }
}

proof fn lemma_single_piece(s: Seq<char>)
    ensures
        bar_split(s).len() == 1 ==> bar_split(s)[0] == s,
        rbar_split(s).len() == 1 ==> rbar_split(s)[0] == s,
    decreases s.len(),
{
    if s.len() >= 2 {
        lemma_bar_split_nonempty(s.skip(1));
        lemma_bar_split_nonempty(s.skip(2));
        lemma_rbar_split_nonempty(s.drop_last());
        lemma_rbar_split_nonempty(s.take(s.len() - 2));
        lemma_single_piece(s.skip(1));
        lemma_single_piece(s.drop_last());
        assert(seq![s[0]] + s.skip(1) =~= s);
        assert(s.drop_last().push(s.last()) =~= s);
    }
}

proof fn lemma_last_piece_without_separator(s: Seq<char>)
    ensures
        no_separator(bar_split(s).last()),
    decreases s.len(),
{
    lemma_bar_split_nonempty(s);
    if s.len() >= 2 {
        if bars_at(s, 0) {
            lemma_last_piece_without_separator(s.skip(2));
            lemma_bar_split_nonempty(s.skip(2));
        } else {
            let rest = bar_split(s.skip(1));
            lemma_last_piece_without_separator(s.skip(1));
            lemma_bar_split_nonempty(s.skip(1));
            if rest.len() == 1 {
                lemma_single_piece(s.skip(1));
                assert(seq![s[0]] + s.skip(1) =~= s);
                assert(bar_split(s).last() == s);
                assert forall|i: int| !#[trigger] bars_at(s, i) by {
                    if i >= 1 && bars_at(s, i) {
                        assert(bars_at(s.skip(1), i - 1));
                    }
                }
            } else {
                assert(bar_split(s).last() == rest.last());
            }
        }
    }
}

proof fn lemma_first_rpiece_without_separator(s: Seq<char>)
    ensures
        no_separator(rbar_split(s)[0]),
    decreases s.len(),
{
    lemma_rbar_split_nonempty(s);
    if s.len() >= 2 {
        if bars_at(s, s.len() - 2) {
            lemma_first_rpiece_without_separator(s.take(s.len() - 2));
            lemma_rbar_split_nonempty(s.take(s.len() - 2));
        } else {
            let rest = rbar_split(s.drop_last());
            lemma_first_rpiece_without_separator(s.drop_last());
            lemma_rbar_split_nonempty(s.drop_last());
            if rest.len() == 1 {
                lemma_single_piece(s.drop_last());
                assert(s.drop_last().push(s.last()) =~= s);
                assert(rbar_split(s)[0] == s);
                assert forall|i: int| !#[trigger] bars_at(s, i) by {
                    if i < s.len() - 2 && bars_at(s, i) {
                        assert(bars_at(s.drop_last(), i));
                    }
                }
            } else {
                assert(rbar_split(s)[0] == rest[0]);
            }
        }
    }
}

/// Reducing messages to their answers twice is reducing them once: an
/// answer shown to the model holds no `||` and is shown as it is.
pub proof fn law_visible_content_idempotent(role: Seq<char>, content: Seq<char>)
    ensures
        model_visible_content(role, model_visible_content(role, content)) == model_visible_content(role, content),
{
    if role == "assistant"@ {
        let r = model_visible_content(role, content);
        if starts_with(content, "[{"@) {
            lemma_last_piece_without_separator(content);
        } else {
            lemma_first_rpiece_without_separator(content);
        }
        lemma_split_without_separator(r);
    }
}

/// A regenerated answer is produced from messages that come before the one
/// it replaces: none of the messages kept for it carries the replaced
/// message's id, and they are a prefix of the topic.
pub proof fn law_regeneration_excludes_replaced(messages: Seq<HistoryMessage>, id: u128)
    ensures
        0 <= first_with_id(messages, id) <= messages.len(),
        forall|i: int| 0 <= i < first_with_id(messages, id) ==> (#[trigger] messages[i]).id != id,
    decreases messages.len(),
{
    if messages.len() > 0 && messages[0].id != id {
        let rest = messages.drop_first();
        law_regeneration_excludes_replaced(rest, id);
        assert forall|i: int| 0 <= i < first_with_id(messages, id) implies (#[trigger] messages[i]).id != id by {
            if i > 0 {
                assert(messages[i] == rest[i - 1]);
            }
        }
    }
}

} // verus!
