use vstd::prelude::*;
use crate::errors::{ServiceError, bad_request, bad_request_chars, fails_bad_request};
use crate::text::{rtrim, to_chars, trim_end_chars, string_from_chars};
use crate::rag::{ChatContent, ChatRole, ChatTurn, text_turn, turns_view};

verus! {

/// `s` with every line ending (`\n` or `\r\n`) replaced by one space.
pub open spec fn line_ends_to_spaces(s: Seq<char>) -> Seq<char>
    decreases s.len(),
{
    if s.len() == 0 {
        seq![]
    } else if s.len() >= 2 && s[0] == '\r' && s[1] == '\n' {
        seq![' '] + line_ends_to_spaces(s.skip(2))
    } else if s[0] == '\n' {
        seq![' '] + line_ends_to_spaces(s.skip(1))
    } else {
        seq![s[0]] + line_ends_to_spaces(s.skip(1))
    }
}

/// Text of a card from what the HTML converter printed: its lines joined by
/// single spaces, without trailing white space. (Joining the lines of
/// `str::lines` by spaces and trimming the end gives the text with each line
/// ending replaced by a space, trimmed at the end.)
pub fn converted_text(output: &str) -> (t: String)
    ensures
        t@ == rtrim(line_ends_to_spaces(output@)),
{
    let s = to_chars(output);
    let mut out: Vec<char> = Vec::new();
    let mut i: usize = 0;
    assert(s@.skip(0) =~= s@);
    while i < s.len()
        invariant
            i <= s@.len(),
            line_ends_to_spaces(s@) == out@ + line_ends_to_spaces(s@.skip(i as int)),
        decreases s.len() - i,
    {
        let ghost rest = s@.skip(i as int);
        assert(rest[0] == s@[i as int]);
        if s[i] == '\r' && i + 1 < s.len() && s[i + 1] == '\n' {
            assert(rest[1] == s@[i + 1]);
            assert(rest.skip(2) =~= s@.skip(i + 2));
            out.push(' ');
            assert(line_ends_to_spaces(s@) =~= out@ + line_ends_to_spaces(s@.skip(i + 2)));
            i = i + 2;
        } else {
            assert(rest.skip(1) =~= s@.skip(i + 1));
            if s[i] == '\n' {
                out.push(' ');
            } else {
                out.push(s[i]);
            }
            assert(line_ends_to_spaces(s@) =~= out@ + line_ends_to_spaces(s@.skip(i + 1)));
            i = i + 1;
        }
    }
    assert(s@.skip(i as int) =~= Seq::<char>::empty());
    assert(out@ + Seq::<char>::empty() =~= out@);
    string_from_chars(&trim_end_chars(&out))
}

/// Refuses a change to a card by anyone but its author.
pub fn check_card_author(author_id: u128, user_id: u128) -> (r: Result<(), ServiceError>)
    ensures
        r is Ok <==> author_id == user_id,
        r is Err ==> r == Err::<(), ServiceError>(ServiceError::Forbidden),
{
    if author_id != user_id {
        return Err(ServiceError::Forbidden);
    }
    Ok(())
}

/// Answer to a card creation: the stored card, and whether it was stored as
/// a duplicate of a card close enough to it.
pub struct ReturnCreatedCard<M> {
    pub card_metadata: M,
    pub duplicate: bool,
}

/// Answer to an update whose HTML changed the card's text.
pub struct CardHtmlUpdateError {
    pub message: String,
    pub changed_content: String,
}

/// Link and HTML of an updated card: each the one given, else the card's
/// own (a card without a link gets the empty link).
pub fn updated_card_fields(
    link: Option<String>,
    current_link: Option<String>,
    card_html: Option<String>,
    current_html: Option<String>,
) -> (r: (String, Option<String>))
    ensures
        link matches Some(l) ==> r.0@ == l@,
        link is None ==> (current_link matches Some(l) ==> r.0@ == l@),
        link is None && current_link is None ==> r.0@ == Seq::<char>::empty(),
        card_html is Some ==> r.1 == card_html,
        card_html is None ==> r.1 == current_html,
{
    let l = match link {
        Some(l) => l,
        None => match current_link {
            Some(l) => l,
            None => String::new(),
        },
    };
    let h = match card_html {
        Some(h) => Some(h),
        None => current_html,
    };
    (l, h)
}

/// What `chrono::NaiveDateTime::parse_from_str(s, fmt)` gives: the parsed
/// time as seconds since the epoch (read as UTC) and nanoseconds past that
/// second, or the text of the crate's `ParseError`.
pub uninterp spec fn naive_datetime_parsed(s: Seq<char>, fmt: Seq<char>) -> Result<(i64, u32), Seq<char>>;

/// `chrono::NaiveDateTime::parse_from_str`, the result read through
/// `and_utc()` as `timestamp()` and `timestamp_subsec_nanos()`, the error as
/// its `Display` text. The contract only names the result.
#[verifier::external_body]
fn parse_naive_datetime(s: &str, fmt: &str) -> (r: Result<(i64, u32), String>)
    ensures
        match r {
            Ok(t) => naive_datetime_parsed(s@, fmt@) == Ok::<(i64, u32), Seq<char>>(t),
            Err(e) => naive_datetime_parsed(s@, fmt@) == Err::<(i64, u32), Seq<char>>(e@),
        },
{
    match chrono::NaiveDateTime::parse_from_str(s, fmt) {
        Ok(t) => Ok((t.and_utc().timestamp(), t.and_utc().timestamp_subsec_nanos())),
        Err(e) => Err(e.to_string()),
    }
}

/// Format of a card's time stamp: `YYYY-MM-DD HH:MM:SS`.
pub open spec fn card_time_format() -> Seq<char> {
    "%Y-%m-%d %H:%M:%S"@
}

/// Time stamp of a new card: none when none is given, else the given text
/// read as `YYYY-MM-DD HH:MM:SS`; text that does not read so is refused with
/// the parser's reason.
pub fn created_card_time_stamp(time_stamp: Option<&str>) -> (r: Result<Option<(i64, u32)>, ServiceError>)
    ensures
        time_stamp is None ==> r == Ok::<Option<(i64, u32)>, ServiceError>(None),
        time_stamp matches Some(ts) ==> match naive_datetime_parsed(ts@, card_time_format()) {
            Ok(t) => r == Ok::<Option<(i64, u32)>, ServiceError>(Some(t)),
            Err(e) => fails_bad_request(r, "Invalid timestamp format "@ + e),
        },
{
    match time_stamp {
        None => Ok(None),
        Some(ts) => match parse_naive_datetime(ts, "%Y-%m-%d %H:%M:%S") {
            Ok(t) => Ok(Some(t)),
            Err(e) => {
                let mut m = crate::text::to_chars("Invalid timestamp format ");
                crate::text::extend_chars(&mut m, &crate::text::to_chars(e.as_str()));
                Err(bad_request_chars(&m))
            },
        },
    }
}

/// Time stamp of an updated card: as for a new card, but text that does not
/// read as a time is refused without a reason.
pub fn updated_card_time_stamp(time_stamp: Option<&str>) -> (r: Result<Option<(i64, u32)>, ServiceError>)
    ensures
        time_stamp is None ==> r == Ok::<Option<(i64, u32)>, ServiceError>(None),
        time_stamp matches Some(ts) ==> match naive_datetime_parsed(ts@, card_time_format()) {
            Ok(t) => r == Ok::<Option<(i64, u32)>, ServiceError>(Some(t)),
            Err(_) => fails_bad_request(r, "Invalid timestamp format"@),
        },
{
    match time_stamp {
        None => Ok(None),
        Some(ts) => match parse_naive_datetime(ts, "%Y-%m-%d %H:%M:%S") {
            Ok(t) => Ok(Some(t)),
            Err(_) => Err(bad_request("Invalid timestamp format")),
        },
    }
}

/// `ws` joined by single spaces.
pub open spec fn join_with_spaces(ws: Seq<Seq<char>>) -> Seq<char>
    decreases ws.len(),
{
    if ws.len() == 0 {
        seq![]
    } else if ws.len() == 1 {
        ws[0]
    } else {
        join_with_spaces(ws.drop_last()) + seq![' '] + ws.last()
    }
}

/// The text of the message that hands the model the card at position
/// `index`: `Doc N: ` with N = `index` + 1, and the first 240 words of the
/// card's text joined by single spaces.
pub open spec fn card_document_text(index: nat, content: Seq<char>) -> Seq<char> {
    let ws = crate::text::words(content);
    "Doc "@ + crate::text::decimal(index + 1) + ": "@ + join_with_spaces(ws.take(if ws.len() < 240 { ws.len() as int } else { 240 }))
}

/// The message that hands the model the card at position `index` (counted
/// from 0): `Doc N: ` and the first 240 words of the card's text, joined by
/// single spaces.
pub fn card_document_message(index: u64, content: &str) -> (m: String)
    requires
        index < u64::MAX,
    ensures
        m@ == card_document_text(index as nat, content@),
{
    let ws = crate::text::split_whitespace(&to_chars(content));
    let n: usize = if ws.len() < 240 { ws.len() } else { 240 };
    let ghost all = crate::text::words(content@);
    let mut body: Vec<char> = Vec::new();
    let mut i: usize = 0;
    while i < n
        invariant
            i <= n <= ws@.len(),
            ws@.len() == all.len(),
            forall|k: int| 0 <= k < ws@.len() ==> #[trigger] ws@[k]@ == all[k],
            body@ == join_with_spaces(all.take(i as int)),
        decreases n - i,
    {
        assert(all.take(i + 1).drop_last() =~= all.take(i as int));
        if i > 0 {
            body.push(' ');
        } else {
            assert(all.take(1) =~= seq![all[0]]);
            assert(body@ =~= Seq::<char>::empty());
        }
        let ghost before = body@;
        crate::text::extend_chars(&mut body, &ws[i]);
        proof {
            if i > 0 {
                assert(body@ =~= join_with_spaces(all.take(i as int)) + seq![' '] + all.take(i + 1).last());
            } else {
                assert(body@ =~= all[0]);
            }
        }
        i = i + 1;
    }
    let mut m = to_chars("Doc ");
    crate::text::extend_chars(&mut m, &crate::text::decimal_chars(index + 1));
    crate::text::extend_chars(&mut m, &to_chars(": "));
    crate::text::extend_chars(&mut m, &body);
    string_from_chars(&m)
}

/// The closing request of a completion over cards: the instruction to cite
/// documents by number, then the user's last message.
pub fn card_question_message(last_message: &str) -> (m: String)
    ensures
        m@ == "Respond to this question and include the doc numbers that you used in square brackets at the end of the sentences that you used the docs for.: "@
            + last_message@,
{
    crate::text::concat_strs(
        "Respond to this question and include the doc numbers that you used in square brackets at the end of the sentences that you used the docs for.: ",
        last_message,
    )
}


/// The opening request of a completion over cards.
pub open spec fn cards_intro() -> Seq<char> {
    "I am going to provide several pieces of information for you to use in response to a request or question. You will not respond until I ask you to."@
}

/// The model's acknowledgement of the opening request.
pub open spec fn cards_ack() -> Seq<char> {
    "Understood, I will not reply until I receive a direct request or question."@
}

/// The closing request of a completion over cards, around the user's last message.
pub open spec fn card_question_text(last_message: Seq<char>) -> Seq<char> {
    "Respond to this question and include the doc numbers that you used in square brackets at the end of the sentences that you used the docs for.: "@
        + last_message
}

/// The messages presenting the cards: for each, in order, a user message
/// with its document text and an empty assistant reply.
pub open spec fn card_turns(cards: Seq<Seq<char>>) -> Seq<(ChatRole, bool, Seq<char>, Seq<(bool, Seq<char>)>)>
    decreases cards.len(),
{
    if cards.len() == 0 {
        seq![]
    } else {
        card_turns(cards.drop_last()).push(text_turn(ChatRole::User, card_document_text((cards.len() - 1) as nat, cards.last())))
            .push(text_turn(ChatRole::Assistant, seq![]))
    }
}

/// The text messages of a conversation, in order.
pub open spec fn text_turns(messages: Seq<(ChatRole, String)>) -> Seq<(ChatRole, bool, Seq<char>, Seq<(bool, Seq<char>)>)> {
    messages.map_values(|m: (ChatRole, String)| text_turn(m.0, m.1@))
}

/// The conversation handed to the model for a completion over cards: the
/// earlier messages but the last, the opening request and its
/// acknowledgement, the cards' messages, and the closing request around the
/// last message's text.
pub open spec fn card_conversation_turns(prev_messages: Seq<(ChatRole, String)>, cards: Seq<Seq<char>>) -> Seq<(ChatRole, bool, Seq<char>, Seq<(bool, Seq<char>)>)> {
    text_turns(prev_messages.drop_last()) + seq![text_turn(ChatRole::User, cards_intro()), text_turn(ChatRole::Assistant, cards_ack())]
        + card_turns(cards) + seq![text_turn(ChatRole::User, card_question_text(prev_messages.last().1@))]
}

/// Builds the conversation for a completion over cards from the earlier
/// messages (at least one) and the cards' texts, in the order given.
pub fn card_conversation(prev_messages: Vec<(ChatRole, String)>, cards: &Vec<String>) -> (r: Vec<ChatTurn>)
    requires
        prev_messages@.len() >= 1,
        cards@.len() < u64::MAX,
    ensures
        turns_view(r@) == card_conversation_turns(prev_messages@, cards@.map_values(|c: String| c@)),
{
    let ghost pv = prev_messages@;
    let ghost cv = cards@.map_values(|c: String| c@);
    let mut prev = prev_messages;
    let (last_role, last_text) = prev.pop().unwrap();
    let mut r: Vec<ChatTurn> = Vec::new();
    let mut i: usize = 0;
    while i < prev.len()
        invariant
            pv.len() >= 1,
            prev@ == pv.drop_last(),
            i <= prev@.len(),
            turns_view(r@) == text_turns(prev@.take(i as int)),
        decreases prev@.len() - i,
    {
        let ghost before = turns_view(r@);
        let role = prev[i].0;
        let text = prev[i].1.clone();
        assert(text@ == prev@[i as int].1@);
        r.push(ChatTurn { role: role, content: ChatContent::Text(text) });
        assert(turns_view(r@) =~= before.push(text_turn(prev@[i as int].0, prev@[i as int].1@)));
        assert(prev@.take(i + 1) =~= prev@.take(i as int).push(prev@[i as int]));
        assert(turns_view(r@) =~= text_turns(prev@.take(i + 1)));
        i = i + 1;
    }
    assert(prev@.take(prev@.len() as int) =~= prev@);
    let ghost head = turns_view(r@);
    r.push(ChatTurn { role: ChatRole::User, content: ChatContent::Text(
        "I am going to provide several pieces of information for you to use in response to a request or question. You will not respond until I ask you to.".to_string(),
    ) });
    r.push(ChatTurn { role: ChatRole::Assistant, content: ChatContent::Text(
        "Understood, I will not reply until I receive a direct request or question.".to_string(),
    ) });
    assert(turns_view(r@) =~= head + seq![text_turn(ChatRole::User, cards_intro()), text_turn(ChatRole::Assistant, cards_ack())]);
    let ghost framed = turns_view(r@);
    let mut j: usize = 0;
    while j < cards.len()
        invariant
            cards@.len() < u64::MAX,
            cv == cards@.map_values(|c: String| c@),
            j <= cards@.len(),
            turns_view(r@) == framed + card_turns(cv.take(j as int)),
        decreases cards.len() - j,
    {
        let ghost before = turns_view(r@);
        let doc = card_document_message(j as u64, cards[j].as_str());
        r.push(ChatTurn { role: ChatRole::User, content: ChatContent::Text(doc) });
        let empty = String::new();
        assert(empty@ =~= Seq::<char>::empty());
        r.push(ChatTurn { role: ChatRole::Assistant, content: ChatContent::Text(empty) });
        assert(turns_view(r@) =~= before.push(text_turn(ChatRole::User, doc@)).push(text_turn(ChatRole::Assistant, seq![])));
        assert(cv.take(j + 1).drop_last() =~= cv.take(j as int));
        assert(cv.take(j + 1).last() == cards@[j as int]@);
        assert(card_turns(cv.take(j + 1)) == card_turns(cv.take(j as int)).push(text_turn(ChatRole::User, doc@)).push(text_turn(ChatRole::Assistant, seq![])));
        assert(turns_view(r@) =~= framed + card_turns(cv.take(j + 1)));
        j = j + 1;
    }
    assert(cv.take(cards@.len() as int) =~= cv);
    let ghost body = turns_view(r@);
    let q = card_question_message(last_text.as_str());
    r.push(ChatTurn { role: ChatRole::User, content: ChatContent::Text(q) });
    assert(turns_view(r@) =~= body + seq![text_turn(ChatRole::User, card_question_text(pv.last().1@))]);
    r
}


/// Each card is presented by two messages, in the order the cards are
/// given: a user message with the document text of card `i`, numbered
/// `i + 1`, then an empty assistant reply.
pub proof fn law_card_turns_in_order(cards: Seq<Seq<char>>)
    ensures
        card_turns(cards).len() == 2 * cards.len(),
        forall|i: int| 0 <= i < cards.len() ==> #[trigger] card_turns(cards)[2 * i] == (
            ChatRole::User,
            true,
            card_document_text(i as nat, cards[i]),
            Seq::<(bool, Seq<char>)>::empty(),
        ),
        forall|i: int| 0 <= i < cards.len() ==> #[trigger] card_turns(cards)[2 * i + 1] == (
            ChatRole::Assistant,
            true,
            Seq::<char>::empty(),
            Seq::<(bool, Seq<char>)>::empty(),
        ),
    decreases cards.len(),
{
    if cards.len() > 0 {
        law_card_turns_in_order(cards.drop_last());
        let prev = card_turns(cards.drop_last());
        let c = card_turns(cards);
        assert forall|i: int| 0 <= i < cards.len() implies #[trigger] c[2 * i] == (
            ChatRole::User,
            true,
            card_document_text(i as nat, cards[i]),
            Seq::<(bool, Seq<char>)>::empty(),
        ) by {
            if i < cards.len() - 1 {
                assert(c[2 * i] == prev[2 * i]);
                assert(cards.drop_last()[i] == cards[i]);
            }
        }
        assert forall|i: int| 0 <= i < cards.len() implies #[trigger] c[2 * i + 1] == (
            ChatRole::Assistant,
            true,
            Seq::<char>::empty(),
            Seq::<(bool, Seq<char>)>::empty(),
        ) by {
            if i < cards.len() - 1 {
                assert(c[2 * i + 1] == prev[2 * i + 1]);
            }
        }
    }
}

/// The conversation over cards passes every earlier message but the last
/// through unchanged, each with its own role and text and in the order
/// given; then come the opening request and its acknowledgement, the
/// cards' messages, and last the closing request around the last message's
/// text.
pub proof fn law_card_conversation_shape(prev_messages: Seq<(ChatRole, String)>, cards: Seq<Seq<char>>)
    requires
        prev_messages.len() >= 1,
    ensures ({
        let r = card_conversation_turns(prev_messages, cards);
        let p = prev_messages.len() - 1;
        &&& r.len() == p + 2 + 2 * cards.len() + 1
        &&& forall|k: int| 0 <= k < p ==> #[trigger] r[k] == (
            prev_messages[k].0,
            true,
            prev_messages[k].1@,
            Seq::<(bool, Seq<char>)>::empty(),
        )
        &&& r[p] == (ChatRole::User, true, cards_intro(), Seq::<(bool, Seq<char>)>::empty())
        &&& r[p + 1] == (ChatRole::Assistant, true, cards_ack(), Seq::<(bool, Seq<char>)>::empty())
        &&& r.subrange(p + 2, p + 2 + 2 * cards.len()) == card_turns(cards)
        &&& r[r.len() - 1] == (
            ChatRole::User,
            true,
            "Respond to this question and include the doc numbers that you used in square brackets at the end of the sentences that you used the docs for.: "@
                + prev_messages.last().1@,
            Seq::<(bool, Seq<char>)>::empty(),
        )
    }),
{
    let r = card_conversation_turns(prev_messages, cards);
    let p = prev_messages.len() - 1;
    law_card_turns_in_order(cards);
    assert forall|k: int| 0 <= k < p implies #[trigger] r[k] == (
        prev_messages[k].0,
        true,
        prev_messages[k].1@,
        Seq::<(bool, Seq<char>)>::empty(),
    ) by {
        assert(prev_messages.drop_last()[k] == prev_messages[k]);
    }
    assert(r.subrange(p + 2, p + 2 + 2 * cards.len()) =~= card_turns(cards));
}

} // verus!
