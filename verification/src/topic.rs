use vstd::prelude::*;
use crate::errors::{ServiceError, bad_request, fails_bad_request};
use crate::chunk::opt_view;

verus! {

/// Request to open a chat topic.
pub struct CreateTopicReqPayload {
    /// First message of the topic; the topic is named after it when given.
    pub first_user_message: Option<String>,
    /// Name of the topic, used when no first message is given.
    pub name: Option<String>,
    /// Owner the topic is grouped under (a user id or browser fingerprint).
    pub owner_id: String,
    /// Where the chat takes place.
    pub referrer: Option<String>,
}

/// Request to copy a topic and its messages.
pub struct CloneTopicReqPayload {
    pub topic_id: u128,
    pub name: Option<String>,
    pub owner_id: String,
}

/// Request to rename a topic.
pub struct UpdateTopicReqPayload {
    pub topic_id: u128,
    pub name: String,
}

/// Where the name of a new topic comes from.
pub enum TopicName {
    /// Generated by the language model from this first message.
    FromFirstMessage(String),
    /// Taken as given.
    Given(String),
}

/// Decides how a new topic is named: after its first message when one is
/// given, else by the given name; a request with neither is refused.
pub fn topic_name_source(first_user_message: Option<String>, name: Option<String>) -> (r: Result<TopicName, ServiceError>)
    ensures
        first_user_message is None && name is None ==> fails_bad_request(
            r,
            "first_user_message and name must not be empty"@,
        ),
        first_user_message is Some ==> (r matches Ok(TopicName::FromFirstMessage(m))
            && Some(m@) == opt_view(first_user_message)),
        first_user_message is None && name is Some ==> (r matches Ok(TopicName::Given(n))
            && Some(n@) == opt_view(name)),
{
    match first_user_message {
        Some(m) => Ok(TopicName::FromFirstMessage(m)),
        None => match name {
            Some(n) => Ok(TopicName::Given(n)),
            None => Err(bad_request("first_user_message and name must not be empty")),
        },
    }
}

/// Name of a cloned topic: the one asked for, else that of the topic cloned.
pub fn cloned_topic_name(requested: Option<String>, source_name: String) -> (r: String)
    ensures
        requested is Some ==> Some(r@) == opt_view(requested),
        requested is None ==> r@ == source_name@,
{
    match requested {
        Some(n) => n,
        None => source_name,
    }
}

/// Refuses to rename a topic to the empty name.
pub fn check_topic_name(name: &str) -> (r: Result<(), ServiceError>)
    ensures
        r is Ok <==> name@.len() > 0,
        r is Err ==> fails_bad_request(r, "Topic name must not be empty"@),
{
    if name.is_empty() {
        return Err(bad_request("Topic name must not be empty"));
    }
    Ok(())
}

} // verus!
