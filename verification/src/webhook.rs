use vstd::prelude::*;
use crate::errors::{ServiceError, bad_request, bad_request_chars, fails_bad_request};
use crate::ids::{parse_uuid, parsed_uuid};
use crate::text::{to_chars, extend_chars};

verus! {

/// What the content service reports was done to an entry.
#[derive(Debug, Clone, Copy, PartialEq, Eq)]
pub enum Operation {
    Publish,
    Archive,
    Delete,
    Unpublish,
    ScheduledStart,
    ScheduledEnd,
}

/// What the dataset does in answer to an operation.
#[derive(Debug, Clone, Copy, PartialEq, Eq)]
pub enum WebhookAction {
    /// The entry is queued as a chunk.
    Publish,
    /// The entry's chunk is removed.
    Delete,
}

/// Publishing and the start of a schedule put the entry in the dataset;
/// every other operation takes it out.
pub fn webhook_action(op: Operation) -> (a: WebhookAction)
    ensures
        a == WebhookAction::Publish <==> (op == Operation::Publish || op == Operation::ScheduledStart),
{
    match op {
        Operation::Publish => WebhookAction::Publish,
        Operation::ScheduledStart => WebhookAction::Publish,
        Operation::Archive => WebhookAction::Delete,
        Operation::Delete => WebhookAction::Delete,
        Operation::Unpublish => WebhookAction::Delete,
        Operation::ScheduledEnd => WebhookAction::Delete,
    }
}

/// Query of the webhook: the API key it acts with and the dataset it fills.
pub struct WebhookQueryParams {
    pub trieve_key: String,
    pub trieve_dataset: String,
}

/// Reads the dataset a webhook call fills: both query values must be given,
/// and the dataset must be a UUID as `uuid` parses it.
pub fn webhook_dataset_id(query: &WebhookQueryParams) -> (r: Result<u128, ServiceError>)
    ensures
        query.trieve_key@.len() == 0 || query.trieve_dataset@.len() == 0 ==> fails_bad_request(
            r,
            "trieve_key and trieve_dataset are required"@,
        ),
        query.trieve_key@.len() > 0 && query.trieve_dataset@.len() > 0 ==> match parsed_uuid(query.trieve_dataset@) {
            Some(id) => r == Ok::<u128, ServiceError>(id),
            None => fails_bad_request(r, "Invalid dataset id: "@ + query.trieve_dataset@),
        },
{
    if query.trieve_key.as_str().is_empty() || query.trieve_dataset.as_str().is_empty() {
        return Err(bad_request("trieve_key and trieve_dataset are required"));
    }
    match parse_uuid(query.trieve_dataset.as_str()) {
        Some(id) => Ok(id),
        None => {
            let mut m = to_chars("Invalid dataset id: ");
            extend_chars(&mut m, &to_chars(query.trieve_dataset.as_str()));
            Err(bad_request_chars(&m))
        },
    }
}

/// A field of a content entry, by the kind of JSON value it holds; `M` is
/// the JSON value kept as metadata.
pub enum ContentFieldValue<M> {
    /// A string: appended to the chunk's text.
    Text(String),
    /// An array: its string items become tags (`None` stands for any other item).
    Array(Vec<Option<String>>),
    /// A boolean, number or object: kept as metadata under the field's key.
    Kept(M),
    /// Null: dropped.
    Ignored,
}

/// One field of a content entry.
pub struct ContentEntry<M> {
    pub key: String,
    pub value: ContentFieldValue<M>,
}

/// A content entry as the content service sends it, its fields in the order
/// its JSON map yields them (their keys are unique, as in that map).
pub struct ContentValue<M> {
    pub id: String,
    pub name: String,
    pub model_id: String,
    pub data: Vec<ContentEntry<M>>,
}

/// Whether no two fields share a key, as in the JSON map they come from.
pub open spec fn unique_field_keys<M>(entries: Seq<ContentEntry<M>>) -> bool {
    forall|i: int, j: int| 0 <= i < j < entries.len() ==> #[trigger] entries[i].key@ != #[trigger] entries[j].key@
}

/// The chunk made from a content entry.
pub struct WebhookChunk<M> {
    pub tracking_id: String,
    pub chunk_html: String,
    pub tag_set: Vec<String>,
    /// The fields kept as metadata, key and value, in order.
    pub metadata: Vec<(String, M)>,
}

/// The string items of an array field, in order.
pub open spec fn string_items(items: Seq<Option<String>>) -> Seq<Seq<char>>
    decreases items.len(),
{
    if items.len() == 0 {
        seq![]
    } else {
        string_items(items.drop_last()) + match items.last() {
            Some(s) => seq![s@],
            None => seq![],
        }
    }
}

/// Text added to the chunk for its fields: each string field on a line of
/// its own.
pub open spec fn content_text<M>(entries: Seq<ContentEntry<M>>) -> Seq<char>
    decreases entries.len(),
{
    if entries.len() == 0 {
        seq![]
    } else {
        content_text(entries.drop_last()) + match entries.last().value {
            ContentFieldValue::Text(v) => seq!['\n'] + v@,
            _ => seq![],
        }
    }
}

/// Tags of the chunk: the string items of every array field, in order.
pub open spec fn content_tags<M>(entries: Seq<ContentEntry<M>>) -> Seq<Seq<char>>
    decreases entries.len(),
{
    if entries.len() == 0 {
        seq![]
    } else {
        content_tags(entries.drop_last()) + match entries.last().value {
            ContentFieldValue::Array(items) => string_items(items@),
            _ => seq![],
        }
    }
}

/// The fields kept as metadata, key and value, in order.
pub open spec fn content_metadata<M>(entries: Seq<ContentEntry<M>>) -> Seq<(Seq<char>, M)>
    decreases entries.len(),
{
    if entries.len() == 0 {
        seq![]
    } else {
        content_metadata(entries.drop_last()) + match entries.last().value {
            ContentFieldValue::Kept(m) => seq![(entries.last().key@, m)],
            _ => seq![],
        }
    }
}

/// The views of metadata pairs.
pub open spec fn metadata_views<M>(v: Seq<(String, M)>) -> Seq<(Seq<char>, M)> {
    v.map_values(|p: (String, M)| (p.0@, p.1))
}

/// The views of a vector of strings.
pub open spec fn string_views(v: Seq<String>) -> Seq<Seq<char>> {
    v.map_values(|s: String| s@)
}

proof fn lemma_string_views_push(v: Seq<String>, s: String)
    ensures
        string_views(v.push(s)) == string_views(v).push(s@),
{
    assert(string_views(v.push(s)) =~= string_views(v).push(s@));
}

/// Appends the string items of `items` to `tags`.
fn push_string_items(tags: &mut Vec<String>, items: &Vec<Option<String>>)
    ensures
        string_views(final(tags)@) == string_views(old(tags)@) + string_items(items@),
{
    let ghost start = string_views(tags@);
    let mut k: usize = 0;
    while k < items.len()
        invariant
            k <= items@.len(),
            string_views(tags@) == start + string_items(items@.take(k as int)),
        decreases items.len() - k,
    {
        assert(items@.take(k + 1).drop_last() =~= items@.take(k as int));
        match &items[k] {
            Some(s) => {
                let c = s.clone();
                proof { lemma_string_views_push(tags@, c); }
                tags.push(c);
            },
            None => {},
        }
        k = k + 1;
    }
    assert(items@.take(items@.len() as int) =~= items@);
}

/// Makes the chunk for a content entry: tracked by the entry's id, its text
/// the entry's name followed by its string fields, one per line, its tags the
/// string items of its array fields, its metadata the boolean, number and
/// object fields under their keys.
pub fn webhook_chunk<M>(content: ContentValue<M>) -> (c: WebhookChunk<M>)
    requires
        unique_field_keys(content.data@),
    ensures
        c.tracking_id@ == content.id@,
        c.chunk_html@ == content.name@ + content_text(content.data@),
        string_views(c.tag_set@) == content_tags(content.data@),
        metadata_views(c.metadata@) == content_metadata(content.data@),
{
    let ghost all = content.data@;
    let ContentValue { id, name, model_id: _, data } = content;
    let mut data = data;
    let mut body = to_chars(name.as_str());
    let mut tags: Vec<String> = Vec::new();
    let mut metadata: Vec<(String, M)> = Vec::new();
    let mut i: usize = 0;
    let total: usize = data.len();
    assert(all.skip(0) =~= all);
    while data.len() > 0
        invariant
            i <= all.len(),
            total == all.len(),
            data@ == all.skip(i as int),
            body@ == name@ + content_text(all.take(i as int)),
            string_views(tags@) == content_tags(all.take(i as int)),
            metadata_views(metadata@) == content_metadata(all.take(i as int)),
        decreases data@.len(),
    {
        assert(all.skip(i as int)[0] == all[i as int]);
        let entry = data.remove(0);
        assert(all.skip(i as int).remove(0) =~= all.skip(i + 1));
        assert(all.take(i + 1).drop_last() =~= all.take(i as int));
        assert(all.take(i + 1).last() == all[i as int]);
        let ContentEntry { key, value } = entry;
        match value {
            ContentFieldValue::Text(v) => {
                proof { reveal_strlit("\n"); }
                let mut line = to_chars("\n");
                extend_chars(&mut line, &to_chars(v.as_str()));
                extend_chars(&mut body, &line);
                assert(body@ =~= name@ + content_text(all.take(i + 1)));
            },
            ContentFieldValue::Array(items) => {
                push_string_items(&mut tags, &items);
            },
            ContentFieldValue::Kept(m) => {
                let ghost before = metadata@;
                metadata.push((key, m));
                assert(metadata_views(metadata@) =~= metadata_views(before).push((all[i as int].key@, m)));
            },
            ContentFieldValue::Ignored => {},
        }
        i = i + 1;
    }
    assert(all.take(all.len() as int) =~= all);
    WebhookChunk {
        tracking_id: id,
        chunk_html: crate::text::string_from_chars(&body),
        tag_set: tags,
        metadata,
    }
}


/// The string items of two runs of array items, one after the other, are
/// those of the first run followed by those of the second.
pub proof fn law_string_items_concat(a: Seq<Option<String>>, b: Seq<Option<String>>)
    ensures
        string_items(a + b) == string_items(a) + string_items(b),
    decreases b.len(),
{
    if b.len() == 0 {
        assert(a + b =~= a);
        assert(string_items(a) + string_items(b) =~= string_items(a));
    } else {
        law_string_items_concat(a, b.drop_last());
        assert((a + b).drop_last() =~= a + b.drop_last());
        assert((a + b).last() == b.last());
        assert(string_items(a + b) =~= string_items(a) + string_items(b));
    }
}

/// A string item is a tag, any other item is none.
pub proof fn law_string_items_single(item: Option<String>)
    ensures
        string_items(seq![item]) == match item {
            Some(s) => seq![s@],
            None => Seq::<Seq<char>>::empty(),
        },
{
    let x = match item {
        Some(s) => seq![s@],
        None => Seq::<Seq<char>>::empty(),
    };
    assert(seq![item].drop_last() =~= Seq::<Option<String>>::empty());
    assert(seq![item].last() == item);
    assert(string_items(seq![item]) == string_items(Seq::<Option<String>>::empty()) + x);
    assert(Seq::<Seq<char>>::empty() + x =~= x);
}

/// The tags of two runs of fields, one after the other, are those of the
/// first run followed by those of the second: no array field's items are
/// lost or reordered.
pub proof fn law_content_tags_concat<M>(a: Seq<ContentEntry<M>>, b: Seq<ContentEntry<M>>)
    ensures
        content_tags(a + b) == content_tags(a) + content_tags(b),
    decreases b.len(),
{
    if b.len() == 0 {
        assert(a + b =~= a);
        assert(content_tags(a) + content_tags(b) =~= content_tags(a));
    } else {
        law_content_tags_concat(a, b.drop_last());
        assert((a + b).drop_last() =~= a + b.drop_last());
        assert((a + b).last() == b.last());
        assert(content_tags(a + b) =~= content_tags(a) + content_tags(b));
    }
}

/// One field gives as tags the string items of its array, in order, and no
/// tag when it is not an array.
pub proof fn law_content_tags_single<M>(e: ContentEntry<M>)
    ensures
        content_tags(seq![e]) == match e.value {
            ContentFieldValue::Array(items) => string_items(items@),
            _ => Seq::<Seq<char>>::empty(),
        },
{
    let x = match e.value {
        ContentFieldValue::Array(items) => string_items(items@),
        _ => Seq::<Seq<char>>::empty(),
    };
    assert(seq![e].drop_last() =~= Seq::<ContentEntry<M>>::empty());
    assert(seq![e].last() == e);
    assert(content_tags(seq![e]) == content_tags(Seq::<ContentEntry<M>>::empty()) + x);
    assert(Seq::<Seq<char>>::empty() + x =~= x);
}

/// The text of two runs of fields is that of the first run followed by
/// that of the second.
pub proof fn law_content_text_concat<M>(a: Seq<ContentEntry<M>>, b: Seq<ContentEntry<M>>)
    ensures
        content_text(a + b) == content_text(a) + content_text(b),
    decreases b.len(),
{
    if b.len() == 0 {
        assert(a + b =~= a);
        assert(content_text(a) + content_text(b) =~= content_text(a));
    } else {
        law_content_text_concat(a, b.drop_last());
        assert((a + b).drop_last() =~= a + b.drop_last());
        assert((a + b).last() == b.last());
        assert(content_text(a + b) =~= content_text(a) + content_text(b));
    }
}

/// The metadata of two runs of fields is that of the first run followed by
/// that of the second.
pub proof fn law_content_metadata_concat<M>(a: Seq<ContentEntry<M>>, b: Seq<ContentEntry<M>>)
    ensures
        content_metadata(a + b) == content_metadata(a) + content_metadata(b),
    decreases b.len(),
{
    if b.len() == 0 {
        assert(a + b =~= a);
        assert(content_metadata(a) + content_metadata(b) =~= content_metadata(a));
    } else {
        law_content_metadata_concat(a, b.drop_last());
        assert((a + b).drop_last() =~= a + b.drop_last());
        assert((a + b).last() == b.last());
        assert(content_metadata(a + b) =~= content_metadata(a) + content_metadata(b));
    }
}

/// One field's contribution: a string field adds a line with its text, a
/// field kept as metadata adds its key and value, and no other field adds
/// either.
pub proof fn law_content_single_field<M>(e: ContentEntry<M>)
    ensures
        content_text(seq![e]) == match e.value {
            ContentFieldValue::Text(v) => seq!['\n'] + v@,
            _ => Seq::<char>::empty(),
        },
        content_metadata(seq![e]) == match e.value {
            ContentFieldValue::Kept(m) => seq![(e.key@, m)],
            _ => Seq::<(Seq<char>, M)>::empty(),
        },
{
    let t = match e.value {
        ContentFieldValue::Text(v) => seq!['\n'] + v@,
        _ => Seq::<char>::empty(),
    };
    let m = match e.value {
        ContentFieldValue::Kept(m) => seq![(e.key@, m)],
        _ => Seq::<(Seq<char>, M)>::empty(),
    };
    assert(seq![e].drop_last() =~= Seq::<ContentEntry<M>>::empty());
    assert(seq![e].last() == e);
    assert(content_text(seq![e]) == content_text(Seq::<ContentEntry<M>>::empty()) + t);
    assert(Seq::<char>::empty() + t =~= t);
    assert(content_metadata(seq![e]) == content_metadata(Seq::<ContentEntry<M>>::empty()) + m);
    assert(Seq::<(Seq<char>, M)>::empty() + m =~= m);
}


/// Every string item of every array field of an entry is among its tags.
pub proof fn law_array_items_are_tags<M>(entries: Seq<ContentEntry<M>>, j: int, items: Vec<Option<String>>, k: int, item: String)
    requires
        0 <= j < entries.len(),
        entries[j].value == ContentFieldValue::<M>::Array(items),
        0 <= k < items@.len(),
        items@[k] == Some(item),
    ensures
        content_tags(entries).contains(item@),
{
    let e = entries[j];
    assert(entries =~= entries.take(j) + seq![e] + entries.skip(j + 1));
    law_content_tags_concat(entries.take(j) + seq![e], entries.skip(j + 1));
    law_content_tags_concat(entries.take(j), seq![e]);
    law_content_tags_single(e);
    let iv = items@;
    assert(iv =~= iv.take(k) + seq![iv[k]] + iv.skip(k + 1));
    law_string_items_concat(iv.take(k) + seq![iv[k]], iv.skip(k + 1));
    law_string_items_concat(iv.take(k), seq![iv[k]]);
    law_string_items_single(iv[k]);
    let before = content_tags(entries.take(j)) + string_items(iv.take(k));
    assert(content_tags(entries)[before.len() as int] == item@);
}

} // verus!
