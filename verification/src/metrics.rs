use vstd::prelude::*;
use crate::text::concat_strs;

verus! {

/// Whether a metrics request carries the admin key: an `X-API-KEY` header
/// equal to it, or, when that header is absent, an `Authorization` header
/// equal to `Bearer <key>`. Without a configured admin key nothing is let in.
pub open spec fn x_api_access(admin_key: Option<Seq<char>>, x_api_key: Option<Seq<char>>, authorization: Option<Seq<char>>) -> bool {
    match admin_key {
        None => false,
        Some(k) => match x_api_key {
            Some(x) => x == k,
            None => match authorization {
                Some(a) => a == "Bearer "@ + k,
                None => false,
            },
        },
    }
}

/// The view of an optional text.
pub open spec fn opt_str_view(o: Option<&str>) -> Option<Seq<char>> {
    match o {
        Some(s) => Some(s@),
        None => None,
    }
}

/// Decides whether a metrics request may read the metrics. Header values
/// are given as text (an unreadable value as the empty text).
pub fn check_x_api_access(admin_key: Option<&str>, x_api_key: Option<&str>, authorization: Option<&str>) -> (b: bool)
    ensures
        b == x_api_access(opt_str_view(admin_key), opt_str_view(x_api_key), opt_str_view(authorization)),
{
    match admin_key {
        None => false,
        Some(k) => match x_api_key {
            Some(x) => crate::text::chars_equal(&crate::text::to_chars(x), &crate::text::to_chars(k)),
            None => match authorization {
                Some(a) => {
                    let expected = concat_strs("Bearer ", k);
                    crate::text::chars_equal(&crate::text::to_chars(expected.as_str()), &crate::text::to_chars(a))
                },
                None => false,
            },
        },
    }
}

/// Milliseconds the ingestion worker waits after a poll: 100 after taking an
/// item; after an empty poll, twice the last wait but at least 10000.
pub open spec fn next_poll_wait(previous_ms: u64, got_item: bool) -> int {
    if got_item {
        100
    } else if previous_ms * 2 > 10000 {
        previous_ms * 2
    } else {
        10000
    }
}

/// Wait of the ingestion worker after a poll. The doubling is unbounded, so
/// `requires` keeps it within `u64`.
pub fn poll_wait_ms(previous_ms: u64, got_item: bool) -> (w: u64)
    requires
        got_item || previous_ms * 2 <= u64::MAX,
    ensures
        w == next_poll_wait(previous_ms, got_item),
{
    if got_item {
        100
    } else {
        let doubled = previous_ms * 2;
        if doubled > 10000 { doubled } else { 10000 }
    }
}

} // verus!
