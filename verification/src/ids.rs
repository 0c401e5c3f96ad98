use vstd::prelude::*;

verus! {

/// Lower-case hexadecimal digit for `d` (0 to 15).
pub open spec fn hex_lower(d: nat) -> char {
    if d < 10 {
        ((d + 48) as u32) as char
    } else {
        ((d + 87) as u32) as char
    }
}

/// The 32 lower-case hexadecimal digits of `id`, most significant first.
pub open spec fn hex32(id: u128) -> Seq<char> {
    Seq::new(32, |k: int| hex_lower((id as nat / vstd::arithmetic::power2::pow2((4 * (31 - k)) as nat)) % 16))
}

/// The hyphenated form of a UUID, `xxxxxxxx-xxxx-xxxx-xxxx-xxxxxxxxxxxx`,
/// in lower case: how `uuid::Uuid` displays itself.
pub open spec fn hyphenated(id: u128) -> Seq<char> {
    let h = hex32(id);
    h.subrange(0, 8) + seq!['-'] + h.subrange(8, 12) + seq!['-'] + h.subrange(12, 16) + seq!['-']
        + h.subrange(16, 20) + seq!['-'] + h.subrange(20, 32)
}

/// `uuid::Uuid::to_string` of the UUID with value `id`: its hyphenated
/// lower-case form, as the crate's `Display` writes it.
#[verifier::external_body]
pub(crate) fn uuid_to_string(id: u128) -> (s: String)
    ensures
        s@ == hyphenated(id),
{
    uuid::Uuid::from_u128(id).to_string()
}

/// The value that `uuid::Uuid::parse_str` reads from the text `s`, or `None`
/// where it refuses the text. The crate accepts 32 hexadecimal digits, the
/// hyphenated form, that form in braces, and that form after `urn:uuid:`.
pub uninterp spec fn parsed_uuid(s: Seq<char>) -> Option<u128>;

/// `uuid::Uuid::parse_str`, with the parsed value as a `u128`. `Uuid::from_str`
/// and `Uuid::try_parse` call the same parser in the crate's source.
#[verifier::external_body]
pub(crate) fn parse_uuid(s: &str) -> (r: Option<u128>)
    ensures
        r == parsed_uuid(s@),
{
    match uuid::Uuid::parse_str(s) {
        Ok(u) => Some(u.as_u128()),
        Err(_) => None,
    }
}

} // verus!
