use vstd::prelude::*;

verus! {

/// The hyphenated text of the UUID whose 128 bits are `id`.
pub uninterp spec fn uuid_text(id: u128) -> Seq<char>;

/// The 128 bits of the UUID written in `s`, when `s` is one.
pub uninterp spec fn uuid_parsed(s: Seq<char>) -> Option<u128>;

/// Relies on uuid::Uuid::from_u128 and its `Display`: the hyphenated form of
/// the id, which uuid::Uuid::parse_str reads back to the same id.
#[verifier::external_body]
pub(crate) fn id_text(id: u128) -> (r: String)
    ensures
        r@ == uuid_text(id),
        uuid_parsed(r@) == Some(id),
{
    uuid::Uuid::from_u128(id).to_string()
}

/// Relies on uuid::Uuid::parse_str and `Uuid::as_u128`: the outcome depends on `s` alone.
#[verifier::external_body]
pub(crate) fn parse_id(s: &str) -> (r: Option<u128>)
    ensures
        r == uuid_parsed(s@),
{
    uuid::Uuid::parse_str(s).ok().map(|u| u.as_u128())
}

} // verus!
