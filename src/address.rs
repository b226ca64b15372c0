//! Mailbox addresses: validity and domain, as the `email_address` crate
//! reads them.
use std::str::FromStr;
use vstd::prelude::*;

verus! {

/// The name for whether `EmailAddress::from_str` accepts the text.
pub uninterp spec fn address_ok(s: Seq<char>) -> bool;

/// The name for what `EmailAddress::domain` returns for an accepted text.
pub uninterp spec fn address_domain(s: Seq<char>) -> Seq<char>;

/// The name for what `str::to_lowercase` returns.
pub uninterp spec fn lower_of(s: Seq<char>) -> Seq<char>;

/// Relies on `email_address::EmailAddress::from_str`, which accepts or
/// refuses the text as a mailbox address, and on `EmailAddress::domain`,
/// which gives the domain part of an accepted address; both depend on the
/// text alone.
#[verifier::external_body]
pub(crate) fn parse_domain(s: &str) -> (r: Option<String>)
    ensures
        r is Some <==> address_ok(s@),
        r matches Some(d) ==> d@ == address_domain(s@),
{
    email_address::EmailAddress::from_str(s).ok().map(|a| a.domain().to_string())
}

/// Relies on `str::to_lowercase`: the lower-case form of the text, which
/// depends on its characters alone.
#[verifier::external_body]
pub(crate) fn to_lower(s: &str) -> (r: String)
    ensures
        r@ == lower_of(s@),
{
    s.to_lowercase()
}

/// The cache key of a recipient: its domain in lower case.
pub open spec fn domain_key(recipient: Seq<char>) -> Seq<char> {
    lower_of(address_domain(recipient))
}

/// The cache key of a recipient, or `None` when it is not a valid address.
pub fn recipient_domain(recipient: &str) -> (r: Option<String>)
    ensures
        r is Some <==> address_ok(recipient@),
        r matches Some(d) ==> d@ == domain_key(recipient@),
{
    match parse_domain(recipient) {
        Some(d) => Some(to_lower(d.as_str())),
        None => None,
    }
}

} // verus!
