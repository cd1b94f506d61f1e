//! The send path's decision layer: both addresses — the recipient, then the
//! sender — must pass address-syntax validation before any network I/O is
//! attempted. The relay submission itself happens outside this crate, on an
//! independent transport.

use vstd::prelude::*;
use crate::error::GmailError;

verus! {

/// Declares the mail library's mailbox type (`"Name <user@domain>"`) so
/// validated addresses can be carried opaquely to the transport.
#[verifier::external_type_specification]
#[verifier::external_body]
pub struct ExMailbox(lettre::message::Mailbox);

/// Whether the mail library's address parser accepts the string.
pub uninterp spec fn address_ok(s: Seq<char>) -> bool;

/// Relies on lettre's `FromStr` for `message::Mailbox` ("Name <user@domain>"
/// or "user@domain"): acceptance is a function of the characters alone, and
/// the empty string is never accepted (an addr-spec needs `local@domain`).
#[verifier::external_body]
fn parse_mailbox(s: &str) -> (r: Result<lettre::message::Mailbox, lettre::address::AddressError>)
    ensures
        r is Ok <==> address_ok(s@),
        s@.len() == 0 ==> r is Err,
{
    s.parse()
}

/// The validation a send performs before any network call: the recipient,
/// then the sender, must both be well-formed mailbox strings; the first
/// malformed one fails the send with an address-format error. On success the
/// two parsed mailboxes are handed back for the transport to use.
pub fn check_send_addresses(to: &str, from: &str) -> (r: Result<
    (lettre::message::Mailbox, lettre::message::Mailbox),
    GmailError,
>)
    ensures
        r is Ok <==> address_ok(to@) && address_ok(from@),
        r is Err ==> (r matches Err(GmailError::Address(_))),
        to@.len() == 0 ==> (r matches Err(GmailError::Address(_))),
{
    let to_mailbox = match parse_mailbox(to) {
        Ok(m) => m,
        Err(e) => {
            return Err(GmailError::Address(e));
        },
    };
    let from_mailbox = match parse_mailbox(from) {
        Ok(m) => m,
        Err(e) => {
            return Err(GmailError::Address(e));
        },
    };
    Ok((to_mailbox, from_mailbox))
}

} // verus!
