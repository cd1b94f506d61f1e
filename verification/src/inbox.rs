//! The mailbox session's decision layer: the lazy-login lifecycle model, the
//! page-request computations built on the paginator, and the translation of
//! raw fetch responses into normalized results. The network exchanges
//! themselves (TLS handshake, IMAP commands, SMTP relay) happen outside this
//! crate; every decision about what to request and what a response means is
//! made and verified here.

use vstd::prelude::*;
use crate::error::GmailError;
use crate::header::{FetchRecord, Uid};
use crate::paging::{generate_sequence, page_start, range_str, Offset};

verus! {

/// Messages per page; fixed, not configurable at runtime.
pub const PAGE_SIZE: u8 = 20;

/// The IMAP server host.
pub const DOMAIN: &'static str = "imap.gmail.com";

/// The IMAP-over-TLS port.
pub const PORT: u16 = 993;

/// The SMTP relay host for the independent outbound send path.
pub const SMTP_DOMAIN: &'static str = "smtp.gmail.com";

/// The header fetch query: envelope, unique identifier and arrival date per
/// sequence number.
pub const HEADER_QUERY: &'static str = "(ENVELOPE UID INTERNALDATE)";

/// The body fetch query: the text part of a single message.
pub const BODY_QUERY: &'static str = "BODY[TEXT]";

/// Lifecycle of the one lazily-established IMAP session. Either no connection
/// exists yet, or an authenticated connection with the mailbox selected —
/// "connected but not selected" is not representable. `total_emails` is the
/// selected mailbox's message count.
pub enum SessionState {
    Disconnected,
    Connected { total_emails: u32 },
}

impl SessionState {
    /// A login (TLS handshake, authentication and mailbox selection, as one
    /// atomic step) is needed exactly when no session exists.
    pub fn needs_login(&self) -> (b: bool)
        ensures
            b == (*self is Disconnected),
    {
        match self {
            SessionState::Disconnected => true,
            SessionState::Connected { .. } => false,
        }
    }

    /// Applies the outcome of a login attempt: success enters the terminal
    /// `Connected` state carrying the selected mailbox's message count, while
    /// any failure along the way leaves the state `Disconnected`, so a later
    /// call retries.
    pub fn apply_login(&mut self, outcome: Option<u32>)
        requires
            *old(self) is Disconnected,
        ensures
            outcome matches Some(total) ==> *final(self) == (SessionState::Connected {
                total_emails: total,
            }),
            outcome is None ==> *final(self) == (SessionState::Disconnected),
    {
        match outcome {
            Some(total) => {
                *self = SessionState::Connected { total_emails: total };
            },
            None => {
                *self = SessionState::Disconnected;
            },
        }
    }

    /// The selected mailbox's message count, present exactly when connected.
    pub fn total_emails(&self) -> (r: Option<u32>)
        ensures
            match *self {
                SessionState::Connected { total_emails } => r == Some(total_emails),
                SessionState::Disconnected => r is None,
            },
    {
        match self {
            SessionState::Connected { total_emails } => Some(*total_emails),
            SessionState::Disconnected => None,
        }
    }
}

/// The range request for the first page. Fetch ranges are exclusive of their
/// upper bound while sequence numbers are 1-based and inclusive, so the
/// paginator is called with `total_emails + 1` to include the newest message.
pub fn first_page_request(total_emails: u32) -> (r: (String, Offset))
    requires
        total_emails < u32::MAX,
    ensures
        r.1 as int == page_start(total_emails as int + 1, PAGE_SIZE as int),
        1 <= r.1,
        r.0@ == range_str(r.1 as int, total_emails as int + 1),
{
    generate_sequence(total_emails + 1, PAGE_SIZE as u32)
}

/// The range request for a later page: the caller-supplied offset already
/// points one below the last-delivered item, so it is used directly as the
/// exclusive upper bound, with no "+1" adjustment.
pub fn next_page_request(offset: Offset) -> (r: (String, Offset))
    ensures
        r.1 as int == page_start(offset as int, PAGE_SIZE as int),
        1 <= r.1,
        r.0@ == range_str(r.1 as int, offset as int),
{
    generate_sequence(offset, PAGE_SIZE as u32)
}

/// Whether a body fetch response yields a body: a first record exists, it has
/// a text part, and the text decodes as UTF-8.
pub open spec fn spec_body_ok(records: Seq<FetchRecord>) -> bool {
    &&& records.len() > 0
    &&& records[0].text matches Some(b) && crate::header::utf8_decode(b@) is Some
}

/// How the decoded body relates to the raw text bytes: the decoded characters
/// on valid UTF-8, a decode error otherwise.
pub open spec fn spec_decoded_body_matches(bytes: Seq<u8>, r: Result<String, GmailError>) -> bool {
    match crate::header::utf8_decode(bytes) {
        Some(s) => r matches Ok(body) && body@ == s,
        None => r matches Err(GmailError::Parser(_)),
    }
}

/// What a single-message body fetch by identifier means: no record at all is
/// `NotUid` (the identifier is absent from the inbox, distinct from a generic
/// empty result), a record without a text part is a missing field, and the
/// text bytes must decode as UTF-8 — here a decode failure is an error, not
/// an empty-string fallback.
pub fn extract_body(uid: Uid, records: &Vec<FetchRecord>) -> (r: Result<String, GmailError>)
    ensures
        r is Ok <==> spec_body_ok(records@),
        records@.len() == 0 ==> (r matches Err(GmailError::NotUid(u)) && u == uid),
        records@.len() > 0 && records@[0].text is None ==> (r matches Err(
            GmailError::UnspecifiedParameter(p),
        ) && p@ == "TEXT"@),
        records@.len() > 0 ==> (records@[0].text matches Some(b) ==> spec_decoded_body_matches(
            b@,
            r,
        )),
{
    if records.len() == 0 {
        return Err(GmailError::NotUid(uid));
    }
    let bytes: &Vec<u8> = match &records[0].text {
        Some(b) => b,
        None => {
            return Err(GmailError::UnspecifiedParameter("TEXT"));
        },
    };
    match crate::header::parse(bytes.as_slice()) {
        Ok(s) => Ok(s),
        Err(e) => Err(GmailError::Parser(e)),
    }
}

} // verus!
