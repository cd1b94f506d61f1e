//! The error taxonomy: every failure is surfaced to the caller as a typed
//! result. Variants that carry an error of one of the protocol libraries
//! hold it as an opaque value; the declarations below make those types
//! nameable in contracts.

use vstd::prelude::*;

verus! {

/// Declares the IMAP client's error type so it can be carried opaquely.
#[verifier::external_type_specification]
#[verifier::external_body]
pub struct ExImapError(imap::Error);

/// Declares the TLS library's error type so it can be carried opaquely.
#[verifier::external_type_specification]
#[verifier::external_body]
pub struct ExTlsError(native_tls::Error);

/// Declares the SMTP transport's error type so it can be carried opaquely.
#[verifier::external_type_specification]
#[verifier::external_body]
pub struct ExSmtpError(lettre::transport::smtp::Error);

/// Declares the address-syntax error type so it can be carried opaquely.
#[verifier::external_type_specification]
#[verifier::external_body]
pub struct ExAddressError(lettre::address::AddressError);

/// Declares std's UTF-8 decoding error type so it can be carried opaquely.
#[verifier::external_type_specification]
#[verifier::external_body]
pub struct ExFromUtf8Error(std::string::FromUtf8Error);

/// Every way an inbox operation can fail.
#[derive(Debug)]
pub enum GmailError {
    /// TLS handshake, login, mailbox selection or fetch failed; the session
    /// stays disconnected and a later call retries.
    Imap(imap::Error),
    /// Building the TLS connector failed.
    Tls(native_tls::Error),
    /// A field requested from the server is absent from its response record.
    UnspecifiedParameter(&'static str),
    /// The identifier does not exist in the inbox.
    NotUid(u32),
    /// Bytes that had to be decoded were not valid UTF-8.
    Parser(std::string::FromUtf8Error),
    /// Unique access to the inbox could not be obtained.
    Lock,
    /// The relay submission failed.
    Smtp(lettre::transport::smtp::Error),
    /// A recipient or sender address is malformed.
    Address(lettre::address::AddressError),
}

/// Turns an optional protocol field into a result, reporting which requested
/// parameter the server's response left out.
pub trait MissingParam<T>: Sized {
    /// What `missing_param` returns.
    spec fn missing_param_spec(self, param: &'static str) -> Result<T, GmailError>;

    /// The contained value, or `UnspecifiedParameter(param)` if there is none.
    fn missing_param(self, param: &'static str) -> (r: Result<T, GmailError>)
        ensures
            r == self.missing_param_spec(param),
    ;
}

impl<T> MissingParam<T> for Option<T> {
    open spec fn missing_param_spec(self, param: &'static str) -> Result<T, GmailError> {
        match self {
            Some(t) => Ok(t),
            None => Err(GmailError::UnspecifiedParameter(param)),
        }
    }

    fn missing_param(self, param: &'static str) -> (r: Result<T, GmailError>) {
        match self {
            Some(t) => Ok(t),
            None => Err(GmailError::UnspecifiedParameter(param)),
        }
    }
}

} // verus!
