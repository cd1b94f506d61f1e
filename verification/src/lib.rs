//! Paginated read access and simple send access to a mailbox over IMAP/SMTP:
//! fetch recent message headers in pages, fetch a single message body by
//! identifier, and send a new message. The pure pagination arithmetic, the
//! header normalization rules and the session-lifecycle policy are verified;
//! the network transports are external collaborators behind narrow contracts.

pub mod error;
pub mod header;
pub mod inbox;
pub mod send;
pub mod paging;
