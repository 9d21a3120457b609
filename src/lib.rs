//! An embeddable SMTP receiving endpoint: the session state machine, the
//! command dispatcher, the envelope extractor and the SPF evaluation rules.

pub mod connection;
pub mod envelope;
pub mod parser;
pub mod responses;
pub mod server;
pub mod spf;

pub use envelope::extract_email;
