//! The replies that the server sends, as RFC 5321 gives them.

use vstd::prelude::*;

verus! {

/// A canned reply of the dispatcher.
#[derive(Debug, Clone, Copy, PartialEq, Eq, Structural)]
pub enum Reply {
    /// `250-<domain>`, then `250 STARTTLS`.
    EhloTlsAvailable,
    /// `250 <domain>`.
    EhloTlsUnavailable,
    /// `250 OK`.
    Okay,
    /// `220 Ready to start TLS`.
    ReadyForTls,
    /// `502 TLS not available`.
    TlsNotAvailable,
    /// `354 Start mail input; end with <CRLF>.<CRLF>`.
    SendData,
    /// `221 Bye`.
    Quit,
}

/// The text of `r` for a server that calls itself `domain`.
pub open spec fn reply_text(r: Reply, domain: Seq<char>) -> Seq<char> {
    match r {
        Reply::EhloTlsAvailable => "250-"@ + domain + "\r\n250 STARTTLS\r\n"@,
        Reply::EhloTlsUnavailable => "250 "@ + domain + "\r\n"@,
        Reply::Okay => "250 OK\r\n"@,
        Reply::ReadyForTls => "220 Ready to start TLS\r\n"@,
        Reply::TlsNotAvailable => "502 TLS not available\r\n"@,
        Reply::SendData => "354 Start mail input; end with <CRLF>.<CRLF>\r\n"@,
        Reply::Quit => "221 Bye\r\n"@,
    }
}

/// The greeting sent when a connection opens.
pub open spec fn greeting_text(domain: Seq<char>) -> Seq<char> {
    "220 "@ + domain + "\r\n"@
}

impl Reply {
    /// The text of this reply for a server that calls itself `domain`.
    pub fn text(&self, domain: &str) -> (r: String)
        ensures
            r@ == reply_text(*self, domain@),
    {
        match self {
            Reply::EhloTlsAvailable => {
                let mut s = String::from_str("250-");
                s.append(domain);
                s.append("\r\n250 STARTTLS\r\n");
                s
            },
            Reply::EhloTlsUnavailable => {
                let mut s = String::from_str("250 ");
                s.append(domain);
                s.append("\r\n");
                s
            },
            Reply::Okay => String::from_str("250 OK\r\n"),
            Reply::ReadyForTls => String::from_str("220 Ready to start TLS\r\n"),
            Reply::TlsNotAvailable => String::from_str("502 TLS not available\r\n"),
            Reply::SendData => String::from_str("354 Start mail input; end with <CRLF>.<CRLF>\r\n"),
            Reply::Quit => String::from_str("221 Bye\r\n"),
        }
    }
}

/// The greeting sent when a connection opens, for a server that calls itself `domain`.
pub fn greeting(domain: &str) -> (r: String)
    ensures
        r@ == greeting_text(domain@),
{
    let mut s = String::from_str("220 ");
    s.append(domain);
    s.append("\r\n");
    s
}

} // verus!
