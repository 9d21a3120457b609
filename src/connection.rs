//! The per-connection session: its data, and the driver's decisions between
//! reads, writes and the TLS upgrade.

use vstd::prelude::*;
use std::path::PathBuf;
use std::time::Duration;

use crate::envelope::has_at;
use crate::parser::{dispatch, lemma_dispatch_keeps_sender, parse_and_execute, sealed, DispatchError};
use crate::responses::{greeting, greeting_text, reply_text, Reply};
use crate::spf::SpfPolicy;

verus! {

/// std's `PathBuf`: the certificate and key paths are carried through to the
/// TLS upgrade and never looked into.
#[verifier::external_type_specification]
#[verifier::external_body]
pub struct ExPathBuf(std::path::PathBuf);

/// std's `io::Error`: a failed write or handshake is carried through to the
/// caller and never looked into.
#[verifier::external_type_specification]
#[verifier::external_body]
pub struct ExIoError(std::io::Error);

/// Why a session ended without handing over a message.
#[derive(Debug)]
pub enum ProcessingError {
    /// Sending the greeting or the TLS handshake failed.
    IO(std::io::Error),
    /// The session ended outside the DATA phase.
    NoMail,
    /// The peer closed the connection.
    ConnectionClosed,
    /// Writing a reply failed.
    SendResponse,
    /// STARTTLS was granted although no certificate is configured.
    NoCertificate,
    /// STARTTLS was granted on a connection that is already encrypted.
    AlreadyEncrypted,
    /// Reading from the peer failed.
    SocketRead,
}

/// A message: its envelope and its raw content.
#[derive(Debug, PartialEq, Eq)]
pub struct Mail {
    /// The domain that the client named in EHLO or HELO.
    pub domain: String,
    /// The sender.
    pub from: String,
    /// The recipients, in the order they were given, duplicates kept.
    pub to: Vec<String>,
    /// Headers and body as received, up to and including the final `CRLF . CRLF`.
    pub data: Vec<u8>,
    /// Whether the peer passed SPF, and the policy of the record that matched.
    pub spf_result: (bool, SpfPolicy),
}

impl Default for Mail {
    /// An empty message whose SPF check has not passed.
    fn default() -> (m: Mail)
        ensures
            m@.domain.len() == 0,
            m@.from.len() == 0,
            m@.to.len() == 0,
            m@.data.len() == 0,
            m@.spf_result == (false, SpfPolicy::Fail),
    {
        Mail {
            domain: String::new(),
            from: String::new(),
            to: Vec::new(),
            data: Vec::new(),
            spf_result: (false, SpfPolicy::Fail),
        }
    }
}

/// What a message is, as plain values.
pub ghost struct MailModel {
    pub domain: Seq<char>,
    pub from: Seq<char>,
    pub to: Seq<Seq<char>>,
    pub data: Seq<u8>,
    pub spf_result: (bool, SpfPolicy),
}

impl View for Mail {
    type V = MailModel;

    open spec fn view(&self) -> MailModel {
        MailModel {
            domain: self.domain@,
            from: self.from@,
            to: self.to@.map_values(|t: String| t@),
            data: self.data@,
            spf_result: self.spf_result,
        }
    }
}

/// Where an SMTP session stands.
#[derive(Debug, PartialEq)]
pub enum State {
    /// Before EHLO or HELO, also after a TLS upgrade.
    Initial,
    /// The client named its domain.
    Ehlo(String),
    /// STARTTLS was granted; the driver upgrades the connection next.
    StartTls,
    /// The envelope is open.
    MailFrom(Mail),
    /// The content is being received.
    Data(Mail),
    /// A MAIL or RCPT argument held no address.
    Invalid,
}

/// What a session state is, as plain values.
pub ghost enum StateModel {
    Initial,
    Ehlo(Seq<char>),
    StartTls,
    MailFrom(MailModel),
    Data(MailModel),
    Invalid,
}

impl View for State {
    type V = StateModel;

    open spec fn view(&self) -> StateModel {
        match self {
            State::Initial => StateModel::Initial,
            State::Ehlo(d) => StateModel::Ehlo(d@),
            State::StartTls => StateModel::StartTls,
            State::MailFrom(m) => StateModel::MailFrom(m@),
            State::Data(m) => StateModel::Data(m@),
            State::Invalid => StateModel::Invalid,
        }
    }
}

/// Whether the server can encrypt: with a certificate and a key, it offers STARTTLS.
#[derive(Debug)]
pub enum TlsConfig {
    Plain,
    Encrypted { cert_path: PathBuf, key_path: PathBuf },
}

/// What the live transport of a connection is.
#[derive(Debug, Clone, Copy, PartialEq, Eq, Structural)]
pub enum Transport {
    Plain,
    Encrypted,
}

/// What the driver is waiting for.
#[derive(Debug, Clone, Copy, PartialEq, Eq, Structural)]
pub enum Phase {
    /// Nothing has been sent yet.
    Start,
    /// The greeting is being written.
    Greeting,
    /// A read is outstanding.
    Reading,
    /// A reply is being written; `closing` when it answers QUIT.
    Replying { closing: bool },
    /// The TLS handshake is under way.
    Upgrading,
    /// The session is over.
    Done,
}

/// The default size of the read buffer: one MiB.
pub const DEFAULT_BUFFER_SIZE: usize = 1048576;

/// An SMTP connection: its configuration and where its session stands.
#[derive(Debug)]
pub struct Connection {
    /// The size of the read buffer, when not the default.
    pub buffer_size: Option<usize>,
    /// Whether the live stream is plain or encrypted.
    pub transport: Transport,
    /// Where the session stands.
    pub state: State,
    /// Whether STARTTLS can be granted, and with which certificate.
    pub tls_config: TlsConfig,
    /// The name in the greeting.
    pub domain: String,
    /// The name in EHLO and HELO replies.
    pub ehlo_domain: String,
    /// How long a read may take.
    pub timeout: Duration,
    /// What the driver is waiting for.
    pub phase: Phase,
}

/// What the driver reports after doing what it was asked.
#[derive(Debug)]
pub enum Event {
    /// The greeting or the reply was written.
    Written,
    /// Writing the greeting or the reply failed.
    WriteFailed(std::io::Error),
    /// A read returned these bytes; none when the peer closed the connection.
    Received(Vec<u8>),
    /// A read failed.
    ReadFailed,
    /// No read completed in time.
    TimedOut,
    /// The TLS handshake succeeded and the stream is now encrypted.
    Upgraded,
    /// The TLS handshake failed.
    UpgradeFailed(std::io::Error),
}

/// What the driver is asked to do next.
#[derive(Debug)]
pub enum Action {
    /// Write this text.
    Send(String),
    /// Read from the peer, within the timeout.
    Receive,
    /// Perform the TLS handshake with the configured certificate and key.
    Upgrade,
    /// The session is over: the message, or why there is none.
    Finish(Result<Mail, ProcessingError>),
}

/// Whether the driver may report `e` while waiting in phase `p`.
pub open spec fn expects(p: Phase, e: Event) -> bool {
    match p {
        Phase::Greeting => e is Written || e is WriteFailed,
        Phase::Reading => e is Received || e is ReadFailed || e is TimedOut,
        Phase::Replying { .. } => e is Written || e is WriteFailed,
        Phase::Upgrading => e is Upgraded || e is UpgradeFailed,
        _ => false,
    }
}

/// `a` ends a session that stood in `st`: with the message if its content was
/// arriving, else with `err`.
pub open spec fn yields(a: Action, st: StateModel, err: ProcessingError) -> bool {
    match st {
        StateModel::Data(m) => a matches Action::Finish(Ok(mail)) && mail@ == m,
        _ => a == Action::Finish(Err(err)),
    }
}

/// A state whose message, if any, has a sender address: not empty, with an `@`.
pub open spec fn has_sender(st: StateModel) -> bool {
    match st {
        StateModel::MailFrom(m) => m.from.len() > 0 && has_at(m.from),
        StateModel::Data(m) => m.from.len() > 0 && has_at(m.from),
        _ => true,
    }
}

/// The settings that a session never changes are those of `other`.
pub open spec fn same_config(c: &Connection, other: &Connection) -> bool {
    &&& c.buffer_size == other.buffer_size
    &&& c.tls_config == other.tls_config
    &&& c.domain == other.domain
    &&& c.ehlo_domain == other.ehlo_domain
    &&& c.timeout == other.timeout
}

/// What follows a written reply: the TLS upgrade when STARTTLS was granted
/// (refused on an encrypted stream or without a certificate), else the next read.
pub open spec fn after_reply(c0: &Connection, c1: &Connection, a: Action) -> bool {
    &&& c1.state == c0.state
    &&& c1.transport == c0.transport
    &&& if c0.state is StartTls {
        if c0.transport == Transport::Encrypted {
            a == Action::Finish(Err(ProcessingError::AlreadyEncrypted)) && c1.phase == Phase::Done
        } else if c0.tls_config is Plain {
            a == Action::Finish(Err(ProcessingError::NoCertificate)) && c1.phase == Phase::Done
        } else {
            a == Action::Upgrade && c1.phase == Phase::Upgrading
        }
    } else {
        a == Action::Receive && c1.phase == Phase::Reading
    }
}

/// What follows a received buffer `raw`: its reply is sent, or the next read
/// comes when there is none; a refused command ends the session.
pub open spec fn processed(c0: &Connection, raw: Seq<u8>, c1: &Connection, a: Action) -> bool {
    let (s2, out) = dispatch(c0.state@, c0.tls_config is Encrypted, raw);
    &&& c1.transport == c0.transport
    &&& match out {
        Err(_) => yields(a, s2, ProcessingError::NoMail) && c1.phase == Phase::Done,
        Ok(Some(r)) => {
            &&& c1.state@ == s2
            &&& a matches Action::Send(t) && t@ == reply_text(r, c0.ehlo_domain@)
            &&& c1.phase == (Phase::Replying { closing: r == Reply::Quit })
        },
        Ok(None) => c1.state@ == s2 && a == Action::Receive && c1.phase == Phase::Reading,
    }
}

impl Connection {
    /// The session invariant: a message always has a sender, and the reply to
    /// QUIT never interrupts content that is still arriving.
    pub open spec fn wf(&self) -> bool {
        &&& has_sender(self.state@)
        &&& self.phase == (Phase::Replying { closing: true }) ==> match self.state@ {
            StateModel::Data(m) => sealed(m.data),
            _ => true,
        }
    }

    /// A connection over a fresh plain stream, before the greeting. STARTTLS is
    /// offered only when both a certificate and a key are given.
    pub fn new(
        domain: String,
        ehlo_domain: String,
        cert_path: Option<PathBuf>,
        key_path: Option<PathBuf>,
        buffer_size: Option<usize>,
        timeout: Duration,
    ) -> (c: Connection)
        ensures
            c.domain == domain,
            c.ehlo_domain == ehlo_domain,
            c.buffer_size == buffer_size,
            c.timeout == timeout,
            c.transport == Transport::Plain,
            c.state == State::Initial,
            c.phase == Phase::Start,
            c.wf(),
            (c.tls_config is Encrypted) <==> (cert_path is Some && key_path is Some),
            c.tls_config matches TlsConfig::Encrypted { cert_path: c_path, key_path: k_path }
                ==> cert_path == Some(c_path) && key_path == Some(k_path),
    {
        let tls_config = match (cert_path, key_path) {
            (Some(cert_path), Some(key_path)) => TlsConfig::Encrypted { cert_path, key_path },
            _ => TlsConfig::Plain,
        };
        Connection {
            buffer_size,
            transport: Transport::Plain,
            state: State::Initial,
            tls_config,
            domain,
            ehlo_domain,
            timeout,
            phase: Phase::Start,
        }
    }

    /// The size of the read buffer: the configured one, else one MiB.
    pub fn buffer_len(&self) -> (r: usize)
        ensures
            r == match self.buffer_size {
                Some(n) => n,
                None => DEFAULT_BUFFER_SIZE,
            },
    {
        match self.buffer_size {
            Some(n) => n,
            None => DEFAULT_BUFFER_SIZE,
        }
    }
}


impl Connection {
    /// Starts the session: the greeting goes out first.
    pub fn greet(&mut self) -> (a: Action)
        requires
            old(self).phase == Phase::Start,
        ensures
            same_config(final(self), old(self)),
            final(self).state == old(self).state,
            final(self).transport == old(self).transport,
            final(self).phase == Phase::Greeting,
            old(self).wf() ==> final(self).wf(),
            a matches Action::Send(t) && t@ == greeting_text(old(self).domain@),
    {
        self.phase = Phase::Greeting;
        Action::Send(greeting(self.domain.as_str()))
    }

    /// Ends the session: with the message when its content was arriving, else with `err`.
    fn conclude(&mut self, err: ProcessingError) -> (a: Action)
        ensures
            same_config(final(self), old(self)),
            final(self).transport == old(self).transport,
            final(self).phase == Phase::Done,
            yields(a, old(self).state@, err),
            old(self).state is Data ==> final(self).state == State::Invalid,
            !(old(self).state is Data) ==> final(self).state == old(self).state,
    {
        self.phase = Phase::Done;
        let mut st = State::Invalid;
        std::mem::swap(&mut self.state, &mut st);
        match st {
            State::Data(m) => Action::Finish(Ok(m)),
            other => {
                self.state = other;
                Action::Finish(Err(err))
            },
        }
    }

    /// After a reply: performs the STARTTLS pivot when it was granted, else reads on.
    fn continue_after_reply(&mut self) -> (a: Action)
        ensures
            same_config(final(self), old(self)),
            after_reply(old(self), final(self), a),
    {
        match self.state {
            State::StartTls => match self.transport {
                Transport::Encrypted => {
                    self.phase = Phase::Done;
                    Action::Finish(Err(ProcessingError::AlreadyEncrypted))
                },
                Transport::Plain => match self.tls_config {
                    TlsConfig::Plain => {
                        self.phase = Phase::Done;
                        Action::Finish(Err(ProcessingError::NoCertificate))
                    },
                    TlsConfig::Encrypted { .. } => {
                        self.phase = Phase::Upgrading;
                        Action::Upgrade
                    },
                },
            },
            _ => {
                self.phase = Phase::Reading;
                Action::Receive
            },
        }
    }

    /// Handles a buffer that a read returned: dispatches it, then asks for
    /// its reply to be written, or for the next read when there is none. A
    /// refused command ends the session, with the message if it is complete.
    pub fn process_buffer(&mut self, buf: &[u8]) -> (a: Action)
        ensures
            same_config(final(self), old(self)),
            processed(old(self), buf@, final(self), a),
            has_sender(old(self).state@) ==> final(self).wf(),
    {
        proof {
            if has_sender(self.state@) {
                lemma_dispatch_keeps_sender(self.state@, self.tls_config is Encrypted, buf@);
            }
        }
        match parse_and_execute(self, buf) {
            Err(DispatchError::InvalidCommand) => self.conclude(ProcessingError::NoMail),
            Ok(Some(r)) => {
                let closing = match r {
                    Reply::Quit => true,
                    _ => false,
                };
                self.phase = Phase::Replying { closing };
                Action::Send(r.text(self.ehlo_domain.as_str()))
            },
            Ok(None) => {
                self.phase = Phase::Reading;
                Action::Receive
            },
        }
    }

    /// Takes the driver's report of what it did and says what it must do next.
    pub fn advance(&mut self, e: Event) -> (a: Action)
        requires
            expects(old(self).phase, e),
            old(self).wf(),
        ensures
            same_config(final(self), old(self)),
            final(self).wf(),
            a matches Action::Finish(Ok(m)) ==> m@.from.len() > 0 && has_at(m@.from),
            old(self).phase == (Phase::Replying { closing: true }) ==> (a matches Action::Finish(Ok(m))
                ==> sealed(m@.data)),
            old(self).phase == Phase::Greeting ==> match e {
                Event::Written => {
                    &&& a == Action::Receive
                    &&& final(self).phase == Phase::Reading
                    &&& final(self).state == old(self).state
                    &&& final(self).transport == old(self).transport
                },
                Event::WriteFailed(err) => a == Action::Finish(Err(ProcessingError::IO(err)))
                    && final(self).phase == Phase::Done,
                _ => true,
            },
            old(self).phase == Phase::Reading ==> match e {
                Event::Received(b) => if b@.len() == 0 {
                    yields(a, old(self).state@, ProcessingError::ConnectionClosed)
                        && final(self).phase == Phase::Done
                } else {
                    processed(old(self), b@, final(self), a)
                },
                Event::ReadFailed => yields(a, old(self).state@, ProcessingError::SocketRead)
                    && final(self).phase == Phase::Done,
                Event::TimedOut => yields(a, old(self).state@, ProcessingError::NoMail)
                    && final(self).phase == Phase::Done,
                _ => true,
            },
            old(self).phase matches Phase::Replying { closing } ==> match e {
                Event::Written => if closing {
                    yields(a, old(self).state@, ProcessingError::NoMail)
                        && final(self).phase == Phase::Done
                } else {
                    after_reply(old(self), final(self), a)
                },
                Event::WriteFailed(_) => yields(a, old(self).state@, ProcessingError::SendResponse)
                    && final(self).phase == Phase::Done,
                _ => true,
            },
            old(self).phase == Phase::Upgrading ==> match e {
                Event::Upgraded => {
                    &&& a == Action::Receive
                    &&& final(self).state == State::Initial
                    &&& final(self).transport == Transport::Encrypted
                    &&& final(self).phase == Phase::Reading
                },
                Event::UpgradeFailed(err) => a == Action::Finish(Err(ProcessingError::IO(err)))
                    && final(self).phase == Phase::Done,
                _ => true,
            },
    {
        match self.phase {
            Phase::Greeting => match e {
                Event::WriteFailed(err) => {
                    self.phase = Phase::Done;
                    Action::Finish(Err(ProcessingError::IO(err)))
                },
                _ => {
                    self.phase = Phase::Reading;
                    Action::Receive
                },
            },
            Phase::Reading => match e {
                Event::Received(b) => {
                    if b.len() == 0 {
                        self.conclude(ProcessingError::ConnectionClosed)
                    } else {
                        self.process_buffer(b.as_slice())
                    }
                },
                Event::ReadFailed => self.conclude(ProcessingError::SocketRead),
                _ => self.conclude(ProcessingError::NoMail),
            },
            Phase::Replying { closing } => match e {
                Event::WriteFailed(_) => self.conclude(ProcessingError::SendResponse),
                _ => if closing {
                    self.conclude(ProcessingError::NoMail)
                } else {
                    self.continue_after_reply()
                },
            },
            _ => match e {
                Event::UpgradeFailed(err) => {
                    self.phase = Phase::Done;
                    Action::Finish(Err(ProcessingError::IO(err)))
                },
                _ => {
                    self.state = State::Initial;
                    self.transport = Transport::Encrypted;
                    self.phase = Phase::Reading;
                    Action::Receive
                },
            },
        }
    }
}

} // verus!
