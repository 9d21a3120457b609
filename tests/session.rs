use std::path::PathBuf;
use std::time::Duration;

use minismtp::connection::{Action, Connection, Event, Phase, ProcessingError, State, Transport};

fn connection(tls: bool) -> Connection {
    let (cert, key) = if tls {
        (Some(PathBuf::from("cert.pem")), Some(PathBuf::from("key.pem")))
    } else {
        (None, None)
    };
    Connection::new(
        "localhost".to_string(),
        "localhost".to_string(),
        cert,
        key,
        None,
        Duration::from_secs(10),
    )
}

fn sent(a: Action) -> String {
    match a {
        Action::Send(s) => s,
        other => panic!("expected a reply, got {:?}", other),
    }
}

/// Opens the session: the greeting is written and the first read asked for.
fn open(c: &mut Connection) -> String {
    let g = sent(c.greet());
    assert!(matches!(c.advance(Event::Written), Action::Receive));
    g
}

fn receive(c: &mut Connection, text: &[u8]) -> Action {
    c.advance(Event::Received(text.to_vec()))
}

/// Sends a command whose reply is written; the next read follows.
fn command(c: &mut Connection, text: &str) -> String {
    let r = sent(receive(c, text.as_bytes()));
    assert!(matches!(c.advance(Event::Written), Action::Receive));
    r
}

fn finished_mail(a: Action) -> minismtp::connection::Mail {
    match a {
        Action::Finish(Ok(m)) => m,
        other => panic!("expected a mail, got {:?}", other),
    }
}

#[test]
fn plain_happy_path() {
    let mut c = connection(false);
    assert_eq!(open(&mut c), "220 localhost\r\n");
    assert_eq!(command(&mut c, "EHLO client\r\n"), "250 localhost\r\n");
    assert_eq!(command(&mut c, "MAIL FROM:<a@x>\r\n"), "250 OK\r\n");
    assert_eq!(command(&mut c, "RCPT TO:<b@y>\r\n"), "250 OK\r\n");
    assert_eq!(
        command(&mut c, "DATA\r\n"),
        "354 Start mail input; end with <CRLF>.<CRLF>\r\n"
    );
    assert_eq!(command(&mut c, "Subject: hi\r\n\r\nhello\r\n.\r\n"), "250 OK\r\n");
    assert_eq!(sent(receive(&mut c, b"QUIT\r\n")), "221 Bye\r\n");
    let mail = finished_mail(c.advance(Event::Written));
    assert_eq!(mail.from, "a@x");
    assert_eq!(mail.to, vec!["b@y".to_string()]);
    assert_eq!(mail.domain, "client");
    assert_eq!(mail.data, b"Subject: hi\r\n\r\nhello\r\n.\r\n".to_vec());
    assert!(mail.data.ends_with(b".\r\n"));
    assert_eq!(c.phase, Phase::Done);
}

#[test]
fn starttls_pivot() {
    let mut c = connection(true);
    open(&mut c);
    assert_eq!(
        command(&mut c, "EHLO c\r\n"),
        "250-localhost\r\n250 STARTTLS\r\n"
    );
    assert_eq!(sent(receive(&mut c, b"STARTTLS\r\n")), "220 Ready to start TLS\r\n");
    assert!(matches!(c.advance(Event::Written), Action::Upgrade));
    assert_eq!(c.phase, Phase::Upgrading);
    assert!(matches!(c.advance(Event::Upgraded), Action::Receive));
    assert_eq!(c.state, State::Initial);
    assert_eq!(c.transport, Transport::Encrypted);
    assert_eq!(
        command(&mut c, "EHLO c\r\n"),
        "250-localhost\r\n250 STARTTLS\r\n"
    );
    assert_eq!(command(&mut c, "MAIL FROM:<a@x>\r\n"), "250 OK\r\n");
    assert_eq!(command(&mut c, "RCPT TO:<b@y>\r\n"), "250 OK\r\n");
    command(&mut c, "DATA\r\n");
    assert_eq!(command(&mut c, "hello\r\n.\r\n"), "250 OK\r\n");
    assert_eq!(sent(receive(&mut c, b"QUIT\r\n")), "221 Bye\r\n");
    let mail = finished_mail(c.advance(Event::Written));
    assert_eq!(mail.from, "a@x");
    assert_eq!(mail.to, vec!["b@y".to_string()]);
}

#[test]
fn after_upgrade_only_greeting_commands_are_accepted() {
    let mut c = connection(true);
    open(&mut c);
    command(&mut c, "EHLO c\r\n");
    sent(receive(&mut c, b"STARTTLS\r\n"));
    c.advance(Event::Written);
    c.advance(Event::Upgraded);
    let a = receive(&mut c, b"MAIL FROM:<a@x>\r\n");
    assert!(matches!(a, Action::Finish(Err(ProcessingError::NoMail))));
}

#[test]
fn second_starttls_on_encrypted_stream_is_refused() {
    let mut c = connection(true);
    open(&mut c);
    command(&mut c, "EHLO c\r\n");
    sent(receive(&mut c, b"STARTTLS\r\n"));
    c.advance(Event::Written);
    c.advance(Event::Upgraded);
    command(&mut c, "EHLO c\r\n");
    sent(receive(&mut c, b"STARTTLS\r\n"));
    let a = c.advance(Event::Written);
    assert!(matches!(a, Action::Finish(Err(ProcessingError::AlreadyEncrypted))));
}

#[test]
fn failed_upgrade_ends_with_io_error() {
    let mut c = connection(true);
    open(&mut c);
    command(&mut c, "EHLO c\r\n");
    sent(receive(&mut c, b"STARTTLS\r\n"));
    c.advance(Event::Written);
    let a = c.advance(Event::UpgradeFailed(std::io::Error::new(
        std::io::ErrorKind::Other,
        "handshake",
    )));
    assert!(matches!(a, Action::Finish(Err(ProcessingError::IO(_)))));
}

#[test]
fn starttls_refused() {
    let mut c = connection(false);
    open(&mut c);
    let r = command(&mut c, "EHLO c\r\n");
    assert_eq!(r, "250 localhost\r\n");
    assert!(!r.contains("STARTTLS"));
    assert_eq!(command(&mut c, "STARTTLS\r\n"), "502 TLS not available\r\n");
    assert_eq!(c.state, State::Ehlo("c".to_string()));
    assert_eq!(command(&mut c, "MAIL FROM:<a@x>\r\n"), "250 OK\r\n");
    assert!(matches!(c.state, State::MailFrom(_)));
}

#[test]
fn mid_data_disconnect_yields_partial_mail() {
    let mut c = connection(false);
    open(&mut c);
    command(&mut c, "EHLO c\r\n");
    command(&mut c, "MAIL FROM:<a@x>\r\n");
    command(&mut c, "RCPT TO:<b@y>\r\n");
    command(&mut c, "DATA\r\n");
    assert!(matches!(receive(&mut c, b"Subject: x\r\n\r\nhel"), Action::Receive));
    let mail = finished_mail(receive(&mut c, b""));
    assert_eq!(mail.data, b"Subject: x\r\n\r\nhel".to_vec());
    assert_eq!(mail.from, "a@x");
}

#[test]
fn malformed_sender() {
    let mut c = connection(false);
    open(&mut c);
    command(&mut c, "EHLO c\r\n");
    assert_eq!(command(&mut c, "MAIL FROM:garbage\r\n"), "250 OK\r\n");
    assert_eq!(c.state, State::Invalid);
    let a = receive(&mut c, b"RCPT TO:<b@y>\r\n");
    assert!(matches!(a, Action::Finish(Err(ProcessingError::NoMail))));
}

#[test]
fn timeout_mid_envelope() {
    let mut c = connection(false);
    open(&mut c);
    command(&mut c, "EHLO c\r\n");
    let a = c.advance(Event::TimedOut);
    assert!(matches!(a, Action::Finish(Err(ProcessingError::NoMail))));
    assert_eq!(c.state, State::Ehlo("c".to_string()));
}

#[test]
fn closed_before_data_ends_without_mail() {
    let mut c = connection(false);
    open(&mut c);
    command(&mut c, "EHLO c\r\n");
    let a = receive(&mut c, b"");
    assert!(matches!(a, Action::Finish(Err(ProcessingError::ConnectionClosed))));
}

#[test]
fn failed_read_and_write_end_the_session() {
    let mut c = connection(false);
    open(&mut c);
    assert!(matches!(
        c.advance(Event::ReadFailed),
        Action::Finish(Err(ProcessingError::SocketRead))
    ));
    let mut c = connection(false);
    open(&mut c);
    sent(receive(&mut c, b"EHLO c\r\n"));
    let a = c.advance(Event::WriteFailed(std::io::Error::new(
        std::io::ErrorKind::Other,
        "gone",
    )));
    assert!(matches!(a, Action::Finish(Err(ProcessingError::SendResponse))));
    let mut c = connection(false);
    sent(c.greet());
    let a = c.advance(Event::WriteFailed(std::io::Error::new(
        std::io::ErrorKind::Other,
        "gone",
    )));
    assert!(matches!(a, Action::Finish(Err(ProcessingError::IO(_)))));
}

#[test]
fn quit_before_mail_ends_without_mail() {
    let mut c = connection(false);
    open(&mut c);
    assert_eq!(sent(receive(&mut c, b"quit\r\n")), "221 Bye\r\n");
    assert!(matches!(
        c.advance(Event::Written),
        Action::Finish(Err(ProcessingError::NoMail))
    ));
}

#[test]
fn quit_inside_content_is_content() {
    let mut c = connection(false);
    open(&mut c);
    command(&mut c, "EHLO c\r\n");
    command(&mut c, "MAIL FROM:<a@x>\r\n");
    command(&mut c, "RCPT TO:<b@y>\r\n");
    command(&mut c, "DATA\r\n");
    assert!(matches!(receive(&mut c, b"QUIT\r\n"), Action::Receive));
    assert_eq!(command(&mut c, ".\r\n"), "250 OK\r\n");
    assert_eq!(sent(receive(&mut c, b"QUIT\r\n")), "221 Bye\r\n");
    let mail = finished_mail(c.advance(Event::Written));
    assert_eq!(mail.data, b"QUIT\r\n.\r\n".to_vec());
}

#[test]
fn same_session_twice_gives_same_results() {
    let script: [&[u8]; 6] = [
        b"EHLO c\r\n",
        b"MAIL FROM:<a@x>\r\n",
        b"RCPT TO:<b@y>\r\n",
        b"DATA\r\n",
        b"hi\r\n.\r\n",
        b"QUIT\r\n",
    ];
    let mut replies: Vec<Vec<String>> = Vec::new();
    let mut mails = Vec::new();
    for _ in 0..2 {
        let mut c = connection(false);
        open(&mut c);
        let mut rs = Vec::new();
        for line in script.iter() {
            rs.push(sent(receive(&mut c, line)));
            let a = c.advance(Event::Written);
            if let Action::Finish(r) = a {
                mails.push(r.unwrap());
            }
        }
        replies.push(rs);
    }
    assert_eq!(replies[0], replies[1]);
    assert_eq!(mails.len(), 2);
    assert_eq!(mails[0], mails[1]);
}

#[test]
fn buffer_size_defaults_to_one_mebibyte() {
    let c = connection(false);
    assert_eq!(c.buffer_len(), 1024 * 1024);
    let c = Connection::new(
        "d".to_string(),
        "d".to_string(),
        Some(PathBuf::from("cert.pem")),
        None,
        Some(1024),
        Duration::from_secs(1),
    );
    assert_eq!(c.buffer_len(), 1024);
    assert!(matches!(c.tls_config, minismtp::connection::TlsConfig::Plain));
}
