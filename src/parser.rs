//! The command dispatcher: splits a received buffer into words, picks the
//! handler from the verb and the session state, and passes DATA content
//! through untouched.

use vstd::prelude::*;
use vstd::string::StringSliceAdditionalSpecFns;
use vstd::utf8::{decode_utf8, valid_utf8, encode_utf8_decode_utf8};

use crate::connection::{Connection, Mail, MailModel, State, StateModel, TlsConfig};
use crate::connection::has_sender;
use crate::envelope::{address_in, extract_email, lemma_address_shape};
use crate::responses::Reply;
use crate::spf::SpfPolicy;

verus! {

/// Why the dispatcher refused a buffer.
#[derive(Debug, Clone, Copy, PartialEq, Eq, Structural)]
pub enum DispatchError {
    /// No command, or one that the session state does not allow.
    InvalidCommand,
}

/// What a command gives: a reply to send (none while content is still
/// arriving), or a refusal.
pub type Outcome = Result<Option<Reply>, DispatchError>;

/// Space, carriage return and line feed separate the words of a command.
pub open spec fn is_blank(b: u8) -> bool {
    b == 32 || b == 13 || b == 10
}

/// The words of `s` from position `i` on, where the word being read began at
/// `start` (`start == i` when none is being read).
pub open spec fn words_from(s: Seq<u8>, i: int, start: int) -> Seq<Seq<u8>>
    decreases s.len() - i,
{
    if i >= s.len() {
        if start < i {
            seq![s.subrange(start, i)]
        } else {
            seq![]
        }
    } else if is_blank(s[i]) {
        let rest = words_from(s, i + 1, i + 1);
        if start < i {
            seq![s.subrange(start, i)] + rest
        } else {
            rest
        }
    } else {
        words_from(s, i + 1, start)
    }
}

/// The words of `s`: its maximal runs of bytes other than blanks, in order.
pub open spec fn words(s: Seq<u8>) -> Seq<Seq<u8>> {
    words_from(s, 0, 0)
}

/// ASCII lower case of a byte.
pub open spec fn lower(b: u8) -> u8 {
    if 65 <= b <= 90 {
        (b + 32) as u8
    } else {
        b
    }
}

/// `w` spells `name` (given in lower case), whatever the case of its letters.
pub open spec fn spells(w: Seq<u8>, name: Seq<u8>) -> bool {
    w.len() == name.len() && forall|i: int| 0 <= i < w.len() ==> lower(w[i]) == name[i]
}

/// The commands the dispatcher knows.
#[derive(Debug, Clone, Copy, PartialEq, Eq, Structural)]
pub enum Verb {
    Ehlo,
    Helo,
    StartTls,
    Mail,
    Rcpt,
    Data,
    Quit,
    Other,
}

/// "ehlo"
pub open spec fn ehlo_word() -> Seq<u8> {
    seq![101u8, 104, 108, 111]
}

/// "helo"
pub open spec fn helo_word() -> Seq<u8> {
    seq![104u8, 101, 108, 111]
}

/// "starttls"
pub open spec fn starttls_word() -> Seq<u8> {
    seq![115u8, 116, 97, 114, 116, 116, 108, 115]
}

/// "mail"
pub open spec fn mail_word() -> Seq<u8> {
    seq![109u8, 97, 105, 108]
}

/// "rcpt"
pub open spec fn rcpt_word() -> Seq<u8> {
    seq![114u8, 99, 112, 116]
}

/// "data"
pub open spec fn data_word() -> Seq<u8> {
    seq![100u8, 97, 116, 97]
}

/// "quit"
pub open spec fn quit_word() -> Seq<u8> {
    seq![113u8, 117, 105, 116]
}

/// The command that a verb names.
pub open spec fn verb_of(w: Seq<u8>) -> Verb {
    if spells(w, ehlo_word()) {
        Verb::Ehlo
    } else if spells(w, helo_word()) {
        Verb::Helo
    } else if spells(w, starttls_word()) {
        Verb::StartTls
    } else if spells(w, mail_word()) {
        Verb::Mail
    } else if spells(w, rcpt_word()) {
        Verb::Rcpt
    } else if spells(w, data_word()) {
        Verb::Data
    } else if spells(w, quit_word()) {
        Verb::Quit
    } else {
        Verb::Other
    }
}

/// The content terminator `CRLF . CRLF`.
pub open spec fn sentinel() -> Seq<u8> {
    seq![13u8, 10, 46, 13, 10]
}

/// The content `d` ends with the terminator: the message is sealed.
pub open spec fn sealed(d: Seq<u8>) -> bool {
    d.len() >= 5 && d.subrange(d.len() - 5, d.len() as int) == sentinel()
}

/// The text of an argument, when it is UTF-8.
pub open spec fn arg_text(arg: Option<Seq<u8>>) -> Option<Seq<char>> {
    match arg {
        Some(b) => if valid_utf8(b) {
            Some(decode_utf8(b))
        } else {
            None
        },
        None => None,
    }
}

/// The address that a MAIL or RCPT argument holds.
pub open spec fn arg_address(arg: Option<Seq<u8>>) -> Option<Seq<char>> {
    match arg_text(arg) {
        Some(t) => address_in(t),
        None => None,
    }
}

/// A message as MAIL opens it.
pub open spec fn new_mail(domain: Seq<char>, from: Seq<char>) -> MailModel {
    MailModel { domain, from, to: seq![], data: seq![], spf_result: (false, SpfPolicy::Fail) }
}

/// EHLO or HELO: the client's domain (empty when absent) opens the session;
/// an argument that is not UTF-8 is refused.
pub open spec fn greet_step(arg: Option<Seq<u8>>, reply: Reply) -> (StateModel, Outcome) {
    match arg {
        Some(b) => if valid_utf8(b) {
            (StateModel::Ehlo(decode_utf8(b)), Ok(Some(reply)))
        } else {
            (StateModel::Initial, Err(DispatchError::InvalidCommand))
        },
        None => (StateModel::Ehlo(seq![]), Ok(Some(reply))),
    }
}

/// The EHLO reply: it offers STARTTLS exactly when TLS is configured.
pub open spec fn ehlo_reply(tls: bool) -> Reply {
    if tls {
        Reply::EhloTlsAvailable
    } else {
        Reply::EhloTlsUnavailable
    }
}

/// STARTTLS: granted when TLS is configured, else refused with the state kept.
pub open spec fn starttls_step(s: StateModel, tls: bool) -> (StateModel, Outcome) {
    if tls {
        (StateModel::StartTls, Ok(Some(Reply::ReadyForTls)))
    } else {
        (s, Ok(Some(Reply::TlsNotAvailable)))
    }
}

/// MAIL: a sender address opens the envelope; anything else makes the session invalid.
pub open spec fn mail_step(domain: Seq<char>, arg: Option<Seq<u8>>) -> (StateModel, Outcome) {
    match arg_address(arg) {
        Some(a) => (StateModel::MailFrom(new_mail(domain, a)), Ok(Some(Reply::Okay))),
        None => (StateModel::Invalid, Ok(Some(Reply::Okay))),
    }
}

/// RCPT: a recipient address is appended; anything else makes the session invalid.
pub open spec fn rcpt_step(m: MailModel, arg: Option<Seq<u8>>) -> (StateModel, Outcome) {
    match arg_address(arg) {
        Some(a) => (StateModel::MailFrom(MailModel { to: m.to.push(a), ..m }), Ok(Some(Reply::Okay))),
        None => (StateModel::Invalid, Ok(Some(Reply::Okay))),
    }
}

/// Content: the buffer is appended as it is; the reply is OK once the content is sealed.
pub open spec fn data_step(m: MailModel, raw: Seq<u8>) -> (StateModel, Outcome) {
    let d = m.data + raw;
    (StateModel::Data(MailModel { data: d, ..m }), Ok(if sealed(d) { Some(Reply::Okay) } else { None }))
}

/// A command with verb `v` and first argument `arg` in state `s`.
pub open spec fn command(s: StateModel, tls: bool, v: Verb, arg: Option<Seq<u8>>) -> (StateModel, Outcome) {
    let refused = (s, Err(DispatchError::InvalidCommand));
    match v {
        Verb::Quit => (s, Ok(Some(Reply::Quit))),
        Verb::Ehlo => if s is Initial {
            greet_step(arg, ehlo_reply(tls))
        } else {
            refused
        },
        Verb::Helo => if s is Initial {
            greet_step(arg, Reply::EhloTlsUnavailable)
        } else {
            refused
        },
        Verb::StartTls => if s is Ehlo {
            starttls_step(s, tls)
        } else {
            refused
        },
        Verb::Mail => match s {
            StateModel::Ehlo(d) => mail_step(d, arg),
            _ => refused,
        },
        Verb::Rcpt => match s {
            StateModel::MailFrom(m) => rcpt_step(m, arg),
            _ => refused,
        },
        Verb::Data => match s {
            StateModel::MailFrom(m) => (StateModel::Data(m), Ok(Some(Reply::SendData))),
            _ => refused,
        },
        Verb::Other => refused,
    }
}

/// The first argument of a command.
pub open spec fn first_arg(raw: Seq<u8>) -> Option<Seq<u8>> {
    if words(raw).len() > 1 {
        Some(words(raw)[1])
    } else {
        None
    }
}

/// The state after the buffer `raw` in state `s`, and what the dispatcher
/// answers. While content is arriving every buffer is content; otherwise
/// the first word picks the command, whatever its case.
pub open spec fn dispatch(s: StateModel, tls: bool, raw: Seq<u8>) -> (StateModel, Outcome) {
    match s {
        StateModel::Data(m) if !sealed(m.data) => data_step(m, raw),
        _ => if words(raw).len() == 0 {
            (s, Err(DispatchError::InvalidCommand))
        } else {
            command(s, tls, verb_of(words(raw)[0]), first_arg(raw))
        },
    }
}

/// The view of an optional argument.
pub open spec fn arg_view(arg: Option<&[u8]>) -> Option<Seq<u8>> {
    match arg {
        Some(b) => Some(b@),
        None => None,
    }
}

/// The connection's settings and driver phase are those of `other`.
pub open spec fn same_setup(c: &Connection, other: &Connection) -> bool {
    &&& c.buffer_size == other.buffer_size
    &&& c.transport == other.transport
    &&& c.tls_config == other.tls_config
    &&& c.domain == other.domain
    &&& c.ehlo_domain == other.ehlo_domain
    &&& c.timeout == other.timeout
    &&& c.phase == other.phase
}

/// Relies on std::str::from_utf8: it succeeds exactly on well-formed UTF-8,
/// and the text it gives is made of those bytes.
#[verifier::external_body]
fn utf8_text(b: &[u8]) -> (r: Option<&str>)
    ensures
        r is Some <==> valid_utf8(b@),
        r matches Some(t) ==> t.spec_bytes() == b@,
{
    std::str::from_utf8(b).ok()
}

/// Decodes an argument; the result is its text when it is UTF-8.
fn decode_arg(b: &[u8]) -> (r: Option<&str>)
    ensures
        r is Some <==> valid_utf8(b@),
        r matches Some(t) ==> t@ == decode_utf8(b@),
{
    let r = utf8_text(b);
    proof {
        if let Some(t) = r {
            encode_utf8_decode_utf8(t@);
        }
    }
    r
}

/// The positions of the first two words of `raw` (fewer when it has fewer).
fn leading_words(raw: &[u8]) -> (r: Vec<(usize, usize)>)
    ensures
        r@.len() == if words(raw@).len() < 2 { words(raw@).len() } else { 2 },
        forall|k: int|
            0 <= k < r@.len() ==> {
                &&& r@[k].0 <= r@[k].1 <= raw@.len()
                &&& raw@.subrange(r@[k].0 as int, r@[k].1 as int) == #[trigger] words(raw@)[k]
            },
{
    let ghost s = raw@;
    let n = raw.len();
    let mut out: Vec<(usize, usize)> = Vec::new();
    let mut i: usize = 0;
    let mut start: usize = 0;
    while i < n && out.len() < 2
        invariant
            s == raw@,
            n == s.len(),
            start <= i <= n,
            out@.len() <= 2,
            forall|k: int|
                0 <= k < out@.len() ==> (#[trigger] out@[k]).0 <= out@[k].1 <= n,
            out@.map_values(|p: (usize, usize)| s.subrange(p.0 as int, p.1 as int))
                + words_from(s, i as int, start as int) == words(s),
        decreases n - i,
    {
        let ghost before = out@;
        if raw[i] == 32 || raw[i] == 13 || raw[i] == 10 {
            if start < i {
                out.push((start, i));
                assert(out@.map_values(|p: (usize, usize)| s.subrange(p.0 as int, p.1 as int))
                    =~= before.map_values(|p: (usize, usize)| s.subrange(p.0 as int, p.1 as int))
                    + seq![s.subrange(start as int, i as int)]);
            }
            i = i + 1;
            start = i;
        } else {
            i = i + 1;
        }
    }
    if out.len() < 2 && start < i {
        let ghost before = out@;
        out.push((start, i));
        assert(out@.map_values(|p: (usize, usize)| s.subrange(p.0 as int, p.1 as int))
            =~= before.map_values(|p: (usize, usize)| s.subrange(p.0 as int, p.1 as int))
            + seq![s.subrange(start as int, i as int)]);
    }
    proof {
        let m = out@.map_values(|p: (usize, usize)| s.subrange(p.0 as int, p.1 as int));
        assert forall|k: int| 0 <= k < out@.len() implies
            s.subrange(out@[k].0 as int, out@[k].1 as int) == #[trigger] words(s)[k] by {
            assert(m[k] == words(s)[k]);
        }
    }
    out
}

/// ASCII lower case of a byte.
fn lower_byte(b: u8) -> (r: u8)
    ensures
        r == lower(b),
{
    if 65 <= b && b <= 90 {
        b + 32
    } else {
        b
    }
}

/// Whether `raw[a..b]` spells `name`, whatever its case.
fn spells_at(raw: &[u8], a: usize, b: usize, name: &[u8]) -> (r: bool)
    requires
        a <= b <= raw@.len(),
    ensures
        r == spells(raw@.subrange(a as int, b as int), name@),
{
    let ghost w = raw@.subrange(a as int, b as int);
    if b - a != name.len() {
        return false;
    }
    let mut i: usize = 0;
    while i < name.len()
        invariant
            w == raw@.subrange(a as int, b as int),
            b - a == name@.len(),
            a <= b <= raw@.len(),
            i <= name@.len(),
            forall|k: int| 0 <= k < i ==> lower(w[k]) == name@[k],
        decreases name@.len() - i,
    {
        if lower_byte(raw[a + i]) != name[i] {
            return false;
        }
        i = i + 1;
    }
    true
}

/// The command that the word `raw[a..b]` names.
fn verb_at(raw: &[u8], a: usize, b: usize) -> (v: Verb)
    requires
        a <= b <= raw@.len(),
    ensures
        v == verb_of(raw@.subrange(a as int, b as int)),
{
    let ehlo: [u8; 4] = [101, 104, 108, 111];
    let helo: [u8; 4] = [104, 101, 108, 111];
    let starttls: [u8; 8] = [115, 116, 97, 114, 116, 116, 108, 115];
    let mail: [u8; 4] = [109, 97, 105, 108];
    let rcpt: [u8; 4] = [114, 99, 112, 116];
    let data: [u8; 4] = [100, 97, 116, 97];
    let quit: [u8; 4] = [113, 117, 105, 116];
    assert(ehlo@ == ehlo_word());
    assert(helo@ == helo_word());
    assert(starttls@ == starttls_word());
    assert(mail@ == mail_word());
    assert(rcpt@ == rcpt_word());
    assert(data@ == data_word());
    assert(quit@ == quit_word());
    if spells_at(raw, a, b, &ehlo) {
        Verb::Ehlo
    } else if spells_at(raw, a, b, &helo) {
        Verb::Helo
    } else if spells_at(raw, a, b, &starttls) {
        Verb::StartTls
    } else if spells_at(raw, a, b, &mail) {
        Verb::Mail
    } else if spells_at(raw, a, b, &rcpt) {
        Verb::Rcpt
    } else if spells_at(raw, a, b, &data) {
        Verb::Data
    } else if spells_at(raw, a, b, &quit) {
        Verb::Quit
    } else {
        Verb::Other
    }
}

/// Whether `d` ends with the terminator `CRLF . CRLF`.
pub fn ends_with_sentinel(d: &Vec<u8>) -> (r: bool)
    ensures
        r == sealed(d@),
{
    let n = d.len();
    if n < 5 {
        return false;
    }
    let r = d[n - 5] == 13 && d[n - 4] == 10 && d[n - 3] == 46 && d[n - 2] == 13 && d[n - 1] == 10;
    assert(r == (d@.subrange(n - 5, n as int) =~= sentinel()));
    r
}

/// Opens the session with the client's domain and the given reply.
fn greet(connection: &mut Connection, arg: Option<&[u8]>, reply: Reply) -> (r: Outcome)
    ensures
        same_setup(final(connection), old(connection)),
        (final(connection).state@, r) == greet_step(arg_view(arg), reply),
{
    match arg {
        Some(b) => match decode_arg(b) {
            Some(t) => {
                connection.state = State::Ehlo(t.to_owned());
                Ok(Some(reply))
            },
            None => {
                connection.state = State::Initial;
                Err(DispatchError::InvalidCommand)
            },
        },
        None => {
            connection.state = State::Ehlo(String::new());
            Ok(Some(reply))
        },
    }
}

/// EHLO: records the client's domain (empty when absent); the reply offers
/// STARTTLS exactly when TLS is configured. A domain that is not UTF-8 text
/// is refused.
pub fn ehlo(connection: &mut Connection, arg: Option<&[u8]>) -> (r: Outcome)
    ensures
        same_setup(final(connection), old(connection)),
        (final(connection).state@, r) == greet_step(
            arg_view(arg),
            ehlo_reply(old(connection).tls_config is Encrypted),
        ),
{
    let reply = match connection.tls_config {
        TlsConfig::Encrypted { .. } => Reply::EhloTlsAvailable,
        TlsConfig::Plain => Reply::EhloTlsUnavailable,
    };
    greet(connection, arg, reply)
}

/// HELO: records the client's domain as EHLO does; the reply never offers STARTTLS.
pub fn helo(connection: &mut Connection, arg: Option<&[u8]>) -> (r: Outcome)
    ensures
        same_setup(final(connection), old(connection)),
        (final(connection).state@, r) == greet_step(arg_view(arg), Reply::EhloTlsUnavailable),
{
    greet(connection, arg, Reply::EhloTlsUnavailable)
}

/// STARTTLS: grants the upgrade when TLS is configured, else refuses it and
/// keeps the state.
pub fn starttls(connection: &mut Connection) -> (r: Outcome)
    ensures
        same_setup(final(connection), old(connection)),
        (final(connection).state@, r) == starttls_step(
            old(connection).state@,
            old(connection).tls_config is Encrypted,
        ),
{
    match connection.tls_config {
        TlsConfig::Encrypted { .. } => {
            connection.state = State::StartTls;
            Ok(Some(Reply::ReadyForTls))
        },
        TlsConfig::Plain => Ok(Some(Reply::TlsNotAvailable)),
    }
}

/// The address that an argument holds, when it is UTF-8 text.
fn address_of(arg: Option<&[u8]>) -> (r: Option<&str>)
    ensures
        match r {
            Some(a) => arg_address(arg_view(arg)) == Some(a@),
            None => arg_address(arg_view(arg)) is None,
        },
{
    match arg {
        Some(b) => match decode_arg(b) {
            Some(t) => extract_email(t),
            None => None,
        },
        None => None,
    }
}

/// MAIL: opens the envelope of a message from the client's `domain` when the
/// argument holds a sender address, else makes the session invalid. The
/// reply is OK either way.
pub fn mail(connection: &mut Connection, arg: Option<&[u8]>, domain: String) -> (r: Outcome)
    ensures
        same_setup(final(connection), old(connection)),
        (final(connection).state@, r) == mail_step(domain@, arg_view(arg)),
{
    match address_of(arg) {
        Some(a) => {
            let m = Mail {
                domain,
                from: a.to_owned(),
                to: Vec::new(),
                data: Vec::new(),
                spf_result: (false, SpfPolicy::Fail),
            };
            assert(m@.to =~= Seq::<Seq<char>>::empty());
            assert(m@.data =~= Seq::<u8>::empty());
            connection.state = State::MailFrom(m);
        },
        None => {
            connection.state = State::Invalid;
        },
    }
    Ok(Some(Reply::Okay))
}

/// RCPT: appends the recipient address that the argument holds, else makes
/// the session invalid. The reply is OK either way.
pub fn rcpt(connection: &mut Connection, arg: Option<&[u8]>, mail: Mail) -> (r: Outcome)
    ensures
        same_setup(final(connection), old(connection)),
        (final(connection).state@, r) == rcpt_step(mail@, arg_view(arg)),
{
    let mut mail = mail;
    match address_of(arg) {
        Some(a) => {
            let ghost before = mail@;
            mail.to.push(a.to_owned());
            assert(mail@.to =~= before.to.push(a@));
            assert(mail@ == MailModel { to: before.to.push(a@), ..before });
            connection.state = State::MailFrom(mail);
        },
        None => {
            connection.state = State::Invalid;
        },
    }
    Ok(Some(Reply::Okay))
}

/// DATA: the content of the message follows.
pub fn prepare_for_data(connection: &mut Connection, mail: Mail) -> (r: Outcome)
    ensures
        same_setup(final(connection), old(connection)),
        final(connection).state@ == StateModel::Data(mail@),
        r == Ok::<Option<Reply>, DispatchError>(Some(Reply::SendData)),
{
    connection.state = State::Data(mail);
    Ok(Some(Reply::SendData))
}

/// Content: appends the buffer as it is; the reply is OK once the content
/// ends with `CRLF . CRLF`, and there is none before.
pub fn data(connection: &mut Connection, mail: Mail, raw_command: &[u8]) -> (r: Outcome)
    ensures
        same_setup(final(connection), old(connection)),
        (final(connection).state@, r) == data_step(mail@, raw_command@),
{
    let mut mail = mail;
    let ghost before = mail@;
    let mut i: usize = 0;
    while i < raw_command.len()
        invariant
            i <= raw_command@.len(),
            mail@ == (MailModel { data: before.data + raw_command@.subrange(0, i as int), ..before }),
        decreases raw_command@.len() - i,
    {
        mail.data.push(raw_command[i]);
        assert(mail@.data =~= before.data + raw_command@.subrange(0, i + 1));
        i = i + 1;
    }
    assert(raw_command@.subrange(0, raw_command@.len() as int) =~= raw_command@);
    let done = ends_with_sentinel(&mail.data);
    connection.state = State::Data(mail);
    if done {
        Ok(Some(Reply::Okay))
    } else {
        Ok(None)
    }
}

/// Dispatches one received buffer. While the content of a message is
/// arriving the buffer is content, whatever it holds; otherwise its first
/// word is the command (in any case), its second the argument, and a
/// command that the state does not allow is refused with the state kept.
pub fn parse_and_execute(connection: &mut Connection, raw_command: &[u8]) -> (r: Outcome)
    ensures
        same_setup(final(connection), old(connection)),
        (final(connection).state@, r) == dispatch(
            old(connection).state@,
            old(connection).tls_config is Encrypted,
            raw_command@,
        ),
{
    let open_content = match &connection.state {
        State::Data(m) => !ends_with_sentinel(&m.data),
        _ => false,
    };
    let mut st = State::Invalid;
    std::mem::swap(&mut connection.state, &mut st);
    if open_content {
        match st {
            State::Data(m) => {
                return data(connection, m, raw_command);
            },
            other => {
                connection.state = other;
                return Err(DispatchError::InvalidCommand);
            },
        }
    }
    let ws = leading_words(raw_command);
    if ws.len() == 0 {
        connection.state = st;
        return Err(DispatchError::InvalidCommand);
    }
    let (a, b) = ws[0];
    let verb = verb_at(raw_command, a, b);
    let arg: Option<&[u8]> = if ws.len() > 1 {
        let (c, d) = ws[1];
        Some(&raw_command[c..d])
    } else {
        None
    };
    assert(arg_view(arg) == first_arg(raw_command@));
    match verb {
        Verb::Quit => {
            connection.state = st;
            Ok(Some(Reply::Quit))
        },
        Verb::Ehlo => match st {
            State::Initial => ehlo(connection, arg),
            other => {
                connection.state = other;
                Err(DispatchError::InvalidCommand)
            },
        },
        Verb::Helo => match st {
            State::Initial => helo(connection, arg),
            other => {
                connection.state = other;
                Err(DispatchError::InvalidCommand)
            },
        },
        Verb::StartTls => match st {
            State::Ehlo(d) => {
                connection.state = State::Ehlo(d);
                starttls(connection)
            },
            other => {
                connection.state = other;
                Err(DispatchError::InvalidCommand)
            },
        },
        Verb::Mail => match st {
            State::Ehlo(d) => mail(connection, arg, d),
            other => {
                connection.state = other;
                Err(DispatchError::InvalidCommand)
            },
        },
        Verb::Rcpt => match st {
            State::MailFrom(m) => rcpt(connection, arg, m),
            other => {
                connection.state = other;
                Err(DispatchError::InvalidCommand)
            },
        },
        Verb::Data => match st {
            State::MailFrom(m) => prepare_for_data(connection, m),
            other => {
                connection.state = other;
                Err(DispatchError::InvalidCommand)
            },
        },
        Verb::Other => {
            connection.state = st;
            Err(DispatchError::InvalidCommand)
        },
    }
}

/// Dispatch keeps a sender on every message, and it answers QUIT only
/// outside content that is still arriving, with the state kept.
pub proof fn lemma_dispatch_keeps_sender(s: StateModel, tls: bool, raw: Seq<u8>)
    requires
        has_sender(s),
    ensures
        has_sender(dispatch(s, tls, raw).0),
        dispatch(s, tls, raw).1 == Ok::<Option<Reply>, DispatchError>(Some(Reply::Quit)) ==> {
            &&& dispatch(s, tls, raw).0 == s
            &&& s matches StateModel::Data(m) ==> sealed(m.data)
        },
{
    if let Some(t) = arg_text(first_arg(raw)) {
        lemma_address_shape(t);
    }
}

/// Dispatch is a function: equal states, settings and buffers give equal
/// next states and equal answers.
pub proof fn lemma_dispatch_deterministic(
    s1: StateModel,
    s2: StateModel,
    tls: bool,
    raw1: Seq<u8>,
    raw2: Seq<u8>,
)
    requires
        s1 == s2,
        raw1 == raw2,
    ensures
        dispatch(s1, tls, raw1) == dispatch(s2, tls, raw2),
{
}

/// The (state, command) pairs that the dispatcher acts on.
pub open spec fn allowed(s: StateModel, v: Verb) -> bool {
    match v {
        Verb::Quit => true,
        Verb::Ehlo => s is Initial,
        Verb::Helo => s is Initial,
        Verb::StartTls => s is Ehlo,
        Verb::Mail => s is Ehlo,
        Verb::Rcpt => s is MailFrom,
        Verb::Data => s is MailFrom,
        Verb::Other => false,
    }
}

/// Outside content that is still arriving, a buffer with no command, or with
/// a command that the state does not allow, is refused and the state kept.
pub proof fn lemma_outside_grid_refused(s: StateModel, tls: bool, raw: Seq<u8>)
    requires
        !(s matches StateModel::Data(m) && !sealed(m.data)),
        words(raw).len() == 0 || !allowed(s, verb_of(words(raw)[0])),
    ensures
        dispatch(s, tls, raw) == (s, Err::<Option<Reply>, DispatchError>(DispatchError::InvalidCommand)),
{
}

/// In the initial state, the one a TLS upgrade returns to, only EHLO and HELO
/// (with a UTF-8 argument, if any) are accepted, QUIT aside; any other buffer
/// fails dispatch and keeps the state.
pub proof fn lemma_initial_accepts_only_greetings(tls: bool, raw: Seq<u8>)
    requires
        words(raw).len() == 0 || verb_of(words(raw)[0]) != Verb::Quit,
    ensures
        dispatch(StateModel::Initial, tls, raw).1 is Ok <==> {
            &&& words(raw).len() > 0
            &&& verb_of(words(raw)[0]) == Verb::Ehlo || verb_of(words(raw)[0]) == Verb::Helo
            &&& first_arg(raw) matches Some(b) ==> valid_utf8(b)
        },
        dispatch(StateModel::Initial, tls, raw).1 is Err ==> dispatch(StateModel::Initial, tls, raw).0
            == StateModel::Initial,
{
}

/// Two RCPT commands in a row append their recipients in the order given,
/// duplicates kept.
pub proof fn lemma_rcpt_order(
    m: MailModel,
    tls: bool,
    raw1: Seq<u8>,
    raw2: Seq<u8>,
    r1: Seq<char>,
    r2: Seq<char>,
)
    requires
        words(raw1).len() > 0,
        verb_of(words(raw1)[0]) == Verb::Rcpt,
        arg_address(first_arg(raw1)) == Some(r1),
        words(raw2).len() > 0,
        verb_of(words(raw2)[0]) == Verb::Rcpt,
        arg_address(first_arg(raw2)) == Some(r2),
    ensures
        dispatch(dispatch(StateModel::MailFrom(m), tls, raw1).0, tls, raw2).0 == StateModel::MailFrom(
            MailModel { to: m.to + seq![r1, r2], ..m },
        ),
{
    assert(m.to.push(r1).push(r2) =~= m.to + seq![r1, r2]);
}

} // verus!
