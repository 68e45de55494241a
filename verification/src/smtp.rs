//! The SMTP session: what the server answers to each message, and how the mail it
//! collects grows.
use vstd::prelude::*;
use vstd::string::StrSliceExecFns;
use vstd::string::StringExecFns;
use vstd::utf8::encode_utf8;

use crate::text::ascii_lower;
use crate::text::chars_of;
use crate::text::has_prefix;
use crate::text::has_suffix;
use crate::text::matches_at_exec;
use crate::text::next_word_span;
use crate::text::nth_word;
use crate::text::same_word_ignore_case;
use crate::text::strip_suffixes;
use crate::text::strip_suffixes_end;
use crate::text::word_is;
use crate::text::contains;
use crate::text::contains_exec;
use crate::text::word_span;
use crate::text::lemma_word_span_bounds;

verus! {

/// Largest mail body, in bytes, that a session accepts.
pub const MAX_MSG_SIZE: usize = 10485760;

/// A mail as the session collects it.
#[derive(Debug, Clone)]
pub struct Mail {
    pub from: String,
    pub to: Vec<String>,
    pub data: String,
}

/// The contents of a [`Mail`].
pub struct MailView {
    pub from: Seq<char>,
    pub to: Seq<Seq<char>>,
    pub data: Seq<char>,
}

impl View for Mail {
    type V = MailView;

    open spec fn view(&self) -> MailView {
        MailView { from: self.from@, to: self.to@.map_values(|t: String| t@), data: self.data@ }
    }
}

pub open spec fn empty_mail() -> MailView {
    MailView { from: Seq::empty(), to: Seq::empty(), data: Seq::empty() }
}

impl Default for Mail {
    fn default() -> (m: Mail)
        ensures
            m@ == empty_mail(),
    {
        let m = Mail { from: String::new(), to: Vec::new(), data: String::new() };
        assert(m@.to =~= Seq::<Seq<char>>::empty());
        m
    }
}

/// Where a session stands.
pub enum SessionState {
    Fresh,
    Greeted,
    ReceivingRcpt(MailView),
    ReceivingData(MailView),
    Received(MailView),
}

enum State {
    Fresh,
    Greeted,
    ReceivingRcpt(Mail),
    ReceivingData(Mail),
    Received(Mail),
}

impl View for State {
    type V = SessionState;

    closed spec fn view(&self) -> SessionState {
        match self {
            State::Fresh => SessionState::Fresh,
            State::Greeted => SessionState::Greeted,
            State::ReceivingRcpt(m) => SessionState::ReceivingRcpt(m@),
            State::ReceivingData(m) => SessionState::ReceivingData(m@),
            State::Received(m) => SessionState::Received(m@),
        }
    }
}

/// The replies a session sends.
#[derive(Debug, Clone, Copy, PartialEq, Eq, Structural)]
pub enum Reply {
    EhloHello,
    HeloHello,
    Accepted,
    InvalidSender,
    InvalidRecipient,
    NoRecipient,
    StartMailInput,
    Bye,
    TooLarge,
    Continue,
    Unrecognized,
}

impl Reply {
    /// The text of the reply.
    pub open spec fn text(self) -> Seq<char> {
        match self {
            Reply::EhloHello => "250-Hello\r\n250-SIZE 10485760\r\n250 AUTH\r\n"@,
            Reply::HeloHello => "250 Hello\r\n"@,
            Reply::Accepted => "250 OK\r\n"@,
            Reply::InvalidSender => "501 Syntax: Invalid email address\r\n"@,
            Reply::InvalidRecipient => "501 Syntax: Invalid recipient address\r\n"@,
            Reply::NoRecipient => "503 Error: RCPT TO command must precede DATA\r\n"@,
            Reply::StartMailInput => "354 Start mail input; end with <CR><LF>.<CR><LF>\r\n"@,
            Reply::Bye => "221 Bye\r\n"@,
            Reply::TooLarge => "552 Error: Message size exceeds maximum size\r\n"@,
            Reply::Continue => "250 Continue\r\n"@,
            Reply::Unrecognized => "500 Syntax error, command unrecognized\r\n"@,
        }
    }

    /// The bytes sent on the wire for the reply.
    pub open spec fn bytes(self) -> Seq<u8> {
        encode_utf8(self.text())
    }

    pub fn as_str(&self) -> (s: &'static str)
        ensures
            s@ == self.text(),
    {
        match self {
            Reply::EhloHello => "250-Hello\r\n250-SIZE 10485760\r\n250 AUTH\r\n",
            Reply::HeloHello => "250 Hello\r\n",
            Reply::Accepted => "250 OK\r\n",
            Reply::InvalidSender => "501 Syntax: Invalid email address\r\n",
            Reply::InvalidRecipient => "501 Syntax: Invalid recipient address\r\n",
            Reply::NoRecipient => "503 Error: RCPT TO command must precede DATA\r\n",
            Reply::StartMailInput => "354 Start mail input; end with <CR><LF>.<CR><LF>\r\n",
            Reply::Bye => "221 Bye\r\n",
            Reply::TooLarge => "552 Error: Message size exceeds maximum size\r\n",
            Reply::Continue => "250 Continue\r\n",
            Reply::Unrecognized => "500 Syntax error, command unrecognized\r\n",
        }
    }

    pub fn as_bytes(&self) -> (b: &'static [u8])
        ensures
            b@ == self.bytes(),
    {
        self.as_str().as_bytes()
    }
}

/// Why a message is refused outright.
#[derive(Debug, Clone, Copy, PartialEq, Eq, Structural)]
pub enum SmtpError {
    EmptyCommand,
    EmptyMail,
    IncorrectMail,
    EmptyRcpt,
    IncorrectRcpt,
    NotGreeted,
}

impl SmtpError {
    /// The text that describes the refusal.
    pub open spec fn text(self) -> Seq<char> {
        match self {
            SmtpError::EmptyCommand => "received empty command"@,
            SmtpError::EmptyMail => "received empty MAIL"@,
            SmtpError::IncorrectMail => "received incorrect MAIL"@,
            SmtpError::EmptyRcpt => "received empty RCPT"@,
            SmtpError::IncorrectRcpt => "received incorrect RCPT"@,
            SmtpError::NotGreeted => "received a command before HELO or EHLO"@,
        }
    }

    pub fn message(&self) -> (s: &'static str)
        ensures
            s@ == self.text(),
    {
        match self {
            SmtpError::EmptyCommand => "received empty command",
            SmtpError::EmptyMail => "received empty MAIL",
            SmtpError::IncorrectMail => "received incorrect MAIL",
            SmtpError::EmptyRcpt => "received empty RCPT",
            SmtpError::IncorrectRcpt => "received incorrect RCPT",
            SmtpError::NotGreeted => "received a command before HELO or EHLO",
        }
    }
}

pub open spec fn is_ascii_letter(c: char) -> bool {
    ('a' as u32 <= c as u32 <= 'z' as u32) || ('A' as u32 <= c as u32 <= 'Z' as u32)
}

pub open spec fn is_ascii_alnum(c: char) -> bool {
    is_ascii_letter(c) || ('0' as u32 <= c as u32 <= '9' as u32)
}

/// The class `[a-zA-Z0-9._%+-]`.
pub open spec fn is_local_part_char(c: char) -> bool {
    is_ascii_alnum(c) || c == '.' || c == '_' || c == '%' || c == '+' || c == '-'
}

/// The class `[a-zA-Z0-9.-]`.
pub open spec fn is_domain_char(c: char) -> bool {
    is_ascii_alnum(c) || c == '.' || c == '-'
}

/// `a` is `[a-zA-Z0-9._%+-]+@[a-zA-Z0-9.-]+\.[a-zA-Z]{2,}`.
pub open spec fn is_address(a: Seq<char>) -> bool {
    exists|at: int, dot: int|
        {
            &&& 0 < at
            &&& at + 1 < dot
            &&& dot + 3 <= a.len()
            &&& a[at] == '@'
            &&& a[dot] == '.'
            &&& forall|i: int| 0 <= i < at ==> is_local_part_char(#[trigger] a[i])
            &&& forall|i: int| at < i < dot ==> is_domain_char(#[trigger] a[i])
            &&& forall|i: int| dot < i < a.len() ==> is_ascii_letter(#[trigger] a[i])
        }
}

/// `s` is an address in angle brackets: the whole of `s` matches
/// `^<([a-zA-Z0-9._%+-]+@[a-zA-Z0-9.-]+\.[a-zA-Z]{2,})>$`.
pub open spec fn is_bracketed_address(s: Seq<char>) -> bool {
    &&& s.len() >= 2
    &&& s[0] == '<'
    &&& s[s.len() - 1] == '>'
    &&& is_address(s.subrange(1, s.len() - 1))
}

/// The pattern that addresses in `MAIL` and `RCPT` must match.
pub open spec fn address_pattern() -> Seq<char> {
    "^<([a-zA-Z0-9._%+-]+@[a-zA-Z0-9.-]+\\.[a-zA-Z]{2,})>$"@
}

/// Compiles `pattern` with `regex::Regex::new` and reports whether `Regex::is_match` finds
/// it in `candidate`. The regex crate's documentation defines the language of the one
/// pattern admitted here: `^` and `$` anchor at the ends of the haystack, so the whole
/// candidate must be an address in angle brackets as `is_bracketed_address` states.
/// That pattern compiles, so the `unwrap` does not panic.
#[verifier::external_body]
fn regex_is_match(pattern: &str, candidate: &str) -> (b: bool)
    requires
        pattern@ == address_pattern(),
    ensures
        b == is_bracketed_address(candidate@),
{
    regex::Regex::new(pattern).unwrap().is_match(candidate)
}

/// `str::to_ascii_lowercase`, which std documents to map 'A'..='Z' to 'a'..='z' and to
/// leave every other character unchanged.
#[verifier::external_body]
fn lowercase_ascii(s: &str) -> (r: String)
    ensures
        r@ == s@.map_values(|c: char| ascii_lower(c)),
{
    s.to_ascii_lowercase()
}

/// The first word of `msg`, compared without regard to ASCII case, is `w`.
pub open spec fn command_is(msg: Seq<char>, w: Seq<char>) -> bool {
    nth_word(msg, 0) matches Some(c) && same_word_ignore_case(c, w)
}

/// The address that `MAIL` or `RCPT` reads from the second word `w`, which starts with
/// `keyword`: the rest of `w`.
pub open spec fn address_after(w: Seq<char>, keyword: Seq<char>) -> Seq<char> {
    w.subrange(keyword.len() as int, w.len() as int)
}

pub open spec fn mail_from_step(msg: Seq<char>) -> (SessionState, Result<Reply, SmtpError>) {
    match nth_word(msg, 1) {
        None => (SessionState::Fresh, Err(SmtpError::EmptyMail)),
        Some(w) => if !has_prefix(w, "FROM:"@) {
            (SessionState::Fresh, Err(SmtpError::IncorrectMail))
        } else {
            let from = address_after(w, "FROM:"@);
            if is_bracketed_address(from) {
                (
                    SessionState::ReceivingRcpt(
                        MailView { from, to: Seq::empty(), data: Seq::empty() },
                    ),
                    Ok(Reply::Accepted),
                )
            } else {
                (SessionState::Greeted, Ok(Reply::InvalidSender))
            }
        },
    }
}

pub open spec fn rcpt_to_step(mail: MailView, msg: Seq<char>) -> (
    SessionState,
    Result<Reply, SmtpError>,
) {
    match nth_word(msg, 1) {
        None => (SessionState::Fresh, Err(SmtpError::EmptyRcpt)),
        Some(w) => if !has_prefix(w, "TO:"@) {
            (SessionState::Fresh, Err(SmtpError::IncorrectRcpt))
        } else {
            let to = address_after(w, "TO:"@);
            if is_bracketed_address(to) {
                (
                    SessionState::ReceivingRcpt(
                        MailView {
                            to: mail.to.push(to.map_values(|c: char| ascii_lower(c))),
                            ..mail
                        },
                    ),
                    Ok(Reply::Accepted),
                )
            } else {
                (SessionState::ReceivingRcpt(mail), Ok(Reply::InvalidRecipient))
            }
        },
    }
}

/// The end of a mail body.
pub open spec fn data_end() -> Seq<char> {
    "\r\n.\r\n"@
}

/// The byte length that `str::len` reports for text `s`.
pub open spec fn byte_len(s: Seq<char>) -> usize {
    encode_utf8(s).len() as usize
}

pub open spec fn data_step(mail: MailView, msg: Seq<char>) -> (
    SessionState,
    Result<Reply, SmtpError>,
) {
    if has_suffix(msg, data_end()) {
        let data = mail.data + strip_suffixes(msg, data_end());
        if byte_len(data) > MAX_MSG_SIZE {
            (SessionState::Fresh, Ok(Reply::TooLarge))
        } else {
            (SessionState::Received(MailView { data, ..mail }), Ok(Reply::Accepted))
        }
    } else {
        (
            SessionState::ReceivingData(MailView { data: mail.data + msg, ..mail }),
            Ok(Reply::Continue),
        )
    }
}

/// The state a session moves to, and its answer, when it receives `msg` in state `st`.
pub open spec fn session_step(st: SessionState, msg: Seq<char>) -> (
    SessionState,
    Result<Reply, SmtpError>,
) {
    if nth_word(msg, 0) is None {
        (st, Err(SmtpError::EmptyCommand))
    } else if command_is(msg, "ehlo"@) && st is Fresh {
        (SessionState::Greeted, Ok(Reply::EhloHello))
    } else if command_is(msg, "helo"@) && st is Fresh {
        (SessionState::Greeted, Ok(Reply::HeloHello))
    } else if command_is(msg, "noop"@) || command_is(msg, "help"@) {
        (st, Ok(Reply::Accepted))
    } else if command_is(msg, "rset"@) {
        (SessionState::Fresh, Ok(Reply::Accepted))
    } else if command_is(msg, "mail"@) && st is Greeted {
        mail_from_step(msg)
    } else if command_is(msg, "rcpt"@) && st is ReceivingRcpt {
        rcpt_to_step(st->ReceivingRcpt_0, msg)
    } else if command_is(msg, "data"@) && st is ReceivingRcpt {
        if st->ReceivingRcpt_0.to.len() == 0 {
            (st, Ok(Reply::NoRecipient))
        } else {
            (SessionState::ReceivingData(st->ReceivingRcpt_0), Ok(Reply::StartMailInput))
        }
    } else if command_is(msg, "quit"@) {
        (st, Ok(Reply::Bye))
    } else if st is ReceivingData {
        data_step(st->ReceivingData_0, msg)
    } else if st is Fresh {
        (SessionState::Fresh, Err(SmtpError::NotGreeted))
    } else {
        (st, Ok(Reply::Unrecognized))
    }
}

/// What `handle_smtp` hands back for the outcome `out` of a step.
pub open spec fn wire_result(
    out: Result<Reply, SmtpError>,
    r: Result<&'static [u8], SmtpError>,
) -> bool {
    match out {
        Ok(rep) => r matches Ok(b) && b@ == rep.bytes(),
        Err(e) => r == Err::<&'static [u8], SmtpError>(e),
    }
}


/// The reply to `EHLO` that a server for `domain` advertises.
pub open spec fn ehlo_greeting_for(domain: Seq<char>) -> Seq<char> {
    "250-"@ + domain + " Hello "@ + domain + "\n250 AUTH PLAIN LOGIN\n"@
}

/// An SMTP session.
pub struct StateMachine {
    state: State,
    ehlo_greeting: String,
}

/// The contents of a [`StateMachine`].
pub struct MachineView {
    pub state: SessionState,
    pub ehlo_greeting: Seq<char>,
}

impl View for StateMachine {
    type V = MachineView;

    closed spec fn view(&self) -> MachineView {
        MachineView { state: self.state@, ehlo_greeting: self.ehlo_greeting@ }
    }
}

/// The address that `MAIL` or `RCPT` reads from the second word `v[a2..b2]` of the message,
/// which must start with `keyword`.
fn read_address(v: &Vec<char>, raw_msg: &str, a2: usize, b2: usize, keyword: &str) -> (r: Option<
    String,
>)
    requires
        v@ == raw_msg@,
        word_span(v@, 1) == (a2 as int, b2 as int),
        a2 < v@.len(),
    ensures
        r is None <==> !has_prefix(v@.subrange(a2 as int, b2 as int), keyword@),
        r matches Some(s) ==> s@ == address_after(v@.subrange(a2 as int, b2 as int), keyword@),
{
    proof {
        lemma_word_span_bounds(v@, 1);
    }
    let ghost w = v@.subrange(a2 as int, b2 as int);
    let kw = chars_of(keyword);
    if kw.len() > b2 - a2 {
        return None;
    }
    let k = kw.len();
    assert(w.subrange(0, k as int) =~= v@.subrange(a2 as int, a2 + k));
    if !matches_at_exec(v, &kw, a2) {
        return None;
    }
    let start = a2 + k;
    assert(w.subrange(k as int, w.len() as int) =~= v@.subrange(start as int, b2 as int));
    let rest = raw_msg.substring_char(start, b2);
    Some(rest.to_owned())
}

impl StateMachine {
    /// A fresh session of a server for `domain`.
    pub fn new(domain: &str) -> (sm: Self)
        ensures
            sm@.state == SessionState::Fresh,
            sm@.ehlo_greeting == ehlo_greeting_for(domain@),
    {
        let mut g = String::from_str("250-");
        g.append(domain);
        g.append(" Hello ");
        g.append(domain);
        g.append("\n250 AUTH PLAIN LOGIN\n");
        StateMachine { state: State::Fresh, ehlo_greeting: g }
    }

    /// The `EHLO` greeting built for the server's domain.
    pub fn ehlo_greeting(&self) -> (g: &str)
        ensures
            g@ == self@.ehlo_greeting,
    {
        self.ehlo_greeting.as_str()
    }

    fn mail_from(&mut self, v: &Vec<char>, raw_msg: &str, b1: usize) -> (r: Result<
        Reply,
        SmtpError,
    >)
        requires
            v@ == raw_msg@,
            word_span(v@, 0).1 == b1,
            b1 <= v@.len(),
            old(self)@.state is Fresh,
        ensures
            final(self)@.ehlo_greeting == old(self)@.ehlo_greeting,
            (final(self)@.state, r) == mail_from_step(v@),
    {
        let (a2, b2) = next_word_span(v, b1);
        assert(word_span(v@, 1) == (a2 as int, b2 as int));
        if a2 >= v.len() {
            return Err(SmtpError::EmptyMail);
        }
        match read_address(v, raw_msg, a2, b2, "FROM:") {
            None => Err(SmtpError::IncorrectMail),
            Some(from) => {
                if regex_is_match(
                    "^<([a-zA-Z0-9._%+-]+@[a-zA-Z0-9.-]+\\.[a-zA-Z]{2,})>$",
                    from.as_str(),
                ) {
                    let mail = Mail { from, to: Vec::new(), data: String::new() };
                    assert(mail@.to =~= Seq::<Seq<char>>::empty());
                    self.state = State::ReceivingRcpt(mail);
                    Ok(Reply::Accepted)
                } else {
                    self.state = State::Greeted;
                    Ok(Reply::InvalidSender)
                }
            },
        }
    }

    fn rcpt_to(&mut self, mail: Mail, v: &Vec<char>, raw_msg: &str, b1: usize) -> (r: Result<
        Reply,
        SmtpError,
    >)
        requires
            v@ == raw_msg@,
            word_span(v@, 0).1 == b1,
            b1 <= v@.len(),
            old(self)@.state is Fresh,
        ensures
            final(self)@.ehlo_greeting == old(self)@.ehlo_greeting,
            (final(self)@.state, r) == rcpt_to_step(mail@, v@),
    {
        let mut mail = mail;
        let (a2, b2) = next_word_span(v, b1);
        assert(word_span(v@, 1) == (a2 as int, b2 as int));
        if a2 >= v.len() {
            return Err(SmtpError::EmptyRcpt);
        }
        match read_address(v, raw_msg, a2, b2, "TO:") {
            None => Err(SmtpError::IncorrectRcpt),
            Some(to) => {
                if regex_is_match(
                    "^<([a-zA-Z0-9._%+-]+@[a-zA-Z0-9.-]+\\.[a-zA-Z]{2,})>$",
                    to.as_str(),
                ) {
                    let ghost before = mail@;
                    let lower = lowercase_ascii(to.as_str());
                    mail.to.push(lower);
                    assert(mail@.to =~= before.to.push(to@.map_values(|c: char| ascii_lower(c))));
                    self.state = State::ReceivingRcpt(mail);
                    Ok(Reply::Accepted)
                } else {
                    self.state = State::ReceivingRcpt(mail);
                    Ok(Reply::InvalidRecipient)
                }
            },
        }
    }

    fn data_chunk(&mut self, mail: Mail, v: &Vec<char>, raw_msg: &str) -> (r: Result<
        Reply,
        SmtpError,
    >)
        requires
            v@ == raw_msg@,
            old(self)@.state is Fresh,
        ensures
            final(self)@.ehlo_greeting == old(self)@.ehlo_greeting,
            (final(self)@.state, r) == data_step(mail@, v@),
    {
        let mut mail = mail;
        let term = chars_of("\r\n.\r\n");
        let n = v.len();
        if term.len() <= n && matches_at_exec(v, &term, n - term.len()) {
            let e = strip_suffixes_end(v, &term);
            let body = raw_msg.substring_char(0, e);
            mail.data.append(body);
            if mail.data.as_str().len() > MAX_MSG_SIZE {
                Ok(Reply::TooLarge)
            } else {
                self.state = State::Received(mail);
                Ok(Reply::Accepted)
            }
        } else {
            mail.data.append(raw_msg);
            self.state = State::ReceivingData(mail);
            Ok(Reply::Continue)
        }
    }

    /// Answers one message from the client, as [`handle_smtp`](Self::handle_smtp) does, with
    /// the reply as a [`Reply`].
    pub fn respond(&mut self, raw_msg: &str) -> (r: Result<Reply, SmtpError>)
        ensures
            final(self)@.ehlo_greeting == old(self)@.ehlo_greeting,
            (final(self)@.state, r) == session_step(old(self)@.state, raw_msg@),
    {
        let v = chars_of(raw_msg);
        let (a1, b1) = next_word_span(&v, 0);
        assert(word_span(v@, 0) == (a1 as int, b1 as int));
        if a1 >= v.len() {
            return Err(SmtpError::EmptyCommand);
        }
        assert(nth_word(v@, 0) == Some(v@.subrange(a1 as int, b1 as int)));
        let is_ehlo = word_is(&v, a1, b1, "ehlo");
        let is_helo = word_is(&v, a1, b1, "helo");
        let is_noop = word_is(&v, a1, b1, "noop");
        let is_help = word_is(&v, a1, b1, "help");
        let is_rset = word_is(&v, a1, b1, "rset");
        let is_mail = word_is(&v, a1, b1, "mail");
        let is_rcpt = word_is(&v, a1, b1, "rcpt");
        let is_data = word_is(&v, a1, b1, "data");
        let is_quit = word_is(&v, a1, b1, "quit");
        let mut state = State::Fresh;
        std::mem::swap(&mut state, &mut self.state);
        let fresh = matches!(state, State::Fresh);
        if is_ehlo && fresh {
            self.state = State::Greeted;
            return Ok(Reply::EhloHello);
        }
        if is_helo && fresh {
            self.state = State::Greeted;
            return Ok(Reply::HeloHello);
        }
        if is_noop || is_help {
            self.state = state;
            return Ok(Reply::Accepted);
        }
        if is_rset {
            return Ok(Reply::Accepted);
        }
        if is_mail && matches!(state, State::Greeted) {
            return self.mail_from(&v, raw_msg, b1);
        }
        match state {
            State::ReceivingRcpt(mail) if is_rcpt => self.rcpt_to(mail, &v, raw_msg, b1),
            State::ReceivingRcpt(mail) if is_data => {
                if mail.to.len() == 0 {
                    self.state = State::ReceivingRcpt(mail);
                    Ok(Reply::NoRecipient)
                } else {
                    self.state = State::ReceivingData(mail);
                    Ok(Reply::StartMailInput)
                }
            },
            s if is_quit => {
                self.state = s;
                Ok(Reply::Bye)
            },
            State::ReceivingData(mail) => self.data_chunk(mail, &v, raw_msg),
            State::Fresh => Err(SmtpError::NotGreeted),
            s => {
                self.state = s;
                Ok(Reply::Unrecognized)
            },
        }
    }

    /// Answers one message from the client: the bytes to send back, or the reason the
    /// message is refused.
    ///
    /// The first white-space separated word is the command, compared without regard to
    /// ASCII case. `EHLO` and `HELO` greet a fresh session. `MAIL FROM:<address>` starts a
    /// mail after the greeting, `RCPT TO:<address>` adds a recipient in lower case, and
    /// `DATA` starts the body once there is a recipient; the address is the rest of the
    /// word after `FROM:` or `TO:` and must match `address_pattern`. In the body, every other
    /// message is body text until one ends in `"\r\n.\r\n"`, which completes the mail.
    /// `NOOP` and `HELP` answer `250 OK` and `QUIT` answers `221 Bye`, all three keeping the
    /// state; `RSET` starts over. A reply in the 500 range (an address that does not match,
    /// `DATA` without a recipient, or an unrecognized command) keeps the state. Before a
    /// greeting, any other command is refused with an error. An empty message is refused
    /// and changes nothing; the other refusals, and a body over `MAX_MSG_SIZE` bytes, end the
    /// mail transaction and leave the session fresh.
    pub fn handle_smtp(&mut self, raw_msg: &str) -> (r: Result<&'static [u8], SmtpError>)
        ensures
            final(self)@.ehlo_greeting == old(self)@.ehlo_greeting,
            final(self)@.state == session_step(old(self)@.state, raw_msg@).0,
            wire_result(session_step(old(self)@.state, raw_msg@).1, r),
    {
        match self.respond(raw_msg) {
            Ok(rep) => Ok(rep.as_bytes()),
            Err(e) => Err(e),
        }
    }

    /// One turn of a connection: `input` is the text just read, or `None` once the client
    /// has closed the connection. On close the connection ends and the session keeps its
    /// state, so that a mail it holds is there to be stored. Otherwise the reply is written
    /// unless it is empty, and the connection ends after the `221 Bye` reply to `QUIT`.
    pub fn serve_step(&mut self, input: Option<&str>) -> (r: Result<ServeAction, SmtpError>)
        ensures
            final(self)@.ehlo_greeting == old(self)@.ehlo_greeting,
            input is None ==> final(self)@.state == old(self)@.state && r == Ok::<
                ServeAction,
                SmtpError,
            >(ServeAction { write: None, stop: true }),
            input matches Some(m) ==> {
                &&& final(self)@.state == serve_turn(old(self)@.state, m@).0
                &&& turn_result(serve_turn(old(self)@.state, m@).1, r)
            },
    {
        match input {
            None => Ok(ServeAction { write: None, stop: true }),
            Some(msg) => {
                let rep = match self.respond(msg) {
                    Ok(rep) => rep,
                    Err(e) => return Err(e),
                };
                let bytes = rep.as_bytes();
                let write = if bytes.len() != 0 {
                    Some(bytes)
                } else {
                    None
                };
                let stop = rep == Reply::Bye;
                Ok(ServeAction { write, stop })
            },
        }
    }

    /// The stage the session is in.
    pub fn phase(&self) -> (p: Phase)
        ensures
            p == phase_of(self@.state),
    {
        match &self.state {
            State::Fresh => Phase::Fresh,
            State::Greeted => Phase::Greeted,
            State::ReceivingRcpt(_) => Phase::ReceivingRcpt,
            State::ReceivingData(_) => Phase::ReceivingData,
            State::Received(_) => Phase::Received,
        }
    }

    /// Whether mail may be delivered to `to`: the address names none of the mailboxes
    /// `admin`, `postmaster` and `hostmaster` anywhere in it.
    pub fn legal_recipient(to: &str) -> (b: bool)
        ensures
            b == (!contains(to@, "admin"@) && !contains(to@, "postmaster"@) && !contains(
                to@,
                "hostmaster"@,
            )),
    {
        !contains_exec(to, "admin") && !contains_exec(to, "postmaster") && !contains_exec(
            to,
            "hostmaster",
        )
    }

    /// The mail to keep once the connection has ended: the one received, or the one whose
    /// body was still being received.
    pub fn pending_mail(&self) -> (m: Option<&Mail>)
        ensures
            match self@.state {
                SessionState::Received(mv) => m matches Some(x) && x@ == mv,
                SessionState::ReceivingData(mv) => m matches Some(x) && x@ == mv,
                _ => m is None,
            },
    {
        match &self.state {
            State::Received(mail) => Some(mail),
            State::ReceivingData(mail) => Some(mail),
            _ => None,
        }
    }
}

/// The stage of a session, without the mail it holds.
#[derive(Debug, Clone, Copy, PartialEq, Eq, Structural)]
pub enum Phase {
    Fresh,
    Greeted,
    ReceivingRcpt,
    ReceivingData,
    Received,
}

pub open spec fn phase_of(st: SessionState) -> Phase {
    match st {
        SessionState::Fresh => Phase::Fresh,
        SessionState::Greeted => Phase::Greeted,
        SessionState::ReceivingRcpt(_) => Phase::ReceivingRcpt,
        SessionState::ReceivingData(_) => Phase::ReceivingData,
        SessionState::Received(_) => Phase::Received,
    }
}

/// What a connection does after one turn.
pub struct ServeAction {
    /// The bytes to send back, if any.
    pub write: Option<&'static [u8]>,
    /// Whether the connection ends.
    pub stop: bool,
}

/// The line a server sends when a client connects.
pub fn greeting() -> (b: &'static [u8])
    ensures
        b@ == encode_utf8("220 kelompok1\n"@),
{
    "220 kelompok1\n".as_bytes()
}

/// One turn of a connection that reads `m` in state `st`: the new state, and either the
/// bytes written with whether the connection then ends, or the refusal that ends it.
pub open spec fn serve_turn(st: SessionState, m: Seq<char>) -> (
    SessionState,
    Result<(Seq<u8>, bool), SmtpError>,
) {
    let (st1, out) = session_step(st, m);
    match out {
        Ok(rep) => (st1, Ok((rep.bytes(), rep == Reply::Bye))),
        Err(e) => (st1, Err(e)),
    }
}

/// `r` is the action for the outcome `out` of a turn.
pub open spec fn turn_result(
    out: Result<(Seq<u8>, bool), SmtpError>,
    r: Result<ServeAction, SmtpError>,
) -> bool {
    match out {
        Ok((w, stop)) => r matches Ok(a) && (a.write is Some <==> w.len() > 0) && (a.write matches Some(
            b,
        ) ==> b@ == w) && a.stop == stop,
        Err(e) => r == Err::<ServeAction, SmtpError>(e),
    }
}

/// The final state and the outcomes of a session that receives `msgs` in order from `st`.
pub open spec fn session_run(st: SessionState, msgs: Seq<Seq<char>>) -> (
    SessionState,
    Seq<Result<Reply, SmtpError>>,
)
    decreases msgs.len(),
{
    if msgs.len() == 0 {
        (st, Seq::empty())
    } else {
        let (st1, r) = session_step(st, msgs[0]);
        let (stn, rs) = session_run(st1, msgs.drop_first());
        (stn, seq![r] + rs)
    }
}

/// The bytes of the replies among `rs`, in order.
pub open spec fn reply_bytes(rs: Seq<Result<Reply, SmtpError>>) -> Seq<u8>
    decreases rs.len(),
{
    if rs.len() == 0 {
        Seq::empty()
    } else {
        let first = match rs[0] {
            Ok(rep) => rep.bytes(),
            Err(_) => Seq::empty(),
        };
        first + reply_bytes(rs.drop_first())
    }
}

/// What a connection writes after its greeting when it reads `msgs` in order, turn by turn
/// as `serve_step` states, starting in state `st`: each turn's bytes, up to the turn that
/// ends the connection, or up to a refusal.
pub open spec fn connection_writes(st: SessionState, msgs: Seq<Seq<char>>) -> Seq<u8>
    decreases msgs.len(),
{
    if msgs.len() == 0 {
        Seq::empty()
    } else {
        let (st1, out) = serve_turn(st, msgs[0]);
        match out {
            Ok((w, stop)) => if stop {
                w
            } else {
                w + connection_writes(st1, msgs.drop_first())
            },
            Err(_) => Seq::empty(),
        }
    }
}

/// Everything a connection that starts fresh and reads `msgs` writes: the greeting, then
/// the turns.
pub open spec fn connection_output(msgs: Seq<Seq<char>>) -> Seq<u8> {
    encode_utf8("220 kelompok1\n"@) + connection_writes(SessionState::Fresh, msgs)
}

} // verus!
