//! What holds of every SMTP session, whatever the client sends.
use vstd::prelude::*;

use crate::smtp::is_address;
use crate::smtp::is_ascii_letter;
use crate::smtp::is_bracketed_address;
use crate::smtp::is_domain_char;
use crate::smtp::is_local_part_char;
use crate::smtp::address_after;
use crate::smtp::byte_len;
use crate::smtp::command_is;
use crate::smtp::session_step;
use crate::smtp::MailView;
use crate::smtp::SessionState;
use crate::smtp::MAX_MSG_SIZE;
use crate::text::nth_word;
use crate::text::is_white_space;
use crate::text::lemma_word_at;
use crate::text::word_span;
use crate::text::has_prefix;
use crate::text::has_suffix;
use crate::text::strip_suffixes;
use crate::smtp::data_end;
use crate::smtp::Reply;
use crate::smtp::SmtpError;
use crate::smtp::connection_writes;
use crate::smtp::reply_bytes;
use crate::smtp::session_run;
use crate::text::ascii_lower;
use crate::client::submission_messages;
use crate::client::EmailView;

verus! {

/// No character of `s` is an ASCII upper-case letter.
pub open spec fn has_no_ascii_upper(s: Seq<char>) -> bool {
    forall|i: int| 0 <= i < s.len() ==> !('A' as u32 <= #[trigger] s[i] as u32 <= 'Z' as u32)
}

/// `s` with every character passed through `ascii_lower`.
pub open spec fn lowered(s: Seq<char>) -> Seq<char> {
    s.map_values(|c: char| ascii_lower(c))
}

proof fn lemma_lower_char(c: char)
    ensures
        is_local_part_char(c) ==> is_local_part_char(ascii_lower(c)),
        is_domain_char(c) ==> is_domain_char(ascii_lower(c)),
        is_ascii_letter(c) ==> is_ascii_letter(ascii_lower(c)),
        !('A' as u32 <= ascii_lower(c) as u32 <= 'Z' as u32),
        (c == '<' || c == '>' || c == '@' || c == '.') ==> ascii_lower(c) == c,
{
}


/// Lower-casing a valid bracketed address gives a valid bracketed address with no
/// upper-case letter.
pub proof fn lemma_lowered_address(s: Seq<char>)
    requires
        is_bracketed_address(s),
    ensures
        is_bracketed_address(lowered(s)),
        has_no_ascii_upper(lowered(s)),
{
    let t = lowered(s);
    let inner = s.subrange(1, s.len() - 1);
    let tinner = t.subrange(1, t.len() - 1);
    assert(tinner =~= lowered(inner));
    let (at, dot) = choose|at: int, dot: int|
        {
            &&& 0 < at
            &&& at + 1 < dot
            &&& dot + 3 <= inner.len()
            &&& inner[at] == '@'
            &&& inner[dot] == '.'
            &&& forall|i: int| 0 <= i < at ==> is_local_part_char(#[trigger] inner[i])
            &&& forall|i: int| at < i < dot ==> is_domain_char(#[trigger] inner[i])
            &&& forall|i: int| dot < i < inner.len() ==> is_ascii_letter(#[trigger] inner[i])
        };
    lemma_lower_char(inner[at]);
    lemma_lower_char(inner[dot]);
    lemma_lower_char(s[0]);
    lemma_lower_char(s[s.len() - 1]);
    assert forall|i: int| 0 <= i < at implies is_local_part_char(#[trigger] tinner[i]) by {
        lemma_lower_char(inner[i]);
    }
    assert forall|i: int| at < i < dot implies is_domain_char(#[trigger] tinner[i]) by {
        lemma_lower_char(inner[i]);
    }
    assert forall|i: int| dot < i < tinner.len() implies is_ascii_letter(#[trigger] tinner[i]) by {
        lemma_lower_char(inner[i]);
    }
    assert(tinner.len() == inner.len());
    assert(tinner[at] == '@');
    assert(tinner[dot] == '.');
    assert(is_address(tinner));
    assert forall|i: int| 0 <= i < t.len() implies !('A' as u32 <= #[trigger] t[i] as u32
        <= 'Z' as u32) by {
        lemma_lower_char(s[i]);
    }
}


/// Every recipient is a valid address in angle brackets, written without upper case.
pub open spec fn valid_recipients(to: Seq<Seq<char>>) -> bool {
    forall|i: int|
        0 <= i < to.len() ==> is_bracketed_address(#[trigger] to[i]) && has_no_ascii_upper(
            to[i],
        )
}

/// The sender and every recipient of `m` matches the address pattern.
pub open spec fn valid_mail(m: MailView) -> bool {
    is_bracketed_address(m.from) && valid_recipients(m.to)
}

/// What every session state satisfies: collected addresses are valid, a mail whose body is
/// being received or has been received has a recipient, and a received body fits the limit.
pub open spec fn session_well_formed(st: SessionState) -> bool {
    match st {
        SessionState::Fresh => true,
        SessionState::Greeted => true,
        SessionState::ReceivingRcpt(m) => valid_mail(m),
        SessionState::ReceivingData(m) => valid_mail(m) && m.to.len() > 0,
        SessionState::Received(m) => valid_mail(m) && m.to.len() > 0 && byte_len(m.data)
            <= MAX_MSG_SIZE,
    }
}

/// Every message keeps a session well formed: no sequence of messages leads to a state in
/// which an invalid address was kept, a body is received without a recipient, or a
/// received body is larger than `MAX_MSG_SIZE` bytes.
pub proof fn step_keeps_session_well_formed(st: SessionState, msg: Seq<char>)
    requires
        session_well_formed(st),
    ensures
        session_well_formed(session_step(st, msg).0),
{
    if nth_word(msg, 0) is Some && !(command_is(msg, "ehlo"@) && st is Fresh) && !(command_is(
        msg,
        "helo"@,
    ) && st is Fresh) && !(command_is(msg, "noop"@) || command_is(msg, "help"@)) && !command_is(
        msg,
        "rset"@,
    ) && !(command_is(msg, "mail"@) && st is Greeted) && command_is(msg, "rcpt"@)
        && st is ReceivingRcpt {
        let m = st->ReceivingRcpt_0;
        if let Some(w) = nth_word(msg, 1) {
            let to = address_after(w, "TO:"@);
            if is_bracketed_address(to) {
                lemma_lowered_address(to);
                let to2 = m.to.push(lowered(to));
                assert(to.map_values(|c: char| ascii_lower(c)) == lowered(to));
                assert forall|i: int| 0 <= i < to2.len() implies is_bracketed_address(
                    #[trigger] to2[i],
                ) && has_no_ascii_upper(to2[i]) by {
                    if i < m.to.len() {
                        assert(to2[i] == m.to[i]);
                    }
                }
            }
        }
    }
}


/// A message names at most one command.
proof fn lemma_one_command(msg: Seq<char>, w1: Seq<char>, w2: Seq<char>)
    requires
        command_is(msg, w1),
        command_is(msg, w2),
    ensures
        w1 == w2,
{
    let c = nth_word(msg, 0)->Some_0;
    assert forall|i: int| 0 <= i < w1.len() implies w1[i] == w2[i] by {
        assert(ascii_lower(c[i]) == w1[i]);
    }
    assert(w1 =~= w2);
}

proof fn lemma_command_words_differ()
    ensures
        "rset"@ != "ehlo"@,
        "rset"@ != "helo"@,
        "rset"@ != "noop"@,
        "rset"@ != "help"@,
        "quit"@ != "ehlo"@,
        "quit"@ != "helo"@,
        "quit"@ != "noop"@,
        "quit"@ != "help"@,
        "quit"@ != "rset"@,
        "quit"@ != "mail"@,
        "quit"@ != "rcpt"@,
        "quit"@ != "data"@,
        "helo"@ != "ehlo"@,
        "noop"@ != "ehlo"@,
        "noop"@ != "helo"@,
        "help"@ != "ehlo"@,
        "help"@ != "helo"@,
{
    reveal_strlit("rset");
    reveal_strlit("ehlo");
    reveal_strlit("helo");
    reveal_strlit("noop");
    reveal_strlit("help");
    reveal_strlit("quit");
    reveal_strlit("mail");
    reveal_strlit("rcpt");
    reveal_strlit("data");
    assert("rset"@[0] != "ehlo"@[0]);
    assert("rset"@[0] != "helo"@[0]);
    assert("rset"@[0] != "noop"@[0]);
    assert("rset"@[0] != "help"@[0]);
    assert("quit"@[0] != "ehlo"@[0]);
    assert("quit"@[0] != "helo"@[0]);
    assert("quit"@[0] != "noop"@[0]);
    assert("quit"@[0] != "help"@[0]);
    assert("quit"@[0] != "rset"@[0]);
    assert("quit"@[0] != "mail"@[0]);
    assert("quit"@[0] != "rcpt"@[0]);
    assert("quit"@[0] != "data"@[0]);
    assert("helo"@[0] != "ehlo"@[0]);
    assert("noop"@[0] != "ehlo"@[0]);
    assert("noop"@[0] != "helo"@[0]);
    assert("help"@[0] != "ehlo"@[0]);
    assert("help"@[3] != "helo"@[3]);
}

/// Before `HELO` or `EHLO`, every command other than `HELO`, `EHLO`, `NOOP`, `HELP`, `RSET`
/// and `QUIT` is refused with an error, and the session stays fresh.
pub proof fn refused_before_greeting(msg: Seq<char>)
    requires
        nth_word(msg, 0) is Some,
        !command_is(msg, "ehlo"@),
        !command_is(msg, "helo"@),
        !command_is(msg, "noop"@),
        !command_is(msg, "help"@),
        !command_is(msg, "rset"@),
        !command_is(msg, "quit"@),
    ensures
        session_step(SessionState::Fresh, msg) == (
            SessionState::Fresh,
            Err::<Reply, SmtpError>(SmtpError::NotGreeted),
        ),
{
}

/// A greeting moves a fresh session to the greeted state.
pub proof fn greeting_opens_session(msg: Seq<char>)
    requires
        command_is(msg, "ehlo"@) || command_is(msg, "helo"@),
    ensures
        session_step(SessionState::Fresh, msg).0 == SessionState::Greeted,
        session_step(SessionState::Fresh, msg).1 == if command_is(msg, "ehlo"@) {
            Ok::<Reply, SmtpError>(Reply::EhloHello)
        } else {
            Ok::<Reply, SmtpError>(Reply::HeloHello)
        },
{
}

/// `RSET` answers `250 OK` and starts the session over, whatever state it was in.
pub proof fn reset_from_any_state(st: SessionState, msg: Seq<char>)
    requires
        command_is(msg, "rset"@),
    ensures
        session_step(st, msg) == (SessionState::Fresh, Ok::<Reply, SmtpError>(Reply::Accepted)),
{
    lemma_command_words_differ();
    if command_is(msg, "ehlo"@) {
        lemma_one_command(msg, "rset"@, "ehlo"@);
    }
    if command_is(msg, "helo"@) {
        lemma_one_command(msg, "rset"@, "helo"@);
    }
    if command_is(msg, "noop"@) {
        lemma_one_command(msg, "rset"@, "noop"@);
    }
    if command_is(msg, "help"@) {
        lemma_one_command(msg, "rset"@, "help"@);
    }
}

/// `QUIT` answers `221 Bye` in every state, also in the middle of a mail body, and keeps
/// the state, so that a mail received, or still being received, is there to be stored.
pub proof fn quit_from_any_state(st: SessionState, msg: Seq<char>)
    requires
        command_is(msg, "quit"@),
    ensures
        session_step(st, msg) == (st, Ok::<Reply, SmtpError>(Reply::Bye)),
{
    lemma_command_words_differ();
    if command_is(msg, "ehlo"@) {
        lemma_one_command(msg, "quit"@, "ehlo"@);
    }
    if command_is(msg, "helo"@) {
        lemma_one_command(msg, "quit"@, "helo"@);
    }
    if command_is(msg, "noop"@) {
        lemma_one_command(msg, "quit"@, "noop"@);
    }
    if command_is(msg, "help"@) {
        lemma_one_command(msg, "quit"@, "help"@);
    }
    if command_is(msg, "rset"@) {
        lemma_one_command(msg, "quit"@, "rset"@);
    }
    if command_is(msg, "mail"@) {
        lemma_one_command(msg, "quit"@, "mail"@);
    }
    if command_is(msg, "rcpt"@) {
        lemma_one_command(msg, "quit"@, "rcpt"@);
    }
    if command_is(msg, "data"@) {
        lemma_one_command(msg, "quit"@, "data"@);
    }
}

/// `NOOP` and `HELP` answer `250 OK` and change nothing.
pub proof fn noop_changes_nothing(st: SessionState, msg: Seq<char>)
    requires
        command_is(msg, "noop"@) || command_is(msg, "help"@),
    ensures
        session_step(st, msg) == (st, Ok::<Reply, SmtpError>(Reply::Accepted)),
{
    lemma_command_words_differ();
    if command_is(msg, "ehlo"@) {
        if command_is(msg, "noop"@) {
            lemma_one_command(msg, "noop"@, "ehlo"@);
        } else {
            lemma_one_command(msg, "help"@, "ehlo"@);
        }
    }
    if command_is(msg, "helo"@) {
        if command_is(msg, "noop"@) {
            lemma_one_command(msg, "noop"@, "helo"@);
        } else {
            lemma_one_command(msg, "help"@, "helo"@);
        }
    }
}

/// A reply in the 500 range (an unrecognized command, an address that does not match the
/// pattern, or `DATA` without a recipient) leaves the session in the state it was in.
pub proof fn rejection_keeps_state(st: SessionState, msg: Seq<char>)
    requires
        session_step(st, msg).1 == Ok::<Reply, SmtpError>(Reply::Unrecognized)
            || session_step(st, msg).1 == Ok::<Reply, SmtpError>(Reply::InvalidSender)
            || session_step(st, msg).1 == Ok::<Reply, SmtpError>(Reply::InvalidRecipient)
            || session_step(st, msg).1 == Ok::<Reply, SmtpError>(Reply::NoRecipient),
    ensures
        session_step(st, msg).0 == st,
{
}

/// A message without any word is refused and changes nothing.
pub proof fn empty_message_changes_nothing(st: SessionState, msg: Seq<char>)
    requires
        nth_word(msg, 0) is None,
    ensures
        session_step(st, msg) == (st, Err::<Reply, SmtpError>(SmtpError::EmptyCommand)),
{
}

/// Every other refusal ends the mail transaction: the session is fresh again.
pub proof fn refusal_resets_session(st: SessionState, msg: Seq<char>)
    requires
        session_step(st, msg).1 is Err,
        session_step(st, msg).1 != Err::<Reply, SmtpError>(SmtpError::EmptyCommand),
    ensures
        session_step(st, msg).0 == SessionState::Fresh,
{
}

/// While a body is being received, a message that is not one of the commands `NOOP`,
/// `HELP`, `RSET` or `QUIT` is body text: without the end marker it is appended as it is,
/// and with it the body, stripped of the end markers, is complete (or refused when it
/// grows past `MAX_MSG_SIZE` bytes).
pub proof fn body_accumulates(m: MailView, msg: Seq<char>)
    requires
        nth_word(msg, 0) is Some,
        !command_is(msg, "noop"@),
        !command_is(msg, "help"@),
        !command_is(msg, "rset"@),
        !command_is(msg, "quit"@),
    ensures
        !has_suffix(msg, data_end()) ==> session_step(SessionState::ReceivingData(m), msg) == (
            SessionState::ReceivingData(MailView { data: m.data + msg, ..m }),
            Ok::<Reply, SmtpError>(Reply::Continue),
        ),
        has_suffix(msg, data_end()) && byte_len(m.data + strip_suffixes(msg, data_end()))
            <= MAX_MSG_SIZE ==> session_step(SessionState::ReceivingData(m), msg) == (
            SessionState::Received(
                MailView { data: m.data + strip_suffixes(msg, data_end()), ..m },
            ),
            Ok::<Reply, SmtpError>(Reply::Accepted),
        ),
        has_suffix(msg, data_end()) && byte_len(m.data + strip_suffixes(msg, data_end()))
            > MAX_MSG_SIZE ==> session_step(SessionState::ReceivingData(m), msg) == (
            SessionState::Fresh,
            Ok::<Reply, SmtpError>(Reply::TooLarge),
        ),
{
}

/// A mail reaches its body only from the recipient stage, with at least one recipient,
/// and unchanged.
pub proof fn body_needs_recipient(st: SessionState, msg: Seq<char>)
    requires
        session_step(st, msg).0 is ReceivingData,
        !(st is ReceivingData),
    ensures
        st is ReceivingRcpt,
        st->ReceivingRcpt_0.to.len() > 0,
        session_step(st, msg).0 == SessionState::ReceivingData(st->ReceivingRcpt_0),
{
}

/// A mail transaction starts only from the greeted state, with a sender that matches the
/// address pattern, no recipient and an empty body.
pub proof fn transaction_starts_with_valid_sender(st: SessionState, msg: Seq<char>)
    requires
        session_step(st, msg).0 is ReceivingRcpt,
        !(st is ReceivingRcpt),
    ensures
        st is Greeted,
        is_bracketed_address(session_step(st, msg).0->ReceivingRcpt_0.from),
        session_step(st, msg).0->ReceivingRcpt_0.to.len() == 0,
        session_step(st, msg).0->ReceivingRcpt_0.data.len() == 0,
{
}

/// Within a transaction, the sender and the body stay as they are and each message adds
/// at most one recipient, which matches the address pattern and is kept in lower case.
pub proof fn recipients_only_grow(m: MailView, msg: Seq<char>)
    requires
        session_step(SessionState::ReceivingRcpt(m), msg).0 is ReceivingRcpt,
    ensures
        ({
            let m2 = session_step(SessionState::ReceivingRcpt(m), msg).0->ReceivingRcpt_0;
            &&& m2.from == m.from
            &&& m2.data == m.data
            &&& m2.to == m.to || (m2.to.len() == m.to.len() + 1 && m2.to.subrange(
                0,
                m.to.len() as int,
            ) == m.to && is_bracketed_address(m2.to[m.to.len() as int])
                && has_no_ascii_upper(m2.to[m.to.len() as int]))
        }),
{
    let st = SessionState::ReceivingRcpt(m);
    let m2 = session_step(st, msg).0->ReceivingRcpt_0;
    if m2.to != m.to {
        let w = nth_word(msg, 1)->Some_0;
        let to = address_after(w, "TO:"@);
        lemma_lowered_address(to);
        assert(to.map_values(|c: char| ascii_lower(c)) == lowered(to));
        assert(m2.to.subrange(0, m.to.len() as int) =~= m.to);
    }
}


proof fn lemma_session_run_len(st: SessionState, msgs: Seq<Seq<char>>)
    ensures
        session_run(st, msgs).1.len() == msgs.len(),
    decreases msgs.len(),
{
    if msgs.len() > 0 {
        lemma_session_run_len(session_step(st, msgs[0]).0, msgs.drop_first());
    }
}

/// A connection that reads messages none of which is refused or answered `221 Bye`
/// writes, after its greeting, exactly the reply to each message in order: the turns of
/// `serve_step` compose to the run of the session over all the messages.
pub proof fn connection_writes_every_reply(st: SessionState, msgs: Seq<Seq<char>>)
    requires
        forall|i: int|
            0 <= i < msgs.len() ==> (#[trigger] session_run(st, msgs).1[i]) is Ok && session_run(
                st,
                msgs,
            ).1[i] != Ok::<Reply, SmtpError>(Reply::Bye),
    ensures
        connection_writes(st, msgs) == reply_bytes(session_run(st, msgs).1),
    decreases msgs.len(),
{
    if msgs.len() > 0 {
        let (st1, r) = session_step(st, msgs[0]);
        let rest = msgs.drop_first();
        let rs = session_run(st, msgs).1;
        let tail = session_run(st1, rest).1;
        lemma_session_run_len(st1, rest);
        assert(rs == seq![r] + tail);
        assert(rs[0] == r);
        assert forall|i: int| 0 <= i < rest.len() implies (#[trigger] session_run(
            st1,
            rest,
        ).1[i]) is Ok && session_run(st1, rest).1[i] != Ok::<Reply, SmtpError>(Reply::Bye) by {
            assert((seq![r] + tail)[i + 1] == tail[i]);
        }
        connection_writes_every_reply(st1, rest);
        assert(rs.drop_first() =~= session_run(st1, rest).1);
    }
}


proof fn lemma_address_has_no_white_space(a: Seq<char>)
    requires
        is_address(a),
    ensures
        forall|k: int| 0 <= k < a.len() ==> !is_white_space(#[trigger] a[k]),
{
    let (at, dot) = choose|at: int, dot: int|
        {
            &&& 0 < at
            &&& at + 1 < dot
            &&& dot + 3 <= a.len()
            &&& a[at] == '@'
            &&& a[dot] == '.'
            &&& forall|i: int| 0 <= i < at ==> is_local_part_char(#[trigger] a[i])
            &&& forall|i: int| at < i < dot ==> is_domain_char(#[trigger] a[i])
            &&& forall|i: int| dot < i < a.len() ==> is_ascii_letter(#[trigger] a[i])
        };
    assert forall|k: int| 0 <= k < a.len() implies !is_white_space(#[trigger] a[k]) by {
        if k < at {
            assert(is_local_part_char(a[k]));
        } else if k == at {
        } else if k < dot {
            assert(is_domain_char(a[k]));
        } else if k == dot {
        } else {
            assert(is_ascii_letter(a[k]));
        }
    }
}

/// `a` in angle brackets.
pub open spec fn bracketed(a: Seq<char>) -> Seq<char> {
    "<"@ + a + ">"@
}

proof fn lemma_bracketed(a: Seq<char>)
    requires
        is_address(a),
    ensures
        is_bracketed_address(bracketed(a)),
{
    reveal_strlit("<");
    reveal_strlit(">");
    let b = bracketed(a);
    assert(b.subrange(1, b.len() - 1) =~= a);
}

proof fn lemma_mail_message(sender: Seq<char>)
    requires
        is_address(sender),
    ensures
        ({
            let msg = "MAIL FROM:<"@ + sender + ">\r\n"@;
            &&& command_is(msg, "mail"@)
            &&& !command_is(msg, "noop"@)
            &&& !command_is(msg, "help"@)
            &&& !command_is(msg, "rset"@)
            &&& nth_word(msg, 1) matches Some(w) && has_prefix(w, "FROM:"@) && address_after(
                w,
                "FROM:"@,
            ) == bracketed(sender)
        }),
{
    reveal_strlit("MAIL FROM:<");
    reveal_strlit(">\r\n");
    reveal_strlit("mail");
    reveal_strlit("noop");
    reveal_strlit("help");
    reveal_strlit("rset");
    reveal_strlit("FROM:");
    reveal_strlit("<");
    reveal_strlit(">");
    lemma_address_has_no_white_space(sender);
    let msg = "MAIL FROM:<"@ + sender + ">\r\n"@;
    let n = sender.len() as int;
    assert forall|k: int| 0 <= k < 4 implies !is_white_space(#[trigger] msg[k]) by {}
    lemma_word_at(msg, 0, 0, 4);
    assert(word_span(msg, 0) == (0int, 4int));
    assert forall|k: int| 5 <= k < 12 + n implies !is_white_space(#[trigger] msg[k]) by {
        if 11 <= k < 11 + n {
            assert(msg[k] == sender[k - 11]);
        }
    }
    lemma_word_at(msg, 4, 5, 12 + n);
    assert(word_span(msg, 1) == (5int, 12 + n));
    let w0 = msg.subrange(0, 4);
    let w = msg.subrange(5, 12 + n);
    assert(w.subrange(0, 5) =~= "FROM:"@);
    assert(w.subrange(5, w.len() as int) =~= bracketed(sender));
    assert(w0[0] == 'M');
}


proof fn lemma_rcpt_message(recipient: Seq<char>)
    requires
        is_address(recipient),
    ensures
        ({
            let msg = "RCPT TO:<"@ + recipient + ">\r\n"@;
            &&& command_is(msg, "rcpt"@)
            &&& !command_is(msg, "noop"@)
            &&& !command_is(msg, "help"@)
            &&& !command_is(msg, "rset"@)
            &&& nth_word(msg, 1) matches Some(w) && has_prefix(w, "TO:"@) && address_after(
                w,
                "TO:"@,
            ) == bracketed(recipient)
        }),
{
    reveal_strlit("RCPT TO:<");
    reveal_strlit(">\r\n");
    reveal_strlit("rcpt");
    reveal_strlit("noop");
    reveal_strlit("help");
    reveal_strlit("rset");
    reveal_strlit("TO:");
    reveal_strlit("<");
    reveal_strlit(">");
    lemma_address_has_no_white_space(recipient);
    let msg = "RCPT TO:<"@ + recipient + ">\r\n"@;
    let n = recipient.len() as int;
    assert forall|k: int| 0 <= k < 4 implies !is_white_space(#[trigger] msg[k]) by {}
    lemma_word_at(msg, 0, 0, 4);
    assert(word_span(msg, 0) == (0int, 4int));
    assert forall|k: int| 5 <= k < 10 + n implies !is_white_space(#[trigger] msg[k]) by {
        if 9 <= k < 9 + n {
            assert(msg[k] == recipient[k - 9]);
        }
    }
    lemma_word_at(msg, 4, 5, 10 + n);
    assert(word_span(msg, 1) == (5int, 10 + n));
    let w0 = msg.subrange(0, 4);
    let w = msg.subrange(5, 10 + n);
    assert(w.subrange(0, 3) =~= "TO:"@);
    assert(w.subrange(3, w.len() as int) =~= bracketed(recipient));
    assert(w0[0] == 'R');
    assert(w0[1] == 'C');
}

proof fn lemma_short_commands()
    ensures
        command_is("EHLO localhost\r\n"@, "ehlo"@),
        command_is("DATA\r\n"@, "data"@),
        !command_is("DATA\r\n"@, "noop"@),
        !command_is("DATA\r\n"@, "help"@),
        !command_is("DATA\r\n"@, "rset"@),
        !command_is("DATA\r\n"@, "rcpt"@),
        command_is("QUIT\r\n"@, "quit"@),
{
    reveal_strlit("EHLO localhost\r\n");
    reveal_strlit("DATA\r\n");
    reveal_strlit("QUIT\r\n");
    reveal_strlit("ehlo");
    reveal_strlit("data");
    reveal_strlit("noop");
    reveal_strlit("help");
    reveal_strlit("rset");
    reveal_strlit("rcpt");
    reveal_strlit("quit");
    let m1 = "EHLO localhost\r\n"@;
    assert forall|k: int| 0 <= k < 4 implies !is_white_space(#[trigger] m1[k]) by {}
    lemma_word_at(m1, 0, 0, 4);
    let m4 = "DATA\r\n"@;
    assert forall|k: int| 0 <= k < 4 implies !is_white_space(#[trigger] m4[k]) by {}
    lemma_word_at(m4, 0, 0, 4);
    assert(m4.subrange(0, 4)[0] == 'D');
    let m6 = "QUIT\r\n"@;
    assert forall|k: int| 0 <= k < 4 implies !is_white_space(#[trigger] m6[k]) by {}
    lemma_word_at(m6, 0, 0, 4);
}


/// The body a session keeps for a mail submitted with `subject` and `body`.
pub open spec fn submitted_text(subject: Seq<char>, body: Seq<char>) -> Seq<char> {
    "Subject: "@ + subject + "\r\n\r\n"@ + body
}

proof fn lemma_content_message(subject: Seq<char>, body: Seq<char>)
    requires
        forall|k: int| 0 <= k < body.len() ==> body[k] != '\n',
    ensures
        ({
            let msg = "Subject: "@ + subject + "\r\n\r\n"@ + body + "\r\n.\r\n"@;
            &&& nth_word(msg, 0) is Some
            &&& !command_is(msg, "noop"@)
            &&& !command_is(msg, "help"@)
            &&& !command_is(msg, "rset"@)
            &&& !command_is(msg, "quit"@)
            &&& has_suffix(msg, data_end())
            &&& strip_suffixes(msg, data_end()) == submitted_text(subject, body)
        }),
{
    reveal_strlit("Subject: ");
    reveal_strlit("\r\n\r\n");
    reveal_strlit("\r\n.\r\n");
    reveal_strlit("noop");
    reveal_strlit("help");
    reveal_strlit("rset");
    reveal_strlit("quit");
    let msg = "Subject: "@ + subject + "\r\n\r\n"@ + body + "\r\n.\r\n"@;
    let t = data_end();
    assert forall|k: int| 0 <= k < 8 implies !is_white_space(#[trigger] msg[k]) by {}
    lemma_word_at(msg, 0, 0, 8);
    assert(nth_word(msg, 0) == Some(msg.subrange(0, 8)));
    let n = msg.len() as int;
    assert(msg.subrange(n - 5, n) =~= t);
    let b = submitted_text(subject, body);
    assert(msg.subrange(0, n - 5) =~= b);
    assert(!has_suffix(b, t)) by {
        let m = b.len() as int;
        if body.len() > 0 {
            assert(b[m - 1] == body[body.len() - 1]);
            assert(b.subrange(m - 5, m)[4] == b[m - 1]);
        } else {
            assert(b[m - 3] == '\n');
            assert(b.subrange(m - 5, m)[2] == b[m - 3]);
        }
    }
    assert(strip_suffixes(b, t) == b);
}


/// The messages that `submission` builds for a mail with valid sender and recipient
/// addresses and a body without line feeds, small enough for the limit, drive a fresh
/// session through `250`, `250`, `250`, `354`, `250` and `221`, and leave it holding the mail
/// received: the sender and the recipient in angle brackets (the recipient in lower case),
/// and the subject header with the body.
pub proof fn submission_is_accepted(e: EmailView)
    requires
        is_address(e.sender),
        is_address(e.recipient),
        forall|k: int| 0 <= k < e.body.len() ==> e.body[k] != '\n',
        byte_len(submitted_text(e.subject, e.body)) <= MAX_MSG_SIZE,
    ensures
        session_run(SessionState::Fresh, submission_messages(e)) == (
            SessionState::Received(
                MailView {
                    from: bracketed(e.sender),
                    to: seq![lowered(bracketed(e.recipient))],
                    data: submitted_text(e.subject, e.body),
                },
            ),
            seq![
                Ok::<Reply, SmtpError>(Reply::EhloHello),
                Ok::<Reply, SmtpError>(Reply::Accepted),
                Ok::<Reply, SmtpError>(Reply::Accepted),
                Ok::<Reply, SmtpError>(Reply::StartMailInput),
                Ok::<Reply, SmtpError>(Reply::Accepted),
                Ok::<Reply, SmtpError>(Reply::Bye),
            ],
        ),
{
    let msgs = submission_messages(e);
    lemma_short_commands();
    lemma_mail_message(e.sender);
    lemma_rcpt_message(e.recipient);
    lemma_content_message(e.subject, e.body);
    lemma_bracketed(e.sender);
    lemma_bracketed(e.recipient);

    let s1 = SessionState::Greeted;
    assert(session_step(SessionState::Fresh, msgs[0]) == (s1, Ok::<Reply, SmtpError>(
        Reply::EhloHello,
    )));

    let m2 = MailView { from: bracketed(e.sender), to: Seq::empty(), data: Seq::empty() };
    let s2 = SessionState::ReceivingRcpt(m2);
    assert(session_step(s1, msgs[1]) == (s2, Ok::<Reply, SmtpError>(Reply::Accepted)));

    let to = bracketed(e.recipient);
    assert(to.map_values(|c: char| ascii_lower(c)) == lowered(to));
    let m3 = MailView { to: m2.to.push(lowered(to)), ..m2 };
    let s3 = SessionState::ReceivingRcpt(m3);
    assert(session_step(s2, msgs[2]) == (s3, Ok::<Reply, SmtpError>(Reply::Accepted)));

    let s4 = SessionState::ReceivingData(m3);
    assert(session_step(s3, msgs[3]) == (s4, Ok::<Reply, SmtpError>(Reply::StartMailInput)));

    let text = submitted_text(e.subject, e.body);
    assert(m3.data + text =~= text);
    let m5 = MailView { data: text, ..m3 };
    let s5 = SessionState::Received(m5);
    assert(session_step(s4, msgs[4]) == (s5, Ok::<Reply, SmtpError>(Reply::Accepted)));

    quit_from_any_state(s5, msgs[5]);
    assert(session_step(s5, msgs[5]) == (s5, Ok::<Reply, SmtpError>(Reply::Bye)));

    assert(m3.to =~= seq![lowered(to)]);
    reveal_with_fuel(session_run, 7);
    assert(msgs.drop_first()[0] == msgs[1]);
    assert(msgs.drop_first().drop_first()[0] == msgs[2]);
    assert(msgs.drop_first().drop_first().drop_first()[0] == msgs[3]);
    assert(msgs.drop_first().drop_first().drop_first().drop_first()[0] == msgs[4]);
    assert(msgs.drop_first().drop_first().drop_first().drop_first().drop_first()[0] == msgs[5]);
    assert(msgs.drop_first().drop_first().drop_first().drop_first().drop_first().drop_first().len()
        == 0);
    assert(session_run(SessionState::Fresh, msgs).1 =~= seq![
        Ok::<Reply, SmtpError>(Reply::EhloHello),
        Ok::<Reply, SmtpError>(Reply::Accepted),
        Ok::<Reply, SmtpError>(Reply::Accepted),
        Ok::<Reply, SmtpError>(Reply::StartMailInput),
        Ok::<Reply, SmtpError>(Reply::Accepted),
        Ok::<Reply, SmtpError>(Reply::Bye),
    ]);
}


/// From a well-formed state, any sequence of messages leaves the session well formed.
pub proof fn session_run_keeps_well_formed(st: SessionState, msgs: Seq<Seq<char>>)
    requires
        session_well_formed(st),
    ensures
        session_well_formed(session_run(st, msgs).0),
    decreases msgs.len(),
{
    if msgs.len() > 0 {
        step_keeps_session_well_formed(st, msgs[0]);
        session_run_keeps_well_formed(session_step(st, msgs[0]).0, msgs.drop_first());
    }
}

/// Whatever a client sends to a fresh session, the session stays well formed: kept
/// addresses are valid, a body has a recipient, and a received body fits the limit.
pub proof fn every_session_well_formed(msgs: Seq<Seq<char>>)
    ensures
        session_well_formed(session_run(SessionState::Fresh, msgs).0),
{
    session_run_keeps_well_formed(SessionState::Fresh, msgs);
}


proof fn lemma_rcpt_data_words_differ()
    ensures
        "rcpt"@ != "noop"@,
        "rcpt"@ != "help"@,
        "rcpt"@ != "rset"@,
        "data"@ != "noop"@,
        "data"@ != "help"@,
        "data"@ != "rset"@,
        "data"@ != "rcpt"@,
{
    reveal_strlit("rcpt");
    reveal_strlit("data");
    reveal_strlit("noop");
    reveal_strlit("help");
    reveal_strlit("rset");
    assert("rcpt"@[0] != "noop"@[0]);
    assert("rcpt"@[0] != "help"@[0]);
    assert("rcpt"@[1] != "rset"@[1]);
    assert("data"@[0] != "noop"@[0]);
    assert("data"@[0] != "help"@[0]);
    assert("data"@[0] != "rset"@[0]);
    assert("data"@[0] != "rcpt"@[0]);
}

proof fn lemma_not_noop_help_rset(msg: Seq<char>, w: Seq<char>)
    requires
        command_is(msg, w),
        w == "rcpt"@ || w == "data"@,
    ensures
        !command_is(msg, "noop"@),
        !command_is(msg, "help"@),
        !command_is(msg, "rset"@),
        w == "data"@ ==> !command_is(msg, "rcpt"@),
{
    lemma_rcpt_data_words_differ();
    if command_is(msg, "noop"@) {
        lemma_one_command(msg, w, "noop"@);
    }
    if command_is(msg, "help"@) {
        lemma_one_command(msg, w, "help"@);
    }
    if command_is(msg, "rset"@) {
        lemma_one_command(msg, w, "rset"@);
    }
    if w == "data"@ && command_is(msg, "rcpt"@) {
        lemma_one_command(msg, w, "rcpt"@);
    }
}

/// Every `RCPT TO:<address>` whose address matches the pattern is kept, whatever the number
/// of recipients before it: the answer is `250 OK` and the address, in lower case, is
/// appended to the recipients; sender and body stay.
pub proof fn accepted_recipient_is_kept(m: MailView, msg: Seq<char>)
    requires
        command_is(msg, "rcpt"@),
        nth_word(msg, 1) is Some,
        has_prefix(nth_word(msg, 1)->Some_0, "TO:"@),
        is_bracketed_address(address_after(nth_word(msg, 1)->Some_0, "TO:"@)),
    ensures
        session_step(SessionState::ReceivingRcpt(m), msg) == (
            SessionState::ReceivingRcpt(
                MailView {
                    to: m.to.push(lowered(address_after(nth_word(msg, 1)->Some_0, "TO:"@))),
                    ..m
                },
            ),
            Ok::<Reply, SmtpError>(Reply::Accepted),
        ),
{
    lemma_not_noop_help_rset(msg, "rcpt"@);
    let a = address_after(nth_word(msg, 1)->Some_0, "TO:"@);
    assert(a.map_values(|c: char| ascii_lower(c)) == lowered(a));
}

/// An `RCPT` answered `250 OK` adds exactly one recipient to those there were.
pub proof fn accepted_rcpt_adds_one_recipient(m: MailView, msg: Seq<char>)
    requires
        command_is(msg, "rcpt"@),
        session_step(SessionState::ReceivingRcpt(m), msg).1 == Ok::<Reply, SmtpError>(
            Reply::Accepted,
        ),
    ensures
        session_step(SessionState::ReceivingRcpt(m), msg).0 is ReceivingRcpt,
        session_step(SessionState::ReceivingRcpt(m), msg).0->ReceivingRcpt_0.to.len() == m.to.len()
            + 1,
        session_step(SessionState::ReceivingRcpt(m), msg).0->ReceivingRcpt_0.to.subrange(
            0,
            m.to.len() as int,
        ) == m.to,
{
    lemma_not_noop_help_rset(msg, "rcpt"@);
    let m2 = session_step(SessionState::ReceivingRcpt(m), msg).0->ReceivingRcpt_0;
    assert(m2.to.subrange(0, m.to.len() as int) =~= m.to);
}

/// `DATA` starts the body whenever the mail has a recipient, however many, and keeps the
/// mail as it is; it is answered `503` exactly when there is none, and the mail stays.
pub proof fn data_starts_body_with_any_recipient(m: MailView, msg: Seq<char>)
    requires
        command_is(msg, "data"@),
    ensures
        m.to.len() > 0 ==> session_step(SessionState::ReceivingRcpt(m), msg) == (
            SessionState::ReceivingData(m),
            Ok::<Reply, SmtpError>(Reply::StartMailInput),
        ),
        m.to.len() == 0 ==> session_step(SessionState::ReceivingRcpt(m), msg) == (
            SessionState::ReceivingRcpt(m),
            Ok::<Reply, SmtpError>(Reply::NoRecipient),
        ),
{
    lemma_not_noop_help_rset(msg, "data"@);
}

/// For every mail, the content message carries the whole subject and the whole body, line
/// breaks included, between the `Subject: ` header and the end marker; and the sender and
/// the recipient messages carry the whole addresses.
pub proof fn submission_carries_whole_mail(e: EmailView)
    ensures
        ({
            let msgs = submission_messages(e);
            let c = msgs[4];
            let s = e.subject.len() as int;
            let b = e.body.len() as int;
            &&& msgs.len() == 6
            &&& c.len() == 9 + s + 4 + b + 5
            &&& c.subrange(0, 9) == "Subject: "@
            &&& c.subrange(9, 9 + s) == e.subject
            &&& c.subrange(9 + s, 13 + s) == "\r\n\r\n"@
            &&& c.subrange(13 + s, 13 + s + b) == e.body
            &&& c.subrange(13 + s + b, c.len() as int) == "\r\n.\r\n"@
            &&& msgs[1].subrange(11, 11 + e.sender.len() as int) == e.sender
            &&& msgs[2].subrange(9, 9 + e.recipient.len() as int) == e.recipient
        }),
{
    reveal_strlit("Subject: ");
    reveal_strlit("\r\n\r\n");
    reveal_strlit("\r\n.\r\n");
    reveal_strlit("MAIL FROM:<");
    reveal_strlit("RCPT TO:<");
    let msgs = submission_messages(e);
    let c = msgs[4];
    let s = e.subject.len() as int;
    let b = e.body.len() as int;
    assert(c.subrange(0, 9) =~= "Subject: "@);
    assert(c.subrange(9, 9 + s) =~= e.subject);
    assert(c.subrange(9 + s, 13 + s) =~= "\r\n\r\n"@);
    assert(c.subrange(13 + s, 13 + s + b) =~= e.body);
    assert(c.subrange(13 + s + b, c.len() as int) =~= "\r\n.\r\n"@);
    assert(msgs[1].subrange(11, 11 + e.sender.len() as int) =~= e.sender);
    assert(msgs[2].subrange(9, 9 + e.recipient.len() as int) =~= e.recipient);
}

} // verus!
