use server::smtp::greeting;
use server::smtp::Mail;
use server::smtp::Phase;
use server::smtp::Reply;
use server::smtp::SmtpError;
use server::smtp::StateMachine;
use server::smtp::MAX_MSG_SIZE;

#[test]
fn test_regular_flow() {
    let mut sm = StateMachine::new("dummy");
    sm.handle_smtp("HELO localhost").unwrap();
    sm.handle_smtp("MAIL FROM: <local@example.com>").unwrap();
    sm.handle_smtp("RCPT TO: <a@localhost.com>").unwrap();
    sm.handle_smtp("RCPT TO: <b@localhost.com>").unwrap();
    sm.handle_smtp("DATA hello world\n").unwrap();
    sm.handle_smtp("QUIT").unwrap();
}

#[test]
fn test_no_greeting() {
    let mut sm = StateMachine::new("dummy");
    for command in [
        "MAIL FROM: <local@example.com>",
        "RCPT TO: <local@example.com>",
        "DATA hey",
        "GARBAGE",
    ] {
        assert!(sm.handle_smtp(command).is_err());
    }
}

#[test]
fn smtp_test_no_greeting() {
    let re_email = regex::Regex::new(r"^<([a-zA-Z0-9._%+-]+@[a-zA-Z0-9.-]+\.[a-zA-Z]{2,})>$").unwrap();
    let email = "<ketua@kelompoksatu.com>";
    println!("Valid email: {}", re_email.is_match(email));
    let mut sm = StateMachine::new("dummy");
    sm.handle_smtp("HELO x").unwrap();
    assert_eq!(sm.handle_smtp("MAIL FROM:<ketua@kelompoksatu.com>").unwrap(), b"250 OK\r\n");
}

#[test]
fn new_builds_ehlo_greeting_and_starts_fresh() {
    let sm = StateMachine::new("kelompok1.com");
    assert_eq!(sm.ehlo_greeting(), "250-kelompok1.com Hello kelompok1.com\n250 AUTH PLAIN LOGIN\n");
    assert_eq!(sm.phase(), Phase::Fresh);
    assert!(sm.pending_mail().is_none());
}

#[test]
fn greeting_replies() {
    let mut sm = StateMachine::new("d");
    assert_eq!(
        sm.handle_smtp("EHLO client.example").unwrap(),
        b"250-Hello\r\n250-SIZE 10485760\r\n250 AUTH\r\n"
    );
    assert_eq!(sm.phase(), Phase::Greeted);
    let mut sm = StateMachine::new("d");
    assert_eq!(sm.handle_smtp("hElO client").unwrap(), b"250 Hello\r\n");
    assert_eq!(sm.phase(), Phase::Greeted);
    // a second greeting is not expected any more, and changes nothing
    assert_eq!(sm.handle_smtp("HELO again").unwrap(), b"500 Syntax error, command unrecognized\r\n");
    assert_eq!(sm.phase(), Phase::Greeted);
}

#[test]
fn greeting_line_of_the_server() {
    assert_eq!(greeting(), b"220 kelompok1\n");
}

#[test]
fn empty_message_is_refused_and_changes_nothing() {
    let mut sm = StateMachine::new("d");
    sm.handle_smtp("HELO x").unwrap();
    assert_eq!(sm.handle_smtp(" \t\r\n"), Err(SmtpError::EmptyCommand));
    assert_eq!(sm.handle_smtp(""), Err(SmtpError::EmptyCommand));
    assert_eq!(sm.phase(), Phase::Greeted);
    assert_eq!(sm.handle_smtp("MAIL FROM:<a@b.cc>").unwrap(), b"250 OK\r\n");
}

#[test]
fn commands_before_greeting_are_errors() {
    for cmd in ["MAIL FROM:<a@b.cc>", "RCPT TO:<a@b.cc>", "DATA", "hello", "VRFY x"] {
        let mut sm = StateMachine::new("d");
        assert_eq!(sm.handle_smtp(cmd), Err(SmtpError::NotGreeted));
        assert_eq!(sm.phase(), Phase::Fresh);
    }
    let mut sm = StateMachine::new("d");
    assert_eq!(sm.handle_smtp("NOOP").unwrap(), b"250 OK\r\n");
    assert_eq!(sm.handle_smtp("help me").unwrap(), b"250 OK\r\n");
    assert_eq!(sm.handle_smtp("RSET").unwrap(), b"250 OK\r\n");
    assert_eq!(sm.handle_smtp("QUIT").unwrap(), b"221 Bye\r\n");
}

#[test]
fn mail_from_forms() {
    let mut sm = StateMachine::new("d");
    sm.handle_smtp("HELO x").unwrap();
    assert_eq!(sm.handle_smtp("MAIL"), Err(SmtpError::EmptyMail));
    assert_eq!(sm.phase(), Phase::Fresh);

    sm.handle_smtp("HELO x").unwrap();
    assert_eq!(sm.handle_smtp("MAIL TO:<a@b.cc>"), Err(SmtpError::IncorrectMail));
    assert_eq!(sm.phase(), Phase::Fresh);

    sm.handle_smtp("HELO x").unwrap();
    assert_eq!(sm.handle_smtp("MAIL from:<a@b.cc>"), Err(SmtpError::IncorrectMail));

    sm.handle_smtp("HELO x").unwrap();
    assert_eq!(
        sm.handle_smtp("MAIL FROM:<not-an-address>").unwrap(),
        b"501 Syntax: Invalid email address\r\n"
    );
    assert_eq!(sm.phase(), Phase::Greeted);
    assert_eq!(
        sm.handle_smtp("MAIL FROM:").unwrap(),
        b"501 Syntax: Invalid email address\r\n"
    );
    assert_eq!(sm.phase(), Phase::Greeted);
    // the address must follow FROM: in the same word
    assert_eq!(
        sm.handle_smtp("MAIL FROM: <a@b.cc>").unwrap(),
        b"501 Syntax: Invalid email address\r\n"
    );
    assert_eq!(sm.phase(), Phase::Greeted);

    assert_eq!(sm.handle_smtp("mail FROM:<Some.One@Example.COM> SIZE=10").unwrap(), b"250 OK\r\n");
    assert_eq!(sm.phase(), Phase::ReceivingRcpt);
}

#[test]
fn address_check_follows_the_pattern() {
    let cases = [
        ("<a@b.cc>", true),
        ("<ketua@kelompoksatu.com>", true),
        ("<a.b%c+d-e_f@x-y.z.org>", true),
        ("<a@b.c>", false),
        ("<@b.cc>", false),
        ("<a@.cc>", false),
        ("<a@b.c1>", false),
        ("a@b.cc", false),
        ("<a@b.cc>x", false),
        ("<a@@b.cc>", false),
        ("<a@bcc>", false),
        ("<a b@c.dd>", false),
    ];
    for (addr, ok) in cases {
        let mut sm = StateMachine::new("d");
        sm.handle_smtp("HELO x").unwrap();
        let msg = format!("MAIL FROM:{}", addr);
        let r = sm.handle_smtp(&msg).unwrap();
        if ok {
            assert_eq!(r, b"250 OK\r\n", "{}", addr);
        } else if addr.contains(' ') {
            // the address is cut at the blank
            assert_eq!(r, b"501 Syntax: Invalid email address\r\n");
        } else {
            assert_eq!(r, b"501 Syntax: Invalid email address\r\n", "{}", addr);
        }
    }
}

fn session_with_recipients() -> StateMachine {
    let mut sm = StateMachine::new("d");
    sm.handle_smtp("EHLO x").unwrap();
    sm.handle_smtp("MAIL FROM:<Sender@Example.com>").unwrap();
    assert_eq!(sm.handle_smtp("RCPT TO:<First@Example.COM>").unwrap(), b"250 OK\r\n");
    assert_eq!(sm.handle_smtp("RCPT TO:<second@example.org>").unwrap(), b"250 OK\r\n");
    sm
}

#[test]
fn recipients_are_kept_in_lower_case() {
    let mut sm = session_with_recipients();
    assert_eq!(
        sm.handle_smtp("DATA").unwrap(),
        b"354 Start mail input; end with <CR><LF>.<CR><LF>\r\n"
    );
    let mail: &Mail = sm.pending_mail().unwrap();
    assert_eq!(mail.from, "<Sender@Example.com>");
    assert_eq!(mail.to, vec!["<first@example.com>".to_string(), "<second@example.org>".to_string()]);
    assert_eq!(mail.data, "");
}

#[test]
fn rcpt_errors_end_the_transaction_and_invalid_addresses_do_not() {
    let mut sm = session_with_recipients();
    assert_eq!(sm.handle_smtp("RCPT"), Err(SmtpError::EmptyRcpt));
    assert_eq!(sm.phase(), Phase::Fresh);
    let mut sm = session_with_recipients();
    assert_eq!(sm.handle_smtp("RCPT FROM:<a@b.cc>"), Err(SmtpError::IncorrectRcpt));
    let mut sm = session_with_recipients();
    assert_eq!(
        sm.handle_smtp("RCPT TO:<nobody>").unwrap(),
        b"501 Syntax: Invalid recipient address\r\n"
    );
    assert_eq!(sm.phase(), Phase::ReceivingRcpt);
    assert_eq!(
        sm.handle_smtp("RCPT TO: <third@example.org>").unwrap(),
        b"501 Syntax: Invalid recipient address\r\n"
    );
    sm.handle_smtp("DATA").unwrap();
    assert_eq!(sm.pending_mail().unwrap().to.len(), 2);
}

#[test]
fn data_needs_a_recipient() {
    let mut sm = StateMachine::new("d");
    sm.handle_smtp("HELO x").unwrap();
    sm.handle_smtp("MAIL FROM:<a@b.cc>").unwrap();
    assert_eq!(
        sm.handle_smtp("DATA").unwrap(),
        b"503 Error: RCPT TO command must precede DATA\r\n"
    );
    assert_eq!(sm.phase(), Phase::ReceivingRcpt);
    sm.handle_smtp("RCPT TO:<c@d.ee>").unwrap();
    assert_eq!(
        sm.handle_smtp("DATA").unwrap(),
        b"354 Start mail input; end with <CR><LF>.<CR><LF>\r\n"
    );
}

#[test]
fn body_accumulates_until_the_end_marker() {
    let mut sm = session_with_recipients();
    sm.handle_smtp("DATA").unwrap();
    assert_eq!(sm.handle_smtp("Subject: hi\r\n").unwrap(), b"250 Continue\r\n");
    assert_eq!(sm.phase(), Phase::ReceivingData);
    assert_eq!(sm.handle_smtp("\r\nline one\r\n").unwrap(), b"250 Continue\r\n");
    assert_eq!(sm.pending_mail().unwrap().data, "Subject: hi\r\n\r\nline one\r\n");
    assert_eq!(sm.handle_smtp("last\r\n.\r\n\r\n.\r\n").unwrap(), b"250 OK\r\n");
    assert_eq!(sm.phase(), Phase::Received);
    assert_eq!(sm.pending_mail().unwrap().data, "Subject: hi\r\n\r\nline one\r\nlast");
    // a received mail expects no more body text, and stays
    assert_eq!(sm.handle_smtp("more").unwrap(), b"500 Syntax error, command unrecognized\r\n");
    assert_eq!(sm.pending_mail().unwrap().data, "Subject: hi\r\n\r\nline one\r\nlast");
}

#[test]
fn body_over_the_limit_is_refused() {
    let mut sm = session_with_recipients();
    sm.handle_smtp("DATA").unwrap();
    let big = "x".repeat(MAX_MSG_SIZE);
    assert_eq!(sm.handle_smtp(&big).unwrap(), b"250 Continue\r\n");
    assert_eq!(
        sm.handle_smtp("y\r\n.\r\n").unwrap(),
        b"552 Error: Message size exceeds maximum size\r\n"
    );
    assert_eq!(sm.phase(), Phase::Fresh);

    let mut sm = session_with_recipients();
    sm.handle_smtp("DATA").unwrap();
    let exact = "x".repeat(MAX_MSG_SIZE);
    sm.handle_smtp(&exact).unwrap();
    assert_eq!(sm.handle_smtp("\r\n.\r\n").unwrap(), b"250 OK\r\n");
    assert_eq!(sm.pending_mail().unwrap().data.len(), MAX_MSG_SIZE);
}

#[test]
fn commands_inside_a_body() {
    let mut sm = session_with_recipients();
    sm.handle_smtp("DATA").unwrap();
    sm.handle_smtp("partial").unwrap();
    assert_eq!(sm.handle_smtp("QUIT now").unwrap(), b"221 Bye\r\n");
    assert_eq!(sm.phase(), Phase::ReceivingData);
    assert_eq!(sm.pending_mail().unwrap().data, "partial");

    let mut sm = session_with_recipients();
    sm.handle_smtp("DATA").unwrap();
    assert_eq!(sm.handle_smtp("rset").unwrap(), b"250 OK\r\n");
    assert_eq!(sm.phase(), Phase::Fresh);

    let mut sm = session_with_recipients();
    sm.handle_smtp("DATA").unwrap();
    assert_eq!(sm.handle_smtp("mail is text here").unwrap(), b"250 Continue\r\n");
    assert_eq!(sm.pending_mail().unwrap().data, "mail is text here");
}

#[test]
fn reset_from_every_state() {
    let mut sm = session_with_recipients();
    assert_eq!(sm.handle_smtp("RSET").unwrap(), b"250 OK\r\n");
    assert_eq!(sm.phase(), Phase::Fresh);
    let mut sm = StateMachine::new("d");
    sm.handle_smtp("HELO x").unwrap();
    assert_eq!(sm.handle_smtp("RsEt").unwrap(), b"250 OK\r\n");
    assert_eq!(sm.phase(), Phase::Fresh);
}

#[test]
fn noop_and_help_change_nothing() {
    let mut sm = session_with_recipients();
    assert_eq!(sm.handle_smtp("NOOP").unwrap(), b"250 OK\r\n");
    assert_eq!(sm.phase(), Phase::ReceivingRcpt);
    assert_eq!(sm.handle_smtp("help").unwrap(), b"250 OK\r\n");
    sm.handle_smtp("DATA").unwrap();
    assert_eq!(sm.pending_mail().unwrap().to.len(), 2);
    let mut sm = StateMachine::new("d");
    sm.handle_smtp("HELO x").unwrap();
    sm.handle_smtp("NOOP").unwrap();
    assert_eq!(sm.phase(), Phase::Greeted);
}

#[test]
fn unrecognized_after_greeting() {
    let mut sm = StateMachine::new("d");
    sm.handle_smtp("HELO x").unwrap();
    assert_eq!(sm.handle_smtp("VRFY x").unwrap(), b"500 Syntax error, command unrecognized\r\n");
    assert_eq!(sm.phase(), Phase::Greeted);
}

#[test]
fn respond_gives_the_reply_kind() {
    let mut sm = StateMachine::new("d");
    assert_eq!(sm.respond("HELO x"), Ok(Reply::HeloHello));
    assert_eq!(Reply::HeloHello.as_bytes(), b"250 Hello\r\n");
    assert_eq!(Reply::Bye.as_str(), "221 Bye\r\n");
    assert_eq!(SmtpError::EmptyCommand.message(), "received empty command");
}

#[test]
fn legal_recipients() {
    assert!(StateMachine::legal_recipient("<someone@example.com>"));
    assert!(!StateMachine::legal_recipient("<admin@example.com>"));
    assert!(!StateMachine::legal_recipient("<x@postmaster.org>"));
    assert!(!StateMachine::legal_recipient("hostmaster"));
    assert!(StateMachine::legal_recipient("adm"));
    assert!(StateMachine::legal_recipient(""));
}

#[test]
fn serve_step_turns() {
    let mut sm = StateMachine::new("d");
    let a = sm.serve_step(Some("HELO x")).unwrap();
    assert_eq!(a.write, Some(&b"250 Hello\r\n"[..]));
    assert!(!a.stop);
    let a = sm.serve_step(Some("NOOP")).unwrap();
    assert_eq!(a.write, Some(&b"250 OK\r\n"[..]));
    assert!(!a.stop);
    let a = sm.serve_step(Some("QUIT")).unwrap();
    assert_eq!(a.write, Some(&b"221 Bye\r\n"[..]));
    assert!(a.stop);
    assert_eq!(sm.phase(), Phase::Greeted);
    let a = sm.serve_step(None).unwrap();
    assert_eq!(a.write, None);
    assert!(a.stop);
    assert_eq!(sm.phase(), Phase::Greeted);
    let mut sm = StateMachine::new("d");
    assert!(sm.serve_step(Some("GARBAGE")).is_err());
}

#[test]
fn pending_mail_after_close_in_body() {
    let mut sm = session_with_recipients();
    sm.handle_smtp("DATA").unwrap();
    sm.serve_step(Some("partial body")).unwrap();
    assert_eq!(sm.pending_mail().unwrap().data, "partial body");
    sm.serve_step(None).unwrap();
    assert_eq!(sm.pending_mail().unwrap().data, "partial body");
}

#[test]
fn mail_default_is_empty() {
    let m = Mail::default();
    assert_eq!(m.from, "");
    assert!(m.to.is_empty());
    assert_eq!(m.data, "");
}

#[test]
fn received_mail_survives_quit() {
    let mut sm = session_with_recipients();
    sm.handle_smtp("DATA").unwrap();
    sm.handle_smtp("hello\r\n.\r\n").unwrap();
    let a = sm.serve_step(Some("QUIT\r\n")).unwrap();
    assert!(a.stop);
    let mail = sm.pending_mail().unwrap();
    assert_eq!(mail.data, "hello");
    assert_eq!(mail.from, "<Sender@Example.com>");
}

#[test]
fn connection_writes_greeting_then_each_reply() {
    let mut sm = StateMachine::new("d");
    let mut out: Vec<u8> = greeting().to_vec();
    for msg in ["HELO x", "NOOP", "VRFY y", "QUIT", "NOOP"] {
        let a = sm.serve_step(Some(msg)).unwrap();
        if let Some(b) = a.write {
            out.extend_from_slice(b);
        }
        if a.stop {
            break;
        }
    }
    assert_eq!(
        out,
        b"220 kelompok1\n250 Hello\r\n250 OK\r\n500 Syntax error, command unrecognized\r\n221 Bye\r\n".to_vec()
    );
}
