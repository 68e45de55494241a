use server::client::submission;
use server::client::Email;
use server::message::extract_body;
use server::message::extract_subject;
use server::smtp::Phase;
use server::smtp::StateMachine;

#[test]
fn subject_from_first_subject_line() {
    assert_eq!(extract_subject("From: a\r\nSubject:  Hello there \r\n\r\nbody"), "Hello there");
    assert_eq!(extract_subject("SUBJECT:x\nSubject: y"), "x");
    assert_eq!(extract_subject("subject:"), "");
    assert_eq!(extract_subject("To: b\n\nno header here"), "No Subject");
    assert_eq!(extract_subject(""), "No Subject");
    assert_eq!(extract_subject("X-Subject: no\r\nsUbJeCt: yes\r"), "yes");
    assert_eq!(extract_subject("Subject: héllo wörld\n"), "héllo wörld");
}

#[test]
fn body_after_header() {
    assert_eq!(extract_body("Subject: s\r\n\r\n  the body \r\n"), "the body");
    assert_eq!(extract_body("no blank line"), "No Body Found");
    assert_eq!(extract_body("Subject: s\r\n\r\n"), "");
}

#[test]
fn body_of_multipart() {
    let data = "Subject: s\r\nContent-Type: multipart\r\n\r\n--===abc\r\nContent-Type: text/plain\r\n\r\nplain part\r\n--===abc\r\nother\r\n--===abc--";
    assert_eq!(extract_body(data), "plain part");
    assert_eq!(extract_body("--===x\r\nno blank"), "");
    assert_eq!(extract_body("--===x\r\n\r\n rest without end "), "rest without end");
}

#[test]
fn submission_messages() {
    let email = Email {
        sender: "ketua@kelompoksatu.com".to_string(),
        recipient: "a@b.cc".to_string(),
        subject: "Hi".to_string(),
        body: "Hello".to_string(),
    };
    assert_eq!(
        submission(&email),
        vec![
            "EHLO localhost\r\n".to_string(),
            "MAIL FROM:<ketua@kelompoksatu.com>\r\n".to_string(),
            "RCPT TO:<a@b.cc>\r\n".to_string(),
            "DATA\r\n".to_string(),
            "Subject: Hi\r\n\r\nHello\r\n.\r\n".to_string(),
            "QUIT\r\n".to_string(),
        ]
    );
}

#[test]
fn submission_is_accepted_by_a_session() {
    let email = Email {
        sender: "ketua@kelompoksatu.com".to_string(),
        recipient: "Someone@Example.ORG".to_string(),
        subject: "Hi there".to_string(),
        body: "Hello".to_string(),
    };
    let mut sm = StateMachine::new("d");
    let mut replies = Vec::new();
    for msg in submission(&email) {
        replies.push(sm.handle_smtp(&msg).unwrap().to_vec());
    }
    let codes: Vec<&[u8]> = replies.iter().map(|r| &r[..3]).collect();
    assert_eq!(codes, vec![&b"250"[..], b"250", b"250", b"354", b"250", b"221"]);
    assert_eq!(sm.phase(), Phase::Received);
    let mail = sm.pending_mail().unwrap();
    assert_eq!(mail.from, "<ketua@kelompoksatu.com>");
    assert_eq!(mail.to, vec!["<someone@example.org>".to_string()]);
    assert_eq!(mail.data, "Subject: Hi there\r\n\r\nHello");
}
