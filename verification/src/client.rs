//! The side of a client that hands a mail to an SMTP server.
use vstd::prelude::*;
use vstd::string::StringExecFns;

verus! {

/// A mail as a client submits it.
pub struct Email {
    pub sender: String,
    pub recipient: String,
    pub subject: String,
    pub body: String,
}

/// The contents of an [`Email`].
pub struct EmailView {
    pub sender: Seq<char>,
    pub recipient: Seq<char>,
    pub subject: Seq<char>,
    pub body: Seq<char>,
}

impl View for Email {
    type V = EmailView;

    open spec fn view(&self) -> EmailView {
        EmailView {
            sender: self.sender@,
            recipient: self.recipient@,
            subject: self.subject@,
            body: self.body@,
        }
    }
}

/// The messages a client sends, in order, to deliver `e`: the greeting, the sender, the
/// recipient, the request to send data, the subject header with the body and the end
/// marker, and the farewell.
pub open spec fn submission_messages(e: EmailView) -> Seq<Seq<char>> {
    seq![
        "EHLO localhost\r\n"@,
        "MAIL FROM:<"@ + e.sender + ">\r\n"@,
        "RCPT TO:<"@ + e.recipient + ">\r\n"@,
        "DATA\r\n"@,
        "Subject: "@ + e.subject + "\r\n\r\n"@ + e.body + "\r\n.\r\n"@,
        "QUIT\r\n"@,
    ]
}

/// The texts of `v`.
pub open spec fn texts(v: Seq<String>) -> Seq<Seq<char>> {
    v.map_values(|s: String| s@)
}

/// The messages to send to an SMTP server to deliver `email`.
pub fn submission(email: &Email) -> (msgs: Vec<String>)
    ensures
        texts(msgs@) == submission_messages(email@),
{
    let mut msgs: Vec<String> = Vec::new();
    msgs.push(String::from_str("EHLO localhost\r\n"));
    let mut from = String::from_str("MAIL FROM:<");
    from.append(email.sender.as_str());
    from.append(">\r\n");
    msgs.push(from);
    let mut to = String::from_str("RCPT TO:<");
    to.append(email.recipient.as_str());
    to.append(">\r\n");
    msgs.push(to);
    msgs.push(String::from_str("DATA\r\n"));
    let mut content = String::from_str("Subject: ");
    content.append(email.subject.as_str());
    content.append("\r\n\r\n");
    content.append(email.body.as_str());
    content.append("\r\n.\r\n");
    msgs.push(content);
    msgs.push(String::from_str("QUIT\r\n"));
    assert(texts(msgs@) =~= submission_messages(email@));
    msgs
}

} // verus!
