# server

An SMTP server for a small mail forwarding system, with its session logic verified.

- `src/smtp.rs`: the SMTP session (`StateMachine`): the state and reply for every
  message, stated by `session_step`, and the decisions of a connection (`serve_step`,
  `pending_mail`).
- `src/properties.rs`: what holds of every session, as proof functions.
- `src/message.rs`: subject and body of a received mail.
- `src/store.rs`: the JSON store of received mails (a record appended per mail).
- `src/client.rs`: the messages a client sends to submit a mail.
- `src/text.rs`: the character-level helpers (words, trimming, searching).
- `app/`: the server, the forwarder and the interactive client (network, files).
