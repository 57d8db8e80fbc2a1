use kakimail::database::DBClient;
use kakimail::smtp_common::{Mail, SMTPState, SMTPStateMachine, SmtpError};
use kakimail::utils::seperate_login;

fn text(r: Result<Vec<u8>, SmtpError>) -> String {
    String::from_utf8(r.unwrap()).unwrap()
}

#[test]
fn a_session_receives_mail() {
    let mut m = SMTPStateMachine::new("kaki.foo", false);
    assert_eq!(m.state, SMTPState::Fresh);
    assert_eq!(
        m.ehlo_greeting,
        "250-kaki.foo Hello kaki.foo\r\n250-AUTH PLAIN LOGIN\r\n250 STARTTLS\r\n"
    );
    assert_eq!(text(m.handle_smtp_incoming("HELO there\r\n")), "250 Ok\r\n");
    assert_eq!(m.state, SMTPState::Greeted);
    assert_eq!(
        text(m.handle_smtp_incoming("EHLO there\r\n")),
        "250-kaki.foo Hello kaki.foo\r\n250-AUTH PLAIN LOGIN\r\n250 STARTTLS\r\n"
    );
    assert_eq!(
        text(m.handle_smtp_incoming("STARTTLS\r\n")),
        "220 Ready to start TLS\r\n"
    );
    assert_eq!(text(m.handle_smtp_incoming("noop\r\n")), "250 Ok\r\n");
    assert_eq!(
        text(m.handle_smtp_incoming("MAIL FROM:<a@x.org>\r\n")),
        "250 Ok\r\n"
    );
    assert_eq!(
        text(m.handle_smtp_incoming("RCPT TO:<Bob@Y.org>\r\n")),
        "250 Ok\r\n"
    );
    assert_eq!(
        text(m.handle_smtp_incoming("RCPT TO:<postmaster@y.org>\r\n")),
        "250 Ok\r\n"
    );
    assert_eq!(
        text(m.handle_smtp_incoming("RCPT TO:<ÄNN@y.org>\r\n")),
        "250 Ok\r\n"
    );
    assert_eq!(
        text(m.handle_smtp_incoming("DATA\r\n")),
        "354 End data with <CR><LF>.<CR><LF>\r\n"
    );
    assert_eq!(text(m.handle_smtp_incoming("Subject: hi\r\n")), "");
    assert_eq!(
        text(m.handle_smtp_incoming("helo is data here\r\n\r\n.\r\n")),
        "250 Ok\r\n"
    );
    assert_eq!(text(m.handle_smtp_incoming("QUIT\r\n")), "221 Bye\r\n");
    assert_eq!(
        m.state,
        SMTPState::Received(
            Mail {
                from: "<a@x.org>".to_string(),
                to: vec!["<bob@y.org>".to_string(), "<änn@y.org>".to_string()],
                data: "Subject: hi\r\nhelo is data here\r\n\r\n.\r\n".to_string(),
            },
            None
        )
    );
}

#[test]
fn lines_out_of_place() {
    let mut m = SMTPStateMachine::new("d", false);
    assert_eq!(m.handle_smtp_incoming("\r\n"), Err(SmtpError::EmptyCommand));
    assert_eq!(m.handle_smtp_incoming("RCPT TO:<a>\r\n"), Err(SmtpError::Unexpected));
    assert_eq!(m.handle_smtp_incoming("DATA\r\n"), Err(SmtpError::Unexpected));
    assert_eq!(m.handle_smtp_incoming("MAIL\r\n"), Err(SmtpError::EmptyMail));
    assert_eq!(m.handle_smtp_incoming("MAIL a\r\n"), Err(SmtpError::IncorrectMail));
    assert_eq!(m.state, SMTPState::Fresh);
    assert_eq!(text(m.handle_smtp_incoming("quit\r\n")), "221 Bye\r\n");
    assert_eq!(text(m.handle_smtp_incoming("helo a\r\n")), "250 Ok\r\n");
    assert_eq!(m.handle_smtp_incoming("helo a\r\n"), Err(SmtpError::Unexpected));
    assert_eq!(text(m.handle_smtp_incoming("MAIL FROM:x\r\n")), "250 Ok\r\n");
    assert_eq!(m.handle_smtp_incoming("RCPT\r\n"), Err(SmtpError::EmptyRcpt));
    assert_eq!(m.handle_smtp_incoming("RCPT x\r\n"), Err(SmtpError::IncorrectRcpt));
    assert_eq!(m.handle_smtp_incoming("other\r\n"), Err(SmtpError::Unexpected));
    assert_eq!(text(m.handle_smtp_incoming("quit\r\n")), "221 Bye\r\n");
    assert!(matches!(m.state, SMTPState::ReceivingRcpt(_, None)));
    assert_eq!(text(m.handle_smtp_incoming("RSET\r\n")), "250 Ok\r\n");
    assert_eq!(m.state, SMTPState::Fresh);
}

#[test]
fn recipients() {
    assert!(SMTPStateMachine::legal_recipient("<bob@y.org>"));
    assert!(!SMTPStateMachine::legal_recipient("<admin@y.org>"));
    assert!(!SMTPStateMachine::legal_recipient("<xadministrator@y.org>"));
    assert!(!SMTPStateMachine::legal_recipient("<postmaster@y.org>"));
    assert!(!SMTPStateMachine::legal_recipient("<hostmaster@y.org>"));
    assert!(SMTPStateMachine::legal_recipient(""));
}

#[test]
fn submission_needs_a_login() {
    let mut db = DBClient::new();
    let hash = bcrypt::hash("pw", 4).unwrap();
    db.add_user("alice", &hash).unwrap();
    let mut m = SMTPStateMachine::new("d", true);
    assert_eq!(
        text(m.handle_smtp_outgoing("MAIL FROM:<a>\r\n", &db)),
        "530 Need authentication\r\n"
    );
    assert_eq!(m.state, SMTPState::Fresh);
    assert_eq!(m.handle_smtp_outgoing("AUTH\r\n", &db), Err(SmtpError::EmptyAuth));
    assert_eq!(
        text(m.handle_smtp_outgoing("AUTH LOGIN x\r\n", &db)),
        "535 Authentication error\r\n"
    );
    assert_eq!(m.state, SMTPState::Greeted);
    assert_eq!(m.handle_smtp_outgoing("AUTH PLAIN\r\n", &db), Err(SmtpError::EmptyAuth));
    assert_eq!(
        text(m.handle_smtp_outgoing("AUTH PLAIN !!\r\n", &db)),
        "535 Authentication error\r\n"
    );
    assert_eq!(
        m.handle_smtp_outgoing("AUTH PLAIN YWxpY2U=\r\n", &db),
        Err(SmtpError::IncorrectAuth)
    );
    assert_eq!(
        text(m.handle_smtp_outgoing("AUTH PLAIN AGFsaWNlAG5vcGU=\r\n", &db)),
        "535 Authentication error\r\n"
    );
    assert_eq!(
        text(m.handle_smtp_outgoing("auth plain AGFsaWNlAHB3\r\n", &db)),
        "235 Ok\r\n"
    );
    assert_eq!(m.state, SMTPState::Authed(1));
    assert_eq!(
        text(m.handle_smtp_outgoing("MAIL FROM:<a>\r\n", &db)),
        "250 Ok\r\n"
    );
    assert!(matches!(m.state, SMTPState::ReceivingRcpt(_, Some(1))));
    assert_eq!(
        text(m.finish_auth(None, &db)),
        "535 Authentication error\r\n"
    );
    assert_eq!(text(m.finish_auth(Some(b"\0alice\0pw".to_vec()), &db)), "235 Ok\r\n");
}

#[test]
fn login_payloads() {
    assert_eq!(
        seperate_login(b"\0alice\0pw".to_vec()),
        Some(("alice".to_string(), "pw".to_string()))
    );
    assert_eq!(
        seperate_login(b"\0alice\0pw\0more".to_vec()),
        Some(("alice".to_string(), "pw".to_string()))
    );
    assert_eq!(
        seperate_login(b"\0\0".to_vec()),
        Some(("".to_string(), "".to_string()))
    );
    assert_eq!(
        seperate_login("\0änn\0pä".as_bytes().to_vec()),
        Some(("änn".to_string(), "pä".to_string()))
    );
    assert_eq!(seperate_login(b"alice\0pw".to_vec()), None);
    assert_eq!(seperate_login(b"\0alice".to_vec()), None);
    assert_eq!(seperate_login(b"".to_vec()), None);
    assert_eq!(seperate_login(vec![0, 0xff, 0, b'p']), None);
    assert_eq!(seperate_login(vec![0, b'u', 0, 0xc3]), None);
}
