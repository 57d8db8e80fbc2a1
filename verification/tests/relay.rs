use kakimail::smtp_common::Mail;
use kakimail::smtp_outgoing::{
    gen_commands, preferred, relay_target, reply_action, RelayTarget, ReplyAction,
};

fn mail(data: &str) -> Mail {
    Mail {
        from: "alice@kaki.foo".to_string(),
        to: vec!["bob@x.org".to_string(), "carol@y.net".to_string()],
        data: data.to_string(),
    }
}

#[test]
fn commands_hand_a_message_over() {
    assert_eq!(
        gen_commands(&mail("Subject: hi\r\n\r\nhello"), "smtp.kaki.foo"),
        vec![
            "ehlo smtp.kaki.foo\r\n",
            "mail FROM:<alice@kaki.foo>\r\n",
            "rcpt TO:<bob@x.org>\r\n",
            "rcpt TO:<carol@y.net>\r\n",
            "data\r\n",
            "Subject: hi\r\n\r\nhello\r\n.\r\n",
        ]
    );
}

#[test]
fn a_closed_text_is_sent_as_it_is() {
    let got = gen_commands(&mail("hello\r\n.\r\n"), "d");
    assert_eq!(got.len(), 6);
    assert_eq!(got[0], "ehlo d\r\n");
    assert_eq!(got[5], "hello\r\n.\r\n");
    let got = gen_commands(&mail("hello\r\n."), "d");
    assert_eq!(got[5], "hello\r\n.\r\n.\r\n");
    let got = gen_commands(&mail(""), "d");
    assert_eq!(got[5], "\r\n.\r\n");
}

#[test]
fn commands_without_recipients() {
    let m = Mail {
        from: String::new(),
        to: vec![],
        data: "x".to_string(),
    };
    assert_eq!(
        gen_commands(&m, ""),
        vec!["ehlo \r\n", "mail FROM:<>\r\n", "data\r\n", "x\r\n.\r\n"]
    );
}

#[test]
fn replies_are_classed_by_their_first_digit() {
    assert_eq!(reply_action(b"250 Ok\r\n"), Some(ReplyAction::Proceed));
    assert_eq!(reply_action(b"220"), Some(ReplyAction::Proceed));
    assert_eq!(
        reply_action(b"354 End data with <CR><LF>.<CR><LF>\r\n"),
        Some(ReplyAction::Proceed)
    );
    assert_eq!(reply_action(b"451 try later\r\n"), Some(ReplyAction::Retry));
    assert_eq!(reply_action(b"550 no such user\r\n"), Some(ReplyAction::Quit));
    assert_eq!(reply_action(b"150 what\r\n"), Some(ReplyAction::Unknown));
    assert_eq!(reply_action(b"hello\r\n"), Some(ReplyAction::Unknown));
    assert_eq!(reply_action(b"25"), None);
    assert_eq!(reply_action(b""), None);
}

#[test]
fn the_domain_of_a_recipient() {
    assert_eq!(
        relay_target("<bob@x.org>"),
        RelayTarget::Domain("x.org".to_string())
    );
    assert_eq!(
        relay_target("bob@x@y>"),
        RelayTarget::Domain("x@y".to_string())
    );
    assert_eq!(relay_target("bob@>"), RelayTarget::Domain(String::new()));
    assert_eq!(relay_target("bob@x.org"), RelayTarget::Malformed);
    assert_eq!(relay_target("<bob@x.org> "), RelayTarget::Malformed);
    assert_eq!(relay_target("bob@"), RelayTarget::Malformed);
    assert_eq!(relay_target("<bob>"), RelayTarget::Nowhere);
    assert_eq!(relay_target(""), RelayTarget::Nowhere);
}

#[test]
fn the_lowest_preference_number_wins() {
    assert_eq!(preferred(&vec![]), None);
    assert_eq!(preferred(&vec![10]), Some(0));
    assert_eq!(preferred(&vec![20, 10, 30]), Some(1));
    assert_eq!(preferred(&vec![20, 10, 30, 10]), Some(1));
    assert_eq!(preferred(&vec![5, 5, 5]), Some(0));
    assert_eq!(preferred(&vec![65535, 0]), Some(1));
}
