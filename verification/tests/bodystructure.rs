use kakimail::imap_op::bodystructure::{
    body_to_string, bodystructure_to_string, build_bodystructure, disposition_to_string,
    language_to_string, message_parts, option_to_string, params_to_string, parse_bodystructure,
    parse_content_disposition, parse_content_language, BasicPart, BodyStructure, MailPart,
    MessagePart, MultipartPart, TextPart,
};
use kakimail::imap_op::fetch::envelope_to_string;

#[test]
fn test_simple_text_email() {
    let raw_email = r#"From: sender@example.com
To: recipient@example.com
Subject: Test Email
Content-Type: text/plain; charset="utf-8"
Content-Disposition: inline
Content-Language: en
Content-Location: https://example.com/test.txt

This is a test email."#;

    let structure = parse_bodystructure(raw_email.as_bytes()).unwrap();

    let body_result = body_to_string(&structure);
    assert_eq!(
        body_result,
        r#"("TEXT" "plain" ("charset" "utf-8") NIL NIL "utf-8" 21 1)"#
    );

    let bodystructure_result = bodystructure_to_string(&structure, true);
    assert_eq!(
        bodystructure_result,
        r#"("TEXT" "plain" ("charset" "utf-8") NIL NIL "utf-8" 21 1 NIL (inline NIL) "en" "https://example.com/test.txt")"#
    );
}

fn text_part(subtype: &str, size: usize, lines: usize) -> TextPart {
    TextPart {
        subtype: subtype.to_string(),
        parameters: vec![],
        id: None,
        description: None,
        encoding: "7BIT".to_string(),
        size,
        lines,
        md5: None,
        disposition: None,
        language: None,
        location: None,
    }
}

#[test]
fn small_pieces_of_text() {
    assert_eq!(params_to_string(&vec![]), "NIL");
    assert_eq!(
        params_to_string(&vec![("a".to_string(), "b".to_string())]),
        r#"("a" "b")"#
    );
    assert_eq!(
        params_to_string(&vec![
            ("a".to_string(), "b".to_string()),
            ("c".to_string(), "d".to_string())
        ]),
        r#"("a" "b" "c" "d")"#
    );
    assert_eq!(option_to_string(&None), "NIL");
    assert_eq!(option_to_string(&Some("x".to_string())), r#""x""#);
    assert_eq!(disposition_to_string(&None), "NIL");
    assert_eq!(
        disposition_to_string(&Some(("inline".to_string(), vec![]))),
        "(inline NIL)"
    );
    assert_eq!(
        disposition_to_string(&Some((
            "attachment".to_string(),
            vec![("filename".to_string(), "a.bin".to_string())]
        ))),
        r#"(attachment ("filename" "a.bin"))"#
    );
    assert_eq!(language_to_string(&None), "NIL");
    assert_eq!(language_to_string(&Some(vec!["en".to_string()])), r#""en""#);
    assert_eq!(
        language_to_string(&Some(vec!["en".to_string(), "de".to_string()])),
        r#"("en" "de")"#
    );
    assert_eq!(language_to_string(&Some(vec![])), "()");
}

#[test]
fn structures_as_text() {
    let mut full = text_part("html", 61, 2);
    full.parameters = vec![("charset".to_string(), "utf-8".to_string())];
    full.id = Some("<id>".to_string());
    full.description = Some("d".to_string());
    full.md5 = Some("m".to_string());
    full.location = Some("l".to_string());
    let full = BodyStructure::Text(full);
    assert_eq!(
        body_to_string(&full),
        r#"("TEXT" "html" ("charset" "utf-8") "<id>" "d" "7BIT" 61 2)"#
    );
    assert_eq!(
        bodystructure_to_string(&full, true),
        r#"("TEXT" "html" ("charset" "utf-8") "<id>" "d" "7BIT" 61 2 "m" NIL NIL "l")"#
    );
    let multi = BodyStructure::Multipart(MultipartPart {
        subtype: "mixed".to_string(),
        parts: vec![
            BodyStructure::Text(text_part("plain", 1, 1)),
            BodyStructure::Multipart(MultipartPart {
                subtype: "alternative".to_string(),
                parts: vec![],
                parameters: vec![],
                disposition: None,
                language: None,
                location: None,
            }),
            BodyStructure::Text(text_part("plain", 2, 3)),
        ],
        parameters: vec![("boundary".to_string(), "b".to_string())],
        disposition: None,
        language: Some(vec!["en".to_string()]),
        location: None,
    });
    assert_eq!(
        body_to_string(&multi),
        r#"(("TEXT" "plain" NIL NIL NIL "7BIT" 1 1) ( "alternative") ("TEXT" "plain" NIL NIL NIL "7BIT" 2 3) "mixed")"#
    );
    assert_eq!(
        bodystructure_to_string(&multi, true),
        r#"(("TEXT" "plain" NIL NIL NIL "7BIT" 1 1 NIL NIL NIL NIL) ( "alternative" NIL NIL NIL NIL) ("TEXT" "plain" NIL NIL NIL "7BIT" 2 3 NIL NIL NIL NIL) "mixed" ("boundary" "b") NIL "en" NIL)"#
    );
    let message = BodyStructure::Message(MessagePart {
        subtype: "rfc822".to_string(),
        parameters: vec![],
        id: None,
        description: None,
        encoding: "7BIT".to_string(),
        size: 185,
        envelope: "ENVELOPE (NIL) ".to_string(),
        body: Box::new(BodyStructure::Text(text_part("plain", 46, 1))),
        lines: 5,
        md5: None,
        disposition: None,
        language: None,
        location: None,
    });
    assert_eq!(
        body_to_string(&message),
        r#"("MESSAGE" "RFC822" NIL NIL NIL "7BIT" 185 ENVELOPE (NIL)  ("TEXT" "plain" NIL NIL NIL "7BIT" 46 1) 5)"#
    );
    assert_eq!(
        bodystructure_to_string(&message, true),
        r#"("MESSAGE" "RFC822" NIL NIL NIL "7BIT" 185 ENVELOPE (NIL)  ("TEXT" "plain" NIL NIL NIL "7BIT" 46 1 NIL NIL NIL NIL) 5 NIL NIL NIL NIL)"#
    );
}

fn part(mimetype: &str, body: Option<&str>, children: usize) -> MailPart {
    MailPart {
        mimetype: mimetype.to_string(),
        charset: "us-ascii".to_string(),
        params: vec![],
        headers: vec![],
        body: body.map(|b| b.to_string()),
        raw: vec![b'x'],
        children,
    }
}

#[test]
fn structures_from_parts() {
    assert_eq!(build_bodystructure(&vec![]), None);
    let parts = vec![
        part("multipart/mixed", None, 3),
        part("text/plain", Some("a\nb\n"), 0),
        part("multipart/alternative", None, 2),
        part("text/html", Some("é"), 0),
        part("application/pdf", Some("12345"), 0),
        part("message/rfc822", Some("Subject: in\r\n\r\nx"), 0),
        part("text/plain", Some("never reached"), 0),
    ];
    let lonely = vec![part("message/rfc822", None, 0)];
    let odd = vec![part("text", Some("abc"), 0)];
    let short = vec![part("multipart/mixed", None, 5), part("text/x", None, 0)];
    let mut nothing = part("text/plain", Some(""), 0);
    nothing.raw = vec![];
    let hollow = vec![part("multipart/mixed", Some("pre"), 2), nothing.clone(), nothing.clone()];
    let half = vec![
        part("multipart/mixed", None, 3),
        nothing.clone(),
        part("text/plain", Some("a"), 0),
        nothing,
    ];
    let got: Vec<String> = [parts, lonely, odd, short, hollow, half]
        .iter()
        .map(|p| body_to_string(&build_bodystructure(p).unwrap()))
        .collect();
    assert_eq!(
        got,
        vec![
            r#"(("TEXT" "plain" NIL NIL NIL "us-ascii" 4 2) (("TEXT" "html" NIL NIL NIL "us-ascii" 2 1) ("APPLICATION" "pdf" NIL NIL NIL "7BIT" 5) "alternative") ("MESSAGE" "RFC822" NIL NIL NIL "7BIT" 16 (NIL "in" NIL NIL NIL NIL NIL NIL NIL NIL) ("TEXT" "plain" NIL NIL NIL "us-ascii" 1 1) 3) "mixed")"#,
            r#"("TEXT" "plain" NIL NIL NIL "7BIT" 0 0)"#,
            r#"("TEXT" "plain" NIL NIL NIL "7BIT" 3 1)"#,
            r#"(("TEXT" "x" NIL NIL NIL "us-ascii" 0 0) "mixed")"#,
            r#"("TEXT" "plain" NIL NIL NIL "7BIT" 3 1)"#,
            r#"(("TEXT" "plain" NIL NIL NIL "us-ascii" 1 1) "mixed")"#,
        ]
    );
}

#[test]
fn headers_of_a_part() {
    let mut p = part("text/plain", None, 0);
    p.headers = vec![
        ("content-disposition".to_string(), " attachment ; filename=\"a b.txt\"; x ; size = 5 ".to_string()),
        ("Content-Language".to_string(), "en , de,fr".to_string()),
        ("Content-Disposition".to_string(), "inline".to_string()),
    ];
    assert_eq!(
        parse_content_disposition(&p),
        Some((
            "attachment".to_string(),
            vec![
                ("filename".to_string(), "a b.txt".to_string()),
                ("size".to_string(), "5".to_string())
            ]
        ))
    );
    assert_eq!(
        parse_content_language(&p),
        Some(vec!["en".to_string(), "de".to_string(), "fr".to_string()])
    );
    let q = part("text/plain", None, 0);
    assert_eq!(parse_content_disposition(&q), None);
    assert_eq!(parse_content_language(&q), None);
}

#[test]
fn messages_are_taken_apart() {
    let raw = [
        "From: sender@example.com\r\n",
        "Content-Type: multipart/mixed; boundary=\"outer\"\r\n",
        "\r\n",
        "--outer\r\n",
        "Content-Type: text/plain; charset=\"utf-8\"\r\n",
        "\r\n",
        "first\r\n",
        "--outer\r\n",
        "Content-Type: multipart/alternative; boundary=\"inner\"\r\n",
        "\r\n",
        "--inner\r\n",
        "Content-Type: text/html\r\n",
        "\r\n",
        "<p>hi</p>\r\n",
        "--inner--\r\n",
        "--outer--\r\n"
    ].concat();
    let parts = message_parts(raw.as_bytes());
    assert_eq!(
        parts
            .iter()
            .map(|p| (p.mimetype.as_str(), p.children))
            .collect::<Vec<_>>(),
        vec![
            ("multipart/mixed", 2),
            ("text/plain", 0),
            ("multipart/alternative", 1),
            ("text/html", 0)
        ]
    );
    assert_eq!(parts[0].raw, raw.as_bytes());
    assert_eq!(parts[0].headers[0], ("From".to_string(), "sender@example.com".to_string()));
    assert_eq!(parts[0].params, vec![("boundary".to_string(), "outer".to_string())]);
    assert_eq!(parts[1].charset, "utf-8");
    assert_eq!(parts[1].body, Some("first\r\n".to_string()));
    assert_eq!(
        body_to_string(&parse_bodystructure(raw.as_bytes()).unwrap()),
        [
            r#"(("TEXT" "plain" ("charset" "utf-8") NIL NIL "utf-8" 7 1) "#,
            r#"(("TEXT" "html" NIL NIL NIL "us-ascii" 11 1) "alternative") "#,
            r#""mixed")"#
        ].concat()
    );
}

#[test]
fn envelopes() {
    let headers = vec![
        ("Date".to_string(), "Thu, 01 Oct 2020 10:00:00 +0000".to_string()),
        ("subject".to_string(), "Hi".to_string()),
        ("From".to_string(), "Ann Lee <ann@x.org>".to_string()),
        ("To".to_string(), "bob@y.org, team: c@z.org, Dee <d@z.org>;".to_string()),
        ("Bcc".to_string(), "local".to_string()),
        ("Message-ID".to_string(), "<1@x>".to_string()),
        ("Cc".to_string(), "<<<".to_string()),
    ];
    assert_eq!(
        envelope_to_string(&headers),
        [
            r#"ENVELOPE ("Thu, 01 Oct 2020 10:00:00 +0000" "Hi" "#,
            r#"(("Ann Lee" NIL "ann" "x.org")) NIL NIL "#,
            r#"((NIL NIL "bob" "y.org")(NIL NIL team NIL)(NIL NIL "c" "z.org")("Dee" NIL "d" "z.org")(NIL NIL NIL NIL)) "#,
            r#"() () NIL "<1@x>") "#
        ].concat()
    );
    assert_eq!(
        envelope_to_string(&vec![]),
        "ENVELOPE (NIL NIL NIL NIL NIL NIL NIL NIL NIL NIL) "
    );
}

#[test]
fn a_multipart_with_an_attachment() {
    let raw_email = r#"From: sender@example.com
To: recipient@example.com
Subject: Multipart Mixed Email
Content-Type: multipart/mixed; boundary="boundary123"

--boundary123
Content-Type: text/plain; charset="utf-8"
Content-Disposition: inline

This is the text part of the email.

--boundary123
Content-Type: application/pdf; name="document.pdf"
Content-Disposition: attachment; filename="document.pdf"
Content-Transfer-Encoding: base64

JVBERi0xLjMKJcTl8uXrp/Og0MTGCjQgMCBvYmoKPDwgL0xlbmd0aCA1IDAgUiAvRmlsdGVyIC9GbGF0ZURlY29kZSA+PgpzdHJlYW0KeAFLy
--boundary123--"#;

    let structure = parse_bodystructure(raw_email.as_bytes()).unwrap();

    let body_result = body_to_string(&structure);
    assert_eq!(
        body_result,
        r#"(("TEXT" "plain" ("charset" "utf-8") NIL NIL "utf-8" 37 2) ("APPLICATION" "pdf" ("name" "document.pdf") NIL NIL "base64" 0) "mixed")"#
    );

    let bodystructure_result = bodystructure_to_string(&structure, true);
    assert_eq!(
        bodystructure_result,
        r#"(("TEXT" "plain" ("charset" "utf-8") NIL NIL "utf-8" 37 2 NIL (inline NIL) NIL NIL) ("APPLICATION" "pdf" ("name" "document.pdf") NIL NIL "base64" 0 NIL (attachment ("filename" "document.pdf")) NIL NIL) "mixed" ("boundary" "boundary123") NIL NIL NIL)"#
    );
}

#[test]
fn a_multipart_in_a_multipart() {
    let raw_email = r#"From: sender@example.com
To: recipient@example.com
Subject: Nested Multipart Email
Content-Type: multipart/mixed; boundary="outer"

--outer
Content-Type: text/plain; charset="utf-8"

This is the first part of the email.

--outer
Content-Type: multipart/alternative; boundary="inner"

--inner
Content-Type: text/plain; charset="utf-8"

This is the plain text version.

--inner
Content-Type: text/html; charset="utf-8"

<html><body><p>This is the HTML version.</p></body></html>

--inner--

--outer
Content-Type: application/octet-stream
Content-Disposition: attachment; filename="data.bin"

[Binary data would go here]

--outer--"#;

    let structure = parse_bodystructure(raw_email.as_bytes()).unwrap();

    let body_result = body_to_string(&structure);
    assert_eq!(
        body_result,
        r#"(("TEXT" "plain" ("charset" "utf-8") NIL NIL "utf-8" 38 2) (("TEXT" "plain" ("charset" "utf-8") NIL NIL "utf-8" 33 2) ("TEXT" "html" ("charset" "utf-8") NIL NIL "utf-8" 60 2) "alternative") ("APPLICATION" "octet-stream" NIL NIL NIL "7BIT" 29) "mixed")"#
    );

    let bodystructure_result = bodystructure_to_string(&structure, true);
    assert_eq!(
        bodystructure_result,
        r#"(("TEXT" "plain" ("charset" "utf-8") NIL NIL "utf-8" 38 2 NIL NIL NIL NIL) (("TEXT" "plain" ("charset" "utf-8") NIL NIL "utf-8" 33 2 NIL NIL NIL NIL) ("TEXT" "html" ("charset" "utf-8") NIL NIL "utf-8" 60 2 NIL NIL NIL NIL) "alternative" ("boundary" "inner") NIL NIL NIL) ("APPLICATION" "octet-stream" NIL NIL NIL "7BIT" 29 NIL (attachment ("filename" "data.bin")) NIL NIL) "mixed" ("boundary" "outer") NIL NIL NIL)"#
    );
}

#[test]
fn a_message_in_a_message() {
    let raw_email = r#"From: sender@example.com
To: recipient@example.com
Subject: Forwarded Message
Content-Type: message/rfc822

From: original@example.com
To: recipient@example.com
Subject: Original Message
Content-Type: text/plain

This is the content of the original message."#;

    let structure = parse_bodystructure(raw_email.as_bytes()).unwrap();

    let body_result = body_to_string(&structure);
    assert_eq!(
        body_result,
        r#"("MESSAGE" "RFC822" NIL NIL NIL "7BIT" 149 (NIL "Original Message" ((NIL NIL "original" "example.com")) NIL NIL ((NIL NIL "recipient" "example.com")) NIL NIL NIL NIL) ("TEXT" "plain" NIL NIL NIL "us-ascii" 44 1) 6)"#
    );

    let bodystructure_result = bodystructure_to_string(&structure, true);
    assert_eq!(
        bodystructure_result,
        r#"("MESSAGE" "RFC822" NIL NIL NIL "7BIT" 149 (NIL "Original Message" ((NIL NIL "original" "example.com")) NIL NIL ((NIL NIL "recipient" "example.com")) NIL NIL NIL NIL) ("TEXT" "plain" NIL NIL NIL "us-ascii" 44 1 NIL NIL NIL NIL) 6 NIL NIL NIL NIL)"#
    );
}

#[test]
fn test_empty_multipart_email() {
    let raw_email = r#"From: sender@example.com
To: recipient@example.com
Subject: Empty Multipart Email
Content-Type: multipart/mixed; boundary="boundary"

--boundary
--boundary--"#;

    let structure = parse_bodystructure(raw_email.as_bytes()).unwrap();

    let body_result = body_to_string(&structure);
    assert_eq!(body_result, r#"("TEXT" "plain" NIL NIL NIL "7BIT" 0 0)"#);

    let bodystructure_result = bodystructure_to_string(&structure, true);
    assert_eq!(
        bodystructure_result,
        r#"("TEXT" "plain" NIL NIL NIL "7BIT" 0 0 NIL NIL NIL NIL)"#
    );
}

#[test]
fn a_part_that_is_no_text_shows_its_type_and_no_lines() {
    let image = BodyStructure::Basic(BasicPart {
        media_type: "IMAGE".to_string(),
        subtype: "png".to_string(),
        parameters: vec![("name".to_string(), "a.png".to_string())],
        id: Some("<1@x>".to_string()),
        description: None,
        encoding: "base64".to_string(),
        size: 12,
        md5: Some("abc".to_string()),
        disposition: Some(("inline".to_string(), vec![])),
        language: None,
        location: None,
    });
    assert_eq!(
        body_to_string(&image),
        r#"("IMAGE" "png" ("name" "a.png") "<1@x>" NIL "base64" 12)"#
    );
    assert_eq!(
        bodystructure_to_string(&image, true),
        r#"("IMAGE" "png" ("name" "a.png") "<1@x>" NIL "base64" 12 "abc" (inline NIL) NIL NIL)"#
    );

    let raw = "Content-Type: image/PNG; name=a.png\r\nContent-Transfer-Encoding: base64\r\nContent-ID: <1@x>\r\n\r\naGVsbG8=\r\n";
    assert_eq!(
        body_to_string(&parse_bodystructure(raw.as_bytes()).unwrap()),
        r#"("IMAGE" "png" ("name" "a.png") "<1@x>" NIL "base64" 5)"#
    );
    let raw = "Content-Type: message/delivery-status\r\n\r\nx";
    assert_eq!(
        body_to_string(&parse_bodystructure(raw.as_bytes()).unwrap()),
        r#"("MESSAGE" "delivery-status" NIL NIL NIL "7BIT" 1)"#
    );
    let raw = "Content-Type: message/rfc822\r\n\r\nSubject: x\r\n\r\ny";
    assert_eq!(
        body_to_string(&parse_bodystructure(raw.as_bytes()).unwrap()),
        r#"("MESSAGE" "RFC822" NIL NIL NIL "7BIT" 15 (NIL "x" NIL NIL NIL NIL NIL NIL NIL NIL) ("TEXT" "plain" NIL NIL NIL "us-ascii" 1 1) 3)"#
    );
}

#[test]
fn quotes_and_backslashes_are_escaped_in_quoted_strings() {
    assert_eq!(
        option_to_string(&Some("a \"b\" \\ c".to_string())),
        r#""a \"b\" \\ c""#
    );
    assert_eq!(
        params_to_string(&vec![("na\"me".to_string(), "va\\lue".to_string())]),
        r#"("na\"me" "va\\lue")"#
    );
    let headers = vec![
        ("Subject".to_string(), "say \"hi\"".to_string()),
        ("Message-ID".to_string(), "<a\\b@x>".to_string()),
    ];
    assert_eq!(
        envelope_to_string(&headers),
        r#"ENVELOPE (NIL "say \"hi\"" NIL NIL NIL NIL NIL NIL NIL "<a\\b@x>") "#
    );
}
