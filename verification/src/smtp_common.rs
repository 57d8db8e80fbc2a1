//! Mail as it is received, and the SMTP receiving state machine.

use vstd::prelude::*;
use vstd::utf8::encode_utf8;
use crate::database::{login_of, DBClient};
use crate::scan::{
    contains_sub, ends_with, has_sub, has_suffix, has_prefix, split_words, starts_with, words,
};
use crate::store::StoreView;
use crate::text::{
    chars_to_string, copy_range, eq_lower, eq_str, lower_seq, push_str, str_to_chars, string_views,
    to_lower_vec,
};
use crate::utils::{base64_decode, base64_decoded, login_in, seperate_login};

verus! {

/// A message as it was received: envelope sender, envelope recipients,
/// and the raw RFC 5322 text.
#[derive(Default, Clone, Debug, PartialEq, Eq)]
pub struct Mail {
    pub from: String,
    pub to: Vec<String>,
    pub data: String,
}

pub ghost struct ReceivedMail {
    pub from: Seq<char>,
    pub to: Seq<Seq<char>>,
    pub data: Seq<char>,
}

impl View for Mail {
    type V = ReceivedMail;

    open spec fn view(&self) -> ReceivedMail {
        ReceivedMail { from: self.from@, to: string_views(self.to@), data: self.data@ }
    }
}

/// Where an SMTP session stands.
#[derive(Clone, Debug, PartialEq, Eq)]
pub enum SMTPState {
    Fresh,
    Greeted,
    Authed(i32),
    ReceivingRcpt(Mail, Option<i32>),
    ReceivingData(Mail, Option<i32>),
    Received(Mail, Option<i32>),
}

pub ghost enum SMTPStateView {
    Fresh,
    Greeted,
    Authed(i32),
    ReceivingRcpt(ReceivedMail, Option<i32>),
    ReceivingData(ReceivedMail, Option<i32>),
    Received(ReceivedMail, Option<i32>),
}

impl View for SMTPState {
    type V = SMTPStateView;

    open spec fn view(&self) -> SMTPStateView {
        match self {
            SMTPState::Fresh => SMTPStateView::Fresh,
            SMTPState::Greeted => SMTPStateView::Greeted,
            SMTPState::Authed(x) => SMTPStateView::Authed(*x),
            SMTPState::ReceivingRcpt(m, x) => SMTPStateView::ReceivingRcpt(m@, *x),
            SMTPState::ReceivingData(m, x) => SMTPStateView::ReceivingData(m@, *x),
            SMTPState::Received(m, x) => SMTPStateView::Received(m@, *x),
        }
    }
}

/// Why a line was not taken.
#[derive(Clone, Copy, Debug, PartialEq, Eq, Structural)]
pub enum SmtpError {
    /// The line holds no word.
    EmptyCommand,
    /// `MAIL` without an argument.
    EmptyMail,
    /// The argument of `MAIL` does not start with `FROM:`.
    IncorrectMail,
    /// `RCPT` without an argument.
    EmptyRcpt,
    /// The argument of `RCPT` does not start with `TO:`.
    IncorrectRcpt,
    /// `AUTH` without a mechanism or without a payload.
    EmptyAuth,
    /// The payload of `AUTH` holds no user name and password.
    IncorrectAuth,
    /// The command is not expected in the session's state.
    Unexpected,
}

/// A state machine that takes the lines of an SMTP session one at a time
/// and says what to answer.
pub struct SMTPStateMachine {
    pub state: SMTPState,
    pub ehlo_greeting: String,
    pub outgoing: bool,
}

pub const OH_HAI: &'static str = "220 smtp.kaki.foo ESMTP Server\r\n";

pub const KK: &'static str = "250 Ok\r\n";

pub const AUTH_OK: &'static str = "235 Ok\r\n";

pub const AUTH_NOT_OK: &'static str = "535 Authentication error\r\n";

pub const NOT_AUTHED_YET: &'static str = "530 Need authentication\r\n";

pub const SEND_DATA_PLZ: &'static str = "354 End data with <CR><LF>.<CR><LF>\r\n";

pub const READY_FOR_ENCRYPTION: &'static str = "220 Ready to start TLS\r\n";

pub const KTHXBYE: &'static str = "221 Bye\r\n";

/// No answer: more data is awaited.
pub const HOLD_YOUR_HORSES: &'static str = "";

/// The lower-case form that `str::to_lowercase` gives of a text.
pub uninterp spec fn lowercased(s: Seq<char>) -> Seq<char>;

/// Calls `str::to_lowercase`, which gives the lower-case form of a text
/// by the Unicode rules. The contract only names the result.
#[verifier::external_body]
fn to_lowercase(s: &str) -> (r: String)
    ensures
        r@ == lowercased(s@),
{
    s.to_lowercase()
}

/// The greeting that answers `EHLO`.
pub open spec fn ehlo_text(domain: Seq<char>) -> Seq<char> {
    "250-"@ + domain + " Hello "@ + domain + "\r\n250-AUTH PLAIN LOGIN\r\n250 STARTTLS\r\n"@
}

/// Whether mail may go to the recipient: not to an address that holds
/// `admin`, `postmaster` or `hostmaster`.
pub open spec fn is_legal_recipient(to: Seq<char>) -> bool {
    !contains_sub(to, "admin"@) && !contains_sub(to, "postmaster"@) && !contains_sub(
        to,
        "hostmaster"@,
    )
}

/// A message with the given sender and nothing else.
pub open spec fn mail_from(from: Seq<char>) -> ReceivedMail {
    ReceivedMail { from, to: seq![], data: seq![] }
}

/// The message with one more recipient, where the recipient is legal.
pub open spec fn with_recipient(mail: ReceivedMail, to: Seq<char>) -> ReceivedMail {
    if is_legal_recipient(to) {
        ReceivedMail { to: mail.to.push(to), ..mail }
    } else {
        mail
    }
}

/// The message with more data.
pub open spec fn with_data(mail: ReceivedMail, raw: Seq<char>) -> ReceivedMail {
    ReceivedMail { data: mail.data + raw, ..mail }
}

/// Whether a lower-case word is a command that is answered `250 Ok` in
/// any state and changes nothing.
pub open spec fn is_idle_command(c: Seq<char>) -> bool {
    c == "noop"@ || c == "help"@ || c == "info"@ || c == "vrfy"@ || c == "expn"@
}

/// What a line does to a receiving session: the state after it and the
/// answer, or why it was not taken.
pub open spec fn smtp_step(state: SMTPStateView, outgoing: bool, greeting: Seq<char>, raw: Seq<char>) -> Result<
    (SMTPStateView, Seq<char>),
    SmtpError,
> {
    let w = words(raw);
    if w.len() == 0 {
        Err(SmtpError::EmptyCommand)
    } else {
        let c = lower_seq(w[0]);
        if c == "ehlo"@ {
            Ok((SMTPStateView::Greeted, greeting))
        } else if c == "helo"@ && state is Fresh {
            Ok((SMTPStateView::Greeted, KK@))
        } else if c == "starttls"@ {
            Ok((state, READY_FOR_ENCRYPTION@))
        } else if is_idle_command(c) {
            Ok((state, KK@))
        } else if c == "rset"@ {
            Ok((SMTPStateView::Fresh, KK@))
        } else if c == "mail"@ {
            if w.len() < 2 {
                Err(SmtpError::EmptyMail)
            } else if !starts_with(w[1], "FROM:"@) {
                Err(SmtpError::IncorrectMail)
            } else {
                let from = w[1].subrange("FROM:"@.len() as int, w[1].len() as int);
                if !outgoing {
                    Ok((SMTPStateView::ReceivingRcpt(mail_from(from), None), KK@))
                } else {
                    match state {
                        SMTPStateView::Authed(x) => Ok(
                            (SMTPStateView::ReceivingRcpt(mail_from(from), Some(x)), KK@),
                        ),
                        _ => Ok((state, NOT_AUTHED_YET@)),
                    }
                }
            }
        } else {
            match state {
                SMTPStateView::ReceivingRcpt(mail, x) => if c == "rcpt"@ {
                    if w.len() < 2 {
                        Err(SmtpError::EmptyRcpt)
                    } else if !starts_with(w[1], "TO:"@) {
                        Err(SmtpError::IncorrectRcpt)
                    } else {
                        let to = lowercased(w[1].subrange("TO:"@.len() as int, w[1].len() as int));
                        Ok((SMTPStateView::ReceivingRcpt(with_recipient(mail, to), x), KK@))
                    }
                } else if c == "data"@ {
                    Ok((SMTPStateView::ReceivingData(mail, x), SEND_DATA_PLZ@))
                } else if c == "quit"@ {
                    Ok((state, KTHXBYE@))
                } else {
                    Err(SmtpError::Unexpected)
                },
                SMTPStateView::ReceivingData(mail, x) => if c == "quit"@ {
                    Ok((SMTPStateView::Received(mail, x), KTHXBYE@))
                } else {
                    Ok(
                        (
                            SMTPStateView::ReceivingData(with_data(mail, raw), x),
                            if ends_with(raw, "\r\n.\r\n"@) {
                                KK@
                            } else {
                                HOLD_YOUR_HORSES@
                            },
                        ),
                    )
                },
                _ => if c == "quit"@ {
                    Ok((state, KTHXBYE@))
                } else {
                    Err(SmtpError::Unexpected)
                },
            }
        }
    }
}

/// Whether an outcome is what a step asks for: the bytes of the answer,
/// or the error.
pub open spec fn smtp_answered(
    r: Result<Vec<u8>, SmtpError>,
    after: SMTPStateView,
    before: SMTPStateView,
    step: Result<(SMTPStateView, Seq<char>), SmtpError>,
) -> bool {
    match (r, step) {
        (Ok(bytes), Ok((state, text))) => bytes@ == encode_utf8(text) && after == state,
        (Err(e), Err(f)) => e == f && after == before,
        _ => false,
    }
}

fn reply(text: &str) -> (r: Vec<u8>)
    ensures
        r@ == encode_utf8(text@),
{
    text.as_bytes_vec()
}

impl SMTPStateMachine {
    /// A machine for a new session of the given domain. An outgoing
    /// session takes mail only from a client that has logged in.
    pub fn new(domain: &str, outgoing: bool) -> (r: SMTPStateMachine)
        ensures
            r.state@ == SMTPStateView::Fresh,
            r.ehlo_greeting@ == ehlo_text(domain@),
            r.outgoing == outgoing,
    {
        let mut g: Vec<char> = Vec::new();
        push_str(&mut g, "250-");
        push_str(&mut g, domain);
        push_str(&mut g, " Hello ");
        push_str(&mut g, domain);
        push_str(&mut g, "\r\n250-AUTH PLAIN LOGIN\r\n250 STARTTLS\r\n");
        assert(g@ =~= ehlo_text(domain@));
        SMTPStateMachine {
            state: SMTPState::Fresh,
            ehlo_greeting: chars_to_string(g.as_slice()),
            outgoing,
        }
    }

    /// Whether mail may go to the recipient, which is in lower case.
    pub fn legal_recipient(to: &str) -> (r: bool)
        ensures
            r == is_legal_recipient(to@),
    {
        let t = str_to_chars(to);
        !has_sub(t.as_slice(), "admin") && !has_sub(t.as_slice(), "postmaster") && !has_sub(
            t.as_slice(),
            "hostmaster",
        )
    }

    /// Takes one line of a session and gives the answer to send; an empty
    /// answer means that nothing is sent.
    pub fn handle_smtp_incoming(&mut self, raw_msg: &str) -> (r: Result<Vec<u8>, SmtpError>)
        ensures
            final(self).ehlo_greeting@ == old(self).ehlo_greeting@,
            final(self).outgoing == old(self).outgoing,
            smtp_answered(
                r,
                final(self).state@,
                old(self).state@,
                smtp_step(old(self).state@, old(self).outgoing, old(self).ehlo_greeting@, raw_msg@),
            ),
    {
        let raw = str_to_chars(raw_msg);
        let w = split_words(raw.as_slice());
        if w.len() == 0 {
            return Err(SmtpError::EmptyCommand);
        }
        let c = to_lower_vec(w[0].as_slice());
        assert(c@ == lower_seq(words(raw_msg@)[0]));
        if eq_str(c.as_slice(), "ehlo") {
            self.state = SMTPState::Greeted;
            return Ok(reply(self.ehlo_greeting.as_str()));
        }
        let fresh = match &self.state {
            SMTPState::Fresh => true,
            _ => false,
        };
        if eq_str(c.as_slice(), "helo") && fresh {
            self.state = SMTPState::Greeted;
            return Ok(reply(KK));
        }
        if eq_str(c.as_slice(), "starttls") {
            return Ok(reply(READY_FOR_ENCRYPTION));
        }
        if eq_str(c.as_slice(), "noop") || eq_str(c.as_slice(), "help") || eq_str(
            c.as_slice(),
            "info",
        ) || eq_str(c.as_slice(), "vrfy") || eq_str(c.as_slice(), "expn") {
            return Ok(reply(KK));
        }
        if eq_str(c.as_slice(), "rset") {
            self.state = SMTPState::Fresh;
            return Ok(reply(KK));
        }
        if eq_str(c.as_slice(), "mail") {
            if w.len() < 2 {
                return Err(SmtpError::EmptyMail);
            }
            if !has_prefix(w[1].as_slice(), "FROM:") {
                return Err(SmtpError::IncorrectMail);
            }
            let prefix = str_to_chars("FROM:");
            let from = copy_range(w[1].as_slice(), prefix.len(), w[1].len());
            let sender = match &self.state {
                SMTPState::Authed(x) => Some(*x),
                _ => None,
            };
            if self.outgoing && sender.is_none() {
                return Ok(reply(NOT_AUTHED_YET));
            }
            let mail = Mail {
                from: chars_to_string(from.as_slice()),
                to: Vec::new(),
                data: String::new(),
            };
            assert(mail@.to =~= Seq::<Seq<char>>::empty());
            assert(mail@ == mail_from(from@));
            self.state = SMTPState::ReceivingRcpt(
                mail,
                if self.outgoing {
                    sender
                } else {
                    None
                },
            );
            return Ok(reply(KK));
        }
        let quit = eq_str(c.as_slice(), "quit");
        let mut state = SMTPState::Fresh;
        std::mem::swap(&mut state, &mut self.state);
        match state {
            SMTPState::ReceivingRcpt(mut mail, x) => {
                if eq_str(c.as_slice(), "rcpt") {
                    if w.len() < 2 {
                        self.state = SMTPState::ReceivingRcpt(mail, x);
                        return Err(SmtpError::EmptyRcpt);
                    }
                    if !has_prefix(w[1].as_slice(), "TO:") {
                        self.state = SMTPState::ReceivingRcpt(mail, x);
                        return Err(SmtpError::IncorrectRcpt);
                    }
                    let prefix = str_to_chars("TO:");
                    let rest = copy_range(w[1].as_slice(), prefix.len(), w[1].len());
                    let to = to_lowercase(chars_to_string(rest.as_slice()).as_str());
                    if Self::legal_recipient(to.as_str()) {
                        let ghost before = mail@;
                        let ghost t = to@;
                        mail.to.push(to);
                        assert(mail@.to =~= before.to.push(t));
                    }
                    self.state = SMTPState::ReceivingRcpt(mail, x);
                    Ok(reply(KK))
                } else if eq_str(c.as_slice(), "data") {
                    self.state = SMTPState::ReceivingData(mail, x);
                    Ok(reply(SEND_DATA_PLZ))
                } else if quit {
                    self.state = SMTPState::ReceivingRcpt(mail, x);
                    Ok(reply(KTHXBYE))
                } else {
                    self.state = SMTPState::ReceivingRcpt(mail, x);
                    Err(SmtpError::Unexpected)
                }
            },
            SMTPState::ReceivingData(mut mail, x) => {
                if quit {
                    self.state = SMTPState::Received(mail, x);
                    Ok(reply(KTHXBYE))
                } else {
                    let done = has_suffix(raw.as_slice(), "\r\n.\r\n");
                    mail.data.append(raw_msg);
                    self.state = SMTPState::ReceivingData(mail, x);
                    Ok(
                        reply(
                            if done {
                                KK
                            } else {
                                HOLD_YOUR_HORSES
                            },
                        ),
                    )
                }
            },
            other => {
                self.state = other;
                if quit {
                    Ok(reply(KTHXBYE))
                } else {
                    Err(SmtpError::Unexpected)
                }
            },
        }
    }
}


/// What `AUTH PLAIN` does once its payload was decoded, or could not be:
/// the state after it and the answer.
pub open spec fn auth_step(decoded: Option<Seq<u8>>, db: StoreView) -> Result<
    (SMTPStateView, Seq<char>),
    SmtpError,
> {
    match decoded {
        None => Ok((SMTPStateView::Greeted, AUTH_NOT_OK@)),
        Some(bytes) => match login_in(bytes) {
            None => Err(SmtpError::IncorrectAuth),
            Some((user, password)) => match login_of(db.users, user, password) {
                Some(id) => Ok((SMTPStateView::Authed(id), AUTH_OK@)),
                None => Ok((SMTPStateView::Greeted, AUTH_NOT_OK@)),
            },
        },
    }
}

/// What a line does to a submitting session: `AUTH` logs in, every other
/// line is taken as in a receiving session.
pub open spec fn smtp_outgoing_step(
    state: SMTPStateView,
    outgoing: bool,
    greeting: Seq<char>,
    raw: Seq<char>,
    db: StoreView,
) -> Result<(SMTPStateView, Seq<char>), SmtpError> {
    let w = words(raw);
    if w.len() > 0 && lower_seq(w[0]) == "auth"@ {
        if w.len() < 2 {
            Err(SmtpError::EmptyAuth)
        } else if lower_seq(w[1]) != "plain"@ {
            Ok((SMTPStateView::Greeted, AUTH_NOT_OK@))
        } else if w.len() < 3 {
            Err(SmtpError::EmptyAuth)
        } else {
            auth_step(base64_decoded(w[2]), db)
        }
    } else {
        smtp_step(state, outgoing, greeting, raw)
    }
}

impl SMTPStateMachine {
    /// Finishes `AUTH PLAIN` with the decoded payload, or without one
    /// where it could not be decoded.
    pub fn finish_auth(&mut self, decoded: Option<Vec<u8>>, db: &DBClient) -> (r: Result<
        Vec<u8>,
        SmtpError,
    >)
        ensures
            final(self).ehlo_greeting@ == old(self).ehlo_greeting@,
            final(self).outgoing == old(self).outgoing,
            smtp_answered(
                r,
                final(self).state@,
                old(self).state@,
                auth_step(
                    match decoded {
                        Some(b) => Some(b@),
                        None => None,
                    },
                    db@,
                ),
            ),
    {
        match decoded {
            None => {
                self.state = SMTPState::Greeted;
                Ok(reply(AUTH_NOT_OK))
            },
            Some(bytes) => match seperate_login(bytes) {
                None => Err(SmtpError::IncorrectAuth),
                Some((user, password)) => match db.check_user(user.as_str(), password.as_str()) {
                    Some(id) => {
                        self.state = SMTPState::Authed(id);
                        Ok(reply(AUTH_OK))
                    },
                    None => {
                        self.state = SMTPState::Greeted;
                        Ok(reply(AUTH_NOT_OK))
                    },
                },
            },
        }
    }

    /// Takes one line of a submitting session and gives the answer to
    /// send.
    pub fn handle_smtp_outgoing(&mut self, raw_msg: &str, db: &DBClient) -> (r: Result<
        Vec<u8>,
        SmtpError,
    >)
        ensures
            final(self).ehlo_greeting@ == old(self).ehlo_greeting@,
            final(self).outgoing == old(self).outgoing,
            smtp_answered(
                r,
                final(self).state@,
                old(self).state@,
                smtp_outgoing_step(
                    old(self).state@,
                    old(self).outgoing,
                    old(self).ehlo_greeting@,
                    raw_msg@,
                    db@,
                ),
            ),
    {
        let raw = str_to_chars(raw_msg);
        let w = split_words(raw.as_slice());
        if w.len() > 0 && eq_lower(w[0].as_slice(), "auth") {
            if w.len() < 2 {
                return Err(SmtpError::EmptyAuth);
            }
            if !eq_lower(w[1].as_slice(), "plain") {
                self.state = SMTPState::Greeted;
                return Ok(reply(AUTH_NOT_OK));
            }
            if w.len() < 3 {
                return Err(SmtpError::EmptyAuth);
            }
            let payload = chars_to_string(w[2].as_slice());
            self.finish_auth(base64_decode(payload.as_str()), db)
        } else {
            self.handle_smtp_incoming(raw_msg)
        }
    }
}

} // verus!
