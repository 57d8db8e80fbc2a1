//! Relaying submitted mail to the servers of its recipients: the commands
//! to send, what to do on each reply, and which server to speak to. The
//! connections themselves are made by the caller.

use vstd::prelude::*;
use crate::scan::{ends_with, has_suffix, split_once, split_once_char};
use crate::smtp_common::{Mail, ReceivedMail};
use crate::text::{chars_to_string, copy_range, push_str, str_to_chars, string_views};

verus! {

/// The command that names one recipient.
pub open spec fn rcpt_command(rcpt: Seq<char>) -> Seq<char> {
    "rcpt TO:<"@ + rcpt + ">\r\n"@
}

/// The text of a message with the line that ends it, which is added
/// where the text does not end with it already.
pub open spec fn closed_data(data: Seq<char>) -> Seq<char> {
    if ends_with(data, "\r\n.\r\n"@) {
        data
    } else {
        data + "\r\n.\r\n"@
    }
}

/// The commands that hand a message to another server, in order: the
/// greeting with the sending domain, the sender, each recipient, the
/// announcement of the text, and the text. The closing `quit` is not
/// among them.
pub open spec fn relay_commands(mail: ReceivedMail, domain: Seq<char>) -> Seq<Seq<char>> {
    seq!["ehlo "@ + domain + "\r\n"@, "mail FROM:<"@ + mail.from + ">\r\n"@] + Seq::new(
        mail.to.len(),
        |i: int| rcpt_command(mail.to[i]),
    ) + seq!["data\r\n"@, closed_data(mail.data)]
}

/// Writes the commands that hand a message to another server.
pub fn gen_commands(mail: &Mail, domain: &str) -> (r: Vec<String>)
    ensures
        string_views(r@) == relay_commands(mail@, domain@),
{
    let mut commands: Vec<String> = Vec::new();
    let mut line: Vec<char> = Vec::new();
    push_str(&mut line, "ehlo ");
    push_str(&mut line, domain);
    push_str(&mut line, "\r\n");
    commands.push(chars_to_string(line.as_slice()));
    let mut line: Vec<char> = Vec::new();
    push_str(&mut line, "mail FROM:<");
    push_str(&mut line, mail.from.as_str());
    push_str(&mut line, ">\r\n");
    commands.push(chars_to_string(line.as_slice()));
    let mut i: usize = 0;
    while i < mail.to.len()
        invariant
            i <= mail.to.len(),
            commands@.len() == 2 + i,
            commands@[0]@ == "ehlo "@ + domain@ + "\r\n"@,
            commands@[1]@ == "mail FROM:<"@ + mail.from@ + ">\r\n"@,
            forall|j: int| 0 <= j < i ==> commands@[2 + j]@ == rcpt_command(mail.to@[j]@),
        decreases mail.to.len() - i,
    {
        let mut line: Vec<char> = Vec::new();
        push_str(&mut line, "rcpt TO:<");
        push_str(&mut line, mail.to[i].as_str());
        push_str(&mut line, ">\r\n");
        commands.push(chars_to_string(line.as_slice()));
        i += 1;
    }
    commands.push(chars_to_string(str_to_chars("data\r\n").as_slice()));
    let mut text = str_to_chars(mail.data.as_str());
    if !has_suffix(text.as_slice(), "\r\n.\r\n") {
        push_str(&mut text, "\r\n.\r\n");
    }
    commands.push(chars_to_string(text.as_slice()));
    assert(string_views(commands@) =~= relay_commands(mail@, domain@));
    commands
}

/// What the sender does after a reply.
#[derive(Clone, Copy, Debug, PartialEq, Eq, Structural)]
pub enum ReplyAction {
    /// The command was taken: go on with the next.
    Proceed,
    /// The command failed for the moment: send it once more, then go on.
    Retry,
    /// The command failed for good: send `quit`, then go on.
    Quit,
    /// The reply is of no known class: go on.
    Unknown,
}

/// What the sender does after a reply, by the first digit of its status
/// code: 2 and 3 are success, 4 is a passing failure, 5 a lasting one. A
/// reply of fewer than three octets holds no status code.
pub open spec fn reply_class(reply: Seq<u8>) -> Option<ReplyAction> {
    if reply.len() < 3 {
        None
    } else if reply[0] == 0x32 || reply[0] == 0x33 {
        Some(ReplyAction::Proceed)
    } else if reply[0] == 0x34 {
        Some(ReplyAction::Retry)
    } else if reply[0] == 0x35 {
        Some(ReplyAction::Quit)
    } else {
        Some(ReplyAction::Unknown)
    }
}

/// Decides what to do after a reply of the other server.
pub fn reply_action(reply: &[u8]) -> (r: Option<ReplyAction>)
    ensures
        r == reply_class(reply@),
{
    if reply.len() < 3 {
        None
    } else if reply[0] == 0x32u8 || reply[0] == 0x33u8 {
        Some(ReplyAction::Proceed)
    } else if reply[0] == 0x34u8 {
        Some(ReplyAction::Retry)
    } else if reply[0] == 0x35u8 {
        Some(ReplyAction::Quit)
    } else {
        Some(ReplyAction::Unknown)
    }
}

/// Where the message for a recipient goes.
#[derive(Clone, Debug, PartialEq, Eq)]
pub enum RelayTarget {
    /// The recipient names no domain: nothing is sent for it.
    Nowhere,
    /// The recipient does not end with the closing angle bracket.
    Malformed,
    /// The domain whose mail server takes the message.
    Domain(String),
}

pub ghost enum RelayTargetView {
    Nowhere,
    Malformed,
    Domain(Seq<char>),
}

impl View for RelayTarget {
    type V = RelayTargetView;

    open spec fn view(&self) -> RelayTargetView {
        match self {
            RelayTarget::Nowhere => RelayTargetView::Nowhere,
            RelayTarget::Malformed => RelayTargetView::Malformed,
            RelayTarget::Domain(d) => RelayTargetView::Domain(d@),
        }
    }
}

/// Where the message for a recipient goes: the domain stands behind the
/// first `@` and before the closing angle bracket, which must be the last
/// character.
pub open spec fn target_of(rcpt: Seq<char>) -> RelayTargetView {
    match split_once(rcpt, '@') {
        None => RelayTargetView::Nowhere,
        Some((_, rest)) => if ends_with(rest, ">"@) {
            RelayTargetView::Domain(rest.subrange(0, rest.len() - 1))
        } else {
            RelayTargetView::Malformed
        },
    }
}

/// Finds the domain of a recipient.
pub fn relay_target(rcpt: &str) -> (r: RelayTarget)
    ensures
        r@ == target_of(rcpt@),
{
    let chars = str_to_chars(rcpt);
    match split_once_char(chars.as_slice(), '@') {
        None => RelayTarget::Nowhere,
        Some((_, rest)) => {
            if has_suffix(rest.as_slice(), ">") {
                proof {
                    reveal_strlit(">");
                }
                RelayTarget::Domain(
                    chars_to_string(copy_range(rest.as_slice(), 0, rest.len() - 1).as_slice()),
                )
            } else {
                RelayTarget::Malformed
            }
        },
    }
}

/// Whether `i` is the place of the mail server to speak to: the first
/// among those of the lowest preference number.
pub open spec fn is_preferred(preferences: Seq<u16>, i: int) -> bool {
    &&& 0 <= i < preferences.len()
    &&& forall|j: int| 0 <= j < preferences.len() ==> preferences[i] <= preferences[j]
    &&& forall|j: int| 0 <= j < i ==> preferences[i] < preferences[j]
}

/// Picks the mail server to speak to by the preference numbers of a
/// domain's mail servers; there is none to pick where the domain names
/// no server.
pub fn preferred(preferences: &Vec<u16>) -> (r: Option<usize>)
    ensures
        match r {
            Some(i) => is_preferred(preferences@, i as int),
            None => preferences@.len() == 0,
        },
{
    if preferences.len() == 0 {
        return None;
    }
    let mut best: usize = 0;
    let mut i: usize = 1;
    while i < preferences.len()
        invariant
            1 <= i <= preferences.len(),
            best < i,
            forall|j: int| 0 <= j < i ==> preferences@[best as int] <= preferences@[j],
            forall|j: int| 0 <= j < best ==> preferences@[best as int] < preferences@[j],
        decreases preferences.len() - i,
    {
        if preferences[i] < preferences[best] {
            best = i;
        }
        i += 1;
    }
    Some(best)
}

} // verus!
