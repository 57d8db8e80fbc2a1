//! The IMAP session: its states, what a handler hands back, and the
//! dispatch of commands to handlers.

use vstd::prelude::*;
use vstd::string::StrSliceExecFns;
use vstd::utf8::encode_utf8;
use crate::database::DBClient;
use crate::dates::Timestamp;
use crate::imap_op::append::{append_outcome, Append};
use crate::imap_op::authenticate::{authenticate_outcome, Authenticate};
use crate::imap_op::capability::{Capability, CAPABILITY};
use crate::imap_op::close::{close_outcome, Close};
use crate::imap_op::copy::{copy_outcome, move_outcome, CopyMail, MoveMail};
use crate::imap_op::create::{create_outcome, Create};
use crate::imap_op::delete::{delete_outcome, Delete};
use crate::imap_op::enable::Enable;
use crate::imap_op::examine::Examine;
use crate::imap_op::expunge::{expunge_outcome, Expunge};
use crate::imap_op::fetch::{fetch_outcome, Fetch};
use crate::imap_op::idle::{Idle, IDLING};
use crate::imap_op::list::{list_outcome, List};
use crate::imap_op::login::{login_outcome, Login};
use crate::imap_op::logout::{Logout, BYE};
use crate::imap_op::namespace::{Namespace, NAMESPACE};
use crate::imap_op::noop::Noop;
use crate::imap_op::rename::{rename_outcome, Rename};
use crate::imap_op::search::{search_outcome, Search};
use crate::imap_op::select::{select_outcome, Select};
use crate::imap_op::starttls::StartTls;
use crate::imap_op::status::{status_outcome, Status};
use crate::imap_op::store::{store_outcome, Store};
use crate::imap_op::subscribe::{subscribe_outcome, Subscribe};
use crate::imap_op::uid::{uid_outcome, Uid};
use crate::imap_op::unselect::Unselect;
use crate::imap_op::unsubscribe::Unsubscribe;
use crate::scan::{
    ends_with, has_suffix, split_once, split_once_at, split_once_char, split_once_str,
};
use crate::store::StoreView;
use crate::text::{
    chars_to_string, copy_range, eq_str, lower_seq, push_chars, push_str, str_to_chars,
    to_lower_vec, views,
};

verus! {

/// Where a session stands.
#[derive(Clone, Debug, PartialEq, Eq, Copy, Structural)]
pub enum IMAPState {
    NotAuthed,
    /// Logged in as the user with this id.
    Authed(i32),
    Selected(SelectedState),
    Logout,
}

/// The selected mailbox of a session.
#[derive(PartialEq, Eq, Debug, Clone, Copy, Structural)]
pub struct SelectedState {
    pub read_only: bool,
    pub user_id: i32,
    pub mailbox_id: i32,
}

impl IMAPState {
    /// The user of a session that is logged in.
    pub open spec fn user(self) -> Option<i32> {
        match self {
            IMAPState::Authed(id) => Some(id),
            IMAPState::Selected(s) => Some(s.user_id),
            _ => None,
        }
    }

    /// The user of a session that is logged in, with or without a
    /// selected mailbox.
    pub fn user_id(&self) -> (r: Option<i32>)
        ensures
            r == self.user(),
    {
        match self {
            IMAPState::Authed(id) => Some(*id),
            IMAPState::Selected(s) => Some(s.user_id),
            _ => None,
        }
    }
}

/// The lines of a response, in the order they are written.
pub type Response = Vec<Vec<u8>>;

/// What the session does after it has written a response.
#[derive(PartialEq, Eq, Debug, Clone, Copy, Structural)]
pub enum ResponseInfo {
    /// Upgrade the transport to TLS.
    PromoteToTls,
    /// Read the continuation of the command and run its handler again.
    RedoForNextMsg,
    /// Nothing.
    Regular,
    /// Wait for `DONE`, a notification or the timeout.
    Idle,
}

/// Why a command was not carried out; the session answers `BAD`.
#[derive(PartialEq, Eq, Debug, Clone, Copy, Structural)]
pub enum ImapError {
    /// The verb is not allowed in the session's state.
    BadState,
    /// A required argument is missing.
    MissingArgument,
    /// An argument is malformed.
    BadArgument,
    /// The verb is unknown.
    UnknownCommand,
    /// The line holds no tag or no verb.
    NoCommand,
    /// The store cannot take the change.
    StoreFailure,
    /// The continuation of a command asked for another continuation.
    SecondContinuation,
    /// The time of the command cannot be written in 32 bits.
    BadClock,
}

impl ImapError {
    pub open spec fn reason_text(self) -> Seq<char> {
        match self {
            ImapError::BadState => "bad state"@,
            ImapError::MissingArgument => "missing arguments"@,
            ImapError::BadArgument => "malformed arguments"@,
            ImapError::UnknownCommand => "invalid command"@,
            ImapError::NoCommand => "didn't provide command"@,
            ImapError::StoreFailure => "store failure"@,
            ImapError::SecondContinuation => "second continuation"@,
            ImapError::BadClock => "clock out of range"@,
        }
    }

    /// The reason as the `BAD` response names it.
    pub fn reason(&self) -> (r: &'static str)
        ensures
            r@ == self.reason_text(),
    {
        match self {
            ImapError::BadState => "bad state",
            ImapError::MissingArgument => "missing arguments",
            ImapError::BadArgument => "malformed arguments",
            ImapError::UnknownCommand => "invalid command",
            ImapError::NoCommand => "didn't provide command",
            ImapError::StoreFailure => "store failure",
            ImapError::SecondContinuation => "second continuation",
            ImapError::BadClock => "clock out of range",
        }
    }
}

/// What a handler hands back: the response, the next state, and what to
/// do after the response is written.
pub type Handled = Result<(Response, IMAPState, ResponseInfo), ImapError>;

/// The bytes of response lines.
pub open spec fn byte_views(resp: Seq<Vec<u8>>) -> Seq<Seq<u8>> {
    Seq::new(resp.len(), |i: int| resp[i]@)
}

/// The lines as they go over the wire: each text in UTF-8.
pub open spec fn sent(texts: Seq<Seq<char>>) -> Seq<Seq<u8>> {
    Seq::new(texts.len(), |i: int| encode_utf8(texts[i]))
}

/// One line in UTF-8.
pub fn encode_line(text: &[char]) -> (r: Vec<u8>)
    ensures
        r@ == encode_utf8(text@),
{
    let s = chars_to_string(text);
    s.as_str().as_bytes_vec()
}

/// The lines in UTF-8.
pub fn encode_lines(texts: &Vec<Vec<char>>) -> (r: Response)
    ensures
        byte_views(r@) == sent(views(texts@)),
{
    let mut out: Vec<Vec<u8>> = Vec::new();
    let mut i: usize = 0;
    while i < texts.len()
        invariant
            i <= texts.len(),
            out@.len() == i,
            forall|j: int| 0 <= j < i ==> out@[j]@ == encode_utf8(texts@[j]@),
        decreases texts.len() - i,
    {
        out.push(encode_line(texts[i].as_slice()));
        i += 1;
    }
    assert(byte_views(out@) =~= sent(views(texts@)));
    out
}

/// The line `<tag><rest>`.
pub fn tagged(tag: &str, rest: &str) -> (r: Vec<char>)
    ensures
        r@ == tag@ + rest@,
{
    let mut out: Vec<char> = Vec::new();
    push_str(&mut out, tag);
    push_str(&mut out, rest);
    out
}

/// A line of fixed text.
pub fn fixed(text: &str) -> (r: Vec<char>)
    ensures
        r@ == text@,
{
    str_to_chars(text)
}

/// Whether a handler's outcome is the given response, state and action.
pub open spec fn handled_is(
    r: Handled,
    texts: Seq<Seq<char>>,
    state: IMAPState,
    info: ResponseInfo,
) -> bool {
    match r {
        Ok((resp, s, i)) => byte_views(resp@) == sent(texts) && s == state && i == info,
        Err(_) => false,
    }
}

/// Whether a handler refused with the given error.
pub open spec fn refused_with(r: Handled, e: ImapError) -> bool {
    match r {
        Ok(_) => false,
        Err(x) => x == e,
    }
}

/// A handler's answer: lines, next state and action.
pub fn answer(texts: Vec<Vec<char>>, state: IMAPState, info: ResponseInfo) -> (r: Handled)
    ensures
        handled_is(r, views(texts@), state, info),
{
    Ok((encode_lines(&texts), state, info))
}

/// A command handler: from tag, arguments, state and store to response,
/// next state and action. `now` is the time of the command.
pub trait IMAPOp {
    fn process(tag: &str, args: &str, state: IMAPState, db: &mut DBClient, now: Timestamp) -> (r:
        Handled)
        requires
            old(db).wf(),
        ensures
            final(db).wf(),
    ;
}


/// An answer of one line.
pub fn answer_line(text: Vec<char>, state: IMAPState, info: ResponseInfo) -> (r: Handled)
    ensures
        handled_is(r, seq![text@], state, info),
{
    let mut texts: Vec<Vec<char>> = Vec::new();
    let ghost t = text@;
    texts.push(text);
    assert(views(texts@) =~= seq![t]);
    answer(texts, state, info)
}

/// An answer of two lines.
pub fn answer_lines(first: Vec<char>, second: Vec<char>, state: IMAPState, info: ResponseInfo) -> (r:
    Handled)
    ensures
        handled_is(r, seq![first@, second@], state, info),
{
    let mut texts: Vec<Vec<char>> = Vec::new();
    let ghost a = first@;
    let ghost b = second@;
    texts.push(first);
    texts.push(second);
    assert(views(texts@) =~= seq![a, b]);
    answer(texts, state, info)
}

/// The elements of a command's arguments.
pub fn arguments(args: &str) -> (r: Option<Vec<Vec<char>>>)
    ensures
        r is Some <==> crate::parsing::imap::list_of(args@) is Some,
        r is Some ==> views(r->0@) == crate::parsing::imap::list_of(args@)->0,
{
    let chars = str_to_chars(args);
    crate::parsing::imap::parse_list_chars(chars.as_slice())
}


/// What the command named by the lower-case word `c` does: the response,
/// the next state, the action, and the store after it.
#[verifier::opaque]
pub open spec fn command_outcome(
    c: Seq<char>,
    tag: Seq<char>,
    args: Seq<char>,
    state: IMAPState,
    before: StoreView,
    after: StoreView,
    now: Timestamp,
    r: Handled,
) -> bool {
    if c == "append"@ {
        append_outcome(tag, args, state, before, after, now, r)
    } else if c == "capability"@ {
        after == before && handled_is(
            r,
            seq![CAPABILITY@, tag + " OK CAPABILITY completed\r\n"@],
            state,
            ResponseInfo::Regular,
        )
    } else if c == "create"@ {
        create_outcome(tag, args, state, before, after, r)
    } else if c == "enable"@ {
        after == before && handled_is(
            r,
            seq![tag + " BAD NO EXTENSIONS SUPPORTED\r\n"@],
            state,
            ResponseInfo::Regular,
        )
    } else if c == "expunge"@ {
        expunge_outcome(tag, args, state, before, after, r, false)
    } else if c == "login"@ {
        after == before && login_outcome(tag, args, state, before, r)
    } else if c == "noop"@ {
        after == before && handled_is(
            r,
            seq![tag + " OK NOOP completed\r\n"@],
            state,
            ResponseInfo::Regular,
        )
    } else if c == "select"@ {
        select_outcome(tag, args, state, before, after, now, r, true)
    } else if c == "status"@ {
        status_outcome(tag, args, state, before, after, r)
    } else if c == "unselect"@ {
        after == before && close_outcome(tag, state, before, after, r, false)
    } else if c == "authenticate"@ {
        after == before && authenticate_outcome(tag, args, state, before, r)
    } else if c == "close"@ {
        close_outcome(tag, state, before, after, r, true)
    } else if c == "delete"@ {
        delete_outcome(tag, args, state, before, after, r)
    } else if c == "examine"@ {
        select_outcome(tag, args, state, before, after, now, r, false)
    } else if c == "list"@ {
        list_outcome(tag, args, state, before, after, r)
    } else if c == "logout"@ {
        after == before && handled_is(
            r,
            seq![BYE@, tag + " OK LOGOUT completed\r\n"@],
            IMAPState::Logout,
            ResponseInfo::Regular,
        )
    } else if c == "namespace"@ {
        after == before && if state.user() is Some {
            handled_is(
                r,
                seq![NAMESPACE@, tag + " OK NAMESPACE completed\r\n"@],
                state,
                ResponseInfo::Regular,
            )
        } else {
            refused_with(r, ImapError::BadState)
        }
    } else if c == "rename"@ {
        rename_outcome(tag, args, state, before, after, r)
    } else if c == "starttls"@ {
        after == before && handled_is(
            r,
            seq![tag + " OK Begin TLS negotiation now\r\n"@],
            state,
            ResponseInfo::PromoteToTls,
        )
    } else if c == "subscribe"@ {
        subscribe_outcome(tag, args, state, before, after, r, true)
    } else if c == "unsubscribe"@ {
        subscribe_outcome(tag, args, state, before, after, r, false)
    } else if c == "uid"@ {
        uid_outcome(tag, args, state, before, after, r)
    } else if c == "idle"@ {
        after == before && if state.user() is None {
            refused_with(r, ImapError::BadState)
        } else if args.len() == 0 {
            handled_is(r, seq![IDLING@], state, ResponseInfo::Idle)
        } else {
            handled_is(r, seq![tag + " OK IDLE terminated\r\n"@], state, ResponseInfo::Regular)
        }
    } else if c == "search"@ {
        after == before && search_outcome(tag, args, state, before, r, false)
    } else if c == "fetch"@ {
        after == before && fetch_outcome(tag, args, state, before, r, false)
    } else if c == "store"@ {
        store_outcome(tag, args, state, before, after, r, false)
    } else if c == "copy"@ {
        copy_outcome(tag, args, state, before, after, r, false)
    } else if c == "move"@ {
        move_outcome(tag, args, state, before, after, r, false)
    } else {
        after == before && refused_with(r, ImapError::UnknownCommand)
    }
}

/// Runs the handler of the command, whose name is read in any letter
/// case.
pub fn exec_command(
    command: &str,
    tag: &str,
    args: &str,
    state: IMAPState,
    db: &mut DBClient,
    now: Timestamp,
) -> (r: Handled)
    requires
        old(db).wf(),
    ensures
        final(db).wf(),
        final(db)@.users == old(db)@.users,
        command_outcome(lower_seq(command@), tag@, args@, state, old(db)@, final(db)@, now, r),
{
    proof {
        reveal(command_outcome);
    }
    let c = to_lower_vec(str_to_chars(command).as_slice());
    if eq_str(c.as_slice(), "append") {
        Append::process(tag, args, state, db, now)
    } else if eq_str(c.as_slice(), "capability") {
        Capability::process(tag, args, state, db, now)
    } else if eq_str(c.as_slice(), "create") {
        Create::process(tag, args, state, db, now)
    } else if eq_str(c.as_slice(), "enable") {
        Enable::process(tag, args, state, db, now)
    } else if eq_str(c.as_slice(), "expunge") {
        Expunge::process(tag, args, state, db, now)
    } else if eq_str(c.as_slice(), "login") {
        Login::process(tag, args, state, db, now)
    } else if eq_str(c.as_slice(), "noop") {
        Noop::process(tag, args, state, db, now)
    } else if eq_str(c.as_slice(), "select") {
        Select::process(tag, args, state, db, now)
    } else if eq_str(c.as_slice(), "status") {
        Status::process(tag, args, state, db, now)
    } else if eq_str(c.as_slice(), "unselect") {
        Unselect::process(tag, args, state, db, now)
    } else if eq_str(c.as_slice(), "authenticate") {
        Authenticate::process(tag, args, state, db, now)
    } else if eq_str(c.as_slice(), "close") {
        Close::process(tag, args, state, db, now)
    } else if eq_str(c.as_slice(), "delete") {
        Delete::process(tag, args, state, db, now)
    } else if eq_str(c.as_slice(), "examine") {
        Examine::process(tag, args, state, db, now)
    } else if eq_str(c.as_slice(), "list") {
        List::process(tag, args, state, db, now)
    } else if eq_str(c.as_slice(), "logout") {
        Logout::process(tag, args, state, db, now)
    } else if eq_str(c.as_slice(), "namespace") {
        Namespace::process(tag, args, state, db, now)
    } else if eq_str(c.as_slice(), "rename") {
        Rename::process(tag, args, state, db, now)
    } else if eq_str(c.as_slice(), "starttls") {
        StartTls::process(tag, args, state, db, now)
    } else if eq_str(c.as_slice(), "subscribe") {
        Subscribe::process(tag, args, state, db, now)
    } else if eq_str(c.as_slice(), "unsubscribe") {
        Unsubscribe::process(tag, args, state, db, now)
    } else if eq_str(c.as_slice(), "uid") {
        Uid::process(tag, args, state, db, now)
    } else if eq_str(c.as_slice(), "idle") {
        Idle::process(tag, args, state, db, now)
    } else if eq_str(c.as_slice(), "search") {
        Search::process(tag, args, state, db, now)
    } else if eq_str(c.as_slice(), "fetch") {
        Fetch::process(tag, args, state, db, now)
    } else if eq_str(c.as_slice(), "store") {
        Store::process(tag, args, state, db, now)
    } else if eq_str(c.as_slice(), "copy") {
        CopyMail::process(tag, args, state, db, now)
    } else if eq_str(c.as_slice(), "move") {
        MoveMail::process(tag, args, state, db, now)
    } else {
        Err(ImapError::UnknownCommand)
    }
}


/// The greeting that a session starts with.
pub const GREETING: &'static str = "* OK IMAP4rev2 Service Ready\r\n";

/// What ends an idle wait that saw no traffic.
pub const IDLE_TIMED_OUT: &'static str = "* BYE IDLE timed out\r\n";

/// The seconds after which an idle wait without traffic ends.
pub const IDLE_TIMEOUT_SECS: u64 = 1800;

/// The number of bytes that the session reads at a time.
pub const READ_BUFFER_SIZE: usize = 65536;

/// A command that waits for its continuation.
#[derive(Debug, Clone, PartialEq, Eq)]
pub struct Pending {
    pub tag: String,
    pub command: String,
    pub args: String,
}

/// What a session waits for.
#[derive(Debug, Clone, PartialEq, Eq)]
pub enum Waiting {
    /// The next command.
    Command,
    /// The continuation of a command.
    Continuation(Pending),
    /// `DONE`, a notification or the timeout; the tag is that of the IDLE
    /// command.
    Idle(String),
}

pub ghost enum WaitingView {
    Command,
    Continuation { tag: Seq<char>, command: Seq<char>, args: Seq<char> },
    Idle(Seq<char>),
}

impl View for Waiting {
    type V = WaitingView;

    open spec fn view(&self) -> WaitingView {
        match self {
            Waiting::Command => WaitingView::Command,
            Waiting::Continuation(p) => WaitingView::Continuation {
                tag: p.tag@,
                command: p.command@,
                args: p.args@,
            },
            Waiting::Idle(tag) => WaitingView::Idle(tag@),
        }
    }
}

/// What the caller does for the session after it has written the
/// response.
#[derive(Debug, Clone, Copy, PartialEq, Eq, Structural)]
pub enum SessionAction {
    Nothing,
    /// Upgrade the transport to TLS.
    UpgradeTls,
    /// Close the connection.
    Close,
}

/// One IMAP session: its state, whether its transport is TLS, and what it
/// waits for.
#[derive(Debug)]
pub struct IMAP {
    pub state: IMAPState,
    pub tls: bool,
    pub waiting: Waiting,
}

pub ghost struct SessionView {
    pub state: IMAPState,
    pub tls: bool,
    pub waiting: WaitingView,
}

impl View for IMAP {
    type V = SessionView;

    open spec fn view(&self) -> SessionView {
        SessionView { state: self.state, tls: self.tls, waiting: self.waiting@ }
    }
}

/// The line that refuses a command.
pub open spec fn bad_line(tag: Seq<char>, e: ImapError) -> Seq<char> {
    tag + " BAD "@ + e.reason_text() + "\r\n"@
}

/// What a step of the session gives: the session after it, the bytes to
/// write, and the action.
pub type Settled = (SessionView, Seq<Seq<u8>>, SessionAction);

/// The session after a handler has answered a command, what is written,
/// and what is done. An error is answered `BAD` and changes nothing; so
/// is a continuation (`second`) that asks for another continuation. A
/// STARTTLS on a transport that is TLS already is answered and upgrades
/// nothing.
pub open spec fn settled(
    old_state: IMAPState,
    tls: bool,
    tag: Seq<char>,
    command: Seq<char>,
    args: Seq<char>,
    outcome: Handled,
    second: bool,
) -> Settled {
    match outcome {
        Err(e) => (
            SessionView { state: old_state, tls, waiting: WaitingView::Command },
            seq![encode_utf8(bad_line(tag, e))],
            SessionAction::Nothing,
        ),
        Ok((resp, state, info)) => match info {
            ResponseInfo::Regular => (
                SessionView { state, tls, waiting: WaitingView::Command },
                byte_views(resp@),
                if state == IMAPState::Logout {
                    SessionAction::Close
                } else {
                    SessionAction::Nothing
                },
            ),
            ResponseInfo::PromoteToTls => (
                SessionView { state, tls: true, waiting: WaitingView::Command },
                byte_views(resp@),
                if tls {
                    SessionAction::Nothing
                } else {
                    SessionAction::UpgradeTls
                },
            ),
            ResponseInfo::RedoForNextMsg => if second {
                (
                    SessionView { state: old_state, tls, waiting: WaitingView::Command },
                    seq![encode_utf8(bad_line(tag, ImapError::SecondContinuation))],
                    SessionAction::Nothing,
                )
            } else {
                (
                    SessionView {
                        state,
                        tls,
                        waiting: WaitingView::Continuation { tag, command, args },
                    },
                    byte_views(resp@),
                    SessionAction::Nothing,
                )
            },
            ResponseInfo::Idle => (
                SessionView { state, tls, waiting: WaitingView::Idle(tag) },
                byte_views(resp@),
                SessionAction::Nothing,
            ),
        },
    }
}

/// The tag, the command and the arguments of a line: the tag ends at the
/// first space; the command ends at the next space, or else at the line
/// break, and the arguments are what follows it. `Err` holds the tag where
/// there is one and no command.
pub open spec fn command_line(raw: Seq<char>) -> Result<
    (Seq<char>, Seq<char>, Seq<char>),
    Option<Seq<char>>,
> {
    match split_once(raw, ' ') {
        None => Err(None),
        Some((tag, rest)) => match split_once(rest, ' ') {
            Some((command, args)) => Ok((tag, command, args)),
            None => match split_once_at(rest, "\r\n"@) {
                Some((command, args)) => Ok((tag, command, args)),
                None => Err(Some(tag)),
            },
        },
    }
}

/// The arguments of a command with its continuation: the arguments
/// without their line break, a space, and the continuation.
pub open spec fn continued_args(args: Seq<char>, more: Seq<char>) -> Seq<char> {
    (if ends_with(args, "\r\n"@) {
        args.subrange(0, args.len() - 2)
    } else {
        args
    }) + " "@ + more
}

/// Whether a step of the session ran the command and settled its
/// outcome `h`.
pub open spec fn ran(
    state: IMAPState,
    tls: bool,
    tag: Seq<char>,
    command: Seq<char>,
    args: Seq<char>,
    second: bool,
    before: StoreView,
    after: StoreView,
    now: Timestamp,
    h: Handled,
    result: Settled,
) -> bool {
    command_outcome(lower_seq(command), tag, args, state, before, after, now, h) && result
        == settled(state, tls, tag, command, args, h, second)
}

/// Whether a step of the session ran the command and settled its
/// outcome, whatever the outcome was within what the command allows.
pub open spec fn ran_command(
    state: IMAPState,
    tls: bool,
    tag: Seq<char>,
    command: Seq<char>,
    args: Seq<char>,
    second: bool,
    before: StoreView,
    after: StoreView,
    now: Timestamp,
    result: Settled,
) -> bool {
    exists|h: Handled| #[trigger]
        ran(state, tls, tag, command, args, second, before, after, now, h, result)
}

/// What a line does to a session: the session after it, what is written,
/// what is done, and the store after it.
pub open spec fn session_step(
    s: SessionView,
    raw: Seq<char>,
    before: StoreView,
    after: StoreView,
    now: Timestamp,
    result: Settled,
) -> bool {
    match s.waiting {
        WaitingView::Idle(tag) => after == before && if raw == "DONE\r\n"@ {
            result == (
                SessionView { waiting: WaitingView::Command, ..s },
                seq![encode_utf8(tag + " OK IDLE terminated\r\n"@)],
                SessionAction::Nothing,
            )
        } else {
            result == (s, Seq::<Seq<u8>>::empty(), SessionAction::Nothing)
        },
        WaitingView::Continuation { tag, command, args } => ran_command(
            s.state,
            s.tls,
            tag,
            command,
            continued_args(args, raw),
            true,
            before,
            after,
            now,
            result,
        ),
        WaitingView::Command => if raw == "\r\n"@ {
            after == before && result == (s, Seq::<Seq<u8>>::empty(), SessionAction::Nothing)
        } else {
            match command_line(raw) {
                Err(None) => after == before && result == (
                    s,
                    seq![encode_utf8(bad_line("*"@, ImapError::NoCommand))],
                    SessionAction::Nothing,
                ),
                Err(Some(tag)) => after == before && result == (
                    s,
                    seq![encode_utf8(bad_line(tag, ImapError::NoCommand))],
                    SessionAction::Nothing,
                ),
                Ok((tag, command, args)) => ran_command(
                    s.state,
                    s.tls,
                    tag,
                    command,
                    args,
                    false,
                    before,
                    after,
                    now,
                    result,
                ),
            }
        },
    }
}

fn refuse(tag: &str, e: ImapError) -> (r: Response)
    ensures
        byte_views(r@) == seq![encode_utf8(bad_line(tag@, e))],
{
    let mut line: Vec<char> = Vec::new();
    push_str(&mut line, tag);
    push_str(&mut line, " BAD ");
    push_str(&mut line, e.reason());
    push_str(&mut line, "\r\n");
    assert(line@ =~= bad_line(tag@, e));
    let mut out: Vec<Vec<u8>> = Vec::new();
    out.push(encode_line(line.as_slice()));
    assert(byte_views(out@) =~= seq![encode_utf8(bad_line(tag@, e))]);
    out
}

impl IMAP {
    /// A session that has just connected, over TLS or not.
    pub fn new(implicit_tls: bool) -> (r: IMAP)
        ensures
            r@ == (SessionView {
                state: IMAPState::NotAuthed,
                tls: implicit_tls,
                waiting: WaitingView::Command,
            }),
    {
        IMAP { state: IMAPState::NotAuthed, tls: implicit_tls, waiting: Waiting::Command }
    }

    /// The greeting.
    pub fn greet(&self) -> (r: Vec<u8>)
        ensures
            r@ == encode_utf8(GREETING@),
    {
        GREETING.as_bytes_vec()
    }

    /// Takes the session on from the outcome of a handler.
    pub fn settle(&mut self, tag: &str, command: &str, args: &str, outcome: Handled, second: bool) -> (r:
        (Response, SessionAction))
        ensures
            (final(self)@, byte_views(r.0@), r.1) == settled(
                old(self).state,
                old(self).tls,
                tag@,
                command@,
                args@,
                outcome,
                second,
            ),
    {
        self.waiting = Waiting::Command;
        match outcome {
            Err(e) => (refuse(tag, e), SessionAction::Nothing),
            Ok((resp, state, info)) => match info {
                ResponseInfo::Regular => {
                    self.state = state;
                    let action = match state {
                        IMAPState::Logout => SessionAction::Close,
                        _ => SessionAction::Nothing,
                    };
                    (resp, action)
                },
                ResponseInfo::PromoteToTls => {
                    self.state = state;
                    let action = if self.tls {
                        SessionAction::Nothing
                    } else {
                        SessionAction::UpgradeTls
                    };
                    self.tls = true;
                    (resp, action)
                },
                ResponseInfo::RedoForNextMsg => {
                    if second {
                        (refuse(tag, ImapError::SecondContinuation), SessionAction::Nothing)
                    } else {
                        self.state = state;
                        self.waiting = Waiting::Continuation(
                            Pending {
                                tag: chars_to_string(str_to_chars(tag).as_slice()),
                                command: chars_to_string(str_to_chars(command).as_slice()),
                                args: chars_to_string(str_to_chars(args).as_slice()),
                            },
                        );
                        (resp, SessionAction::Nothing)
                    }
                },
                ResponseInfo::Idle => {
                    self.state = state;
                    self.waiting = Waiting::Idle(chars_to_string(str_to_chars(tag).as_slice()));
                    (resp, SessionAction::Nothing)
                },
            },
        }
    }

    /// Runs a command and takes the session on from its outcome.
    pub fn run(
        &mut self,
        db: &mut DBClient,
        tag: &str,
        command: &str,
        args: &str,
        now: Timestamp,
        second: bool,
    ) -> (r: (Response, SessionAction))
        requires
            old(db).wf(),
        ensures
            final(db).wf(),
            final(db)@.users == old(db)@.users,
            ran_command(
                old(self).state,
                old(self).tls,
                tag@,
                command@,
                args@,
                second,
                old(db)@,
                final(db)@,
                now,
                (final(self)@, byte_views(r.0@), r.1),
            ),
    {
        let h = exec_command(command, tag, args, self.state, db, now);
        let r = self.settle(tag, command, args, h, second);
        proof {
            assert(ran(
                old(self).state,
                old(self).tls,
                tag@,
                command@,
                args@,
                second,
                old(db)@,
                db@,
                now,
                h,
                (self@, byte_views(r.0@), r.1),
            ));
        }
        r
    }

    /// Takes one line from the client: runs the command on it, or takes it
    /// as the continuation that the session waits for, and gives what to
    /// write and what to do.
    pub fn handle_imap(&mut self, db: &mut DBClient, raw_msg: &str, now: Timestamp) -> (r: (
        Response,
        SessionAction,
    ))
        requires
            old(db).wf(),
        ensures
            final(db).wf(),
            final(db)@.users == old(db)@.users,
            session_step(
                old(self)@,
                raw_msg@,
                old(db)@,
                final(db)@,
                now,
                (final(self)@, byte_views(r.0@), r.1),
            ),
    {
        let raw = str_to_chars(raw_msg);
        let mut waiting = Waiting::Command;
        std::mem::swap(&mut waiting, &mut self.waiting);
        match waiting {
            Waiting::Idle(tag) => {
                if eq_str(raw.as_slice(), "DONE\r\n") {
                    let mut out: Vec<Vec<u8>> = Vec::new();
                    let line = tagged(tag.as_str(), " OK IDLE terminated\r\n");
                    out.push(encode_line(line.as_slice()));
                    assert(byte_views(out@) =~= seq![encode_utf8(tag@ + " OK IDLE terminated\r\n"@)]);
                    (out, SessionAction::Nothing)
                } else {
                    self.waiting = Waiting::Idle(tag);
                    let out: Vec<Vec<u8>> = Vec::new();
                    assert(byte_views(out@) =~= Seq::<Seq<u8>>::empty());
                    (out, SessionAction::Nothing)
                }
            },
            Waiting::Continuation(p) => {
                let old_args = str_to_chars(p.args.as_str());
                let mut args: Vec<char> = if has_suffix(old_args.as_slice(), "\r\n") {
                    proof {
                        reveal_strlit("\r\n");
                    }
                    copy_range(old_args.as_slice(), 0, old_args.len() - 2)
                } else {
                    old_args
                };
                push_str(&mut args, " ");
                push_chars(&mut args, raw.as_slice());
                assert(args@ =~= continued_args(p.args@, raw_msg@));
                let args_text = chars_to_string(args.as_slice());
                let r = self.run(
                    db,
                    p.tag.as_str(),
                    p.command.as_str(),
                    args_text.as_str(),
                    now,
                    true,
                );
                r
            },
            Waiting::Command => {
                if eq_str(raw.as_slice(), "\r\n") {
                    let out: Vec<Vec<u8>> = Vec::new();
                    assert(byte_views(out@) =~= Seq::<Seq<u8>>::empty());
                    return (out, SessionAction::Nothing);
                }
                let (tag, rest) = match split_once_char(raw.as_slice(), ' ') {
                    Some(p) => p,
                    None => {
                        return (refuse("*", ImapError::NoCommand), SessionAction::Nothing);
                    },
                };
                let tag_text = chars_to_string(tag.as_slice());
                let (command, args) = match split_once_char(rest.as_slice(), ' ') {
                    Some(p) => p,
                    None => match split_once_str(rest.as_slice(), "\r\n") {
                        Some(p) => p,
                        None => {
                            return (
                                refuse(tag_text.as_str(), ImapError::NoCommand),
                                SessionAction::Nothing,
                            );
                        },
                    },
                };
                assert(command_line(raw_msg@) == Ok::<
                    (Seq<char>, Seq<char>, Seq<char>),
                    Option<Seq<char>>,
                >((tag@, command@, args@)));
                let command_text = chars_to_string(command.as_slice());
                let args_text = chars_to_string(args.as_slice());
                let r = self.run(
                    db,
                    tag_text.as_str(),
                    command_text.as_str(),
                    args_text.as_str(),
                    now,
                    false,
                );
                r
            },
        }
    }

    /// A notification from the store: forwarded to the client where the
    /// session waits in IDLE, and left alone otherwise.
    pub fn on_change(&self, notice: &str) -> (r: Option<Vec<u8>>)
        ensures
            match self.waiting@ {
                WaitingView::Idle(_) => r is Some && r->0@ == encode_utf8(notice@),
                _ => r is None,
            },
    {
        match &self.waiting {
            Waiting::Idle(_) => Some(notice.as_bytes_vec()),
            _ => None,
        }
    }

    /// The idle wait has seen no traffic for `IDLE_TIMEOUT_SECS`: the
    /// session says so and ends. Nothing happens where the session does
    /// not wait in IDLE.
    pub fn on_idle_timeout(&mut self) -> (r: (Response, SessionAction))
        ensures
            match old(self).waiting@ {
                WaitingView::Idle(_) => final(self)@ == (SessionView {
                    state: IMAPState::Logout,
                    tls: old(self).tls,
                    waiting: WaitingView::Command,
                }) && byte_views(r.0@) == seq![encode_utf8(IDLE_TIMED_OUT@)] && r.1
                    == SessionAction::Close,
                _ => final(self)@ == old(self)@ && r.0@.len() == 0 && r.1 == SessionAction::Nothing,
            },
    {
        let idle = match &self.waiting {
            Waiting::Idle(_) => true,
            _ => false,
        };
        let mut out: Vec<Vec<u8>> = Vec::new();
        if idle {
            self.waiting = Waiting::Command;
            self.state = IMAPState::Logout;
            out.push(IDLE_TIMED_OUT.as_bytes_vec());
            assert(byte_views(out@) =~= seq![encode_utf8(IDLE_TIMED_OUT@)]);
            (out, SessionAction::Close)
        } else {
            (out, SessionAction::Nothing)
        }
    }

    /// The client has closed the connection: the session is logged out.
    pub fn on_eof(&mut self) -> (r: SessionAction)
        ensures
            r == SessionAction::Close,
            final(self)@ == (SessionView {
                state: IMAPState::Logout,
                tls: old(self).tls,
                waiting: WaitingView::Command,
            }),
    {
        self.state = IMAPState::Logout;
        self.waiting = Waiting::Command;
        SessionAction::Close
    }
}

} // verus!
