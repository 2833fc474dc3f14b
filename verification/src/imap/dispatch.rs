//! The IMAP dispatcher: what a command needs from storage and
//! authentication before it can be answered, and the lines and the next
//! state that answer it.

use vstd::prelude::*;
use vstd::string::StringExecFns;
use crate::config::Config;
use crate::imap::command::{tagged, tagged_line, tagged_reply, CommandData, CommandView, Commands};
use crate::imap::create::{create_lines, create_target, Create};
use crate::imap::fetch::{arguments_of, fetch_arguments};
use crate::imap::state::{
    is_allowed, not_allowed, Connection, ConnectionView, Data, State, StateView,
};
use crate::imap::uid::{is_subcommand, mail_views, uid_lines, uid_mails, Uid};
use crate::mail::{MailEntry, MailEntryView};
use crate::mailbox::{
    disk_folder, disk_name, is_disk_folder, is_disk_name, wire_folder, wire_name, MailboxRef,
};
use crate::reply::{Action, Reply};
use crate::sasl::{plain_credentials, read_plain, AuthOutcome, AuthView};
use crate::text::{
    chars_of, decimal, is_match, is_text, is_word, join, join_from, matches_pattern, push_decimal,
    same_text, unquote, unquoted,
};

verus! {

/// The numbers that a mailbox is opened with.
#[derive(Clone, Copy, Debug, PartialEq, Eq, Structural)]
pub struct MailboxStatus {
    pub exists: u32,
    pub recent: u32,
    pub uid_validity: u32,
    pub uid_next: u32,
}

/// What a command needs from outside before it can be answered.
#[derive(Clone, Debug)]
pub enum Demand {
    Nothing,
    /// The verdict of the authentication backend.
    Verify { user: String, password: String },
    /// The names of the user's folders on disk.
    Folders { user: String },
    /// The status of a mailbox; `read_only` where nothing on disk may change.
    Status { mailbox: MailboxRef, read_only: bool },
    /// The messages of a mailbox.
    Mails { mailbox: MailboxRef },
    /// The making of a folder, marked for deleted mail where `trash` is set.
    CreateFolder { mailbox: MailboxRef, trash: bool },
}

/// What a `Demand` stands for.
pub enum DemandView {
    Nothing,
    Verify { user: Seq<char>, password: Seq<char> },
    Folders { user: Seq<char> },
    Status { mailbox: (Seq<char>, Seq<char>), read_only: bool },
    Mails { mailbox: (Seq<char>, Seq<char>) },
    CreateFolder { mailbox: (Seq<char>, Seq<char>), trash: bool },
}

impl View for Demand {
    type V = DemandView;

    open spec fn view(&self) -> DemandView {
        match self {
            Demand::Nothing => DemandView::Nothing,
            Demand::Verify { user, password } => DemandView::Verify {
                user: user@,
                password: password@,
            },
            Demand::Folders { user } => DemandView::Folders { user: user@ },
            Demand::Status { mailbox, read_only } => DemandView::Status {
                mailbox: mailbox@,
                read_only: *read_only,
            },
            Demand::Mails { mailbox } => DemandView::Mails { mailbox: mailbox@ },
            Demand::CreateFolder { mailbox, trash } => DemandView::CreateFolder {
                mailbox: mailbox@,
                trash: *trash,
            },
        }
    }
}

/// What came back from outside. `Status(None)` says that the mailbox does
/// not exist, `Created(false)` that the folder could not be made.
#[derive(Clone, Debug)]
pub enum Supply {
    Nothing,
    Verified(AuthOutcome),
    Folders(Vec<String>),
    Status(Option<MailboxStatus>),
    Mails(Vec<MailEntry>),
    Created(bool),
}

/// What a `Supply` stands for.
pub enum SupplyView {
    Nothing,
    Verified(AuthView),
    Folders(Seq<Seq<char>>),
    Status(Option<MailboxStatus>),
    Mails(Seq<MailEntryView>),
    Created(bool),
}

impl View for Supply {
    type V = SupplyView;

    open spec fn view(&self) -> SupplyView {
        match self {
            Supply::Nothing => SupplyView::Nothing,
            Supply::Verified(outcome) => SupplyView::Verified(outcome@),
            Supply::Folders(folders) => SupplyView::Folders(folders.deep_view()),
            Supply::Status(status) => SupplyView::Status(*status),
            Supply::Mails(mails) => SupplyView::Mails(mail_views(mails@)),
            Supply::Created(created) => SupplyView::Created(*created),
        }
    }
}

/// An answer and the state that the connection is left in.
pub struct Outcome {
    pub con: ConnectionView,
    pub lines: Seq<Seq<char>>,
    pub action: Action,
}

/// The capabilities that the server announces. `LOGINDISABLED` is among
/// them exactly when the connection has no TLS and the settings forbid a
/// login without it.
pub open spec fn capabilities(secure: bool, allow_plaintext: bool) -> Seq<char> {
    "CAPABILITY IMAP4rev1 IMAP4rev2 STARTTLS AUTH=PLAIN"@ + (if !secure && !allow_plaintext {
        " LOGINDISABLED"@
    } else {
        Seq::empty()
    })
}

/// The line that greets a client.
pub open spec fn greeting_line(secure: bool, allow_plaintext: bool) -> Seq<char> {
    "* OK ["@ + capabilities(secure, allow_plaintext) + "] IMAP4rev1/IMAP4rev2 Service Ready"@
}

/// One tagged line, and the connection as it was.
pub open spec fn say(con: ConnectionView, command: CommandView, text: Seq<char>) -> Outcome {
    Outcome { con, lines: seq![tagged(command.tag, text)], action: Action::Continue }
}

/// The answer where what came back from outside is not what was asked for:
/// an untagged line that names the fault, the completion of the command,
/// and the connection is given up.
pub open spec fn bug(con: ConnectionView, command: CommandView) -> Outcome {
    Outcome {
        con: ConnectionView { state: StateView::Logout, ..con },
        lines: seq![
            "* BAD [SERVERBUG] This should not happen"@,
            tagged(command.tag, "BAD Command failed"@),
        ],
        action: Action::Close,
    }
}

/// Whether a LOGIN command can be handed to the authentication backend.
pub open spec fn login_ready(con: ConnectionView, command: CommandView, allow_plaintext: bool)
    -> bool {
    (con.secure || allow_plaintext) && command.arguments.len() == 2
}

pub open spec fn login_outcome(
    con: ConnectionView,
    command: CommandView,
    supply: SupplyView,
    allow_plaintext: bool,
) -> Outcome {
    if !(con.secure || allow_plaintext) {
        say(con, command, "NO [PRIVACYREQUIRED] Plaintext login is disabled"@)
    } else if command.arguments.len() != 2 {
        say(con, command, "BAD Unable to parse"@)
    } else {
        match supply {
            SupplyView::Verified(AuthView::Accepted(identity)) => Outcome {
                con: ConnectionView {
                    state: StateView::Authenticated,
                    username: Some(identity),
                    ..con
                },
                lines: seq![tagged(command.tag, "OK LOGIN completed"@)],
                action: Action::Continue,
            },
            SupplyView::Verified(AuthView::BadCredentials) => say(
                con,
                command,
                "NO LOGIN failed"@,
            ),
            SupplyView::Verified(AuthView::Unavailable) => say(
                con,
                command,
                "NO [UNAVAILABLE] LOGIN failed"@,
            ),
            _ => bug(con, command),
        }
    }
}

/// The user and the password of an AUTHENTICATE command: the mechanism is
/// PLAIN and its response stands in the command.
pub open spec fn authenticate_credentials(
    con: ConnectionView,
    command: CommandView,
    allow_plaintext: bool,
) -> Option<(Seq<char>, Seq<char>)> {
    if (con.secure || allow_plaintext) && command.arguments.len() == 2 && same_text(
        command.arguments[0],
        "PLAIN"@,
    ) {
        plain_credentials(command.arguments[1])
    } else {
        None
    }
}

pub open spec fn authenticate_outcome(
    con: ConnectionView,
    command: CommandView,
    supply: SupplyView,
    allow_plaintext: bool,
) -> Outcome {
    if !(con.secure || allow_plaintext) {
        say(con, command, "NO [PRIVACYREQUIRED] Plaintext login is disabled"@)
    } else if command.arguments.len() != 2 {
        say(con, command, "BAD Unable to parse"@)
    } else if !same_text(command.arguments[0], "PLAIN"@) {
        say(con, command, "NO Unsupported authentication mechanism"@)
    } else if plain_credentials(command.arguments[1]) is None {
        say(con, command, "BAD Unable to parse"@)
    } else {
        match supply {
            SupplyView::Verified(AuthView::Accepted(identity)) => Outcome {
                con: ConnectionView {
                    state: StateView::Authenticated,
                    username: Some(identity),
                    ..con
                },
                lines: seq![tagged(command.tag, "OK AUTHENTICATE completed"@)],
                action: Action::Continue,
            },
            SupplyView::Verified(AuthView::BadCredentials) => say(
                con,
                command,
                "NO AUTHENTICATE failed"@,
            ),
            SupplyView::Verified(AuthView::Unavailable) => say(
                con,
                command,
                "NO [UNAVAILABLE] AUTHENTICATE failed"@,
            ),
            _ => bug(con, command),
        }
    }
}

/// The line that lists the mailbox `name`.
pub open spec fn list_line(name: Seq<char>) -> Seq<char> {
    "* LIST (\\HasNoChildren) \"/\" \""@ + name + "\""@
}

/// Whether a folder on disk is listed for `pattern` behind `INBOX`.
pub open spec fn is_listed_folder(pattern: Seq<char>, folder: Seq<char>) -> bool {
    folder != "INBOX"@ && is_disk_name(folder) && matches_pattern(pattern, wire_name(folder))
}

/// The lines for the folders other than `INBOX`, in the order of `folders`.
pub open spec fn folder_lines(pattern: Seq<char>, folders: Seq<Seq<char>>) -> Seq<Seq<char>>
    decreases folders.len(),
{
    if folders.len() == 0 {
        seq![]
    } else {
        let before = folder_lines(pattern, folders.drop_last());
        if is_listed_folder(pattern, folders.last()) {
            before.push(list_line(wire_name(folders.last())))
        } else {
            before
        }
    }
}

/// The lines of a listing: `INBOX` first, where the pattern matches it, then
/// the user's folders that the pattern matches.
pub open spec fn list_lines(pattern: Seq<char>, folders: Seq<Seq<char>>) -> Seq<Seq<char>> {
    (if matches_pattern(pattern, "INBOX"@) {
        seq![list_line("INBOX"@)]
    } else {
        seq![]
    }) + folder_lines(pattern, folders)
}

/// The pattern of a LIST command: its reference and its mailbox name, both
/// without their quotes, one after the other.
pub open spec fn list_pattern(command: CommandView) -> Seq<char> {
    unquoted(command.arguments[0]) + unquoted(command.arguments[1])
}

pub open spec fn list_outcome(con: ConnectionView, command: CommandView, supply: SupplyView)
    -> Outcome {
    if command.arguments.len() != 2 {
        say(con, command, "BAD Unable to parse"@)
    } else {
        match supply {
            SupplyView::Folders(folders) => Outcome {
                con,
                lines: list_lines(list_pattern(command), folders).push(
                    tagged(command.tag, "OK LIST completed"@),
                ),
                action: Action::Continue,
            },
            _ => bug(con, command),
        }
    }
}

/// Whether a SELECT or EXAMINE command names a mailbox.
pub open spec fn select_ready(command: CommandView) -> bool {
    command.arguments.len() == 1 && unquoted(command.arguments[0]).len() > 0
}

/// The lines that open a mailbox.
pub open spec fn select_lines(tag: Seq<char>, status: MailboxStatus, read_only: bool) -> Seq<
    Seq<char>,
> {
    seq![
        "* "@ + decimal(status.exists as nat) + " EXISTS"@,
        "* "@ + decimal(status.recent as nat) + " RECENT"@,
        "* OK [UIDVALIDITY "@ + decimal(status.uid_validity as nat) + "] UIDs valid"@,
        "* OK [UIDNEXT "@ + decimal(status.uid_next as nat) + "] Predicted next UID"@,
        "* FLAGS (\\Answered \\Flagged \\Deleted \\Seen \\Draft)"@,
        "* OK [PERMANENTFLAGS (\\Answered \\Flagged \\Deleted \\Seen \\Draft)] Flags permitted"@,
        tagged(
            tag,
            if read_only {
                "OK [READ-ONLY] SELECT completed"@
            } else {
                "OK [READ-WRITE] SELECT completed"@
            },
        ),
    ]
}

pub open spec fn select_outcome(
    con: ConnectionView,
    command: CommandView,
    supply: SupplyView,
    read_only: bool,
) -> Outcome {
    if !select_ready(command) {
        say(con, command, "BAD Unable to parse"@)
    } else {
        match supply {
            SupplyView::Status(Some(status)) => Outcome {
                con: ConnectionView {
                    state: StateView::Selected(unquoted(command.arguments[0]), status.uid_validity),
                    ..con
                },
                lines: select_lines(command.tag, status, read_only),
                action: Action::Continue,
            },
            SupplyView::Status(None) => say(con, command, "NO [TRYCREATE] No such mailbox"@),
            _ => bug(con, command),
        }
    }
}

pub open spec fn create_outcome(con: ConnectionView, command: CommandView, supply: SupplyView)
    -> Outcome {
    if create_target(con, command) is None {
        Outcome { con, lines: create_lines(con, command, false), action: Action::Continue }
    } else {
        match supply {
            SupplyView::Created(created) => Outcome {
                con,
                lines: create_lines(con, command, created),
                action: Action::Continue,
            },
            _ => bug(con, command),
        }
    }
}

/// The mailbox whose messages a UID command needs: that of a `UID FETCH`
/// with a UID set and data items that can be read, in a session with a
/// selected mailbox.
pub open spec fn uid_target(con: ConnectionView, command: CommandView) -> Option<
    (Seq<char>, Seq<char>),
> {
    if is_subcommand(command, "fetch"@) && con.state is Selected && con.username is Some
        && command.arguments.len() >= 3 && arguments_of(join(command.arguments.skip(2), " "@))
        is Some {
        Some((con.username->0, disk_name(con.state->Selected_0)))
    } else {
        None
    }
}

pub open spec fn uid_outcome(con: ConnectionView, command: CommandView, supply: SupplyView)
    -> Outcome {
    match supply {
        SupplyView::Mails(mails) => Outcome {
            con,
            lines: uid_lines(con, command, mails),
            action: Action::Continue,
        },
        _ => if uid_target(con, command) is Some {
            bug(con, command)
        } else {
            Outcome { con, lines: uid_lines(con, command, seq![]), action: Action::Continue }
        },
    }
}

/// What the command needs from outside before it can be answered.
pub open spec fn needed(con: ConnectionView, command: CommandView, allow_plaintext: bool)
    -> DemandView {
    if !is_allowed(command.command, con.state) {
        DemandView::Nothing
    } else {
        match command.command {
            Commands::Login => if login_ready(con, command, allow_plaintext) {
                DemandView::Verify {
                    user: unquoted(command.arguments[0]),
                    password: unquoted(command.arguments[1]),
                }
            } else {
                DemandView::Nothing
            },
            Commands::Authenticate => match authenticate_credentials(
                con,
                command,
                allow_plaintext,
            ) {
                Some((user, password)) => DemandView::Verify { user, password },
                None => DemandView::Nothing,
            },
            Commands::List => if command.arguments.len() == 2 && con.username is Some {
                DemandView::Folders { user: con.username->0 }
            } else {
                DemandView::Nothing
            },
            Commands::Select | Commands::Examine => if select_ready(command) && con.username
                is Some {
                DemandView::Status {
                    mailbox: (con.username->0, disk_name(command.arguments[0])),
                    read_only: command.command is Examine,
                }
            } else {
                DemandView::Nothing
            },
            Commands::Create => match create_target(con, command) {
                Some((mailbox, trash)) => DemandView::CreateFolder { mailbox, trash },
                None => DemandView::Nothing,
            },
            Commands::Uid => match uid_target(con, command) {
                Some(mailbox) => DemandView::Mails { mailbox },
                None => DemandView::Nothing,
            },
            _ => DemandView::Nothing,
        }
    }
}

/// The answer to a command and the state that it leaves, given what came
/// back from outside. A command that is not legal in the state of the
/// session is refused with the name of the state.
pub open spec fn outcome(
    con: ConnectionView,
    command: CommandView,
    supply: SupplyView,
    allow_plaintext: bool,
) -> Outcome {
    if !is_allowed(command.command, con.state) {
        Outcome { con, lines: seq![not_allowed(command.tag, con.state)], action: Action::Continue }
    } else {
        match command.command {
            Commands::Capability => Outcome {
                con,
                lines: seq![
                    "* "@ + capabilities(con.secure, allow_plaintext),
                    tagged(command.tag, "OK CAPABILITY completed"@),
                ],
                action: Action::Continue,
            },
            Commands::Noop => say(con, command, "OK NOOP completed"@),
            Commands::Check => say(con, command, "OK CHECK completed"@),
            Commands::Logout => Outcome {
                con: ConnectionView { state: StateView::Logout, ..con },
                lines: seq![
                    "* BYE Server logging out"@,
                    tagged(command.tag, "OK LOGOUT completed"@),
                ],
                action: Action::Close,
            },
            Commands::StartTls => if con.secure {
                say(con, command, "BAD TLS is already active"@)
            } else {
                Outcome {
                    con,
                    lines: seq![tagged(command.tag, "OK Begin TLS negotiation now"@)],
                    action: Action::Upgrade,
                }
            },
            Commands::Login => login_outcome(con, command, supply, allow_plaintext),
            Commands::Authenticate => authenticate_outcome(con, command, supply, allow_plaintext),
            Commands::List => list_outcome(con, command, supply),
            Commands::Select => select_outcome(con, command, supply, false),
            Commands::Examine => select_outcome(con, command, supply, true),
            Commands::Create => create_outcome(con, command, supply),
            Commands::Close => Outcome {
                con: ConnectionView { state: StateView::Authenticated, ..con },
                lines: seq![tagged(command.tag, "OK CLOSE completed"@)],
                action: Action::Continue,
            },
            Commands::Unselect => Outcome {
                con: ConnectionView { state: StateView::Authenticated, ..con },
                lines: seq![tagged(command.tag, "OK UNSELECT completed"@)],
                action: Action::Continue,
            },
            Commands::Uid => uid_outcome(con, command, supply),
            _ => say(con, command, "BAD Not supported"@),
        }
    }
}

/// What came back from outside as the command leaves it: the messages that
/// a UID command was answered from are as that command leaves them.
pub open spec fn supply_after(con: ConnectionView, command: CommandView, supply: SupplyView)
    -> SupplyView {
    match supply {
        SupplyView::Mails(mails) => if command.command is Uid && is_allowed(
            command.command,
            con.state,
        ) {
            SupplyView::Mails(uid_mails(con, command, mails))
        } else {
            supply
        },
        _ => supply,
    }
}

/// The session when the server ends it, for a shutdown, an idle client or
/// bytes that are no line: one untagged line, and the end.
pub open spec fn ended(con: ConnectionView, text: Seq<char>) -> Outcome {
    Outcome {
        con: ConnectionView { state: StateView::Logout, ..con },
        lines: seq!["* "@ + text],
        action: Action::Close,
    }
}

/// The state after a TLS negotiation: a session that starts anew on a
/// secure connection where it succeeded, and the end of the session where
/// it failed.
pub open spec fn after_upgrade(con: ConnectionView, succeeded: bool) -> ConnectionView {
    if succeeded {
        ConnectionView { state: StateView::NotAuthenticated, secure: true, username: None }
    } else {
        ConnectionView { state: StateView::Logout, ..con }
    }
}


/// The capabilities that the server announces.
pub fn capability_text(secure: bool, allow_plaintext: bool) -> (r: String)
    ensures
        r@ == capabilities(secure, allow_plaintext),
{
    let mut r = String::from_str("CAPABILITY IMAP4rev1 IMAP4rev2 STARTTLS AUTH=PLAIN");
    if !secure && !allow_plaintext {
        r.append(" LOGINDISABLED");
    } else {
        assert(r@ + Seq::<char>::empty() =~= r@);
    }
    r
}

/// The line that greets a client, sent once when the connection is accepted.
pub fn greeting(secure: bool, allow_plaintext: bool) -> (r: String)
    ensures
        r@ == greeting_line(secure, allow_plaintext),
{
    let mut r = String::from_str("* OK [");
    r.append(capability_text(secure, allow_plaintext).as_str());
    r.append("] IMAP4rev1/IMAP4rev2 Service Ready");
    r
}

fn list_text(name: &str) -> (r: String)
    ensures
        r@ == list_line(name@),
{
    let mut r = String::from_str("* LIST (\\HasNoChildren) \"/\" \"");
    r.append(name);
    r.append("\"");
    r
}

/// The lines of a listing.
fn list_reply(pattern: &Vec<char>, folders: &Vec<String>) -> (lines: Vec<String>)
    ensures
        lines.deep_view() == list_lines(pattern@, folders.deep_view()),
{
    let mut lines: Vec<String> = Vec::new();
    if is_match(pattern, &chars_of("INBOX")) {
        lines.push(list_text("INBOX"));
    }
    let ghost head = lines.deep_view();
    let ghost all = folders.deep_view();
    assert(head =~= if matches_pattern(pattern@, "INBOX"@) {
        seq![list_line("INBOX"@)]
    } else {
        seq![]
    });
    let mut i: usize = 0;
    assert(lines.deep_view() =~= head + folder_lines(pattern@, all.take(0)));
    while i < folders.len()
        invariant
            i <= folders.len(),
            all == folders.deep_view(),
            lines.deep_view() == head + folder_lines(pattern@, all.take(i as int)),
        decreases folders.len() - i,
    {
        proof {
            assert(all.take(i + 1).drop_last() =~= all.take(i as int));
            assert(all.take(i + 1).last() == folders@[i as int]@);
        }
        let folder = folders[i].as_str();
        let ghost before = lines.deep_view();
        if !is_text(&chars_of(folder), "INBOX") && is_disk_folder(folder) {
            let name = wire_folder(folder);
            if is_match(pattern, &chars_of(name.as_str())) {
                let line = list_text(name.as_str());
                lines.push(line);
                assert(lines.deep_view() =~= before.push(line@));
            }
        }
        assert(lines.deep_view() =~= head + folder_lines(pattern@, all.take(i + 1)));
        i += 1;
    }
    assert(all.take(folders.len() as int) =~= all);
    lines
}

fn numbered_line(head: &str, n: u32, tail: &str) -> (r: String)
    ensures
        r@ == head@ + decimal(n as nat) + tail@,
{
    let mut r = String::from_str(head);
    push_decimal(&mut r, n as u64);
    r.append(tail);
    r
}

/// The lines that open a mailbox.
fn select_reply(tag: &String, status: MailboxStatus, read_only: bool) -> (lines: Vec<String>)
    ensures
        lines.deep_view() == select_lines(tag@, status, read_only),
{
    let mut lines: Vec<String> = Vec::new();
    lines.push(numbered_line("* ", status.exists, " EXISTS"));
    lines.push(numbered_line("* ", status.recent, " RECENT"));
    lines.push(numbered_line("* OK [UIDVALIDITY ", status.uid_validity, "] UIDs valid"));
    lines.push(numbered_line("* OK [UIDNEXT ", status.uid_next, "] Predicted next UID"));
    lines.push(String::from_str("* FLAGS (\\Answered \\Flagged \\Deleted \\Seen \\Draft)"));
    lines.push(
        String::from_str(
            "* OK [PERMANENTFLAGS (\\Answered \\Flagged \\Deleted \\Seen \\Draft)] Flags permitted",
        ),
    );
    if read_only {
        lines.push(tagged_line(tag, "OK [READ-ONLY] SELECT completed"));
    } else {
        lines.push(tagged_line(tag, "OK [READ-WRITE] SELECT completed"));
    }
    assert(lines.deep_view() =~= select_lines(tag@, status, read_only));
    lines
}

/// What an optional mailbox stands for.
pub open spec fn mailbox_view(mailbox: Option<MailboxRef>) -> Option<(Seq<char>, Seq<char>)> {
    match mailbox {
        Some(m) => Some(m@),
        None => None,
    }
}

impl Data {
    /// The mailbox whose messages a UID command needs.
    fn uid_mailbox(&self, command: &CommandData) -> (r: Option<MailboxRef>)
        ensures
            mailbox_view(r) == uid_target(self.con_state@, command@),
    {
        if command.arguments.len() < 3 || !is_word(
            &chars_of(command.arguments[0].as_str()),
            "fetch",
        ) {
            return None;
        }
        match &self.con_state.state {
            State::Selected(folder, _) => match &self.con_state.username {
                Some(user) => {
                    let text = join_from(&command.arguments, 2, " ");
                    if fetch_arguments(text.as_str()).is_some() {
                        Some(
                            MailboxRef {
                                username: user.clone(),
                                folder: disk_folder(folder.as_str()),
                            },
                        )
                    } else {
                        None
                    }
                },
                None => None,
            },
            _ => None,
        }
    }

    /// What the command needs from outside before `exec` can answer it.
    pub fn demand(&self, command: &CommandData, config: &Config) -> (d: Demand)
        ensures
            d@ == needed(self.con_state@, command@, config.allow_plaintext),
    {
        if !self.is_legal(command.command) {
            return Demand::Nothing;
        }
        match command.command {
            Commands::Login => {
                if (self.con_state.secure || config.allow_plaintext) && command.arguments.len()
                    == 2 {
                    Demand::Verify {
                        user: unquote(command.arguments[0].as_str()),
                        password: unquote(command.arguments[1].as_str()),
                    }
                } else {
                    Demand::Nothing
                }
            },
            Commands::Authenticate => {
                if (self.con_state.secure || config.allow_plaintext) && command.arguments.len()
                    == 2 && is_word(&chars_of(command.arguments[0].as_str()), "PLAIN") {
                    match read_plain(command.arguments[1].as_str()) {
                        Some(credentials) => Demand::Verify {
                            user: credentials.user,
                            password: credentials.password,
                        },
                        None => Demand::Nothing,
                    }
                } else {
                    Demand::Nothing
                }
            },
            Commands::List => match &self.con_state.username {
                Some(user) => if command.arguments.len() == 2 {
                    Demand::Folders { user: user.clone() }
                } else {
                    Demand::Nothing
                },
                None => Demand::Nothing,
            },
            Commands::Select | Commands::Examine => match &self.con_state.username {
                Some(user) => if command.arguments.len() == 1 && unquote(
                    command.arguments[0].as_str(),
                ).as_str().unicode_len() > 0 {
                    Demand::Status {
                        mailbox: MailboxRef {
                            username: user.clone(),
                            folder: disk_folder(command.arguments[0].as_str()),
                        },
                        read_only: match command.command {
                            Commands::Examine => true,
                            _ => false,
                        },
                    }
                } else {
                    Demand::Nothing
                },
                None => Demand::Nothing,
            },
            Commands::Create => {
                let create = Create { data: self };
                match create.target(command) {
                    Some((mailbox, trash)) => Demand::CreateFolder { mailbox, trash },
                    None => Demand::Nothing,
                }
            },
            Commands::Uid => match self.uid_mailbox(command) {
                Some(mailbox) => Demand::Mails { mailbox },
                None => Demand::Nothing,
            },
            _ => Demand::Nothing,
        }
    }

    fn say(&self, command: &CommandData, text: &str) -> (reply: Reply)
        ensures
            reply.lines.deep_view() == say(self.con_state@, command@, text@).lines,
            reply.action == Action::Continue,
    {
        Reply { lines: tagged_reply(&command.tag, text), action: Action::Continue }
    }

    fn bug(&mut self, command: &CommandData) -> (reply: Reply)
        ensures
            reply.lines.deep_view() == bug(old(self).con_state@, command@).lines,
            reply.action == bug(old(self).con_state@, command@).action,
            final(self).con_state@ == bug(old(self).con_state@, command@).con,
    {
        self.con_state.state = State::Logout;
        let mut lines: Vec<String> = Vec::new();
        lines.push(String::from_str("* BAD [SERVERBUG] This should not happen"));
        lines.push(tagged_line(&command.tag, "BAD Command failed"));
        assert(lines.deep_view() =~= bug(old(self).con_state@, command@).lines);
        Reply { lines, action: Action::Close }
    }

    fn login(&mut self, command: &CommandData, supply: &Supply, config: &Config) -> (reply: Reply)
        ensures
            ({
                let o = login_outcome(
                    old(self).con_state@,
                    command@,
                    supply@,
                    config.allow_plaintext,
                );
                &&& reply.lines.deep_view() == o.lines
                &&& reply.action == o.action
                &&& final(self).con_state@ == o.con
            }),
    {
        if !(self.con_state.secure || config.allow_plaintext) {
            self.say(command, "NO [PRIVACYREQUIRED] Plaintext login is disabled")
        } else if command.arguments.len() != 2 {
            self.say(command, "BAD Unable to parse")
        } else {
            match supply {
                Supply::Verified(AuthOutcome::Accepted(identity)) => {
                    self.con_state.state = State::Authenticated;
                    self.con_state.username = Some(identity.clone());
                    self.say(command, "OK LOGIN completed")
                },
                Supply::Verified(AuthOutcome::BadCredentials) => self.say(
                    command,
                    "NO LOGIN failed",
                ),
                Supply::Verified(AuthOutcome::Unavailable) => self.say(
                    command,
                    "NO [UNAVAILABLE] LOGIN failed",
                ),
                _ => self.bug(command),
            }
        }
    }

    fn authenticate(&mut self, command: &CommandData, supply: &Supply, config: &Config) -> (reply:
        Reply)
        ensures
            ({
                let o = authenticate_outcome(
                    old(self).con_state@,
                    command@,
                    supply@,
                    config.allow_plaintext,
                );
                &&& reply.lines.deep_view() == o.lines
                &&& reply.action == o.action
                &&& final(self).con_state@ == o.con
            }),
    {
        if !(self.con_state.secure || config.allow_plaintext) {
            self.say(command, "NO [PRIVACYREQUIRED] Plaintext login is disabled")
        } else if command.arguments.len() != 2 {
            self.say(command, "BAD Unable to parse")
        } else if !is_word(&chars_of(command.arguments[0].as_str()), "PLAIN") {
            self.say(command, "NO Unsupported authentication mechanism")
        } else if read_plain(command.arguments[1].as_str()).is_none() {
            self.say(command, "BAD Unable to parse")
        } else {
            match supply {
                Supply::Verified(AuthOutcome::Accepted(identity)) => {
                    self.con_state.state = State::Authenticated;
                    self.con_state.username = Some(identity.clone());
                    self.say(command, "OK AUTHENTICATE completed")
                },
                Supply::Verified(AuthOutcome::BadCredentials) => self.say(
                    command,
                    "NO AUTHENTICATE failed",
                ),
                Supply::Verified(AuthOutcome::Unavailable) => self.say(
                    command,
                    "NO [UNAVAILABLE] AUTHENTICATE failed",
                ),
                _ => self.bug(command),
            }
        }
    }

    fn list(&mut self, command: &CommandData, supply: &Supply) -> (reply: Reply)
        ensures
            ({
                let o = list_outcome(old(self).con_state@, command@, supply@);
                &&& reply.lines.deep_view() == o.lines
                &&& reply.action == o.action
                &&& final(self).con_state@ == o.con
            }),
    {
        if command.arguments.len() != 2 {
            self.say(command, "BAD Unable to parse")
        } else {
            match supply {
                Supply::Folders(folders) => {
                    let mut pattern = unquote(command.arguments[0].as_str());
                    pattern.append(unquote(command.arguments[1].as_str()).as_str());
                    let mut lines = list_reply(&chars_of(pattern.as_str()), folders);
                    let ghost before = lines.deep_view();
                    let done = tagged_line(&command.tag, "OK LIST completed");
                    lines.push(done);
                    assert(lines.deep_view() =~= before.push(done@));
                    Reply { lines, action: Action::Continue }
                },
                _ => self.bug(command),
            }
        }
    }

    fn select(&mut self, command: &CommandData, supply: &Supply, read_only: bool) -> (reply: Reply)
        ensures
            ({
                let o = select_outcome(old(self).con_state@, command@, supply@, read_only);
                &&& reply.lines.deep_view() == o.lines
                &&& reply.action == o.action
                &&& final(self).con_state@ == o.con
            }),
    {
        if command.arguments.len() != 1 {
            return self.say(command, "BAD Unable to parse");
        }
        let name = unquote(command.arguments[0].as_str());
        if name.as_str().unicode_len() == 0 {
            return self.say(command, "BAD Unable to parse");
        }
        match supply {
            Supply::Status(Some(status)) => {
                self.con_state.state = State::Selected(name, status.uid_validity);
                Reply {
                    lines: select_reply(&command.tag, *status, read_only),
                    action: Action::Continue,
                }
            },
            Supply::Status(None) => self.say(command, "NO [TRYCREATE] No such mailbox"),
            _ => self.bug(command),
        }
    }

    fn create(&mut self, command: &CommandData, supply: &Supply) -> (reply: Reply)
        ensures
            ({
                let o = create_outcome(old(self).con_state@, command@, supply@);
                &&& reply.lines.deep_view() == o.lines
                &&& reply.action == o.action
                &&& final(self).con_state@ == o.con
            }),
    {
        let create = Create { data: &*self };
        if create.target(command).is_none() {
            return Reply { lines: create.exec(command, false), action: Action::Continue };
        }
        match supply {
            Supply::Created(created) => Reply {
                lines: create.exec(command, *created),
                action: Action::Continue,
            },
            _ => self.bug(command),
        }
    }

    fn uid(&mut self, command: &CommandData, supply: &mut Supply) -> (reply: Reply)
        ensures
            ({
                let o = uid_outcome(old(self).con_state@, command@, old(supply)@);
                &&& reply.lines.deep_view() == o.lines
                &&& reply.action == o.action
                &&& final(self).con_state@ == o.con
            }),
            final(supply)@ == (match old(supply)@ {
                SupplyView::Mails(mails) => SupplyView::Mails(
                    uid_mails(old(self).con_state@, command@, mails),
                ),
                _ => old(supply)@,
            }),
    {
        match supply {
            Supply::Mails(mails) => {
                let uid = Uid { data: &*self };
                Reply { lines: uid.exec(command, mails), action: Action::Continue }
            },
            _ => {
                if self.uid_mailbox(command).is_some() {
                    self.bug(command)
                } else {
                    let uid = Uid { data: &*self };
                    let mut none: Vec<MailEntry> = Vec::new();
                    assert(mail_views(none@) =~= Seq::<MailEntryView>::empty());
                    Reply { lines: uid.exec(command, &mut none), action: Action::Continue }
                }
            },
        }
    }

    /// Answers a command: the lines to send, what is to happen to the
    /// connection, and the state that the session is left in. `supply` is
    /// what came back for the command's `demand`.
    pub fn exec(&mut self, command: &CommandData, supply: &mut Supply, config: &Config) -> (reply:
        Reply)
        ensures
            ({
                let o = outcome(
                    old(self).con_state@,
                    command@,
                    old(supply)@,
                    config.allow_plaintext,
                );
                &&& reply.lines.deep_view() == o.lines
                &&& reply.action == o.action
                &&& final(self).con_state@ == o.con
            }),
            final(supply)@ == supply_after(old(self).con_state@, command@, old(supply)@),
    {
        if !self.is_legal(command.command) {
            return Reply { lines: self.refuse(&command.tag), action: Action::Continue };
        }
        match command.command {
            Commands::Capability => {
                let mut lines: Vec<String> = Vec::new();
                let mut first = String::from_str("* ");
                first.append(
                    capability_text(self.con_state.secure, config.allow_plaintext).as_str(),
                );
                lines.push(first);
                lines.push(tagged_line(&command.tag, "OK CAPABILITY completed"));
                assert(lines.deep_view() =~= outcome(
                    self.con_state@,
                    command@,
                    supply@,
                    config.allow_plaintext,
                ).lines);
                Reply { lines, action: Action::Continue }
            },
            Commands::Noop => self.say(command, "OK NOOP completed"),
            Commands::Check => self.say(command, "OK CHECK completed"),
            Commands::Logout => {
                let mut lines: Vec<String> = Vec::new();
                lines.push(String::from_str("* BYE Server logging out"));
                lines.push(tagged_line(&command.tag, "OK LOGOUT completed"));
                assert(lines.deep_view() =~= outcome(
                    self.con_state@,
                    command@,
                    supply@,
                    config.allow_plaintext,
                ).lines);
                self.con_state.state = State::Logout;
                Reply { lines, action: Action::Close }
            },
            Commands::StartTls => {
                if self.con_state.secure {
                    self.say(command, "BAD TLS is already active")
                } else {
                    Reply {
                        lines: tagged_reply(&command.tag, "OK Begin TLS negotiation now"),
                        action: Action::Upgrade,
                    }
                }
            },
            Commands::Login => self.login(command, supply, config),
            Commands::Authenticate => self.authenticate(command, supply, config),
            Commands::List => self.list(command, supply),
            Commands::Select => self.select(command, supply, false),
            Commands::Examine => self.select(command, supply, true),
            Commands::Create => self.create(command, supply),
            Commands::Close => {
                self.con_state.state = State::Authenticated;
                Reply {
                    lines: tagged_reply(&command.tag, "OK CLOSE completed"),
                    action: Action::Continue,
                }
            },
            Commands::Unselect => {
                self.con_state.state = State::Authenticated;
                Reply {
                    lines: tagged_reply(&command.tag, "OK UNSELECT completed"),
                    action: Action::Continue,
                }
            },
            Commands::Uid => self.uid(command, supply),
            _ => self.say(command, "BAD Not supported"),
        }
    }

    fn end(&mut self, text: &str) -> (reply: Reply)
        ensures
            reply.lines.deep_view() == ended(old(self).con_state@, text@).lines,
            reply.action == Action::Close,
            final(self).con_state@ == ended(old(self).con_state@, text@).con,
    {
        self.con_state.state = State::Logout;
        let mut line = String::from_str("* ");
        line.append(text);
        let mut lines: Vec<String> = Vec::new();
        lines.push(line);
        assert(lines.deep_view() =~= seq!["* "@ + text@]);
        Reply { lines, action: Action::Close }
    }

    /// Ends the session because the server shuts down or the client was
    /// idle for too long.
    pub fn shutdown(&mut self) -> (reply: Reply)
        ensures
            ({
                let o = ended(old(self).con_state@, "BYE Server shutting down"@);
                &&& reply.lines.deep_view() == o.lines
                &&& reply.action == o.action
                &&& final(self).con_state@ == o.con
            }),
    {
        self.end("BYE Server shutting down")
    }

    /// Ends the session because the bytes of the client are no line.
    pub fn unreadable(&mut self) -> (reply: Reply)
        ensures
            ({
                let o = ended(old(self).con_state@, "BAD Unable to parse"@);
                &&& reply.lines.deep_view() == o.lines
                &&& reply.action == o.action
                &&& final(self).con_state@ == o.con
            }),
    {
        self.end("BAD Unable to parse")
    }

    /// Records the result of the TLS negotiation that a STARTTLS command
    /// began.
    pub fn upgraded(&mut self, succeeded: bool)
        ensures
            final(self).con_state@ == after_upgrade(old(self).con_state@, succeeded),
    {
        if succeeded {
            self.con_state = Connection::new(true);
        } else {
            self.con_state.state = State::Logout;
        }
    }
}


/// What can happen to a session: a command is answered, or a TLS
/// negotiation ends.
pub enum Event {
    Command(CommandView, SupplyView),
    Upgraded(bool),
    /// The server ends the session.
    Ended,
}

/// The session after one event.
pub open spec fn after_event(con: ConnectionView, event: Event, allow_plaintext: bool)
    -> ConnectionView {
    match event {
        Event::Command(command, supply) => outcome(con, command, supply, allow_plaintext).con,
        Event::Upgraded(succeeded) => after_upgrade(con, succeeded),
        Event::Ended => ConnectionView { state: StateView::Logout, ..con },
    }
}

/// The session after the first `k` of the events.
pub open spec fn after_events(
    con: ConnectionView,
    events: Seq<Event>,
    k: nat,
    allow_plaintext: bool,
) -> ConnectionView
    decreases k,
{
    if k == 0 {
        con
    } else {
        after_event(
            after_events(con, events, (k - 1) as nat, allow_plaintext),
            events[k - 1],
            allow_plaintext,
        )
    }
}

/// No command changes whether the connection is secure, and none leads
/// into the selected state but from the authenticated or the selected
/// state. A session that is well formed stays so.
pub proof fn lemma_step(
    con: ConnectionView,
    command: CommandView,
    supply: SupplyView,
    allow_plaintext: bool,
)
    ensures
        outcome(con, command, supply, allow_plaintext).con.secure == con.secure,
        outcome(con, command, supply, allow_plaintext).con.state is Selected ==> con.state
            is Authenticated || con.state is Selected,
        con.wf() ==> outcome(con, command, supply, allow_plaintext).con.wf(),
{
}

/// A connection that is secure stays secure, whatever happens.
pub proof fn lemma_secure_stays(
    con: ConnectionView,
    events: Seq<Event>,
    j: nat,
    k: nat,
    allow_plaintext: bool,
)
    requires
        j <= k <= events.len(),
        after_events(con, events, j, allow_plaintext).secure,
    ensures
        after_events(con, events, k, allow_plaintext).secure,
    decreases k,
{
    if j < k {
        lemma_secure_stays(con, events, j, (k - 1) as nat, allow_plaintext);
        let before = after_events(con, events, (k - 1) as nat, allow_plaintext);
        match events[k - 1] {
            Event::Command(command, supply) => {
                lemma_step(before, command, supply, allow_plaintext);
            },
            _ => {},
        }
    }
}

/// A session that has a mailbox selected was authenticated, with none
/// selected, at some moment before.
pub proof fn lemma_selected_was_authenticated(
    secure: bool,
    events: Seq<Event>,
    k: nat,
    allow_plaintext: bool,
)
    requires
        k <= events.len(),
        after_events(ConnectionView::fresh(secure), events, k, allow_plaintext).state is Selected,
    ensures
        exists|j: nat|
            j < k && (#[trigger] after_events(
                ConnectionView::fresh(secure),
                events,
                j,
                allow_plaintext,
            )).state is Authenticated,
    decreases k,
{
    let start = ConnectionView::fresh(secure);
    if k > 0 {
        let before = after_events(start, events, (k - 1) as nat, allow_plaintext);
        match events[k - 1] {
            Event::Command(command, supply) => {
                lemma_step(before, command, supply, allow_plaintext);
            },
            _ => {},
        }
        if before.state is Selected {
            lemma_selected_was_authenticated(secure, events, (k - 1) as nat, allow_plaintext);
            let j = choose|j: nat|
                j < k - 1 && (#[trigger] after_events(start, events, j, allow_plaintext)).state
                    is Authenticated;
            assert(j < k);
        } else {
            assert(before.state is Authenticated);
            assert(((k - 1) as nat) < k);
        }
    }
}

/// Selecting a mailbox, leaving it and selecting it again gives the same
/// lines and the same state as the first time, where the mailbox has not
/// changed in between.
pub proof fn lemma_select_again(
    con: ConnectionView,
    select: CommandView,
    unselect: CommandView,
    status: MailboxStatus,
    allow_plaintext: bool,
)
    requires
        select.command is Select,
        unselect.command is Unselect,
        is_allowed(select.command, con.state),
        select_ready(select),
    ensures
        ({
            let supply = SupplyView::Status(Some(status));
            let first = outcome(con, select, supply, allow_plaintext);
            let left = outcome(first.con, unselect, SupplyView::Nothing, allow_plaintext);
            let second = outcome(left.con, select, supply, allow_plaintext);
            second.lines == first.lines && second.con == first.con
        }),
{
    let supply = SupplyView::Status(Some(status));
    let first = outcome(con, select, supply, allow_plaintext);
    assert(first == select_outcome(con, select, supply, false));
    assert(first.con.state is Selected);
    let left = outcome(first.con, unselect, SupplyView::Nothing, allow_plaintext);
    assert(left.con == ConnectionView { state: StateView::Authenticated, ..first.con });
    let second = outcome(left.con, select, supply, allow_plaintext);
    assert(second == select_outcome(left.con, select, supply, false));
}

} // verus!
