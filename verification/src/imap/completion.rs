//! Every command gets exactly one tagged completion, and it is the last
//! line of the answer.

use vstd::prelude::*;
use crate::imap::command::{is_tag, tagged, CommandView, Commands};
use crate::imap::dispatch::{
    authenticate_outcome, bug, capabilities, create_outcome, folder_lines, list_line, list_lines,
    list_outcome, list_pattern, login_outcome, outcome, say, select_lines, select_outcome,
    uid_outcome, SupplyView,
};
use crate::imap::fetch::{arguments_of, ArgumentsView};
use crate::imap::state::{is_allowed, not_allowed, state_name, ConnectionView, StateView};
use crate::imap::uid::{
    fetch_line, fetch_lines, is_subcommand, range_of, response, uid_lines, UidRange,
};
use crate::mail::MailEntryView;
use crate::mailbox::wire_name;
use crate::text::{decimal, join, matches_pattern};

verus! {

/// Whether `text` begins with one of the three status words and a space.
pub open spec fn is_status(text: Seq<char>) -> bool {
    (text.len() >= 3 && text[0] == 'O' && text[1] == 'K' && text[2] == ' ') || (text.len() >= 3
        && text[0] == 'N' && text[1] == 'O' && text[2] == ' ') || (text.len() >= 4 && text[0]
        == 'B' && text[1] == 'A' && text[2] == 'D' && text[3] == ' ')
}

/// Whether `line` completes the command tagged `tag`: the tag, a space, and
/// a status.
pub open spec fn is_completion(line: Seq<char>, tag: Seq<char>) -> bool {
    line.len() > tag.len() && line.take(tag.len() as int) == tag && line[tag.len() as int] == ' '
        && is_status(line.skip(tag.len() as int + 1))
}

/// Whether `line` is untagged: it begins with a star and a space.
pub open spec fn is_untagged(line: Seq<char>) -> bool {
    line.len() >= 2 && line[0] == '*' && line[1] == ' '
}

/// Whether `lines` answer the command tagged `tag`: untagged lines, if any,
/// and then one completion.
pub open spec fn is_answer(lines: Seq<Seq<char>>, tag: Seq<char>) -> bool {
    lines.len() >= 1 && is_completion(lines.last(), tag) && forall|i: int|
        0 <= i < lines.len() - 1 ==> is_untagged(#[trigger] lines[i])
}

/// No untagged line completes a command: a tag never begins with a star.
pub proof fn lemma_untagged_completes_nothing(line: Seq<char>, tag: Seq<char>)
    requires
        is_tag(tag),
        is_untagged(line),
    ensures
        !is_completion(line, tag),
{
    if is_completion(line, tag) {
        assert(line.take(tag.len() as int)[0] == tag[0]);
    }
}

proof fn lemma_completion(tag: Seq<char>, text: Seq<char>)
    requires
        is_status(text),
    ensures
        is_completion(tagged(tag, text), tag),
        is_answer(seq![tagged(tag, text)], tag),
{
    reveal_strlit(" ");
    let line = tagged(tag, text);
    assert(line.take(tag.len() as int) =~= tag);
    assert(line.skip(tag.len() as int + 1) =~= text);
}

proof fn lemma_status_words()
    ensures
        is_status("OK CAPABILITY completed"@),
        is_status("OK NOOP completed"@),
        is_status("OK CHECK completed"@),
        is_status("OK LOGOUT completed"@),
        is_status("BAD TLS is already active"@),
        is_status("OK Begin TLS negotiation now"@),
        is_status("NO [PRIVACYREQUIRED] Plaintext login is disabled"@),
        is_status("BAD Unable to parse"@),
        is_status("OK LOGIN completed"@),
        is_status("NO LOGIN failed"@),
        is_status("NO [UNAVAILABLE] LOGIN failed"@),
        is_status("BAD Command failed"@),
        is_status("OK LIST completed"@),
        is_status("OK [READ-ONLY] SELECT completed"@),
        is_status("OK [READ-WRITE] SELECT completed"@),
        is_status("NO [TRYCREATE] No such mailbox"@),
        is_status("OK CLOSE completed"@),
        is_status("OK UNSELECT completed"@),
        is_status("BAD Not supported"@),
        is_status("BAD [SERVERBUG] invalid arguments"@),
        is_status("OK CREATE completed"@),
        is_status("NO CREATE failure"@),
        is_status("OK UID FETCH completed"@),
        is_status("NO Unsupported authentication mechanism"@),
        is_status("OK AUTHENTICATE completed"@),
        is_status("NO AUTHENTICATE failed"@),
        is_status("NO [UNAVAILABLE] AUTHENTICATE failed"@),
        forall|rest: Seq<char>| is_status(#[trigger] ("BAD Command not allowed in "@ + rest)),
{
    reveal_strlit("OK CAPABILITY completed");
    reveal_strlit("OK NOOP completed");
    reveal_strlit("OK CHECK completed");
    reveal_strlit("OK LOGOUT completed");
    reveal_strlit("BAD TLS is already active");
    reveal_strlit("OK Begin TLS negotiation now");
    reveal_strlit("NO [PRIVACYREQUIRED] Plaintext login is disabled");
    reveal_strlit("BAD Unable to parse");
    reveal_strlit("OK LOGIN completed");
    reveal_strlit("NO LOGIN failed");
    reveal_strlit("NO [UNAVAILABLE] LOGIN failed");
    reveal_strlit("BAD Command failed");
    reveal_strlit("OK LIST completed");
    reveal_strlit("OK [READ-ONLY] SELECT completed");
    reveal_strlit("OK [READ-WRITE] SELECT completed");
    reveal_strlit("NO [TRYCREATE] No such mailbox");
    reveal_strlit("OK CLOSE completed");
    reveal_strlit("OK UNSELECT completed");
    reveal_strlit("BAD Not supported");
    reveal_strlit("BAD [SERVERBUG] invalid arguments");
    reveal_strlit("OK CREATE completed");
    reveal_strlit("NO CREATE failure");
    reveal_strlit("OK UID FETCH completed");
    reveal_strlit("NO Unsupported authentication mechanism");
    reveal_strlit("OK AUTHENTICATE completed");
    reveal_strlit("NO AUTHENTICATE failed");
    reveal_strlit("NO [UNAVAILABLE] AUTHENTICATE failed");
    reveal_strlit("BAD Command not allowed in ");
}

proof fn lemma_untagged_words()
    ensures
        forall|rest: Seq<char>| is_untagged(#[trigger] ("* "@ + rest)),
        forall|rest: Seq<char>| is_untagged(#[trigger] ("* OK [UIDVALIDITY "@ + rest)),
        forall|rest: Seq<char>| is_untagged(#[trigger] ("* OK [UIDNEXT "@ + rest)),
        is_untagged("* BYE Server logging out"@),
        is_untagged("* BAD [SERVERBUG] This should not happen"@),
        is_untagged("* FLAGS (\\Answered \\Flagged \\Deleted \\Seen \\Draft)"@),
        is_untagged(
            "* OK [PERMANENTFLAGS (\\Answered \\Flagged \\Deleted \\Seen \\Draft)] Flags permitted"@,
        ),
{
    reveal_strlit("* ");
    reveal_strlit("* OK [UIDVALIDITY ");
    reveal_strlit("* OK [UIDNEXT ");
    reveal_strlit("* BYE Server logging out");
    reveal_strlit("* BAD [SERVERBUG] This should not happen");
    reveal_strlit("* FLAGS (\\Answered \\Flagged \\Deleted \\Seen \\Draft)");
    reveal_strlit(
        "* OK [PERMANENTFLAGS (\\Answered \\Flagged \\Deleted \\Seen \\Draft)] Flags permitted",
    );
}

proof fn lemma_untagged_grows(line: Seq<char>, rest: Seq<char>)
    requires
        is_untagged(line),
    ensures
        is_untagged(line + rest),
{
    assert((line + rest)[0] == line[0]);
    assert((line + rest)[1] == line[1]);
}

proof fn lemma_fetch_line_untagged(uid: u32, answer: Seq<char>)
    ensures
        is_untagged(fetch_line(uid, answer)),
{
    reveal_strlit("* ");
    let d = decimal(uid as nat);
    let a = "* "@;
    lemma_untagged_grows(a, d);
    lemma_untagged_grows(a + d, " FETCH (UID "@);
    lemma_untagged_grows(a + d + " FETCH (UID "@, d);
    lemma_untagged_grows(a + d + " FETCH (UID "@ + d, " "@);
    lemma_untagged_grows(a + d + " FETCH (UID "@ + d + " "@, answer);
    lemma_untagged_grows(a + d + " FETCH (UID "@ + d + " "@ + answer, ")"@);
}

proof fn lemma_fetch_lines_untagged(args: ArgumentsView, range: UidRange, mails: Seq<MailEntryView>)
    ensures
        forall|i: int|
            0 <= i < fetch_lines(args, range, mails).len() ==> is_untagged(
                #[trigger] fetch_lines(args, range, mails)[i],
            ),
    decreases mails.len(),
{
    if mails.len() > 0 {
        lemma_fetch_lines_untagged(args, range, mails.drop_last());
        let before = fetch_lines(args, range, mails.drop_last());
        let all = fetch_lines(args, range, mails);
        assert forall|i: int| 0 <= i < all.len() implies is_untagged(#[trigger] all[i]) by {
            if i < before.len() {
                assert(all[i] == before[i]);
            } else {
                lemma_fetch_line_untagged(
                    mails.last().uid,
                    response(args, mails.last())->0,
                );
            }
        }
    }
}

proof fn lemma_list_line_untagged(name: Seq<char>)
    ensures
        is_untagged(list_line(name)),
{
    reveal_strlit("* LIST (\\HasNoChildren) \"/\" \"");
    lemma_untagged_grows("* LIST (\\HasNoChildren) \"/\" \""@, name);
    lemma_untagged_grows("* LIST (\\HasNoChildren) \"/\" \""@ + name, "\""@);
}

proof fn lemma_folder_lines_untagged(pattern: Seq<char>, folders: Seq<Seq<char>>)
    ensures
        forall|i: int|
            0 <= i < folder_lines(pattern, folders).len() ==> is_untagged(
                #[trigger] folder_lines(pattern, folders)[i],
            ),
    decreases folders.len(),
{
    if folders.len() > 0 {
        lemma_folder_lines_untagged(pattern, folders.drop_last());
        let before = folder_lines(pattern, folders.drop_last());
        let all = folder_lines(pattern, folders);
        assert forall|i: int| 0 <= i < all.len() implies is_untagged(#[trigger] all[i]) by {
            if i < before.len() {
                assert(all[i] == before[i]);
            } else {
                lemma_list_line_untagged(wire_name(folders.last()));
            }
        }
    }
}

proof fn lemma_closed(lines: Seq<Seq<char>>, tag: Seq<char>, text: Seq<char>)
    requires
        is_status(text),
        forall|i: int| 0 <= i < lines.len() ==> is_untagged(#[trigger] lines[i]),
    ensures
        is_answer(lines.push(tagged(tag, text)), tag),
{
    lemma_completion(tag, text);
    let all = lines.push(tagged(tag, text));
    assert forall|i: int| 0 <= i < all.len() - 1 implies is_untagged(#[trigger] all[i]) by {
        assert(all[i] == lines[i]);
    }
}

proof fn lemma_say(con: ConnectionView, command: CommandView, text: Seq<char>)
    requires
        is_status(text),
    ensures
        is_answer(say(con, command, text).lines, command.tag),
{
    lemma_completion(command.tag, text);
}

proof fn lemma_bug(con: ConnectionView, command: CommandView)
    ensures
        is_answer(bug(con, command).lines, command.tag),
{
    lemma_status_words();
    lemma_untagged_words();
    lemma_closed(
        seq!["* BAD [SERVERBUG] This should not happen"@],
        command.tag,
        "BAD Command failed"@,
    );
    assert(bug(con, command).lines =~= seq!["* BAD [SERVERBUG] This should not happen"@].push(
        tagged(command.tag, "BAD Command failed"@),
    ));
}

proof fn lemma_not_allowed(tag: Seq<char>, state: StateView)
    ensures
        is_answer(seq![not_allowed(tag, state)], tag),
{
    lemma_status_words();
    lemma_completion(tag, "BAD Command not allowed in "@ + state_name(state));
}

proof fn lemma_uid_answer(con: ConnectionView, command: CommandView, mails: Seq<MailEntryView>)
    ensures
        is_answer(uid_lines(con, command, mails), command.tag),
{
    lemma_status_words();
    let tag = command.tag;
    lemma_not_allowed(tag, con.state);
    lemma_completion(tag, "BAD Unable to parse"@);
    lemma_completion(tag, "BAD Not supported"@);
    if is_subcommand(command, "fetch"@) && con.state is Selected
        && command.arguments.len() >= 3 {
        let text = join(command.arguments.skip(2), " "@);
        if let Some(args) = arguments_of(text) {
            let range = range_of(command.arguments[1]);
            lemma_fetch_lines_untagged(args, range, mails);
            lemma_closed(fetch_lines(args, range, mails), tag, "OK UID FETCH completed"@);
        }
    }
}

proof fn lemma_login_answer(
    con: ConnectionView,
    command: CommandView,
    supply: SupplyView,
    allow_plaintext: bool,
)
    ensures
        is_answer(login_outcome(con, command, supply, allow_plaintext).lines, command.tag),
{
    lemma_status_words();
    lemma_bug(con, command);
    lemma_say(con, command, "NO [PRIVACYREQUIRED] Plaintext login is disabled"@);
    lemma_say(con, command, "BAD Unable to parse"@);
    lemma_say(con, command, "OK LOGIN completed"@);
    lemma_say(con, command, "NO LOGIN failed"@);
    lemma_say(con, command, "NO [UNAVAILABLE] LOGIN failed"@);
}

proof fn lemma_authenticate_answer(
    con: ConnectionView,
    command: CommandView,
    supply: SupplyView,
    allow_plaintext: bool,
)
    ensures
        is_answer(authenticate_outcome(con, command, supply, allow_plaintext).lines, command.tag),
{
    lemma_status_words();
    lemma_bug(con, command);
    lemma_say(con, command, "NO [PRIVACYREQUIRED] Plaintext login is disabled"@);
    lemma_say(con, command, "BAD Unable to parse"@);
    lemma_say(con, command, "NO Unsupported authentication mechanism"@);
    lemma_say(con, command, "OK AUTHENTICATE completed"@);
    lemma_say(con, command, "NO AUTHENTICATE failed"@);
    lemma_say(con, command, "NO [UNAVAILABLE] AUTHENTICATE failed"@);
}

proof fn lemma_list_answer(con: ConnectionView, command: CommandView, supply: SupplyView)
    ensures
        is_answer(list_outcome(con, command, supply).lines, command.tag),
{
    lemma_status_words();
    lemma_bug(con, command);
    lemma_say(con, command, "BAD Unable to parse"@);
    if command.arguments.len() == 2 {
        if let SupplyView::Folders(folders) = supply {
            let pattern = list_pattern(command);
            lemma_folder_lines_untagged(pattern, folders);
            lemma_list_line_untagged("INBOX"@);
            let lines = list_lines(pattern, folders);
            assert forall|i: int| 0 <= i < lines.len() implies is_untagged(#[trigger] lines[i]) by {
                if matches_pattern(pattern, "INBOX"@) && i > 0 {
                    assert(lines[i] == folder_lines(pattern, folders)[i - 1]);
                }
            }
            lemma_closed(lines, command.tag, "OK LIST completed"@);
        }
    }
}

proof fn lemma_select_answer(
    con: ConnectionView,
    command: CommandView,
    supply: SupplyView,
    read_only: bool,
)
    ensures
        is_answer(select_outcome(con, command, supply, read_only).lines, command.tag),
{
    lemma_status_words();
    lemma_untagged_words();
    lemma_bug(con, command);
    lemma_say(con, command, "BAD Unable to parse"@);
    lemma_say(con, command, "NO [TRYCREATE] No such mailbox"@);
    if let SupplyView::Status(Some(status)) = supply {
        let tag = command.tag;
        let lines = select_lines(tag, status, read_only);
        lemma_completion(tag, "OK [READ-ONLY] SELECT completed"@);
        lemma_completion(tag, "OK [READ-WRITE] SELECT completed"@);
        lemma_untagged_grows("* "@ + decimal(status.exists as nat), " EXISTS"@);
        lemma_untagged_grows("* "@ + decimal(status.recent as nat), " RECENT"@);
        lemma_untagged_grows(
            "* OK [UIDVALIDITY "@ + decimal(status.uid_validity as nat),
            "] UIDs valid"@,
        );
        lemma_untagged_grows(
            "* OK [UIDNEXT "@ + decimal(status.uid_next as nat),
            "] Predicted next UID"@,
        );
        assert(lines.len() == 7);
        assert(is_untagged(lines[0]));
        assert(is_untagged(lines[1]));
        assert(is_untagged(lines[2]));
        assert(is_untagged(lines[3]));
        assert(is_untagged(lines[4]));
        assert(is_untagged(lines[5]));
        assert(is_completion(lines[6], tag));
    }
}

proof fn lemma_create_answer(con: ConnectionView, command: CommandView, supply: SupplyView)
    ensures
        is_answer(create_outcome(con, command, supply).lines, command.tag),
{
    lemma_status_words();
    lemma_bug(con, command);
    lemma_not_allowed(command.tag, con.state);
    lemma_completion(command.tag, "BAD [SERVERBUG] invalid arguments"@);
    lemma_completion(command.tag, "OK CREATE completed"@);
    lemma_completion(command.tag, "NO CREATE failure"@);
}

proof fn lemma_uid_outcome_answer(con: ConnectionView, command: CommandView, supply: SupplyView)
    ensures
        is_answer(uid_outcome(con, command, supply).lines, command.tag),
{
    lemma_bug(con, command);
    lemma_uid_answer(con, command, seq![]);
    if let SupplyView::Mails(mails) = supply {
        lemma_uid_answer(con, command, mails);
    }
}

/// The answer to a command is untagged lines, if any, and then one line
/// that completes the command.
pub proof fn lemma_one_completion(
    con: ConnectionView,
    command: CommandView,
    supply: SupplyView,
    allow_plaintext: bool,
)
    ensures
        is_answer(outcome(con, command, supply, allow_plaintext).lines, command.tag),
{
    let tag = command.tag;
    lemma_status_words();
    if !is_allowed(command.command, con.state) {
        lemma_not_allowed(tag, con.state);
    } else {
        match command.command {
            Commands::Capability => {
                lemma_untagged_words();
                lemma_closed(
                    seq!["* "@ + capabilities(con.secure, allow_plaintext)],
                    tag,
                    "OK CAPABILITY completed"@,
                );
                assert(outcome(con, command, supply, allow_plaintext).lines =~= seq![
                    "* "@ + capabilities(con.secure, allow_plaintext),
                ].push(tagged(tag, "OK CAPABILITY completed"@)));
            },
            Commands::Noop => {
                lemma_say(con, command, "OK NOOP completed"@);
            },
            Commands::Check => {
                lemma_say(con, command, "OK CHECK completed"@);
            },
            Commands::Logout => {
                lemma_untagged_words();
                lemma_closed(seq!["* BYE Server logging out"@], tag, "OK LOGOUT completed"@);
                assert(outcome(con, command, supply, allow_plaintext).lines =~= seq![
                    "* BYE Server logging out"@,
                ].push(tagged(tag, "OK LOGOUT completed"@)));
            },
            Commands::StartTls => {
                lemma_say(con, command, "BAD TLS is already active"@);
                lemma_say(con, command, "OK Begin TLS negotiation now"@);
            },
            Commands::Login => {
                lemma_login_answer(con, command, supply, allow_plaintext);
            },
            Commands::Authenticate => {
                lemma_authenticate_answer(con, command, supply, allow_plaintext);
            },
            Commands::List => {
                lemma_list_answer(con, command, supply);
            },
            Commands::Select => {
                lemma_select_answer(con, command, supply, false);
            },
            Commands::Examine => {
                lemma_select_answer(con, command, supply, true);
            },
            Commands::Create => {
                lemma_create_answer(con, command, supply);
            },
            Commands::Close => {
                lemma_say(con, command, "OK CLOSE completed"@);
            },
            Commands::Unselect => {
                lemma_say(con, command, "OK UNSELECT completed"@);
            },
            Commands::Uid => {
                lemma_uid_outcome_answer(con, command, supply);
            },
            _ => {
                lemma_say(con, command, "BAD Not supported"@);
            },
        }
    }
}

} // verus!
