use erooster::imap::command::{parse_command, Commands, ParseError};
use erooster::config::Config;
use erooster::imap::dispatch::{greeting, Demand, MailboxStatus, Supply};
use erooster::reply::{Action, Reply};
use erooster::sasl::AuthOutcome;
use erooster::mail::{Header, MailEntry, MailFlags};
use erooster::config::{listen_addresses, IMAPS_PORT};
use erooster::imap::server::{refusal, Unencrypted};
use erooster::imap::create::Create;
use erooster::imap::state::{Data, State};
use erooster::imap::uid::Uid;

fn config() -> Config {
    Config { hostname: String::from("mx"), listen_ips: None, allow_plaintext: true }
}

fn send(data: &mut Data, line: &str, supply: &mut Supply) -> Reply {
    match Unencrypted::read(line) {
        Ok(command) => data.exec(&command, supply, &config()),
        Err(reply) => reply,
    }
}

fn lines(data: &mut Data, line: &str, supply: Supply) -> Vec<String> {
    let mut supply = supply;
    send(data, line, &mut supply).lines
}

fn demand(data: &Data, line: &str) -> Demand {
    let command = parse_command(line).expect("a command");
    data.demand(&command, &config())
}

fn logged_in() -> Data {
    let mut data = Data::new(false);
    let answer = lines(
        &mut data,
        "a LOGIN alice \"pw\"",
        Supply::Verified(AuthOutcome::Accepted(String::from("alice"))),
    );
    assert_eq!(answer, vec!["a OK LOGIN completed"]);
    data
}

fn selected() -> Data {
    let mut data = logged_in();
    let status = MailboxStatus { exists: 3, recent: 0, uid_validity: 1, uid_next: 10 };
    lines(&mut data, "c SELECT INBOX", Supply::Status(Some(status)));
    data
}

fn mail(uid: u32, flags: MailFlags) -> MailEntry {
    let headers = vec![
        Header { name: String::from("From"), value: String::from("a@x") },
        Header { name: String::from("Subject"), value: String::from("hi") },
    ];
    MailEntry::new(uid, flags, Some(headers), Some(12))
}

fn seen() -> MailFlags {
    let mut flags = MailFlags::none();
    flags.seen = true;
    flags
}

#[test]
fn login_then_list() {
    let mut data = Data::new(false);
    match demand(&data, "a LOGIN alice \"pw\"") {
        Demand::Verify { user, password } => {
            assert_eq!(user, "alice");
            assert_eq!(password, "pw");
        }
        other => panic!("unexpected demand {:?}", other),
    }
    let answer = lines(
        &mut data,
        "a LOGIN alice \"pw\"",
        Supply::Verified(AuthOutcome::Accepted(String::from("alice"))),
    );
    assert_eq!(answer, vec!["a OK LOGIN completed"]);
    assert!(matches!(data.con_state.state, State::Authenticated));
    assert_eq!(data.con_state.username, Some(String::from("alice")));

    match demand(&data, "b LIST \"\" \"*\"") {
        Demand::Folders { user } => assert_eq!(user, "alice"),
        other => panic!("unexpected demand {:?}", other),
    }
    let folders = vec![String::from("INBOX"), String::from(".Sent"), String::from("cur")];
    let answer = lines(&mut data, "b LIST \"\" \"*\"", Supply::Folders(folders));
    assert_eq!(
        answer,
        vec![
            "* LIST (\\HasNoChildren) \"/\" \"INBOX\"",
            "* LIST (\\HasNoChildren) \"/\" \"INBOX/Sent\"",
            "b OK LIST completed",
        ]
    );
}

#[test]
fn list_with_percent_stays_on_one_level() {
    let mut data = logged_in();
    let folders = vec![String::from(".Sent"), String::from(".Archive.2020")];
    let answer = lines(&mut data, "b LIST \"\" \"INBOX/%\"", Supply::Folders(folders));
    assert_eq!(
        answer,
        vec!["* LIST (\\HasNoChildren) \"/\" \"INBOX/Sent\"", "b OK LIST completed"]
    );
}

#[test]
fn select_empty_inbox() {
    let mut data = logged_in();
    match demand(&data, "c SELECT INBOX") {
        Demand::Status { mailbox, read_only } => {
            assert_eq!(mailbox.username, "alice");
            assert_eq!(mailbox.folder, "INBOX");
            assert!(!read_only);
        }
        other => panic!("unexpected demand {:?}", other),
    }
    let status = MailboxStatus { exists: 0, recent: 0, uid_validity: 1, uid_next: 1 };
    let answer = lines(&mut data, "c SELECT INBOX", Supply::Status(Some(status)));
    assert_eq!(
        answer,
        vec![
            "* 0 EXISTS",
            "* 0 RECENT",
            "* OK [UIDVALIDITY 1] UIDs valid",
            "* OK [UIDNEXT 1] Predicted next UID",
            "* FLAGS (\\Answered \\Flagged \\Deleted \\Seen \\Draft)",
            "* OK [PERMANENTFLAGS (\\Answered \\Flagged \\Deleted \\Seen \\Draft)] Flags permitted",
            "c OK [READ-WRITE] SELECT completed",
        ]
    );
    match &data.con_state.state {
        State::Selected(folder, validity) => {
            assert_eq!(folder, "INBOX");
            assert_eq!(*validity, 1);
        }
        other => panic!("unexpected state {:?}", other),
    }
}

#[test]
fn examine_is_read_only() {
    let mut data = logged_in();
    match demand(&data, "c EXAMINE \"INBOX/Sent\"") {
        Demand::Status { mailbox, read_only } => {
            assert_eq!(mailbox.folder, ".Sent");
            assert!(read_only);
        }
        other => panic!("unexpected demand {:?}", other),
    }
    let status = MailboxStatus { exists: 7, recent: 2, uid_validity: 4, uid_next: 40 };
    let answer = lines(&mut data, "c EXAMINE \"INBOX/Sent\"", Supply::Status(Some(status)));
    assert_eq!(answer[0], "* 7 EXISTS");
    assert_eq!(answer[1], "* 2 RECENT");
    assert_eq!(answer[2], "* OK [UIDVALIDITY 4] UIDs valid");
    assert_eq!(answer[3], "* OK [UIDNEXT 40] Predicted next UID");
    assert_eq!(answer[6], "c OK [READ-ONLY] SELECT completed");
}

#[test]
fn select_missing_mailbox() {
    let mut data = logged_in();
    let answer = lines(&mut data, "c SELECT Nothing", Supply::Status(None));
    assert_eq!(answer, vec!["c NO [TRYCREATE] No such mailbox"]);
    assert!(matches!(data.con_state.state, State::Authenticated));
}

#[test]
fn select_unselect_select_gives_the_same() {
    let mut data = logged_in();
    let status = MailboxStatus { exists: 3, recent: 1, uid_validity: 9, uid_next: 4 };
    let first = lines(&mut data, "c SELECT INBOX", Supply::Status(Some(status)));
    let left = lines(&mut data, "d UNSELECT", Supply::Nothing);
    assert_eq!(left, vec!["d OK UNSELECT completed"]);
    assert!(matches!(data.con_state.state, State::Authenticated));
    let second = lines(&mut data, "c SELECT INBOX", Supply::Status(Some(status)));
    assert_eq!(first, second);
}

#[test]
fn uid_fetch_range_over_three_mails() {
    let mut data = selected();
    match demand(&data, "d UID FETCH 1:* (UID FLAGS)") {
        Demand::Mails { mailbox } => {
            assert_eq!(mailbox.username, "alice");
            assert_eq!(mailbox.folder, "INBOX");
        }
        other => panic!("unexpected demand {:?}", other),
    }
    let mails = vec![mail(2, seen()), mail(5, MailFlags::none()), mail(9, seen())];
    let answer = lines(&mut data, "d UID FETCH 1:* (UID FLAGS)", Supply::Mails(mails));
    assert_eq!(
        answer,
        vec![
            "* 2 FETCH (UID 2 FLAGS (\\Seen))",
            "* 5 FETCH (UID 5 FLAGS ())",
            "* 9 FETCH (UID 9 FLAGS (\\Seen))",
            "d OK UID FETCH completed",
        ]
    );
}

#[test]
fn uid_fetch_keeps_to_the_range() {
    let mut data = selected();
    let mails = vec![mail(2, seen()), mail(5, MailFlags::none()), mail(9, seen())];
    let answer = lines(&mut data, "d UID FETCH 3:8 FLAGS", Supply::Mails(mails.clone()));
    assert_eq!(answer, vec!["* 5 FETCH (UID 5 FLAGS ())", "d OK UID FETCH completed"]);
    let answer = lines(&mut data, "d UID FETCH 9 FLAGS", Supply::Mails(mails.clone()));
    assert_eq!(answer, vec!["* 9 FETCH (UID 9 FLAGS (\\Seen))", "d OK UID FETCH completed"]);
    let answer = lines(&mut data, "d UID FETCH 8:3 FLAGS", Supply::Mails(mails));
    assert_eq!(answer, vec!["d OK UID FETCH completed"]);
}

#[test]
fn uid_fetch_of_nothing() {
    let mut data = selected();
    let answer = lines(&mut data, "d UID FETCH 0:* (FLAGS)", Supply::Mails(Vec::new()));
    assert_eq!(answer, vec!["d OK UID FETCH completed"]);
}

#[test]
fn uid_fetch_with_bad_items() {
    let mut data = selected();
    assert!(matches!(demand(&data, "d UID FETCH 1:* (NONSENSE)"), Demand::Nothing));
    let answer = lines(&mut data, "d UID FETCH 1:* (NONSENSE)", Supply::Nothing);
    assert_eq!(answer, vec!["d BAD Unable to parse"]);
}

#[test]
fn uid_fetch_body_marks_seen() {
    let mut data = selected();
    let mut supply = Supply::Mails(vec![mail(2, MailFlags::none()), mail(5, MailFlags::none())]);
    let reply = send(&mut data, "d UID FETCH 2 (FLAGS BODY[HEADER.FIELDS (subject)] FLAGS)", &mut supply);
    assert_eq!(
        reply.lines,
        vec![
            "* 2 FETCH (UID 2 FLAGS () BODY.PEEK[HEADER.FIELDS] {11}\r\nSubject: hi FLAGS (\\Seen))",
            "d OK UID FETCH completed",
        ]
    );
    match supply {
        Supply::Mails(mails) => {
            assert!(mails[0].flags.seen);
            assert!(!mails[1].flags.seen);
        }
        other => panic!("unexpected supply {:?}", other),
    }
}

#[test]
fn uid_fetch_without_the_mails_gives_up() {
    let mut data = selected();
    let mut supply = Supply::Nothing;
    let reply = send(&mut data, "d UID FETCH 1:* (FLAGS)", &mut supply);
    assert_eq!(
        reply.lines,
        vec!["* BAD [SERVERBUG] This should not happen", "d BAD Command failed"]
    );
    assert_eq!(reply.action, Action::Close);
    assert!(matches!(data.con_state.state, State::Logout));
}

#[test]
fn uid_subcommands_that_are_not_supported() {
    let mut data = selected();
    for line in ["f UID COPY 1 x", "f UID MOVE 1 x", "f UID EXPUNGE 1", "f UID SEARCH ALL"] {
        assert_eq!(lines(&mut data, line, Supply::Nothing), vec!["f BAD Not supported"]);
    }
    for line in ["f FETCH 1 FLAGS", "f STORE 1 FLAGS", "f COPY 1 x", "f SEARCH ALL", "f EXPUNGE"] {
        assert_eq!(lines(&mut data, line, Supply::Nothing), vec!["f BAD Not supported"]);
    }
    let mut data = logged_in();
    assert_eq!(lines(&mut data, "f APPEND INBOX x", Supply::Nothing), vec!["f BAD Not supported"]);
    assert_eq!(
        lines(&mut data, "f UID FETCH 1 FLAGS", Supply::Nothing),
        vec!["f BAD Command not allowed in Authenticated"]
    );
    assert_eq!(
        lines(&mut data, "f UID COPY 1 x", Supply::Nothing),
        vec!["f BAD Command not allowed in Authenticated"]
    );
}

#[test]
fn uid_fetch_needs_a_selected_mailbox() {
    let command = parse_command("e UID fetch 1:* (FLAGS)").expect("a command");
    let data = logged_in();
    assert!(matches!(data.demand(&command, &config()), Demand::Nothing));
    let mut mails = vec![mail(2, seen())];
    let answer = (Uid { data: &data }).exec(&command, &mut mails);
    assert_eq!(answer, vec!["e BAD Command not allowed in Authenticated"]);
    let fresh = Data::new(false);
    let answer = (Uid { data: &fresh }).exec(&command, &mut mails);
    assert_eq!(answer, vec!["e BAD Command not allowed in NotAuthenticated"]);
    let copy = parse_command("e UID COPY 1 x").expect("a command");
    let answer = (Uid { data: &fresh }).exec(&copy, &mut mails);
    assert_eq!(answer, vec!["e BAD Not supported"]);
    let chosen = selected();
    let answer = (Uid { data: &chosen }).exec(&command, &mut mails);
    assert_eq!(answer, vec!["* 2 FETCH (UID 2 FLAGS (\\Seen))", "e OK UID FETCH completed"]);
}

#[test]
fn create_needs_a_login() {
    let command = parse_command("t CREATE Work").expect("a command");
    let fresh = Data::new(false);
    assert!((Create { data: &fresh }).target(&command).is_none());
    for created in [true, false] {
        assert_eq!(
            (Create { data: &fresh }).exec(&command, created),
            vec!["t BAD Command not allowed in NotAuthenticated"]
        );
    }
    let mut nameless = logged_in();
    nameless.con_state.username = None;
    assert!((Create { data: &nameless }).target(&command).is_none());
    assert_eq!(
        (Create { data: &nameless }).exec(&command, true),
        vec!["t BAD Command not allowed in Authenticated"]
    );
    let mut gone = logged_in();
    gone.con_state.state = State::Logout;
    assert_eq!(
        (Create { data: &gone }).exec(&command, true),
        vec!["t BAD Command not allowed in Logout"]
    );
    let data = logged_in();
    let (mailbox, trash) = (Create { data: &data }).target(&command).expect("a folder");
    assert_eq!(mailbox.username, "alice");
    assert_eq!(mailbox.folder, ".Work");
    assert!(!trash);
    assert_eq!((Create { data: &data }).exec(&command, true), vec!["t OK CREATE completed"]);
    assert_eq!((Create { data: &data }).exec(&command, false), vec!["t NO CREATE failure"]);
    let chosen = selected();
    assert_eq!((Create { data: &chosen }).exec(&command, true), vec!["t OK CREATE completed"]);
    assert_eq!(fresh.refuse(&String::from("t")), vec!["t BAD Command not allowed in NotAuthenticated"]);
}

#[test]
fn login_without_the_verdict_gives_up() {
    let mut data = Data::new(false);
    let mut supply = Supply::Created(true);
    let reply = send(&mut data, "a LOGIN alice pw", &mut supply);
    assert_eq!(
        reply.lines,
        vec!["* BAD [SERVERBUG] This should not happen", "a BAD Command failed"]
    );
    assert_eq!(reply.action, Action::Close);
    assert!(matches!(data.con_state.state, State::Logout));
}

#[test]
fn wrong_state() {
    let mut data = Data::new(false);
    assert!(matches!(demand(&data, "e SELECT INBOX"), Demand::Nothing));
    let answer = lines(&mut data, "e SELECT INBOX", Supply::Nothing);
    assert_eq!(answer, vec!["e BAD Command not allowed in NotAuthenticated"]);
    assert!(matches!(data.con_state.state, State::NotAuthenticated));

    let mut data = logged_in();
    let answer = lines(&mut data, "f LOGIN bob pw", Supply::Nothing);
    assert_eq!(answer, vec!["f BAD Command not allowed in Authenticated"]);
    let answer = lines(&mut data, "g CLOSE", Supply::Nothing);
    assert_eq!(answer, vec!["g BAD Command not allowed in Authenticated"]);

    let mut data = selected();
    let answer = lines(&mut data, "h STARTTLS", Supply::Nothing);
    assert_eq!(answer, vec!["h BAD Command not allowed in Selected"]);
}

#[test]
fn login_failures() {
    let mut data = Data::new(false);
    let answer = lines(&mut data, "a LOGIN alice pw", Supply::Verified(AuthOutcome::BadCredentials));
    assert_eq!(answer, vec!["a NO LOGIN failed"]);
    let answer = lines(&mut data, "a LOGIN alice pw", Supply::Verified(AuthOutcome::Unavailable));
    assert_eq!(answer, vec!["a NO [UNAVAILABLE] LOGIN failed"]);
    let answer = lines(&mut data, "a LOGIN alice", Supply::Nothing);
    assert_eq!(answer, vec!["a BAD Unable to parse"]);
    assert!(matches!(data.con_state.state, State::NotAuthenticated));
    assert_eq!(data.con_state.username, None);
}

#[test]
fn login_without_tls_where_it_is_forbidden() {
    let strict = Config { hostname: String::from("mx"), listen_ips: None, allow_plaintext: false };
    let mut data = Data::new(false);
    let command = parse_command("a LOGIN alice pw").expect("a command");
    assert!(matches!(data.demand(&command, &strict), Demand::Nothing));
    let reply = data.exec(&command, &mut Supply::Nothing, &strict);
    assert_eq!(reply.lines, vec!["a NO [PRIVACYREQUIRED] Plaintext login is disabled"]);
    let mut secure = Data::new(true);
    assert!(matches!(secure.demand(&command, &strict), Demand::Verify { .. }));
    let mut supply = Supply::Verified(AuthOutcome::Accepted(String::from("alice")));
    let reply = secure.exec(&command, &mut supply, &strict);
    assert_eq!(reply.lines, vec!["a OK LOGIN completed"]);
}

#[test]
fn authenticate_plain() {
    let mut data = Data::new(false);
    // base64 of "\0alice\0pw"
    match demand(&data, "a AUTHENTICATE PLAIN AGFsaWNlAHB3") {
        Demand::Verify { user, password } => {
            assert_eq!(user, "alice");
            assert_eq!(password, "pw");
        }
        other => panic!("unexpected demand {:?}", other),
    }
    let answer = lines(
        &mut data,
        "a AUTHENTICATE PLAIN AGFsaWNlAHB3",
        Supply::Verified(AuthOutcome::Accepted(String::from("alice"))),
    );
    assert_eq!(answer, vec!["a OK AUTHENTICATE completed"]);
    assert!(matches!(data.con_state.state, State::Authenticated));

    let mut data = Data::new(false);
    let answer = lines(&mut data, "a AUTHENTICATE LOGIN AGFsaWNlAHB3", Supply::Nothing);
    assert_eq!(answer, vec!["a NO Unsupported authentication mechanism"]);
    let answer = lines(&mut data, "a AUTHENTICATE PLAIN ????", Supply::Nothing);
    assert_eq!(answer, vec!["a BAD Unable to parse"]);
    let answer = lines(
        &mut data,
        "a AUTHENTICATE PLAIN AGFsaWNlAHB3",
        Supply::Verified(AuthOutcome::BadCredentials),
    );
    assert_eq!(answer, vec!["a NO AUTHENTICATE failed"]);
}

#[test]
fn capability_and_greeting() {
    let mut data = Data::new(false);
    let answer = lines(&mut data, "a CAPABILITY", Supply::Nothing);
    assert_eq!(
        answer,
        vec![
            "* CAPABILITY IMAP4rev1 IMAP4rev2 STARTTLS AUTH=PLAIN",
            "a OK CAPABILITY completed",
        ]
    );
    assert_eq!(
        greeting(false, true),
        "* OK [CAPABILITY IMAP4rev1 IMAP4rev2 STARTTLS AUTH=PLAIN] IMAP4rev1/IMAP4rev2 Service Ready"
    );
    assert_eq!(
        greeting(false, false),
        "* OK [CAPABILITY IMAP4rev1 IMAP4rev2 STARTTLS AUTH=PLAIN LOGINDISABLED] IMAP4rev1/IMAP4rev2 Service Ready"
    );
    assert_eq!(
        greeting(true, false),
        "* OK [CAPABILITY IMAP4rev1 IMAP4rev2 STARTTLS AUTH=PLAIN] IMAP4rev1/IMAP4rev2 Service Ready"
    );
    let (fresh, hello) = Unencrypted::accept(&config());
    assert!(!fresh.con_state.secure);
    assert!(matches!(fresh.con_state.state, State::NotAuthenticated));
    assert_eq!(hello, greeting(false, true));
}

#[test]
fn noop_check_close_logout() {
    let mut data = selected();
    assert_eq!(lines(&mut data, "a NOOP", Supply::Nothing), vec!["a OK NOOP completed"]);
    assert_eq!(lines(&mut data, "b CHECK", Supply::Nothing), vec!["b OK CHECK completed"]);
    assert_eq!(lines(&mut data, "c CLOSE", Supply::Nothing), vec!["c OK CLOSE completed"]);
    assert!(matches!(data.con_state.state, State::Authenticated));
    let mut supply = Supply::Nothing;
    let reply = send(&mut data, "d LOGOUT", &mut supply);
    assert_eq!(reply.lines, vec!["* BYE Server logging out", "d OK LOGOUT completed"]);
    assert_eq!(reply.action, Action::Close);
    assert!(matches!(data.con_state.state, State::Logout));
    let reply = send(&mut data, "e NOOP", &mut supply);
    assert_eq!(reply.lines, vec!["e BAD Command not allowed in Logout"]);
}

#[test]
fn starttls_makes_the_connection_secure() {
    let mut data = Data::new(false);
    let mut supply = Supply::Nothing;
    let reply = send(&mut data, "a STARTTLS", &mut supply);
    assert_eq!(reply.lines, vec!["a OK Begin TLS negotiation now"]);
    assert_eq!(reply.action, Action::Upgrade);
    assert!(!data.con_state.secure);
    data.upgraded(true);
    assert!(data.con_state.secure);
    assert!(matches!(data.con_state.state, State::NotAuthenticated));
    let reply = send(&mut data, "b STARTTLS", &mut supply);
    assert_eq!(reply.lines, vec!["b BAD TLS is already active"]);
    assert_eq!(reply.action, Action::Continue);
    assert!(data.con_state.secure);

    let mut data = Data::new(false);
    data.upgraded(false);
    assert!(!data.con_state.secure);
    assert!(matches!(data.con_state.state, State::Logout));
}

#[test]
fn create_folder() {
    let mut data = logged_in();
    match demand(&data, "a CREATE \"Archive/2020\"") {
        Demand::CreateFolder { mailbox, trash } => {
            assert_eq!(mailbox.username, "alice");
            assert_eq!(mailbox.folder, ".Archive.2020");
            assert!(!trash);
        }
        other => panic!("unexpected demand {:?}", other),
    }
    match demand(&data, "a CREATE INBOX/TRASH") {
        Demand::CreateFolder { mailbox, trash } => {
            assert_eq!(mailbox.folder, ".TRASH");
            assert!(trash);
        }
        other => panic!("unexpected demand {:?}", other),
    }
    let answer = lines(&mut data, "a CREATE Archive", Supply::Created(true));
    assert_eq!(answer, vec!["a OK CREATE completed"]);
    let answer = lines(&mut data, "a CREATE Archive", Supply::Created(false));
    assert_eq!(answer, vec!["a NO CREATE failure"]);
    let answer = lines(&mut data, "a CREATE one two", Supply::Nothing);
    assert_eq!(answer, vec!["a BAD [SERVERBUG] invalid arguments"]);
    let answer = lines(&mut data, "a CREATE", Supply::Nothing);
    assert_eq!(answer, vec!["a BAD [SERVERBUG] invalid arguments"]);
}

#[test]
fn lines_that_are_no_commands() {
    let mut data = Data::new(false);
    assert_eq!(lines(&mut data, "", Supply::Nothing), vec!["* BAD Unable to parse"]);
    assert_eq!(lines(&mut data, "* NOOP", Supply::Nothing), vec!["* BAD Unable to parse"]);
    assert_eq!(lines(&mut data, "a", Supply::Nothing), vec!["a BAD Unable to parse"]);
    assert_eq!(lines(&mut data, "a FROBNICATE", Supply::Nothing), vec!["a BAD Unknown command"]);
    assert_eq!(lines(&mut data, "a LOGIN  x", Supply::Nothing), vec!["a BAD Unable to parse"]);
    assert!(matches!(parse_command("+ NOOP"), Err(ParseError::BadTag)));
    assert!(matches!(parse_command("a"), Err(ParseError::MissingCommand(_))));
    assert!(matches!(parse_command("a x"), Err(ParseError::UnknownCommand(_))));
    assert!(matches!(parse_command("a NOOP "), Err(ParseError::EmptyArgument(_))));
    let reply = refusal(&ParseError::UnknownCommand(String::from("t9")));
    assert_eq!(reply.lines, vec!["t9 BAD Unknown command"]);
    assert_eq!(reply.action, Action::Continue);
}

#[test]
fn command_lines_are_cut_outside_quotes_and_brackets() {
    let command = parse_command("a1 uid FETCH 1:* (UID BODY.PEEK[HEADER.FIELDS (From To)])")
        .expect("a command");
    assert_eq!(command.tag, "a1");
    assert_eq!(command.command, Commands::Uid);
    assert_eq!(
        command.arguments,
        vec!["FETCH", "1:*", "(UID BODY.PEEK[HEADER.FIELDS (From To)])"]
    );
    let command = parse_command("a LOGIN \"al ice\" \"p\\\" w\"").expect("a command");
    assert_eq!(command.command, Commands::Login);
    assert_eq!(command.arguments, vec!["\"al ice\"", "\"p\\\" w\""]);
    let data = Data::new(false);
    match data.demand(&command, &config()) {
        Demand::Verify { user, password } => {
            assert_eq!(user, "al ice");
            assert_eq!(password, "p\" w");
        }
        other => panic!("unexpected demand {:?}", other),
    }
}

#[test]
fn every_answer_ends_with_one_completion() {
    let mut data = selected();
    let mails = vec![mail(2, seen()), mail(5, MailFlags::none())];
    let answer = lines(&mut data, "tag7 UID FETCH 1:* (FLAGS RFC822.SIZE)", Supply::Mails(mails));
    let tagged: Vec<&String> = answer.iter().filter(|l| l.starts_with("tag7 ")).collect();
    assert_eq!(tagged.len(), 1);
    assert_eq!(answer.last().map(|l| l.as_str()), Some("tag7 OK UID FETCH completed"));
    assert!(answer[..answer.len() - 1].iter().all(|l| l.starts_with("* ")));
}

#[test]
fn listen_addresses_of_the_settings() {
    assert_eq!(Unencrypted::addresses(&config()), vec!["0.0.0.0:143"]);
    let two = Config {
        hostname: String::from("mx"),
        listen_ips: Some(vec![String::from("127.0.0.1"), String::from("10.0.0.7")]),
        allow_plaintext: true,
    };
    assert_eq!(Unencrypted::addresses(&two), vec!["127.0.0.1:143", "10.0.0.7:143"]);
    assert_eq!(listen_addresses(&two, IMAPS_PORT), vec!["127.0.0.1:993", "10.0.0.7:993"]);
    let none = Config { hostname: String::from("mx"), listen_ips: Some(Vec::new()), allow_plaintext: true };
    assert!(Unencrypted::addresses(&none).is_empty());
}

#[test]
fn the_server_ends_a_session() {
    let mut data = selected();
    let reply = data.shutdown();
    assert_eq!(reply.lines, vec!["* BYE Server shutting down"]);
    assert_eq!(reply.action, Action::Close);
    assert!(matches!(data.con_state.state, State::Logout));
    let mut data = logged_in();
    let reply = data.unreadable();
    assert_eq!(reply.lines, vec!["* BAD Unable to parse"]);
    assert_eq!(reply.action, Action::Close);
    assert!(matches!(data.con_state.state, State::Logout));
}

#[test]
fn spelled_commands_are_read_back() {
    let cases: Vec<(&str, Commands, &str, Vec<&str>)> = vec![
        ("a1", Commands::Noop, "NOOP", vec![]),
        ("x.7", Commands::Login, "LOGIN", vec!["alice", "\"p w\""]),
        ("t", Commands::Uid, "UID", vec!["FETCH", "1:*", "(UID BODY[HEADER.FIELDS (a b)])"]),
        ("t", Commands::List, "LIST", vec!["\"\"", "\"*\""]),
        ("z-9", Commands::Select, "SELECT", vec!["INBOX/Sent"]),
    ];
    for (tag, command, name, arguments) in cases {
        let mut parts = vec![tag, name];
        parts.extend(arguments.iter());
        let line = parts.join(" ");
        let read = parse_command(&line).expect("a command");
        assert_eq!(read.tag, tag);
        assert_eq!(read.command, command);
        assert_eq!(read.arguments, arguments);
    }
}
