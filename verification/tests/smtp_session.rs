use erooster::config::Config;
use erooster::reply::{Action, Reply};
use erooster::sasl::AuthOutcome;
use erooster::smtp::command::{parse_command, read_address, CommandData, Commands};
use erooster::smtp::ehlo::Ehlo;
use erooster::smtp::session::{greeting, Demand, Supply};
use erooster::smtp::state::{Data, State};

fn settings() -> Config {
    Config { hostname: String::from("mx"), listen_ips: None, allow_plaintext: false }
}

fn say(data: &mut Data, line: &str, supply: Supply) -> Reply {
    data.exec(line, &supply, &settings())
}

fn answer(data: &mut Data, line: &str) -> Vec<String> {
    say(data, line, Supply::Nothing).lines
}

fn strings(items: &[&str]) -> Vec<String> {
    items.iter().map(|s| String::from(*s)).collect()
}

#[test]
fn happy_path() {
    assert_eq!(greeting("mx"), "220 mx ESMTP Service Ready");
    let mut data = Data::new(false);
    assert_eq!(data.con_state.state, State::Greet);
    assert_eq!(
        answer(&mut data, "EHLO c"),
        vec!["250-mx", "250-ENHANCEDSTATUSCODES", "250-STARTTLS", "250 SMTPUTF8"]
    );
    assert_eq!(data.con_state.state, State::Idle);
    assert_eq!(data.con_state.ehlo, Some(String::from("c")));

    assert_eq!(answer(&mut data, "MAIL FROM:<a@x>"), vec!["250 Ok"]);
    assert_eq!(data.con_state.state, State::Mail);
    assert_eq!(data.con_state.mail_from, Some(String::from("a@x")));

    match data.demand("RCPT TO:<b@mx>", &settings()) {
        Demand::Recipient { address } => assert_eq!(address, "b@mx"),
        other => panic!("unexpected demand {:?}", other),
    }
    assert_eq!(say(&mut data, "RCPT TO:<b@mx>", Supply::Recipient(true)).lines, vec!["250 Ok"]);
    assert_eq!(data.con_state.state, State::Rcpt);
    assert_eq!(data.con_state.rcpt_to, vec!["b@mx"]);

    assert_eq!(answer(&mut data, "DATA"), vec!["354 End data with <CR><LF>.<CR><LF>"]);
    assert_eq!(data.con_state.state, State::Data);
    assert!(answer(&mut data, "Subject: hi").is_empty());
    assert!(answer(&mut data, "").is_empty());
    assert!(answer(&mut data, "..").is_empty());
    assert!(answer(&mut data, ".leading dot").is_empty());
    assert!(answer(&mut data, "QUIT").is_empty());
    assert_eq!(data.con_state.data_buffer, vec!["Subject: hi", "", ".", "leading dot", "QUIT"]);
    assert_eq!(data.con_state.state, State::Data);

    assert!(matches!(data.demand(".", &settings()), Demand::Deliver));
    assert_eq!(say(&mut data, ".", Supply::Delivered(true)).lines, vec!["250 Ok: queued"]);
    assert_eq!(data.con_state.state, State::Idle);
    assert_eq!(data.con_state.mail_from, None);
    assert!(data.con_state.rcpt_to.is_empty());
    assert!(data.con_state.data_buffer.is_empty());
    assert_eq!(data.con_state.ehlo, Some(String::from("c")));

    let reply = say(&mut data, "QUIT", Supply::Nothing);
    assert_eq!(reply.lines, vec!["221 Bye"]);
    assert_eq!(reply.action, Action::Close);
    assert_eq!(data.con_state.state, State::Closed);
    let reply = say(&mut data, "NOOP", Supply::Nothing);
    assert!(reply.lines.is_empty());
    assert_eq!(reply.action, Action::Close);
}

#[test]
fn wrong_sequence() {
    let mut data = Data::new(false);
    answer(&mut data, "EHLO c");
    assert_eq!(answer(&mut data, "DATA"), vec!["503 Bad sequence of commands"]);
    assert_eq!(data.con_state.state, State::Idle);
    assert_eq!(answer(&mut data, "RCPT TO:<b@mx>"), vec!["503 Bad sequence of commands"]);
    assert!(matches!(data.demand("RCPT TO:<b@mx>", &settings()), Demand::Nothing));

    let mut fresh = Data::new(false);
    assert_eq!(answer(&mut fresh, "MAIL FROM:<a@x>"), vec!["503 Bad sequence of commands"]);
    assert_eq!(fresh.con_state.state, State::Greet);

    answer(&mut data, "MAIL FROM:<a@x>");
    assert_eq!(answer(&mut data, "MAIL FROM:<c@x>"), vec!["503 Bad sequence of commands"]);
    assert_eq!(answer(&mut data, "DATA"), vec!["503 Bad sequence of commands"]);
    assert_eq!(answer(&mut data, "EHLO again"), vec!["503 Bad sequence of commands"]);
}

#[test]
fn ehlo_without_a_name() {
    let mut data = Data::new(false);
    assert_eq!(answer(&mut data, "EHLO"), vec!["501 Syntax error in parameters or arguments"]);
    assert_eq!(answer(&mut data, "EHLO   "), vec!["501 Syntax error in parameters or arguments"]);
    assert_eq!(data.con_state.state, State::Greet);
    assert_eq!(answer(&mut data, "HELO"), vec!["501 Syntax error in parameters or arguments"]);
    assert_eq!(answer(&mut data, "helo there"), vec!["250 mx"]);
    assert_eq!(data.con_state.state, State::Idle);
    assert_eq!(data.con_state.ehlo, Some(String::from("there")));
}

#[test]
fn ehlo_command_alone() {
    let command = CommandData { command: Commands::Ehlo, arguments: strings(&["client"]) };
    let mut plain = Data::new(false);
    assert_eq!(
        (Ehlo { data: &mut plain }).exec("mail.example", &command),
        vec!["250-mail.example", "250-ENHANCEDSTATUSCODES", "250-STARTTLS", "250 SMTPUTF8"]
    );
    assert_eq!(plain.con_state.state, State::Idle);
    assert_eq!(plain.con_state.ehlo, Some(String::from("client")));
    assert_eq!(answer(&mut plain, "MAIL FROM:<a@x>"), vec!["250 Ok"]);

    let mut secure = Data::new(true);
    assert_eq!(
        (Ehlo { data: &mut secure }).exec("mail.example", &command),
        vec!["250-mail.example", "250-ENHANCEDSTATUSCODES", "250-AUTH LOGIN PLAIN", "250 SMTPUTF8"]
    );
    assert_eq!(secure.con_state.state, State::Idle);
    assert!(secure.con_state.secure);
}

#[test]
fn ehlo_leaves_no_message_under_way() {
    let command = CommandData { command: Commands::Ehlo, arguments: strings(&["c"]) };
    let mut data = Data::new(false);
    (Ehlo { data: &mut data }).exec("mx", &command);
    assert_eq!(data.con_state.state, State::Idle);
    assert_eq!(data.con_state.mail_from, None);
    assert!(data.con_state.rcpt_to.is_empty());
    assert!(data.con_state.data_buffer.is_empty());
    assert_eq!(answer(&mut data, "DATA"), vec!["503 Bad sequence of commands"]);
    let again = CommandData { command: Commands::Ehlo, arguments: strings(&["d"]) };
    (Ehlo { data: &mut data }).exec("mx", &again);
    assert_eq!(data.con_state.ehlo, Some(String::from("d")));
}

#[test]
fn ehlo_that_names_no_host_is_refused() {
    let none = CommandData { command: Commands::Ehlo, arguments: Vec::new() };
    let empty = CommandData { command: Commands::Ehlo, arguments: strings(&[""]) };
    let mut data = Data::new(false);
    data.con_state.ehlo = Some(String::from("before"));
    for command in [&none, &empty] {
        assert_eq!(
            (Ehlo { data: &mut data }).exec("mx", command),
            vec!["501 Syntax error in parameters or arguments"]
        );
        assert_eq!(data.con_state.state, State::Greet);
        assert_eq!(data.con_state.ehlo, Some(String::from("before")));
    }
}

#[test]
fn ehlo_out_of_sequence_is_refused() {
    let command = CommandData { command: Commands::Ehlo, arguments: strings(&["c"]) };
    let mut data = Data::new(false);
    answer(&mut data, "EHLO first");
    answer(&mut data, "MAIL FROM:<a@x>");
    assert_eq!(
        (Ehlo { data: &mut data }).exec("mx", &command),
        vec!["503 Bad sequence of commands"]
    );
    assert_eq!(data.con_state.state, State::Mail);
    assert_eq!(data.con_state.ehlo, Some(String::from("first")));
    assert_eq!(data.con_state.mail_from, Some(String::from("a@x")));
}

#[test]
fn unknown_recipient_and_bad_addresses() {
    let mut data = Data::new(false);
    answer(&mut data, "EHLO c");
    assert_eq!(answer(&mut data, "MAIL a@x"), vec!["501 Syntax error in parameters or arguments"]);
    assert_eq!(answer(&mut data, "MAIL"), vec!["501 Syntax error in parameters or arguments"]);
    assert_eq!(answer(&mut data, "mail from: <a@x> SIZE=100"), vec!["250 Ok"]);
    assert_eq!(data.con_state.mail_from, Some(String::from("a@x")));
    assert_eq!(
        say(&mut data, "RCPT TO:<nobody@mx>", Supply::Recipient(false)).lines,
        vec!["550 No such user here"]
    );
    assert_eq!(data.con_state.state, State::Mail);
    assert!(data.con_state.rcpt_to.is_empty());
    assert_eq!(answer(&mut data, "RCPT TO:<>"), vec!["501 Syntax error in parameters or arguments"]);
    assert_eq!(say(&mut data, "RCPT TO:<b@mx>", Supply::Recipient(true)).lines, vec!["250 Ok"]);
    assert_eq!(say(&mut data, "RCPT TO:<c@mx>", Supply::Recipient(true)).lines, vec!["250 Ok"]);
    assert_eq!(data.con_state.rcpt_to, vec!["b@mx", "c@mx"]);
    assert_eq!(data.con_state.state, State::Rcpt);
}

#[test]
fn null_sender_is_accepted() {
    let mut data = Data::new(false);
    answer(&mut data, "EHLO c");
    assert_eq!(answer(&mut data, "MAIL FROM:<>"), vec!["250 Ok"]);
    assert_eq!(data.con_state.mail_from, Some(String::new()));
}

#[test]
fn recipient_without_an_answer_gives_up() {
    let mut data = Data::new(false);
    answer(&mut data, "EHLO c");
    answer(&mut data, "MAIL FROM:<a@x>");
    let reply = say(&mut data, "RCPT TO:<b@mx>", Supply::Nothing);
    assert_eq!(reply.lines, vec!["421 mx Service not available, closing transmission channel"]);
    assert_eq!(reply.action, Action::Close);
    assert_eq!(data.con_state.state, State::Closed);
}

#[test]
fn failed_delivery() {
    let mut data = Data::new(false);
    answer(&mut data, "EHLO c");
    answer(&mut data, "MAIL FROM:<a@x>");
    say(&mut data, "RCPT TO:<b@mx>", Supply::Recipient(true));
    answer(&mut data, "DATA");
    answer(&mut data, "text");
    assert_eq!(
        say(&mut data, ".", Supply::Delivered(false)).lines,
        vec!["451 Requested action aborted: local error in processing"]
    );
    assert_eq!(data.con_state.state, State::Idle);
    assert!(data.con_state.data_buffer.is_empty());
}

#[test]
fn rset_noop_and_unknown_commands() {
    let mut data = Data::new(false);
    assert_eq!(answer(&mut data, "NOOP"), vec!["250 Ok"]);
    assert_eq!(answer(&mut data, "RSET"), vec!["250 Ok"]);
    assert_eq!(data.con_state.state, State::Greet);
    assert_eq!(answer(&mut data, "VRFY x"), vec!["500 Syntax error, command unrecognized"]);
    assert_eq!(answer(&mut data, ""), vec!["500 Syntax error, command unrecognized"]);
    answer(&mut data, "EHLO c");
    answer(&mut data, "MAIL FROM:<a@x>");
    say(&mut data, "RCPT TO:<b@mx>", Supply::Recipient(true));
    assert_eq!(answer(&mut data, "RSET"), vec!["250 Ok"]);
    assert_eq!(data.con_state.state, State::Idle);
    assert_eq!(data.con_state.mail_from, None);
    assert!(data.con_state.rcpt_to.is_empty());
    assert_eq!(data.con_state.ehlo, Some(String::from("c")));
}

#[test]
fn starttls_then_auth() {
    let mut data = Data::new(false);
    assert_eq!(answer(&mut data, "STARTTLS"), vec!["503 Bad sequence of commands"]);
    answer(&mut data, "EHLO c");
    assert_eq!(
        answer(&mut data, "AUTH PLAIN AGFsaWNlAHB3"),
        vec!["530 Must issue a STARTTLS command first"]
    );
    let reply = say(&mut data, "STARTTLS", Supply::Nothing);
    assert_eq!(reply.lines, vec!["220 Ready to start TLS"]);
    assert_eq!(reply.action, Action::Upgrade);
    assert!(!data.con_state.secure);
    data.upgraded(true);
    assert!(data.con_state.secure);
    assert_eq!(data.con_state.state, State::Idle);
    assert_eq!(answer(&mut data, "STARTTLS"), vec!["503 Bad sequence of commands"]);
    assert!(data.con_state.secure);
    assert_eq!(
        answer(&mut data, "EHLO c"),
        vec!["250-mx", "250-ENHANCEDSTATUSCODES", "250-AUTH LOGIN PLAIN", "250 SMTPUTF8"]
    );

    match data.demand("AUTH PLAIN AGFsaWNlAHB3", &settings()) {
        Demand::Verify { user, password } => {
            assert_eq!(user, "alice");
            assert_eq!(password, "pw");
        }
        other => panic!("unexpected demand {:?}", other),
    }
    assert_eq!(
        say(&mut data, "AUTH PLAIN AGFsaWNlAHB3", Supply::Verified(AuthOutcome::BadCredentials)).lines,
        vec!["535 Authentication credentials invalid"]
    );
    assert_eq!(
        say(&mut data, "AUTH PLAIN AGFsaWNlAHB3", Supply::Verified(AuthOutcome::Unavailable)).lines,
        vec!["454 Temporary authentication failure"]
    );
    assert_eq!(data.con_state.username, None);
    assert_eq!(
        say(
            &mut data,
            "AUTH PLAIN AGFsaWNlAHB3",
            Supply::Verified(AuthOutcome::Accepted(String::from("alice")))
        )
        .lines,
        vec!["235 Authentication successful"]
    );
    assert_eq!(data.con_state.username, Some(String::from("alice")));
    assert_eq!(data.con_state.state, State::Idle);
    assert_eq!(answer(&mut data, "AUTH LOGIN"), vec!["504 Unrecognized authentication type"]);
    assert_eq!(answer(&mut data, "AUTH"), vec!["501 Syntax error in parameters or arguments"]);
    assert_eq!(answer(&mut data, "AUTH PLAIN"), vec!["501 Syntax error in parameters or arguments"]);
    assert_eq!(answer(&mut data, "AUTH PLAIN !!!!"), vec!["501 Syntax error in parameters or arguments"]);

    let mut failed = Data::new(false);
    failed.upgraded(false);
    assert_eq!(failed.con_state.state, State::Closed);
    assert!(!failed.con_state.secure);
}

#[test]
fn commands_and_addresses_are_read() {
    let command = parse_command("  rcpt   TO:<b@mx>  NOTIFY=NEVER ").expect("a command");
    assert_eq!(command.command, Commands::Rcpt);
    assert_eq!(command.arguments, vec!["TO:<b@mx>", "NOTIFY=NEVER"]);
    assert!(parse_command("").is_none());
    assert!(parse_command("HELP").is_none());
    assert_eq!(read_address("TO:", "TO:<", &command.arguments), Some(String::from("b@mx")));
    assert_eq!(read_address("FROM:", "FROM:<", &command.arguments), None);
    assert_eq!(read_address("TO:", "TO:<", &strings(&["to:", "<x@y>"])), Some(String::from("x@y")));
    assert_eq!(read_address("TO:", "TO:<", &strings(&["TO:<x@y"])), None);
    assert_eq!(read_address("TO:", "TO:<", &Vec::new()), None);
}

#[test]
fn the_server_closes_the_channel() {
    let mut data = Data::new(false);
    answer(&mut data, "EHLO c");
    let reply = data.shutdown(&settings());
    assert_eq!(reply.lines, vec!["421 mx Service closing transmission channel"]);
    assert_eq!(reply.action, Action::Close);
    assert_eq!(data.con_state.state, State::Closed);
}

#[test]
fn bytes_that_are_no_line_are_refused() {
    let mut data = Data::new(false);
    answer(&mut data, "EHLO c");
    answer(&mut data, "MAIL FROM:<a@x>");
    let reply = data.unreadable();
    assert_eq!(reply.lines, vec!["500 Syntax error, command unrecognized"]);
    assert_eq!(reply.action, Action::Continue);
    assert_eq!(data.con_state.state, State::Mail);
    say(&mut data, "RCPT TO:<b@mx>", Supply::Recipient(true));
    answer(&mut data, "DATA");
    answer(&mut data, "text");
    data.unreadable();
    assert_eq!(data.con_state.state, State::Idle);
    assert!(data.con_state.data_buffer.is_empty());
}
