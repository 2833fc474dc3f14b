//! One command line of an SMTP client.

use vstd::prelude::*;
use crate::text::{
    chars_of, enclosed, inside, is_enclosed, is_word, same_text, split_words, string_of,
    text_view, texts, words,
};

verus! {

/// The commands that the server knows.
#[derive(Clone, Copy, Debug, PartialEq, Eq, Structural)]
pub enum Commands {
    Ehlo,
    Helo,
    Mail,
    Rcpt,
    Data,
    Rset,
    Noop,
    Quit,
    StartTls,
    Auth,
}

/// What a `CommandData` stands for.
pub struct CommandView {
    pub command: Commands,
    pub arguments: Seq<Seq<char>>,
}

/// One parsed command line.
#[derive(Clone, Debug)]
pub struct CommandData {
    pub command: Commands,
    pub arguments: Vec<String>,
}

impl View for CommandData {
    type V = CommandView;

    open spec fn view(&self) -> CommandView {
        CommandView { command: self.command, arguments: self.arguments.deep_view() }
    }
}

/// The command that `word` names, ignoring ASCII case.
pub open spec fn command_named(word: Seq<char>) -> Option<Commands> {
    if same_text(word, "EHLO"@) {
        Some(Commands::Ehlo)
    } else if same_text(word, "HELO"@) {
        Some(Commands::Helo)
    } else if same_text(word, "MAIL"@) {
        Some(Commands::Mail)
    } else if same_text(word, "RCPT"@) {
        Some(Commands::Rcpt)
    } else if same_text(word, "DATA"@) {
        Some(Commands::Data)
    } else if same_text(word, "RSET"@) {
        Some(Commands::Rset)
    } else if same_text(word, "NOOP"@) {
        Some(Commands::Noop)
    } else if same_text(word, "QUIT"@) {
        Some(Commands::Quit)
    } else if same_text(word, "STARTTLS"@) {
        Some(Commands::StartTls)
    } else if same_text(word, "AUTH"@) {
        Some(Commands::Auth)
    } else {
        None
    }
}

/// The command that a line spells: its first word names the command, the
/// other words are the arguments. `None` where the line has no word or its
/// first word names no command.
pub open spec fn command_of(line: Seq<char>) -> Option<CommandView> {
    let w = words(line, ' ');
    if w.len() == 0 {
        None
    } else {
        match command_named(w[0]) {
            Some(command) => Some(CommandView { command, arguments: w.skip(1) }),
            None => None,
        }
    }
}

/// What an optional command stands for.
pub open spec fn command_view(r: Option<CommandData>) -> Option<CommandView> {
    match r {
        Some(c) => Some(c@),
        None => None,
    }
}

fn find_command(word: &Vec<char>) -> (r: Option<Commands>)
    ensures
        r == command_named(word@),
{
    if is_word(word, "EHLO") {
        Some(Commands::Ehlo)
    } else if is_word(word, "HELO") {
        Some(Commands::Helo)
    } else if is_word(word, "MAIL") {
        Some(Commands::Mail)
    } else if is_word(word, "RCPT") {
        Some(Commands::Rcpt)
    } else if is_word(word, "DATA") {
        Some(Commands::Data)
    } else if is_word(word, "RSET") {
        Some(Commands::Rset)
    } else if is_word(word, "NOOP") {
        Some(Commands::Noop)
    } else if is_word(word, "QUIT") {
        Some(Commands::Quit)
    } else if is_word(word, "STARTTLS") {
        Some(Commands::StartTls)
    } else if is_word(word, "AUTH") {
        Some(Commands::Auth)
    } else {
        None
    }
}

/// Reads one command line.
pub fn parse_command(line: &str) -> (r: Option<CommandData>)
    ensures
        command_view(r) == command_of(line@),
{
    let w = split_words(&chars_of(line), ' ');
    let ghost all = words(line@, ' ');
    if w.len() == 0 {
        return None;
    }
    assert(all[0] == w@[0]@);
    let command = match find_command(&w[0]) {
        Some(c) => c,
        None => {
            return None;
        },
    };
    let mut arguments: Vec<String> = Vec::new();
    let mut i: usize = 1;
    while i < w.len()
        invariant
            1 <= i <= w.len(),
            all == texts(w@),
            arguments.len() == i - 1,
            forall|j: int| 0 <= j < i - 1 ==> (#[trigger] arguments@[j])@ == all[j + 1],
        decreases w.len() - i,
    {
        assert(all[i as int] == w@[i as int]@);
        arguments.push(string_of(&w[i]));
        i += 1;
    }
    assert(arguments.deep_view() =~= all.skip(1));
    Some(CommandData { command, arguments })
}

/// The address between angle brackets behind `prefix`, which is `FROM:` or
/// `TO:`; `open` is the prefix with the opening bracket. The address is in
/// the first argument, or in the second where the first is the bare prefix.
/// Further arguments are parameters and are passed over.
pub open spec fn address_of(prefix: Seq<char>, open: Seq<char>, arguments: Seq<Seq<char>>)
    -> Option<Seq<char>> {
    if arguments.len() == 0 {
        None
    } else {
        let text = if same_text(arguments[0], prefix) && arguments.len() >= 2 {
            arguments[0] + arguments[1]
        } else {
            arguments[0]
        };
        if is_enclosed(text, open, '>') {
            Some(enclosed(text, open))
        } else {
            None
        }
    }
}

/// Reads the address of a MAIL or RCPT command.
pub fn read_address(prefix: &str, open: &str, arguments: &Vec<String>) -> (r: Option<String>)
    ensures
        text_view(r) == address_of(prefix@, open@, arguments.deep_view()),
{
    if arguments.len() == 0 {
        return None;
    }
    let mut text = chars_of(arguments[0].as_str());
    if is_word(&text, prefix) && arguments.len() >= 2 {
        let second = chars_of(arguments[1].as_str());
        let ghost first = text@;
        let mut i: usize = 0;
        while i < second.len()
            invariant
                i <= second.len(),
                text@ == first + second@.take(i as int),
            decreases second.len() - i,
        {
            text.push(second[i]);
            assert(first + second@.take(i + 1) =~= (first + second@.take(i as int)).push(
                second@[i as int],
            ));
            i += 1;
        }
        assert(second@.take(second.len() as int) =~= second@);
    }
    match inside(&text, open, '>') {
        Some(address) => Some(string_of(&address)),
        None => None,
    }
}

} // verus!
