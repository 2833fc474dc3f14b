//! One command line of a client: tag, command and arguments.

use vstd::prelude::*;
use vstd::string::StringExecFns;
use crate::text::{
    chars_of, is_closed, is_name_char, is_word, join, lemma_name_is_closed,
    lemma_pieces_of_joined, lower, lowered, pieces, same_text, split_top, string_of, texts, Scan,
};

verus! {

/// The commands that the server knows.
#[derive(Clone, Copy, Debug, PartialEq, Eq, Structural)]
pub enum Commands {
    Capability,
    Noop,
    Logout,
    StartTls,
    Login,
    Authenticate,
    List,
    Select,
    Examine,
    Create,
    Close,
    Unselect,
    Check,
    Uid,
    Fetch,
    Store,
    Append,
    Copy,
    Move,
    Expunge,
    Search,
}

/// What a `CommandData` stands for.
pub struct CommandView {
    pub tag: Seq<char>,
    pub command: Commands,
    pub arguments: Seq<Seq<char>>,
}

/// One parsed command line.
#[derive(Clone, Debug)]
pub struct CommandData {
    pub tag: String,
    pub command: Commands,
    pub arguments: Vec<String>,
}

impl View for CommandData {
    type V = CommandView;

    open spec fn view(&self) -> CommandView {
        CommandView {
            tag: self.tag@,
            command: self.command,
            arguments: self.arguments.deep_view(),
        }
    }
}


/// The characters of a tag: those of a name but for `+`.
pub open spec fn is_tag_char(c: char) -> bool {
    is_name_char(c) && c != '+'
}

/// Whether `s` is a tag: one or more tag characters.
pub open spec fn is_tag(s: Seq<char>) -> bool {
    s.len() > 0 && forall|i: int| 0 <= i < s.len() ==> is_tag_char(#[trigger] s[i])
}

/// The name of a command as the server writes it.
pub open spec fn command_name(command: Commands) -> Seq<char> {
    match command {
        Commands::Capability => "CAPABILITY"@,
        Commands::Noop => "NOOP"@,
        Commands::Logout => "LOGOUT"@,
        Commands::StartTls => "STARTTLS"@,
        Commands::Login => "LOGIN"@,
        Commands::Authenticate => "AUTHENTICATE"@,
        Commands::List => "LIST"@,
        Commands::Select => "SELECT"@,
        Commands::Examine => "EXAMINE"@,
        Commands::Create => "CREATE"@,
        Commands::Close => "CLOSE"@,
        Commands::Unselect => "UNSELECT"@,
        Commands::Check => "CHECK"@,
        Commands::Uid => "UID"@,
        Commands::Fetch => "FETCH"@,
        Commands::Store => "STORE"@,
        Commands::Append => "APPEND"@,
        Commands::Copy => "COPY"@,
        Commands::Move => "MOVE"@,
        Commands::Expunge => "EXPUNGE"@,
        Commands::Search => "SEARCH"@,
    }
}

/// The command that `word` names, ignoring ASCII case.
pub open spec fn command_named(word: Seq<char>) -> Option<Commands> {
    if same_text(word, "CAPABILITY"@) {
        Some(Commands::Capability)
    } else if same_text(word, "NOOP"@) {
        Some(Commands::Noop)
    } else if same_text(word, "LOGOUT"@) {
        Some(Commands::Logout)
    } else if same_text(word, "STARTTLS"@) {
        Some(Commands::StartTls)
    } else if same_text(word, "LOGIN"@) {
        Some(Commands::Login)
    } else if same_text(word, "AUTHENTICATE"@) {
        Some(Commands::Authenticate)
    } else if same_text(word, "LIST"@) {
        Some(Commands::List)
    } else if same_text(word, "SELECT"@) {
        Some(Commands::Select)
    } else if same_text(word, "EXAMINE"@) {
        Some(Commands::Examine)
    } else if same_text(word, "CREATE"@) {
        Some(Commands::Create)
    } else if same_text(word, "CLOSE"@) {
        Some(Commands::Close)
    } else if same_text(word, "UNSELECT"@) {
        Some(Commands::Unselect)
    } else if same_text(word, "CHECK"@) {
        Some(Commands::Check)
    } else if same_text(word, "UID"@) {
        Some(Commands::Uid)
    } else if same_text(word, "FETCH"@) {
        Some(Commands::Fetch)
    } else if same_text(word, "STORE"@) {
        Some(Commands::Store)
    } else if same_text(word, "APPEND"@) {
        Some(Commands::Append)
    } else if same_text(word, "COPY"@) {
        Some(Commands::Copy)
    } else if same_text(word, "MOVE"@) {
        Some(Commands::Move)
    } else if same_text(word, "EXPUNGE"@) {
        Some(Commands::Expunge)
    } else if same_text(word, "SEARCH"@) {
        Some(Commands::Search)
    } else {
        None
    }
}

/// Why a line is no command. All but `BadTag` hold the tag of the line.
#[derive(Clone, Debug)]
pub enum ParseError {
    BadTag,
    MissingCommand(String),
    UnknownCommand(String),
    EmptyArgument(String),
}

/// What a `ParseError` stands for.
pub enum ParseErrorView {
    BadTag,
    MissingCommand(Seq<char>),
    UnknownCommand(Seq<char>),
    EmptyArgument(Seq<char>),
}

impl View for ParseError {
    type V = ParseErrorView;

    open spec fn view(&self) -> ParseErrorView {
        match self {
            ParseError::BadTag => ParseErrorView::BadTag,
            ParseError::MissingCommand(tag) => ParseErrorView::MissingCommand(tag@),
            ParseError::UnknownCommand(tag) => ParseErrorView::UnknownCommand(tag@),
            ParseError::EmptyArgument(tag) => ParseErrorView::EmptyArgument(tag@),
        }
    }
}

/// The command that a line spells. The line is cut at each space that is
/// outside every bracket and quoted string; the first piece is the tag, the
/// second names the command, the others are the arguments.
pub open spec fn command_of(line: Seq<char>) -> Result<CommandView, ParseErrorView> {
    let tokens = pieces(line, Scan::top());
    if !is_tag(tokens[0]) {
        Err(ParseErrorView::BadTag)
    } else if tokens.len() < 2 {
        Err(ParseErrorView::MissingCommand(tokens[0]))
    } else if command_named(tokens[1]) is None {
        Err(ParseErrorView::UnknownCommand(tokens[0]))
    } else if exists|i: int| 2 <= i < tokens.len() && (#[trigger] tokens[i]).len() == 0 {
        Err(ParseErrorView::EmptyArgument(tokens[0]))
    } else {
        Ok(
            CommandView {
                tag: tokens[0],
                command: command_named(tokens[1])->0,
                arguments: tokens.skip(2),
            },
        )
    }
}

/// What the outcome of parsing a line stands for.
pub open spec fn parsed_view(r: Result<CommandData, ParseError>) -> Result<
    CommandView,
    ParseErrorView,
> {
    match r {
        Ok(c) => Ok(c@),
        Err(e) => Err(e@),
    }
}

fn is_tag_text(s: &Vec<char>) -> (r: bool)
    ensures
        r == is_tag(s@),
{
    if s.len() == 0 {
        return false;
    }
    let mut i: usize = 0;
    while i < s.len()
        invariant
            i <= s.len(),
            forall|j: int| 0 <= j < i ==> is_tag_char(#[trigger] s@[j]),
        decreases s.len() - i,
    {
        let c = s[i];
        if !('!' <= c && c <= '~' && c != '(' && c != ')' && c != '[' && c != ']' && c != '{' && c
            != '"' && c != '\\' && c != '%' && c != '*' && c != '+') {
            return false;
        }
        i += 1;
    }
    true
}

/// The command that `word` names.
pub fn find_command(word: &Vec<char>) -> (r: Option<Commands>)
    ensures
        r == command_named(word@),
{
    if is_word(word, "CAPABILITY") {
        Some(Commands::Capability)
    } else if is_word(word, "NOOP") {
        Some(Commands::Noop)
    } else if is_word(word, "LOGOUT") {
        Some(Commands::Logout)
    } else if is_word(word, "STARTTLS") {
        Some(Commands::StartTls)
    } else if is_word(word, "LOGIN") {
        Some(Commands::Login)
    } else if is_word(word, "AUTHENTICATE") {
        Some(Commands::Authenticate)
    } else if is_word(word, "LIST") {
        Some(Commands::List)
    } else if is_word(word, "SELECT") {
        Some(Commands::Select)
    } else if is_word(word, "EXAMINE") {
        Some(Commands::Examine)
    } else if is_word(word, "CREATE") {
        Some(Commands::Create)
    } else if is_word(word, "CLOSE") {
        Some(Commands::Close)
    } else if is_word(word, "UNSELECT") {
        Some(Commands::Unselect)
    } else if is_word(word, "CHECK") {
        Some(Commands::Check)
    } else if is_word(word, "UID") {
        Some(Commands::Uid)
    } else if is_word(word, "FETCH") {
        Some(Commands::Fetch)
    } else if is_word(word, "STORE") {
        Some(Commands::Store)
    } else if is_word(word, "APPEND") {
        Some(Commands::Append)
    } else if is_word(word, "COPY") {
        Some(Commands::Copy)
    } else if is_word(word, "MOVE") {
        Some(Commands::Move)
    } else if is_word(word, "EXPUNGE") {
        Some(Commands::Expunge)
    } else if is_word(word, "SEARCH") {
        Some(Commands::Search)
    } else {
        None
    }
}

/// Reads one command line.
pub fn parse_command(line: &str) -> (r: Result<CommandData, ParseError>)
    ensures
        parsed_view(r) == command_of(line@),
{
    let tokens = split_top(&chars_of(line));
    let ghost all = pieces(line@, Scan::top());
    assert(all[0] == tokens@[0]@);
    if !is_tag_text(&tokens[0]) {
        return Err(ParseError::BadTag);
    }
    let tag = string_of(&tokens[0]);
    if tokens.len() < 2 {
        return Err(ParseError::MissingCommand(tag));
    }
    assert(all[1] == tokens@[1]@);
    let command = match find_command(&tokens[1]) {
        Some(c) => c,
        None => {
            return Err(ParseError::UnknownCommand(tag));
        },
    };
    let mut arguments: Vec<String> = Vec::new();
    let mut i: usize = 2;
    while i < tokens.len()
        invariant
            2 <= i <= tokens.len(),
            all == texts(tokens@),
            all == pieces(line@, Scan::top()),
            arguments.len() == i - 2,
            tag@ == all[0],
            is_tag(all[0]),
            command_named(all[1]) == Some(command),
            forall|j: int| 2 <= j < i ==> (#[trigger] all[j]).len() > 0,
            forall|j: int| 0 <= j < i - 2 ==> (#[trigger] arguments@[j])@ == all[j + 2],
        decreases tokens.len() - i,
    {
        assert(all[i as int] == tokens@[i as int]@);
        if tokens[i].len() == 0 {
            return Err(ParseError::EmptyArgument(tag));
        }
        arguments.push(string_of(&tokens[i]));
        i += 1;
    }
    assert(arguments.deep_view() =~= all.skip(2));
    Ok(CommandData { tag, command, arguments })
}


/// A line that begins with the tag of the command that it answers.
pub open spec fn tagged(tag: Seq<char>, text: Seq<char>) -> Seq<char> {
    tag + " "@ + text
}

/// The line `tag`, a space, `text`.
pub fn tagged_line(tag: &String, text: &str) -> (line: String)
    ensures
        line@ == tagged(tag@, text@),
{
    let mut line = String::new();
    line.append(tag.as_str());
    line.append(" ");
    line.append(text);
    line
}

/// The one line `tag`, a space, `text`.
pub fn tagged_reply(tag: &String, text: &str) -> (lines: Vec<String>)
    ensures
        lines.deep_view() == seq![tagged(tag@, text@)],
{
    let mut lines: Vec<String> = Vec::new();
    lines.push(tagged_line(tag, text));
    assert(lines.deep_view() =~= seq![tagged(tag@, text@)]);
    lines
}


/// The line that spells a command: tag, name and arguments with single
/// spaces between them.
pub open spec fn command_text(command: CommandView) -> Seq<char> {
    join(seq![command.tag, command_name(command.command)] + command.arguments, " "@)
}

/// Whether a command can be spelled: its tag is a tag, and each argument is
/// a piece of its own that is not empty and leaves no bracket and no quoted
/// string open.
pub open spec fn is_well_formed(command: CommandView) -> bool {
    is_tag(command.tag) && forall|i: int|
        0 <= i < command.arguments.len() ==> (#[trigger] command.arguments[i]).len() > 0
            && is_closed(command.arguments[i])
}

/// The length of a word and its first three letters in small.
spec fn mark(word: Seq<char>) -> (nat, char, char, char) {
    (word.len(), lower(word[0]), lower(word[1]), lower(word[2]))
}

proof fn lemma_same_text_mark(a: Seq<char>, b: Seq<char>)
    requires
        same_text(a, b),
        a.len() >= 3,
    ensures
        mark(a) == mark(b),
{
    assert(lowered(a).len() == lowered(b).len());
    assert(lowered(a)[0] == lowered(b)[0]);
    assert(lowered(a)[1] == lowered(b)[1]);
    assert(lowered(a)[2] == lowered(b)[2]);
}

/// The marks of the names of the commands.
proof fn lemma_marks()
    ensures
        mark("CAPABILITY"@) == (10nat, 'c', 'a', 'p'),
        mark("NOOP"@) == (4nat, 'n', 'o', 'o'),
        mark("LOGOUT"@) == (6nat, 'l', 'o', 'g'),
        mark("STARTTLS"@) == (8nat, 's', 't', 'a'),
        mark("LOGIN"@) == (5nat, 'l', 'o', 'g'),
        mark("AUTHENTICATE"@) == (12nat, 'a', 'u', 't'),
        mark("LIST"@) == (4nat, 'l', 'i', 's'),
        mark("SELECT"@) == (6nat, 's', 'e', 'l'),
        mark("EXAMINE"@) == (7nat, 'e', 'x', 'a'),
        mark("CREATE"@) == (6nat, 'c', 'r', 'e'),
        mark("CLOSE"@) == (5nat, 'c', 'l', 'o'),
        mark("UNSELECT"@) == (8nat, 'u', 'n', 's'),
        mark("CHECK"@) == (5nat, 'c', 'h', 'e'),
        mark("UID"@) == (3nat, 'u', 'i', 'd'),
        mark("FETCH"@) == (5nat, 'f', 'e', 't'),
        mark("STORE"@) == (5nat, 's', 't', 'o'),
        mark("APPEND"@) == (6nat, 'a', 'p', 'p'),
        mark("COPY"@) == (4nat, 'c', 'o', 'p'),
        mark("MOVE"@) == (4nat, 'm', 'o', 'v'),
        mark("EXPUNGE"@) == (7nat, 'e', 'x', 'p'),
        mark("SEARCH"@) == (6nat, 's', 'e', 'a'),
{
    reveal_strlit("CAPABILITY");
    reveal_strlit("NOOP");
    reveal_strlit("LOGOUT");
    reveal_strlit("STARTTLS");
    reveal_strlit("LOGIN");
    reveal_strlit("AUTHENTICATE");
    reveal_strlit("LIST");
    reveal_strlit("SELECT");
    reveal_strlit("EXAMINE");
    reveal_strlit("CREATE");
    reveal_strlit("CLOSE");
    reveal_strlit("UNSELECT");
    reveal_strlit("CHECK");
    reveal_strlit("UID");
    reveal_strlit("FETCH");
    reveal_strlit("STORE");
    reveal_strlit("APPEND");
    reveal_strlit("COPY");
    reveal_strlit("MOVE");
    reveal_strlit("EXPUNGE");
    reveal_strlit("SEARCH");
}

/// The name of a command names that command.
pub proof fn lemma_command_named(command: Commands)
    ensures
        command_named(command_name(command)) == Some(command),
{
    let name = command_name(command);
    lemma_marks();
    assert(name.len() >= 3);
    assert(same_text(name, name));
    assert forall|other: Seq<char>| same_text(name, other) implies mark(name) == mark(other) by {
        lemma_same_text_mark(name, other);
    }
}

/// The name of a command is made of letters.
proof fn lemma_command_name_is_name(command: Commands)
    ensures
        forall|i: int|
            0 <= i < command_name(command).len() ==> is_name_char(
                #[trigger] command_name(command)[i],
            ),
{
    reveal_strlit("CAPABILITY");
    reveal_strlit("NOOP");
    reveal_strlit("LOGOUT");
    reveal_strlit("STARTTLS");
    reveal_strlit("LOGIN");
    reveal_strlit("AUTHENTICATE");
    reveal_strlit("LIST");
    reveal_strlit("SELECT");
    reveal_strlit("EXAMINE");
    reveal_strlit("CREATE");
    reveal_strlit("CLOSE");
    reveal_strlit("UNSELECT");
    reveal_strlit("CHECK");
    reveal_strlit("UID");
    reveal_strlit("FETCH");
    reveal_strlit("STORE");
    reveal_strlit("APPEND");
    reveal_strlit("COPY");
    reveal_strlit("MOVE");
    reveal_strlit("EXPUNGE");
    reveal_strlit("SEARCH");
}

/// Reading the line that spells a command gives the command back.
pub proof fn lemma_command_of_text(command: CommandView)
    requires
        is_well_formed(command),
    ensures
        command_of(command_text(command)) == Ok::<CommandView, ParseErrorView>(command),
{
    let name = command_name(command.command);
    let tokens = seq![command.tag, name] + command.arguments;
    lemma_command_named(command.command);
    lemma_command_name_is_name(command.command);
    lemma_name_is_closed(name);
    lemma_name_is_closed(command.tag);
    assert forall|i: int| 0 <= i < tokens.len() implies is_closed(#[trigger] tokens[i]) by {
        if i >= 2 {
            assert(tokens[i] == command.arguments[i - 2]);
        }
    }
    lemma_pieces_of_joined(tokens);
    assert(tokens.skip(2) =~= command.arguments);
    assert forall|i: int| 2 <= i < tokens.len() implies (#[trigger] tokens[i]).len() > 0 by {
        assert(tokens[i] == command.arguments[i - 2]);
    }
}

} // verus!
