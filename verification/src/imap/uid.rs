//! The UID command: `UID FETCH` over a UID set, and the answers to the
//! subcommands that are recognised but not supported.

use vstd::prelude::*;
use vstd::string::StringExecFns;
use vstd::utf8::encode_utf8;
use crate::imap::command::{tagged, tagged_line, tagged_reply, CommandData, CommandView};
use crate::imap::fetch::{
    all_items, arguments_of, attributes_view, fast_items, fetch_arguments, full_items, items_of,
    section_view, ArgumentsView, AttributeView, FetchArguments, FetchAttributes, SectionText,
    SectionView,
};
use crate::imap::state::{not_allowed, ConnectionView, Data, State};
use crate::mail::{Flag, Header, MailEntry, MailEntryView, MailFlags};
use crate::text::{
    chars_of, copy_range, decimal, find_first, first_of, is_word, join, join_from, join_strings,
    lowercase, number_up_to, parse_number, push_decimal, same_text, text_view, to_lowercase,
};

verus! {

/// The names of the flags in `flags`, in the order in which they are listed.
pub open spec fn flag_names(flags: MailFlags) -> Seq<Seq<char>> {
    (if flags.seen { seq!["\\Seen"@] } else { seq![] })
    + (if flags.flagged { seq!["\\Flagged"@] } else { seq![] })
    + (if flags.draft { seq!["\\Draft"@] } else { seq![] })
    + (if flags.answered { seq!["\\Answered"@] } else { seq![] })
    + (if flags.deleted { seq!["\\Deleted"@] } else { seq![] })
    + (if flags.recent { seq!["\\Recent"@] } else { seq![] })
}

/// `FLAGS (..)` with the names of the flags that are set.
pub open spec fn flags_response(flags: MailFlags) -> Seq<char> {
    "FLAGS ("@ + join(flag_names(flags), " "@) + ")"@
}

/// Whether a header named `name` is among `names`, ignoring case: in small
/// letters the two names are the same.
pub open spec fn is_listed(name: Seq<char>, names: Seq<Seq<char>>) -> bool {
    exists|i: int| 0 <= i < names.len() && lowercase(#[trigger] names[i]) == lowercase(name)
}

/// The header fields whose being listed in `names` is `listed`.
pub open spec fn chosen_headers(
    headers: Seq<(Seq<char>, Seq<char>)>,
    names: Seq<Seq<char>>,
    listed: bool,
) -> Seq<(Seq<char>, Seq<char>)> {
    headers.filter(|h: (Seq<char>, Seq<char>)| is_listed(h.0, names) == listed)
}

/// One header field as a line: name, colon, space, value.
pub open spec fn header_line(h: (Seq<char>, Seq<char>)) -> Seq<char> {
    h.0 + ": "@ + h.1
}

/// The header fields as lines, joined by CRLF.
pub open spec fn header_block(headers: Seq<(Seq<char>, Seq<char>)>) -> Seq<char> {
    join(headers.map_values(|h: (Seq<char>, Seq<char>)| header_line(h)), "\r\n"@)
}

/// `text` as a literal: its length in octets in braces, CRLF, the text.
pub open spec fn literal(text: Seq<char>) -> Seq<char> {
    "{"@ + decimal(encode_utf8(text).len()) + "}\r\n"@ + text
}

/// The answer to a body section.
pub open spec fn section_response(section: Option<SectionView>, mail: MailEntryView) -> Option<
    Seq<char>,
> {
    match section {
        None => Some("BODY.PEEK[HEADER.FIELDS]\r\n"@),
        Some(SectionView::Header) => Some("BODY.PEEK[HEADER.FIELDS]\r\n"@),
        Some(SectionView::Text) => None,
        Some(SectionView::HeaderFields(names)) => Some(
            match mail.headers {
                Some(h) => "BODY.PEEK[HEADER.FIELDS] "@ + literal(
                    header_block(chosen_headers(h, names, true)),
                ),
                None => "BODY.PEEK[HEADER.FIELDS]\r\n"@,
            },
        ),
        Some(SectionView::HeaderFieldsNot(names)) => Some(
            match mail.headers {
                Some(h) => "BODY.PEEK[HEADER.FIELDS] "@ + literal(
                    header_block(chosen_headers(h, names, false)),
                ),
                None => "BODY.PEEK[HEADER.FIELDS]\r\n"@,
            },
        ),
    }
}

/// The answer to one data item for `mail`; `None` where the item has none.
pub open spec fn attribute_response(attr: AttributeView, mail: MailEntryView) -> Option<
    Seq<char>,
> {
    match attr {
        AttributeView::Flags => Some(flags_response(mail.flags)),
        AttributeView::RFC822Header => Some(
            match mail.headers {
                Some(h) => "RFC822.HEADER "@ + literal(header_block(h)),
                None => "RFC822.HEADER\r\n"@,
            },
        ),
        AttributeView::RFC822Size => Some(
            "RFC822.SIZE "@ + decimal(
                match mail.body_size {
                    Some(n) => n as nat,
                    None => 0,
                },
            ),
        ),
        AttributeView::BodySection(section) => section_response(section, mail),
        AttributeView::BodyPeek(section) => section_response(section, mail),
        _ => None,
    }
}

/// The message after one data item was answered: `BODY[..]` marks it seen.
pub open spec fn after_attribute(attr: AttributeView, mail: MailEntryView) -> MailEntryView {
    if attr is BodySection {
        MailEntryView { flags: mail.flags.with(Flag::Seen, true), ..mail }
    } else {
        mail
    }
}

/// The message after the data items were answered, one after the other.
pub open spec fn after_attributes(attrs: Seq<AttributeView>, mail: MailEntryView) -> MailEntryView
    decreases attrs.len(),
{
    if attrs.len() == 0 {
        mail
    } else {
        after_attribute(attrs.last(), after_attributes(attrs.drop_last(), mail))
    }
}

/// The answers to the data items, one after the other, each for the message
/// as the items before it left it; items without an answer are passed over.
pub open spec fn attribute_responses(attrs: Seq<AttributeView>, mail: MailEntryView) -> Seq<
    Seq<char>,
>
    decreases attrs.len(),
{
    if attrs.len() == 0 {
        seq![]
    } else {
        let before = attribute_responses(attrs.drop_last(), mail);
        match attribute_response(attrs.last(), after_attributes(attrs.drop_last(), mail)) {
            Some(r) => before.push(r),
            None => before,
        }
    }
}

fn flags_text(flags: MailFlags) -> (r: String)
    ensures
        r@ == flags_response(flags),
{
    let mut names: Vec<String> = Vec::new();
    if flags.seen {
        names.push(String::from_str("\\Seen"));
    }
    if flags.flagged {
        names.push(String::from_str("\\Flagged"));
    }
    if flags.draft {
        names.push(String::from_str("\\Draft"));
    }
    if flags.answered {
        names.push(String::from_str("\\Answered"));
    }
    if flags.deleted {
        names.push(String::from_str("\\Deleted"));
    }
    if flags.recent {
        names.push(String::from_str("\\Recent"));
    }
    assert(names.deep_view() =~= flag_names(flags));
    let listed = join_strings(&names, " ");
    let mut r = String::from_str("FLAGS (");
    r.append(listed.as_str());
    r.append(")");
    r
}


/// Whether a header named `name` is among `names`, ignoring case.
fn header_is_listed(name: &String, names: &Vec<String>) -> (r: bool)
    ensures
        r == is_listed(name@, names.deep_view()),
{
    let wanted = to_lowercase(name.as_str());
    let mut i: usize = 0;
    while i < names.len()
        invariant
            i <= names.len(),
            wanted@ == lowercase(name@),
            forall|j: int|
                0 <= j < i ==> lowercase(#[trigger] names.deep_view()[j]) != lowercase(name@),
        decreases names.len() - i,
    {
        let candidate = to_lowercase(names[i].as_str());
        if candidate == wanted {
            assert(lowercase(names.deep_view()[i as int]) == lowercase(name@));
            return true;
        }
        i += 1;
    }
    false
}

/// The lines of all header fields, or of those that `names` picks.
fn header_lines(headers: &Vec<Header>, names: Option<(&Vec<String>, bool)>) -> (lines: Vec<String>)
    ensures
        lines.deep_view() == (match names {
            Some((list, listed)) => chosen_headers(headers.deep_view(), list.deep_view(), listed),
            None => headers.deep_view(),
        }).map_values(|h: (Seq<char>, Seq<char>)| header_line(h)),
{
    let ghost pick = |h: Seq<(Seq<char>, Seq<char>)>|
        match names {
            Some((list, listed)) => chosen_headers(h, list.deep_view(), listed),
            None => h,
        };
    let ghost line = |h: (Seq<char>, Seq<char>)| header_line(h);
    let mut lines: Vec<String> = Vec::new();
    let mut i: usize = 0;
    assert(pick(headers.deep_view().take(0)).map_values(line) =~= lines.deep_view()) by {
        reveal(Seq::filter);
    }
    while i < headers.len()
        invariant
            i <= headers.len(),
            pick == |h: Seq<(Seq<char>, Seq<char>)>|
                match names {
                    Some((list, listed)) => chosen_headers(h, list.deep_view(), listed),
                    None => h,
                },
            line == |h: (Seq<char>, Seq<char>)| header_line(h),
            lines.deep_view() == pick(headers.deep_view().take(i as int)).map_values(line),
        decreases headers.len() - i,
    {
        let header = &headers[i];
        let take = match names {
            Some((list, listed)) => header_is_listed(&header.name, list) == listed,
            None => true,
        };
        proof {
            let all = headers.deep_view();
            assert(all.take(i + 1).drop_last() =~= all.take(i as int));
            assert(all.take(i + 1).last() == header@);
            reveal(Seq::filter);
        }
        if take {
            let mut text = String::new();
            text.append(header.name.as_str());
            text.append(": ");
            text.append(header.value.as_str());
            let ghost before = lines.deep_view();
            lines.push(text);
            proof {
                let all = headers.deep_view();
                assert(text@ =~= header_line(header@));
                assert(pick(all.take(i + 1)) =~= pick(all.take(i as int)).push(header@));
                assert(lines.deep_view() =~= before.push(text@));
                assert(pick(all.take(i + 1)).map_values(line) =~= before.push(text@));
            }
        } else {
            proof {
                let all = headers.deep_view();
                assert(pick(all.take(i + 1)) =~= pick(all.take(i as int)));
            }
        }
        i += 1;
    }
    assert(headers.deep_view().take(headers.len() as int) =~= headers.deep_view());
    lines
}

/// The header fields as a literal.
fn literal_of(lines: &Vec<String>) -> (r: String)
    ensures
        r@ == literal(join(lines.deep_view(), "\r\n"@)),
{
    let block = join_strings(lines, "\r\n");
    let mut r = String::from_str("{");
    push_decimal(&mut r, block.as_str().as_bytes().len() as u64);
    r.append("}\r\n");
    r.append(block.as_str());
    r
}

/// The answer to a body section.
fn section_text(section: &Option<SectionText>, mail: &MailEntry) -> (r: Option<String>)
    ensures
        text_view(r) == section_response(section_view(*section), mail@),
{
    match section {
        None => Some(String::from_str("BODY.PEEK[HEADER.FIELDS]\r\n")),
        Some(SectionText::Header) => Some(String::from_str("BODY.PEEK[HEADER.FIELDS]\r\n")),
        Some(SectionText::Text) => None,
        Some(SectionText::HeaderFields(names)) => match &mail.headers {
            Some(headers) => {
                let lines = header_lines(headers, Some((names, true)));
                let mut r = String::from_str("BODY.PEEK[HEADER.FIELDS] ");
                r.append(literal_of(&lines).as_str());
                Some(r)
            },
            None => Some(String::from_str("BODY.PEEK[HEADER.FIELDS]\r\n")),
        },
        Some(SectionText::HeaderFieldsNot(names)) => match &mail.headers {
            Some(headers) => {
                let lines = header_lines(headers, Some((names, false)));
                let mut r = String::from_str("BODY.PEEK[HEADER.FIELDS] ");
                r.append(literal_of(&lines).as_str());
                Some(r)
            },
            None => Some(String::from_str("BODY.PEEK[HEADER.FIELDS]\r\n")),
        },
    }
}

/// Answers one data item for `mail`, and marks the message seen where the
/// item is `BODY[..]`.
pub fn generate_response_for_attributes(attr: &FetchAttributes, mail: &mut MailEntry) -> (r: Option<
    String,
>)
    ensures
        text_view(r) == attribute_response(attr@, old(mail)@),
        final(mail)@ == after_attribute(attr@, old(mail)@),
{
    match attr {
        FetchAttributes::Envelope => None,
        FetchAttributes::RFC822Header => match &mail.headers {
            Some(headers) => {
                let lines = header_lines(headers, None);
                let mut r = String::from_str("RFC822.HEADER ");
                r.append(literal_of(&lines).as_str());
                Some(r)
            },
            None => Some(String::from_str("RFC822.HEADER\r\n")),
        },
        FetchAttributes::Flags => Some(flags_text(mail.flags)),
        FetchAttributes::InternalDate => None,
        FetchAttributes::RFC822Size => {
            let mut r = String::from_str("RFC822.SIZE ");
            push_decimal(&mut r, mail.body_size());
            Some(r)
        },
        FetchAttributes::Uid => None,
        FetchAttributes::BodyStructure => None,
        FetchAttributes::BodySection(section) => {
            let r = section_text(section, mail);
            mail.set_flag(Flag::Seen, true);
            r
        },
        FetchAttributes::BodyPeek(section) => section_text(section, mail),
        FetchAttributes::Binary(_) => None,
        FetchAttributes::BinaryPeek(_) => None,
        FetchAttributes::BinarySize(_) => None,
    }
}

/// The answer to the data items `args` for `mail`: that of the one item, or
/// those of the listed items joined by spaces.
pub open spec fn response(args: ArgumentsView, mail: MailEntryView) -> Option<Seq<char>> {
    match args {
        ArgumentsView::Single(a) => attribute_response(a, mail),
        _ => Some(join(attribute_responses(items_of(args), mail), " "@)),
    }
}

/// Answers the items of a list, one after the other.
fn list_response(attrs: &Vec<FetchAttributes>, mail: &mut MailEntry) -> (r: String)
    ensures
        r@ == join(
            attribute_responses(attributes_view(attrs@), old(mail)@),
            " "@,
        ),
        final(mail)@ == after_attributes(attributes_view(attrs@), old(mail)@),
{
    let ghost items = attributes_view(attrs@);
    let mut parts: Vec<String> = Vec::new();
    let mut i: usize = 0;
    while i < attrs.len()
        invariant
            i <= attrs.len(),
            items == attributes_view(attrs@),
            parts.deep_view() == attribute_responses(items.take(i as int), old(mail)@),
            mail@ == after_attributes(items.take(i as int), old(mail)@),
        decreases attrs.len() - i,
    {
        proof {
            assert(items.take(i + 1).drop_last() =~= items.take(i as int));
            assert(items.take(i + 1).last() == attrs@[i as int]@);
        }
        let ghost before = parts.deep_view();
        match generate_response_for_attributes(&attrs[i], mail) {
            Some(extra) => {
                parts.push(extra);
                assert(parts.deep_view() =~= before.push(extra@));
            },
            None => {},
        }
        i += 1;
    }
    assert(items.take(attrs.len() as int) =~= items);
    join_strings(&parts, " ")
}

/// Answers the data items `arg` for `mail`. A macro stands for its items.
pub fn generate_response(arg: &FetchArguments, mail: &mut MailEntry) -> (r: Option<String>)
    ensures
        text_view(r) == response(arg@, old(mail)@),
        final(mail)@ == after_attributes(items_of(arg@), old(mail)@),
{
    match arg {
        FetchArguments::All => {
            let items = vec![
                FetchAttributes::Flags,
                FetchAttributes::InternalDate,
                FetchAttributes::RFC822Size,
                FetchAttributes::Envelope,
            ];
            assert(attributes_view(items@) =~= all_items());
            Some(list_response(&items, mail))
        },
        FetchArguments::Fast => {
            let items = vec![
                FetchAttributes::Flags,
                FetchAttributes::InternalDate,
                FetchAttributes::RFC822Size,
            ];
            assert(attributes_view(items@) =~= fast_items());
            Some(list_response(&items, mail))
        },
        FetchArguments::Full => {
            let items = vec![
                FetchAttributes::Flags,
                FetchAttributes::InternalDate,
                FetchAttributes::RFC822Size,
                FetchAttributes::Envelope,
                FetchAttributes::BodyStructure,
            ];
            assert(attributes_view(items@) =~= full_items());
            Some(list_response(&items, mail))
        },
        FetchArguments::Single(single_arg) => {
            let r = generate_response_for_attributes(single_arg, mail);
            proof {
                let one = seq![single_arg@];
                assert(one.drop_last() =~= Seq::<AttributeView>::empty());
                reveal_with_fuel(after_attributes, 2);
            }
            r
        },
        FetchArguments::List(args) => Some(list_response(args, mail)),
    }
}


/// A set of UIDs as a closed range; `low > high` is the empty set.
#[derive(Clone, Copy, Debug, PartialEq, Eq, Structural)]
pub struct UidRange {
    pub low: u64,
    pub high: u64,
}

/// The bound that `text` gives: its number, or `fallback` where `text` is no
/// numeral of a number up to `i64::MAX`.
pub open spec fn bound_of(text: Seq<char>, fallback: u64) -> u64 {
    match number_up_to(text, i64::MAX as nat) {
        Some(n) => n as u64,
        None => fallback,
    }
}

/// The range that a UID set denotes. `a:b` is `a` to `b`, where a bound that
/// is no number stands for 1 and for `i64::MAX`, so that `a:*` is `a` and up.
/// A set without a colon is the one number, or 1.
pub open spec fn range_of(set: Seq<char>) -> UidRange {
    let colon = first_of(set, ':');
    if colon < set.len() {
        let rest = set.skip(colon + 1);
        UidRange {
            low: bound_of(set.take(colon), 1),
            high: bound_of(rest.take(first_of(rest, ':')), i64::MAX as u64),
        }
    } else {
        UidRange { low: bound_of(set, 1), high: bound_of(set, 1) }
    }
}

impl UidRange {
    /// Whether `uid` is in the range.
    pub open spec fn has(self, uid: u32) -> bool {
        self.low <= uid && uid <= self.high
    }

    pub fn contains(&self, uid: u32) -> (r: bool)
        ensures
            r == self.has(uid),
    {
        self.low <= uid as u64 && uid as u64 <= self.high
    }

    /// Reads a UID set.
    pub fn parse(set: &str) -> (range: UidRange)
        ensures
            range == range_of(set@),
    {
        let text = chars_of(set);
        let colon = find_first(&text, ':');
        if colon < text.len() {
            let first = copy_range(&text, 0, colon);
            let rest = copy_range(&text, colon + 1, text.len());
            let second = copy_range(&rest, 0, find_first(&rest, ':'));
            UidRange { low: bound(&first, 1), high: bound(&second, 0x7fff_ffff_ffff_ffff) }
        } else {
            assert(text@.subrange(0, text.len() as int) =~= text@);
            let only = bound(&text, 1);
            UidRange { low: only, high: only }
        }
    }
}

fn bound(text: &Vec<char>, fallback: u64) -> (r: u64)
    ensures
        r == bound_of(text@, fallback),
{
    match parse_number(text, 0x7fff_ffff_ffff_ffff) {
        Some(n) => n,
        None => fallback,
    }
}


/// What a list of messages stands for.
pub open spec fn mail_views(mails: Seq<MailEntry>) -> Seq<MailEntryView> {
    Seq::new(mails.len(), |i: int| mails[i]@)
}

/// The line that carries the answer `answer` for the message `uid`.
pub open spec fn fetch_line(uid: u32, answer: Seq<char>) -> Seq<char> {
    "* "@ + decimal(uid as nat) + " FETCH (UID "@ + decimal(uid as nat) + " "@ + answer + ")"@
}

/// The message after a `UID FETCH` of `args` over `range`.
pub open spec fn fetched_mail(args: ArgumentsView, range: UidRange, mail: MailEntryView)
    -> MailEntryView {
    if range.has(mail.uid) {
        after_attributes(items_of(args), mail)
    } else {
        mail
    }
}

/// The lines that answer a `UID FETCH` of `args` over `range`: one for each
/// message of the listing whose UID is in the range and for which `args`
/// has an answer, in the order of the listing.
pub open spec fn fetch_lines(args: ArgumentsView, range: UidRange, mails: Seq<MailEntryView>)
    -> Seq<Seq<char>>
    decreases mails.len(),
{
    if mails.len() == 0 {
        seq![]
    } else {
        let before = fetch_lines(args, range, mails.drop_last());
        let mail = mails.last();
        if range.has(mail.uid) && response(args, mail) is Some {
            before.push(fetch_line(mail.uid, response(args, mail)->0))
        } else {
            before
        }
    }
}

/// Every line of a `UID FETCH` carries the UID of a message of the listing
/// that lies in the range asked for.
pub proof fn lemma_fetch_lines_in_range(
    args: ArgumentsView,
    range: UidRange,
    mails: Seq<MailEntryView>,
    k: int,
)
    requires
        0 <= k < fetch_lines(args, range, mails).len(),
    ensures
        exists|i: int|
            0 <= i < mails.len() && range.has(mails[i].uid) && response(args, mails[i]) is Some
                && fetch_lines(args, range, mails)[k] == fetch_line(
                mails[i].uid,
                response(args, #[trigger] mails[i])->0,
            ),
    decreases mails.len(),
{
    let before = fetch_lines(args, range, mails.drop_last());
    if k < before.len() {
        lemma_fetch_lines_in_range(args, range, mails.drop_last(), k);
        let i = choose|i: int|
            0 <= i < mails.drop_last().len() && range.has(mails.drop_last()[i].uid) && response(
                args,
                mails.drop_last()[i],
            ) is Some && before[k] == fetch_line(
                mails.drop_last()[i].uid,
                response(args, #[trigger] mails.drop_last()[i])->0,
            );
        assert(mails[i] == mails.drop_last()[i]);
    } else {
        assert(mails[mails.len() - 1] == mails.last());
    }
}

/// Whether the first argument of the command is `word`, ignoring ASCII case.
pub open spec fn is_subcommand(command: CommandView, word: Seq<char>) -> bool {
    command.arguments.len() > 0 && same_text(command.arguments[0], word)
}

/// The lines that answer a UID command. `UID FETCH` is refused with the
/// name of the state where no mailbox is selected; it needs a UID set and
/// data items. Every other subcommand is refused as not supported.
pub open spec fn uid_lines(con: ConnectionView, command: CommandView, mails: Seq<MailEntryView>)
    -> Seq<Seq<char>> {
    if is_subcommand(command, "fetch"@) {
        if !(con.state is Selected) {
            seq![not_allowed(command.tag, con.state)]
        } else if command.arguments.len() < 3 {
            seq![tagged(command.tag, "BAD Unable to parse"@)]
        } else {
            match arguments_of(join(command.arguments.skip(2), " "@)) {
                Some(args) => fetch_lines(args, range_of(command.arguments[1]), mails).push(
                    tagged(command.tag, "OK UID FETCH completed"@),
                ),
                None => seq![tagged(command.tag, "BAD Unable to parse"@)],
            }
        }
    } else {
        seq![tagged(command.tag, "BAD Not supported"@)]
    }
}

/// The messages after a UID command: a `UID FETCH` that is answered leaves
/// each message of the range as its data items leave it.
pub open spec fn uid_mails(con: ConnectionView, command: CommandView, mails: Seq<MailEntryView>)
    -> Seq<MailEntryView> {
    if is_subcommand(command, "fetch"@) && con.state is Selected && command.arguments.len() >= 3
        && arguments_of(join(command.arguments.skip(2), " "@)) is Some {
        let args = arguments_of(join(command.arguments.skip(2), " "@))->0;
        Seq::new(
            mails.len(),
            |i: int| fetched_mail(args, range_of(command.arguments[1]), mails[i]),
        )
    } else {
        mails
    }
}

/// The UID command of one connection.
pub struct Uid<'a> {
    pub data: &'a Data,
}

impl Uid<'_> {
    /// Answers a UID command over `mails`, the listing of the selected
    /// mailbox, and marks the messages that `BODY[..]` was fetched of.
    pub fn exec(&self, command_data: &CommandData, mails: &mut Vec<MailEntry>) -> (lines: Vec<
        String,
    >)
        ensures
            lines.deep_view() == uid_lines(
                self.data.con_state@,
                command_data@,
                mail_views(old(mails)@),
            ),
            mail_views(final(mails)@) == uid_mails(
                self.data.con_state@,
                command_data@,
                mail_views(old(mails)@),
            ),
    {
        let ghost listing = mail_views(mails@);
        assert(mail_views(mails@) =~= listing);
        if command_data.arguments.len() == 0 || !is_word(
            &chars_of(command_data.arguments[0].as_str()),
            "fetch",
        ) {
            return tagged_reply(&command_data.tag, "BAD Not supported");
        }
        match &self.data.con_state.state {
            State::Selected(_, _) => {},
            _ => {
                return self.data.refuse(&command_data.tag);
            },
        }
        if command_data.arguments.len() < 3 {
            return tagged_reply(&command_data.tag, "BAD Unable to parse");
        }
        let range = UidRange::parse(command_data.arguments[1].as_str());
        let fetch_args = join_from(&command_data.arguments, 2, " ");
        match fetch_arguments(fetch_args.as_str()) {
            Some(args) => {
                let mut lines: Vec<String> = Vec::new();
                let mut i: usize = 0;
                while i < mails.len()
                    invariant
                        i <= mails.len(),
                        mails.len() == listing.len(),
                        lines.deep_view() == fetch_lines(args@, range, listing.take(i as int)),
                        forall|j: int|
                            0 <= j < i ==> (#[trigger] mails@[j])@ == fetched_mail(
                                args@,
                                range,
                                listing[j],
                            ),
                        forall|j: int|
                            i <= j < mails.len() ==> (#[trigger] mails@[j])@ == listing[j],
                    decreases mails.len() - i,
                {
                    proof {
                        assert(listing.take(i + 1).drop_last() =~= listing.take(i as int));
                        assert(listing.take(i + 1).last() == listing[i as int]);
                    }
                    let uid = mails[i].uid();
                    if range.contains(uid) {
                        let ghost before = lines.deep_view();
                        if let Some(answer) = generate_response(&args, &mut mails[i]) {
                            let mut line = String::from_str("* ");
                            push_decimal(&mut line, uid as u64);
                            line.append(" FETCH (UID ");
                            push_decimal(&mut line, uid as u64);
                            line.append(" ");
                            line.append(answer.as_str());
                            line.append(")");
                            assert(line@ =~= fetch_line(uid, answer@));
                            lines.push(line);
                            assert(lines.deep_view() =~= before.push(line@));
                        }
                    }
                    i += 1;
                }
                let ghost before = lines.deep_view();
                let done = tagged_line(&command_data.tag, "OK UID FETCH completed");
                lines.push(done);
                proof {
                    assert(listing.take(mails.len() as int) =~= listing);
                    assert(lines.deep_view() =~= before.push(done@));
                    assert(mail_views(mails@) =~= uid_mails(
                        self.data.con_state@,
                        command_data@,
                        listing,
                    ));
                }
                lines
            },
            None => tagged_reply(&command_data.tag, "BAD Unable to parse"),
        }
    }
}

} // verus!
