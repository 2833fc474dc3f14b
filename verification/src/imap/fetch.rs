//! The data items that a FETCH command can ask for.

use vstd::prelude::*;
use crate::text::{
    chars_of, enclosed, inside, is_enclosed, is_name, is_name_text, is_word, pieces, same_text,
    split_top, string_of, texts, Scan,
};

verus! {

/// The part of a message that a body section names.
#[derive(Clone, Debug)]
pub enum SectionText {
    Header,
    Text,
    HeaderFields(Vec<String>),
    HeaderFieldsNot(Vec<String>),
}

/// What a `SectionText` stands for.
pub enum SectionView {
    Header,
    Text,
    HeaderFields(Seq<Seq<char>>),
    HeaderFieldsNot(Seq<Seq<char>>),
}

impl View for SectionText {
    type V = SectionView;

    open spec fn view(&self) -> SectionView {
        match self {
            SectionText::Header => SectionView::Header,
            SectionText::Text => SectionView::Text,
            SectionText::HeaderFields(names) => SectionView::HeaderFields(names.deep_view()),
            SectionText::HeaderFieldsNot(names) => SectionView::HeaderFieldsNot(names.deep_view()),
        }
    }
}

/// What an optional section stands for; `None` is the empty section `[]`.
pub open spec fn section_view(section: Option<SectionText>) -> Option<SectionView> {
    match section {
        Some(s) => Some(s@),
        None => None,
    }
}

/// One data item of a FETCH command.
#[derive(Clone, Debug)]
pub enum FetchAttributes {
    Envelope,
    Flags,
    InternalDate,
    RFC822Header,
    RFC822Size,
    Uid,
    BodyStructure,
    BodySection(Option<SectionText>),
    BodyPeek(Option<SectionText>),
    Binary(Option<SectionText>),
    BinaryPeek(Option<SectionText>),
    BinarySize(Option<SectionText>),
}

/// What a `FetchAttributes` stands for.
pub enum AttributeView {
    Envelope,
    Flags,
    InternalDate,
    RFC822Header,
    RFC822Size,
    Uid,
    BodyStructure,
    BodySection(Option<SectionView>),
    BodyPeek(Option<SectionView>),
    Binary(Option<SectionView>),
    BinaryPeek(Option<SectionView>),
    BinarySize(Option<SectionView>),
}

impl View for FetchAttributes {
    type V = AttributeView;

    open spec fn view(&self) -> AttributeView {
        match self {
            FetchAttributes::Envelope => AttributeView::Envelope,
            FetchAttributes::Flags => AttributeView::Flags,
            FetchAttributes::InternalDate => AttributeView::InternalDate,
            FetchAttributes::RFC822Header => AttributeView::RFC822Header,
            FetchAttributes::RFC822Size => AttributeView::RFC822Size,
            FetchAttributes::Uid => AttributeView::Uid,
            FetchAttributes::BodyStructure => AttributeView::BodyStructure,
            FetchAttributes::BodySection(s) => AttributeView::BodySection(section_view(*s)),
            FetchAttributes::BodyPeek(s) => AttributeView::BodyPeek(section_view(*s)),
            FetchAttributes::Binary(s) => AttributeView::Binary(section_view(*s)),
            FetchAttributes::BinaryPeek(s) => AttributeView::BinaryPeek(section_view(*s)),
            FetchAttributes::BinarySize(s) => AttributeView::BinarySize(section_view(*s)),
        }
    }
}

/// What a list of data items stands for.
pub open spec fn attributes_view(attrs: Seq<FetchAttributes>) -> Seq<AttributeView> {
    Seq::new(attrs.len(), |i: int| attrs[i]@)
}

/// The data items of a FETCH command: a macro, one item, or a list.
#[derive(Clone, Debug)]
pub enum FetchArguments {
    All,
    Fast,
    Full,
    Single(FetchAttributes),
    List(Vec<FetchAttributes>),
}

/// What a `FetchArguments` stands for.
pub enum ArgumentsView {
    All,
    Fast,
    Full,
    Single(AttributeView),
    List(Seq<AttributeView>),
}

impl View for FetchArguments {
    type V = ArgumentsView;

    open spec fn view(&self) -> ArgumentsView {
        match self {
            FetchArguments::All => ArgumentsView::All,
            FetchArguments::Fast => ArgumentsView::Fast,
            FetchArguments::Full => ArgumentsView::Full,
            FetchArguments::Single(a) => ArgumentsView::Single(a@),
            FetchArguments::List(attrs) => ArgumentsView::List(attributes_view(attrs@)),
        }
    }
}

/// The items that a macro stands for.
pub open spec fn fast_items() -> Seq<AttributeView> {
    seq![AttributeView::Flags, AttributeView::InternalDate, AttributeView::RFC822Size]
}

pub open spec fn all_items() -> Seq<AttributeView> {
    fast_items().push(AttributeView::Envelope)
}

pub open spec fn full_items() -> Seq<AttributeView> {
    all_items().push(AttributeView::BodyStructure)
}

/// The list of items that `args` asks for, macros written out.
pub open spec fn items_of(args: ArgumentsView) -> Seq<AttributeView> {
    match args {
        ArgumentsView::All => all_items(),
        ArgumentsView::Fast => fast_items(),
        ArgumentsView::Full => full_items(),
        ArgumentsView::Single(a) => seq![a],
        ArgumentsView::List(attrs) => attrs,
    }
}


/// The header names in `text`, which are separated by single spaces; `None`
/// where a part of `text` is not a name.
pub open spec fn names_of(text: Seq<char>) -> Option<Seq<Seq<char>>> {
    let parts = pieces(text, Scan::top());
    if forall|i: int| 0 <= i < parts.len() ==> is_name(#[trigger] parts[i]) {
        Some(parts)
    } else {
        None
    }
}

/// The section that `text` spells between its square brackets; `None` where
/// it spells none. The outer `Some` with `None` inside is the empty section.
pub open spec fn section_of(text: Seq<char>) -> Option<Option<SectionView>> {
    if text.len() == 0 {
        Some(None)
    } else if same_text(text, "HEADER"@) {
        Some(Some(SectionView::Header))
    } else if same_text(text, "TEXT"@) {
        Some(Some(SectionView::Text))
    } else if is_enclosed(text, "HEADER.FIELDS ("@, ')') {
        match names_of(enclosed(text, "HEADER.FIELDS ("@)) {
            Some(names) => Some(Some(SectionView::HeaderFields(names))),
            None => None,
        }
    } else if is_enclosed(text, "HEADER.FIELDS.NOT ("@, ')') {
        match names_of(enclosed(text, "HEADER.FIELDS.NOT ("@)) {
            Some(names) => Some(Some(SectionView::HeaderFieldsNot(names))),
            None => None,
        }
    } else {
        None
    }
}

/// The data item that `text` spells, ignoring ASCII case in its keywords;
/// `None` where it spells none.
pub open spec fn attribute_of(text: Seq<char>) -> Option<AttributeView> {
    if same_text(text, "ENVELOPE"@) {
        Some(AttributeView::Envelope)
    } else if same_text(text, "FLAGS"@) {
        Some(AttributeView::Flags)
    } else if same_text(text, "INTERNALDATE"@) {
        Some(AttributeView::InternalDate)
    } else if same_text(text, "RFC822.HEADER"@) {
        Some(AttributeView::RFC822Header)
    } else if same_text(text, "RFC822.SIZE"@) {
        Some(AttributeView::RFC822Size)
    } else if same_text(text, "UID"@) {
        Some(AttributeView::Uid)
    } else if same_text(text, "BODYSTRUCTURE"@) {
        Some(AttributeView::BodyStructure)
    } else if is_enclosed(text, "BODY["@, ']') {
        match section_of(enclosed(text, "BODY["@)) {
            Some(section) => Some(AttributeView::BodySection(section)),
            None => None,
        }
    } else if is_enclosed(text, "BODY.PEEK["@, ']') {
        match section_of(enclosed(text, "BODY.PEEK["@)) {
            Some(section) => Some(AttributeView::BodyPeek(section)),
            None => None,
        }
    } else if is_enclosed(text, "BINARY["@, ']') {
        match section_of(enclosed(text, "BINARY["@)) {
            Some(section) => Some(AttributeView::Binary(section)),
            None => None,
        }
    } else if is_enclosed(text, "BINARY.PEEK["@, ']') {
        match section_of(enclosed(text, "BINARY.PEEK["@)) {
            Some(section) => Some(AttributeView::BinaryPeek(section)),
            None => None,
        }
    } else if is_enclosed(text, "BINARY.SIZE["@, ']') {
        match section_of(enclosed(text, "BINARY.SIZE["@)) {
            Some(section) => Some(AttributeView::BinarySize(section)),
            None => None,
        }
    } else {
        None
    }
}

/// The data items that the parts spell; `None` where one of them spells none.
pub open spec fn attributes_of(parts: Seq<Seq<char>>) -> Option<Seq<AttributeView>> {
    if forall|i: int| 0 <= i < parts.len() ==> attribute_of(#[trigger] parts[i]) is Some {
        Some(Seq::new(parts.len(), |i: int| attribute_of(parts[i])->0))
    } else {
        None
    }
}

/// The data items that `text` asks for: a macro, a list in round brackets
/// whose items are separated by single spaces, or one item; `None` where
/// `text` is none of these.
pub open spec fn arguments_of(text: Seq<char>) -> Option<ArgumentsView> {
    if same_text(text, "ALL"@) {
        Some(ArgumentsView::All)
    } else if same_text(text, "FAST"@) {
        Some(ArgumentsView::Fast)
    } else if same_text(text, "FULL"@) {
        Some(ArgumentsView::Full)
    } else if is_enclosed(text, "("@, ')') {
        match attributes_of(pieces(enclosed(text, "("@), Scan::top())) {
            Some(items) => Some(ArgumentsView::List(items)),
            None => None,
        }
    } else {
        match attribute_of(text) {
            Some(item) => Some(ArgumentsView::Single(item)),
            None => None,
        }
    }
}

fn read_names(text: &Vec<char>) -> (r: Option<Vec<String>>)
    ensures
        r matches Some(names) ==> names_of(text@) == Some(names.deep_view()),
        r is None ==> names_of(text@) is None,
{
    let parts = split_top(text);
    let ghost all = pieces(text@, Scan::top());
    let mut names: Vec<String> = Vec::new();
    let mut i: usize = 0;
    while i < parts.len()
        invariant
            i <= parts.len(),
            texts(parts@) == all,
            all == pieces(text@, Scan::top()),
            names.len() == i,
            forall|j: int| 0 <= j < i ==> is_name(#[trigger] all[j]),
            forall|j: int| 0 <= j < i ==> (#[trigger] names@[j])@ == all[j],
        decreases parts.len() - i,
    {
        assert(all[i as int] == parts@[i as int]@);
        if !is_name_text(&parts[i]) {
            assert(!is_name(pieces(text@, Scan::top())[i as int]));
            return None;
        }
        names.push(string_of(&parts[i]));
        i += 1;
    }
    assert(names.deep_view() =~= all);
    Some(names)
}

/// What an optional section, read or not, stands for.
pub open spec fn section_found(r: Option<Option<SectionText>>) -> Option<Option<SectionView>> {
    match r {
        Some(section) => Some(section_view(section)),
        None => None,
    }
}

fn read_section(text: &Vec<char>) -> (r: Option<Option<SectionText>>)
    ensures
        section_found(r) == section_of(text@),
{
    if text.len() == 0 {
        Some(None)
    } else if is_word(text, "HEADER") {
        Some(Some(SectionText::Header))
    } else if is_word(text, "TEXT") {
        Some(Some(SectionText::Text))
    } else if let Some(inner) = inside(text, "HEADER.FIELDS (", ')') {
        match read_names(&inner) {
            Some(names) => Some(Some(SectionText::HeaderFields(names))),
            None => None,
        }
    } else if let Some(inner) = inside(text, "HEADER.FIELDS.NOT (", ')') {
        match read_names(&inner) {
            Some(names) => Some(Some(SectionText::HeaderFieldsNot(names))),
            None => None,
        }
    } else {
        None
    }
}

/// What an optional data item stands for.
pub open spec fn attribute_found(r: Option<FetchAttributes>) -> Option<AttributeView> {
    match r {
        Some(a) => Some(a@),
        None => None,
    }
}

/// Reads one data item.
pub fn fetch_attribute(text: &Vec<char>) -> (r: Option<FetchAttributes>)
    ensures
        attribute_found(r) == attribute_of(text@),
{
    if is_word(text, "ENVELOPE") {
        Some(FetchAttributes::Envelope)
    } else if is_word(text, "FLAGS") {
        Some(FetchAttributes::Flags)
    } else if is_word(text, "INTERNALDATE") {
        Some(FetchAttributes::InternalDate)
    } else if is_word(text, "RFC822.HEADER") {
        Some(FetchAttributes::RFC822Header)
    } else if is_word(text, "RFC822.SIZE") {
        Some(FetchAttributes::RFC822Size)
    } else if is_word(text, "UID") {
        Some(FetchAttributes::Uid)
    } else if is_word(text, "BODYSTRUCTURE") {
        Some(FetchAttributes::BodyStructure)
    } else if let Some(inner) = inside(text, "BODY[", ']') {
        match read_section(&inner) {
            Some(section) => Some(FetchAttributes::BodySection(section)),
            None => None,
        }
    } else if let Some(inner) = inside(text, "BODY.PEEK[", ']') {
        match read_section(&inner) {
            Some(section) => Some(FetchAttributes::BodyPeek(section)),
            None => None,
        }
    } else if let Some(inner) = inside(text, "BINARY[", ']') {
        match read_section(&inner) {
            Some(section) => Some(FetchAttributes::Binary(section)),
            None => None,
        }
    } else if let Some(inner) = inside(text, "BINARY.PEEK[", ']') {
        match read_section(&inner) {
            Some(section) => Some(FetchAttributes::BinaryPeek(section)),
            None => None,
        }
    } else if let Some(inner) = inside(text, "BINARY.SIZE[", ']') {
        match read_section(&inner) {
            Some(section) => Some(FetchAttributes::BinarySize(section)),
            None => None,
        }
    } else {
        None
    }
}

fn read_attributes(parts: &Vec<Vec<char>>) -> (r: Option<Vec<FetchAttributes>>)
    ensures
        r matches Some(items) ==> attributes_of(texts(parts@)) == Some(attributes_view(items@)),
        r is None ==> attributes_of(texts(parts@)) is None,
{
    let ghost all = texts(parts@);
    let mut items: Vec<FetchAttributes> = Vec::new();
    let mut i: usize = 0;
    while i < parts.len()
        invariant
            i <= parts.len(),
            all == texts(parts@),
            items.len() == i,
            forall|j: int| 0 <= j < i ==> attribute_of(#[trigger] all[j]) == Some(items@[j]@),
        decreases parts.len() - i,
    {
        assert(all[i as int] == parts@[i as int]@);
        match fetch_attribute(&parts[i]) {
            Some(item) => {
                items.push(item);
            },
            None => {
                return None;
            },
        }
        i += 1;
    }
    assert(attributes_view(items@) =~= Seq::new(all.len(), |i: int| attribute_of(all[i])->0));
    Some(items)
}

/// What optional FETCH arguments stand for.
pub open spec fn arguments_found(r: Option<FetchArguments>) -> Option<ArgumentsView> {
    match r {
        Some(a) => Some(a@),
        None => None,
    }
}

/// Reads the data items of a FETCH command; `None` where `text` spells none.
pub fn fetch_arguments(text: &str) -> (r: Option<FetchArguments>)
    ensures
        arguments_found(r) == arguments_of(text@),
{
    let text = chars_of(text);
    if is_word(&text, "ALL") {
        Some(FetchArguments::All)
    } else if is_word(&text, "FAST") {
        Some(FetchArguments::Fast)
    } else if is_word(&text, "FULL") {
        Some(FetchArguments::Full)
    } else if let Some(inner) = inside(&text, "(", ')') {
        let parts = split_top(&inner);
        match read_attributes(&parts) {
            Some(items) => Some(FetchArguments::List(items)),
            None => None,
        }
    } else {
        match fetch_attribute(&text) {
            Some(item) => Some(FetchArguments::Single(item)),
            None => None,
        }
    }
}

} // verus!
