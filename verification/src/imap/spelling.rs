//! How the data items of a FETCH command are spelled, and that reading
//! what was spelled gives the items back.

use vstd::prelude::*;
use crate::imap::fetch::{
    arguments_of, attribute_of, attributes_of, names_of, section_of, ArgumentsView, AttributeView,
    SectionView,
};
use crate::text::{
    begins_with, enclosed, is_closed, is_enclosed, is_gap, is_name, is_name_char, is_whole, join,
    lemma_name_is_closed, lemma_over_concat, lemma_pieces_of_joined, lower, lowered, same_text,
    Scan,
};

verus! {

/// A section as it is spelled between the square brackets.
pub open spec fn section_text(section: Option<SectionView>) -> Seq<char> {
    match section {
        None => Seq::empty(),
        Some(SectionView::Header) => "HEADER"@,
        Some(SectionView::Text) => "TEXT"@,
        Some(SectionView::HeaderFields(names)) => "HEADER.FIELDS ("@ + join(names, " "@) + ")"@,
        Some(SectionView::HeaderFieldsNot(names)) => "HEADER.FIELDS.NOT ("@ + join(names, " "@)
            + ")"@,
    }
}

/// A data item as it is spelled.
pub open spec fn attribute_text(item: AttributeView) -> Seq<char> {
    match item {
        AttributeView::Envelope => "ENVELOPE"@,
        AttributeView::Flags => "FLAGS"@,
        AttributeView::InternalDate => "INTERNALDATE"@,
        AttributeView::RFC822Header => "RFC822.HEADER"@,
        AttributeView::RFC822Size => "RFC822.SIZE"@,
        AttributeView::Uid => "UID"@,
        AttributeView::BodyStructure => "BODYSTRUCTURE"@,
        AttributeView::BodySection(section) => "BODY["@ + section_text(section) + "]"@,
        AttributeView::BodyPeek(section) => "BODY.PEEK["@ + section_text(section) + "]"@,
        AttributeView::Binary(section) => "BINARY["@ + section_text(section) + "]"@,
        AttributeView::BinaryPeek(section) => "BINARY.PEEK["@ + section_text(section) + "]"@,
        AttributeView::BinarySize(section) => "BINARY.SIZE["@ + section_text(section) + "]"@,
    }
}

/// The data items of a list as they are spelled, one by one.
pub open spec fn attribute_texts(items: Seq<AttributeView>) -> Seq<Seq<char>> {
    Seq::new(items.len(), |i: int| attribute_text(items[i]))
}

/// The data items of a FETCH command as they are spelled: a macro, one
/// item, or a list in round brackets with single spaces between its items.
pub open spec fn arguments_text(arguments: ArgumentsView) -> Seq<char> {
    match arguments {
        ArgumentsView::All => "ALL"@,
        ArgumentsView::Fast => "FAST"@,
        ArgumentsView::Full => "FULL"@,
        ArgumentsView::Single(item) => attribute_text(item),
        ArgumentsView::List(items) => "("@ + join(attribute_texts(items), " "@) + ")"@,
    }
}

/// Whether a list of header names can be spelled: it is not empty and
/// holds names.
pub open spec fn are_names(names: Seq<Seq<char>>) -> bool {
    names.len() >= 1 && forall|i: int| 0 <= i < names.len() ==> is_name(#[trigger] names[i])
}

/// Whether a section can be spelled.
pub open spec fn is_spelled_section(section: Option<SectionView>) -> bool {
    match section {
        Some(SectionView::HeaderFields(names)) => are_names(names),
        Some(SectionView::HeaderFieldsNot(names)) => are_names(names),
        _ => true,
    }
}

/// Whether a data item can be spelled.
pub open spec fn is_spelled_attribute(item: AttributeView) -> bool {
    match item {
        AttributeView::BodySection(section) => is_spelled_section(section),
        AttributeView::BodyPeek(section) => is_spelled_section(section),
        AttributeView::Binary(section) => is_spelled_section(section),
        AttributeView::BinaryPeek(section) => is_spelled_section(section),
        AttributeView::BinarySize(section) => is_spelled_section(section),
        _ => true,
    }
}

/// Whether the data items of a FETCH command can be spelled: a list is not
/// empty, and every list of header names is one of names.
pub open spec fn is_spelled(arguments: ArgumentsView) -> bool {
    match arguments {
        ArgumentsView::Single(item) => is_spelled_attribute(item),
        ArgumentsView::List(items) => items.len() >= 1 && forall|i: int|
            0 <= i < items.len() ==> is_spelled_attribute(#[trigger] items[i]),
        _ => true,
    }
}

/// Whether a character opens or closes nothing.
spec fn is_plain(c: char) -> bool {
    c != '"' && c != '(' && c != ')' && c != '[' && c != ']'
}

spec fn deeper(at: Scan) -> Scan {
    Scan { depth: at.depth + 1, ..at }
}

proof fn lemma_differs(a: Seq<char>, b: Seq<char>, i: int)
    requires
        0 <= i < a.len(),
        i < b.len(),
        lower(a[i]) != lower(b[i]),
    ensures
        !same_text(a, b),
{
    assert(lowered(a)[i] != lowered(b)[i]);
}

proof fn lemma_other_length(a: Seq<char>, b: Seq<char>)
    requires
        a.len() != b.len(),
    ensures
        !same_text(a, b),
{
    assert(lowered(a).len() != lowered(b).len());
}

proof fn lemma_not_beginning(a: Seq<char>, word: Seq<char>, i: int)
    requires
        0 <= i < word.len(),
        i < a.len(),
        lower(a[i]) != lower(word[i]),
    ensures
        !begins_with(a, word),
{
    if word.len() <= a.len() {
        lemma_differs(a.take(word.len() as int), word, i);
    }
}

proof fn lemma_wrapped(open: Seq<char>, inner: Seq<char>, close: char)
    ensures
        is_enclosed(open + inner + seq![close], open, close),
        enclosed(open + inner + seq![close], open) == inner,
{
    let text = open + inner + seq![close];
    assert(text.take(open.len() as int) =~= open);
    assert(text.subrange(open.len() as int, text.len() - 1) =~= inner);
}

/// Plain characters leave a scan where it is, and make no gap inside a
/// bracket; without a space they make no gap anywhere.
proof fn lemma_plain(s: Seq<char>, at: Scan)
    requires
        !at.quoted,
        forall|i: int| 0 <= i < s.len() ==> is_plain(#[trigger] s[i]),
        at.depth > 0 || forall|i: int| 0 <= i < s.len() ==> #[trigger] s[i] != ' ',
    ensures
        at.over(s) == at,
        is_whole(s, at),
    decreases s.len(),
{
    if s.len() > 0 {
        assert(is_plain(s[0]));
        assert(at.step(s[0]) == at);
        assert(at.depth > 0 || s[0] != ' ');
        assert forall|i: int| 0 <= i < s.drop_first().len() implies is_plain(
            #[trigger] s.drop_first()[i],
        ) by {
            assert(s.drop_first()[i] == s[i + 1]);
        }
        if at.depth == 0 {
            assert forall|i: int| 0 <= i < s.drop_first().len() implies #[trigger] s.drop_first()[i]
                != ' ' by {
                assert(s.drop_first()[i] == s[i + 1]);
            }
        }
        lemma_plain(s.drop_first(), at);
    }
}

proof fn lemma_whole_concat(a: Seq<char>, b: Seq<char>, at: Scan)
    requires
        is_whole(a, at),
        is_whole(b, at.over(a)),
    ensures
        is_whole(a + b, at),
    decreases a.len(),
{
    if a.len() == 0 {
        assert(a + b =~= b);
    } else {
        assert((a + b).drop_first() =~= a.drop_first() + b);
        lemma_whole_concat(a.drop_first(), b, at.step(a[0]));
    }
}

/// A word of plain characters with an opening bracket behind it takes a
/// scan one bracket deeper and makes no gap.
proof fn lemma_opener(word: Seq<char>, at: Scan)
    requires
        !at.quoted,
        word.len() >= 1,
        word.last() == '(' || word.last() == '[',
        forall|i: int| 0 <= i < word.len() - 1 ==> is_plain(#[trigger] word[i]),
        at.depth > 0 || forall|i: int| 0 <= i < word.len() - 1 ==> #[trigger] word[i] != ' ',
    ensures
        at.over(word) == deeper(at),
        is_whole(word, at),
{
    let head = word.drop_last();
    let tail = seq![word.last()];
    assert(word =~= head + tail);
    lemma_plain(head, at);
    lemma_over_concat(head, tail, at);
    assert(tail.drop_first() =~= Seq::<char>::empty());
    assert(at.over(tail) == at.step(word.last()).over(tail.drop_first()));
    assert(is_whole(tail, at)) by {
        assert(!is_gap(at, tail[0]));
        assert(is_whole(tail.drop_first(), at.step(tail[0])));
    }
    lemma_whole_concat(head, tail, at);
}

/// A closing bracket takes a scan one bracket up and makes no gap.
proof fn lemma_closer(close: Seq<char>, at: Scan)
    requires
        !at.quoted,
        close.len() == 1,
        close[0] == ')' || close[0] == ']',
    ensures
        deeper(at).over(close) == at,
        is_whole(close, deeper(at)),
{
    assert(close.drop_first() =~= Seq::<char>::empty());
    assert(deeper(at).step(close[0]) == at);
    assert(deeper(at).over(close) == deeper(at).step(close[0]).over(close.drop_first()));
    assert(is_whole(close.drop_first(), deeper(at).step(close[0])));
}

/// A text between an opener and a closer makes no gap and leaves the scan
/// where it was, where the text does so one bracket deeper.
proof fn lemma_bracketed(open: Seq<char>, inner: Seq<char>, close: Seq<char>, at: Scan)
    requires
        !at.quoted,
        open.len() >= 1,
        open.last() == '(' || open.last() == '[',
        forall|i: int| 0 <= i < open.len() - 1 ==> is_plain(#[trigger] open[i]),
        at.depth > 0 || forall|i: int| 0 <= i < open.len() - 1 ==> #[trigger] open[i] != ' ',
        close.len() == 1,
        close[0] == ')' || close[0] == ']',
        is_whole(inner, deeper(at)),
        deeper(at).over(inner) == deeper(at),
    ensures
        is_whole(open + inner + close, at),
        at.over(open + inner + close) == at,
{
    lemma_opener(open, at);
    lemma_closer(close, at);
    lemma_whole_concat(open, inner, at);
    lemma_over_concat(open, inner, at);
    lemma_whole_concat(open + inner, close, at);
    lemma_over_concat(open + inner, close, at);
}

proof fn lemma_joined_names_are_plain(names: Seq<Seq<char>>)
    requires
        forall|i: int| 0 <= i < names.len() ==> is_name(#[trigger] names[i]),
    ensures
        forall|i: int|
            0 <= i < join(names, " "@).len() ==> is_plain(#[trigger] join(names, " "@)[i]),
    decreases names.len(),
{
    reveal_strlit(" ");
    if names.len() == 1 {
        assert(is_name(names[0]));
    } else if names.len() > 1 {
        let init = names.drop_last();
        assert forall|i: int| 0 <= i < init.len() implies is_name(#[trigger] init[i]) by {
            assert(init[i] == names[i]);
        }
        lemma_joined_names_are_plain(init);
        let last = names.last();
        assert(is_name(names[names.len() - 1]));
        let a = join(init, " "@);
        let all = join(names, " "@);
        assert(all =~= a + " "@ + last);
        assert forall|i: int| 0 <= i < all.len() implies is_plain(#[trigger] all[i]) by {
            if i < a.len() {
                assert(all[i] == a[i]);
            } else if i == a.len() {
                assert(all[i] == ' ');
            } else {
                assert(all[i] == last[i - a.len() - 1]);
                assert(is_name_char(last[i - a.len() - 1]));
            }
        }
    }
}

/// Names that are spelled with single spaces between them are read back.
proof fn lemma_names(names: Seq<Seq<char>>)
    requires
        are_names(names),
    ensures
        names_of(join(names, " "@)) == Some(names),
{
    assert forall|i: int| 0 <= i < names.len() implies is_closed(#[trigger] names[i]) by {
        assert(is_name(names[i]));
        lemma_name_is_closed(names[i]);
    }
    lemma_pieces_of_joined(names);
}

/// The literals of the grammar, character by character.
proof fn lemma_literals()
    ensures
        "HEADER"@ == seq!['H', 'E', 'A', 'D', 'E', 'R'],
        "TEXT"@ == seq!['T', 'E', 'X', 'T'],
        "HEADER.FIELDS ("@ == seq![
            'H', 'E', 'A', 'D', 'E', 'R', '.', 'F', 'I', 'E', 'L', 'D', 'S', ' ', '(',
        ],
        "HEADER.FIELDS.NOT ("@ == seq![
            'H', 'E', 'A', 'D', 'E', 'R', '.', 'F', 'I', 'E', 'L', 'D', 'S', '.', 'N', 'O', 'T',
            ' ', '(',
        ],
        "ENVELOPE"@ == seq!['E', 'N', 'V', 'E', 'L', 'O', 'P', 'E'],
        "FLAGS"@ == seq!['F', 'L', 'A', 'G', 'S'],
        "INTERNALDATE"@ == seq!['I', 'N', 'T', 'E', 'R', 'N', 'A', 'L', 'D', 'A', 'T', 'E'],
        "RFC822.HEADER"@ == seq!['R', 'F', 'C', '8', '2', '2', '.', 'H', 'E', 'A', 'D', 'E', 'R'],
        "RFC822.SIZE"@ == seq!['R', 'F', 'C', '8', '2', '2', '.', 'S', 'I', 'Z', 'E'],
        "UID"@ == seq!['U', 'I', 'D'],
        "BODYSTRUCTURE"@ == seq!['B', 'O', 'D', 'Y', 'S', 'T', 'R', 'U', 'C', 'T', 'U', 'R', 'E'],
        "BODY["@ == seq!['B', 'O', 'D', 'Y', '['],
        "BODY.PEEK["@ == seq!['B', 'O', 'D', 'Y', '.', 'P', 'E', 'E', 'K', '['],
        "BINARY["@ == seq!['B', 'I', 'N', 'A', 'R', 'Y', '['],
        "BINARY.PEEK["@ == seq!['B', 'I', 'N', 'A', 'R', 'Y', '.', 'P', 'E', 'E', 'K', '['],
        "BINARY.SIZE["@ == seq!['B', 'I', 'N', 'A', 'R', 'Y', '.', 'S', 'I', 'Z', 'E', '['],
        "ALL"@ == seq!['A', 'L', 'L'],
        "FAST"@ == seq!['F', 'A', 'S', 'T'],
        "FULL"@ == seq!['F', 'U', 'L', 'L'],
        "("@ == seq!['('],
        ")"@ == seq![')'],
        "]"@ == seq![']'],
        " "@ == seq![' '],
{
    reveal_strlit("HEADER");
    reveal_strlit("TEXT");
    reveal_strlit("HEADER.FIELDS (");
    reveal_strlit("HEADER.FIELDS.NOT (");
    reveal_strlit("ENVELOPE");
    reveal_strlit("FLAGS");
    reveal_strlit("INTERNALDATE");
    reveal_strlit("RFC822.HEADER");
    reveal_strlit("RFC822.SIZE");
    reveal_strlit("UID");
    reveal_strlit("BODYSTRUCTURE");
    reveal_strlit("BODY[");
    reveal_strlit("BODY.PEEK[");
    reveal_strlit("BINARY[");
    reveal_strlit("BINARY.PEEK[");
    reveal_strlit("BINARY.SIZE[");
    reveal_strlit("ALL");
    reveal_strlit("FAST");
    reveal_strlit("FULL");
    reveal_strlit("(");
    reveal_strlit(")");
    reveal_strlit("]");
    reveal_strlit(" ");
    assert("HEADER"@ =~= seq!['H', 'E', 'A', 'D', 'E', 'R']);
    assert("TEXT"@ =~= seq!['T', 'E', 'X', 'T']);
    assert("HEADER.FIELDS ("@ =~= seq![
        'H', 'E', 'A', 'D', 'E', 'R', '.', 'F', 'I', 'E', 'L', 'D', 'S', ' ', '(',
    ]);
    assert("HEADER.FIELDS.NOT ("@ =~= seq![
        'H', 'E', 'A', 'D', 'E', 'R', '.', 'F', 'I', 'E', 'L', 'D', 'S', '.', 'N', 'O', 'T', ' ',
        '(',
    ]);
    assert("ENVELOPE"@ =~= seq!['E', 'N', 'V', 'E', 'L', 'O', 'P', 'E']);
    assert("FLAGS"@ =~= seq!['F', 'L', 'A', 'G', 'S']);
    assert("INTERNALDATE"@ =~= seq!['I', 'N', 'T', 'E', 'R', 'N', 'A', 'L', 'D', 'A', 'T', 'E']);
    assert("RFC822.HEADER"@ =~= seq![
        'R', 'F', 'C', '8', '2', '2', '.', 'H', 'E', 'A', 'D', 'E', 'R',
    ]);
    assert("RFC822.SIZE"@ =~= seq!['R', 'F', 'C', '8', '2', '2', '.', 'S', 'I', 'Z', 'E']);
    assert("UID"@ =~= seq!['U', 'I', 'D']);
    assert("BODYSTRUCTURE"@ =~= seq![
        'B', 'O', 'D', 'Y', 'S', 'T', 'R', 'U', 'C', 'T', 'U', 'R', 'E',
    ]);
    assert("BODY["@ =~= seq!['B', 'O', 'D', 'Y', '[']);
    assert("BODY.PEEK["@ =~= seq!['B', 'O', 'D', 'Y', '.', 'P', 'E', 'E', 'K', '[']);
    assert("BINARY["@ =~= seq!['B', 'I', 'N', 'A', 'R', 'Y', '[']);
    assert("BINARY.PEEK["@ =~= seq!['B', 'I', 'N', 'A', 'R', 'Y', '.', 'P', 'E', 'E', 'K', '[']);
    assert("BINARY.SIZE["@ =~= seq!['B', 'I', 'N', 'A', 'R', 'Y', '.', 'S', 'I', 'Z', 'E', '[']);
    assert("ALL"@ =~= seq!['A', 'L', 'L']);
    assert("FAST"@ =~= seq!['F', 'A', 'S', 'T']);
    assert("FULL"@ =~= seq!['F', 'U', 'L', 'L']);
    assert("("@ =~= seq!['(']);
    assert(")"@ =~= seq![')']);
    assert("]"@ =~= seq![']']);
    assert(" "@ =~= seq![' ']);
}


/// Texts that are the same but for case have the same length and, place
/// by place, the same characters but for case.
proof fn lemma_same_text(a: Seq<char>, b: Seq<char>)
    ensures
        same_text(a, b) ==> a.len() == b.len() && forall|i: int|
            0 <= i < a.len() ==> lower(#[trigger] a[i]) == lower(b[i]),
{
    if same_text(a, b) {
        assert(lowered(a).len() == lowered(b).len());
        assert forall|i: int| 0 <= i < a.len() implies lower(#[trigger] a[i]) == lower(b[i]) by {
            assert(lowered(a)[i] == lowered(b)[i]);
        }
    }
}

/// A section that is spelled is read back.
proof fn lemma_section_is_read(section: Option<SectionView>)
    requires
        is_spelled_section(section),
    ensures
        section_of(section_text(section)) == Some(section),
{
    lemma_literals();
    let text = section_text(section);
    match section {
        None => {},
        Some(SectionView::Header) => {},
        Some(SectionView::Text) => {
            lemma_other_length(text, "HEADER"@);
        },
        Some(SectionView::HeaderFields(names)) => {
            let inner = join(names, " "@);
            lemma_other_length(text, "HEADER"@);
            lemma_other_length(text, "TEXT"@);
            lemma_wrapped("HEADER.FIELDS ("@, inner, ')');
            lemma_names(names);
        },
        Some(SectionView::HeaderFieldsNot(names)) => {
            let inner = join(names, " "@);
            lemma_other_length(text, "HEADER"@);
            lemma_other_length(text, "TEXT"@);
            assert(text[13] == '.');
            lemma_not_beginning(text, "HEADER.FIELDS ("@, 13);
            lemma_wrapped("HEADER.FIELDS.NOT ("@, inner, ')');
            lemma_names(names);
        },
    }
}

/// Inside a bracket, a section that is spelled makes no gap and leaves
/// the scan where it was.
proof fn lemma_section_is_level(section: Option<SectionView>, at: Scan)
    requires
        is_spelled_section(section),
        !at.quoted,
        at.depth > 0,
    ensures
        is_whole(section_text(section), at),
        at.over(section_text(section)) == at,
{
    lemma_literals();
    let text = section_text(section);
    match section {
        None => {},
        Some(SectionView::Header) => {
            lemma_plain(text, at);
        },
        Some(SectionView::Text) => {
            lemma_plain(text, at);
        },
        Some(SectionView::HeaderFields(names)) => {
            let inner = join(names, " "@);
            lemma_joined_names_are_plain(names);
            lemma_plain(inner, deeper(at));
            lemma_bracketed("HEADER.FIELDS ("@, inner, ")"@, at);
        },
        Some(SectionView::HeaderFieldsNot(names)) => {
            let inner = join(names, " "@);
            lemma_joined_names_are_plain(names);
            lemma_plain(inner, deeper(at));
            lemma_bracketed("HEADER.FIELDS.NOT ("@, inner, ")"@, at);
        },
    }
}

/// The section of a data item, where it has one.
spec fn section_in(item: AttributeView) -> Option<Option<SectionView>> {
    match item {
        AttributeView::BodySection(section) => Some(section),
        AttributeView::BodyPeek(section) => Some(section),
        AttributeView::Binary(section) => Some(section),
        AttributeView::BinaryPeek(section) => Some(section),
        AttributeView::BinarySize(section) => Some(section),
        _ => None,
    }
}

/// The word before the section of a data item, with its bracket.
spec fn opener_of(item: AttributeView) -> Seq<char> {
    match item {
        AttributeView::BodySection(_) => "BODY["@,
        AttributeView::BodyPeek(_) => "BODY.PEEK["@,
        AttributeView::Binary(_) => "BINARY["@,
        AttributeView::BinaryPeek(_) => "BINARY.PEEK["@,
        _ => "BINARY.SIZE["@,
    }
}

/// A data item that is spelled is one piece of text that opens nothing,
/// and begins with a letter.
proof fn lemma_attribute_is_closed(item: AttributeView)
    requires
        is_spelled_attribute(item),
    ensures
        is_closed(attribute_text(item)),
        attribute_text(item).len() >= 3,
        'B' <= attribute_text(item)[0] <= 'U',
{
    lemma_literals();
    let text = attribute_text(item);
    let top = Scan::top();
    match section_in(item) {
        Some(section) => {
            let inner = section_text(section);
            lemma_section_is_level(section, deeper(top));
            lemma_bracketed(opener_of(item), inner, "]"@, top);
            assert(text =~= opener_of(item) + inner + "]"@);
            assert(text[0] == opener_of(item)[0]);
        },
        None => {
            lemma_plain(text, top);
        },
    }
}

/// No data item is spelled like a keyword that is not its own.
proof fn lemma_keywords(item: AttributeView)
    requires
        section_in(item) is Some,
    ensures
        !same_text(attribute_text(item), "ENVELOPE"@),
        !same_text(attribute_text(item), "FLAGS"@),
        !same_text(attribute_text(item), "INTERNALDATE"@),
        !same_text(attribute_text(item), "RFC822.HEADER"@),
        !same_text(attribute_text(item), "RFC822.SIZE"@),
        !same_text(attribute_text(item), "UID"@),
        !same_text(attribute_text(item), "BODYSTRUCTURE"@),
{
    lemma_literals();
    let text = attribute_text(item);
    let open = opener_of(item);
    assert(text =~= open + section_text(section_in(item)->0) + "]"@);
    assert(text[2] == open[2] && text[4] == open[4]);
    assert(text.len() >= 6);
    lemma_same_text(text, "ENVELOPE"@);
    lemma_same_text(text, "FLAGS"@);
    lemma_same_text(text, "INTERNALDATE"@);
    lemma_same_text(text, "RFC822.HEADER"@);
    lemma_same_text(text, "RFC822.SIZE"@);
    lemma_same_text(text, "UID"@);
    lemma_same_text(text, "BODYSTRUCTURE"@);
}

/// A data item that is spelled is read back.
pub proof fn lemma_attribute_is_read(item: AttributeView)
    requires
        is_spelled_attribute(item),
    ensures
        attribute_of(attribute_text(item)) == Some(item),
{
    lemma_literals();
    let text = attribute_text(item);
    match item {
        AttributeView::Envelope => {},
        AttributeView::Flags => {
            lemma_other_length(text, "ENVELOPE"@);
        },
        AttributeView::InternalDate => {
            lemma_other_length(text, "ENVELOPE"@);
            lemma_other_length(text, "FLAGS"@);
        },
        AttributeView::RFC822Header => {
            lemma_other_length(text, "ENVELOPE"@);
            lemma_other_length(text, "FLAGS"@);
            lemma_other_length(text, "INTERNALDATE"@);
        },
        AttributeView::RFC822Size => {
            lemma_other_length(text, "ENVELOPE"@);
            lemma_other_length(text, "FLAGS"@);
            lemma_other_length(text, "INTERNALDATE"@);
            lemma_other_length(text, "RFC822.HEADER"@);
        },
        AttributeView::Uid => {
            lemma_other_length(text, "ENVELOPE"@);
            lemma_other_length(text, "FLAGS"@);
            lemma_other_length(text, "INTERNALDATE"@);
            lemma_other_length(text, "RFC822.HEADER"@);
            lemma_other_length(text, "RFC822.SIZE"@);
        },
        AttributeView::BodyStructure => {
            lemma_other_length(text, "ENVELOPE"@);
            lemma_other_length(text, "FLAGS"@);
            lemma_other_length(text, "INTERNALDATE"@);
            lemma_differs(text, "RFC822.HEADER"@, 0);
            lemma_other_length(text, "RFC822.SIZE"@);
            lemma_other_length(text, "UID"@);
        },
        AttributeView::BodySection(section) => {
            lemma_keywords(item);
            lemma_wrapped("BODY["@, section_text(section), ']');
            lemma_section_is_read(section);
        },
        AttributeView::BodyPeek(section) => {
            lemma_keywords(item);
            assert(text[4] == '.');
            lemma_not_beginning(text, "BODY["@, 4);
            lemma_wrapped("BODY.PEEK["@, section_text(section), ']');
            lemma_section_is_read(section);
        },
        AttributeView::Binary(section) => {
            lemma_keywords(item);
            assert(text[1] == 'I');
            lemma_not_beginning(text, "BODY["@, 1);
            lemma_not_beginning(text, "BODY.PEEK["@, 1);
            lemma_wrapped("BINARY["@, section_text(section), ']');
            lemma_section_is_read(section);
        },
        AttributeView::BinaryPeek(section) => {
            lemma_keywords(item);
            assert(text[1] == 'I' && text[6] == '.');
            lemma_not_beginning(text, "BODY["@, 1);
            lemma_not_beginning(text, "BODY.PEEK["@, 1);
            lemma_not_beginning(text, "BINARY["@, 6);
            lemma_wrapped("BINARY.PEEK["@, section_text(section), ']');
            lemma_section_is_read(section);
        },
        AttributeView::BinarySize(section) => {
            lemma_keywords(item);
            assert(text[1] == 'I' && text[6] == '.' && text[7] == 'S');
            lemma_not_beginning(text, "BODY["@, 1);
            lemma_not_beginning(text, "BODY.PEEK["@, 1);
            lemma_not_beginning(text, "BINARY["@, 6);
            lemma_not_beginning(text, "BINARY.PEEK["@, 7);
            lemma_wrapped("BINARY.SIZE["@, section_text(section), ']');
            lemma_section_is_read(section);
        },
    }
}

/// No data item is spelled like a macro or like a list.
proof fn lemma_attribute_is_no_macro(item: AttributeView)
    requires
        is_spelled_attribute(item),
    ensures
        !same_text(attribute_text(item), "ALL"@),
        !same_text(attribute_text(item), "FAST"@),
        !same_text(attribute_text(item), "FULL"@),
        !is_enclosed(attribute_text(item), "("@, ')'),
{
    lemma_literals();
    let text = attribute_text(item);
    lemma_attribute_is_closed(item);
    lemma_not_beginning(text, "("@, 0);
    lemma_same_text(text, "ALL"@);
    lemma_same_text(text, "FAST"@);
    lemma_same_text(text, "FULL"@);
    match section_in(item) {
        Some(section) => {
            assert(text =~= opener_of(item) + section_text(section) + "]"@);
            assert(text.len() >= 6);
        },
        None => {
            assert(text[0] != 'A' || text.len() != 3);
        },
    }
}

/// Reading the text that spells the data items of a FETCH command gives
/// the data items back.
pub proof fn lemma_arguments_are_read(arguments: ArgumentsView)
    requires
        is_spelled(arguments),
    ensures
        arguments_of(arguments_text(arguments)) == Some(arguments),
{
    lemma_literals();
    let text = arguments_text(arguments);
    match arguments {
        ArgumentsView::All => {},
        ArgumentsView::Fast => {
            lemma_other_length(text, "ALL"@);
        },
        ArgumentsView::Full => {
            lemma_other_length(text, "ALL"@);
            lemma_differs(text, "FAST"@, 1);
        },
        ArgumentsView::Single(item) => {
            lemma_attribute_is_no_macro(item);
            lemma_attribute_is_read(item);
        },
        ArgumentsView::List(items) => {
            let spelled = attribute_texts(items);
            let inner = join(spelled, " "@);
            assert(text =~= "("@ + inner + seq![')']);
            lemma_differs(text, "ALL"@, 0);
            lemma_differs(text, "FAST"@, 0);
            lemma_differs(text, "FULL"@, 0);
            lemma_wrapped("("@, inner, ')');
            assert forall|i: int| 0 <= i < spelled.len() implies is_closed(
                #[trigger] spelled[i],
            ) by {
                assert(is_spelled_attribute(items[i]));
                lemma_attribute_is_closed(items[i]);
            }
            lemma_pieces_of_joined(spelled);
            assert forall|i: int| 0 <= i < spelled.len() implies attribute_of(
                #[trigger] spelled[i],
            ) == Some(items[i]) by {
                assert(is_spelled_attribute(items[i]));
                lemma_attribute_is_read(items[i]);
            }
            assert(attributes_of(spelled) == Some(items)) by {
                assert(Seq::new(spelled.len(), |i: int| attribute_of(spelled[i])->0) =~= items);
            }
        },
    }
}

} // verus!
