use erooster::imap::fetch::{fetch_arguments, FetchArguments, FetchAttributes, SectionText};
use erooster::mail::{Header, MailEntry, MailFlags};
use erooster::imap::uid::{generate_response, generate_response_for_attributes, UidRange};

fn header(name: &str, value: &str) -> Header {
    Header { name: String::from(name), value: String::from(value) }
}

fn message() -> MailEntry {
    let headers = vec![
        header("From", "a@x"),
        header("To", "b@mx"),
        header("Subject", "Gr\u{fc}\u{df}e"),
    ];
    let mut flags = MailFlags::none();
    flags.flagged = true;
    flags.deleted = true;
    MailEntry::new(7, flags, Some(headers), Some(1234))
}

fn unreadable() -> MailEntry {
    MailEntry::new(8, MailFlags::none(), None, None)
}

fn names(items: &[&str]) -> Vec<String> {
    items.iter().map(|s| String::from(*s)).collect()
}

#[test]
fn macros_single_items_and_lists_are_read() {
    assert!(matches!(fetch_arguments("ALL"), Some(FetchArguments::All)));
    assert!(matches!(fetch_arguments("fast"), Some(FetchArguments::Fast)));
    assert!(matches!(fetch_arguments("Full"), Some(FetchArguments::Full)));
    assert!(matches!(
        fetch_arguments("FLAGS"),
        Some(FetchArguments::Single(FetchAttributes::Flags))
    ));
    assert!(matches!(
        fetch_arguments("rfc822.size"),
        Some(FetchArguments::Single(FetchAttributes::RFC822Size))
    ));
    match fetch_arguments("(UID FLAGS ENVELOPE INTERNALDATE RFC822.HEADER BODYSTRUCTURE)") {
        Some(FetchArguments::List(items)) => {
            assert_eq!(items.len(), 6);
            assert!(matches!(items[0], FetchAttributes::Uid));
            assert!(matches!(items[1], FetchAttributes::Flags));
            assert!(matches!(items[2], FetchAttributes::Envelope));
            assert!(matches!(items[3], FetchAttributes::InternalDate));
            assert!(matches!(items[4], FetchAttributes::RFC822Header));
            assert!(matches!(items[5], FetchAttributes::BodyStructure));
        }
        other => panic!("unexpected {:?}", other),
    }
}

#[test]
fn sections_are_read() {
    assert!(matches!(
        fetch_arguments("BODY[]"),
        Some(FetchArguments::Single(FetchAttributes::BodySection(None)))
    ));
    assert!(matches!(
        fetch_arguments("BODY.PEEK[HEADER]"),
        Some(FetchArguments::Single(FetchAttributes::BodyPeek(Some(SectionText::Header))))
    ));
    assert!(matches!(
        fetch_arguments("BINARY[TEXT]"),
        Some(FetchArguments::Single(FetchAttributes::Binary(Some(SectionText::Text))))
    ));
    assert!(matches!(
        fetch_arguments("BINARY.PEEK[]"),
        Some(FetchArguments::Single(FetchAttributes::BinaryPeek(None)))
    ));
    assert!(matches!(
        fetch_arguments("BINARY.SIZE[]"),
        Some(FetchArguments::Single(FetchAttributes::BinarySize(None)))
    ));
    match fetch_arguments("(UID body.peek[header.fields (From To)] BODY[HEADER.FIELDS.NOT (Subject)])") {
        Some(FetchArguments::List(items)) => {
            assert_eq!(items.len(), 3);
            match &items[1] {
                FetchAttributes::BodyPeek(Some(SectionText::HeaderFields(list))) => {
                    assert_eq!(list, &names(&["From", "To"]));
                }
                other => panic!("unexpected {:?}", other),
            }
            match &items[2] {
                FetchAttributes::BodySection(Some(SectionText::HeaderFieldsNot(list))) => {
                    assert_eq!(list, &names(&["Subject"]));
                }
                other => panic!("unexpected {:?}", other),
            }
        }
        other => panic!("unexpected {:?}", other),
    }
}

#[test]
fn what_is_no_data_item_is_refused() {
    for text in [
        "",
        "()",
        "(FLAGS",
        "FLAGS)",
        "(FLAGS  UID)",
        "( FLAGS)",
        "NONSENSE",
        "BODY",
        "BODY[",
        "BODY[MIME]",
        "BODY[HEADER.FIELDS ()]",
        "BODY[HEADER.FIELDS (a  b)]",
        "BODY[HEADER.FIELDS From]",
        "(ALL)",
    ] {
        assert!(fetch_arguments(text).is_none(), "{:?} was accepted", text);
    }
}

#[test]
fn flags_are_listed_in_their_order() {
    let mut mail = message();
    assert_eq!(
        generate_response_for_attributes(&FetchAttributes::Flags, &mut mail),
        Some(String::from("FLAGS (\\Flagged \\Deleted)"))
    );
    let mut all = MailEntry::new(
        1,
        MailFlags { seen: true, flagged: true, draft: true, answered: true, deleted: true, recent: true },
        None,
        None,
    );
    assert_eq!(
        generate_response_for_attributes(&FetchAttributes::Flags, &mut all),
        Some(String::from("FLAGS (\\Seen \\Flagged \\Draft \\Answered \\Deleted \\Recent)"))
    );
    let mut none = unreadable();
    assert_eq!(
        generate_response_for_attributes(&FetchAttributes::Flags, &mut none),
        Some(String::from("FLAGS ()"))
    );
}

#[test]
fn size_and_headers() {
    let mut mail = message();
    assert_eq!(
        generate_response_for_attributes(&FetchAttributes::RFC822Size, &mut mail),
        Some(String::from("RFC822.SIZE 1234"))
    );
    // the block has 35 characters, two of them of two octets each
    assert_eq!(
        generate_response_for_attributes(&FetchAttributes::RFC822Header, &mut mail),
        Some(String::from(
            "RFC822.HEADER {37}\r\nFrom: a@x\r\nTo: b@mx\r\nSubject: Gr\u{fc}\u{df}e"
        ))
    );
    let mut broken = unreadable();
    assert_eq!(
        generate_response_for_attributes(&FetchAttributes::RFC822Size, &mut broken),
        Some(String::from("RFC822.SIZE 0"))
    );
    assert_eq!(
        generate_response_for_attributes(&FetchAttributes::RFC822Header, &mut broken),
        Some(String::from("RFC822.HEADER\r\n"))
    );
}

#[test]
fn header_fields_are_picked_by_name_in_any_case() {
    let mut mail = message();
    let picked = FetchAttributes::BodyPeek(Some(SectionText::HeaderFields(names(&["to", "FROM", "x"]))));
    assert_eq!(
        generate_response_for_attributes(&picked, &mut mail),
        Some(String::from("BODY.PEEK[HEADER.FIELDS] {19}\r\nFrom: a@x\r\nTo: b@mx"))
    );
    let others = FetchAttributes::BodyPeek(Some(SectionText::HeaderFieldsNot(names(&["to", "FROM"]))));
    assert_eq!(
        generate_response_for_attributes(&others, &mut mail),
        Some(String::from("BODY.PEEK[HEADER.FIELDS] {16}\r\nSubject: Gr\u{fc}\u{df}e"))
    );
    let nothing = FetchAttributes::BodyPeek(Some(SectionText::HeaderFields(names(&["x"]))));
    assert_eq!(
        generate_response_for_attributes(&nothing, &mut mail),
        Some(String::from("BODY.PEEK[HEADER.FIELDS] {0}\r\n"))
    );
    assert!(!mail.flags.seen);
    let mut broken = unreadable();
    assert_eq!(
        generate_response_for_attributes(&picked, &mut broken),
        Some(String::from("BODY.PEEK[HEADER.FIELDS]\r\n"))
    );
}

#[test]
fn body_marks_seen_and_peek_does_not() {
    let mut mail = message();
    let peek = FetchAttributes::BodyPeek(None);
    assert_eq!(
        generate_response_for_attributes(&peek, &mut mail),
        Some(String::from("BODY.PEEK[HEADER.FIELDS]\r\n"))
    );
    assert!(!mail.flags.seen);
    let body = FetchAttributes::BodySection(Some(SectionText::Header));
    assert_eq!(
        generate_response_for_attributes(&body, &mut mail),
        Some(String::from("BODY.PEEK[HEADER.FIELDS]\r\n"))
    );
    assert!(mail.flags.seen);
    assert!(mail.flags.flagged);
    let text = FetchAttributes::BodySection(Some(SectionText::Text));
    let mut other = message();
    assert_eq!(generate_response_for_attributes(&text, &mut other), None);
    assert!(other.flags.seen);
}

#[test]
fn items_without_an_answer() {
    let mut mail = message();
    for item in [
        FetchAttributes::Envelope,
        FetchAttributes::InternalDate,
        FetchAttributes::Uid,
        FetchAttributes::BodyStructure,
        FetchAttributes::Binary(None),
        FetchAttributes::BinaryPeek(None),
        FetchAttributes::BinarySize(None),
    ] {
        assert_eq!(generate_response_for_attributes(&item, &mut mail), None);
    }
    assert_eq!(generate_response(&FetchArguments::Single(FetchAttributes::Uid), &mut mail), None);
    assert_eq!(
        generate_response(&FetchArguments::List(vec![FetchAttributes::Uid]), &mut mail),
        Some(String::new())
    );
}

#[test]
fn lists_and_macros_are_joined_by_spaces() {
    let mut mail = message();
    let list = FetchArguments::List(vec![
        FetchAttributes::Uid,
        FetchAttributes::RFC822Size,
        FetchAttributes::Envelope,
        FetchAttributes::Flags,
    ]);
    assert_eq!(
        generate_response(&list, &mut mail),
        Some(String::from("RFC822.SIZE 1234 FLAGS (\\Flagged \\Deleted)"))
    );
    for arguments in [FetchArguments::All, FetchArguments::Fast, FetchArguments::Full] {
        assert_eq!(
            generate_response(&arguments, &mut mail),
            Some(String::from("FLAGS (\\Flagged \\Deleted) RFC822.SIZE 1234"))
        );
    }
    assert_eq!(
        generate_response(&FetchArguments::Single(FetchAttributes::Flags), &mut mail),
        Some(String::from("FLAGS (\\Flagged \\Deleted)"))
    );
}

#[test]
fn uid_sets() {
    assert_eq!(UidRange::parse("1:*"), UidRange { low: 1, high: i64::MAX as u64 });
    assert_eq!(UidRange::parse("0:*"), UidRange { low: 0, high: i64::MAX as u64 });
    assert_eq!(UidRange::parse("3:8"), UidRange { low: 3, high: 8 });
    assert_eq!(UidRange::parse("8:3"), UidRange { low: 8, high: 3 });
    assert_eq!(UidRange::parse("12"), UidRange { low: 12, high: 12 });
    assert_eq!(UidRange::parse("x"), UidRange { low: 1, high: 1 });
    assert_eq!(UidRange::parse(""), UidRange { low: 1, high: 1 });
    assert_eq!(UidRange::parse("x:y"), UidRange { low: 1, high: i64::MAX as u64 });
    assert_eq!(UidRange::parse(":"), UidRange { low: 1, high: i64::MAX as u64 });
    assert_eq!(UidRange::parse("-5:7"), UidRange { low: 1, high: 7 });
    assert_eq!(UidRange::parse("2:4:9"), UidRange { low: 2, high: 4 });
    assert_eq!(
        UidRange::parse("9223372036854775807:9223372036854775808"),
        UidRange { low: i64::MAX as u64, high: i64::MAX as u64 }
    );
    let range = UidRange::parse("3:8");
    assert!(!range.contains(2));
    assert!(range.contains(3));
    assert!(range.contains(8));
    assert!(!range.contains(9));
    assert!(!UidRange::parse("8:3").contains(5));
    assert!(UidRange::parse("1:*").contains(u32::MAX));
}

#[test]
fn spelled_items_are_read_back() {
    match fetch_arguments("(FLAGS BINARY.SIZE[HEADER.FIELDS.NOT (Date X-Spam)] UID)") {
        Some(FetchArguments::List(items)) => {
            assert_eq!(items.len(), 3);
            assert!(matches!(items[0], FetchAttributes::Flags));
            match &items[1] {
                FetchAttributes::BinarySize(Some(SectionText::HeaderFieldsNot(list))) => {
                    assert_eq!(list, &names(&["Date", "X-Spam"]));
                }
                other => panic!("unexpected {:?}", other),
            }
            assert!(matches!(items[2], FetchAttributes::Uid));
        }
        other => panic!("unexpected {:?}", other),
    }
    match fetch_arguments("BINARY.PEEK[HEADER.FIELDS (To)]") {
        Some(FetchArguments::Single(FetchAttributes::BinaryPeek(Some(
            SectionText::HeaderFields(list),
        )))) => assert_eq!(list, names(&["To"])),
        other => panic!("unexpected {:?}", other),
    }
}

#[test]
fn header_names_match_in_any_case_of_any_letter() {
    let headers = vec![header("X-\u{c4}rger", "1"), header("x-other", "2")];
    let mut mail = MailEntry::new(1, MailFlags::none(), Some(headers), None);
    let picked = FetchAttributes::BodyPeek(Some(SectionText::HeaderFields(names(&["x-\u{e4}RGER"]))));
    assert_eq!(
        generate_response_for_attributes(&picked, &mut mail),
        Some(String::from("BODY.PEEK[HEADER.FIELDS] {11}\r\nX-\u{c4}rger: 1"))
    );
    let others = FetchAttributes::BodyPeek(Some(SectionText::HeaderFieldsNot(names(&["X-OTHER"]))));
    assert_eq!(
        generate_response_for_attributes(&others, &mut mail),
        Some(String::from("BODY.PEEK[HEADER.FIELDS] {11}\r\nX-\u{c4}rger: 1"))
    );
}
