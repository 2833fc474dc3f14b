use erooster::mail::{Flag, MailEntry, MailFlags};
use erooster::imap::uid::generate_response_for_attributes;
use erooster::imap::fetch::FetchAttributes;

#[test]
fn flags_of_maildir_letters() {
    assert_eq!(MailFlags::from_letters(""), MailFlags::none());
    let flags = MailFlags::from_letters("FS");
    assert!(flags.seen && flags.flagged);
    assert!(!flags.draft && !flags.answered && !flags.deleted && !flags.recent);
    let all = MailFlags::from_letters("DFPRST");
    assert!(all.seen && all.flagged && all.draft && all.answered && all.deleted);
    assert!(!all.recent);
    assert_eq!(MailFlags::from_letters("xyz"), MailFlags::none());
}

#[test]
fn flags_can_be_set_and_asked_for() {
    let mut flags = MailFlags::none();
    for flag in [Flag::Seen, Flag::Flagged, Flag::Draft, Flag::Answered, Flag::Deleted, Flag::Recent] {
        assert!(!flags.contains(flag));
        flags.set(flag, true);
        assert!(flags.contains(flag));
    }
    flags.set(Flag::Draft, false);
    assert!(!flags.contains(Flag::Draft));
    assert!(flags.contains(Flag::Seen));
    let mut mail = MailEntry::new(3, MailFlags::none(), None, Some(5));
    mail.set_flag(Flag::Recent, true);
    assert!(mail.flags().recent);
    assert!(!mail.flags().seen);
    assert_eq!(mail.uid(), 3);
    assert!(mail.headers().is_none());
    assert_eq!(mail.body_size(), 5);
    assert_eq!(MailEntry::new(3, MailFlags::none(), None, None).body_size(), 0);
}

#[test]
fn message_is_read_by_the_parser() {
    let message = b"From: Alice <a@x>\r\nSubject: =?utf-8?Q?Gr=C3=BC=C3=9Fe?=\r\nX-Long: one\r\n two\r\n\r\nhello\r\n";
    let mail = MailEntry::from_message(4, MailFlags::from_letters("S"), message);
    assert_eq!(mail.uid, 4);
    assert!(mail.flags.seen);
    let headers = mail.headers.clone().expect("headers");
    let pairs: Vec<(&str, &str)> =
        headers.iter().map(|h| (h.name.as_str(), h.value.as_str())).collect();
    assert_eq!(
        pairs,
        vec![("From", "Alice <a@x>"), ("Subject", "Gr\u{fc}\u{df}e"), ("X-Long", "one two")]
    );
    assert_eq!(mail.body_size, Some(7));
    let mut mail = mail;
    assert_eq!(
        generate_response_for_attributes(&FetchAttributes::RFC822Size, &mut mail),
        Some(String::from("RFC822.SIZE 7"))
    );
}

#[test]
fn body_size_is_that_of_the_decoded_body() {
    let message = b"Content-Transfer-Encoding: base64\r\n\r\naGVsbG8gd29ybGQ=\r\n";
    let mail = MailEntry::from_message(1, MailFlags::none(), message);
    assert_eq!(mail.body_size, Some(11));
    let quoted = b"Content-Transfer-Encoding: quoted-printable\r\n\r\na=3Db";
    let mail = MailEntry::from_message(1, MailFlags::none(), quoted);
    assert_eq!(mail.body_size, Some(3));
    let empty = MailEntry::from_message(1, MailFlags::none(), b"");
    assert_eq!(empty.body_size, Some(0));
    assert_eq!(empty.headers.map(|h| h.len()), Some(0));
}

#[test]
fn message_that_the_parser_rejects() {
    let message = b"Subject: x\r\n\rbroken";
    let mail = MailEntry::from_message(9, MailFlags::none(), message);
    assert!(mail.headers.is_none());
    assert!(mail.body_size.is_none());
    let mut mail = mail;
    assert_eq!(
        generate_response_for_attributes(&FetchAttributes::RFC822Header, &mut mail),
        Some(String::from("RFC822.HEADER\r\n"))
    );
    assert_eq!(
        generate_response_for_attributes(&FetchAttributes::RFC822Size, &mut mail),
        Some(String::from("RFC822.SIZE 0"))
    );
}
