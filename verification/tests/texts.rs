use erooster::mailbox::{disk_folder, is_disk_folder, is_trash_folder, wire_folder};
use erooster::sasl::{decode_base64, read_plain};
use erooster::text::{
    chars_of, find_first, is_match, is_same_text, join_strings, parse_number, push_decimal,
    remove_all, split_top, split_words, string_of, unquote,
};

fn chars(s: &str) -> Vec<char> {
    s.chars().collect()
}

fn decimal(n: u64) -> String {
    let mut s = String::from(">");
    push_decimal(&mut s, n);
    s
}

fn pieces(s: &str) -> Vec<String> {
    split_top(&chars(s)).iter().map(|p| p.iter().collect()).collect()
}

fn words(s: &str) -> Vec<String> {
    split_words(&chars(s), ' ').iter().map(|p| p.iter().collect()).collect()
}

fn matches(pattern: &str, name: &str) -> bool {
    is_match(&chars(pattern), &chars(name))
}

#[test]
fn strings_and_characters() {
    assert_eq!(chars_of("a\u{e9}z"), vec!['a', '\u{e9}', 'z']);
    assert_eq!(string_of(&vec!['a', '\u{e9}', 'z']), "a\u{e9}z");
    assert!(chars_of("").is_empty());
    assert!(is_same_text(&chars("FeTcH"), &chars("fetch")));
    assert!(is_same_text(&chars("@[`{"), &chars("@[`{")));
    assert!(!is_same_text(&chars("@"), &chars("`")));
    assert!(!is_same_text(&chars("fetch"), &chars("fetc")));
    assert!(!is_same_text(&chars("\u{c4}"), &chars("\u{e4}")));
    assert_eq!(find_first(&chars("a:b:c"), ':'), 1);
    assert_eq!(find_first(&chars("abc"), ':'), 3);
    assert_eq!(remove_all(&chars("\"a\"b\""), '"'), chars("ab"));
}

#[test]
fn decimal_numbers() {
    assert_eq!(decimal(0), ">0");
    assert_eq!(decimal(9), ">9");
    assert_eq!(decimal(10), ">10");
    assert_eq!(decimal(4096), ">4096");
    assert_eq!(decimal(u64::MAX), ">18446744073709551615");
    assert_eq!(parse_number(&chars("0"), 10), Some(0));
    assert_eq!(parse_number(&chars("007"), 10), Some(7));
    assert_eq!(parse_number(&chars("10"), 10), Some(10));
    assert_eq!(parse_number(&chars("11"), 10), None);
    assert_eq!(parse_number(&chars(""), 10), None);
    assert_eq!(parse_number(&chars("+1"), 10), None);
    assert_eq!(parse_number(&chars("1a"), 10), None);
    assert_eq!(parse_number(&chars("18446744073709551615"), u64::MAX), Some(u64::MAX));
    assert_eq!(parse_number(&chars("18446744073709551616"), u64::MAX), None);
    assert_eq!(parse_number(&chars("99999999999999999999999"), u64::MAX), None);
}

#[test]
fn joining_and_cutting() {
    assert_eq!(join_strings(&Vec::new(), ", "), "");
    assert_eq!(join_strings(&vec![String::from("a")], ", "), "a");
    assert_eq!(join_strings(&vec![String::from("a"), String::new(), String::from("c")], ", "), "a, , c");
    assert_eq!(pieces(""), vec![""]);
    assert_eq!(pieces("a b"), vec!["a", "b"]);
    assert_eq!(pieces(" a  b "), vec!["", "a", "", "b", ""]);
    assert_eq!(pieces("a (b c) d"), vec!["a", "(b c)", "d"]);
    assert_eq!(pieces("a [b (c d)] e"), vec!["a", "[b (c d)]", "e"]);
    assert_eq!(pieces("a \"b c\" d"), vec!["a", "\"b c\"", "d"]);
    assert_eq!(pieces("\"a \\\" b\" c"), vec!["\"a \\\" b\"", "c"]);
    assert_eq!(pieces("\"a ( b\" c"), vec!["\"a ( b\"", "c"]);
    assert_eq!(pieces("a) b"), vec!["a)", "b"]);
    assert_eq!(pieces("(a b"), vec!["(a b"]);
    assert_eq!(words(""), Vec::<String>::new());
    assert_eq!(words("   "), Vec::<String>::new());
    assert_eq!(words("a"), vec!["a"]);
    assert_eq!(words("  a  (b c)  "), vec!["a", "(b", "c)"]);
}

#[test]
fn quoted_arguments() {
    assert_eq!(unquote("plain"), "plain");
    assert_eq!(unquote("\"quoted\""), "quoted");
    assert_eq!(unquote("\"\""), "");
    assert_eq!(unquote("\""), "\"");
    assert_eq!(unquote("\"a \\\"b\\\" \\\\ c\""), "a \"b\" \\ c");
    assert_eq!(unquote("\"open"), "\"open");
}

#[test]
fn wildcards() {
    assert!(matches("*", ""));
    assert!(matches("*", "INBOX/Sent/2020"));
    assert!(matches("%", "INBOX"));
    assert!(!matches("%", "INBOX/Sent"));
    assert!(matches("INBOX/%", "INBOX/Sent"));
    assert!(!matches("INBOX/%", "INBOX/Sent/2020"));
    assert!(matches("INBOX/*", "INBOX/Sent/2020"));
    assert!(matches("*2020", "INBOX/Sent/2020"));
    assert!(matches("%/%/2*0", "INBOX/Sent/2020"));
    assert!(!matches("INBOX", "INBOX/Sent"));
    assert!(!matches("inbox", "INBOX"));
    assert!(matches("", ""));
    assert!(!matches("", "a"));
    assert!(matches("a*b*c", "aXbXbXc"));
    assert!(!matches("a*b*c", "aXbXbX"));
    let long = "a".repeat(200);
    assert!(!matches("*a*a*a*a*a*a*a*a*a*a*b", &long));
}

#[test]
fn mailbox_names() {
    assert_eq!(disk_folder("INBOX"), "INBOX");
    assert_eq!(disk_folder("inbox"), "INBOX");
    assert_eq!(disk_folder("\"Inbox\""), "INBOX");
    assert_eq!(disk_folder("INBOX/Sent"), ".Sent");
    assert_eq!(disk_folder("Sent"), ".Sent");
    assert_eq!(disk_folder("\"Archive/2020\""), ".Archive.2020");
    assert_eq!(disk_folder("inbox/Archive/2020"), ".Archive.2020");
    assert_eq!(disk_folder("INBOXES"), ".INBOXES");
    assert_eq!(disk_folder(""), ".");
    assert_eq!(wire_folder("INBOX"), "INBOX");
    assert_eq!(wire_folder(".Sent"), "INBOX/Sent");
    assert_eq!(wire_folder(".Archive.2020"), "INBOX/Archive/2020");
    assert_eq!(disk_folder(&wire_folder(".Archive.2020")), ".Archive.2020");
    assert_eq!(disk_folder(&wire_folder("INBOX")), "INBOX");
    assert!(is_disk_folder("INBOX"));
    assert!(is_disk_folder(".Sent"));
    assert!(!is_disk_folder("cur"));
    assert!(!is_disk_folder("inbox"));
    assert!(!is_disk_folder(""));
    assert!(is_trash_folder(".Trash"));
    assert!(is_trash_folder(".Old.TRASH"));
    assert!(!is_trash_folder("Trash"));
    assert!(!is_trash_folder(".Trashes"));
    assert!(!is_trash_folder(""));
}

#[test]
fn base64_texts() {
    assert_eq!(decode_base64(&chars("")), Some(Vec::new()));
    assert_eq!(decode_base64(&chars("TQ==")), Some(b"M".to_vec()));
    assert_eq!(decode_base64(&chars("TWE=")), Some(b"Ma".to_vec()));
    assert_eq!(decode_base64(&chars("TWFu")), Some(b"Man".to_vec()));
    assert_eq!(decode_base64(&chars("aGVsbG8gd29ybGQ=")), Some(b"hello world".to_vec()));
    assert_eq!(decode_base64(&chars("+/+/")), Some(vec![0xfb, 0xff, 0xbf]));
    assert_eq!(decode_base64(&chars("AAECAwQF/v8=")), Some(vec![0, 1, 2, 3, 4, 5, 254, 255]));
    assert_eq!(decode_base64(&chars("TWF")), None);
    assert_eq!(decode_base64(&chars("TQ==TWFu")), None);
    assert_eq!(decode_base64(&chars("T=Fu")), None);
    assert_eq!(decode_base64(&chars("TW-u")), None);
    assert_eq!(decode_base64(&chars("====")), None);
    assert_eq!(decode_base64(&chars("TWFu\n")), None);
}

#[test]
fn plain_responses() {
    let credentials = read_plain("AGFsaWNlAHB3").expect("credentials");
    assert_eq!(credentials.user, "alice");
    assert_eq!(credentials.password, "pw");
    // "admin\0bob\0s\u{e9}same"
    let credentials = read_plain("YWRtaW4AYm9iAHPDqXNhbWU=").expect("credentials");
    assert_eq!(credentials.user, "bob");
    assert_eq!(credentials.password, "s\u{e9}same");
    // "\0bob\0"
    let credentials = read_plain("AGJvYgA=").expect("credentials");
    assert_eq!(credentials.user, "bob");
    assert_eq!(credentials.password, "");
    // "\0\0pw": no user
    assert!(read_plain("AABwdw==").is_none());
    // "alice": no zero byte
    assert!(read_plain("YWxpY2U=").is_none());
    // "\0alice": one zero byte
    assert!(read_plain("AGFsaWNl").is_none());
    // "\0\xff\0pw": not UTF-8
    assert!(read_plain("AP8AcHc=").is_none());
    assert!(read_plain("not base64").is_none());
    assert!(read_plain("").is_none());
}
