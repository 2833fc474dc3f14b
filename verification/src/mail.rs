//! Messages as the protocol engines see them: a UID, a flag set, the header
//! fields and the size of the body.

use vstd::prelude::*;

verus! {

/// A message flag.
#[derive(Clone, Copy, Debug, PartialEq, Eq, Structural)]
pub enum Flag {
    Seen,
    Flagged,
    Draft,
    Answered,
    Deleted,
    Recent,
}

/// The set of flags of one message.
#[derive(Clone, Copy, Debug, PartialEq, Eq, Structural)]
pub struct MailFlags {
    pub seen: bool,
    pub flagged: bool,
    pub draft: bool,
    pub answered: bool,
    pub deleted: bool,
    pub recent: bool,
}

impl MailFlags {
    /// Whether `flag` is in the set.
    pub open spec fn has(self, flag: Flag) -> bool {
        match flag {
            Flag::Seen => self.seen,
            Flag::Flagged => self.flagged,
            Flag::Draft => self.draft,
            Flag::Answered => self.answered,
            Flag::Deleted => self.deleted,
            Flag::Recent => self.recent,
        }
    }

    /// The set with `flag` put in (`on`) or taken out.
    pub open spec fn with(self, flag: Flag, on: bool) -> MailFlags {
        match flag {
            Flag::Seen => MailFlags { seen: on, ..self },
            Flag::Flagged => MailFlags { flagged: on, ..self },
            Flag::Draft => MailFlags { draft: on, ..self },
            Flag::Answered => MailFlags { answered: on, ..self },
            Flag::Deleted => MailFlags { deleted: on, ..self },
            Flag::Recent => MailFlags { recent: on, ..self },
        }
    }

    /// The empty set.
    pub open spec fn empty() -> MailFlags {
        MailFlags {
            seen: false,
            flagged: false,
            draft: false,
            answered: false,
            deleted: false,
            recent: false,
        }
    }

    /// The empty set.
    pub fn none() -> (flags: MailFlags)
        ensures
            flags == MailFlags::empty(),
    {
        MailFlags {
            seen: false,
            flagged: false,
            draft: false,
            answered: false,
            deleted: false,
            recent: false,
        }
    }

    /// Whether `flag` is in the set.
    pub fn contains(&self, flag: Flag) -> (r: bool)
        ensures
            r == self.has(flag),
    {
        match flag {
            Flag::Seen => self.seen,
            Flag::Flagged => self.flagged,
            Flag::Draft => self.draft,
            Flag::Answered => self.answered,
            Flag::Deleted => self.deleted,
            Flag::Recent => self.recent,
        }
    }

    /// Puts `flag` in (`on`) or takes it out.
    pub fn set(&mut self, flag: Flag, on: bool)
        ensures
            *final(self) == old(self).with(flag, on),
    {
        match flag {
            Flag::Seen => self.seen = on,
            Flag::Flagged => self.flagged = on,
            Flag::Draft => self.draft = on,
            Flag::Answered => self.answered = on,
            Flag::Deleted => self.deleted = on,
            Flag::Recent => self.recent = on,
        }
    }

    /// The flags that the letters of a Maildir file name's info part stand
    /// for: `D` draft, `F` flagged, `R` answered, `S` seen, `T` deleted. No
    /// letter stands for `\Recent`.
    pub open spec fn of_letters(letters: Seq<char>) -> MailFlags {
        MailFlags {
            seen: letters.contains('S'),
            flagged: letters.contains('F'),
            draft: letters.contains('D'),
            answered: letters.contains('R'),
            deleted: letters.contains('T'),
            recent: false,
        }
    }

    /// Reads the info letters of a Maildir file name.
    pub fn from_letters(letters: &str) -> (flags: MailFlags)
        ensures
            flags == MailFlags::of_letters(letters@),
    {
        let mut flags = MailFlags::none();
        for c in it: letters.chars()
            invariant
                it.seq() == letters@,
                flags == MailFlags::of_letters(it.seq().take(it.index())),
        {
            proof {
                let before = it.seq().take(it.index());
                let after = it.seq().take(it.index() + 1);
                assert(after =~= before.push(c));
                assert forall|x: char| after.contains(x) <==> (before.contains(x) || x == c) by {
                    if before.contains(x) {
                        let k = choose|k: int| 0 <= k < before.len() && before[k] == x;
                        assert(after[k] == x);
                    }
                    if x == c {
                        assert(after[before.len() as int] == x);
                    }
                }
            }
            if c == 'S' {
                flags.seen = true;
            } else if c == 'F' {
                flags.flagged = true;
            } else if c == 'D' {
                flags.draft = true;
            } else if c == 'R' {
                flags.answered = true;
            } else if c == 'T' {
                flags.deleted = true;
            }
        }
        assert(letters@.take(letters@.len() as int) =~= letters@);
        flags
    }
}

/// One header field of a message.
#[derive(Clone, Debug)]
pub struct Header {
    pub name: String,
    pub value: String,
}

impl View for Header {
    type V = (Seq<char>, Seq<char>);

    open spec fn view(&self) -> (Seq<char>, Seq<char>) {
        (self.name@, self.value@)
    }
}

impl DeepView for Header {
    type V = (Seq<char>, Seq<char>);

    open spec fn deep_view(&self) -> (Seq<char>, Seq<char>) {
        (self.name@, self.value@)
    }
}

/// What a `MailEntry` stands for.
pub struct MailEntryView {
    pub uid: u32,
    pub flags: MailFlags,
    pub headers: Option<Seq<(Seq<char>, Seq<char>)>>,
    pub body_size: Option<u64>,
}

/// One message of a mailbox. `headers` and `body_size` are `None` where the
/// message could not be read.
#[derive(Clone, Debug)]
pub struct MailEntry {
    pub uid: u32,
    pub flags: MailFlags,
    pub headers: Option<Vec<Header>>,
    pub body_size: Option<u64>,
}

impl View for MailEntry {
    type V = MailEntryView;

    open spec fn view(&self) -> MailEntryView {
        MailEntryView {
            uid: self.uid,
            flags: self.flags,
            headers: match self.headers {
                Some(h) => Some(h.deep_view()),
                None => None,
            },
            body_size: self.body_size,
        }
    }
}

/// The header fields at the start of `message`, name and value of each, as
/// `mailparse` reads them; `None` where it rejects the message.
pub uninterp spec fn message_headers(message: Seq<u8>) -> Option<Seq<(Seq<char>, Seq<char>)>>;

/// The body of `message` with its transfer encoding undone, as `mailparse`
/// decodes it; `None` where it rejects the message or the encoding.
pub uninterp spec fn message_body(message: Seq<u8>) -> Option<Seq<u8>>;

/// Calls `mailparse::parse_headers` and takes name and value of each field
/// with `MailHeader::get_key` and `MailHeader::get_value`. The result depends
/// on the bytes of `message` alone; nothing more is claimed of it.
#[verifier::external_body]
fn read_headers(message: &[u8]) -> (r: Option<Vec<Header>>)
    ensures
        r matches Some(h) ==> message_headers(message@) == Some(h.deep_view()),
        r is None ==> message_headers(message@) is None,
{
    match mailparse::parse_headers(message) {
        Ok((found, _)) => Some(
            found.iter().map(|h| Header { name: h.get_key(), value: h.get_value() }).collect(),
        ),
        Err(_) => None,
    }
}

/// Calls `mailparse::parse_mail` and then `ParsedMail::get_body_raw`, which
/// undoes the transfer encoding of the body. The result depends on the bytes
/// of `message` alone; nothing more is claimed of it.
#[verifier::external_body]
fn read_body(message: &[u8]) -> (r: Option<Vec<u8>>)
    ensures
        r matches Some(b) ==> message_body(message@) == Some(b@),
        r is None ==> message_body(message@) is None,
{
    match mailparse::parse_mail(message) {
        Ok(mail) => match mail.get_body_raw() {
            Ok(body) => Some(body),
            Err(_) => None,
        },
        Err(_) => None,
    }
}

/// The size that is recorded for a body: the count of its octets.
pub open spec fn size_of_body(body: Option<Seq<u8>>) -> Option<u64> {
    match body {
        Some(b) => Some(b.len() as u64),
        None => None,
    }
}

impl MailEntry {
    /// The entry with these values.
    pub fn new(
        uid: u32,
        flags: MailFlags,
        headers: Option<Vec<Header>>,
        body_size: Option<u64>,
    ) -> (mail: MailEntry)
        ensures
            mail.uid == uid,
            mail.flags == flags,
            mail.headers == headers,
            mail.body_size == body_size,
    {
        MailEntry { uid, flags, headers, body_size }
    }

    /// The entry for the message with the bytes `message`: its header fields
    /// and the octet count of its decoded body.
    pub fn from_message(uid: u32, flags: MailFlags, message: &[u8]) -> (mail: MailEntry)
        ensures
            mail@ == (MailEntryView {
                uid,
                flags,
                headers: message_headers(message@),
                body_size: size_of_body(message_body(message@)),
            }),
    {
        let headers = read_headers(message);
        let body_size = match read_body(message) {
            Some(body) => Some(body.len() as u64),
            None => None,
        };
        MailEntry { uid, flags, headers, body_size }
    }

    /// The identifier of the message in its mailbox.
    pub fn uid(&self) -> (uid: u32)
        ensures
            uid == self.uid,
    {
        self.uid
    }

    pub fn flags(&self) -> (flags: MailFlags)
        ensures
            flags == self.flags,
    {
        self.flags
    }

    /// The header fields in their order, where the message could be read.
    pub fn headers(&self) -> (headers: &Option<Vec<Header>>)
        ensures
            *headers == self.headers,
    {
        &self.headers
    }

    /// The octet count of the body, or 0 where the message could not be
    /// read.

    pub fn body_size(&self) -> (size: u64)
        ensures
            size == match self.body_size {
                Some(n) => n,
                None => 0,
            },
    {
        match self.body_size {
            Some(n) => n,
            None => 0,
        }
    }

    /// Puts `flag` in (`on`) or takes it out.
    pub fn set_flag(&mut self, flag: Flag, on: bool)
        ensures
            final(self)@ == (MailEntryView { flags: old(self).flags.with(flag, on), ..old(self)@ }),
    {
        self.flags.set(flag, on);
    }
}

} // verus!
