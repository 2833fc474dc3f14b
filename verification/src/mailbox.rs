//! Mailbox names: as clients write them, with `/` between the levels, and
//! as the folders of a Maildir are named, with a dot before each level.

use vstd::prelude::*;
use vstd::string::StringExecFns;
use crate::text::{
    begins_with, chars_of, copy_range, is_beginning, is_same_text, is_text, is_word, lowered,
    remove_all, same_text, string_of, without,
};

verus! {

/// A mailbox of a user; `folder` is the name of the folder on disk.
#[derive(Clone, Debug)]
pub struct MailboxRef {
    pub username: String,
    pub folder: String,
}

impl View for MailboxRef {
    type V = (Seq<char>, Seq<char>);

    open spec fn view(&self) -> (Seq<char>, Seq<char>) {
        (self.username@, self.folder@)
    }
}

/// `s` with every `from` replaced by `to`.
pub open spec fn replaced(s: Seq<char>, from: char, to: char) -> Seq<char> {
    Seq::new(s.len(), |i: int| if s[i] == from { to } else { s[i] })
}

/// The name with its double quotes taken out, a dot for every `/`, and a dot
/// in front.
pub open spec fn dotted(name: Seq<char>) -> Seq<char> {
    seq!['.'] + replaced(without(name, '"'), '/', '.')
}

/// The folder on disk that the mailbox name of a client stands for. `INBOX`,
/// in any case, is the user's top Maildir; a level below it, and a name
/// without `INBOX` in front, is the folder named by a dot before each level:
/// `INBOX/Sent` and `Sent` are both `.Sent`.
pub open spec fn disk_name(name: Seq<char>) -> Seq<char> {
    let d = dotted(name);
    if same_text(d, ".INBOX"@) {
        "INBOX"@
    } else if begins_with(d, ".INBOX."@) {
        d.skip(6)
    } else {
        d
    }
}

/// Whether `folder` names a mailbox on disk: the top Maildir or a folder
/// whose name begins with a dot.
pub open spec fn is_disk_name(folder: Seq<char>) -> bool {
    folder == "INBOX"@ || (folder.len() > 0 && folder[0] == '.')
}

/// The name under which a client sees the folder `folder`: `INBOX` for the
/// top Maildir, else `INBOX` and a `/` for each dot of the folder's name.
pub open spec fn wire_name(folder: Seq<char>) -> Seq<char> {
    if folder == "INBOX"@ {
        folder
    } else {
        "INBOX"@ + replaced(folder, '.', '/')
    }
}

/// Whether `s` ends with `word`, ignoring ASCII case.
pub open spec fn ends_with(s: Seq<char>, word: Seq<char>) -> bool {
    word.len() <= s.len() && same_text(s.skip(s.len() - word.len()), word)
}

/// Whether the folder is one for deleted mail: its name ends in `.Trash`,
/// in any case.
pub open spec fn is_trash(folder: Seq<char>) -> bool {
    ends_with(folder, ".trash"@)
}

fn replace_all(s: &Vec<char>, from: char, to: char) -> (r: Vec<char>)
    ensures
        r@ == replaced(s@, from, to),
{
    let mut r: Vec<char> = Vec::new();
    let mut i: usize = 0;
    while i < s.len()
        invariant
            i <= s.len(),
            r.len() == i,
            forall|j: int| 0 <= j < i ==> r@[j] == (if s@[j] == from { to } else { s@[j] }),
        decreases s.len() - i,
    {
        r.push(if s[i] == from { to } else { s[i] });
        i += 1;
    }
    assert(r@ =~= replaced(s@, from, to));
    r
}

/// The folder on disk for the mailbox name `name`.
pub fn disk_folder(name: &str) -> (folder: String)
    ensures
        folder@ == disk_name(name@),
{
    let bare = remove_all(&chars_of(name), '"');
    let levels = replace_all(&bare, '/', '.');
    let mut d: Vec<char> = Vec::new();
    d.push('.');
    let mut i: usize = 0;
    while i < levels.len()
        invariant
            i <= levels.len(),
            d@ == seq!['.'] + levels@.take(i as int),
        decreases levels.len() - i,
    {
        d.push(levels[i]);
        assert(levels@.take(i + 1) =~= levels@.take(i as int).push(levels@[i as int]));
        assert(d@ =~= seq!['.'] + levels@.take(i + 1));
        i += 1;
    }
    assert(levels@.take(levels.len() as int) =~= levels@);
    proof {
        reveal_strlit(".INBOX.");
    }
    if is_word(&d, ".INBOX") {
        String::from_str("INBOX")
    } else if is_beginning(&d, ".INBOX.") {
        let r = string_of(&copy_range(&d, 6, d.len()));
        assert(d@.subrange(6, d.len() as int) =~= d@.skip(6));
        r
    } else {
        string_of(&d)
    }
}

/// The name under which a client sees the folder `folder`.
pub fn wire_folder(folder: &str) -> (name: String)
    ensures
        name@ == wire_name(folder@),
{
    let f = chars_of(folder);
    if is_text(&f, "INBOX") {
        String::from_str("INBOX")
    } else {
        let mut name = String::from_str("INBOX");
        name.append(string_of(&replace_all(&f, '.', '/')).as_str());
        name
    }
}

/// Whether `folder` names a mailbox on disk.
pub fn is_disk_folder(folder: &str) -> (r: bool)
    ensures
        r == is_disk_name(folder@),
{
    let f = chars_of(folder);
    is_text(&f, "INBOX") || (f.len() > 0 && f[0] == '.')
}

/// Whether the folder is one for deleted mail.
pub fn is_trash_folder(folder: &str) -> (r: bool)
    ensures
        r == is_trash(folder@),
{
    let f = chars_of(folder);
    let word = chars_of(".trash");
    if word.len() > f.len() {
        return false;
    }
    let tail = copy_range(&f, f.len() - word.len(), f.len());
    assert(f@.subrange(f.len() - word.len(), f.len() as int) =~= f@.skip(f.len() - word.len()));
    is_same_text(&tail, &word)
}


proof fn lemma_without_absent(s: Seq<char>, c: char)
    requires
        forall|i: int| 0 <= i < s.len() ==> s[i] != c,
    ensures
        without(s, c) == s,
    decreases s.len(),
{
    reveal(Seq::filter);
    if s.len() > 0 {
        lemma_without_absent(s.drop_last(), c);
        assert(s.drop_last().push(s.last()) =~= s);
    }
}

/// The name under which a client sees a folder stands for that folder: a
/// folder on disk whose name holds neither `/` nor a double quote is found
/// again under the name that it is listed with.
pub proof fn lemma_disk_name_of_wire_name(folder: Seq<char>)
    requires
        is_disk_name(folder),
        forall|i: int| 0 <= i < folder.len() ==> folder[i] != '/' && folder[i] != '"',
    ensures
        disk_name(wire_name(folder)) == folder,
{
    reveal_strlit("INBOX");
    reveal_strlit(".INBOX");
    reveal_strlit(".INBOX.");
    let wire = wire_name(folder);
    if folder == "INBOX"@ {
        lemma_without_absent(wire, '"');
        assert(dotted(wire) =~= ".INBOX"@);
    } else {
        let back = replaced(folder, '.', '/');
        assert(wire =~= "INBOX"@ + back);
        assert forall|i: int| 0 <= i < wire.len() implies wire[i] != '"' by {
            if i >= 5 {
                assert(wire[i] == back[i - 5]);
            }
        }
        lemma_without_absent(wire, '"');
        let d = dotted(wire);
        assert(d =~= ".INBOX"@ + folder);
        assert(d.take(7) =~= ".INBOX."@);
        assert(lowered(d).len() != lowered(".INBOX"@).len());
        assert(d.skip(6) =~= folder);
    }
}

} // verus!
