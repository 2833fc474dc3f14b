//! The PLAIN mechanism of SASL: a user and a password in one base64 text.

use vstd::prelude::*;
use vstd::utf8::{decode_utf8, valid_utf8};
use crate::text::{chars_of, first_of, lemma_first_of, utf8_text};

verus! {

/// What the authentication backend says of a user and a password.
#[derive(Clone, Debug)]
pub enum AuthOutcome {
    /// They are right; the identity of the user is inside.
    Accepted(String),
    BadCredentials,
    Unavailable,
}

/// What an `AuthOutcome` stands for.
pub enum AuthView {
    Accepted(Seq<char>),
    BadCredentials,
    Unavailable,
}

impl View for AuthOutcome {
    type V = AuthView;

    open spec fn view(&self) -> AuthView {
        match self {
            AuthOutcome::Accepted(identity) => AuthView::Accepted(identity@),
            AuthOutcome::BadCredentials => AuthView::BadCredentials,
            AuthOutcome::Unavailable => AuthView::Unavailable,
        }
    }
}

/// The number that a character of the base64 alphabet stands for.
pub open spec fn sextet(c: char) -> Option<int> {
    if 'A' <= c && c <= 'Z' {
        Some(c as u8 - 65)
    } else if 'a' <= c && c <= 'z' {
        Some(c as u8 - 97 + 26)
    } else if '0' <= c && c <= '9' {
        Some(c as u8 - 48 + 52)
    } else if c == '+' {
        Some(62)
    } else if c == '/' {
        Some(63)
    } else {
        None
    }
}

/// The bytes that the four characters of the last group stand for, where
/// the group is padded: one byte for two `=`, two bytes for one. The bits
/// that are left over are passed over.
pub open spec fn padded_group(g: Seq<char>) -> Option<Seq<u8>> {
    if sextet(g[0]) is None || sextet(g[1]) is None {
        None
    } else if g[2] == '=' {
        Some(seq![(sextet(g[0])->0 * 4 + sextet(g[1])->0 / 16) as u8])
    } else if sextet(g[2]) is None {
        None
    } else {
        Some(
            seq![
                (sextet(g[0])->0 * 4 + sextet(g[1])->0 / 16) as u8,
                (sextet(g[1])->0 % 16 * 16 + sextet(g[2])->0 / 4) as u8,
            ],
        )
    }
}

/// The three bytes that four characters of the alphabet stand for.
pub open spec fn full_group(g: Seq<char>) -> Option<Seq<u8>> {
    if sextet(g[0]) is None || sextet(g[1]) is None || sextet(g[2]) is None || sextet(g[3])
        is None {
        None
    } else {
        Some(
            seq![
                (sextet(g[0])->0 * 4 + sextet(g[1])->0 / 16) as u8,
                (sextet(g[1])->0 % 16 * 16 + sextet(g[2])->0 / 4) as u8,
                (sextet(g[2])->0 % 4 * 64 + sextet(g[3])->0) as u8,
            ],
        )
    }
}

/// The bytes that a base64 text stands for: groups of four characters, of
/// which only the last may be padded with `=`. `None` where the text is no
/// such text.
pub open spec fn base64_bytes(text: Seq<char>) -> Option<Seq<u8>>
    decreases text.len(),
{
    if text.len() == 0 {
        Some(seq![])
    } else if text.len() < 4 {
        None
    } else if text.len() == 4 && text[3] == '=' {
        padded_group(text)
    } else {
        match (full_group(text.take(4)), base64_bytes(text.skip(4))) {
            (Some(head), Some(rest)) => Some(head + rest),
            _ => None,
        }
    }
}

/// The user and the password in the bytes of a PLAIN message: an
/// authorization identity, which is passed over, a zero byte, the user, a
/// zero byte, the password. User and password are UTF-8, and the user is
/// not empty.
pub open spec fn plain_fields(message: Seq<u8>) -> Option<(Seq<char>, Seq<char>)> {
    let first = first_of(message, 0u8);
    if !(0 <= first < message.len()) {
        None
    } else {
        let rest = message.skip(first + 1);
        let second = first_of(rest, 0u8);
        if !(0 <= second < rest.len()) {
            None
        } else {
            let user = rest.take(second);
            let password = rest.skip(second + 1);
            if user.len() > 0 && valid_utf8(user) && valid_utf8(password) {
                Some((decode_utf8(user), decode_utf8(password)))
            } else {
                None
            }
        }
    }
}

/// The user and the password that a PLAIN response carries.
pub open spec fn plain_credentials(response: Seq<char>) -> Option<(Seq<char>, Seq<char>)> {
    match base64_bytes(response) {
        Some(message) => plain_fields(message),
        None => None,
    }
}

fn sextet_of(c: char) -> (r: Option<u8>)
    ensures
        r matches Some(v) ==> sextet(c) == Some(v as int) && v < 64,
        r is None ==> sextet(c) is None,
{
    if 'A' <= c && c <= 'Z' {
        Some(c as u8 - 65)
    } else if 'a' <= c && c <= 'z' {
        Some(c as u8 - 97 + 26)
    } else if '0' <= c && c <= '9' {
        Some(c as u8 - 48 + 52)
    } else if c == '+' {
        Some(62)
    } else if c == '/' {
        Some(63)
    } else {
        None
    }
}

/// What optional bytes stand for.
pub open spec fn bytes_view(r: Option<Vec<u8>>) -> Option<Seq<u8>> {
    match r {
        Some(b) => Some(b@),
        None => None,
    }
}

/// What a spliced result stands for: the bytes so far and then those that
/// the rest of the text stands for.
spec fn spliced(out: Seq<u8>, rest: Option<Seq<u8>>) -> Option<Seq<u8>> {
    match rest {
        Some(r) => Some(out + r),
        None => None,
    }
}

/// Decodes a base64 text.
pub fn decode_base64(text: &Vec<char>) -> (r: Option<Vec<u8>>)
    ensures
        bytes_view(r) == base64_bytes(text@),
{
    let mut out: Vec<u8> = Vec::new();
    let mut i: usize = 0;
    assert(text@.skip(0) =~= text@);
    assert(spliced(out@, base64_bytes(text@)) =~= base64_bytes(text@)) by {
        if let Some(r) = base64_bytes(text@) {
            assert(out@ + r =~= r);
        }
    }
    while i < text.len()
        invariant
            i <= text.len(),
            base64_bytes(text@) == spliced(out@, base64_bytes(text@.skip(i as int))),
        decreases text.len() - i,
    {
        let ghost rest = text@.skip(i as int);
        let ghost before = out@;
        if text.len() - i < 4 {
            return None;
        }
        let a = sextet_of(text[i]);
        let b = sextet_of(text[i + 1]);
        if text.len() - i == 4 && text[i + 3] == '=' {
            let (a, b) = match (a, b) {
                (Some(a), Some(b)) => (a, b),
                _ => {
                    return None;
                },
            };
            out.push(a * 4 + b / 16);
            if text[i + 2] != '=' {
                let c = match sextet_of(text[i + 2]) {
                    Some(c) => c,
                    None => {
                        return None;
                    },
                };
                out.push(b % 16 * 16 + c / 4);
            }
            assert(base64_bytes(rest) == padded_group(rest));
            assert(out@ =~= before + padded_group(rest)->0);
            return Some(out);
        }
        let c = sextet_of(text[i + 2]);
        let d = sextet_of(text[i + 3]);
        let ghost group = rest.take(4);
        assert(group[0] == text@[i as int] && group[1] == text@[i + 1] && group[2] == text@[i + 2]
            && group[3] == text@[i + 3]);
        assert(rest.skip(4) =~= text@.skip(i + 4));
        let (a, b, c, d) = match (a, b, c, d) {
            (Some(a), Some(b), Some(c), Some(d)) => (a, b, c, d),
            _ => {
                assert(full_group(group) is None);
                return None;
            },
        };
        out.push(a * 4 + b / 16);
        out.push(b % 16 * 16 + c / 4);
        out.push(c % 4 * 64 + d);
        proof {
            let head = full_group(group)->0;
            assert(out@ =~= before + head);
            if let Some(r) = base64_bytes(text@.skip(i + 4)) {
                assert(before + (head + r) =~= out@ + r);
            }
        }
        i += 4;
    }
    assert(text@.skip(text.len() as int) =~= Seq::<char>::empty());
    assert(out@ + Seq::<u8>::empty() =~= out@);
    Some(out)
}


/// A user and a password.
#[derive(Clone, Debug)]
pub struct Credentials {
    pub user: String,
    pub password: String,
}

impl View for Credentials {
    type V = (Seq<char>, Seq<char>);

    open spec fn view(&self) -> (Seq<char>, Seq<char>) {
        (self.user@, self.password@)
    }
}

/// What optional credentials stand for.
pub open spec fn credentials_view(r: Option<Credentials>) -> Option<(Seq<char>, Seq<char>)> {
    match r {
        Some(c) => Some(c@),
        None => None,
    }
}

fn find_zero(bytes: &Vec<u8>, from: usize) -> (at: usize)
    requires
        from <= bytes.len(),
    ensures
        from <= at <= bytes.len(),
        at - from == first_of(bytes@.skip(from as int), 0u8),
{
    let mut at: usize = from;
    while at < bytes.len() && bytes[at] != 0u8
        invariant
            from <= at <= bytes.len(),
            forall|j: int| from <= j < at ==> bytes@[j] != 0u8,
        decreases bytes.len() - at,
    {
        at += 1;
    }
    proof {
        lemma_first_of(bytes@.skip(from as int), 0u8, at - from);
    }
    at
}

fn copy_part(bytes: &Vec<u8>, from: usize, to: usize) -> (r: Vec<u8>)
    requires
        from <= to <= bytes.len(),
    ensures
        r@ == bytes@.subrange(from as int, to as int),
{
    let mut r: Vec<u8> = Vec::new();
    let mut i: usize = from;
    while i < to
        invariant
            from <= i <= to <= bytes.len(),
            r@ == bytes@.subrange(from as int, i as int),
        decreases to - i,
    {
        r.push(bytes[i]);
        assert(bytes@.subrange(from as int, i + 1) =~= bytes@.subrange(from as int, i as int).push(
            bytes@[i as int],
        ));
        i += 1;
    }
    r
}

/// Reads the user and the password of a PLAIN response.
pub fn read_plain(response: &str) -> (r: Option<Credentials>)
    ensures
        credentials_view(r) == plain_credentials(response@),
{
    let message = match decode_base64(&chars_of(response)) {
        Some(m) => m,
        None => {
            return None;
        },
    };
    assert(message@.skip(0) =~= message@);
    let first = find_zero(&message, 0);
    if first >= message.len() {
        return None;
    }
    let second = find_zero(&message, first + 1);
    if second >= message.len() {
        return None;
    }
    if second == first + 1 {
        return None;
    }
    let user_bytes = copy_part(&message, first + 1, second);
    let password_bytes = copy_part(&message, second + 1, message.len());
    proof {
        let rest = message@.skip(first + 1);
        assert(user_bytes@ =~= rest.take(second - (first + 1)));
        assert(password_bytes@ =~= rest.skip(second - (first + 1) + 1));
    }
    let user = match utf8_text(user_bytes) {
        Some(u) => u,
        None => {
            return None;
        },
    };
    let password = match utf8_text(password_bytes) {
        Some(p) => p,
        None => {
            return None;
        },
    };
    Some(Credentials { user, password })
}

} // verus!
