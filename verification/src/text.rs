//! Text primitives shared by both protocols: strings as sequences of
//! characters, ASCII case folding, decimal numbers, joining, cutting into
//! pieces, quoted strings and wildcard patterns.

use vstd::prelude::*;
use vstd::string::StringExecFns;
use vstd::utf8::{decode_utf8, valid_utf8};

verus! {

/// `String::push` appends one character to the end of the string.
pub assume_specification[ String::push ](s: &mut String, c: char)
    ensures
        final(s)@ == old(s)@.push(c),
;

/// `String::from_utf8` gives the string that the bytes encode where they
/// are valid UTF-8, and an error where they are not.
#[verifier::external_body]
pub(crate) fn utf8_text(bytes: Vec<u8>) -> (r: Option<String>)
    ensures
        r matches Some(s) ==> valid_utf8(bytes@) && s@ == decode_utf8(bytes@),
        r is None ==> !valid_utf8(bytes@),
{
    match String::from_utf8(bytes) {
        Ok(text) => Some(text),
        Err(_) => None,
    }
}

/// `text` in small letters, as `str::to_lowercase` gives it by the rules
/// of Unicode.
pub uninterp spec fn lowercase(text: Seq<char>) -> Seq<char>;

/// `str::to_lowercase` gives the lowercase equivalent of the string. The
/// result depends on the characters of `text` alone; nothing more is
/// claimed of it.
#[verifier::external_body]
pub(crate) fn to_lowercase(text: &str) -> (r: String)
    ensures
        r@ == lowercase(text@),
{
    text.to_lowercase()
}

/// The one line `text`.
pub fn single_line(text: &str) -> (lines: Vec<String>)
    ensures
        lines.deep_view() == seq![text@],
{
    let mut lines: Vec<String> = Vec::new();
    lines.push(String::from_str(text));
    assert(lines.deep_view() =~= seq![text@]);
    lines
}

/// What an optional string stands for.
pub open spec fn text_view(s: Option<String>) -> Option<Seq<char>> {
    match s {
        Some(t) => Some(t@),
        None => None,
    }
}

/// The characters of `s`, in order.
pub fn chars_of(s: &str) -> (v: Vec<char>)
    ensures
        v@ == s@,
{
    let mut v: Vec<char> = Vec::new();
    for c in it: s.chars()
        invariant
            it.seq() == s@,
            v@ == it.seq().take(it.index()),
    {
        v.push(c);
        assert(it.seq().take(it.index() + 1) =~= it.seq().take(it.index()).push(c));
    }
    assert(v@ =~= s@);
    v
}

/// The string made of `v[from..to]`.
pub fn string_of_range(v: &Vec<char>, from: usize, to: usize) -> (s: String)
    requires
        from <= to <= v.len(),
    ensures
        s@ == v@.subrange(from as int, to as int),
{
    let mut s = String::new();
    let mut i: usize = from;
    while i < to
        invariant
            from <= i <= to <= v.len(),
            s@ == v@.subrange(from as int, i as int),
        decreases to - i,
    {
        s.push(v[i]);
        assert(v@.subrange(from as int, i + 1) =~= v@.subrange(from as int, i as int).push(
            v@[i as int],
        ));
        i += 1;
    }
    s
}

/// The string made of the characters of `v`, in order.
pub fn string_of(v: &Vec<char>) -> (s: String)
    ensures
        s@ == v@,
{
    let s = string_of_range(v, 0, v.len());
    assert(v@.subrange(0, v.len() as int) =~= v@);
    s
}

/// A copy of `v[from..to]`.
pub fn copy_range(v: &Vec<char>, from: usize, to: usize) -> (r: Vec<char>)
    requires
        from <= to <= v.len(),
    ensures
        r@ == v@.subrange(from as int, to as int),
{
    let mut r: Vec<char> = Vec::new();
    let mut i: usize = from;
    while i < to
        invariant
            from <= i <= to <= v.len(),
            r@ == v@.subrange(from as int, i as int),
        decreases to - i,
    {
        r.push(v[i]);
        assert(v@.subrange(from as int, i + 1) =~= v@.subrange(from as int, i as int).push(
            v@[i as int],
        ));
        i += 1;
    }
    r
}

/// Whether `a` and `b` hold the same characters.
pub fn is_equal(a: &Vec<char>, b: &Vec<char>) -> (r: bool)
    ensures
        r == (a@ == b@),
{
    if a.len() != b.len() {
        return false;
    }
    let mut i: usize = 0;
    while i < a.len()
        invariant
            i <= a.len(),
            a.len() == b.len(),
            forall|j: int| 0 <= j < i ==> a@[j] == b@[j],
        decreases a.len() - i,
    {
        if a[i] != b[i] {
            return false;
        }
        i += 1;
    }
    assert(a@ =~= b@);
    true
}

/// Whether `a` is exactly the text `word`.
pub fn is_text(a: &Vec<char>, word: &str) -> (r: bool)
    ensures
        r == (a@ == word@),
{
    let w = chars_of(word);
    is_equal(a, &w)
}

/// `c` with an ASCII capital letter replaced by its small letter.
pub open spec fn lower(c: char) -> char {
    if 'A' <= c && c <= 'Z' {
        ((c as u8) + 32) as char
    } else {
        c
    }
}

/// `s` with every ASCII capital letter replaced by its small letter.
pub open spec fn lowered(s: Seq<char>) -> Seq<char> {
    Seq::new(s.len(), |i: int| lower(s[i]))
}

/// Whether `a` and `b` are the same text when ASCII case is ignored.
pub open spec fn same_text(a: Seq<char>, b: Seq<char>) -> bool {
    lowered(a) == lowered(b)
}

pub fn to_lower(c: char) -> (r: char)
    ensures
        r == lower(c),
{
    if 'A' <= c && c <= 'Z' {
        ((c as u8) + 32) as char
    } else {
        c
    }
}

/// Compares two texts ignoring ASCII case.
pub fn is_same_text(a: &Vec<char>, b: &Vec<char>) -> (r: bool)
    ensures
        r == same_text(a@, b@),
{
    if a.len() != b.len() {
        assert(lowered(a@).len() != lowered(b@).len());
        return false;
    }
    let mut i: usize = 0;
    while i < a.len()
        invariant
            i <= a.len(),
            a.len() == b.len(),
            forall|j: int| 0 <= j < i ==> lower(a@[j]) == lower(b@[j]),
        decreases a.len() - i,
    {
        if to_lower(a[i]) != to_lower(b[i]) {
            assert(lowered(a@)[i as int] != lowered(b@)[i as int]);
            return false;
        }
        i += 1;
    }
    assert(lowered(a@) =~= lowered(b@));
    true
}

/// Whether `a` is the word `word`, ignoring ASCII case.
pub fn is_word(a: &Vec<char>, word: &str) -> (r: bool)
    ensures
        r == same_text(a@, word@),
{
    let w = chars_of(word);
    is_same_text(a, &w)
}

/// Whether `a` begins with `word`, ignoring ASCII case.
pub open spec fn begins_with(a: Seq<char>, word: Seq<char>) -> bool {
    word.len() <= a.len() && same_text(a.take(word.len() as int), word)
}

pub fn is_beginning(a: &Vec<char>, word: &str) -> (r: bool)
    ensures
        r == begins_with(a@, word@),
{
    let w = chars_of(word);
    if w.len() > a.len() {
        return false;
    }
    let head = copy_range(a, 0, w.len());
    is_same_text(&head, &w)
}

/// Whether `text` begins with `open`, ignoring ASCII case, ends with `close`
/// and holds something between them, be it empty.
pub open spec fn is_enclosed(text: Seq<char>, open: Seq<char>, close: char) -> bool {
    begins_with(text, open) && text.len() > open.len() && text.last() == close
}

/// What stands between `open` and the last character of `text`.
pub open spec fn enclosed(text: Seq<char>, open: Seq<char>) -> Seq<char> {
    text.subrange(open.len() as int, text.len() - 1)
}

/// What stands between `open` and `close`, where `text` is so enclosed.
pub fn inside(text: &Vec<char>, open: &str, close: char) -> (r: Option<Vec<char>>)
    ensures
        r matches Some(inner) ==> is_enclosed(text@, open@, close) && inner@ == enclosed(
            text@,
            open@,
        ),
        r is None ==> !is_enclosed(text@, open@, close),
{
    let w = chars_of(open);
    if text.len() > w.len() && text[text.len() - 1] == close && is_beginning(text, open) {
        Some(copy_range(text, w.len(), text.len() - 1))
    } else {
        None
    }
}

pub open spec fn is_digit(c: char) -> bool {
    '0' <= c && c <= '9'
}

pub open spec fn digit_char(d: nat) -> char
    recommends
        d < 10,
{
    (48 + d) as u8 as char
}

pub open spec fn digit_value(c: char) -> nat
    recommends
        is_digit(c),
{
    ((c as u8) - 48) as nat
}

/// The decimal numeral of `n`, without leading zeros.
pub open spec fn decimal(n: nat) -> Seq<char>
    decreases n,
{
    if n < 10 {
        seq![digit_char(n)]
    } else {
        decimal(n / 10).push(digit_char(n % 10))
    }
}

/// Appends the decimal numeral of `n` to `out`.
pub fn push_decimal(out: &mut String, n: u64)
    ensures
        final(out)@ == old(out)@ + decimal(n as nat),
    decreases n,
{
    if n >= 10 {
        push_decimal(out, n / 10);
    }
    let d: u8 = (n % 10) as u8;
    out.push((48 + d) as char);
    assert(final(out)@ =~= old(out)@ + decimal(n as nat));
}

/// Whether `s` is a numeral: one or more ASCII digits.
pub open spec fn is_numeral(s: Seq<char>) -> bool {
    s.len() > 0 && forall|i: int| 0 <= i < s.len() ==> is_digit(#[trigger] s[i])
}

/// The number that the digits of `s` denote.
pub open spec fn numeral_value(s: Seq<char>) -> nat
    decreases s.len(),
{
    if s.len() == 0 {
        0
    } else {
        numeral_value(s.drop_last()) * 10 + digit_value(s.last())
    }
}

/// A numeral denotes at least what any of its beginnings denotes.
pub proof fn lemma_numeral_value_grows(s: Seq<char>, k: int)
    requires
        0 <= k <= s.len(),
    ensures
        numeral_value(s.take(k)) <= numeral_value(s),
    decreases s.len(),
{
    if k == s.len() {
        assert(s.take(k) =~= s);
    } else {
        lemma_numeral_value_grows(s.drop_last(), k);
        assert(s.drop_last().take(k) =~= s.take(k));
    }
}

/// The number that `s` denotes, if `s` is a numeral of a number up to `max`.
pub open spec fn number_up_to(s: Seq<char>, max: nat) -> Option<nat> {
    if is_numeral(s) && numeral_value(s) <= max {
        Some(numeral_value(s))
    } else {
        None
    }
}

/// Reads a numeral; `None` when `s` is not one or denotes more than `max`.
pub fn parse_number(s: &Vec<char>, max: u64) -> (r: Option<u64>)
    ensures
        r matches Some(n) ==> number_up_to(s@, max as nat) == Some(n as nat),
        r is None ==> number_up_to(s@, max as nat) is None,
{
    if s.len() == 0 {
        return None;
    }
    let mut value: u64 = 0;
    let mut i: usize = 0;
    while i < s.len()
        invariant
            i <= s.len(),
            forall|j: int| 0 <= j < i ==> is_digit(#[trigger] s@[j]),
            value == numeral_value(s@.take(i as int)),
            value <= max,
        decreases s.len() - i,
    {
        let c = s[i];
        if !('0' <= c && c <= '9') {
            return None;
        }
        let d: u64 = ((c as u8) - 48) as u64;
        proof {
            assert(s@.take(i + 1).drop_last() =~= s@.take(i as int));
            assert(numeral_value(s@.take(i + 1)) == value * 10 + d);
            lemma_numeral_value_grows(s@, i + 1);
        }
        if d > max || value > (max - d) / 10 {
            return None;
        }
        value = value * 10 + d;
        i += 1;
    }
    assert(s@.take(s.len() as int) =~= s@);
    Some(value)
}

/// The parts joined, with `sep` between each two neighbours.
pub open spec fn join(parts: Seq<Seq<char>>, sep: Seq<char>) -> Seq<char>
    decreases parts.len(),
{
    if parts.len() == 0 {
        Seq::empty()
    } else if parts.len() == 1 {
        parts[0]
    } else {
        join(parts.drop_last(), sep) + sep + parts.last()
    }
}

/// Joins the strings from index `from` on, with `sep` between each two
/// neighbours.
pub fn join_from(parts: &Vec<String>, from: usize, sep: &str) -> (r: String)
    requires
        from <= parts.len(),
    ensures
        r@ == join(parts.deep_view().skip(from as int), sep@),
{
    let ghost all = parts.deep_view().skip(from as int);
    let mut r = String::new();
    let mut i: usize = from;
    while i < parts.len()
        invariant
            from <= i <= parts.len(),
            all == parts.deep_view().skip(from as int),
            r@ == join(all.take(i - from), sep@),
        decreases parts.len() - i,
    {
        if i > from {
            r.append(sep);
        }
        r.append(parts[i].as_str());
        proof {
            assert(all.take(i + 1 - from).drop_last() =~= all.take(i - from));
            assert(all.take(i + 1 - from).last() == parts@[i as int]@);
            if i == from {
                assert(r@ =~= all[0]);
            }
        }
        i += 1;
    }
    assert(all.take(parts.len() - from) =~= all);
    r
}

/// Joins strings with `sep` between each two neighbours.
pub fn join_strings(parts: &Vec<String>, sep: &str) -> (r: String)
    ensures
        r@ == join(parts.deep_view(), sep@),
{
    assert(parts.deep_view().skip(0) =~= parts.deep_view());
    join_from(parts, 0, sep)
}

/// The place of the first `c` in `s`, or the length of `s` if there is none.
pub open spec fn first_of<T>(s: Seq<T>, c: T) -> int
    decreases s.len(),
{
    if s.len() == 0 || s[0] == c {
        0
    } else {
        1 + first_of(s.drop_first(), c)
    }
}

pub proof fn lemma_first_of<T>(s: Seq<T>, c: T, i: int)
    requires
        0 <= i <= s.len(),
        forall|j: int| 0 <= j < i ==> s[j] != c,
        i == s.len() || s[i] == c,
    ensures
        first_of(s, c) == i,
    decreases s.len(),
{
    if i > 0 {
        lemma_first_of(s.drop_first(), c, i - 1);
    }
}

/// Finds the first `c` in `s`.
pub fn find_first(s: &Vec<char>, c: char) -> (i: usize)
    ensures
        i == first_of(s@, c),
        i <= s.len(),
{
    let mut i: usize = 0;
    while i < s.len() && s[i] != c
        invariant
            i <= s.len(),
            forall|j: int| 0 <= j < i ==> s@[j] != c,
        decreases s.len() - i,
    {
        i += 1;
    }
    proof {
        lemma_first_of(s@, c, i as int);
    }
    i
}

/// `s` without any occurrence of `c`.
pub open spec fn without(s: Seq<char>, c: char) -> Seq<char> {
    s.filter(|x: char| x != c)
}

/// Removes every occurrence of `c`.
pub fn remove_all(s: &Vec<char>, c: char) -> (r: Vec<char>)
    ensures
        r@ == without(s@, c),
{
    let mut r: Vec<char> = Vec::new();
    let mut i: usize = 0;
    while i < s.len()
        invariant
            i <= s.len(),
            r@ == without(s@.take(i as int), c),
        decreases s.len() - i,
    {
        proof {
            assert(s@.take(i + 1).drop_last() =~= s@.take(i as int));
            reveal(Seq::filter);
        }
        if s[i] != c {
            r.push(s[i]);
        }
        i += 1;
    }
    assert(s@.take(s.len() as int) =~= s@);
    r
}


/// Where a scan from left to right stands: how many brackets are open,
/// whether it is inside a quoted string, and there behind a backslash.
pub struct Scan {
    pub depth: nat,
    pub quoted: bool,
    pub escaped: bool,
}

impl Scan {
    /// Outside every bracket and quoted string.
    pub open spec fn top() -> Scan {
        Scan { depth: 0, quoted: false, escaped: false }
    }

    pub open spec fn is_top(self) -> bool {
        self.depth == 0 && !self.quoted
    }

    /// The scan after the character `c`. Inside a quoted string a backslash
    /// takes the next character with it and a double quote ends the string.
    /// Outside, a double quote opens a string, `(` and `[` open a bracket,
    /// `)` and `]` close one.
    pub open spec fn step(self, c: char) -> Scan {
        if self.quoted {
            if self.escaped {
                Scan { escaped: false, ..self }
            } else if c == '\\' {
                Scan { escaped: true, ..self }
            } else if c == '"' {
                Scan { quoted: false, ..self }
            } else {
                self
            }
        } else if c == '"' {
            Scan { quoted: true, ..self }
        } else if c == '(' || c == '[' {
            Scan { depth: self.depth + 1, ..self }
        } else if (c == ')' || c == ']') && self.depth > 0 {
            Scan { depth: (self.depth - 1) as nat, ..self }
        } else {
            self
        }
    }

    /// The scan after the characters of `s`.
    pub open spec fn over(self, s: Seq<char>) -> Scan
        decreases s.len(),
    {
        if s.len() == 0 {
            self
        } else {
            self.step(s[0]).over(s.drop_first())
        }
    }
}

/// Whether `c`, met by a scan that stands at `at`, separates two pieces.
pub open spec fn is_gap(at: Scan, c: char) -> bool {
    c == ' ' && at.is_top()
}

/// `s` cut at each space that is outside every bracket and quoted string,
/// for a scan that stands at `at` before `s`. There is always at least one
/// piece, and pieces may be empty.
pub open spec fn pieces(s: Seq<char>, at: Scan) -> Seq<Seq<char>>
    decreases s.len(),
{
    if s.len() == 0 {
        seq![Seq::empty()]
    } else {
        let rest = pieces(s.drop_first(), at.step(s[0]));
        if is_gap(at, s[0]) {
            seq![Seq::empty()] + rest
        } else {
            rest.update(0, seq![s[0]] + rest[0])
        }
    }
}

pub proof fn lemma_pieces_len(s: Seq<char>, at: Scan)
    ensures
        pieces(s, at).len() >= 1,
    decreases s.len(),
{
    if s.len() > 0 {
        lemma_pieces_len(s.drop_first(), at.step(s[0]));
    }
}

/// The pieces found so far, the piece that is being read, and the pieces of
/// what is still to come, as one list.
spec fn glued(done: Seq<Seq<char>>, current: Seq<char>, rest: Seq<Seq<char>>) -> Seq<Seq<char>> {
    done + seq![current + rest[0]] + rest.skip(1)
}

/// What a list of texts stands for.
pub open spec fn texts(v: Seq<Vec<char>>) -> Seq<Seq<char>> {
    Seq::new(v.len(), |i: int| v[i]@)
}

/// Cuts `s` at each space that is outside every bracket and quoted string.
pub fn split_top(s: &Vec<char>) -> (r: Vec<Vec<char>>)
    ensures
        texts(r@) == pieces(s@, Scan::top()),
        r.len() >= 1,
{
    let mut done: Vec<Vec<char>> = Vec::new();
    let mut current: Vec<char> = Vec::new();
    let mut depth: usize = 0;
    let mut quoted = false;
    let mut escaped = false;
    let mut i: usize = 0;
    proof {
        lemma_pieces_len(s@, Scan::top());
        assert(s@.skip(0) =~= s@);
        assert(glued(texts(done@), current@, pieces(s@, Scan::top())) =~= pieces(
            s@,
            Scan::top(),
        ));
    }
    while i < s.len()
        invariant
            i <= s.len(),
            depth <= i,
            pieces(s@, Scan::top()) == glued(
                texts(done@),
                current@,
                pieces(s@.skip(i as int), Scan { depth: depth as nat, quoted, escaped }),
            ),
        decreases s.len() - i,
    {
        let c = s[i];
        let ghost at = Scan { depth: depth as nat, quoted, escaped };
        let ghost before = texts(done@);
        let ghost piece = current@;
        proof {
            assert(s@.skip(i as int).drop_first() =~= s@.skip(i + 1));
            lemma_pieces_len(s@.skip(i + 1), at.step(c));
        }
        let gap = c == ' ' && depth == 0 && !quoted;
        if quoted {
            if escaped {
                escaped = false;
            } else if c == '\\' {
                escaped = true;
            } else if c == '"' {
                quoted = false;
            }
        } else if c == '"' {
            quoted = true;
        } else if c == '(' || c == '[' {
            depth += 1;
        } else if (c == ')' || c == ']') && depth > 0 {
            depth -= 1;
        }
        if gap {
            done.push(current);
            current = Vec::new();
            proof {
                let rest = pieces(s@.skip(i + 1), at.step(c));
                assert(texts(done@) =~= before.push(piece));
                assert(glued(before, piece, seq![Seq::empty()] + rest) =~= glued(
                    texts(done@),
                    current@,
                    rest,
                ));
            }
        } else {
            current.push(c);
            proof {
                let rest = pieces(s@.skip(i + 1), at.step(c));
                let joined = rest.update(0, seq![c] + rest[0]);
                assert(joined.skip(1) =~= rest.skip(1));
                assert(piece + joined[0] =~= current@ + rest[0]);
                assert(glued(before, piece, rest.update(0, seq![c] + rest[0])) =~= glued(
                    texts(done@),
                    current@,
                    rest,
                ));
            }
        }
        i += 1;
    }
    proof {
        let ghost before = texts(done@);
        assert(s@.skip(s.len() as int) =~= Seq::<char>::empty());
        assert(glued(before, current@, seq![Seq::<char>::empty()]) =~= before.push(current@));
    }
    let ghost before = texts(done@);
    let ghost piece = current@;
    done.push(current);
    assert(texts(done@) =~= before.push(piece));
    done
}


/// `s` with each backslash taken out and the character behind it kept. A
/// backslash at the very end stays.
pub open spec fn unescaped(s: Seq<char>) -> Seq<char>
    decreases s.len(),
{
    if s.len() == 0 {
        s
    } else if s[0] == '\\' && s.len() >= 2 {
        seq![s[1]] + unescaped(s.skip(2))
    } else {
        seq![s[0]] + unescaped(s.skip(1))
    }
}

/// The text that an argument stands for: what is between its double quotes,
/// with the backslashes undone, or the argument itself where it is not
/// quoted.
pub open spec fn unquoted(arg: Seq<char>) -> Seq<char> {
    if arg.len() >= 2 && arg[0] == '"' && arg.last() == '"' {
        unescaped(arg.subrange(1, arg.len() - 1))
    } else {
        arg
    }
}

/// The text that the argument `arg` stands for.
pub fn unquote(arg: &str) -> (r: String)
    ensures
        r@ == unquoted(arg@),
{
    let a = chars_of(arg);
    if !(a.len() >= 2 && a[0] == '"' && a[a.len() - 1] == '"') {
        return string_of(&a);
    }
    let inner = copy_range(&a, 1, a.len() - 1);
    let mut r = String::new();
    let mut i: usize = 0;
    assert(inner@.skip(0) =~= inner@);
    while i < inner.len()
        invariant
            i <= inner.len(),
            r@ + unescaped(inner@.skip(i as int)) == unescaped(inner@),
        decreases inner.len() - i,
    {
        let ghost rest = inner@.skip(i as int);
        if inner[i] == '\\' && inner.len() - i >= 2 {
            r.push(inner[i + 1]);
            assert(rest.skip(2) =~= inner@.skip(i + 2));
            assert(r@ + unescaped(inner@.skip(i + 2)) =~= unescaped(inner@));
            i += 2;
        } else {
            r.push(inner[i]);
            assert(rest.skip(1) =~= inner@.skip(i + 1));
            assert(r@ + unescaped(inner@.skip(i + 1)) =~= unescaped(inner@));
            i += 1;
        }
    }
    assert(r@ =~= r@ + unescaped(inner@.skip(i as int)));
    r
}

/// Whether `name` matches the pattern: `*` stands for any run of
/// characters, `%` for any run without `/`, and every other character of the
/// pattern for itself.
pub open spec fn matches_pattern(pattern: Seq<char>, name: Seq<char>) -> bool
    decreases pattern.len(), name.len(),
{
    if pattern.len() == 0 {
        name.len() == 0
    } else if pattern[0] == '*' {
        matches_pattern(pattern.skip(1), name) || (name.len() > 0 && matches_pattern(
            pattern,
            name.skip(1),
        ))
    } else if pattern[0] == '%' {
        matches_pattern(pattern.skip(1), name) || (name.len() > 0 && name[0] != '/'
            && matches_pattern(pattern, name.skip(1)))
    } else {
        name.len() > 0 && name[0] == pattern[0] && matches_pattern(pattern.skip(1), name.skip(1))
    }
}

/// Matches `name` against `pattern`, in time proportional to the product of
/// their lengths.
pub fn is_match(pattern: &Vec<char>, name: &Vec<char>) -> (r: bool)
    ensures
        r == matches_pattern(pattern@, name@),
{
    let n = name.len();
    // below[j] says whether name[j..] matches what is behind pattern[i]
    let mut below: Vec<bool> = Vec::new();
    let mut j: usize = 0;
    assert(pattern@.skip(pattern.len() as int) =~= Seq::<char>::empty());
    while j < n
        invariant
            j <= n,
            n == name.len(),
            below.len() == j,
            pattern@.skip(pattern.len() as int) == Seq::<char>::empty(),
            forall|k: int|
                0 <= k < j ==> below@[k] == matches_pattern(
                    pattern@.skip(pattern.len() as int),
                    #[trigger] name@.skip(k),
                ),
        decreases n - j,
    {
        below.push(false);
        j += 1;
    }
    below.push(true);
    let mut i: usize = pattern.len();
    while i > 0
        invariant
            i <= pattern.len(),
            n == name.len(),
            below.len() == n + 1,
            forall|k: int|
                0 <= k <= n ==> below@[k] == matches_pattern(
                    pattern@.skip(i as int),
                    #[trigger] name@.skip(k),
                ),
        decreases i,
    {
        i -= 1;
        let c = pattern[i];
        let ghost p = pattern@.skip(i as int);
        assert(p.skip(1) =~= pattern@.skip(i + 1));
        // here[k] says whether name[n - k..] matches pattern[i..]
        let mut here: Vec<bool> = Vec::new();
        assert(name@.skip(n as int).len() == 0);
        here.push((c == '*' || c == '%') && below[n]);
        let mut k: usize = 0;
        while k < n
            invariant
                k <= n,
                i < pattern.len(),
                n == name.len(),
                c == pattern@[i as int],
                p == pattern@.skip(i as int),
                p.skip(1) == pattern@.skip(i + 1),
                below.len() == n + 1,
                here.len() == k + 1,
                forall|m: int|
                    0 <= m <= n ==> below@[m] == matches_pattern(
                        pattern@.skip(i + 1),
                        #[trigger] name@.skip(m),
                    ),
                forall|m: int|
                    0 <= m <= k ==> here@[m] == matches_pattern(p, #[trigger] name@.skip(n - m)),
            decreases n - k,
        {
            k += 1;
            let at = n - k;
            proof {
                assert(name@.skip(at as int).skip(1) =~= name@.skip(at + 1));
                assert(name@.skip(n - (k - 1)) == name@.skip(at + 1));
            }
            let v = if c == '*' {
                below[at] || here[k - 1]
            } else if c == '%' {
                below[at] || (name[at] != '/' && here[k - 1])
            } else {
                name[at] == c && below[at + 1]
            };
            here.push(v);
        }
        let mut m: usize = 0;
        while m < n
            invariant
                m <= n,
                n == name.len(),
                below.len() == n + 1,
                here.len() == n + 1,
                p == pattern@.skip(i as int),
                forall|q: int|
                    0 <= q <= n ==> here@[q] == matches_pattern(p, #[trigger] name@.skip(n - q)),
                forall|q: int|
                    0 <= q < m ==> below@[q] == matches_pattern(p, #[trigger] name@.skip(q)),
            decreases n - m,
        {
            let v = here[n - m];
            assert(name@.skip(n - (n - m)) == name@.skip(m as int));
            below.set(m, v);
            m += 1;
        }
        let v = here[0];
        assert(name@.skip(n - 0) == name@.skip(n as int));
        below.set(n, v);
    }
    assert(pattern@.skip(0) =~= pattern@);
    assert(name@.skip(0) =~= name@);
    below[0]
}


/// The characters that a name is made of: printable ASCII but for the
/// space, brackets, braces, quotes, the backslash and the wildcards.
pub open spec fn is_name_char(c: char) -> bool {
    '!' <= c && c <= '~' && c != '(' && c != ')' && c != '[' && c != ']' && c != '{' && c != '"'
        && c != '\\' && c != '%' && c != '*'
}

/// Whether `s` is a name: one or more name characters.
pub open spec fn is_name(s: Seq<char>) -> bool {
    s.len() > 0 && forall|i: int| 0 <= i < s.len() ==> is_name_char(#[trigger] s[i])
}

/// Whether `s` is a name.
pub fn is_name_text(s: &Vec<char>) -> (r: bool)
    ensures
        r == is_name(s@),
{
    if s.len() == 0 {
        return false;
    }
    let mut i: usize = 0;
    while i < s.len()
        invariant
            i <= s.len(),
            forall|j: int| 0 <= j < i ==> is_name_char(#[trigger] s@[j]),
        decreases s.len() - i,
    {
        let c = s[i];
        if !('!' <= c && c <= '~' && c != '(' && c != ')' && c != '[' && c != ']' && c != '{' && c
            != '"' && c != '\\' && c != '%' && c != '*') {
            return false;
        }
        i += 1;
    }
    true
}


/// `s` cut at every `c`. There is always at least one field, and fields may
/// be empty.
pub open spec fn fields(s: Seq<char>, c: char) -> Seq<Seq<char>>
    decreases s.len(),
{
    let i = first_of(s, c);
    if 0 <= i < s.len() {
        seq![s.take(i)] + fields(s.skip(i + 1), c)
    } else {
        seq![s]
    }
}

/// The fields of `s` that are not empty: the words between runs of `c`.
pub open spec fn words(s: Seq<char>, c: char) -> Seq<Seq<char>> {
    fields(s, c).filter(|w: Seq<char>| w.len() > 0)
}

/// Cuts `s` at every `c` and keeps the fields that are not empty.
pub fn split_words(s: &Vec<char>, c: char) -> (r: Vec<Vec<char>>)
    ensures
        texts(r@) == words(s@, c),
{
    let ghost keep = |w: Seq<char>| w.len() > 0;
    let mut r: Vec<Vec<char>> = Vec::new();
    let mut start: usize = 0;
    let mut i: usize = 0;
    proof {
        assert(s@.skip(0) =~= s@);
        assert(texts(r@) + words(s@, c) =~= words(s@, c));
    }
    while i < s.len()
        invariant
            start <= i <= s.len(),
            keep == |w: Seq<char>| w.len() > 0,
            forall|j: int| start <= j < i ==> s@[j] != c,
            texts(r@) + fields(s@.skip(start as int), c).filter(keep) == words(s@, c),
        decreases s.len() - i,
    {
        if s[i] == c {
            let ghost rest = s@.skip(start as int);
            let ghost before = texts(r@);
            proof {
                lemma_first_of(rest, c, i - start);
                assert(rest.skip(i - start + 1) =~= s@.skip(i + 1));
                assert(rest.take(i - start) =~= s@.subrange(start as int, i as int));
                let tail = fields(s@.skip(i + 1), c);
                let head = seq![rest.take(i - start)];
                Seq::filter_distributes_over_add(head, tail, keep);
                assert(head.filter(keep) =~= if start < i {
                    head
                } else {
                    seq![]
                }) by {
                    reveal_with_fuel(Seq::filter, 2);
                    assert(head.drop_last() =~= Seq::<Seq<char>>::empty());
                }
            }
            if start < i {
                let word = copy_range(s, start, i);
                r.push(word);
                assert(texts(r@) =~= before.push(word@));
            }
            start = i + 1;
            assert(texts(r@) + fields(s@.skip(start as int), c).filter(keep) =~= words(s@, c));
        }
        i += 1;
    }
    let ghost rest = s@.skip(start as int);
    let ghost before = texts(r@);
    proof {
        lemma_first_of(rest, c, rest.len() as int);
        assert(rest =~= s@.subrange(start as int, s.len() as int));
        assert(seq![rest].filter(keep) =~= if start < s.len() {
            seq![rest]
        } else {
            seq![]
        }) by {
            reveal_with_fuel(Seq::filter, 2);
            assert(seq![rest].drop_last() =~= Seq::<Seq<char>>::empty());
        }
    }
    if start < s.len() {
        let word = copy_range(s, start, s.len());
        r.push(word);
        assert(texts(r@) =~= before.push(word@));
    }
    assert(texts(r@) =~= words(s@, c));
    r
}


/// Whether a scan of `s` that stands at `at` before it meets no gap: `s`
/// is a single piece.
pub open spec fn is_whole(s: Seq<char>, at: Scan) -> bool
    decreases s.len(),
{
    s.len() == 0 || (!is_gap(at, s[0]) && is_whole(s.drop_first(), at.step(s[0])))
}

/// Whether `s` is a single piece that leaves no bracket and no quoted
/// string open.
pub open spec fn is_closed(s: Seq<char>) -> bool {
    is_whole(s, Scan::top()) && Scan::top().over(s) == Scan::top()
}

pub proof fn lemma_whole_is_one_piece(s: Seq<char>, at: Scan)
    requires
        is_whole(s, at),
    ensures
        pieces(s, at) == seq![s],
    decreases s.len(),
{
    if s.len() > 0 {
        lemma_whole_is_one_piece(s.drop_first(), at.step(s[0]));
        assert(seq![s[0]] + s.drop_first() =~= s);
        assert(seq![s.drop_first()].update(0, seq![s[0]] + s.drop_first()) =~= seq![s]);
    } else {
        assert(s =~= Seq::<char>::empty());
    }
}

pub proof fn lemma_over_concat(a: Seq<char>, b: Seq<char>, at: Scan)
    ensures
        at.over(a + b) == at.over(a).over(b),
    decreases a.len(),
{
    if a.len() == 0 {
        assert(a + b =~= b);
    } else {
        assert((a + b).drop_first() =~= a.drop_first() + b);
        lemma_over_concat(a.drop_first(), b, at.step(a[0]));
    }
}

/// The pieces of two texts in a row: those of the first, those of the
/// second, and the last of the first joined with the first of the second.
pub proof fn lemma_pieces_concat(a: Seq<char>, b: Seq<char>, at: Scan)
    ensures
        pieces(a + b, at) == pieces(a, at).drop_last() + seq![
            pieces(a, at).last() + pieces(b, at.over(a))[0],
        ] + pieces(b, at.over(a)).skip(1),
    decreases a.len(),
{
    let pb = pieces(b, at.over(a));
    lemma_pieces_len(b, at.over(a));
    if a.len() == 0 {
        assert(a + b =~= b);
        assert(pieces(a, at).drop_last() =~= Seq::<Seq<char>>::empty());
        assert(pieces(a, at).last() + pb[0] =~= pb[0]);
        assert(seq![pb[0]] + pb.skip(1) =~= pb);
        assert(pieces(a + b, at) =~= pieces(a, at).drop_last() + seq![
            pieces(a, at).last() + pb[0],
        ] + pb.skip(1));
    } else {
        let c = a[0];
        let a1 = a.drop_first();
        assert((a + b).drop_first() =~= a1 + b);
        lemma_pieces_concat(a1, b, at.step(c));
        lemma_pieces_len(a1, at.step(c));
        let pa1 = pieces(a1, at.step(c));
        let rest = pieces(a1 + b, at.step(c));
        let pa = pieces(a, at);
        if is_gap(at, c) {
            assert(pa.drop_last() =~= seq![Seq::<char>::empty()] + pa1.drop_last());
            assert(pieces(a + b, at) =~= pa.drop_last() + seq![pa.last() + pb[0]] + pb.skip(1));
        } else {
            if pa1.len() == 1 {
                assert(pa.drop_last() =~= Seq::<Seq<char>>::empty());
                assert(pa1.drop_last() =~= Seq::<Seq<char>>::empty());
                assert(seq![c] + rest[0] =~= pa.last() + pb[0]);
            } else {
                assert(pa.drop_last() =~= pa1.drop_last().update(0, seq![c] + pa1[0]));
            }
            assert(pieces(a + b, at) =~= pa.drop_last() + seq![pa.last() + pb[0]] + pb.skip(1));
        }
    }
}

/// A name is a single piece and opens nothing.
pub proof fn lemma_name_is_closed(s: Seq<char>)
    requires
        forall|i: int| 0 <= i < s.len() ==> is_name_char(#[trigger] s[i]),
    ensures
        is_closed(s),
    decreases s.len(),
{
    if s.len() > 0 {
        assert(is_name_char(s[0]));
        assert forall|i: int| 0 <= i < s.drop_first().len() implies is_name_char(
            #[trigger] s.drop_first()[i],
        ) by {
            assert(s.drop_first()[i] == s[i + 1]);
        }
        lemma_name_is_closed(s.drop_first());
    }
}

/// Texts that are each a closed piece, joined by single spaces, are cut
/// into the same texts again.
pub proof fn lemma_pieces_of_joined(tokens: Seq<Seq<char>>)
    requires
        tokens.len() >= 1,
        forall|i: int| 0 <= i < tokens.len() ==> is_closed(#[trigger] tokens[i]),
    ensures
        pieces(join(tokens, " "@), Scan::top()) == tokens,
        Scan::top().over(join(tokens, " "@)) == Scan::top(),
    decreases tokens.len(),
{
    reveal_strlit(" ");
    let top = Scan::top();
    if tokens.len() == 1 {
        assert(is_closed(tokens[0]));
        lemma_whole_is_one_piece(tokens[0], top);
        assert(seq![tokens[0]] =~= tokens);
    } else {
        let init = tokens.drop_last();
        let last = tokens.last();
        assert forall|i: int| 0 <= i < init.len() implies is_closed(#[trigger] init[i]) by {
            assert(init[i] == tokens[i]);
        }
        lemma_pieces_of_joined(init);
        assert(is_closed(tokens[tokens.len() - 1]));
        let a = join(init, " "@);
        let b = " "@ + last;
        assert(join(tokens, " "@) =~= a + b);
        lemma_pieces_concat(a, b, top);
        lemma_over_concat(a, b, top);
        assert(" "@ =~= seq![' ']);
        assert(b[0] == ' ');
        assert(b.drop_first() =~= last);
        assert(top.step(' ') == top);
        lemma_whole_is_one_piece(last, top);
        assert(pieces(b, top) =~= seq![Seq::<char>::empty(), last]);
        assert(top.over(b) == top.step(' ').over(last));
        let pb = pieces(b, top);
        assert(init.last() + pb[0] =~= init.last());
        assert(pb.skip(1) =~= seq![last]);
        assert(init.drop_last() + seq![init.last()] =~= init);
        assert(init + seq![last] =~= tokens);
        assert(pieces(a + b, top) =~= tokens);
    }
}

} // verus!
