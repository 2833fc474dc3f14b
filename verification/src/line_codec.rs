//! The framing of a byte stream into lines. A line ends with CR LF. Where
//! an IMAP command announces a literal, the octets of the literal are taken
//! as they come and put into the command as a quoted string, so that the
//! dispatcher gets the whole command as one line.

use vstd::prelude::*;
use vstd::string::{StrSliceExecFns, StringExecFns};
use vstd::utf8::{decode_utf8, encode_utf8, valid_utf8};
use crate::text::{
    chars_of, copy_range, first_of, is_closed, is_digit, is_numeral, is_whole,
    lemma_first_of, number_up_to, parse_number, unescaped, unquoted, utf8_text, Scan,
};

verus! {

/// Why the bytes of a client are no line.
#[derive(Clone, Copy, Debug, PartialEq, Eq, Structural)]
pub enum CodecError {
    /// A line feed without a carriage return before it, in strict mode.
    BareLineFeed,
    /// The bytes are not UTF-8.
    InvalidUtf8,
    /// A literal of more octets than the codec accepts.
    LiteralTooLarge,
}

/// What the decoder found at the start of the buffer.
#[derive(Clone, Debug)]
pub enum Frame {
    /// The buffer does not hold a whole frame yet.
    Incomplete,
    /// A whole line, literals included.
    Line(String),
    /// A literal was announced and the client waits for the go-ahead.
    Continue,
    /// A part of a command was taken; the command is not whole yet.
    Pending,
    Invalid(CodecError),
}

/// What a `Frame` stands for.
pub enum FrameView {
    Incomplete,
    Line(Seq<char>),
    Continue,
    Pending,
    Invalid(CodecError),
}

impl View for Frame {
    type V = FrameView;

    open spec fn view(&self) -> FrameView {
        match self {
            Frame::Incomplete => FrameView::Incomplete,
            Frame::Line(line) => FrameView::Line(line@),
            Frame::Continue => FrameView::Continue,
            Frame::Pending => FrameView::Pending,
            Frame::Invalid(e) => FrameView::Invalid(*e),
        }
    }
}

/// What a `LinesCodec` stands for.
pub struct CodecView {
    pub strict: bool,
    pub literals: bool,
    pub max_literal: u64,
    pub partial: Seq<char>,
    pub awaiting: Option<usize>,
}

/// The decoder of one connection.
#[derive(Clone, Debug)]
pub struct LinesCodec {
    /// Whether a line feed without a carriage return is refused.
    pub strict: bool,
    /// Whether literals are read, as IMAP has them.
    pub literals: bool,
    /// The largest literal that is accepted, in octets.
    pub max_literal: u64,
    /// The part of the command that was read before a literal.
    pub partial: String,
    /// The octets of the literal that is awaited.
    pub awaiting: Option<usize>,
}

impl View for LinesCodec {
    type V = CodecView;

    open spec fn view(&self) -> CodecView {
        CodecView {
            strict: self.strict,
            literals: self.literals,
            max_literal: self.max_literal,
            partial: self.partial@,
            awaiting: self.awaiting,
        }
    }
}

/// The line that tells a client to send the literal that it announced.
pub open spec fn continuation_line() -> Seq<char> {
    "+ Ready for literal data"@
}

/// The place of the last `c` in `s`, or -1 if there is none.
pub open spec fn last_of(s: Seq<char>, c: char) -> int
    decreases s.len(),
{
    if s.len() == 0 {
        -1
    } else if s.last() == c {
        s.len() - 1
    } else {
        last_of(s.drop_last(), c)
    }
}

/// A literal that a line announces at its end.
pub struct Announced {
    /// Where the opening brace stands.
    pub open: int,
    /// The digits between the braces.
    pub digits: Seq<char>,
    /// Whether the client waits for the go-ahead: there is no `+` before
    /// the closing brace.
    pub synchronising: bool,
}

/// The literal that `line` announces: the line ends with a numeral in
/// braces, with or without a `+` behind the numeral.
pub open spec fn announced(line: Seq<char>) -> Option<Announced> {
    let open = last_of(line, '{');
    if line.len() > 0 && line.last() == '}' && open >= 0 {
        let inner = line.subrange(open + 1, line.len() - 1);
        let plus = inner.len() > 0 && inner.last() == '+';
        let digits = if plus {
            inner.drop_last()
        } else {
            inner
        };
        if is_numeral(digits) {
            Some(Announced { open, digits, synchronising: !plus })
        } else {
            None
        }
    } else {
        None
    }
}

/// `s` with a backslash before each double quote and each backslash.
pub open spec fn escaped(s: Seq<char>) -> Seq<char>
    decreases s.len(),
{
    if s.len() == 0 {
        s
    } else if s[0] == '"' || s[0] == '\\' {
        seq!['\\', s[0]] + escaped(s.skip(1))
    } else {
        seq![s[0]] + escaped(s.skip(1))
    }
}

/// `s` as a quoted string.
pub open spec fn quoted(s: Seq<char>) -> Seq<char> {
    seq!['"'] + escaped(s) + seq!['"']
}

proof fn lemma_unescaped_escaped(s: Seq<char>)
    ensures
        unescaped(escaped(s)) == s,
    decreases s.len(),
{
    if s.len() > 0 {
        lemma_unescaped_escaped(s.skip(1));
        let rest = escaped(s.skip(1));
        if s[0] == '"' || s[0] == '\\' {
            let e = seq!['\\', s[0]] + rest;
            assert(e.skip(2) =~= rest);
            assert(unescaped(e) =~= seq![s[0]] + unescaped(rest));
        } else {
            let e = seq![s[0]] + rest;
            assert(e.skip(1) =~= rest);
            assert(unescaped(e) =~= seq![s[0]] + unescaped(rest));
        }
        assert(seq![s[0]] + s.skip(1) =~= s);
    }
}

/// A literal that was put into a command as a quoted string is read back
/// as it was.
pub proof fn lemma_unquoted_quoted(s: Seq<char>)
    ensures
        unquoted(quoted(s)) == s,
{
    lemma_unescaped_escaped(s);
    let q = quoted(s);
    assert(q.subrange(1, q.len() - 1) =~= escaped(s));
}

proof fn lemma_escaped_stays_quoted(s: Seq<char>, rest: Seq<char>)
    ensures
        is_whole(escaped(s) + rest, Scan { depth: 0, quoted: true, escaped: false }) == is_whole(
            rest,
            Scan { depth: 0, quoted: true, escaped: false },
        ),
        (Scan { depth: 0, quoted: true, escaped: false }).over(escaped(s) + rest) == (Scan {
            depth: 0,
            quoted: true,
            escaped: false,
        }).over(rest),
    decreases s.len(),
{
    let inside = Scan { depth: 0, quoted: true, escaped: false };
    if s.len() == 0 {
        assert(escaped(s) + rest =~= rest);
    } else {
        lemma_escaped_stays_quoted(s.skip(1), rest);
        let tail = escaped(s.skip(1)) + rest;
        let all = escaped(s) + rest;
        if s[0] == '"' || s[0] == '\\' {
            assert(all =~= seq!['\\', s[0]] + tail);
            assert(all.drop_first() =~= seq![s[0]] + tail);
            assert(all.drop_first().drop_first() =~= tail);
            assert(inside.step('\\').step(s[0]) == inside);
            assert(is_whole(all.drop_first(), inside.step('\\')) == is_whole(tail, inside));
            assert(all[0] == '\\' && all.drop_first()[0] == s[0]);
            assert(inside.over(all) == inside.step('\\').over(all.drop_first()));
            assert(inside.step('\\').over(all.drop_first()) == inside.step('\\').step(
                s[0],
            ).over(tail));
        } else {
            assert(all =~= seq![s[0]] + tail);
            assert(all.drop_first() =~= tail);
            assert(inside.step(s[0]) == inside);
            assert(inside.over(all) == inside.step(all[0]).over(all.drop_first()));
        }
    }
}

/// A literal that was put into a command as a quoted string is one
/// argument of the command, whatever the literal holds.
pub proof fn lemma_quoted_is_closed(s: Seq<char>)
    ensures
        is_closed(quoted(s)),
        quoted(s).len() > 0,
{
    let inside = Scan { depth: 0, quoted: true, escaped: false };
    let end = seq!['"'];
    lemma_escaped_stays_quoted(s, end);
    let q = quoted(s);
    assert(q =~= seq!['"'] + (escaped(s) + end));
    assert(q.drop_first() =~= escaped(s) + end);
    assert(Scan::top().step('"') == inside);
    assert(end.drop_first() =~= Seq::<char>::empty());
    assert(inside.step('"') == Scan::top());
    assert(is_whole(end, inside)) by {
        assert(is_whole(end.drop_first(), inside.step('"')));
    }
    assert(inside.over(end) == Scan::top()) by {
        assert(inside.step('"').over(end.drop_first()) == Scan::top());
    }
}

/// What decoding finds at the start of the buffer, how many bytes it takes
/// from the buffer, and the decoder that is left.
pub struct Decoded {
    pub codec: CodecView,
    pub consumed: int,
    pub frame: FrameView,
}

/// The decoder after an error: what was read of the command is dropped.
pub open spec fn failed(codec: CodecView, consumed: int, error: CodecError) -> Decoded {
    Decoded {
        codec: CodecView { partial: Seq::empty(), awaiting: None, ..codec },
        consumed,
        frame: FrameView::Invalid(error),
    }
}

/// Decoding while a literal is awaited: its octets are taken as they are,
/// once all of them are there, and go into the command as a quoted string.
pub open spec fn decoded_literal(codec: CodecView, bytes: Seq<u8>, n: usize) -> Decoded {
    if bytes.len() < n {
        Decoded { codec, consumed: 0, frame: FrameView::Incomplete }
    } else if !valid_utf8(bytes.take(n as int)) {
        failed(codec, n as int, CodecError::InvalidUtf8)
    } else {
        Decoded {
            codec: CodecView {
                partial: codec.partial + quoted(decode_utf8(bytes.take(n as int))),
                awaiting: None,
                ..codec
            },
            consumed: n as int,
            frame: FrameView::Pending,
        }
    }
}

/// Decoding a line whose text is `text`: the line ends the command, or
/// announces a literal.
pub open spec fn decoded_text(codec: CodecView, text: Seq<char>, consumed: int) -> Decoded {
    if codec.literals && announced(text) is Some {
        let a = announced(text)->0;
        match number_up_to(a.digits, codec.max_literal as nat) {
            Some(n) => if n <= usize::MAX {
                Decoded {
                    codec: CodecView {
                        partial: codec.partial + text.take(a.open),
                        awaiting: Some(n as usize),
                        ..codec
                    },
                    consumed,
                    frame: if a.synchronising {
                        FrameView::Continue
                    } else {
                        FrameView::Pending
                    },
                }
            } else {
                failed(codec, consumed, CodecError::LiteralTooLarge)
            },
            None => failed(codec, consumed, CodecError::LiteralTooLarge),
        }
    } else {
        Decoded {
            codec: CodecView { partial: Seq::empty(), ..codec },
            consumed,
            frame: FrameView::Line(codec.partial + text),
        }
    }
}

/// Decoding a line: it ends at the first line feed; the carriage return
/// before the line feed belongs to the end of the line.
pub open spec fn decoded_line(codec: CodecView, bytes: Seq<u8>) -> Decoded {
    let at = first_of(bytes, 10u8);
    if !(0 <= at < bytes.len()) {
        Decoded { codec, consumed: 0, frame: FrameView::Incomplete }
    } else {
        let returned = at > 0 && bytes[at - 1] == 13u8;
        let content = bytes.take(
            if returned {
                at - 1
            } else {
                at
            },
        );
        if !returned && codec.strict {
            failed(codec, at + 1, CodecError::BareLineFeed)
        } else if !valid_utf8(content) {
            failed(codec, at + 1, CodecError::InvalidUtf8)
        } else {
            decoded_text(codec, decode_utf8(content), at + 1)
        }
    }
}

/// What decoding finds at the start of `bytes`.
pub open spec fn decoded(codec: CodecView, bytes: Seq<u8>) -> Decoded {
    match codec.awaiting {
        Some(n) => decoded_literal(codec, bytes, n),
        None => decoded_line(codec, bytes),
    }
}

/// The bytes of a line on the wire: its UTF-8 encoding, CR, LF.
pub open spec fn encoded(line: Seq<char>) -> Seq<u8> {
    encode_utf8(line) + seq![13u8, 10u8]
}

fn copy_bytes(bytes: &[u8], to: usize) -> (r: Vec<u8>)
    requires
        to <= bytes.len(),
    ensures
        r@ == bytes@.take(to as int),
{
    let mut r: Vec<u8> = Vec::new();
    let mut i: usize = 0;
    while i < to
        invariant
            i <= to <= bytes.len(),
            r@ == bytes@.take(i as int),
        decreases to - i,
    {
        r.push(bytes[i]);
        assert(bytes@.take(i + 1) =~= bytes@.take(i as int).push(bytes@[i as int]));
        i += 1;
    }
    r
}

fn find_last(s: &Vec<char>, c: char) -> (r: Option<usize>)
    ensures
        r matches Some(i) ==> last_of(s@, c) == i && i < s.len() && s@[i as int] == c,
        r is None ==> last_of(s@, c) == -1,
{
    let mut i: usize = s.len();
    assert(s@.take(s.len() as int) =~= s@);
    while i > 0
        invariant
            i <= s.len(),
            last_of(s@, c) == last_of(s@.take(i as int), c),
        decreases i,
    {
        if s[i - 1] == c {
            return Some(i - 1);
        }
        assert(s@.take(i as int).drop_last() =~= s@.take(i - 1));
        i -= 1;
    }
    None
}

fn is_numeral_text(s: &Vec<char>) -> (r: bool)
    ensures
        r == is_numeral(s@),
{
    if s.len() == 0 {
        return false;
    }
    let mut i: usize = 0;
    while i < s.len()
        invariant
            i <= s.len(),
            forall|j: int| 0 <= j < i ==> is_digit(#[trigger] s@[j]),
        decreases s.len() - i,
    {
        if !('0' <= s[i] && s[i] <= '9') {
            return false;
        }
        i += 1;
    }
    true
}

/// A literal that was found at the end of a line.
struct Found {
    open: usize,
    digits: Vec<char>,
    synchronising: bool,
}

fn find_announced(line: &Vec<char>) -> (r: Option<Found>)
    ensures
        r matches Some(f) ==> announced(line@) == Some(
            Announced { open: f.open as int, digits: f.digits@, synchronising: f.synchronising },
        ) && f.open < line.len(),
        r is None ==> announced(line@) is None,
{
    if line.len() == 0 || line[line.len() - 1] != '}' {
        return None;
    }
    let open = match find_last(line, '{') {
        Some(i) => i,
        None => {
            return None;
        },
    };
    let inner = copy_range(line, open + 1, line.len() - 1);
    let plus = inner.len() > 0 && inner[inner.len() - 1] == '+';
    let digits = if plus {
        let d = copy_range(&inner, 0, inner.len() - 1);
        assert(inner@.subrange(0, inner.len() - 1) =~= inner@.drop_last());
        d
    } else {
        inner
    };
    if is_numeral_text(&digits) {
        Some(Found { open, digits, synchronising: !plus })
    } else {
        None
    }
}

impl LinesCodec {
    /// A decoder at the start of a connection.
    pub fn new(strict: bool, literals: bool, max_literal: u64) -> (codec: LinesCodec)
        ensures
            codec@ == (CodecView {
                strict,
                literals,
                max_literal,
                partial: Seq::empty(),
                awaiting: None,
            }),
    {
        LinesCodec { strict, literals, max_literal, partial: String::new(), awaiting: None }
    }

    /// The decoder for IMAP: a line feed alone ends a line too, and
    /// literals of up to `max_literal` octets are read.
    pub fn imap(max_literal: u64) -> (codec: LinesCodec)
        ensures
            codec@ == (CodecView {
                strict: false,
                literals: true,
                max_literal,
                partial: Seq::empty(),
                awaiting: None,
            }),
    {
        LinesCodec::new(false, true, max_literal)
    }

    /// The decoder for SMTP: every line ends with CR LF, and there are no
    /// literals.
    pub fn smtp() -> (codec: LinesCodec)
        ensures
            codec@ == (CodecView {
                strict: true,
                literals: false,
                max_literal: 0,
                partial: Seq::empty(),
                awaiting: None,
            }),
    {
        LinesCodec::new(true, false, 0)
    }

    /// The line to send for a `Frame::Continue`.
    pub fn continuation() -> (line: String)
        ensures
            line@ == continuation_line(),
    {
        String::from_str("+ Ready for literal data")
    }

    fn fail(&mut self, consumed: usize, error: CodecError) -> (r: (usize, Frame))
        ensures
            final(self)@ == failed(old(self)@, consumed as int, error).codec,
            r.0 == consumed,
            r.1@ == FrameView::Invalid(error),
    {
        self.partial = String::new();
        self.awaiting = None;
        (consumed, Frame::Invalid(error))
    }

    fn push_text(&mut self, text: &Vec<char>, to: usize)
        requires
            to <= text.len(),
        ensures
            final(self)@ == (CodecView {
                partial: old(self)@.partial + text@.take(to as int),
                ..old(self)@
            }),
    {
        let mut i: usize = 0;
        assert(self.partial@ =~= old(self)@.partial + text@.take(0));
        while i < to
            invariant
                i <= to <= text.len(),
                self@ == (CodecView {
                    partial: old(self)@.partial + text@.take(i as int),
                    ..old(self)@
                }),
            decreases to - i,
        {
            self.partial.push(text[i]);
            assert(old(self)@.partial + text@.take(i + 1) =~= (old(self)@.partial + text@.take(
                i as int,
            )).push(text@[i as int]));
            i += 1;
        }
    }

    fn push_quoted(&mut self, text: &Vec<char>)
        ensures
            final(self)@ == (CodecView {
                partial: old(self)@.partial + quoted(text@),
                ..old(self)@
            }),
    {
        let ghost before = self.partial@;
        self.partial.push('"');
        let mut i: usize = 0;
        assert(text@.skip(0) =~= text@);
        assert(self.partial@ + escaped(text@) + seq!['"'] =~= before + quoted(text@));
        while i < text.len()
            invariant
                i <= text.len(),
                self@ == (CodecView { partial: self.partial@, ..old(self)@ }),
                self.partial@ + escaped(text@.skip(i as int)) + seq!['"'] == before + quoted(
                    text@,
                ),
            decreases text.len() - i,
        {
            let c = text[i];
            let ghost so_far = self.partial@;
            let ghost rest = text@.skip(i as int);
            assert(rest.skip(1) =~= text@.skip(i + 1));
            if c == '"' || c == '\\' {
                self.partial.push('\\');
            }
            self.partial.push(c);
            assert(self.partial@ + escaped(text@.skip(i + 1)) =~= so_far + escaped(rest));
            i += 1;
        }
        assert(escaped(text@.skip(text.len() as int)) =~= Seq::<char>::empty());
        assert(self.partial@ + Seq::<char>::empty() + seq!['"'] =~= self.partial@.push('"'));
        self.partial.push('"');
    }

    /// Takes the next frame from the start of `buffer`: says what it is and
    /// how many bytes of the buffer it used up.
    pub fn decode(&mut self, buffer: &[u8]) -> (r: (usize, Frame))
        ensures
            final(self)@ == decoded(old(self)@, buffer@).codec,
            r.0 == decoded(old(self)@, buffer@).consumed,
            r.1@ == decoded(old(self)@, buffer@).frame,
            r.0 <= buffer.len(),
    {
        match self.awaiting {
            Some(n) => {
                if buffer.len() < n {
                    return (0, Frame::Incomplete);
                }
                match utf8_text(copy_bytes(buffer, n)) {
                    Some(text) => {
                        self.push_quoted(&chars_of(text.as_str()));
                        self.awaiting = None;
                        (n, Frame::Pending)
                    },
                    None => self.fail(n, CodecError::InvalidUtf8),
                }
            },
            None => {
                let mut at: usize = 0;
                while at < buffer.len() && buffer[at] != 10u8
                    invariant
                        at <= buffer.len(),
                        forall|j: int| 0 <= j < at ==> buffer@[j] != 10u8,
                    decreases buffer.len() - at,
                {
                    at += 1;
                }
                proof {
                    lemma_first_of(buffer@, 10u8, at as int);
                }
                if at >= buffer.len() {
                    return (0, Frame::Incomplete);
                }
                let returned = at > 0 && buffer[at - 1] == 13u8;
                if !returned && self.strict {
                    return self.fail(at + 1, CodecError::BareLineFeed);
                }
                let end = if returned {
                    at - 1
                } else {
                    at
                };
                let text = match utf8_text(copy_bytes(buffer, end)) {
                    Some(text) => chars_of(text.as_str()),
                    None => {
                        return self.fail(at + 1, CodecError::InvalidUtf8);
                    },
                };
                if self.literals {
                    if let Some(found) = find_announced(&text) {
                        return match parse_number(&found.digits, self.max_literal) {
                            Some(n) => {
                                if n <= usize::MAX as u64 {
                                    self.push_text(&text, found.open);
                                    self.awaiting = Some(n as usize);
                                    (
                                        at + 1,
                                        if found.synchronising {
                                            Frame::Continue
                                        } else {
                                            Frame::Pending
                                        },
                                    )
                                } else {
                                    self.fail(at + 1, CodecError::LiteralTooLarge)
                                }
                            },
                            None => self.fail(at + 1, CodecError::LiteralTooLarge),
                        };
                    }
                }
                self.push_text(&text, text.len());
                assert(text@.take(text.len() as int) =~= text@);
                let mut line = String::new();
                core::mem::swap(&mut line, &mut self.partial);
                (at + 1, Frame::Line(line))
            },
        }
    }

    /// The bytes that carry `line` on the wire.
    pub fn encode(line: &str) -> (r: Vec<u8>)
        ensures
            r@ == encoded(line@),
    {
        let mut r = line.as_bytes_vec();
        r.push(13u8);
        r.push(10u8);
        assert(r@ =~= encoded(line@));
        r
    }
}

} // verus!
