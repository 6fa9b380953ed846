//! The message envelope and its wire encoding: a compact JSON object with the
//! fields `from`, `to`, `time_stamp` and `content`, in that order.
use crate::identity::ArcString;
use crate::text::{chars_of, lossy_text, push_all, string_of, text_of_bytes};
use vstd::prelude::*;

verus! {

/// The value of an envelope: four texts.
pub struct EnvelopeView {
    pub from: Seq<char>,
    pub to: Seq<char>,
    pub time_stamp: Seq<char>,
    pub content: Seq<char>,
}

/// One chat message: sender, recipient, wall-clock stamp and text.
pub struct Message {
    from: ArcString,
    to: String,
    time_stamp: String,
    content: String,
}

impl View for Message {
    type V = EnvelopeView;

    closed spec fn view(&self) -> EnvelopeView {
        EnvelopeView {
            from: self.from@,
            to: self.to@,
            time_stamp: self.time_stamp@,
            content: self.content@,
        }
    }
}

// ---------------------------------------------------------------------------
// Escaping of one string field

/// The lower-case hexadecimal digit for a value below sixteen.
pub open spec fn hex_digit(d: nat) -> char {
    if d < 10 {
        ('0' as nat + d) as char
    } else {
        ('a' as nat + d - 10) as char
    }
}

pub open spec fn is_hex(c: char) -> bool {
    ('0' <= c && c <= '9') || ('a' <= c && c <= 'f')
}

pub open spec fn hex_value(c: char) -> nat {
    if '0' <= c && c <= '9' {
        (c as nat - '0' as nat) as nat
    } else {
        (c as nat - 'a' as nat + 10) as nat
    }
}

/// How one character is written inside a quoted field.
pub open spec fn escape(c: char) -> Seq<char> {
    if c == '"' {
        seq!['\\', '"']
    } else if c == '\\' {
        seq!['\\', '\\']
    } else if c == '\n' {
        seq!['\\', 'n']
    } else if c == '\r' {
        seq!['\\', 'r']
    } else if c == '\t' {
        seq!['\\', 't']
    } else if c == '\u{8}' {
        seq!['\\', 'b']
    } else if c == '\u{c}' {
        seq!['\\', 'f']
    } else if (c as nat) < 0x20 {
        seq!['\\', 'u', '0', '0', hex_digit((c as nat) / 16), hex_digit((c as nat) % 16)]
    } else {
        seq![c]
    }
}

/// The escaped form of a whole text.
pub open spec fn escape_all(s: Seq<char>) -> Seq<char>
    decreases s.len(),
{
    if s.len() == 0 {
        Seq::empty()
    } else {
        escape_all(s.drop_last()) + escape(s.last())
    }
}

/// The length of the escape sequence at the front of `t`, which starts with a backslash.
pub open spec fn escape_len(t: Seq<char>) -> nat {
    if t.len() >= 2 && t[1] == 'u' {
        6
    } else {
        2
    }
}

/// The character that the escape sequence at the front of `t` stands for, if it is one.
pub open spec fn unescape_one(t: Seq<char>) -> Option<char> {
    if t.len() < 2 {
        None
    } else if t[1] == '"' {
        Some('"')
    } else if t[1] == '\\' {
        Some('\\')
    } else if t[1] == 'n' {
        Some('\n')
    } else if t[1] == 'r' {
        Some('\r')
    } else if t[1] == 't' {
        Some('\t')
    } else if t[1] == 'b' {
        Some('\u{8}')
    } else if t[1] == 'f' {
        Some('\u{c}')
    } else if t[1] == 'u' && t.len() >= 6 && t[2] == '0' && t[3] == '0' && (t[4] == '0'
        || t[4] == '1') && is_hex(t[5]) {
        Some((hex_value(t[4]) * 16 + hex_value(t[5])) as char)
    } else {
        None
    }
}

/// Prefixes `o` to the text of a field reading.
pub open spec fn prepend(
    o: Seq<char>,
    x: Option<(Seq<char>, Seq<char>)>,
) -> Option<(Seq<char>, Seq<char>)> {
    match x {
        Some((s, r)) => Some((o + s, r)),
        None => None,
    }
}

/// Reads the body of a quoted field up to its closing quote: the text, and what
/// follows the quote.
pub open spec fn unescape(t: Seq<char>) -> Option<(Seq<char>, Seq<char>)>
    decreases t.len(),
{
    if t.len() == 0 {
        None
    } else if t[0] == '"' {
        Some((Seq::empty(), t.drop_first()))
    } else if t[0] == '\\' {
        match unescape_one(t) {
            Some(c) => if escape_len(t) <= t.len() {
                prepend(seq![c], unescape(t.skip(escape_len(t) as int)))
            } else {
                None
            },
            None => None,
        }
    } else {
        prepend(seq![t[0]], unescape(t.drop_first()))
    }
}

proof fn lemma_escape_all_front(s: Seq<char>)
    requires
        s.len() > 0,
    ensures
        escape_all(s) == escape(s[0]) + escape_all(s.drop_first()),
    decreases s.len(),
{
    if s.len() == 1 {
        assert(s.drop_last() =~= Seq::<char>::empty());
        assert(s.drop_first() =~= Seq::<char>::empty());
        assert(escape_all(s.drop_first()) == Seq::<char>::empty());
        assert(escape_all(s.drop_last()) == Seq::<char>::empty());
        assert(escape_all(s) =~= escape(s[0]) + escape_all(s.drop_first()));
    } else {
        let p = s.drop_last();
        lemma_escape_all_front(p);
        assert(p.drop_first() =~= s.drop_first().drop_last());
        assert(s.drop_first().last() == s.last());
        assert(escape_all(s) =~= escape(s[0]) + escape_all(s.drop_first()));
    }
}

proof fn lemma_unescape_char(c: char, x: Seq<char>)
    ensures
        unescape(escape(c) + x) == prepend(seq![c], unescape(x)),
{
    let t = escape(c) + x;
    if c == '"' || c == '\\' || c == '\n' || c == '\r' || c == '\t' || c == '\u{8}' || c
        == '\u{c}' {
        assert(t.skip(2) =~= x);
    } else if (c as nat) < 0x20 {
        let v = c as nat;
        assert(v / 16 < 2);
        assert(hex_value(hex_digit(v / 16)) == v / 16);
        assert(hex_value(hex_digit(v % 16)) == v % 16);
        assert(v / 16 * 16 + v % 16 == v);
        assert(t.skip(6) =~= x);
        assert(unescape_one(t) == Some(c));
    } else {
        assert(t.drop_first() =~= x);
    }
}

/// Reading an escaped text followed by a closing quote gives the text back,
/// whatever follows the quote.
pub proof fn lemma_unescape_escape_all(s: Seq<char>, rest: Seq<char>)
    ensures
        unescape(escape_all(s) + seq!['"'] + rest) == Some((s, rest)),
    decreases s.len(),
{
    if s.len() == 0 {
        let t = escape_all(s) + seq!['"'] + rest;
        assert(t =~= seq!['"'] + rest);
        assert(t.drop_first() =~= rest);
    } else {
        lemma_escape_all_front(s);
        let x = escape_all(s.drop_first()) + seq!['"'] + rest;
        lemma_unescape_escape_all(s.drop_first(), rest);
        lemma_unescape_char(s[0], x);
        assert(escape_all(s) + seq!['"'] + rest =~= escape(s[0]) + x);
        assert(seq![s[0]] + s.drop_first() =~= s);
    }
}

// ---------------------------------------------------------------------------
// The whole envelope

pub open spec fn open_from() -> Seq<char> {
    "{\"from\":\""@
}

pub open spec fn sep_to() -> Seq<char> {
    ",\"to\":\""@
}

pub open spec fn sep_time_stamp() -> Seq<char> {
    ",\"time_stamp\":\""@
}

pub open spec fn sep_content() -> Seq<char> {
    ",\"content\":\""@
}

pub open spec fn close() -> Seq<char> {
    "}"@
}

/// The wire text of an envelope.
pub open spec fn encoding(e: EnvelopeView) -> Seq<char> {
    open_from() + escape_all(e.from) + seq!['"'] + sep_to() + escape_all(e.to) + seq!['"']
        + sep_time_stamp() + escape_all(e.time_stamp) + seq!['"'] + sep_content()
        + escape_all(e.content) + seq!['"'] + close()
}

/// Reads the field that starts after `lit` at the front of `t`.
pub open spec fn parse_field(t: Seq<char>, lit: Seq<char>) -> Option<(Seq<char>, Seq<char>)> {
    if lit.len() <= t.len() && t.take(lit.len() as int) == lit {
        unescape(t.skip(lit.len() as int))
    } else {
        None
    }
}

/// Reads the four fields of an envelope in order.
pub open spec fn parse_envelope(t: Seq<char>) -> Option<EnvelopeView> {
    match parse_field(t, open_from()) {
        None => None,
        Some((from, r1)) => match parse_field(r1, sep_to()) {
            None => None,
            Some((to, r2)) => match parse_field(r2, sep_time_stamp()) {
                None => None,
                Some((time_stamp, r3)) => match parse_field(r3, sep_content()) {
                    None => None,
                    Some((content, r4)) => if r4 == close() {
                        Some(EnvelopeView { from, to, time_stamp, content })
                    } else {
                        None
                    },
                },
            },
        },
    }
}

proof fn lemma_parse_field(lit: Seq<char>, s: Seq<char>, rest: Seq<char>)
    ensures
        parse_field(lit + escape_all(s) + seq!['"'] + rest, lit) == Some((s, rest)),
{
    let t = lit + escape_all(s) + seq!['"'] + rest;
    assert(t.take(lit.len() as int) =~= lit);
    assert(t.skip(lit.len() as int) =~= escape_all(s) + seq!['"'] + rest);
    lemma_unescape_escape_all(s, rest);
}

/// Reading the wire text of an envelope gives that envelope back.
pub proof fn lemma_parse_encoding(e: EnvelopeView)
    ensures
        parse_envelope(encoding(e)) == Some(e),
{
    let r4 = close();
    let r3 = sep_content() + escape_all(e.content) + seq!['"'] + r4;
    let r2 = sep_time_stamp() + escape_all(e.time_stamp) + seq!['"'] + r3;
    let r1 = sep_to() + escape_all(e.to) + seq!['"'] + r2;
    assert(encoding(e) =~= open_from() + escape_all(e.from) + seq!['"'] + r1);
    lemma_parse_field(open_from(), e.from, r1);
    lemma_parse_field(sep_to(), e.to, r2);
    lemma_parse_field(sep_time_stamp(), e.time_stamp, r3);
    lemma_parse_field(sep_content(), e.content, r4);
}

/// Two envelopes with the same wire text are equal.
pub proof fn lemma_encoding_injective(a: EnvelopeView, b: EnvelopeView)
    requires
        encoding(a) == encoding(b),
    ensures
        a == b,
{
    lemma_parse_encoding(a);
    lemma_parse_encoding(b);
}

/// Decoding the encoding of any envelope yields exactly that envelope: some
/// envelope has this wire text, and every envelope that has it is `e`.
pub proof fn law_round_trip(e: EnvelopeView)
    ensures
        exists|x: EnvelopeView| encoding(x) == encoding(e),
        forall|x: EnvelopeView| encoding(x) == encoding(e) ==> x == e,
{
    assert forall|x: EnvelopeView| encoding(x) == encoding(e) implies x == e by {
        lemma_encoding_injective(x, e);
    }
    assert(encoding(e) == encoding(e));
}

// ---------------------------------------------------------------------------
// Executable codec

fn hex_char(d: u32) -> (r: char)
    requires
        d < 16,
    ensures
        r == hex_digit(d as nat),
{
    if d < 10 {
        ((48 + d) as u8) as char
    } else {
        ((87 + d) as u8) as char
    }
}

fn escape_char(c: char) -> (r: Vec<char>)
    ensures
        r@ == escape(c),
{
    if c == '"' {
        vec!['\\', '"']
    } else if c == '\\' {
        vec!['\\', '\\']
    } else if c == '\n' {
        vec!['\\', 'n']
    } else if c == '\r' {
        vec!['\\', 'r']
    } else if c == '\t' {
        vec!['\\', 't']
    } else if c == '\u{8}' {
        vec!['\\', 'b']
    } else if c == '\u{c}' {
        vec!['\\', 'f']
    } else if (c as u32) < 0x20 {
        let v = c as u32;
        vec!['\\', 'u', '0', '0', hex_char(v / 16), hex_char(v % 16)]
    } else {
        vec![c]
    }
}

fn push_escaped(out: &mut Vec<char>, s: &Vec<char>)
    ensures
        final(out)@ == old(out)@ + escape_all(s@),
{
    let mut i: usize = 0;
    while i < s.len()
        invariant
            i <= s.len(),
            out@ == old(out)@ + escape_all(s@.take(i as int)),
        decreases s.len() - i,
    {
        let e = escape_char(s[i]);
        push_all(out, &e);
        proof {
            let p = s@.take(i + 1);
            assert(p.drop_last() =~= s@.take(i as int));
            assert(p.last() == s@[i as int]);
        }
        i = i + 1;
    }
    assert(s@.take(s.len() as int) =~= s@);
}

fn push_field(out: &mut Vec<char>, lit: &str, s: &str)
    ensures
        final(out)@ == old(out)@ + lit@ + escape_all(s@) + seq!['"'],
{
    let l = chars_of(lit);
    push_all(out, &l);
    let v = chars_of(s);
    push_escaped(out, &v);
    out.push('"');
}

/// Whether `lit` stands in `t` at position `i`.
fn has_at(t: &Vec<char>, i: usize, lit: &Vec<char>) -> (r: bool)
    requires
        i <= t.len(),
    ensures
        r == (i + lit.len() <= t.len() && t@.subrange(i as int, i + lit.len()) == lit@),
{
    if lit.len() > t.len() - i {
        return false;
    }
    let mut k: usize = 0;
    while k < lit.len()
        invariant
            k <= lit.len(),
            i + lit.len() <= t.len(),
            t@.subrange(i as int, i + k) == lit@.take(k as int),
        decreases lit.len() - k,
    {
        if t[i + k] != lit[k] {
            assert(t@.subrange(i as int, i + lit.len())[k as int] != lit@[k as int]);
            return false;
        }
        k = k + 1;
        assert(t@.subrange(i as int, i + k) =~= lit@.take(k as int));
    }
    assert(lit@.take(lit.len() as int) =~= lit@);
    true
}

fn hex_value_of(c: char) -> (r: u32)
    requires
        is_hex(c),
    ensures
        r == hex_value(c),
        r < 16,
{
    if '0' <= c && c <= '9' {
        (c as u32) - 48
    } else {
        (c as u32) - 87
    }
}

/// The escape sequence at position `i` of `t`, which holds a backslash.
fn unescape_one_at(t: &Vec<char>, i: usize) -> (r: Option<char>)
    requires
        i < t.len(),
    ensures
        r == unescape_one(t@.skip(i as int)),
{
    let ghost u = t@.skip(i as int);
    if t.len() - i < 2 {
        return None;
    }
    let k = t[i + 1];
    assert(k == u[1]);
    if k == '"' {
        Some('"')
    } else if k == '\\' {
        Some('\\')
    } else if k == 'n' {
        Some('\n')
    } else if k == 'r' {
        Some('\r')
    } else if k == 't' {
        Some('\t')
    } else if k == 'b' {
        Some('\u{8}')
    } else if k == 'f' {
        Some('\u{c}')
    } else if k == 'u' && t.len() - i >= 6 && t[i + 2] == '0' && t[i + 3] == '0' && (t[i + 4]
        == '0' || t[i + 4] == '1') && ('0' <= t[i + 5] && t[i + 5] <= '9' || 'a' <= t[i + 5]
        && t[i + 5] <= 'f') {
        assert(u[2] == t@[i + 2] && u[3] == t@[i + 3] && u[4] == t@[i + 4] && u[5] == t@[i
            + 5]);
        let hi = hex_value_of(t[i + 4]);
        let lo = hex_value_of(t[i + 5]);
        let v: u32 = hi * 16 + lo;
        assert(v < 32);
        Some((v as u8) as char)
    } else {
        proof {
            if k == 'u' && t.len() - i >= 6 {
                assert(u[2] == t@[i + 2] && u[3] == t@[i + 3] && u[4] == t@[i + 4] && u[5]
                    == t@[i + 5]);
            }
        }
        None
    }
}

/// Reads a quoted field's body starting at `start`: its text and the position
/// after the closing quote.
fn unescape_at(t: &Vec<char>, start: usize) -> (r: Option<(Vec<char>, usize)>)
    requires
        start <= t.len(),
    ensures
        match r {
            Some((s, p)) => p <= t.len() && unescape(t@.skip(start as int)) == Some(
                (s@, t@.skip(p as int)),
            ),
            None => unescape(t@.skip(start as int)) is None,
        },
{
    let mut out: Vec<char> = Vec::new();
    let mut i: usize = start;
    while i < t.len()
        invariant
            start <= i <= t.len(),
            unescape(t@.skip(start as int)) == prepend(out@, unescape(t@.skip(i as int))),
        decreases t.len() - i,
    {
        let ghost u = t@.skip(i as int);
        let c = t[i];
        assert(u[0] == c);
        if c == '"' {
            assert(u.drop_first() =~= t@.skip(i + 1));
            assert(out@ + Seq::<char>::empty() =~= out@);
            return Some((out, i + 1));
        } else if c == '\\' {
            match unescape_one_at(t, i) {
                Some(e) => {
                    let n: usize = if t.len() - i >= 2 && t[i + 1] == 'u' {
                        6
                    } else {
                        2
                    };
                    assert(n == escape_len(u));
                    if n > t.len() - i {
                        return None;
                    }
                    assert(u.skip(n as int) =~= t@.skip(i + n));
                    proof {
                        let x = unescape(t@.skip(i + n));
                        match x {
                            Some((s, r)) => {
                                assert(out@ + (seq![e] + s) =~= out@.push(e) + s);
                            },
                            None => {},
                        }
                    }
                    out.push(e);
                    i = i + n;
                },
                None => {
                    return None;
                },
            }
        } else {
            assert(u.drop_first() =~= t@.skip(i + 1));
            proof {
                let x = unescape(t@.skip(i + 1));
                match x {
                    Some((s, r)) => {
                        assert(out@ + (seq![c] + s) =~= out@.push(c) + s);
                    },
                    None => {},
                }
            }
            out.push(c);
            i = i + 1;
        }
    }
    assert(t@.skip(i as int).len() == 0);
    None
}

/// Reads the field after `lit` at position `i`: its text and the position after it.
fn parse_field_at(t: &Vec<char>, i: usize, lit: &str) -> (r: Option<(Vec<char>, usize)>)
    requires
        i <= t.len(),
    ensures
        match r {
            Some((s, p)) => p <= t.len() && parse_field(t@.skip(i as int), lit@) == Some(
                (s@, t@.skip(p as int)),
            ),
            None => parse_field(t@.skip(i as int), lit@) is None,
        },
{
    let l = chars_of(lit);
    let ghost u = t@.skip(i as int);
    if !has_at(t, i, &l) {
        assert(l@.len() <= u.len() ==> u.take(l@.len() as int) =~= t@.subrange(
            i as int,
            i + l@.len(),
        ));
        return None;
    }
    assert(u.take(l@.len() as int) =~= t@.subrange(i as int, i + l@.len()));
    assert(u.skip(l@.len() as int) =~= t@.skip(i + l@.len()));
    unescape_at(t, i + l.len())
}

/// Relies on `chrono::Local::now` and its `%H:%M:%S` formatting: the local
/// wall-clock time at the call, to the second. Nothing is known of its value.
#[verifier::external_body]
pub(crate) fn local_time_stamp() -> (r: String) {
    chrono::Local::now().format("%H:%M:%S").to_string()
}

impl Message {
    /// An envelope with the given fields.
    pub fn with_time_stamp(from: ArcString, to: String, time_stamp: String, content: String) -> (r:
        Message)
        ensures
            r@ == (EnvelopeView { from: from@, to: to@, time_stamp: time_stamp@, content: content@ }),
    {
        Message { from, to, time_stamp, content }
    }

    /// An envelope stamped with the local time now.
    pub fn new(from: ArcString, to: String, content: String) -> (r: Message)
        ensures
            r@.from == from@,
            r@.to == to@,
            r@.content == content@,
    {
        let time_stamp = local_time_stamp();
        Message::with_time_stamp(from, to, time_stamp, content)
    }

    /// The sender.
    pub fn from(&self) -> (r: &str)
        ensures
            r@ == self@.from,
    {
        self.from.as_str()
    }

    /// The recipient.
    pub fn to(&self) -> (r: &str)
        ensures
            r@ == self@.to,
    {
        self.to.as_str()
    }

    /// The wall-clock stamp.
    pub fn time_stamp(&self) -> (r: &str)
        ensures
            r@ == self@.time_stamp,
    {
        self.time_stamp.as_str()
    }

    /// The text.
    pub fn content(&self) -> (r: &str)
        ensures
            r@ == self@.content,
    {
        self.content.as_str()
    }

    /// The wire text of this envelope.
    pub fn encode(&self) -> (r: String)
        ensures
            r@ == encoding(self@),
    {
        let mut out: Vec<char> = Vec::new();
        push_field(&mut out, "{\"from\":\"", self.from.as_str());
        push_field(&mut out, ",\"to\":\"", self.to.as_str());
        push_field(&mut out, ",\"time_stamp\":\"", self.time_stamp.as_str());
        push_field(&mut out, ",\"content\":\"", self.content.as_str());
        let c = chars_of("}");
        push_all(&mut out, &c);
        string_of(out.as_slice())
    }

    fn parse(t: &Vec<char>) -> (r: Option<Message>)
        ensures
            match r {
                Some(m) => parse_envelope(t@) == Some(m@),
                None => parse_envelope(t@) is None,
            },
    {
        assert(t@.skip(0) =~= t@);
        let (from, p1) = match parse_field_at(t, 0, "{\"from\":\"") {
            Some(x) => x,
            None => return None,
        };
        let (to, p2) = match parse_field_at(t, p1, ",\"to\":\"") {
            Some(x) => x,
            None => return None,
        };
        let (time_stamp, p3) = match parse_field_at(t, p2, ",\"time_stamp\":\"") {
            Some(x) => x,
            None => return None,
        };
        let (content, p4) = match parse_field_at(t, p3, ",\"content\":\"") {
            Some(x) => x,
            None => return None,
        };
        let close_lit = chars_of("}");
        if !(has_at(t, p4, &close_lit) && p4 + close_lit.len() == t.len()) {
            assert(t@.skip(p4 as int) == close() ==> t@.subrange(p4 as int, t.len() as int)
                =~= t@.skip(p4 as int));
            return None;
        }
        assert(t@.skip(p4 as int) =~= t@.subrange(p4 as int, p4 + close_lit.len()));
        let f = string_of(from.as_slice());
        let to_s = string_of(to.as_slice());
        let ts = string_of(time_stamp.as_slice());
        let ct = string_of(content.as_slice());
        Some(Message::with_time_stamp(ArcString::new(f), to_s, ts, ct))
    }

    /// Reads an envelope from its wire text. Exactly the wire texts of
    /// envelopes are accepted, and each gives back its envelope.
    pub fn decode(text: &str) -> (r: Option<Message>)
        ensures
            r is Some <==> exists|e: EnvelopeView| encoding(e) == text@,
            r matches Some(m) ==> encoding(m@) == text@,
    {
        let t = chars_of(text);
        match Message::parse(&t) {
            Some(m) => {
                let back = m.encode();
                let orig = text.to_owned();
                if back == orig {
                    Some(m)
                } else {
                    proof {
                        assert forall|e: EnvelopeView| encoding(e) != text@ by {
                            if encoding(e) == text@ {
                                lemma_parse_encoding(e);
                            }
                        }
                    }
                    None
                }
            },
            None => {
                proof {
                    assert forall|e: EnvelopeView| encoding(e) != text@ by {
                        if encoding(e) == text@ {
                            lemma_parse_encoding(e);
                        }
                    }
                }
                None
            },
        }
    }
}

/// What one read from a connection carried.
pub enum Chunk {
    /// The read gave no bytes: the peer closed the connection.
    Closed,
    /// The bytes are not the wire text of an envelope.
    Malformed,
    /// One envelope.
    Envelope(Message),
}

/// Interprets the bytes of one transport read: none means the peer closed;
/// otherwise their text is decoded as one envelope.
pub fn read_chunk(bytes: &[u8]) -> (r: Chunk)
    ensures
        bytes@.len() == 0 <==> r is Closed,
        bytes@.len() > 0 ==> (r is Envelope <==> exists|e: EnvelopeView|
            encoding(e) == lossy_text(bytes@)),
        r matches Chunk::Envelope(m) ==> encoding(m@) == lossy_text(bytes@),
{
    if bytes.len() == 0 {
        return Chunk::Closed;
    }
    let text = text_of_bytes(bytes);
    match Message::decode(text.as_str()) {
        Some(m) => Chunk::Envelope(m),
        None => Chunk::Malformed,
    }
}

} // verus!
