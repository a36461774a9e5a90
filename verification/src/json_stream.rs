//! Incrementally extracts the top-level string fields of a streamed JSON object.
use vstd::prelude::*;

use crate::error::Error;
use crate::text::{chars_of, string_from_chars};

verus! {

/// `char::from_u32` yields the character with that code point when it is a
/// Unicode scalar value, and nothing otherwise.
pub assume_specification[ char::from_u32 ](i: u32) -> (r: Option<char>)
    ensures
        (i <= 0xD7FF || (0xE000 <= i && i <= 0x10FFFF)) ==> r == Some(i as char),
        !(i <= 0xD7FF || (0xE000 <= i && i <= 0x10FFFF)) ==> r is None,
;

/// Where the lexer stands in the document.
#[derive(Clone, Copy, Debug, PartialEq, Eq, Structural)]
pub enum Phase {
    Start,
    BeforeKey,
    Key,
    AfterKey,
    BeforeValue,
    Value,
    Nested,
    Scalar,
    AfterValue,
    Done,
    Failed,
}

/// Escape decoding inside a string.
#[derive(Clone, Copy, Debug, PartialEq, Eq, Structural)]
pub enum Escape {
    Plain,
    Backslash,
    Hex { count: u32, value: u32 },
}

/// The state of the lexer.
pub struct LexState {
    pub phase: Phase,
    pub key: Seq<char>,
    pub name: Seq<char>,
    pub depth: usize,
    pub in_string: bool,
    pub escape: Escape,
    pub high: Option<u32>,
}

/// One decoded character of a top-level string field, or the field's end.
pub enum Fragment {
    Text(Seq<char>, char),
    End(Seq<char>),
}

/// An event of a top-level string field: decoded text, or the field's end.
pub enum FieldEventV {
    Delta { name: Seq<char>, text: Seq<char> },
    End { name: Seq<char> },
}

/// An event of a top-level string field: decoded text, or the field's end.
#[derive(Debug)]
pub enum StringFieldEvent {
    Delta { name: String, text: String },
    End { name: String },
}

impl View for StringFieldEvent {
    type V = FieldEventV;

    open spec fn view(&self) -> FieldEventV {
        match self {
            StringFieldEvent::Delta { name, text } => FieldEventV::Delta { name: name@, text: text@ },
            StringFieldEvent::End { name } => FieldEventV::End { name: name@ },
        }
    }
}

/// What one character does to a string being decoded.
pub enum Decoded {
    Fail,
    Pending(Escape, Option<u32>),
    Char(char, Option<u32>),
    Close,
}

pub open spec fn is_json_space(c: char) -> bool {
    c == ' ' || c == '\t' || c == '\n' || c == '\r'
}

pub open spec fn is_scalar_char(c: char) -> bool {
    ('a' <= c && c <= 'z') || ('A' <= c && c <= 'Z') || ('0' <= c && c <= '9') || c == '+'
        || c == '-' || c == '.'
}

pub open spec fn hex_value(c: char) -> Option<u32> {
    if '0' <= c && c <= '9' {
        Some(((c as u32) - ('0' as u32)) as u32)
    } else if 'a' <= c && c <= 'f' {
        Some(((c as u32) - ('a' as u32) + 10) as u32)
    } else if 'A' <= c && c <= 'F' {
        Some(((c as u32) - ('A' as u32) + 10) as u32)
    } else {
        None
    }
}

/// The character a one-letter escape stands for.
pub open spec fn simple_escape(c: char) -> Option<char> {
    if c == '"' || c == '\\' || c == '/' {
        Some(c)
    } else if c == 'b' {
        Some('\u{8}')
    } else if c == 'f' {
        Some('\u{c}')
    } else if c == 'n' {
        Some('\n')
    } else if c == 'r' {
        Some('\r')
    } else if c == 't' {
        Some('\t')
    } else {
        None
    }
}

pub open spec fn is_high_surrogate(v: u32) -> bool {
    0xD800 <= v && v <= 0xDBFF
}

pub open spec fn is_low_surrogate(v: u32) -> bool {
    0xDC00 <= v && v <= 0xDFFF
}

/// A completed `\uXXXX` escape: a high surrogate waits for its low half; a
/// low surrogate completes a pair; any other code point is a character.
pub open spec fn complete_escape(v: u32, high: Option<u32>) -> Decoded {
    match high {
        None => if is_high_surrogate(v) {
            Decoded::Pending(Escape::Plain, Some(v))
        } else if is_low_surrogate(v) {
            Decoded::Fail
        } else {
            Decoded::Char(v as char, None)
        },
        Some(h) => if is_low_surrogate(v) {
            Decoded::Char((0x10000 + (h - 0xD800) * 0x400 + (v - 0xDC00)) as char, None)
        } else {
            Decoded::Fail
        },
    }
}

/// Decoding of one character of a JSON string.
pub open spec fn decode(escape: Escape, high: Option<u32>, c: char) -> Decoded {
    match escape {
        Escape::Plain => if c == '\\' {
            Decoded::Pending(Escape::Backslash, high)
        } else if high is Some {
            Decoded::Fail
        } else if c == '"' {
            Decoded::Close
        } else {
            Decoded::Char(c, None)
        },
        Escape::Backslash => if c == 'u' {
            Decoded::Pending(Escape::Hex { count: 0, value: 0 }, high)
        } else if high is Some {
            Decoded::Fail
        } else {
            match simple_escape(c) {
                Some(d) => Decoded::Char(d, None),
                None => Decoded::Fail,
            }
        },
        Escape::Hex { count, value } => match hex_value(c) {
            None => Decoded::Fail,
            Some(h) => {
                let v = (value * 16 + h) as u32;
                if count < 3 {
                    Decoded::Pending(Escape::Hex { count: (count + 1) as u32, value: v }, high)
                } else {
                    complete_escape(v, high)
                }
            },
        },
    }
}

pub open spec fn failed(s: LexState) -> (LexState, Option<Fragment>) {
    (LexState { phase: Phase::Failed, ..s }, None)
}

pub open spec fn stay(s: LexState) -> (LexState, Option<Fragment>) {
    (s, None)
}

pub open spec fn goto(s: LexState, phase: Phase) -> (LexState, Option<Fragment>) {
    (LexState { phase, ..s }, None)
}

/// One character of the document. Top-level fields whose values are strings
/// produce their decoded characters and their end; keys, nested values and
/// other scalars are read and passed over; anything that cannot continue a
/// JSON object fails the lexer for good.
pub open spec fn lex_step(s: LexState, c: char) -> (LexState, Option<Fragment>) {
    match s.phase {
        Phase::Start => if is_json_space(c) {
            stay(s)
        } else if c == '{' {
            goto(s, Phase::BeforeKey)
        } else {
            failed(s)
        },
        Phase::BeforeKey => if is_json_space(c) {
            stay(s)
        } else if c == '"' {
            (
                LexState {
                    phase: Phase::Key,
                    key: Seq::empty(),
                    escape: Escape::Plain,
                    high: None,
                    ..s
                },
                None,
            )
        } else if c == '}' {
            goto(s, Phase::Done)
        } else {
            failed(s)
        },
        Phase::Key => match decode(s.escape, s.high, c) {
            Decoded::Fail => failed(s),
            Decoded::Pending(e, h) => (LexState { escape: e, high: h, ..s }, None),
            Decoded::Char(d, h) => (
                LexState { key: s.key.push(d), escape: Escape::Plain, high: h, ..s },
                None,
            ),
            Decoded::Close => (
                LexState { phase: Phase::AfterKey, escape: Escape::Plain, high: None, ..s },
                None,
            ),
        },
        Phase::AfterKey => if is_json_space(c) {
            stay(s)
        } else if c == ':' {
            goto(s, Phase::BeforeValue)
        } else {
            failed(s)
        },
        Phase::BeforeValue => if is_json_space(c) {
            stay(s)
        } else if c == '"' {
            (
                LexState {
                    phase: Phase::Value,
                    name: s.key,
                    escape: Escape::Plain,
                    high: None,
                    ..s
                },
                None,
            )
        } else if c == '{' || c == '[' {
            (
                LexState {
                    phase: Phase::Nested,
                    depth: 1,
                    in_string: false,
                    escape: Escape::Plain,
                    ..s
                },
                None,
            )
        } else if is_scalar_char(c) {
            goto(s, Phase::Scalar)
        } else {
            failed(s)
        },
        Phase::Value => match decode(s.escape, s.high, c) {
            Decoded::Fail => failed(s),
            Decoded::Pending(e, h) => (LexState { escape: e, high: h, ..s }, None),
            Decoded::Char(d, h) => (
                LexState { escape: Escape::Plain, high: h, ..s },
                Some(Fragment::Text(s.name, d)),
            ),
            Decoded::Close => (
                LexState { phase: Phase::AfterValue, escape: Escape::Plain, high: None, ..s },
                Some(Fragment::End(s.name)),
            ),
        },
        Phase::Nested => if s.in_string {
            if s.escape == Escape::Backslash {
                (LexState { escape: Escape::Plain, ..s }, None)
            } else if c == '\\' {
                (LexState { escape: Escape::Backslash, ..s }, None)
            } else if c == '"' {
                (LexState { in_string: false, ..s }, None)
            } else {
                stay(s)
            }
        } else if c == '"' {
            (LexState { in_string: true, escape: Escape::Plain, ..s }, None)
        } else if c == '{' || c == '[' {
            if s.depth < usize::MAX {
                (LexState { depth: (s.depth + 1) as usize, ..s }, None)
            } else {
                failed(s)
            }
        } else if c == '}' || c == ']' {
            if s.depth <= 1 {
                (LexState { phase: Phase::AfterValue, depth: 0, ..s }, None)
            } else {
                (LexState { depth: (s.depth - 1) as usize, ..s }, None)
            }
        } else {
            stay(s)
        },
        Phase::Scalar => if is_scalar_char(c) {
            stay(s)
        } else if is_json_space(c) {
            goto(s, Phase::AfterValue)
        } else if c == ',' {
            goto(s, Phase::BeforeKey)
        } else if c == '}' {
            goto(s, Phase::Done)
        } else {
            failed(s)
        },
        Phase::AfterValue => if is_json_space(c) {
            stay(s)
        } else if c == ',' {
            goto(s, Phase::BeforeKey)
        } else if c == '}' {
            goto(s, Phase::Done)
        } else {
            failed(s)
        },
        Phase::Done => if is_json_space(c) {
            stay(s)
        } else {
            failed(s)
        },
        Phase::Failed => stay(s),
    }
}

/// Lexes `text` from state `s`: the state after it and the fragments it produced.
pub open spec fn lex_run(s: LexState, text: Seq<char>) -> (LexState, Seq<Fragment>)
    decreases text.len(),
{
    if text.len() == 0 {
        (s, Seq::empty())
    } else {
        let (mid, frags) = lex_run(s, text.drop_last());
        let (next, frag) = lex_step(mid, text.last());
        match frag {
            Some(f) => (next, frags.push(f)),
            None => (next, frags),
        }
    }
}

/// Fragments grouped into events: consecutive characters of one field become
/// one `Delta`.
pub open spec fn group(frags: Seq<Fragment>) -> Seq<FieldEventV>
    decreases frags.len(),
{
    if frags.len() == 0 {
        Seq::empty()
    } else {
        let events = group(frags.drop_last());
        match frags.last() {
            Fragment::Text(name, c) => if events.len() > 0 && events.last() is Delta
                && events.last()->Delta_name == name {
                events.drop_last().push(
                    FieldEventV::Delta { name, text: events.last()->Delta_text.push(c) },
                )
            } else {
                events.push(FieldEventV::Delta { name, text: seq![c] })
            },
            Fragment::End(name) => events.push(FieldEventV::End { name }),
        }
    }
}

/// The code point that a one-letter JSON string escape stands for, as
/// RFC 8259 (section 7) lists them: `\"` U+0022, `\\` U+005C, `\/` U+002F,
/// `\b` U+0008, `\f` U+000C, `\n` U+000A, `\r` U+000D, `\t` U+0009; no
/// other letter but `u` may follow a backslash.
pub open spec fn rfc8259_escape_code(c: char) -> Option<u32> {
    if c == '"' {
        Some(0x22)
    } else if c == '\\' {
        Some(0x5C)
    } else if c == '/' {
        Some(0x2F)
    } else if c == 'b' {
        Some(0x08)
    } else if c == 'f' {
        Some(0x0C)
    } else if c == 'n' {
        Some(0x0A)
    } else if c == 'r' {
        Some(0x0D)
    } else if c == 't' {
        Some(0x09)
    } else {
        None
    }
}

/// Inside a top-level string value, a backslash and one escape letter yield
/// exactly one character of the field: the one RFC 8259 gives that escape;
/// a backslash followed by any other letter than those and `u` fails the
/// lexer.
pub proof fn law_string_escapes_decode_as_json(s: LexState, c: char)
    requires
        s.phase == Phase::Value,
        s.escape == Escape::Plain,
        s.high is None,
    ensures
        rfc8259_escape_code(c) matches Some(v) ==> lex_run(s, seq!['\\', c]) == (
            LexState { escape: Escape::Plain, high: None, ..s },
            seq![Fragment::Text(s.name, v as char)],
        ),
        rfc8259_escape_code(c) is None && c != 'u' ==> lex_run(s, seq!['\\', c]).0.phase == Phase::Failed,
{
    let text = seq!['\\', c];
    assert(text.drop_last() =~= seq!['\\']);
    assert(seq!['\\'].drop_last() =~= Seq::<char>::empty());
    reveal_with_fuel(lex_run, 3);
    assert(('"' as u32) == 0x22 && ('\\' as u32) == 0x5C && ('/' as u32) == 0x2F);
    assert((0x08u32 as char) == '\u{8}' && (0x0Cu32 as char) == '\u{c}' && (0x0Au32 as char) == '\n');
    assert((0x0Du32 as char) == '\r' && (0x09u32 as char) == '\t');
    assert((0x22u32 as char) == '"' && (0x5Cu32 as char) == '\\' && (0x2Fu32 as char) == '/');
}

/// The value of a hexadecimal digit, either case.
pub open spec fn hex_digit(c: char) -> Option<int> {
    if '0' <= c && c <= '9' {
        Some(c as int - 48)
    } else if 'a' <= c && c <= 'f' {
        Some(c as int - 87)
    } else if 'A' <= c && c <= 'F' {
        Some(c as int - 55)
    } else {
        None
    }
}

/// Inside a top-level string value, `\u` and four hexadecimal digits that
/// name a code point outside the surrogate range yield exactly that one
/// character of the field.
pub proof fn law_unicode_escapes_decode_as_json(s: LexState, a: char, b: char, c: char, d: char)
    requires
        s.phase == Phase::Value,
        s.escape == Escape::Plain,
        s.high is None,
        hex_digit(a) is Some && hex_digit(b) is Some && hex_digit(c) is Some && hex_digit(d) is Some,
        ({
            let v = 4096 * hex_digit(a)->0 + 256 * hex_digit(b)->0 + 16 * hex_digit(c)->0 + hex_digit(d)->0;
            !(0xD800 <= v && v <= 0xDFFF)
        }),
    ensures
        ({
            let v = 4096 * hex_digit(a)->0 + 256 * hex_digit(b)->0 + 16 * hex_digit(c)->0 + hex_digit(d)->0;
            lex_run(s, seq!['\\', 'u', a, b, c, d]) == (
                LexState { escape: Escape::Plain, high: None, ..s },
                seq![Fragment::Text(s.name, v as char)],
            )
        }),
{
    let t6 = seq!['\\', 'u', a, b, c, d];
    assert(t6.drop_last() =~= seq!['\\', 'u', a, b, c]);
    assert(seq!['\\', 'u', a, b, c].drop_last() =~= seq!['\\', 'u', a, b]);
    assert(seq!['\\', 'u', a, b].drop_last() =~= seq!['\\', 'u', a]);
    assert(seq!['\\', 'u', a].drop_last() =~= seq!['\\', 'u']);
    assert(seq!['\\', 'u'].drop_last() =~= seq!['\\']);
    assert(seq!['\\'].drop_last() =~= Seq::<char>::empty());
    assert(hex_value(a) == Some(hex_digit(a)->0 as u32));
    assert(hex_value(b) == Some(hex_digit(b)->0 as u32));
    assert(hex_value(c) == Some(hex_digit(c)->0 as u32));
    assert(hex_value(d) == Some(hex_digit(d)->0 as u32));
    reveal_with_fuel(lex_run, 7);
}

/// Lexing two chunks one after the other reaches the same state and produces
/// the same fragments as lexing them at once.
pub proof fn law_lex_chunking(s: LexState, a: Seq<char>, b: Seq<char>)
    ensures
        ({
            let (mid, fa) = lex_run(s, a);
            let (end, fb) = lex_run(mid, b);
            lex_run(s, a + b) == (end, fa + fb)
        }),
    decreases b.len(),
{
    if b.len() == 0 {
        assert(a + b =~= a);
        let (mid, fa) = lex_run(s, a);
        assert(fa + Seq::<Fragment>::empty() =~= fa);
    } else {
        law_lex_chunking(s, a, b.drop_last());
        assert((a + b).drop_last() =~= a + b.drop_last());
        assert((a + b).last() == b.last());
        let (mid, fa) = lex_run(s, a);
        let (m2, fb) = lex_run(mid, b.drop_last());
        let (next, frag) = lex_step(m2, b.last());
        match frag {
            Some(f) => {
                assert((fa + fb).push(f) =~= fa + fb.push(f));
            },
            None => {},
        }
    }
}

/// Once the lexer has failed it stays failed and produces nothing.
pub proof fn law_lex_failure_is_final(s: LexState, text: Seq<char>)
    requires
        s.phase == Phase::Failed,
    ensures
        lex_run(s, text).0.phase == Phase::Failed,
        lex_run(s, text).1.len() == 0,
    decreases text.len(),
{
    if text.len() > 0 {
        law_lex_failure_is_final(s, text.drop_last());
    }
}

fn is_json_space_exec(c: char) -> (r: bool)
    ensures
        r == is_json_space(c),
{
    c == ' ' || c == '\t' || c == '\n' || c == '\r'
}

fn is_scalar_char_exec(c: char) -> (r: bool)
    ensures
        r == is_scalar_char(c),
{
    ('a' <= c && c <= 'z') || ('A' <= c && c <= 'Z') || ('0' <= c && c <= '9') || c == '+' || c
        == '-' || c == '.'
}

fn hex_value_exec(c: char) -> (r: Option<u32>)
    ensures
        r == hex_value(c),
{
    if '0' <= c && c <= '9' {
        Some(c as u32 - '0' as u32)
    } else if 'a' <= c && c <= 'f' {
        Some(c as u32 - 'a' as u32 + 10)
    } else if 'A' <= c && c <= 'F' {
        Some(c as u32 - 'A' as u32 + 10)
    } else {
        None
    }
}

fn simple_escape_exec(c: char) -> (r: Option<char>)
    ensures
        r == simple_escape(c),
{
    if c == '"' || c == '\\' || c == '/' {
        Some(c)
    } else if c == 'b' {
        Some('\u{8}')
    } else if c == 'f' {
        Some('\u{c}')
    } else if c == 'n' {
        Some('\n')
    } else if c == 'r' {
        Some('\r')
    } else if c == 't' {
        Some('\t')
    } else {
        None
    }
}

fn complete_escape_exec(v: u32, high: Option<u32>) -> (r: Decoded)
    requires
        v <= 0xFFFF,
        high matches Some(h) ==> is_high_surrogate(h),
    ensures
        r == complete_escape(v, high),
{
    match high {
        None => {
            if 0xD800 <= v && v <= 0xDBFF {
                Decoded::Pending(Escape::Plain, Some(v))
            } else if 0xDC00 <= v && v <= 0xDFFF {
                Decoded::Fail
            } else {
                match char::from_u32(v) {
                    Some(c) => Decoded::Char(c, None),
                    None => Decoded::Fail,
                }
            }
        },
        Some(h) => {
            if 0xDC00 <= v && v <= 0xDFFF {
                let code = 0x10000 + (h - 0xD800) * 0x400 + (v - 0xDC00);
                match char::from_u32(code) {
                    Some(c) => Decoded::Char(c, None),
                    None => Decoded::Fail,
                }
            } else {
                Decoded::Fail
            }
        },
    }
}

/// Whether an escape state can occur: a `\uXXXX` escape has read at most
/// three hex digits, whose value fits in them.
pub open spec fn escape_ok(e: Escape) -> bool {
    match e {
        Escape::Hex { count, value } => count <= 3 && value < pow16(count),
        _ => true,
    }
}

pub open spec fn pow16(n: u32) -> nat {
    if n == 0 {
        1
    } else if n == 1 {
        16
    } else if n == 2 {
        256
    } else {
        4096
    }
}

fn decode_exec(escape: Escape, high: Option<u32>, c: char) -> (r: Decoded)
    requires
        escape_ok(escape),
        high matches Some(h) ==> is_high_surrogate(h),
    ensures
        r == decode(escape, high, c),
        r matches Decoded::Pending(e, h) ==> escape_ok(e) && (h matches Some(x)
            ==> is_high_surrogate(x)),
{
    match escape {
        Escape::Plain => {
            if c == '\\' {
                Decoded::Pending(Escape::Backslash, high)
            } else if high.is_some() {
                Decoded::Fail
            } else if c == '"' {
                Decoded::Close
            } else {
                Decoded::Char(c, None)
            }
        },
        Escape::Backslash => {
            if c == 'u' {
                Decoded::Pending(Escape::Hex { count: 0, value: 0 }, high)
            } else if high.is_some() {
                Decoded::Fail
            } else {
                match simple_escape_exec(c) {
                    Some(d) => Decoded::Char(d, None),
                    None => Decoded::Fail,
                }
            }
        },
        Escape::Hex { count, value } => {
            match hex_value_exec(c) {
                None => Decoded::Fail,
                Some(h) => {
                    assert(h < 16);
                    let v = value * 16 + h;
                    if count < 3 {
                        assert(v < pow16((count + 1) as u32));
                        Decoded::Pending(Escape::Hex { count: count + 1, value: v }, high)
                    } else {
                        complete_escape_exec(v, high)
                    }
                },
            }
        },
    }
}

/// A fragment produced by one lexer step; the field is the one being read.
pub enum StepOutput {
    Text(char),
    End,
}

/// Extracts the top-level string fields of a JSON object that arrives in
/// chunks, decoding escapes as they complete.
pub struct JsonStringFields {
    phase: Phase,
    key: Vec<char>,
    name: Vec<char>,
    depth: usize,
    in_string: bool,
    escape: Escape,
    high: Option<u32>,
}

impl View for JsonStringFields {
    type V = LexState;

    closed spec fn view(&self) -> LexState {
        LexState {
            phase: self.phase,
            key: self.key@,
            name: self.name@,
            depth: self.depth,
            in_string: self.in_string,
            escape: self.escape,
            high: self.high,
        }
    }
}

/// The state before any input.
pub open spec fn lex_start() -> LexState {
    LexState {
        phase: Phase::Start,
        key: Seq::empty(),
        name: Seq::empty(),
        depth: 0,
        in_string: false,
        escape: Escape::Plain,
        high: None,
    }
}

/// The fragment a step output stands for.
pub open spec fn output_fragment(name: Seq<char>, out: Option<StepOutput>) -> Option<Fragment> {
    match out {
        Some(StepOutput::Text(c)) => Some(Fragment::Text(name, c)),
        Some(StepOutput::End) => Some(Fragment::End(name)),
        None => None,
    }
}

impl JsonStringFields {
    /// Lexer states that can occur.
    pub closed spec fn wf(&self) -> bool {
        &&& escape_ok(self.escape)
        &&& (self.high matches Some(h) ==> is_high_surrogate(h))
    }

    pub fn new() -> (r: Self)
        ensures
            r@ == lex_start(),
            r.wf(),
    {
        JsonStringFields {
            phase: Phase::Start,
            key: Vec::new(),
            name: Vec::new(),
            depth: 0,
            in_string: false,
            escape: Escape::Plain,
            high: None,
        }
    }

    fn fail(&mut self) -> (r: Option<StepOutput>)
        ensures
            final(self)@ == (LexState { phase: Phase::Failed, ..old(self)@ }),
            r is None,
    {
        self.phase = Phase::Failed;
        None
    }

    fn step(&mut self, c: char) -> (r: Option<StepOutput>)
        requires
            old(self).wf(),
        ensures
            final(self).wf(),
            (final(self)@, output_fragment(old(self)@.name, r)) == lex_step(old(self)@, c),
    {
        match self.phase {
            Phase::Start => {
                if is_json_space_exec(c) {
                    None
                } else if c == '{' {
                    self.phase = Phase::BeforeKey;
                    None
                } else {
                    self.fail()
                }
            },
            Phase::BeforeKey => {
                if is_json_space_exec(c) {
                    None
                } else if c == '"' {
                    self.phase = Phase::Key;
                    self.key = Vec::new();
                    self.escape = Escape::Plain;
                    self.high = None;
                    None
                } else if c == '}' {
                    self.phase = Phase::Done;
                    None
                } else {
                    self.fail()
                }
            },
            Phase::Key => {
                match decode_exec(self.escape, self.high, c) {
                    Decoded::Fail => self.fail(),
                    Decoded::Pending(e, h) => {
                        self.escape = e;
                        self.high = h;
                        None
                    },
                    Decoded::Char(d, h) => {
                        self.key.push(d);
                        self.escape = Escape::Plain;
                        self.high = h;
                        None
                    },
                    Decoded::Close => {
                        self.phase = Phase::AfterKey;
                        self.escape = Escape::Plain;
                        self.high = None;
                        None
                    },
                }
            },
            Phase::AfterKey => {
                if is_json_space_exec(c) {
                    None
                } else if c == ':' {
                    self.phase = Phase::BeforeValue;
                    None
                } else {
                    self.fail()
                }
            },
            Phase::BeforeValue => {
                if is_json_space_exec(c) {
                    None
                } else if c == '"' {
                    self.phase = Phase::Value;
                    self.name = self.key.clone();
                    assert(self.name@ =~= self.key@);
                    self.escape = Escape::Plain;
                    self.high = None;
                    None
                } else if c == '{' || c == '[' {
                    self.phase = Phase::Nested;
                    self.depth = 1;
                    self.in_string = false;
                    self.escape = Escape::Plain;
                    None
                } else if is_scalar_char_exec(c) {
                    self.phase = Phase::Scalar;
                    None
                } else {
                    self.fail()
                }
            },
            Phase::Value => {
                match decode_exec(self.escape, self.high, c) {
                    Decoded::Fail => self.fail(),
                    Decoded::Pending(e, h) => {
                        self.escape = e;
                        self.high = h;
                        None
                    },
                    Decoded::Char(d, h) => {
                        self.escape = Escape::Plain;
                        self.high = h;
                        Some(StepOutput::Text(d))
                    },
                    Decoded::Close => {
                        self.phase = Phase::AfterValue;
                        self.escape = Escape::Plain;
                        self.high = None;
                        Some(StepOutput::End)
                    },
                }
            },
            Phase::Nested => {
                if self.in_string {
                    if self.escape == Escape::Backslash {
                        self.escape = Escape::Plain;
                    } else if c == '\\' {
                        self.escape = Escape::Backslash;
                    } else if c == '"' {
                        self.in_string = false;
                    }
                    None
                } else if c == '"' {
                    self.in_string = true;
                    self.escape = Escape::Plain;
                    None
                } else if c == '{' || c == '[' {
                    if self.depth < usize::MAX {
                        self.depth = self.depth + 1;
                        None
                    } else {
                        self.fail()
                    }
                } else if c == '}' || c == ']' {
                    if self.depth <= 1 {
                        self.phase = Phase::AfterValue;
                        self.depth = 0;
                    } else {
                        self.depth = self.depth - 1;
                    }
                    None
                } else {
                    None
                }
            },
            Phase::Scalar => {
                if is_scalar_char_exec(c) {
                    None
                } else if is_json_space_exec(c) {
                    self.phase = Phase::AfterValue;
                    None
                } else if c == ',' {
                    self.phase = Phase::BeforeKey;
                    None
                } else if c == '}' {
                    self.phase = Phase::Done;
                    None
                } else {
                    self.fail()
                }
            },
            Phase::AfterValue => {
                if is_json_space_exec(c) {
                    None
                } else if c == ',' {
                    self.phase = Phase::BeforeKey;
                    None
                } else if c == '}' {
                    self.phase = Phase::Done;
                    None
                } else {
                    self.fail()
                }
            },
            Phase::Done => {
                if is_json_space_exec(c) {
                    None
                } else {
                    self.fail()
                }
            },
            Phase::Failed => None,
        }
    }

    /// Lexes the next chunk of the document. Returns the events it completes,
    /// consecutive characters of one field grouped into one `Delta`; once the
    /// input cannot be a JSON object, every push fails.
    pub fn push(&mut self, raw: &str) -> (r: Result<Vec<StringFieldEvent>, Error>)
        requires
            old(self).wf(),
        ensures
            final(self).wf(),
            final(self)@ == lex_run(old(self)@, raw@).0,
            final(self)@.phase == Phase::Failed ==> r is Err,
            final(self)@.phase != Phase::Failed ==> (r matches Ok(events) && events@.map_values(
                |e: StringFieldEvent| e@,
            ) == group(lex_run(old(self)@, raw@).1)),
    {
        let chars = chars_of(raw);
        let mut events: Vec<StringFieldEvent> = Vec::new();
        let mut pending: Vec<char> = Vec::new();
        let ghost mut frags: Seq<Fragment> = Seq::empty();
        let mut i: usize = 0;
        while i < chars.len()
            invariant
                i <= chars.len(),
                chars@ == raw@,
                self.wf(),
                (self@, frags) == lex_run(old(self)@, raw@.take(i as int)),
                group(frags) == events@.map_values(|e: StringFieldEvent| e@) + (if pending.len() > 0 {
                    seq![FieldEventV::Delta { name: self@.name, text: pending@ }]
                } else {
                    Seq::empty()
                }),
                pending.len() > 0 ==> (self@.phase == Phase::Value || self@.phase == Phase::Failed),
                events.len() > 0 ==> events@.last()@ is End,
            decreases chars.len() - i,
        {
            let ghost before = self@;
            let ghost evs = events@.map_values(|e: StringFieldEvent| e@);
            let ghost old_pending = pending@;
            let ghost old_frags = frags;
            assert(raw@.take(i + 1).drop_last() == raw@.take(i as int));
            assert(raw@.take(i + 1).last() == chars@[i as int]);
            let out = self.step(chars[i]);
            match out {
                Some(StepOutput::Text(d)) => {
                    proof {
                        frags = frags.push(Fragment::Text(before.name, d));
                    }
                    pending.push(d);
                    assert(events@.map_values(|e: StringFieldEvent| e@) == evs);
                    proof {
                        assert(self@.name == before.name);
                        let g = group(old_frags);
                        assert(frags.drop_last() =~= old_frags);
                        if old_pending.len() > 0 {
                            assert(g.last() == FieldEventV::Delta { name: before.name, text: old_pending });
                            assert(g.drop_last() =~= evs);
                            assert(group(frags) =~= evs + seq![FieldEventV::Delta { name: self@.name, text: pending@ }]);
                        } else {
                            assert(g =~= evs);
                            if evs.len() > 0 {
                                assert(evs.last() == events@.last()@);
                            }
                            assert(pending@ =~= seq![d]);
                            assert(group(frags) =~= evs + seq![FieldEventV::Delta { name: self@.name, text: pending@ }]);
                        }
                    }
                },
                Some(StepOutput::End) => {
                    proof {
                        frags = frags.push(Fragment::End(before.name));
                    }
                    if pending.len() > 0 {
                        events.push(
                            StringFieldEvent::Delta {
                                name: string_from_chars(&self.name),
                                text: string_from_chars(&pending),
                            },
                        );
                        pending = Vec::new();
                    }
                    events.push(StringFieldEvent::End { name: string_from_chars(&self.name) });
                    proof {
                        assert(self@.name == before.name);
                        let g = group(old_frags);
                        assert(frags.drop_last() =~= old_frags);
                        assert(group(frags) == g.push(FieldEventV::End { name: before.name }));
                        if old_pending.len() > 0 {
                            assert(events@.map_values(|e: StringFieldEvent| e@) =~= evs.push(FieldEventV::Delta { name: before.name, text: old_pending }).push(FieldEventV::End { name: before.name }));
                        } else {
                            assert(events@.map_values(|e: StringFieldEvent| e@) =~= evs.push(FieldEventV::End { name: before.name }));
                        }
                        assert(events@.map_values(|e: StringFieldEvent| e@) =~= group(frags));
                    }
                },
                None => {
                    assert(events@.map_values(|e: StringFieldEvent| e@) == evs);
                },
            }
            i += 1;
        }
        assert(raw@.take(raw@.len() as int) == raw@);
        if self.phase == Phase::Failed {
            return Err(Error::Protocol(String::from_str("invalid tool call arguments JSON")));
        }
        if pending.len() > 0 {
            events.push(
                StringFieldEvent::Delta {
                    name: string_from_chars(&self.name),
                    text: string_from_chars(&pending),
                },
            );
        }
        assert(events@.map_values(|e: StringFieldEvent| e@) =~= group(frags));
        Ok(events)
    }
}

} // verus!
