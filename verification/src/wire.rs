//! The command channel's line codec: one self-describing message per
//! line. A unit message is its quoted tag; a message with a payload is a
//! one-entry object whose value is the payload string, escaped the way
//! JSON requires. The parser is strict: it accepts exactly the lines this
//! module's encoders produce, and anything else earns a parse failure that
//! the server answers with a structured error.
use vstd::prelude::*;

use crate::capture::engine_after;
use crate::capture::engine_response;
use crate::capture::engine_saved;
use crate::capture::CaptureEngine;
use crate::capture::SaveRequest;
use crate::AudioCommand;
use crate::AudioResponse;
use crate::CmdModel;
use crate::RespModel;

verus! {

broadcast use vstd::utf8::char_is_scalar, vstd::utf8::char_u32_cast;

/// The lowercase hexadecimal digit for a value below 16.
pub open spec fn hex_digit(x: int) -> char
    recommends
        0 <= x < 16,
{
    if x == 0 {
        '0'
    } else if x == 1 {
        '1'
    } else if x == 2 {
        '2'
    } else if x == 3 {
        '3'
    } else if x == 4 {
        '4'
    } else if x == 5 {
        '5'
    } else if x == 6 {
        '6'
    } else if x == 7 {
        '7'
    } else if x == 8 {
        '8'
    } else if x == 9 {
        '9'
    } else if x == 10 {
        'a'
    } else if x == 11 {
        'b'
    } else if x == 12 {
        'c'
    } else if x == 13 {
        'd'
    } else if x == 14 {
        'e'
    } else {
        'f'
    }
}

/// The value of a lowercase hexadecimal digit.
pub open spec fn hex_value(c: char) -> int
    recommends
        is_hex_digit(c),
{
    if c == '0' {
        0
    } else if c == '1' {
        1
    } else if c == '2' {
        2
    } else if c == '3' {
        3
    } else if c == '4' {
        4
    } else if c == '5' {
        5
    } else if c == '6' {
        6
    } else if c == '7' {
        7
    } else if c == '8' {
        8
    } else if c == '9' {
        9
    } else if c == 'a' {
        10
    } else if c == 'b' {
        11
    } else if c == 'c' {
        12
    } else if c == 'd' {
        13
    } else if c == 'e' {
        14
    } else {
        15
    }
}

pub open spec fn is_hex_digit(c: char) -> bool {
    c == '0' || c == '1' || c == '2' || c == '3' || c == '4' || c == '5' || c == '6' || c == '7'
        || c == '8' || c == '9' || c == 'a' || c == 'b' || c == 'c' || c == 'd' || c == 'e' || c
        == 'f'
}

/// The characters with a short escape of their own.
pub open spec fn short_escape(c: char) -> bool {
    c == '"' || c == '\\' || c == '\u{8}' || c == '\u{9}' || c == '\u{a}' || c == '\u{c}' || c
        == '\u{d}'
}

/// How one character appears inside an encoded payload string: itself,
/// its two-character short escape, or a six-character `\u00..` escape for
/// the remaining control characters.
pub open spec fn escaped_char(c: char) -> Seq<char> {
    if c == '"' {
        seq!['\\', '"']
    } else if c == '\\' {
        seq!['\\', '\\']
    } else if c == '\u{8}' {
        seq!['\\', 'b']
    } else if c == '\u{9}' {
        seq!['\\', 't']
    } else if c == '\u{a}' {
        seq!['\\', 'n']
    } else if c == '\u{c}' {
        seq!['\\', 'f']
    } else if c == '\u{d}' {
        seq!['\\', 'r']
    } else if (c as u32) < 0x20 {
        seq![
            '\\',
            'u',
            '0',
            '0',
            hex_digit(((c as u32) / 16) as int),
            hex_digit(((c as u32) % 16) as int),
        ]
    } else {
        seq![c]
    }
}

/// A payload string as it appears on the wire, between its quotes.
pub open spec fn escaped(s: Seq<char>) -> Seq<char>
    decreases s.len(),
{
    if s.len() == 0 {
        Seq::empty()
    } else {
        escaped_char(s[0]) + escaped(s.drop_first())
    }
}

/// A unit message: the tag in quotes.
pub open spec fn quoted(tag: Seq<char>) -> Seq<char> {
    seq!['"'] + tag + seq!['"']
}

/// A payload message: a one-entry object, tag to escaped payload.
pub open spec fn tagged(tag: Seq<char>, payload: Seq<char>) -> Seq<char> {
    seq!['{', '"'] + tag + seq!['"', ':', '"'] + escaped(payload) + seq!['"', '}']
}

pub open spec fn start_tag() -> Seq<char> {
    seq!['S', 't', 'a', 'r', 't']
}

pub open spec fn stop_tag() -> Seq<char> {
    seq!['S', 't', 'o', 'p']
}

pub open spec fn status_tag() -> Seq<char> {
    seq!['S', 't', 'a', 't', 'u', 's']
}

pub open spec fn ok_tag() -> Seq<char> {
    seq!['O', 'k']
}

pub open spec fn error_tag() -> Seq<char> {
    seq!['E', 'r', 'r', 'o', 'r']
}

/// The one line that encodes a command.
pub open spec fn command_line(c: CmdModel) -> Seq<char> {
    match c {
        CmdModel::Start(p) => tagged(start_tag(), p),
        CmdModel::Stop => quoted(stop_tag()),
        CmdModel::Status => quoted(status_tag()),
    }
}

/// The one line that encodes a response.
pub open spec fn response_line(r: RespModel) -> Seq<char> {
    match r {
        RespModel::Status(s) => tagged(status_tag(), s),
        RespModel::Accepted => quoted(ok_tag()),
        RespModel::Error(m) => tagged(error_tag(), m),
    }
}

/// Builds the string for a finished line of characters.
///
/// Relies on String's FromIterator implementation: collecting characters
/// yields the string of exactly those characters, in order.
#[verifier::external_body]
pub(crate) fn string_from_chars(chars: Vec<char>) -> (s: String)
    ensures
        s@ == chars@,
{
    String::from_iter(chars)
}

/// The characters of a string, in order.
fn chars_of(s: &str) -> (v: Vec<char>)
    ensures
        v@ == s@,
{
    let n = s.unicode_len();
    let mut v: Vec<char> = Vec::new();
    let mut i: usize = 0;
    while i < n
        invariant
            i <= n,
            n == s@.len(),
            v@ == s@.take(i as int),
        decreases n - i,
    {
        v.push(s.get_char(i));
        proof {
            assert(v@ =~= s@.take(i + 1));
        }
        i = i + 1;
    }
    proof {
        assert(s@.take(n as int) =~= s@);
    }
    v
}

fn hex_digit_char(x: u32) -> (c: char)
    requires
        x < 16,
    ensures
        c == hex_digit(x as int),
{
    if x == 0 {
        '0'
    } else if x == 1 {
        '1'
    } else if x == 2 {
        '2'
    } else if x == 3 {
        '3'
    } else if x == 4 {
        '4'
    } else if x == 5 {
        '5'
    } else if x == 6 {
        '6'
    } else if x == 7 {
        '7'
    } else if x == 8 {
        '8'
    } else if x == 9 {
        '9'
    } else if x == 10 {
        'a'
    } else if x == 11 {
        'b'
    } else if x == 12 {
        'c'
    } else if x == 13 {
        'd'
    } else if x == 14 {
        'e'
    } else {
        'f'
    }
}

fn push_escaped_char(out: &mut Vec<char>, c: char)
    ensures
        final(out)@ == old(out)@ + escaped_char(c),
{
    if c == '"' {
        out.push('\\');
        out.push('"');
    } else if c == '\\' {
        out.push('\\');
        out.push('\\');
    } else if c == '\u{8}' {
        out.push('\\');
        out.push('b');
    } else if c == '\u{9}' {
        out.push('\\');
        out.push('t');
    } else if c == '\u{a}' {
        out.push('\\');
        out.push('n');
    } else if c == '\u{c}' {
        out.push('\\');
        out.push('f');
    } else if c == '\u{d}' {
        out.push('\\');
        out.push('r');
    } else {
        let code = c as u32;
        if code < 0x20 {
            out.push('\\');
            out.push('u');
            out.push('0');
            out.push('0');
            out.push(hex_digit_char(code / 16));
            out.push(hex_digit_char(code % 16));
        } else {
            out.push(c);
        }
    }
    proof {
        assert(out@ =~= old(out)@ + escaped_char(c));
    }
}

fn push_escaped(out: &mut Vec<char>, s: &str)
    ensures
        final(out)@ == old(out)@ + escaped(s@),
{
    let chars = chars_of(s);
    let mut i: usize = 0;
    while i < chars.len()
        invariant
            i <= chars@.len(),
            chars@ == s@,
            out@ == old(out)@ + escaped(s@.take(i as int)),
        decreases chars@.len() - i,
    {
        push_escaped_char(out, chars[i]);
        proof {
            lemma_escaped_snoc(s@.take(i + 1));
            assert(s@.take(i + 1).drop_last() =~= s@.take(i as int));
            assert(s@.take(i + 1).last() == s@[i as int]);
            assert(out@ =~= old(out)@ + escaped(s@.take(i + 1)));
        }
        i = i + 1;
    }
    proof {
        assert(s@.take(s@.len() as int) =~= s@);
    }
}

proof fn lemma_escaped_snoc(s: Seq<char>)
    requires
        s.len() > 0,
    ensures
        escaped(s) == escaped(s.drop_last()) + escaped_char(s.last()),
    decreases s.len(),
{
    if s.len() == 1 {
        assert(s.drop_last() =~= Seq::empty());
        assert(escaped(s.drop_first()) =~= Seq::empty());
        assert(escaped(s) =~= escaped_char(s.last()));
    } else {
        lemma_escaped_snoc(s.drop_first());
        assert(s.drop_first().drop_last() =~= s.drop_last().drop_first());
        assert(s.drop_last().len() > 0);
        assert(s.drop_last()[0] == s[0]);
        assert(s.drop_first().last() == s.last());
        assert(escaped(s) =~= escaped(s.drop_last()) + escaped_char(s.last()));
    }
}

fn push_quoted_tag(out: &mut Vec<char>, tag: &str)
    ensures
        final(out)@ == old(out)@ + quoted(tag@),
{
    out.push('"');
    let chars = chars_of(tag);
    let mut i: usize = 0;
    while i < chars.len()
        invariant
            i <= chars@.len(),
            chars@ == tag@,
            out@ == old(out)@ + seq!['"'] + tag@.take(i as int),
        decreases chars@.len() - i,
    {
        out.push(chars[i]);
        proof {
            assert(out@ =~= old(out)@ + seq!['"'] + tag@.take(i + 1));
        }
        i = i + 1;
    }
    out.push('"');
    proof {
        assert(tag@.take(tag@.len() as int) =~= tag@);
        assert(out@ =~= old(out)@ + quoted(tag@));
    }
}

fn push_tagged(out: &mut Vec<char>, tag: &str, payload: &str)
    ensures
        final(out)@ == old(out)@ + tagged(tag@, payload@),
{
    out.push('{');
    out.push('"');
    let chars = chars_of(tag);
    let mut i: usize = 0;
    while i < chars.len()
        invariant
            i <= chars@.len(),
            chars@ == tag@,
            out@ == old(out)@ + seq!['{', '"'] + tag@.take(i as int),
        decreases chars@.len() - i,
    {
        out.push(chars[i]);
        proof {
            assert(out@ =~= old(out)@ + seq!['{', '"'] + tag@.take(i + 1));
        }
        i = i + 1;
    }
    out.push('"');
    out.push(':');
    out.push('"');
    push_escaped(out, payload);
    out.push('"');
    out.push('}');
    proof {
        assert(tag@.take(tag@.len() as int) =~= tag@);
        assert(out@ =~= old(out)@ + tagged(tag@, payload@));
    }
}

/// Encodes one command as its wire line.
pub fn encode_command(cmd: &AudioCommand) -> (line: String)
    ensures
        line@ == command_line(cmd@),
{
    let mut out: Vec<char> = Vec::new();
    match cmd {
        AudioCommand::Start(p) => {
            push_tagged(&mut out, "Start", p.as_str());
            proof {
                reveal_strlit("Start");
                assert("Start"@ =~= start_tag());
            }
        },
        AudioCommand::Stop => {
            push_quoted_tag(&mut out, "Stop");
            proof {
                reveal_strlit("Stop");
                assert("Stop"@ =~= stop_tag());
            }
        },
        AudioCommand::Status => {
            push_quoted_tag(&mut out, "Status");
            proof {
                reveal_strlit("Status");
                assert("Status"@ =~= status_tag());
            }
        },
    }
    string_from_chars(out)
}

/// Encodes one response as its wire line.
pub fn encode_response(resp: &AudioResponse) -> (line: String)
    ensures
        line@ == response_line(resp@),
{
    let mut out: Vec<char> = Vec::new();
    match resp {
        AudioResponse::Status(s) => {
            push_tagged(&mut out, "Status", s.as_str());
            proof {
                reveal_strlit("Status");
                assert("Status"@ =~= status_tag());
            }
        },
        AudioResponse::Accepted => {
            push_quoted_tag(&mut out, "Ok");
            proof {
                reveal_strlit("Ok");
                assert("Ok"@ =~= ok_tag());
            }
        },
        AudioResponse::Error(m) => {
            push_tagged(&mut out, "Error", m.as_str());
            proof {
                reveal_strlit("Error");
                assert("Error"@ =~= error_tag());
            }
        },
    }
    string_from_chars(out)
}

/// The character a short escape letter stands for.
pub open spec fn short_unescape(e: char) -> char
    recommends
        is_short_escape_letter(e),
{
    if e == '"' {
        '"'
    } else if e == '\\' {
        '\\'
    } else if e == 'b' {
        '\u{8}'
    } else if e == 't' {
        '\u{9}'
    } else if e == 'n' {
        '\u{a}'
    } else if e == 'f' {
        '\u{c}'
    } else {
        '\u{d}'
    }
}

pub open spec fn is_short_escape_letter(e: char) -> bool {
    e == '"' || e == '\\' || e == 'b' || e == 't' || e == 'n' || e == 'f' || e == 'r'
}

/// The control codes that must use their short escape instead of `\u00..`.
pub open spec fn has_short_escape(code: int) -> bool {
    code == 0x8 || code == 0x9 || code == 0xa || code == 0xc || code == 0xd
}

/// Takes one string off the wire, beyond its closing quote: the decoded
/// content and the rest of the line. `None` for anything the encoder would
/// not have produced.
pub open spec fn take_str(s: Seq<char>) -> Option<(Seq<char>, Seq<char>)>
    decreases s.len(),
{
    if s.len() == 0 {
        None
    } else if s[0] == '"' {
        Some((Seq::empty(), s.drop_first()))
    } else if s[0] == '\\' {
        if s.len() < 2 {
            None
        } else if is_short_escape_letter(s[1]) {
            match take_str(s.skip(2)) {
                None => None,
                Some(t) => Some((seq![short_unescape(s[1])] + t.0, t.1)),
            }
        } else if s[1] == 'u' {
            if s.len() < 6 {
                None
            } else if s[2] == '0' && s[3] == '0' && is_hex_digit(s[4]) && is_hex_digit(s[5]) {
                let code = 16 * hex_value(s[4]) + hex_value(s[5]);
                if code < 0x20 && !has_short_escape(code) {
                    match take_str(s.skip(6)) {
                        None => None,
                        Some(t) => Some((seq![(code as u32) as char] + t.0, t.1)),
                    }
                } else {
                    None
                }
            } else {
                None
            }
        } else {
            None
        }
    } else if (s[0] as u32) < 0x20 {
        None
    } else {
        match take_str(s.drop_first()) {
            None => None,
            Some(t) => Some((seq![s[0]] + t.0, t.1)),
        }
    }
}

/// Taking a string off an encoded payload recovers the payload and leaves
/// the rest untouched.
pub proof fn lemma_take_str_round_trip(p: Seq<char>, rest: Seq<char>)
    ensures
        take_str(escaped(p) + seq!['"'] + rest) == Some((p, rest)),
    decreases p.len(),
{
    let s = escaped(p) + seq!['"'] + rest;
    if p.len() == 0 {
        assert(escaped(p) =~= Seq::<char>::empty());
        assert(s =~= seq!['"'] + rest);
        assert(s[0] == '"');
        assert(s.drop_first() =~= rest);
        assert(take_str(s) == Some((Seq::<char>::empty(), rest)));
    } else {
        let c = p[0];
        let p2 = p.drop_first();
        lemma_take_str_round_trip(p2, rest);
        let t = escaped(p2) + seq!['"'] + rest;
        assert(escaped(p) == escaped_char(c) + escaped(p2));
        assert(s =~= escaped_char(c) + t);
        assert(seq![c] + p2 =~= p);
        if short_escape(c) {
            let e = escaped_char(c)[1];
            assert(s[0] == '\\');
            assert(s[1] == e);
            assert(is_short_escape_letter(e));
            assert(short_unescape(e) == c);
            assert(s.skip(2) =~= t);
        } else if (c as u32) < 0x20 {
            let cu = (c as u32) as int;
            let hi = cu / 16;
            let lo = cu % 16;
            vstd::arithmetic::div_mod::lemma_fundamental_div_mod(cu, 16);
            vstd::arithmetic::div_mod::lemma_mod_division_less_than_divisor(cu, 16);
            assert(0 <= hi < 2);
            assert(0 <= lo < 16);
            assert(16 * hi + lo == cu);
            assert(s[0] == '\\');
            assert(s[1] == 'u');
            assert(s[2] == '0');
            assert(s[3] == '0');
            assert(s[4] == hex_digit(hi));
            assert(s[5] == hex_digit(lo));
            assert(is_hex_digit(hex_digit(hi)));
            assert(is_hex_digit(hex_digit(lo)));
            assert(hex_value(hex_digit(hi)) == hi);
            assert(hex_value(hex_digit(lo)) == lo);
            vstd::utf8::char_u32_cast(c, c as u32);
            assert(!has_short_escape(cu)) by {
                if cu == 0x8 {
                    vstd::utf8::char_u32_cast('\u{8}', 0x8);
                    assert(c == '\u{8}');
                }
                if cu == 0x9 {
                    vstd::utf8::char_u32_cast('\u{9}', 0x9);
                    assert(c == '\u{9}');
                }
                if cu == 0xa {
                    vstd::utf8::char_u32_cast('\u{a}', 0xa);
                    assert(c == '\u{a}');
                }
                if cu == 0xc {
                    vstd::utf8::char_u32_cast('\u{c}', 0xc);
                    assert(c == '\u{c}');
                }
                if cu == 0xd {
                    vstd::utf8::char_u32_cast('\u{d}', 0xd);
                    assert(c == '\u{d}');
                }
            }
            assert(((cu as u32) as char) == c);
            assert(s.skip(6) =~= t);
        } else {
            assert(escaped_char(c) =~= seq![c]);
            assert(s[0] == c);
            assert(s.drop_first() =~= t);
        }
    }
}

/// `take_str` after a decoded prefix.
pub open spec fn take_str_from(acc: Seq<char>, s: Seq<char>) -> Option<(Seq<char>, Seq<char>)> {
    match take_str(s) {
        None => None,
        Some(t) => Some((acc + t.0, t.1)),
    }
}

fn hex_value_of(c: char) -> (r: Option<u32>)
    ensures
        match r {
            Some(v) => is_hex_digit(c) && v == hex_value(c) && v < 16,
            None => !is_hex_digit(c),
        },
{
    if c == '0' {
        Some(0)
    } else if c == '1' {
        Some(1)
    } else if c == '2' {
        Some(2)
    } else if c == '3' {
        Some(3)
    } else if c == '4' {
        Some(4)
    } else if c == '5' {
        Some(5)
    } else if c == '6' {
        Some(6)
    } else if c == '7' {
        Some(7)
    } else if c == '8' {
        Some(8)
    } else if c == '9' {
        Some(9)
    } else if c == 'a' {
        Some(10)
    } else if c == 'b' {
        Some(11)
    } else if c == 'c' {
        Some(12)
    } else if c == 'd' {
        Some(13)
    } else if c == 'e' {
        Some(14)
    } else if c == 'f' {
        Some(15)
    } else {
        None
    }
}

fn short_unescape_char(e: char) -> (c: char)
    requires
        is_short_escape_letter(e),
    ensures
        c == short_unescape(e),
{
    if e == '"' {
        '"'
    } else if e == '\\' {
        '\\'
    } else if e == 'b' {
        '\u{8}'
    } else if e == 't' {
        '\u{9}'
    } else if e == 'n' {
        '\u{a}'
    } else if e == 'f' {
        '\u{c}'
    } else {
        '\u{d}'
    }
}

fn control_char_of(code: u32) -> (c: char)
    requires
        code < 0x20,
    ensures
        c as u32 == code,
{
    (code as u8) as char
}

/// Reads one encoded string out of `chars` from `start`, past its closing
/// quote. Exactly the strict `take_str` discipline.
fn parse_string_body(chars: &Vec<char>, start: usize) -> (r: Option<(Vec<char>, usize)>)
    requires
        start <= chars@.len(),
    ensures
        match r {
            Some(t) => {
                &&& start <= t.1 <= chars@.len()
                &&& take_str(chars@.skip(start as int)) == Some((t.0@, chars@.skip(t.1 as int)))
            },
            None => take_str(chars@.skip(start as int)) is None,
        },
{
    let n = chars.len();
    let mut content: Vec<char> = Vec::new();
    let mut i: usize = start;
    while i < n
        invariant
            start <= i <= n,
            n == chars@.len(),
            take_str_from(content@, chars@.skip(i as int)) == take_str(chars@.skip(start as int)),
        decreases n - i,
    {
        let ghost s_here = chars@.skip(i as int);
        let c = chars[i];
        proof {
            assert(s_here[0] == c);
        }
        if c == '"' {
            proof {
                assert(s_here.drop_first() =~= chars@.skip(i + 1));
                assert(take_str(s_here) == Some(
                    (Seq::<char>::empty(), chars@.skip(i + 1)),
                ));
                assert(content@ + Seq::<char>::empty() =~= content@);
            }
            return Some((content, i + 1));
        } else if c == '\\' {
            if n - i < 2 {
                proof {
                    assert(s_here.len() < 2);
                    assert(take_str(s_here) is None);
                }
                return None;
            }
            let e = chars[i + 1];
            proof {
                assert(s_here[1] == e);
                assert(s_here.len() >= 2);
            }
            if e == '"' || e == '\\' || e == 'b' || e == 't' || e == 'n' || e == 'f' || e == 'r' {
                let d = short_unescape_char(e);
                proof {
                    assert(s_here.skip(2) =~= chars@.skip(i + 2));
                    match take_str(chars@.skip(i + 2)) {
                        None => {
                            assert(take_str(s_here) is None);
                        },
                        Some(t) => {
                            assert(take_str(s_here) == Some((seq![d] + t.0, t.1)));
                            assert(content@ + (seq![d] + t.0) =~= (content@ + seq![d]) + t.0);
                        },
                    }
                }
                content.push(d);
                i = i + 2;
            } else if e == 'u' {
                if n - i < 6 {
                    proof {
                        assert(s_here.len() < 6);
                        assert(take_str(s_here) is None);
                    }
                    return None;
                }
                proof {
                    assert(s_here.len() >= 6);
                    assert(s_here[2] == chars@[i + 2]);
                    assert(s_here[3] == chars@[i + 3]);
                    assert(s_here[4] == chars@[i + 4]);
                    assert(s_here[5] == chars@[i + 5]);
                }
                if chars[i + 2] != '0' || chars[i + 3] != '0' {
                    proof {
                        assert(take_str(s_here) is None);
                    }
                    return None;
                }
                let hi = match hex_value_of(chars[i + 4]) {
                    Some(v) => v,
                    None => {
                        proof {
                            assert(take_str(s_here) is None);
                        }
                        return None;
                    },
                };
                let lo = match hex_value_of(chars[i + 5]) {
                    Some(v) => v,
                    None => {
                        proof {
                            assert(take_str(s_here) is None);
                        }
                        return None;
                    },
                };
                let code: u32 = 16 * hi + lo;
                proof {
                    assert(code as int == 16 * hex_value(s_here[4]) + hex_value(s_here[5]));
                }
                if !(code < 0x20) || code == 0x8 || code == 0x9 || code == 0xa || code == 0xc
                    || code == 0xd {
                    proof {
                        assert(take_str(s_here) is None);
                    }
                    return None;
                }
                let d = control_char_of(code);
                proof {
                    assert(d == (code as char));
                    assert(s_here.skip(6) =~= chars@.skip(i + 6));
                    match take_str(chars@.skip(i + 6)) {
                        None => {
                            assert(take_str(s_here) is None);
                        },
                        Some(t) => {
                            assert(take_str(s_here) == Some((seq![d] + t.0, t.1)));
                            assert(content@ + (seq![d] + t.0) =~= (content@ + seq![d]) + t.0);
                        },
                    }
                }
                content.push(d);
                i = i + 6;
            } else {
                proof {
                    assert(!is_short_escape_letter(s_here[1]));
                    assert(take_str(s_here) is None);
                }
                return None;
            }
        } else {
            let code = c as u32;
            if code < 0x20 {
                proof {
                    assert(take_str(s_here) is None);
                }
                return None;
            }
            proof {
                assert(s_here.drop_first() =~= chars@.skip(i + 1));
                match take_str(chars@.skip(i + 1)) {
                    None => {
                        assert(take_str(s_here) is None);
                    },
                    Some(t) => {
                        assert(take_str(s_here) == Some((seq![c] + t.0, t.1)));
                        assert(content@ + (seq![c] + t.0) =~= (content@ + seq![c]) + t.0);
                    },
                }
            }
            content.push(c);
            i = i + 1;
        }
    }
    proof {
        assert(chars@.skip(n as int).len() == 0);
        assert(take_str(chars@.skip(i as int)) is None);
    }
    None
}

fn chars_eq(a: &Vec<char>, b: &Vec<char>) -> (r: bool)
    ensures
        r <==> a@ == b@,
{
    if a.len() != b.len() {
        return false;
    }
    let mut i: usize = 0;
    while i < a.len()
        invariant
            i <= a@.len(),
            a@.len() == b@.len(),
            forall|j: int| 0 <= j < i ==> a@[j] == b@[j],
        decreases a@.len() - i,
    {
        if a[i] != b[i] {
            return false;
        }
        i = i + 1;
    }
    proof {
        assert(a@ =~= b@);
    }
    true
}

fn has_prefix(chars: &Vec<char>, prefix: &Vec<char>) -> (r: bool)
    ensures
        r <==> (chars@.len() >= prefix@.len() && chars@.take(prefix@.len() as int) == prefix@),
{
    if chars.len() < prefix.len() {
        return false;
    }
    let mut i: usize = 0;
    while i < prefix.len()
        invariant
            i <= prefix@.len(),
            prefix@.len() <= chars@.len(),
            forall|j: int| 0 <= j < i ==> chars@[j] == prefix@[j],
        decreases prefix@.len() - i,
    {
        if chars[i] != prefix[i] {
            proof {
                assert(chars@.take(prefix@.len() as int)[i as int] != prefix@[i as int]);
            }
            return false;
        }
        i = i + 1;
    }
    proof {
        assert(chars@.take(prefix@.len() as int) =~= prefix@);
    }
    true
}

/// What a command line means: exactly the canonical encodings parse.
pub open spec fn parsed_command(line: Seq<char>) -> Option<CmdModel> {
    if line.len() == 0 {
        None
    } else if line[0] == '"' {
        if line == quoted(stop_tag()) {
            Some(CmdModel::Stop)
        } else if line == quoted(status_tag()) {
            Some(CmdModel::Status)
        } else {
            None
        }
    } else if line[0] == '{' {
        if line.len() >= 10 && line.take(10) == seq!['{', '"'] + start_tag() + seq!['"', ':', '"']
             {
            match take_str(line.skip(10)) {
                Some(t) => if t.1 == seq!['}'] {
                    Some(CmdModel::Start(t.0))
                } else {
                    None
                },
                None => None,
            }
        } else {
            None
        }
    } else {
        None
    }
}

/// What a response line means: exactly the canonical encodings parse.
pub open spec fn parsed_response(line: Seq<char>) -> Option<RespModel> {
    if line.len() == 0 {
        None
    } else if line[0] == '"' {
        if line == quoted(ok_tag()) {
            Some(RespModel::Accepted)
        } else {
            None
        }
    } else if line[0] == '{' {
        if line.len() >= 11 && line.take(11) == seq!['{', '"'] + status_tag() + seq!['"', ':', '"']
             {
            match take_str(line.skip(11)) {
                Some(t) => if t.1 == seq!['}'] {
                    Some(RespModel::Status(t.0))
                } else {
                    None
                },
                None => None,
            }
        } else if line.len() >= 10 && line.take(10) == seq!['{', '"'] + error_tag() + seq![
            '"',
            ':',
            '"',
        ] {
            match take_str(line.skip(10)) {
                Some(t) => if t.1 == seq!['}'] {
                    Some(RespModel::Error(t.0))
                } else {
                    None
                },
                None => None,
            }
        } else {
            None
        }
    } else {
        None
    }
}

/// Builds the expected characters of a quoted tag or a payload prefix.
fn quoted_tag_chars(tag: &str) -> (v: Vec<char>)
    ensures
        v@ == quoted(tag@),
{
    let mut v: Vec<char> = Vec::new();
    push_quoted_tag(&mut v, tag);
    v
}

fn payload_prefix_chars(tag: &str) -> (v: Vec<char>)
    ensures
        v@ == seq!['{', '"'] + tag@ + seq!['"', ':', '"'],
{
    let mut v: Vec<char> = Vec::new();
    v.push('{');
    v.push('"');
    let chars = chars_of(tag);
    let mut i: usize = 0;
    while i < chars.len()
        invariant
            i <= chars@.len(),
            chars@ == tag@,
            v@ == seq!['{', '"'] + tag@.take(i as int),
        decreases chars@.len() - i,
    {
        v.push(chars[i]);
        proof {
            assert(v@ =~= seq!['{', '"'] + tag@.take(i + 1));
        }
        i = i + 1;
    }
    v.push('"');
    v.push(':');
    v.push('"');
    proof {
        assert(tag@.take(tag@.len() as int) =~= tag@);
        assert(v@ =~= seq!['{', '"'] + tag@ + seq!['"', ':', '"']);
    }
    v
}

/// Parses the rest of a payload message: the string starting at `from`,
/// then one closing brace, then the end of the line.
fn parse_payload_end(chars: &Vec<char>, from: usize) -> (r: Option<String>)
    requires
        from <= chars@.len(),
    ensures
        match r {
            Some(s) => (match take_str(chars@.skip(from as int)) {
                Some(t) => t.1 == seq!['}'] && s@ == t.0,
                None => false,
            }),
            None => (match take_str(chars@.skip(from as int)) {
                Some(t) => t.1 != seq!['}'],
                None => true,
            }),
        },
{
    match parse_string_body(chars, from) {
        Some((content, end)) => {
            let ghost t1 = chars@.skip(end as int);
            if chars.len() - end == 1 && chars[end] == '}' {
                proof {
                    assert(t1 =~= seq!['}']);
                }
                Some(string_from_chars(content))
            } else {
                proof {
                    if t1 == seq!['}'] {
                        assert(t1.len() == 1);
                        assert(t1[0] == seq!['}'][0]);
                        assert(t1[0] == chars@[end as int]);
                        assert(chars@[end as int] == '}');
                    }
                }
                None
            }
        },
        None => None,
    }
}

/// Parses one command line; strict, so exactly the canonical encodings
/// are accepted and anything else is refused.
pub fn parse_command(line: &str) -> (r: Option<AudioCommand>)
    ensures
        match r {
            Some(c) => parsed_command(line@) == Some(c@),
            None => parsed_command(line@) is None,
        },
{
    let chars = chars_of(line);
    proof {
        reveal_strlit("Stop");
        reveal_strlit("Status");
        reveal_strlit("Start");
        assert("Stop"@ =~= stop_tag());
        assert("Status"@ =~= status_tag());
        assert("Start"@ =~= start_tag());
    }
    if chars.len() == 0 {
        return None;
    }
    let stop_line = quoted_tag_chars("Stop");
    if chars_eq(&chars, &stop_line) {
        proof {
            assert(chars@[0] == quoted(stop_tag())[0]);
            assert(chars@[0] == '"');
        }
        return Some(AudioCommand::Stop);
    }
    let status_line = quoted_tag_chars("Status");
    if chars_eq(&chars, &status_line) {
        proof {
            assert(chars@[0] == quoted(status_tag())[0]);
            assert(chars@[0] == '"');
            assert(quoted(stop_tag()).len() == 6);
            assert(chars@.len() == 8);
        }
        return Some(AudioCommand::Status);
    }
    let start_prefix = payload_prefix_chars("Start");
    if has_prefix(&chars, &start_prefix) {
        proof {
            assert(start_prefix@.len() == 10);
            assert(chars@.take(10)[0] == chars@[0]);
            assert(start_prefix@[0] == '{');
            assert(chars@[0] == '{');
        }
        match parse_payload_end(&chars, 10) {
            Some(path) => {
                return Some(AudioCommand::Start(path));
            },
            None => {
                return None;
            },
        }
    }
    None
}

/// Parses one response line; strict in the same way.
pub fn parse_response(line: &str) -> (r: Option<AudioResponse>)
    ensures
        match r {
            Some(resp) => parsed_response(line@) == Some(resp@),
            None => parsed_response(line@) is None,
        },
{
    let chars = chars_of(line);
    proof {
        reveal_strlit("Ok");
        reveal_strlit("Status");
        reveal_strlit("Error");
        assert("Ok"@ =~= ok_tag());
        assert("Status"@ =~= status_tag());
        assert("Error"@ =~= error_tag());
    }
    if chars.len() == 0 {
        return None;
    }
    let ok_line = quoted_tag_chars("Ok");
    if chars_eq(&chars, &ok_line) {
        proof {
            assert(chars@[0] == quoted(ok_tag())[0]);
            assert(chars@[0] == '"');
        }
        return Some(AudioResponse::Accepted);
    }
    let status_prefix = payload_prefix_chars("Status");
    if has_prefix(&chars, &status_prefix) {
        proof {
            assert(status_prefix@.len() == 11);
            assert(chars@.take(11)[0] == chars@[0]);
            assert(status_prefix@[0] == '{');
            assert(chars@[0] == '{');
        }
        match parse_payload_end(&chars, 11) {
            Some(text) => {
                return Some(AudioResponse::Status(text));
            },
            None => {
                return None;
            },
        }
    }
    let error_prefix = payload_prefix_chars("Error");
    if has_prefix(&chars, &error_prefix) {
        proof {
            assert(error_prefix@.len() == 10);
            assert(chars@.take(10)[0] == chars@[0]);
            assert(error_prefix@[0] == '{');
            assert(chars@[0] == '{');
            if chars@.len() >= 11 && chars@.take(11) == seq!['{', '"'] + status_tag() + seq![
                '"',
                ':',
                '"',
            ] {
                assert(chars@.take(11)[2] == chars@[2]);
                assert(chars@.take(10)[2] == chars@[2]);
                assert(error_prefix@[2] == 'E');
                assert((seq!['{', '"'] + status_tag() + seq!['"', ':', '"'])[2] == 'S');
                assert(false);
            }
        }
        match parse_payload_end(&chars, 10) {
            Some(message) => {
                return Some(AudioResponse::Error(message));
            },
            None => {
                return None;
            },
        }
    }
    None
}

/// Law: every encoded command line parses back to the command it encodes.
pub proof fn lemma_command_round_trip(c: CmdModel)
    ensures
        parsed_command(command_line(c)) == Some(c),
{
    match c {
        CmdModel::Stop => {
            let line = quoted(stop_tag());
            assert(line[0] == '"');
        },
        CmdModel::Status => {
            let line = quoted(status_tag());
            assert(line[0] == '"');
            assert(line.len() == 8);
            assert(quoted(stop_tag()).len() == 6);
        },
        CmdModel::Start(p) => {
            let line = tagged(start_tag(), p);
            assert(line[0] == '{');
            assert(line.take(10) =~= seq!['{', '"'] + start_tag() + seq!['"', ':', '"']);
            assert(line.skip(10) =~= escaped(p) + seq!['"'] + seq!['}']);
            lemma_take_str_round_trip(p, seq!['}']);
        },
    }
}

/// Law: every encoded response line parses back to the response it
/// encodes.
pub proof fn lemma_response_round_trip(r: RespModel)
    ensures
        parsed_response(response_line(r)) == Some(r),
{
    match r {
        RespModel::Accepted => {
            let line = quoted(ok_tag());
            assert(line[0] == '"');
        },
        RespModel::Status(s) => {
            let line = tagged(status_tag(), s);
            assert(line[0] == '{');
            assert(line.take(11) =~= seq!['{', '"'] + status_tag() + seq!['"', ':', '"']);
            assert(line.skip(11) =~= escaped(s) + seq!['"'] + seq!['}']);
            lemma_take_str_round_trip(s, seq!['}']);
        },
        RespModel::Error(m) => {
            let line = tagged(error_tag(), m);
            assert(line[0] == '{');
            assert(line.len() >= 12);
            assert(line[2] == 'E');
            assert(line.len() >= 11 ==> line.take(11)[2] == 'E');
            assert((seq!['{', '"'] + status_tag() + seq!['"', ':', '"'])[2] == 'S');
            assert(line.take(10) =~= seq!['{', '"'] + error_tag() + seq!['"', ':', '"']);
            assert(line.skip(10) =~= escaped(m) + seq!['"'] + seq!['}']);
            lemma_take_str_round_trip(m, seq!['}']);
        },
    }
}

/// One served line of the command channel: parse, let the engine decide,
/// encode the one response. Unparseable input earns a structured error
/// and leaves the engine untouched; the save request of an accepted
/// `Stop` is handed back for writing outside any lock.
pub fn handle_line(engine: &mut CaptureEngine, line: &str) -> (r: (String, Option<SaveRequest>))
    requires
        old(engine)@.wf(),
    ensures
        final(engine)@.wf(),
        (match parsed_command(line@) {
            Some(c) => {
                &&& final(engine)@ == engine_after(old(engine)@, c)
                &&& r.0@ == response_line(engine_response(old(engine)@, c))
                &&& (match engine_saved(old(engine)@, c) {
                    None => r.1 is None,
                    Some(sm) => r.1 matches Some(s) && s@ == sm,
                })
            },
            None => {
                &&& final(engine)@ == old(engine)@
                &&& r.0@ == response_line(RespModel::Error("Parse error"@))
                &&& r.1 is None
            },
        }),
{
    match parse_command(line) {
        Some(command) => {
            let (response, save) = engine.handle(command);
            (encode_response(&response), save)
        },
        None => {
            let response = AudioResponse::Error(String::from_str("Parse error"));
            (encode_response(&response), None)
        },
    }
}

/// The strict reader accepts nothing but the escape discipline's output:
/// whatever it takes apart was the encoding of what it returned.
pub proof fn lemma_take_str_canonical(s: Seq<char>)
    ensures
        take_str(s) matches Some(t) ==> s == escaped(t.0) + seq!['"'] + t.1,
    decreases s.len(),
{
    if s.len() == 0 {
    } else if s[0] == '"' {
        assert(escaped(Seq::<char>::empty()) =~= Seq::<char>::empty());
        assert(s =~= escaped(Seq::<char>::empty()) + seq!['"'] + s.drop_first());
    } else if s[0] == '\\' {
        if s.len() < 2 {
        } else if is_short_escape_letter(s[1]) {
            lemma_take_str_canonical(s.skip(2));
            match take_str(s.skip(2)) {
                None => {},
                Some(t) => {
                    let d = short_unescape(s[1]);
                    assert(escaped_char(d) =~= seq!['\\', s[1]]);
                    assert((seq![d] + t.0).drop_first() =~= t.0);
                    assert((seq![d] + t.0)[0] == d);
                    assert(escaped(seq![d] + t.0) == escaped_char(d) + escaped(t.0));
                    assert(s =~= s.take(2) + s.skip(2));
                    assert(s.take(2) =~= seq!['\\', s[1]]);
                    assert(s =~= escaped(seq![d] + t.0) + seq!['"'] + t.1);
                },
            }
        } else if s[1] == 'u' {
            if s.len() < 6 {
            } else if s[2] == '0' && s[3] == '0' && is_hex_digit(s[4]) && is_hex_digit(s[5]) {
                let code = 16 * hex_value(s[4]) + hex_value(s[5]);
                if code < 0x20 && !has_short_escape(code) {
                    lemma_take_str_canonical(s.skip(6));
                    match take_str(s.skip(6)) {
                        None => {},
                        Some(t) => {
                            let d = (code as u32) as char;
                            assert(0 <= hex_value(s[4]) < 16);
                            assert(0 <= hex_value(s[5]) < 16);
                            assert(d as u32 == code);
                            vstd::arithmetic::div_mod::lemma_fundamental_div_mod_converse(
                                code,
                                16,
                                hex_value(s[4]),
                                hex_value(s[5]),
                            );
                            assert(code / 16 == hex_value(s[4]));
                            assert(code % 16 == hex_value(s[5]));
                            assert(hex_digit(hex_value(s[4])) == s[4]);
                            assert(hex_digit(hex_value(s[5])) == s[5]);
                            assert(d != '"' && d != '\\');
                            vstd::utf8::char_u32_cast('\u{8}', 0x8);
                            vstd::utf8::char_u32_cast('\u{9}', 0x9);
                            vstd::utf8::char_u32_cast('\u{a}', 0xa);
                            vstd::utf8::char_u32_cast('\u{c}', 0xc);
                            vstd::utf8::char_u32_cast('\u{d}', 0xd);
                            assert(escaped_char(d) =~= seq!['\\', 'u', '0', '0', s[4], s[5]]);
                            assert((seq![d] + t.0).drop_first() =~= t.0);
                            assert((seq![d] + t.0)[0] == d);
                            assert(escaped(seq![d] + t.0) == escaped_char(d) + escaped(t.0));
                            assert(s =~= s.take(6) + s.skip(6));
                            assert(s.take(6) =~= seq!['\\', 'u', '0', '0', s[4], s[5]]);
                            assert(s =~= escaped(seq![d] + t.0) + seq!['"'] + t.1);
                        },
                    }
                }
            }
        }
    } else if (s[0] as u32) < 0x20 {
    } else {
        lemma_take_str_canonical(s.drop_first());
        match take_str(s.drop_first()) {
            None => {},
            Some(t) => {
                let c = s[0];
                assert(escaped_char(c) =~= seq![c]);
                assert((seq![c] + t.0).drop_first() =~= t.0);
                assert((seq![c] + t.0)[0] == c);
                assert(escaped(seq![c] + t.0) == escaped_char(c) + escaped(t.0));
                assert(s =~= seq![c] + s.drop_first());
                assert(s =~= escaped(seq![c] + t.0) + seq!['"'] + t.1);
            },
        }
    }
}

/// Law: the strict command parser accepts exactly the canonical lines:
/// an accepted line is the encoding of the command it returns.
pub proof fn lemma_parsed_command_canonical(line: Seq<char>)
    ensures
        parsed_command(line) matches Some(c) ==> line == command_line(c),
{
    if parsed_command(line) is Some {
        let c = parsed_command(line)->0;
        if line.len() > 0 && line[0] == '{' {
            if line.len() >= 10 && line.take(10) == seq!['{', '"'] + start_tag() + seq![
                '"',
                ':',
                '"',
            ] {
                lemma_take_str_canonical(line.skip(10));
                match take_str(line.skip(10)) {
                    Some(t) => {
                        if t.1 == seq!['}'] {
                            assert(line =~= line.take(10) + line.skip(10));
                            assert(line =~= tagged(start_tag(), t.0));
                        }
                    },
                    None => {},
                }
            }
        }
    }
}

/// Law: the strict response parser accepts exactly the canonical lines.
pub proof fn lemma_parsed_response_canonical(line: Seq<char>)
    ensures
        parsed_response(line) matches Some(r) ==> line == response_line(r),
{
    if parsed_response(line) is Some {
        if line.len() > 0 && line[0] == '{' {
            if line.len() >= 11 && line.take(11) == seq!['{', '"'] + status_tag() + seq![
                '"',
                ':',
                '"',
            ] {
                lemma_take_str_canonical(line.skip(11));
                match take_str(line.skip(11)) {
                    Some(t) => {
                        if t.1 == seq!['}'] {
                            assert(line =~= line.take(11) + line.skip(11));
                            assert(line =~= tagged(status_tag(), t.0));
                        }
                    },
                    None => {},
                }
            } else if line.len() >= 10 && line.take(10) == seq!['{', '"'] + error_tag() + seq![
                '"',
                ':',
                '"',
            ] {
                lemma_take_str_canonical(line.skip(10));
                match take_str(line.skip(10)) {
                    Some(t) => {
                        if t.1 == seq!['}'] {
                            assert(line =~= line.take(10) + line.skip(10));
                            assert(line =~= tagged(error_tag(), t.0));
                        }
                    },
                    None => {},
                }
            }
        }
    }
}

} // verus!
