//! Reading a text back into a value.

use crate::chars::{chars_of, push_char};
use crate::error::{outcome, DecodeError};
use crate::text::grammar::{
    char_at, decimal_value, digits, escape_at, exponent_len, fraction_len, hex4_at, hex_of,
    is_control, is_digit, is_scalar, is_space, members_at, number_at, number_len, number_of,
    parsed, spaces, text_at, value_at, word_at, MAX_DEPTH,
};
use crate::value::{members_view, Value, ValueView};
use vstd::prelude::*;

verus! {

/// The character that `n` stands for, by `char::from_u32`: there is one for
/// every number but the surrogates, `0xD800` to `0xDFFF`, and those beyond
/// `0x10FFFF`.
#[verifier::external_body]
fn char_of(n: u32) -> (r: Option<char>)
    ensures
        r == (if is_scalar(n as nat) {
            Some(n as char)
        } else {
            None
        }),
{
    char::from_u32(n)
}

fn space(c: char) -> (r: bool)
    ensures
        r == is_space(c),
{
    c == ' ' || c == '\t' || c == '\n' || c == '\r'
}

fn control(c: char) -> (r: bool)
    ensures
        r == is_control(c),
{
    let n: u32 = c as u32;
    n < 32
}

fn digit(c: char) -> (r: bool)
    ensures
        r == is_digit(c),
{
    let n: u32 = c as u32;
    48 <= n && n <= 57
}

fn hex_value(c: char) -> (r: Option<u32>)
    ensures
        match r {
            Some(d) => hex_of(c) == Some(d as nat),
            None => hex_of(c) is None,
        },
{
    let n: u32 = c as u32;
    if 48 <= n && n <= 57 {
        Some(n - 48)
    } else if 97 <= n && n <= 102 {
        Some(n - 87)
    } else if 65 <= n && n <= 70 {
        Some(n - 55)
    } else {
        None
    }
}

/// The place behind the blanks that stand from `pos` on.
fn skip_spaces(s: &Vec<char>, pos: usize) -> (p: usize)
    requires
        pos <= s.len(),
    ensures
        p == pos + spaces(s@, pos as int),
        p <= s.len(),
{
    let mut p: usize = pos;
    while p < s.len() && space(s[p])
        invariant
            pos <= p <= s.len(),
            p + spaces(s@, p as int) == pos + spaces(s@, pos as int),
        decreases s.len() - p,
    {
        p += 1;
    }
    p
}

/// The place behind the digits that stand from `pos` on.
fn skip_digits(s: &Vec<char>, pos: usize) -> (p: usize)
    requires
        pos <= s.len(),
    ensures
        p == pos + digits(s@, pos as int),
        p <= s.len(),
{
    let mut p: usize = pos;
    while p < s.len() && digit(s[p])
        invariant
            pos <= p <= s.len(),
            p + digits(s@, p as int) == pos + digits(s@, pos as int),
        decreases s.len() - p,
    {
        p += 1;
    }
    p
}

/// Digits that go on stand for no less.
proof fn lemma_decimal_value_grows(s: Seq<char>, pos: int, a: nat, b: nat)
    requires
        a <= b,
    ensures
        decimal_value(s, pos, a) <= decimal_value(s, pos, b),
    decreases b,
{
    if a < b {
        lemma_decimal_value_grows(s, pos, a, (b - 1) as nat);
    }
}

/// The place behind the digits that stand from `pos` on, and the number they
/// stand for, where a `u64` holds it.
fn read_digits(s: &Vec<char>, pos: usize) -> (r: (usize, Option<u64>))
    requires
        pos <= s.len(),
    ensures
        r.0 == pos + digits(s@, pos as int),
        r.0 <= s.len(),
        match r.1 {
            Some(v) => v == decimal_value(s@, pos as int, digits(s@, pos as int)),
            None => decimal_value(s@, pos as int, digits(s@, pos as int)) > u64::MAX,
        },
{
    let mut p: usize = pos;
    let mut value: u64 = 0;
    let mut held: bool = true;
    while p < s.len() && digit(s[p])
        invariant
            pos <= p <= s.len(),
            (p - pos) + digits(s@, p as int) == digits(s@, pos as int),
            held ==> value == decimal_value(s@, pos as int, (p - pos) as nat),
            !held ==> decimal_value(s@, pos as int, (p - pos) as nat) > u64::MAX,
        decreases s.len() - p,
    {
        let d: u64 = (s[p] as u32 - 48) as u64;
        proof {
            assert(decimal_value(s@, pos as int, (p - pos + 1) as nat) == decimal_value(
                s@,
                pos as int,
                (p - pos) as nat,
            ) * 10 + d);
        }
        if held {
            if value > (u64::MAX - d) / 10 {
                held = false;
            } else {
                value = value * 10 + d;
            }
        }
        p += 1;
    }
    if held {
        (p, Some(value))
    } else {
        (p, None)
    }
}

/// A copy of the characters of `s` from `from` up to `to`.
fn copy_chars(s: &Vec<char>, from: usize, to: usize) -> (r: String)
    requires
        from <= to <= s.len(),
    ensures
        r@ == s@.subrange(from as int, to as int),
{
    let mut out = String::new();
    let mut p: usize = from;
    while p < to
        invariant
            from <= p <= to <= s.len(),
            out@ == s@.subrange(from as int, p as int),
        decreases to - p,
    {
        push_char(&mut out, s[p]);
        p += 1;
        assert(out@ =~= s@.subrange(from as int, p as int));
    }
    out
}

/// The place behind the fraction at `pos`, which is `pos` itself where no
/// point stands there.
fn skip_fraction(s: &Vec<char>, pos: usize) -> (r: Option<usize>)
    requires
        pos <= s.len(),
    ensures
        match r {
            Some(end) => fraction_len(s@, pos as int) == Some((end - pos) as nat) && pos <= end
                <= s.len(),
            None => fraction_len(s@, pos as int) is None,
        },
{
    if pos < s.len() && s[pos] == '.' {
        let end: usize = skip_digits(s, pos + 1);
        if end == pos + 1 {
            None
        } else {
            Some(end)
        }
    } else {
        Some(pos)
    }
}

/// The place behind the exponent at `pos`, which is `pos` itself where no
/// `e` stands there.
fn skip_exponent(s: &Vec<char>, pos: usize) -> (r: Option<usize>)
    requires
        pos <= s.len(),
    ensures
        match r {
            Some(end) => exponent_len(s@, pos as int) == Some((end - pos) as nat) && pos <= end
                <= s.len(),
            None => exponent_len(s@, pos as int) is None,
        },
{
    if pos < s.len() && (s[pos] == 'e' || s[pos] == 'E') {
        let signed: bool = s.len() - pos > 1 && (s[pos + 1] == '+' || s[pos + 1] == '-');
        let from: usize = if signed {
            pos + 2
        } else {
            pos + 1
        };
        let end: usize = skip_digits(s, from);
        if end == from {
            None
        } else {
            Some(end)
        }
    } else {
        Some(pos)
    }
}

/// The place behind the number at `pos`.
fn skip_number(s: &Vec<char>, pos: usize) -> (r: Option<usize>)
    requires
        pos <= s.len(),
    ensures
        match r {
            Some(end) => number_len(s@, pos as int) == Some((end - pos) as nat) && pos < end
                <= s.len(),
            None => number_len(s@, pos as int) is None,
        },
{
    let negative: bool = pos < s.len() && s[pos] == '-';
    let start: usize = if negative {
        pos + 1
    } else {
        pos
    };
    let whole_end: usize = skip_digits(s, start);
    if whole_end == start {
        return None;
    }
    if whole_end - start > 1 && s[start] == '0' {
        return None;
    }
    let fraction_end: usize = match skip_fraction(s, whole_end) {
        None => {
            return None;
        },
        Some(end) => end,
    };
    skip_exponent(s, fraction_end)
}

/// The number at `pos` and the place behind it.
fn read_number(s: &Vec<char>, pos: usize) -> (r: Option<(Value, usize)>)
    requires
        pos <= s.len(),
    ensures
        match r {
            Some((v, end)) => number_at(s@, pos as int) == Some((v@, (end - pos) as nat)) && pos
                < end <= s.len(),
            None => number_at(s@, pos as int) is None,
        },
{
    let end: usize = match skip_number(s, pos) {
        None => {
            return None;
        },
        Some(end) => end,
    };
    let (digits_end, whole) = read_digits(s, pos);
    if digits_end == end {
        match whole {
            Some(v) => {
                return Some((Value::Number(v), end));
            },
            None => {},
        }
    }
    Some((Value::Decimal(copy_chars(s, pos, end)), end))
}

/// The number that four hexadecimal digits at `pos` stand for.
fn read_hex4(s: &Vec<char>, pos: usize) -> (r: Option<u32>)
    requires
        pos <= s.len(),
    ensures
        match r {
            Some(n) => hex4_at(s@, pos as int) == Some(n as nat),
            None => hex4_at(s@, pos as int) is None,
        },
{
    if s.len() - pos < 4 {
        return None;
    }
    let a: u32 = match hex_value(s[pos]) {
        None => {
            return None;
        },
        Some(a) => a,
    };
    let b: u32 = match hex_value(s[pos + 1]) {
        None => {
            return None;
        },
        Some(b) => b,
    };
    let c: u32 = match hex_value(s[pos + 2]) {
        None => {
            return None;
        },
        Some(c) => c,
    };
    let d: u32 = match hex_value(s[pos + 3]) {
        None => {
            return None;
        },
        Some(d) => d,
    };
    Some(((a * 16 + b) * 16 + c) * 16 + d)
}

/// The character that the escape at `pos` stands for and the place behind
/// the escape.
fn read_escape(s: &Vec<char>, pos: usize) -> (r: Option<(char, usize)>)
    requires
        pos < s.len(),
    ensures
        match r {
            Some((c, end)) => escape_at(s@, pos as int) == Some((c, (end - pos) as nat)) && pos
                < end <= s.len(),
            None => escape_at(s@, pos as int) is None,
        },
{
    if s.len() - pos < 2 {
        return None;
    }
    let e: char = s[pos + 1];
    if e == '"' || e == '\\' || e == '/' {
        Some((e, pos + 2))
    } else if e == 'b' {
        Some(('\u{8}', pos + 2))
    } else if e == 'f' {
        Some(('\u{c}', pos + 2))
    } else if e == 'n' {
        Some(('\n', pos + 2))
    } else if e == 'r' {
        Some(('\r', pos + 2))
    } else if e == 't' {
        Some(('\t', pos + 2))
    } else if e == 'u' {
        let n: u32 = match read_hex4(s, pos + 2) {
            None => {
                return None;
            },
            Some(n) => n,
        };
        if 0xD800 <= n && n <= 0xDBFF {
            if s.len() - pos < 8 || s[pos + 6] != '\\' || s[pos + 7] != 'u' {
                return None;
            }
            let m: u32 = match read_hex4(s, pos + 8) {
                None => {
                    return None;
                },
                Some(m) => m,
            };
            if !(0xDC00 <= m && m <= 0xDFFF) {
                return None;
            }
            match char_of(0x10000 + (n - 0xD800) * 0x400 + (m - 0xDC00)) {
                None => None,
                Some(c) => Some((c, pos + 12)),
            }
        } else {
            match char_of(n) {
                None => None,
                Some(c) => Some((c, pos + 6)),
            }
        }
    } else {
        None
    }
}

/// The character of a text at `pos` and the place behind what it is
/// written with.
fn read_char(s: &Vec<char>, pos: usize) -> (r: Option<(char, usize)>)
    requires
        pos < s.len(),
    ensures
        match r {
            Some((c, end)) => char_at(s@, pos as int) == Some((c, (end - pos) as nat)) && pos
                < end <= s.len(),
            None => char_at(s@, pos as int) is None,
        },
{
    let c: char = s[pos];
    if c == '\\' {
        read_escape(s, pos)
    } else if control(c) {
        None
    } else {
        Some((c, pos + 1))
    }
}

/// The text from `pos` on and the place behind its closing quote.
fn read_text(s: &Vec<char>, pos: usize) -> (r: Option<(String, usize)>)
    requires
        pos <= s.len(),
    ensures
        match r {
            Some((t, end)) => text_at(s@, pos as int) == Some((t@, (end - pos) as nat)) && pos
                < end <= s.len(),
            None => text_at(s@, pos as int) is None,
        },
{
    let mut out = String::new();
    let mut p: usize = pos;
    loop
        invariant
            pos <= p <= s.len(),
            match text_at(s@, p as int) {
                Some((rest, n)) => text_at(s@, pos as int) == Some(
                    (out@ + rest, ((p - pos) + n) as nat),
                ),
                None => text_at(s@, pos as int) is None,
            },
        decreases s.len() - p,
    {
        if p >= s.len() {
            return None;
        }
        if s[p] == '"' {
            assert(out@ + Seq::<char>::empty() =~= out@);
            return Some((out, p + 1));
        }
        let ghost sofar = out@;
        match read_char(s, p) {
            None => {
                return None;
            },
            Some((c, next)) => {
                push_char(&mut out, c);
                proof {
                    match text_at(s@, next as int) {
                        Some((rest, m)) => {
                            assert(out@ + rest =~= sofar + (seq![c] + rest));
                        },
                        None => {},
                    }
                }
                p = next;
            },
        }
    }
}

/// Whether the four characters stand at `pos`.
fn word4(s: &Vec<char>, pos: usize, a: char, b: char, c: char, d: char) -> (r: bool)
    requires
        pos <= s.len(),
    ensures
        r == word_at(s@, pos as int, seq![a, b, c, d]),
{
    if s.len() - pos < 4 {
        return false;
    }
    let r = s[pos] == a && s[pos + 1] == b && s[pos + 2] == c && s[pos + 3] == d;
    proof {
        let sub = s@.subrange(pos as int, pos + 4);
        if r {
            assert(sub =~= seq![a, b, c, d]);
        } else {
            assert(sub[0] == s@[pos as int] && sub[1] == s@[pos + 1] && sub[2] == s@[pos + 2]
                && sub[3] == s@[pos + 3]);
        }
    }
    r
}

/// Whether `false` stands at `pos`.
fn word_false(s: &Vec<char>, pos: usize) -> (r: bool)
    requires
        pos <= s.len(),
    ensures
        r == word_at(s@, pos as int, seq!['f', 'a', 'l', 's', 'e']),
{
    if s.len() - pos < 5 {
        return false;
    }
    let r = s[pos] == 'f' && s[pos + 1] == 'a' && s[pos + 2] == 'l' && s[pos + 3] == 's' && s[pos
        + 4] == 'e';
    proof {
        let sub = s@.subrange(pos as int, pos + 5);
        if r {
            assert(sub =~= seq!['f', 'a', 'l', 's', 'e']);
        } else {
            assert(sub[0] == s@[pos as int] && sub[1] == s@[pos + 1] && sub[2] == s@[pos + 2]
                && sub[3] == s@[pos + 3] && sub[4] == s@[pos + 4]);
        }
    }
    r
}

/// The value at `pos` and the place behind it.
fn read_value(s: &Vec<char>, pos: usize, depth: usize) -> (r: Option<(Value, usize)>)
    requires
        pos <= s.len(),
    ensures
        match r {
            Some((v, end)) => value_at(s@, pos as int, depth as nat) == Some(
                (v@, (end - pos) as nat),
            ) && pos <= end <= s.len(),
            None => value_at(s@, pos as int, depth as nat) is None,
        },
    decreases depth, s.len() - pos,
{
    let p: usize = skip_spaces(s, pos);
    if p >= s.len() {
        return None;
    }
    let c: char = s[p];
    if c == '{' {
        if depth == 0 {
            return None;
        }
        match read_members(s, p + 1, depth - 1) {
            None => None,
            Some((fields, end)) => Some((Value::object(fields), end)),
        }
    } else if c == '"' {
        match read_text(s, p + 1) {
            None => None,
            Some((t, end)) => Some((Value::Text(t), end)),
        }
    } else if digit(c) || c == '-' {
        read_number(s, p)
    } else if word4(s, p, 't', 'r', 'u', 'e') {
        Some((Value::Bool(true), p + 4))
    } else if word_false(s, p) {
        Some((Value::Bool(false), p + 5))
    } else if word4(s, p, 'n', 'u', 'l', 'l') {
        Some((Value::Null, p + 4))
    } else {
        None
    }
}

/// The members from `pos`, just behind an opening brace, up to the brace
/// that closes the object, and the place behind that brace.
fn read_members(s: &Vec<char>, pos: usize, depth: usize) -> (r: Option<
    (Vec<(String, Value)>, usize),
>)
    requires
        pos <= s.len(),
    ensures
        match r {
            Some((fields, end)) => members_at(s@, pos as int, depth as nat, true) == Some(
                (members_view(fields@), (end - pos) as nat),
            ) && pos < end <= s.len(),
            None => members_at(s@, pos as int, depth as nat, true) is None,
        },
    decreases depth, s.len() - pos,
{
    let mut fields: Vec<(String, Value)> = Vec::new();
    let first: usize = skip_spaces(s, pos);
    if first >= s.len() {
        return None;
    }
    if s[first] == '}' {
        assert(members_view(fields@) =~= Seq::<(Seq<char>, ValueView)>::empty());
        return Some((fields, first + 1));
    }
    let mut p: usize = pos;
    proof {
        match members_at(s@, pos as int, depth as nat, false) {
            Some((rest, n)) => {
                assert(members_view(fields@) + rest =~= rest);
            },
            None => {},
        }
    }
    loop
        invariant
            pos <= p <= s.len(),
            match members_at(s@, p as int, depth as nat, false) {
                Some((rest, n)) => members_at(s@, pos as int, depth as nat, true) == Some(
                    (members_view(fields@) + rest, ((p - pos) + n) as nat),
                ),
                None => members_at(s@, pos as int, depth as nat, true) is None,
            },
        decreases s.len() - p,
    {
        let q: usize = skip_spaces(s, p);
        if q >= s.len() || s[q] != '"' {
            return None;
        }
        let (name, after_name) = match read_text(s, q + 1) {
            None => {
                return None;
            },
            Some(found) => found,
        };
        let colon: usize = skip_spaces(s, after_name);
        if colon >= s.len() || s[colon] != ':' {
            return None;
        }
        let (value, after_value) = match read_value(s, colon + 1, depth) {
            None => {
                return None;
            },
            Some(found) => found,
        };
        let e: usize = skip_spaces(s, after_value);
        if e >= s.len() {
            return None;
        }
        let ghost sofar = members_view(fields@);
        let ghost member = (name@, value@);
        if s[e] == '}' {
            fields.push((name, value));
            assert(members_view(fields@) =~= sofar + seq![member]);
            return Some((fields, e + 1));
        } else if s[e] == ',' {
            fields.push((name, value));
            proof {
                match members_at(s@, e + 1, depth as nat, false) {
                    Some((rest, m)) => {
                        assert(members_view(fields@) + rest =~= sofar + (seq![member] + rest));
                    },
                    None => {},
                }
            }
            p = e + 1;
        } else {
            return None;
        }
    }
}

impl Value {
    /// The number that `text` is: a `Number` where it is digits alone that
    /// stand for no more than a `u64` holds, else a `Decimal`. `None` where
    /// the whole of `text` is not one number.
    pub fn from_number_text(text: &str) -> (r: Option<Value>)
        ensures
            match r {
                Some(v) => number_of(text@) == Some(v@),
                None => number_of(text@) is None,
            },
    {
        let s = chars_of(text);
        match read_number(&s, 0) {
            None => None,
            Some((v, end)) => if end == s.len() {
                Some(v)
            } else {
                None
            },
        }
    }

    /// The value that `text` is read as; `Malformed` where the text is not
    /// of the format.
    pub fn from_text(text: &str) -> (r: Result<Value, DecodeError>)
        ensures
            outcome(r) == parsed(text@),
    {
        let s = chars_of(text);
        match read_value(&s, 0, MAX_DEPTH) {
            None => Err(DecodeError::Malformed),
            Some((v, end)) => {
                let e: usize = skip_spaces(&s, end);
                if e == s.len() {
                    Ok(v)
                } else {
                    Err(DecodeError::Malformed)
                }
            },
        }
    }
}

} // verus!
