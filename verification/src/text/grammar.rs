//! The interchange format, as a definition: the text that a value is written
//! as, and the value that a text is read as.
//!
//! The format is JSON without its arrays. A value is `null`, `true`,
//! `false`, a number, a text in double quotes, or an object in braces whose
//! members are a quoted name, a colon and a value, with commas between them.
//! Blanks may stand between these; what is written has none.

use crate::error::DecodeError;
use crate::value::{Members, ValueView};
use vstd::prelude::*;

verus! {

/// How deep objects may stand inside one another in a text that is read.
pub const MAX_DEPTH: usize = 32;

/// The number that stands for a character.
pub open spec fn code(c: char) -> int {
    c as int
}

/// Whether `c` is a blank: a space, a tab, a line feed or a carriage return.
pub open spec fn is_space(c: char) -> bool {
    c == ' ' || c == '\t' || c == '\n' || c == '\r'
}

/// Whether `c` is one of the digits `0` to `9`.
pub open spec fn is_digit(c: char) -> bool {
    48 <= code(c) <= 57
}

/// The digit that stands for `d`, which is to be under ten.
pub open spec fn digit_char(d: nat) -> char {
    (48 + d) as char
}

/// The lower-case hexadecimal digit that stands for `d`, which is to be
/// under sixteen.
pub open spec fn hex_char(d: nat) -> char {
    if d < 10 {
        (48 + d) as char
    } else {
        (87 + d) as char
    }
}

/// What a hexadecimal digit of either case stands for.
pub open spec fn hex_of(c: char) -> Option<nat> {
    if 48 <= code(c) <= 57 {
        Some((code(c) - 48) as nat)
    } else if 97 <= code(c) <= 102 {
        Some((code(c) - 87) as nat)
    } else if 65 <= code(c) <= 70 {
        Some((code(c) - 55) as nat)
    } else {
        None
    }
}

/// Whether a character has to be written as an escape of six characters.
pub open spec fn is_control(c: char) -> bool {
    code(c) < 32
}

/// Whether a number stands for a character: it is no surrogate and not
/// beyond the last code point.
pub open spec fn is_scalar(n: nat) -> bool {
    n < 0xD800 || 0xE000 <= n <= 0x10FFFF
}

/// Whether a number is the first half of a pair of surrogates.
pub open spec fn is_high(n: nat) -> bool {
    0xD800 <= n <= 0xDBFF
}

/// Whether a number is the second half of a pair of surrogates.
pub open spec fn is_low(n: nat) -> bool {
    0xDC00 <= n <= 0xDFFF
}

/// The character that a pair of surrogates stands for.
pub open spec fn paired(high: nat, low: nat) -> char {
    (0x10000 + (high - 0xD800) * 0x400 + (low - 0xDC00)) as char
}

/// The decimal digits of `n`, without leading zeros.
pub open spec fn decimal(n: nat) -> Seq<char>
    decreases n,
{
    if n < 10 {
        seq![digit_char(n)]
    } else {
        decimal(n / 10).push(digit_char(n % 10))
    }
}

/// What one character of a text is written as inside quotes: a quote and a
/// backslash behind a backslash, a control character as `\u00` and its two
/// hexadecimal digits, any other character as itself.
pub open spec fn escaped(c: char) -> Seq<char> {
    if c == '"' {
        seq!['\\', '"']
    } else if c == '\\' {
        seq!['\\', '\\']
    } else if is_control(c) {
        seq![
            '\\',
            'u',
            '0',
            '0',
            hex_char((code(c) / 16) as nat),
            hex_char((code(c) % 16) as nat),
        ]
    } else {
        seq![c]
    }
}

/// What the characters of `t` from `i` on are written as inside quotes.
pub open spec fn escaped_from(t: Seq<char>, i: int) -> Seq<char>
    decreases t.len() - i,
{
    if 0 <= i < t.len() {
        escaped(t[i]) + escaped_from(t, i + 1)
    } else {
        Seq::empty()
    }
}

/// The text `t` in quotes.
pub open spec fn quoted(t: Seq<char>) -> Seq<char> {
    seq!['"'] + escaped_from(t, 0) + seq!['"']
}

/// The text that a value is written as.
pub open spec fn printed(v: ValueView) -> Seq<char>
    decreases v, 0nat,
{
    match v {
        ValueView::Null => seq!['n', 'u', 'l', 'l'],
        ValueView::Bool(true) => seq!['t', 'r', 'u', 'e'],
        ValueView::Bool(false) => seq!['f', 'a', 'l', 's', 'e'],
        ValueView::Number(n) => decimal(n as nat),
        ValueView::Decimal(t) => t,
        ValueView::Text(t) => quoted(t),
        ValueView::Object(ms) => seq!['{'] + printed_from(ms, 0),
    }
}

/// The text that the members of an object from `i` on are written as, with
/// the brace that closes the object.
pub open spec fn printed_from(ms: Members, i: int) -> Seq<char>
    decreases ms, ms.len() - i,
{
    if 0 <= i < ms.len() {
        quoted(ms[i].0) + seq![':'] + printed(ms[i].1) + (if i + 1 < ms.len() {
            seq![',']
        } else {
            Seq::empty()
        }) + printed_from(ms, i + 1)
    } else {
        seq!['}']
    }
}

/// Whether the characters of `w` stand in `s` from `pos` on.
pub open spec fn word_at(s: Seq<char>, pos: int, w: Seq<char>) -> bool {
    0 <= pos && pos + w.len() <= s.len() && s.subrange(pos, pos + w.len()) == w
}

/// How many blanks stand in `s` from `pos` on.
pub open spec fn spaces(s: Seq<char>, pos: int) -> nat
    decreases s.len() - pos,
{
    if 0 <= pos < s.len() && is_space(s[pos]) {
        1 + spaces(s, pos + 1)
    } else {
        0
    }
}

/// How many digits stand in `s` from `pos` on.
pub open spec fn digits(s: Seq<char>, pos: int) -> nat
    decreases s.len() - pos,
{
    if 0 <= pos < s.len() && is_digit(s[pos]) {
        1 + digits(s, pos + 1)
    } else {
        0
    }
}

/// The number that the `n` digits of `s` from `pos` on stand for.
pub open spec fn decimal_value(s: Seq<char>, pos: int, n: nat) -> nat
    decreases n,
{
    if n == 0 {
        0
    } else {
        decimal_value(s, pos, (n - 1) as nat) * 10 + (code(s[pos + n - 1]) - 48) as nat
    }
}

/// How many characters the fraction at `pos` takes: a point and the digits
/// behind it, of which there is one at least; none where no point stands
/// there.
pub open spec fn fraction_len(s: Seq<char>, pos: int) -> Option<nat> {
    if 0 <= pos < s.len() && s[pos] == '.' {
        let d = digits(s, pos + 1);
        if d == 0 {
            None
        } else {
            Some(1 + d)
        }
    } else {
        Some(0)
    }
}

/// How many characters the exponent at `pos` takes: an `e` of either case,
/// a sign or none, and digits, of which there is one at least; none where
/// no `e` stands there.
pub open spec fn exponent_len(s: Seq<char>, pos: int) -> Option<nat> {
    if 0 <= pos < s.len() && (s[pos] == 'e' || s[pos] == 'E') {
        let sign: nat = if pos + 1 < s.len() && (s[pos + 1] == '+' || s[pos + 1] == '-') {
            1
        } else {
            0
        };
        let d = digits(s, pos + 1 + sign);
        if d == 0 {
            None
        } else {
            Some(1 + sign + d)
        }
    } else {
        Some(0)
    }
}

/// How many characters the number at `pos` takes. A number is a minus sign
/// or none, then digits, of which there is one at least and of which the
/// first is a zero only where it is the only one, then a fraction or none,
/// then an exponent or none.
pub open spec fn number_len(s: Seq<char>, pos: int) -> Option<nat> {
    let sign: nat = if 0 <= pos < s.len() && s[pos] == '-' {
        1
    } else {
        0
    };
    let whole = digits(s, pos + sign);
    if whole == 0 || (whole > 1 && s[pos + sign] == '0') {
        None
    } else {
        match fraction_len(s, pos + sign + whole) {
            None => None,
            Some(f) => match exponent_len(s, pos + sign + whole + f) {
                None => None,
                Some(e) => Some(sign + whole + f + e),
            },
        }
    }
}

/// The number that stands in `s` at `pos`, with the count of its
/// characters. Digits alone that stand for no more than a `u64` holds are a
/// `Number`; any other number is a `Decimal` of the characters it is written
/// with.
pub open spec fn number_at(s: Seq<char>, pos: int) -> Option<(ValueView, nat)> {
    match number_len(s, pos) {
        None => None,
        Some(n) => if n == digits(s, pos) && decimal_value(s, pos, n) <= u64::MAX {
            Some((ValueView::Number(decimal_value(s, pos, n) as u64), n))
        } else {
            Some((ValueView::Decimal(s.subrange(pos, pos + n)), n))
        },
    }
}

/// The number that a text is, where the whole of it is one number.
pub open spec fn number_of(t: Seq<char>) -> Option<ValueView> {
    match number_at(t, 0) {
        Some((v, n)) if n == t.len() => Some(v),
        _ => None,
    }
}

/// The characters that a number is written with; none for a value that is
/// no number.
pub open spec fn number_text(v: ValueView) -> Option<Seq<char>> {
    match v {
        ValueView::Number(n) => Some(decimal(n as nat)),
        ValueView::Decimal(t) => Some(t),
        _ => None,
    }
}

/// Whether `t` is what a `Decimal` holds: the characters of one number, and
/// of one that `Number` does not hold.
pub open spec fn is_decimal(t: Seq<char>) -> bool {
    number_of(t) == Some(ValueView::Decimal(t))
}

/// Whether a character could carry a number on: a digit, a point or an `e`.
pub open spec fn carries_on(c: char) -> bool {
    is_digit(c) || c == '.' || c == 'e' || c == 'E'
}

/// Whether a value can be read back from its text: objects stand in it no
/// deeper than `depth`, and every `Decimal` holds what a `Decimal` may.
pub open spec fn legible(v: ValueView, depth: nat) -> bool
    decreases depth,
{
    match v {
        ValueView::Object(ms) => depth > 0 && forall|i: int|
            0 <= i < ms.len() ==> legible(#[trigger] ms[i].1, (depth - 1) as nat),
        ValueView::Decimal(t) => is_decimal(t),
        _ => true,
    }
}

/// An object whose members are neither objects nor decimals can be read
/// back wherever an object may stand at all.
pub proof fn lemma_legible_flat(ms: Members, depth: nat)
    requires
        depth > 0,
        forall|i: int|
            0 <= i < ms.len() ==> !(#[trigger] ms[i].1 is Object) && !(ms[i].1 is Decimal),
    ensures
        legible(ValueView::Object(ms), depth),
{
    assert forall|i: int| 0 <= i < ms.len() implies legible(
        #[trigger] ms[i].1,
        (depth - 1) as nat,
    ) by {
        assert(!(ms[i].1 is Object) && !(ms[i].1 is Decimal));
    }
}

/// The number that the four hexadecimal digits of `s` from `pos` on stand
/// for.
pub open spec fn hex4_at(s: Seq<char>, pos: int) -> Option<nat> {
    if !(0 <= pos && pos + 4 <= s.len()) {
        None
    } else {
        match (hex_of(s[pos]), hex_of(s[pos + 1]), hex_of(s[pos + 2]), hex_of(s[pos + 3])) {
            (Some(a), Some(b), Some(c), Some(d)) => Some(((a * 16 + b) * 16 + c) * 16 + d),
            _ => None,
        }
    }
}

/// The character that the escape at `pos` stands for, with the count of
/// the escape's characters; `s[pos]` is the backslash. An escape is a
/// backslash before one of `"`, `\`, `/`, `b`, `f`, `n`, `r`, `t`, or before
/// `u` and the four hexadecimal digits of a character. A character beyond
/// `0xFFFF` is two such escapes, a pair of surrogates; a surrogate that is
/// not part of a pair is no escape.
pub open spec fn escape_at(s: Seq<char>, pos: int) -> Option<(char, nat)> {
    if !(0 <= pos && pos + 1 < s.len()) {
        None
    } else {
        let e = s[pos + 1];
        if e == '"' || e == '\\' || e == '/' {
            Some((e, 2))
        } else if e == 'b' {
            Some(('\u{8}', 2))
        } else if e == 'f' {
            Some(('\u{c}', 2))
        } else if e == 'n' {
            Some(('\n', 2))
        } else if e == 'r' {
            Some(('\r', 2))
        } else if e == 't' {
            Some(('\t', 2))
        } else if e == 'u' {
            match hex4_at(s, pos + 2) {
                None => None,
                Some(n) => if is_high(n) {
                    if pos + 7 < s.len() && s[pos + 6] == '\\' && s[pos + 7] == 'u' {
                        match hex4_at(s, pos + 8) {
                            Some(m) if is_low(m) => Some((paired(n, m), 12)),
                            _ => None,
                        }
                    } else {
                        None
                    }
                } else if is_scalar(n) {
                    Some((n as char, 6))
                } else {
                    None
                },
            }
        } else {
            None
        }
    }
}

/// The character of a text that stands at `pos`, with the count of the
/// characters it is written with: what an escape stands for where a
/// backslash is there, else the character itself. A control character does
/// not stand in a text but as an escape.
pub open spec fn char_at(s: Seq<char>, pos: int) -> Option<(char, nat)> {
    if !(0 <= pos < s.len()) {
        None
    } else if s[pos] == '\\' {
        escape_at(s, pos)
    } else if is_control(s[pos]) {
        None
    } else {
        Some((s[pos], 1))
    }
}

/// The text that stands in `s` from `pos` on up to its closing quote, with
/// the count of the characters it takes, the quote among them; `pos` is
/// just behind the opening quote.
pub open spec fn text_at(s: Seq<char>, pos: int) -> Option<(Seq<char>, nat)>
    decreases s.len() - pos,
{
    if !(0 <= pos < s.len()) {
        None
    } else if s[pos] == '"' {
        Some((Seq::empty(), 1))
    } else {
        match char_at(s, pos) {
            None => None,
            Some((c, k)) => match text_at(s, pos + k) {
                None => None,
                Some((rest, n)) => Some((seq![c] + rest, k + n)),
            },
        }
    }
}

/// The value that stands in `s` at `pos`, behind any blanks, with the count
/// of the characters it takes, the blanks among them. Objects may stand
/// `depth` deep inside one another and no deeper.
pub open spec fn value_at(s: Seq<char>, pos: int, depth: nat) -> Option<(ValueView, nat)>
    decreases depth, s.len() - pos,
{
    let w = spaces(s, pos);
    let p = pos + w;
    if !(0 <= pos && p < s.len()) {
        None
    } else if s[p] == '{' {
        if depth == 0 {
            None
        } else {
            match members_at(s, p + 1, (depth - 1) as nat, true) {
                None => None,
                Some((ms, n)) => Some((ValueView::Object(ms), w + 1 + n)),
            }
        }
    } else if s[p] == '"' {
        match text_at(s, p + 1) {
            None => None,
            Some((t, n)) => Some((ValueView::Text(t), w + 1 + n)),
        }
    } else if is_digit(s[p]) || s[p] == '-' {
        match number_at(s, p) {
            None => None,
            Some((x, n)) => Some((x, w + n)),
        }
    } else if word_at(s, p, seq!['t', 'r', 'u', 'e']) {
        Some((ValueView::Bool(true), w + 4))
    } else if word_at(s, p, seq!['f', 'a', 'l', 's', 'e']) {
        Some((ValueView::Bool(false), w + 5))
    } else if word_at(s, p, seq!['n', 'u', 'l', 'l']) {
        Some((ValueView::Null, w + 4))
    } else {
        None
    }
}

/// The members that stand in `s` from `pos` on up to the brace that closes
/// their object, with the count of the characters they take, the brace
/// among them. `first` says that `pos` is just behind the opening brace:
/// only there may the closing brace follow at once. The values of the
/// members are read with `depth`.
pub open spec fn members_at(s: Seq<char>, pos: int, depth: nat, first: bool) -> Option<
    (Members, nat),
>
    decreases depth, s.len() - pos,
{
    let p = pos + spaces(s, pos);
    if !(0 <= pos && p < s.len()) {
        None
    } else if first && s[p] == '}' {
        Some((Seq::empty(), (p + 1 - pos) as nat))
    } else if s[p] != '"' {
        None
    } else {
        match text_at(s, p + 1) {
            None => None,
            Some((name, k)) => {
                let c = p + 1 + k + spaces(s, p + 1 + k);
                if !(c < s.len() && s[c] == ':') {
                    None
                } else {
                    match value_at(s, c + 1, depth) {
                        None => None,
                        Some((value, n)) => {
                            let e = c + 1 + n + spaces(s, c + 1 + n);
                            if !(e < s.len()) {
                                None
                            } else if s[e] == '}' {
                                Some((seq![(name, value)], (e + 1 - pos) as nat))
                            } else if s[e] == ',' {
                                match members_at(s, e + 1, depth, false) {
                                    None => None,
                                    Some((rest, m)) => Some(
                                        (seq![(name, value)] + rest, (e + 1 - pos) as nat + m),
                                    ),
                                }
                            } else {
                                None
                            }
                        },
                    }
                }
            },
        }
    }
}

/// The value that a text is read as: the one value that stands in it, with
/// nothing but blanks before and behind. A text that is not of the format
/// is `Malformed`.
pub open spec fn parsed(s: Seq<char>) -> Result<ValueView, DecodeError> {
    match value_at(s, 0, MAX_DEPTH as nat) {
        None => Err(DecodeError::Malformed),
        Some((v, n)) => if n + spaces(s, n as int) == s.len() {
            Ok(v)
        } else {
            Err(DecodeError::Malformed)
        },
    }
}

} // verus!
