//! What is written can be read: the text of a value is read as that value.

use crate::error::DecodeError;
use crate::text::grammar::{
    carries_on, code, decimal, decimal_value, digit_char, digits, escape_at, escaped, escaped_from,
    exponent_len, fraction_len, hex4_at, hex_char, hex_of, is_control, is_decimal, is_digit,
    is_scalar, is_space, legible, members_at, number_at, number_len, number_of, number_text,
    parsed, printed, printed_from, quoted, spaces, text_at, value_at, word_at, MAX_DEPTH,
};
use crate::value::{Members, ValueView};
use vstd::prelude::*;

verus! {

/// The number that stands for a character is that of a code point which is
/// no surrogate.
proof fn lemma_char_code(c: char)
    ensures
        0 <= code(c),
        is_scalar(code(c) as nat),
{
}

/// A word that stands at a place stands there character by character.
proof fn lemma_word_char(s: Seq<char>, pos: int, w: Seq<char>, k: int)
    requires
        word_at(s, pos, w),
        0 <= k < w.len(),
    ensures
        s[pos + k] == w[k],
{
    assert(s.subrange(pos, pos + w.len())[k] == s[pos + k]);
}

/// Where two words stand one behind the other, each of them stands.
proof fn lemma_word_split(s: Seq<char>, pos: int, a: Seq<char>, b: Seq<char>)
    requires
        word_at(s, pos, a + b),
    ensures
        word_at(s, pos, a),
        word_at(s, pos + a.len(), b),
{
    let w = a + b;
    assert forall|k: int| 0 <= k < a.len() implies s.subrange(pos, pos + a.len())[k] == a[k] by {
        lemma_word_char(s, pos, w, k);
    }
    assert(s.subrange(pos, pos + a.len()) =~= a);
    assert forall|k: int| 0 <= k < b.len() implies s.subrange(
        pos + a.len(),
        pos + a.len() + b.len(),
    )[k] == b[k] by {
        lemma_word_char(s, pos, w, a.len() + k);
    }
    assert(s.subrange(pos + a.len(), pos + a.len() + b.len()) =~= b);
}

/// The digits of a number: there is one at least, each is a digit, and the
/// first is a zero only where it is the only one.
proof fn lemma_decimal_digits(n: nat)
    ensures
        decimal(n).len() >= 1,
        forall|k: int| 0 <= k < decimal(n).len() ==> is_digit(#[trigger] decimal(n)[k]),
        decimal(n).len() > 1 ==> decimal(n)[0] != '0',
        decimal(n).len() == 1 <==> n < 10,
    decreases n,
{
    if n >= 10 {
        lemma_decimal_digits(n / 10);
        assert(decimal(n) == decimal(n / 10).push(digit_char(n % 10)));
        assert(decimal(n)[0] == decimal(n / 10)[0]);
    } else {
        assert(decimal(n) == seq![digit_char(n)]);
    }
}

/// Where digits stand and no digit follows them, they are all the digits
/// that stand there.
proof fn lemma_digits_run(s: Seq<char>, pos: int, w: Seq<char>, i: int)
    requires
        word_at(s, pos, w),
        0 <= i <= w.len(),
        forall|k: int| 0 <= k < w.len() ==> is_digit(#[trigger] w[k]),
        pos + w.len() == s.len() || !is_digit(s[pos + w.len()]),
    ensures
        digits(s, pos + i) == w.len() - i,
    decreases w.len() - i,
{
    if i < w.len() {
        lemma_word_char(s, pos, w, i);
        lemma_digits_run(s, pos, w, i + 1);
    }
}

/// The digits of a number stand for it.
proof fn lemma_decimal_value(s: Seq<char>, pos: int, n: nat)
    requires
        word_at(s, pos, decimal(n)),
    ensures
        decimal_value(s, pos, decimal(n).len()) == n,
    decreases n,
{
    let len = decimal(n).len();
    if n >= 10 {
        let front = decimal(n / 10);
        assert(decimal(n) =~= front + seq![digit_char(n % 10)]);
        lemma_word_split(s, pos, front, seq![digit_char(n % 10)]);
        lemma_decimal_value(s, pos, n / 10);
        lemma_word_char(s, pos, decimal(n), len - 1);
        assert(decimal_value(s, pos, len) == decimal_value(s, pos, (len - 1) as nat) * 10 + (code(
            s[pos + len - 1],
        ) - 48) as nat);
    } else {
        lemma_word_char(s, pos, decimal(n), 0);
        assert(decimal_value(s, pos, 0) == 0);
        assert(decimal_value(s, pos, 1) == decimal_value(s, pos, 0) * 10 + (code(s[pos])
            - 48) as nat);
    }
}

/// A whole number that is written is read as itself, where nothing that
/// could carry a number on follows it.
proof fn lemma_number_at(s: Seq<char>, pos: int, n: u64)
    requires
        word_at(s, pos, decimal(n as nat)),
        pos + decimal(n as nat).len() == s.len() || !carries_on(s[pos + decimal(n as nat).len()]),
    ensures
        number_at(s, pos) == Some((ValueView::Number(n), decimal(n as nat).len())),
{
    let w = decimal(n as nat);
    lemma_decimal_digits(n as nat);
    lemma_digits_run(s, pos, w, 0);
    lemma_decimal_value(s, pos, n as nat);
    lemma_word_char(s, pos, w, 0);
    let end = pos + w.len();
    assert(fraction_len(s, end) == Some(0nat));
    assert(exponent_len(s, end) == Some(0nat));
    assert(number_len(s, pos) == Some(w.len()));
}

/// The digits that stand in a text stand in a word of it, as far as the
/// word goes and no digit follows it.
proof fn lemma_digits_same(s: Seq<char>, pos: int, t: Seq<char>, a: int)
    requires
        word_at(s, pos, t),
        0 <= a <= t.len(),
        pos + t.len() == s.len() || !is_digit(s[pos + t.len()]),
    ensures
        digits(s, pos + a) == digits(t, a),
    decreases t.len() - a,
{
    if a < t.len() {
        lemma_word_char(s, pos, t, a);
        lemma_digits_same(s, pos, t, a + 1);
    }
}

/// Digits stand for the same number in a text as in a word of it.
proof fn lemma_decimal_value_same(s: Seq<char>, pos: int, t: Seq<char>, n: nat)
    requires
        word_at(s, pos, t),
        n <= t.len(),
    ensures
        decimal_value(s, pos, n) == decimal_value(t, 0, n),
    decreases n,
{
    if n > 0 {
        lemma_decimal_value_same(s, pos, t, (n - 1) as nat);
        lemma_word_char(s, pos, t, n - 1);
    }
}

/// A number takes the characters in a text that it takes alone, where
/// nothing that could carry it on follows it.
proof fn lemma_number_len_same(s: Seq<char>, pos: int, t: Seq<char>)
    requires
        word_at(s, pos, t),
        number_len(t, 0) == Some(t.len()),
        pos + t.len() == s.len() || !carries_on(s[pos + t.len()]),
    ensures
        number_len(s, pos) == Some(t.len()),
        digits(s, pos) == digits(t, 0),
{
    let len = t.len() as int;
    assert forall|a: int| 0 <= a <= len implies digits(s, pos + a) == #[trigger] digits(t, a) by {
        lemma_digits_same(s, pos, t, a);
    }
    assert forall|k: int| 0 <= k < len implies s[pos + k] == #[trigger] t[k] by {
        lemma_word_char(s, pos, t, k);
    }
    let sign: int = if t[0] == '-' {
        1
    } else {
        0
    };
    let whole = digits(t, sign);
    assert(whole == digits(s, pos + sign));
    assert(whole >= 1);
    let j = sign + whole;
    assert(j <= len) by {
        lemma_digits_bound(t, sign);
    }
    // the fraction
    let f = fraction_len(t, j)->Some_0;
    assert(fraction_len(t, j) is Some);
    if j < len && t[j] == '.' {
        assert(digits(t, j + 1) == digits(s, pos + (j + 1)));
        lemma_digits_bound(t, j + 1);
    }
    assert(fraction_len(s, pos + j) == Some(f));
    let k = j + f;
    assert(k <= len);
    // the exponent
    let e = exponent_len(t, k)->Some_0;
    assert(exponent_len(t, k) is Some);
    if k < len && (t[k] == 'e' || t[k] == 'E') {
        let esign: int = if k + 1 < len && (t[k + 1] == '+' || t[k + 1] == '-') {
            1
        } else {
            0
        };
        lemma_digits_bound(t, k + 1 + esign);
        assert(digits(t, k + 1 + esign) >= 1);
        assert(k + 1 + esign < len);
        assert(digits(t, k + 1 + esign) == digits(s, pos + (k + 1 + esign)));
    }
    assert(exponent_len(s, pos + k) == Some(e));
    assert(digits(s, pos + 0) == digits(t, 0));
}

/// Digits end where their text ends, at the latest.
proof fn lemma_digits_bound(t: Seq<char>, a: int)
    requires
        0 <= a,
    ensures
        digits(t, a) == 0 || a + digits(t, a) <= t.len(),
    decreases t.len() - a,
{
    if a < t.len() && is_digit(t[a]) {
        lemma_digits_bound(t, a + 1);
    }
}

/// A decimal that is written is read as itself, where nothing that could
/// carry a number on follows it.
proof fn lemma_decimal_at(s: Seq<char>, pos: int, t: Seq<char>)
    requires
        is_decimal(t),
        word_at(s, pos, t),
        pos + t.len() == s.len() || !carries_on(s[pos + t.len()]),
    ensures
        number_at(s, pos) == Some((ValueView::Decimal(t), t.len())),
        t.len() >= 1,
        is_digit(s[pos]) || s[pos] == '-',
{
    assert(number_len(t, 0) == Some(t.len()));
    lemma_number_len_same(s, pos, t);
    lemma_decimal_value_same(s, pos, t, t.len());
    assert(t.subrange(0, t.len() as int) =~= t);
    lemma_digits_bound(t, 0);
    lemma_digits_bound(t, 1);
    assert(t.len() >= 1);
    lemma_word_char(s, pos, t, 0);
}

/// A number that is written alone is read as itself.
pub proof fn lemma_number_of_text(v: ValueView)
    requires
        v is Number || (v matches ValueView::Decimal(t) && is_decimal(t)),
    ensures
        number_text(v) matches Some(t) && number_of(t) == Some(v),
{
    match v {
        ValueView::Number(n) => {
            let t = decimal(n as nat);
            assert(t.subrange(0, t.len() as int) =~= t);
            lemma_number_at(t, 0, n);
        },
        _ => {},
    }
}

/// A text that is written in quotes is read, from behind the opening quote,
/// as itself.
proof fn lemma_text_at(t: Seq<char>, i: int, s: Seq<char>, pos: int)
    requires
        0 <= i <= t.len(),
        word_at(s, pos, escaped_from(t, i) + seq!['"']),
    ensures
        text_at(s, pos) == Some((t.subrange(i, t.len() as int), escaped_from(t, i).len() + 1)),
    decreases t.len() - i,
{
    if i == t.len() {
        assert(escaped_from(t, i) + seq!['"'] =~= seq!['"']);
        lemma_word_char(s, pos, seq!['"'], 0);
        assert(t.subrange(i, t.len() as int) =~= Seq::<char>::empty());
    } else {
        let c = t[i];
        let e = escaped(c);
        let tail = escaped_from(t, i + 1) + seq!['"'];
        assert(escaped_from(t, i) + seq!['"'] =~= e + tail);
        lemma_word_split(s, pos, e, tail);
        lemma_text_at(t, i + 1, s, pos + e.len());
        let rest = t.subrange(i + 1, t.len() as int);
        assert(seq![c] + rest =~= t.subrange(i, t.len() as int));
        lemma_word_char(s, pos, e, 0);
        if c == '"' || c == '\\' {
            lemma_word_char(s, pos, e, 1);
        } else if is_control(c) {
            lemma_word_char(s, pos, e, 1);
            lemma_word_char(s, pos, e, 2);
            lemma_word_char(s, pos, e, 3);
            lemma_word_char(s, pos, e, 4);
            lemma_word_char(s, pos, e, 5);
            lemma_char_code(c);
            let hi = (code(c) / 16) as nat;
            let lo = (code(c) % 16) as nat;
            assert(hex_of(hex_char(hi)) == Some(hi));
            assert(hex_of(hex_char(lo)) == Some(lo));
            assert(hex_of('0') == Some(0nat));
            assert(hex4_at(s, pos + 2) == Some(code(c) as nat));
            assert(escape_at(s, pos) == Some((c, 6nat)));
        } else {
        }
    }
}

/// No blanks stand where something else does.
proof fn lemma_no_spaces(s: Seq<char>, pos: int)
    requires
        0 <= pos < s.len(),
        !is_space(s[pos]),
    ensures
        spaces(s, pos) == 0,
{
}

/// A text that is written in quotes has its opening quote where it stands
/// and is read from behind that quote as itself.
proof fn lemma_quoted_at(t: Seq<char>, s: Seq<char>, pos: int)
    requires
        word_at(s, pos, quoted(t)),
    ensures
        quoted(t).len() >= 2,
        s[pos] == '"',
        text_at(s, pos + 1) == Some((t, (quoted(t).len() - 1) as nat)),
{
    let body = escaped_from(t, 0) + seq!['"'];
    assert(quoted(t) =~= seq!['"'] + body);
    lemma_word_split(s, pos, seq!['"'], body);
    lemma_word_char(s, pos, quoted(t), 0);
    lemma_text_at(t, 0, s, pos + 1);
    assert(t.subrange(0, t.len() as int) =~= t);
}

/// One of the words `null`, `true` and `false` that is written is read as
/// what it stands for.
proof fn lemma_word_value_at(v: ValueView, s: Seq<char>, pos: int, depth: nat)
    requires
        v is Null || v is Bool,
        word_at(s, pos, printed(v)),
    ensures
        value_at(s, pos, depth) == Some((v, printed(v).len())),
{
    let yes = seq!['t', 'r', 'u', 'e'];
    let no = seq!['f', 'a', 'l', 's', 'e'];
    lemma_word_char(s, pos, printed(v), 0);
    lemma_no_spaces(s, pos);
    if printed(v) != yes && word_at(s, pos, yes) {
        lemma_word_char(s, pos, yes, 0);
    }
    if printed(v) != no && word_at(s, pos, no) {
        lemma_word_char(s, pos, no, 0);
    }
}

/// A number that is written is read as itself, where nothing that could
/// carry it on follows it.
proof fn lemma_number_value_at(v: ValueView, s: Seq<char>, pos: int, depth: nat)
    requires
        v is Number || (v matches ValueView::Decimal(t) && is_decimal(t)),
        word_at(s, pos, printed(v)),
        pos + printed(v).len() == s.len() || !carries_on(s[pos + printed(v).len()]),
    ensures
        value_at(s, pos, depth) == Some((v, printed(v).len())),
{
    match v {
        ValueView::Number(n) => {
            lemma_decimal_digits(n as nat);
            lemma_word_char(s, pos, printed(v), 0);
            lemma_number_at(s, pos, n);
        },
        ValueView::Decimal(t) => {
            lemma_decimal_at(s, pos, t);
        },
        _ => {},
    }
    lemma_no_spaces(s, pos);
}

/// A text that is written is read as itself.
proof fn lemma_text_value_at(t: Seq<char>, s: Seq<char>, pos: int, depth: nat)
    requires
        word_at(s, pos, quoted(t)),
    ensures
        value_at(s, pos, depth) == Some((ValueView::Text(t), quoted(t).len())),
{
    lemma_quoted_at(t, s, pos);
    lemma_no_spaces(s, pos);
}

/// Where the parts of a member that is written stand: its name, the colon,
/// its value, and behind that either the brace that closes the object or a
/// comma and the members that follow.
proof fn lemma_member_layout(ms: Members, i: int, s: Seq<char>, pos: int)
    requires
        0 <= i < ms.len(),
        word_at(s, pos, printed_from(ms, i)),
    ensures
        ({
            let q = quoted(ms[i].0);
            let pv = printed(ms[i].1);
            let c = pos + q.len();
            let e = c + 1 + pv.len();
            &&& word_at(s, pos, q)
            &&& c < s.len() && s[c] == ':'
            &&& word_at(s, c + 1, pv)
            &&& e < s.len()
            &&& if i + 1 < ms.len() {
                &&& s[e] == ','
                &&& word_at(s, e + 1, printed_from(ms, i + 1))
                &&& printed_from(ms, i).len() == e + 1 - pos + printed_from(ms, i + 1).len()
            } else {
                &&& s[e] == '}'
                &&& printed_from(ms, i).len() == e + 1 - pos
            }
        }),
{
    let q = quoted(ms[i].0);
    let colon = seq![':'];
    let pv = printed(ms[i].1);
    let rest = printed_from(ms, i + 1);
    let c = pos + q.len();
    let e = c + 1 + pv.len();
    if i + 1 < ms.len() {
        let comma = seq![','];
        assert(printed_from(ms, i) == q + colon + pv + comma + rest);
        lemma_word_split(s, pos, q + colon + pv + comma, rest);
        lemma_word_split(s, pos, q + colon + pv, comma);
        lemma_word_split(s, pos, q + colon, pv);
        lemma_word_split(s, pos, q, colon);
        lemma_word_char(s, c, colon, 0);
        lemma_word_char(s, e, comma, 0);
    } else {
        assert(rest =~= seq!['}']);
        assert(printed_from(ms, i) =~= q + colon + pv + rest);
        lemma_word_split(s, pos, q + colon + pv, rest);
        lemma_word_split(s, pos, q + colon, pv);
        lemma_word_split(s, pos, q, colon);
        lemma_word_char(s, c, colon, 0);
        lemma_word_char(s, e, rest, 0);
    }
}

/// A value that is written is read as itself, where it can be read back at
/// all and nothing that could carry a number on follows a number.
pub proof fn lemma_value_at(v: ValueView, s: Seq<char>, pos: int, depth: nat)
    requires
        word_at(s, pos, printed(v)),
        legible(v, depth),
        v is Number || v is Decimal ==> pos + printed(v).len() == s.len() || !carries_on(
            s[pos + printed(v).len()],
        ),
    ensures
        value_at(s, pos, depth) == Some((v, printed(v).len())),
    decreases v, 0nat,
{
    match v {
        ValueView::Null => {
            lemma_word_value_at(v, s, pos, depth);
        },
        ValueView::Bool(_) => {
            lemma_word_value_at(v, s, pos, depth);
        },
        ValueView::Number(_) => {
            lemma_number_value_at(v, s, pos, depth);
        },
        ValueView::Decimal(_) => {
            lemma_number_value_at(v, s, pos, depth);
        },
        ValueView::Text(t) => {
            lemma_text_value_at(t, s, pos, depth);
        },
        ValueView::Object(ms) => {
            lemma_word_char(s, pos, printed(v), 0);
            lemma_no_spaces(s, pos);
            lemma_word_split(s, pos, seq!['{'], printed_from(ms, 0));
            lemma_members_at(ms, 0, s, pos + 1, (depth - 1) as nat, true);
            assert(ms.subrange(0, ms.len() as int) =~= ms);
        },
    }
}

/// How members are read where nothing is written between their parts: the
/// name in quotes at `pos`, the colon behind it, the value behind that, and
/// then the closing brace, or a comma and more members.
proof fn lemma_members_step(
    s: Seq<char>,
    pos: int,
    depth: nat,
    first: bool,
    name: Seq<char>,
    k: nat,
    value: ValueView,
    n: nat,
)
    requires
        0 <= pos < s.len(),
        s[pos] == '"',
        text_at(s, pos + 1) == Some((name, k)),
        pos + 1 + k < s.len(),
        s[pos + 1 + k] == ':',
        value_at(s, pos + 1 + k + 1, depth) == Some((value, n)),
        pos + 1 + k + 1 + n < s.len(),
        s[pos + 1 + k + 1 + n] == '}' || s[pos + 1 + k + 1 + n] == ',',
    ensures
        ({
            let e = pos + 1 + k + 1 + n;
            members_at(s, pos, depth, first) == (if s[e] == '}' {
                Some((seq![(name, value)], (e + 1 - pos) as nat))
            } else {
                match members_at(s, e + 1, depth, false) {
                    None => None,
                    Some((rest, m)) => Some((seq![(name, value)] + rest, (e + 1 - pos) as nat + m)),
                }
            })
        }),
{
    let c = pos + 1 + k;
    let e = c + 1 + n;
    lemma_no_spaces(s, pos);
    lemma_no_spaces(s, c);
    lemma_no_spaces(s, e);
}

/// What is read where member `i` stands, given what its name, its value
/// and the members behind it are read as: the name takes `k` characters
/// behind its opening quote, the value `n`, the members from `i` on `total`
/// and those behind member `i`, if there are any, `behind`.
proof fn lemma_members_join(
    ms: Members,
    i: int,
    s: Seq<char>,
    pos: int,
    depth: nat,
    first: bool,
    k: nat,
    n: nat,
    total: nat,
    behind: nat,
)
    requires
        0 <= i < ms.len(),
        0 <= pos < s.len(),
        s[pos] == '"',
        text_at(s, pos + 1) == Some((ms[i].0, k)),
        pos + 1 + k < s.len(),
        s[pos + 1 + k] == ':',
        value_at(s, pos + 1 + k + 1, depth) == Some((ms[i].1, n)),
        pos + 1 + k + 1 + n < s.len(),
        i + 1 < ms.len() ==> {
            &&& s[pos + 1 + k + 1 + n] == ','
            &&& total == 1 + k + 1 + n + 1 + behind
            &&& members_at(s, pos + 1 + k + 1 + n + 1, depth, false) == Some(
                (ms.subrange(i + 1, ms.len() as int), behind),
            )
        },
        i + 1 == ms.len() ==> {
            &&& s[pos + 1 + k + 1 + n] == '}'
            &&& total == 1 + k + 1 + n + 1
        },
    ensures
        members_at(s, pos, depth, first) == Some((ms.subrange(i, ms.len() as int), total)),
{
    let member = (ms[i].0, ms[i].1);
    lemma_members_step(s, pos, depth, first, ms[i].0, k, ms[i].1, n);
    if i + 1 < ms.len() {
        assert(seq![member] + ms.subrange(i + 1, ms.len() as int) =~= ms.subrange(
            i,
            ms.len() as int,
        ));
    } else {
        assert(seq![member] =~= ms.subrange(i, ms.len() as int));
    }
}

/// Members that are written are read as themselves.
pub proof fn lemma_members_at(
    ms: Members,
    i: int,
    s: Seq<char>,
    pos: int,
    depth: nat,
    first: bool,
)
    requires
        0 <= i <= ms.len(),
        i < ms.len() || first,
        word_at(s, pos, printed_from(ms, i)),
        forall|j: int| 0 <= j < ms.len() ==> legible(#[trigger] ms[j].1, depth),
    ensures
        members_at(s, pos, depth, first) == Some(
            (ms.subrange(i, ms.len() as int), printed_from(ms, i).len()),
        ),
    decreases ms, ms.len() - i,
{
    if i == ms.len() {
        lemma_word_char(s, pos, printed_from(ms, i), 0);
        lemma_no_spaces(s, pos);
        assert(ms.subrange(i, ms.len() as int) =~= Seq::<(Seq<char>, ValueView)>::empty());
    } else {
        let k = (quoted(ms[i].0).len() - 1) as nat;
        let n = printed(ms[i].1).len();
        let e = pos + 1 + k + 1 + n;
        lemma_member_layout(ms, i, s, pos);
        lemma_quoted_at(ms[i].0, s, pos);
        lemma_value_at(ms[i].1, s, pos + 1 + k + 1, depth);
        if i + 1 < ms.len() {
            lemma_members_at(ms, i + 1, s, e + 1, depth, false);
        }
        lemma_members_join(
            ms,
            i,
            s,
            pos,
            depth,
            first,
            k,
            n,
            printed_from(ms, i).len(),
            printed_from(ms, i + 1).len(),
        );
    }
}

/// A value that can be read back is read from its text as itself: one in
/// which objects stand no deeper than `MAX_DEPTH` and every `Decimal` holds
/// what a `Decimal` may.
pub proof fn lemma_parsed_printed(v: ValueView)
    requires
        legible(v, MAX_DEPTH as nat),
    ensures
        parsed(printed(v)) == Ok::<ValueView, DecodeError>(v),
{
    let s = printed(v);
    assert(s.subrange(0, s.len() as int) =~= s);
    lemma_value_at(v, s, 0, MAX_DEPTH as nat);
}

} // verus!
