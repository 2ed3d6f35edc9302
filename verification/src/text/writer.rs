//! Writing a value out as text.

use crate::chars::{chars_of, push_char, text_view};
use crate::text::grammar::{
    decimal, digit_char, escaped, escaped_from, hex_char, number_text, printed, printed_from,
    quoted,
};
use crate::value::{lemma_object_view, members_view, Value};
use vstd::prelude::*;

verus! {

/// The digit that stands for `d`.
fn digit(d: u8) -> (c: char)
    requires
        d < 10,
    ensures
        c == digit_char(d as nat),
{
    (48u8 + d) as char
}

/// The lower-case hexadecimal digit that stands for `d`.
fn hex_digit(d: u8) -> (c: char)
    requires
        d < 16,
    ensures
        c == hex_char(d as nat),
{
    if d < 10 {
        (48u8 + d) as char
    } else {
        (87u8 + d) as char
    }
}

/// Adds the decimal digits of `n` to `out`.
fn write_number(n: u64, out: &mut String)
    ensures
        final(out)@ == old(out)@ + decimal(n as nat),
    decreases n,
{
    if n >= 10 {
        write_number(n / 10, out);
    }
    push_char(out, digit((n % 10) as u8));
    assert(out@ =~= old(out)@ + decimal(n as nat));
}

/// Adds to `out` what `c` is written as inside quotes.
fn write_escaped(c: char, out: &mut String)
    ensures
        final(out)@ == old(out)@ + escaped(c),
{
    let n = c as u32;
    if c == '"' {
        push_char(out, '\\');
        push_char(out, '"');
    } else if c == '\\' {
        push_char(out, '\\');
        push_char(out, '\\');
    } else if n < 32 {
        push_char(out, '\\');
        push_char(out, 'u');
        push_char(out, '0');
        push_char(out, '0');
        push_char(out, hex_digit((n / 16) as u8));
        push_char(out, hex_digit((n % 16) as u8));
    } else {
        push_char(out, c);
    }
    assert(out@ =~= old(out)@ + escaped(c));
}

/// Adds the text `t` to `out`, in quotes.
fn write_quoted(t: &str, out: &mut String)
    ensures
        final(out)@ == old(out)@ + quoted(t@),
{
    let ghost before = out@;
    let cs = chars_of(t);
    push_char(out, '"');
    let mut i: usize = 0;
    while i < cs.len()
        invariant
            i <= cs.len(),
            cs@ == t@,
            out@ + escaped_from(cs@, i as int) == before + seq!['"'] + escaped_from(cs@, 0),
        decreases cs.len() - i,
    {
        let ghost sofar = out@;
        write_escaped(cs[i], out);
        i += 1;
        assert(out@ + escaped_from(cs@, i as int) =~= sofar + escaped_from(cs@, i - 1));
    }
    push_char(out, '"');
    assert(out@ =~= before + quoted(t@));
}

/// Adds to `out` the text that `v` is written as.
pub fn write_value(v: &Value, out: &mut String)
    ensures
        final(out)@ == old(out)@ + printed(v@),
    decreases v,
{
    let ghost before = out@;
    match v {
        Value::Null => {
            out.append("null");
            proof {
                reveal_strlit("null");
                assert("null"@ =~= seq!['n', 'u', 'l', 'l']);
            }
        },
        Value::Bool(true) => {
            out.append("true");
            proof {
                reveal_strlit("true");
                assert("true"@ =~= seq!['t', 'r', 'u', 'e']);
            }
        },
        Value::Bool(false) => {
            out.append("false");
            proof {
                reveal_strlit("false");
                assert("false"@ =~= seq!['f', 'a', 'l', 's', 'e']);
            }
        },
        Value::Number(n) => {
            write_number(*n, out);
        },
        Value::Decimal(t) => {
            out.append(t.as_str());
        },
        Value::Text(t) => {
            write_quoted(t.as_str(), out);
        },
        Value::Object(fields) => {
            proof {
                lemma_object_view(*fields);
            }
            let ghost ms = members_view(fields@);
            push_char(out, '{');
            let mut i: usize = 0;
            while i < fields.len()
                invariant
                    i <= fields.len(),
                    ms == members_view(fields@),
                    v@ == crate::value::ValueView::Object(ms),
                    decreases_to!(v => fields),
                    out@ + printed_from(ms, i as int) == before + seq!['{'] + printed_from(ms, 0),
                decreases fields.len() - i,
            {
                let ghost sofar = out@;
                write_quoted(fields[i].0.as_str(), out);
                push_char(out, ':');
                write_value(&fields[i].1, out);
                if i + 1 < fields.len() {
                    push_char(out, ',');
                }
                i += 1;
                assert(out@ + printed_from(ms, i as int) =~= sofar + printed_from(ms, i - 1));
            }
            let ghost sofar = out@;
            push_char(out, '}');
            assert(printed_from(ms, i as int) =~= seq!['}']);
            assert(out@ =~= sofar + printed_from(ms, i as int));
            assert(printed(v@) == seq!['{'] + printed_from(ms, 0));
            assert(before + seq!['{'] + printed_from(ms, 0) =~= before + printed(v@));
        },
    }
}

impl Value {
    /// The characters that this number is written with; `None` where this
    /// value is no number.
    pub fn number_text(&self) -> (r: Option<String>)
        ensures
            text_view(r) == number_text(self@),
    {
        match self {
            Value::Number(_) => Some(self.to_text()),
            Value::Decimal(t) => Some(t.clone()),
            _ => None,
        }
    }

    /// The text that this value is written as.
    pub fn to_text(&self) -> (r: String)
        ensures
            r@ == printed(self@),
    {
        let mut out = String::new();
        write_value(self, &mut out);
        assert(out@ =~= printed(self@));
        out
    }
}

} // verus!
