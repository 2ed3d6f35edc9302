//! The `HELLO` payload.

use crate::error::{outcome, DecodeError};
use crate::payloads::op::OpCode;
use crate::text::grammar::{legible, lemma_legible_flat, parsed, printed, MAX_DEPTH};
use crate::text::round_trip::lemma_parsed_printed;
use crate::value::{
    get_number, get_text, lemma_member_found, put, required_number,
    required_text, Value, ValueView,
};
use rand::Rng;
use vstd::prelude::*;

verus! {

/// The least heartbeat interval a gateway announces, in seconds.
pub const MIN_INTERVAL: u8 = 30;

/// The bound that every announced heartbeat interval stays below, in seconds.
pub const END_INTERVAL: u8 = 60;

/// Represents a `HELLO` payload: what a gateway sends once, as soon as a
/// connection is made.
///
/// Its operation code is [`OpCode::Hello`]. The code is no field that could
/// be set to another: the type fixes it, `op` gives it, and the encoded form
/// carries it as the member `op`.
#[derive(Clone, Debug, PartialEq, Eq)]
pub struct Hello {
    /// The amount of time a heartbeat should be sent in seconds.
    pub heartbeat_interval: u8,
    /// The current version of the Gateway, e.g. "v1"
    pub version: String,
}

/// What a [`Hello`] holds, as plain values.
pub struct HelloView {
    pub heartbeat_interval: u8,
    pub version: Seq<char>,
}

impl View for Hello {
    type V = HelloView;

    open spec fn view(&self) -> HelloView {
        HelloView { heartbeat_interval: self.heartbeat_interval, version: self.version@ }
    }
}

/// Draws one number with `rand::thread_rng().gen_range(low..high)`. Of the
/// number drawn only its range is stated: `gen_range` samples the half-open
/// range it is given, and of its arguments only an empty range makes it
/// panic. Which number comes is left open, so two calls need not agree.
/// `thread_rng` hands out the generator of the calling thread, which the
/// system seeds on first use; it panics where the system has no seed to
/// give, whatever is asked of it.
#[verifier::external_body]
fn draw_interval(low: u8, high: u8) -> (r: u8)
    requires
        low < high,
    ensures
        low <= r < high,
{
    rand::thread_rng().gen_range(low..high)
}

impl Hello {
    /// The operation code of every `HELLO` payload.
    pub fn op(&self) -> (r: OpCode)
        ensures
            r == OpCode::Hello,
    {
        OpCode::Hello
    }

    /// The `HELLO` payload of protocol version "v1" that announces
    /// `heartbeat_interval`: what `default` makes of the interval it has
    /// drawn. A gateway that greets a connection calls `default`; this is for
    /// whoever has an interval already, and keeps it whatever it is.
    pub fn with_interval(heartbeat_interval: u8) -> (r: Hello)
        ensures
            r@ == (HelloView { heartbeat_interval, version: "v1"@ }),
    {
        Hello { heartbeat_interval, version: "v1".to_owned() }
    }

    /// The object that a `HELLO` payload is written as: the tag, the member
    /// `heartbeat_interval` and the member `version`.
    pub open spec fn written(v: HelloView) -> ValueView {
        ValueView::Object(
            OpCode::Hello.tag().push(
                ("heartbeat_interval"@, ValueView::Number(v.heartbeat_interval as u64)),
            ).push(("version"@, ValueView::Text(v.version))),
        )
    }

    /// The `HELLO` payload that a value is read as. The value is to be an
    /// object tagged `Hello`, with a number under 256 as `heartbeat_interval`
    /// and a text as `version`.
    pub open spec fn read(v: ValueView) -> Result<HelloView, DecodeError> {
        match v.members() {
            Err(e) => Err(e),
            Ok(ms) => match OpCode::Hello.tag_error(ms) {
                Some(e) => Err(e),
                None => match required_number(ms, "heartbeat_interval"@, u8::MAX as u64) {
                    Err(e) => Err(e),
                    Ok(interval) => match required_text(ms, "version"@) {
                        Err(e) => Err(e),
                        Ok(version) => Ok(
                            HelloView { heartbeat_interval: interval as u8, version },
                        ),
                    },
                },
            },
        }
    }

    /// Writes this payload as a value.
    pub fn to_value(&self) -> (r: Value)
        ensures
            r@ == Hello::written(self@),
    {
        let mut fields = OpCode::Hello.tagged();
        put(&mut fields, "heartbeat_interval", Value::Number(self.heartbeat_interval as u64));
        put(&mut fields, "version", Value::Text(self.version.clone()));
        Value::object(fields)
    }

    /// Reads a `HELLO` payload from a value. An interval outside the range
    /// that `default` draws from is read as it stands.
    pub fn from_value(v: &Value) -> (r: Result<Hello, DecodeError>)
        ensures
            outcome(r) == Hello::read(v@),
    {
        let fields = match v.as_object() {
            Err(e) => {
                return Err(e);
            },
            Ok(fields) => fields,
        };
        match OpCode::Hello.check_tag(fields) {
            Err(e) => {
                return Err(e);
            },
            Ok(_) => {},
        }
        let interval = match get_number(fields, "heartbeat_interval", u8::MAX as u64) {
            Err(e) => {
                return Err(e);
            },
            Ok(interval) => interval,
        };
        match get_text(fields, "version") {
            Err(e) => Err(e),
            Ok(version) => Ok(Hello { heartbeat_interval: interval as u8, version }),
        }
    }

    /// A `HELLO` payload that is written and read again is what it was,
    /// field for field.
    pub proof fn lemma_read_written(v: HelloView)
        ensures
            Hello::read(Hello::written(v)) == Ok::<HelloView, DecodeError>(v),
    {
        reveal_strlit("op");
        reveal_strlit("heartbeat_interval");
        reveal_strlit("version");
        assert("op"@.len() == 2 && "heartbeat_interval"@.len() == 18 && "version"@.len() == 7);
        OpCode::lemma_named_wire_name(OpCode::Hello);
        let ms = Hello::written(v)->Object_0;
        lemma_member_found(ms, 0, "op"@);
        lemma_member_found(ms, 1, "heartbeat_interval"@);
        lemma_member_found(ms, 2, "version"@);
    }

    /// The text that a payload is encoded as: that of the object it is
    /// written as.
    pub open spec fn encoded(v: HelloView) -> Seq<char> {
        printed(Hello::written(v))
    }

    /// What decoding a text comes to: the payload that the value of the text
    /// is read as, or the reason why there is none.
    pub open spec fn decoded(s: Seq<char>) -> Result<HelloView, DecodeError> {
        match parsed(s) {
            Err(e) => Err(e),
            Ok(v) => Hello::read(v),
        }
    }

    /// Encodes this payload as text.
    pub fn encode(&self) -> (r: String)
        ensures
            r@ == Hello::encoded(self@),
    {
        self.to_value().to_text()
    }

    /// Decodes a payload from text. Where the text is no payload of this
    /// kind, the error says why, and nothing is made up in its place.
    pub fn decode(text: &str) -> (r: Result<Hello, DecodeError>)
        ensures
            outcome(r) == Hello::decoded(text@),
    {
        match Value::from_text(text) {
            Err(e) => Err(e),
            Ok(v) => Hello::from_value(&v),
        }
    }

    /// The object that a payload is written as can be read back from its
    /// text.
    pub proof fn lemma_written_legible(v: HelloView)
        ensures
            legible(Hello::written(v), MAX_DEPTH as nat),
    {
        lemma_legible_flat(Hello::written(v)->Object_0, MAX_DEPTH as nat);
    }

    /// A payload that is encoded and decoded again is what it was, field
    /// for field, and an absent field is absent again.
    pub proof fn lemma_decode_encode(v: HelloView)
        ensures
            Hello::decoded(Hello::encoded(v)) == Ok::<HelloView, DecodeError>(v),
    {
        Hello::lemma_written_legible(v);
        lemma_parsed_printed(Hello::written(v));
        Hello::lemma_read_written(v);
    }
}

impl Default for Hello {
    /// A `HELLO` payload of protocol version "v1" whose heartbeat interval is
    /// drawn at random from `MIN_INTERVAL` up to, and without, `END_INTERVAL`.
    /// Two calls need not agree.
    fn default() -> (r: Hello)
        ensures
            MIN_INTERVAL <= r.heartbeat_interval < END_INTERVAL,
            r.version@ == "v1"@,
    {
        Hello::with_interval(draw_interval(MIN_INTERVAL, END_INTERVAL))
    }
}

} // verus!
