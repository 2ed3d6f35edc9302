//! The `HEARTBEAT` payload.

use crate::chars::text_view;
use crate::error::{outcome, DecodeError};
use crate::payloads::op::OpCode;
use crate::text::grammar::{legible, lemma_legible_flat, parsed, printed, MAX_DEPTH};
use crate::text::round_trip::lemma_parsed_printed;
use crate::value::{
    get_optional_text, lemma_member_absent, lemma_member_found,
    optional_text, put_optional_text, text_member, Value, ValueView,
};
use vstd::prelude::*;

verus! {

/// Represents a `HEARTBEAT` payload, which either side sends to learn whether
/// the other is still there.
///
/// Its operation code is [`OpCode::Heartbeat`]. The code is no field that
/// could be set to another: the type fixes it, `op` gives it, and the encoded
/// form carries it as the member `op`.
#[derive(Clone, Debug, PartialEq, Eq)]
pub struct Heartbeat {
    /// The authentication token of the connection. An absent token is not an
    /// empty one.
    pub token: Option<String>,
}

/// What a [`Heartbeat`] holds, as plain values.
pub struct HeartbeatView {
    pub token: Option<Seq<char>>,
}

impl View for Heartbeat {
    type V = HeartbeatView;

    open spec fn view(&self) -> HeartbeatView {
        HeartbeatView { token: text_view(self.token) }
    }
}

impl Heartbeat {
    /// Returns a `HEARTBEAT` payload with the token specified, if given. The
    /// token is kept as it is; nothing is checked of it.
    pub fn new(token: Option<String>) -> (r: Heartbeat)
        ensures
            r.token == token,
    {
        Heartbeat { token }
    }

    /// The operation code of every `HEARTBEAT` payload.
    pub fn op(&self) -> (r: OpCode)
        ensures
            r == OpCode::Heartbeat,
    {
        OpCode::Heartbeat
    }

    /// The object that a `HEARTBEAT` payload is written as: the tag and,
    /// where there is a token, the member `token`.
    pub open spec fn written(v: HeartbeatView) -> ValueView {
        ValueView::Object(OpCode::Heartbeat.tag() + text_member("token"@, v.token))
    }

    /// The `HEARTBEAT` payload that a value is read as. The value is to be
    /// an object tagged `Heartbeat`; `token` is a text, or absent.
    pub open spec fn read(v: ValueView) -> Result<HeartbeatView, DecodeError> {
        match v.members() {
            Err(e) => Err(e),
            Ok(ms) => match OpCode::Heartbeat.tag_error(ms) {
                Some(e) => Err(e),
                None => match optional_text(ms, "token"@) {
                    Err(e) => Err(e),
                    Ok(token) => Ok(HeartbeatView { token }),
                },
            },
        }
    }

    /// Writes this payload as a value.
    pub fn to_value(&self) -> (r: Value)
        ensures
            r@ == Heartbeat::written(self@),
    {
        let mut fields = OpCode::Heartbeat.tagged();
        put_optional_text(&mut fields, "token", &self.token);
        Value::object(fields)
    }

    /// Reads a `HEARTBEAT` payload from a value.
    pub fn from_value(v: &Value) -> (r: Result<Heartbeat, DecodeError>)
        ensures
            outcome(r) == Heartbeat::read(v@),
    {
        let fields = match v.as_object() {
            Err(e) => {
                return Err(e);
            },
            Ok(fields) => fields,
        };
        match OpCode::Heartbeat.check_tag(fields) {
            Err(e) => {
                return Err(e);
            },
            Ok(_) => {},
        }
        match get_optional_text(fields, "token") {
            Err(e) => Err(e),
            Ok(token) => Ok(Heartbeat { token }),
        }
    }

    /// A `HEARTBEAT` payload that is written and read again is what it was:
    /// with the token it had, or with none.
    pub proof fn lemma_read_written(v: HeartbeatView)
        ensures
            Heartbeat::read(Heartbeat::written(v)) == Ok::<HeartbeatView, DecodeError>(v),
    {
        reveal_strlit("op");
        reveal_strlit("token");
        assert("op"@.len() == 2 && "token"@.len() == 5);
        OpCode::lemma_named_wire_name(OpCode::Heartbeat);
        let ms = Heartbeat::written(v)->Object_0;
        lemma_member_found(ms, 0, "op"@);
        match v.token {
            Some(t) => {
                lemma_member_found(ms, 1, "token"@);
            },
            None => {
                lemma_member_absent(ms, "token"@);
            },
        }
    }

    /// The text that a payload is encoded as: that of the object it is
    /// written as.
    pub open spec fn encoded(v: HeartbeatView) -> Seq<char> {
        printed(Heartbeat::written(v))
    }

    /// What decoding a text comes to: the payload that the value of the text
    /// is read as, or the reason why there is none.
    pub open spec fn decoded(s: Seq<char>) -> Result<HeartbeatView, DecodeError> {
        match parsed(s) {
            Err(e) => Err(e),
            Ok(v) => Heartbeat::read(v),
        }
    }

    /// Encodes this payload as text.
    pub fn encode(&self) -> (r: String)
        ensures
            r@ == Heartbeat::encoded(self@),
    {
        self.to_value().to_text()
    }

    /// Decodes a payload from text. Where the text is no payload of this
    /// kind, the error says why, and nothing is made up in its place.
    pub fn decode(text: &str) -> (r: Result<Heartbeat, DecodeError>)
        ensures
            outcome(r) == Heartbeat::decoded(text@),
    {
        match Value::from_text(text) {
            Err(e) => Err(e),
            Ok(v) => Heartbeat::from_value(&v),
        }
    }

    /// The object that a payload is written as can be read back from its
    /// text.
    pub proof fn lemma_written_legible(v: HeartbeatView)
        ensures
            legible(Heartbeat::written(v), MAX_DEPTH as nat),
    {
        lemma_legible_flat(Heartbeat::written(v)->Object_0, MAX_DEPTH as nat);
    }

    /// A payload that is encoded and decoded again is what it was, field
    /// for field, and an absent field is absent again.
    pub proof fn lemma_decode_encode(v: HeartbeatView)
        ensures
            Heartbeat::decoded(Heartbeat::encoded(v)) == Ok::<HeartbeatView, DecodeError>(v),
    {
        Heartbeat::lemma_written_legible(v);
        lemma_parsed_printed(Heartbeat::written(v));
        Heartbeat::lemma_read_written(v);
    }
}

} // verus!
