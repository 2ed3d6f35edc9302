//! The `TERMINATE` payload and the closure it explains itself with.

use crate::chars::{same_text, text_view};
use crate::error::{outcome, DecodeError};
use crate::payloads::op::OpCode;
use crate::text::grammar::{legible, lemma_legible_flat, parsed, printed, MAX_DEPTH};
use crate::text::round_trip::lemma_parsed_printed;
use crate::value::{
    get_bool, get_number, get_optional_text, get_required, get_text,
    lemma_member_absent, lemma_member_found, members_view, optional_text, put, put_optional_text,
    required, required_number, required_text, required_truth, text_member, Value, ValueView,
};
use vstd::prelude::*;

verus! {

/// Which side made a closure occur.
#[derive(Clone, Copy, Debug, PartialEq, Eq, Structural)]
pub enum ClosureType {
    /// Caused by the Gateway, such as generic WebSocket closures.
    Gateway,
    /// Caused by the client, such as poorly timed HEARTBEAT responses.
    Client,
}

impl ClosureType {
    /// The discriminant of a variant in the encoded form: its name.
    pub open spec fn wire_name(self) -> Seq<char> {
        match self {
            ClosureType::Gateway => "Gateway"@,
            ClosureType::Client => "Client"@,
        }
    }

    /// The variant a discriminant stands for, if any.
    pub open spec fn named(name: Seq<char>) -> Option<ClosureType> {
        if name == "Gateway"@ {
            Some(ClosureType::Gateway)
        } else if name == "Client"@ {
            Some(ClosureType::Client)
        } else {
            None
        }
    }

    /// The discriminant of this variant.
    pub fn name(&self) -> (r: &'static str)
        ensures
            r@ == self.wire_name(),
    {
        match self {
            ClosureType::Gateway => "Gateway",
            ClosureType::Client => "Client",
        }
    }

    /// The variant that `name` stands for; `None` where it stands for none.
    pub fn from_name(name: &str) -> (r: Option<ClosureType>)
        ensures
            r == ClosureType::named(name@),
    {
        if same_text(name, "Gateway") {
            Some(ClosureType::Gateway)
        } else if same_text(name, "Client") {
            Some(ClosureType::Client)
        } else {
            None
        }
    }

    /// Reading a discriminant back gives the variant it was written for.
    pub proof fn lemma_named_wire_name(fault: ClosureType)
        ensures
            ClosureType::named(fault.wire_name()) == Some(fault),
    {
        reveal_strlit("Gateway");
        reveal_strlit("Client");
        assert("Gateway"@.len() == 7 && "Client"@.len() == 6);
    }

    /// A discriminant that is read as a variant is the one written for it.
    pub proof fn lemma_wire_name_named(name: Seq<char>)
        ensures
            ClosureType::named(name) matches Some(fault) ==> fault.wire_name() == name,
    {
    }
}

/// Represents a connection closure within the Gateway.
#[derive(Clone, Debug, PartialEq, Eq)]
pub struct Closure {
    /// The error code for the closure.
    pub code: u16,
    /// The reason the error occurred. `Closure::new` always fills it in; a
    /// closure that was decoded has none where the sender left it out.
    pub message: Option<String>,
    /// Whether the Gateway or client made the closure occur.
    pub fault: ClosureType,
}

/// What a [`Closure`] holds, as plain values.
pub struct ClosureView {
    pub code: u16,
    pub message: Option<Seq<char>>,
    pub fault: ClosureType,
}

impl View for Closure {
    type V = ClosureView;

    open spec fn view(&self) -> ClosureView {
        ClosureView { code: self.code, message: text_view(self.message), fault: self.fault }
    }
}

impl Closure {
    /// Returns a `Closure` struct with specified values. Where no message is
    /// given, the closure says "Unknown." in its place.
    pub fn new(code: u16, message: Option<String>, fault: ClosureType) -> (r: Closure)
        ensures
            r@ == (ClosureView {
                code,
                message: Some(
                    match message {
                        Some(m) => m@,
                        None => "Unknown."@,
                    },
                ),
                fault,
            }),
    {
        let message = match message {
            Some(m) => m,
            None => "Unknown.".to_owned(),
        };
        Closure { code, message: Some(message), fault }
    }

    /// The object that a closure is written as: the member `code`, the
    /// member `message` where there is one, and the member `fault`.
    pub open spec fn written(v: ClosureView) -> ValueView {
        ValueView::Object(
            seq![("code"@, ValueView::Number(v.code as u64))] + text_member("message"@, v.message)
                + seq![("fault"@, ValueView::Text(v.fault.wire_name()))],
        )
    }

    /// The closure that a value is read as. The value is to be an object
    /// with a number under 65536 as `code` and the name of a variant as
    /// `fault`; `message` is a text, or absent.
    pub open spec fn read(v: ValueView) -> Result<ClosureView, DecodeError> {
        match v.members() {
            Err(e) => Err(e),
            Ok(ms) => match required_number(ms, "code"@, u16::MAX as u64) {
                Err(e) => Err(e),
                Ok(code) => match optional_text(ms, "message"@) {
                    Err(e) => Err(e),
                    Ok(message) => match required_text(ms, "fault"@) {
                        Err(e) => Err(e),
                        Ok(name) => match ClosureType::named(name) {
                            None => Err(DecodeError::UnknownDiscriminant),
                            Some(fault) => Ok(ClosureView { code: code as u16, message, fault }),
                        },
                    },
                },
            },
        }
    }

    /// Writes this closure as a value.
    pub fn to_value(&self) -> (r: Value)
        ensures
            r@ == Closure::written(self@),
    {
        let mut fields: Vec<(String, Value)> = Vec::new();
        assert(members_view(fields@) =~= Seq::<(Seq<char>, ValueView)>::empty());
        put(&mut fields, "code", Value::Number(self.code as u64));
        put_optional_text(&mut fields, "message", &self.message);
        put(&mut fields, "fault", Value::Text(self.fault.name().to_owned()));
        assert(members_view(fields@) =~= Closure::written(self@)->Object_0);
        Value::object(fields)
    }

    /// Reads a closure from a value. One without a message is read as it
    /// stands: "Unknown." is what `new` says, not what a sender did.
    pub fn from_value(v: &Value) -> (r: Result<Closure, DecodeError>)
        ensures
            outcome(r) == Closure::read(v@),
    {
        let fields = match v.as_object() {
            Err(e) => {
                return Err(e);
            },
            Ok(fields) => fields,
        };
        let code = match get_number(fields, "code", u16::MAX as u64) {
            Err(e) => {
                return Err(e);
            },
            Ok(code) => code,
        };
        let message = match get_optional_text(fields, "message") {
            Err(e) => {
                return Err(e);
            },
            Ok(message) => message,
        };
        let name = match get_text(fields, "fault") {
            Err(e) => {
                return Err(e);
            },
            Ok(name) => name,
        };
        match ClosureType::from_name(name.as_str()) {
            None => Err(DecodeError::UnknownDiscriminant),
            Some(fault) => Ok(Closure { code: code as u16, message, fault }),
        }
    }

    /// A closure that is written and read again is what it was, field for
    /// field, with its message or without.
    pub proof fn lemma_read_written(v: ClosureView)
        ensures
            Closure::read(Closure::written(v)) == Ok::<ClosureView, DecodeError>(v),
    {
        lemma_member_names();
        ClosureType::lemma_named_wire_name(v.fault);
        let ms = Closure::written(v)->Object_0;
        lemma_member_found(ms, 0, "code"@);
        lemma_member_found(ms, ms.len() - 1, "fault"@);
        match v.message {
            Some(m) => {
                lemma_member_found(ms, 1, "message"@);
            },
            None => {
                lemma_member_absent(ms, "message"@);
            },
        }
    }
}

/// The names of the members differ from one another.
pub proof fn lemma_member_names()
    ensures
        "code"@ != "message"@,
        "code"@ != "fault"@,
        "message"@ != "fault"@,
        "op"@ != "closure"@,
        "op"@ != "healthy"@,
        "op"@ != "iuid"@,
        "closure"@ != "healthy"@,
        "closure"@ != "iuid"@,
        "healthy"@ != "iuid"@,
{
    reveal_strlit("code");
    reveal_strlit("message");
    reveal_strlit("fault");
    reveal_strlit("op");
    reveal_strlit("closure");
    reveal_strlit("healthy");
    reveal_strlit("iuid");
    assert("code"@.len() == 4 && "code"@[0] == 'c');
    assert("message"@.len() == 7 && "message"@[0] == 'm');
    assert("fault"@.len() == 5);
    assert("op"@.len() == 2);
    assert("closure"@.len() == 7 && "closure"@[0] == 'c');
    assert("healthy"@.len() == 7 && "healthy"@[0] == 'h');
    assert("iuid"@.len() == 4 && "iuid"@[0] == 'i');
}

/// Represents a `TERMINATE` payload, by which either side ends a connection
/// and says why.
///
/// Its operation code is [`OpCode::Terminate`]. The code is no field that
/// could be set to another: the type fixes it, `op` gives it, and the encoded
/// form carries it as the member `op`.
#[derive(Clone, Debug, PartialEq, Eq)]
pub struct Terminate {
    /// A set of data pertaining to the closure meaning.
    pub closure: Closure,
    /// Whether the connection can be reconnected to or not.
    pub healthy: bool,
    /// The internal UID related to the `TERMINATE` event.
    pub iuid: String,
}

/// What a [`Terminate`] holds, as plain values.
pub struct TerminateView {
    pub closure: ClosureView,
    pub healthy: bool,
    pub iuid: Seq<char>,
}

impl View for Terminate {
    type V = TerminateView;

    open spec fn view(&self) -> TerminateView {
        TerminateView { closure: self.closure@, healthy: self.healthy, iuid: self.iuid@ }
    }
}

impl Terminate {
    /// Returns a `TERMINATE` payload with specified values. The connection
    /// counts as healthy unless `healthy` says otherwise; the identifier is
    /// kept as it is, and nothing checks that it is the only one of its kind.
    pub fn new(closure: Closure, healthy: Option<bool>, iuid: String) -> (r: Terminate)
        ensures
            r.closure == closure,
            r.healthy == (match healthy {
                Some(h) => h,
                None => true,
            }),
            r.iuid == iuid,
    {
        let healthy = match healthy {
            Some(h) => h,
            None => true,
        };
        Terminate { closure, healthy, iuid }
    }

    /// The operation code of every `TERMINATE` payload.
    pub fn op(&self) -> (r: OpCode)
        ensures
            r == OpCode::Terminate,
    {
        OpCode::Terminate
    }

    /// The object that a `TERMINATE` payload is written as: the tag and the
    /// members `closure`, `healthy` and `iuid`.
    pub open spec fn written(v: TerminateView) -> ValueView {
        ValueView::Object(
            OpCode::Terminate.tag().push(("closure"@, Closure::written(v.closure))).push(
                ("healthy"@, ValueView::Bool(v.healthy)),
            ).push(("iuid"@, ValueView::Text(v.iuid))),
        )
    }

    /// The `TERMINATE` payload that a value is read as. The value is to be
    /// an object tagged `Terminate`, with a closure as `closure`, a truth
    /// value as `healthy` and a text as `iuid`.
    pub open spec fn read(v: ValueView) -> Result<TerminateView, DecodeError> {
        match v.members() {
            Err(e) => Err(e),
            Ok(ms) => match OpCode::Terminate.tag_error(ms) {
                Some(e) => Err(e),
                None => match required(ms, "closure"@) {
                    Err(e) => Err(e),
                    Ok(c) => match Closure::read(c) {
                        Err(e) => Err(e),
                        Ok(closure) => match required_truth(ms, "healthy"@) {
                            Err(e) => Err(e),
                            Ok(healthy) => match required_text(ms, "iuid"@) {
                                Err(e) => Err(e),
                                Ok(iuid) => Ok(TerminateView { closure, healthy, iuid }),
                            },
                        },
                    },
                },
            },
        }
    }

    /// Writes this payload as a value.
    pub fn to_value(&self) -> (r: Value)
        ensures
            r@ == Terminate::written(self@),
    {
        let mut fields = OpCode::Terminate.tagged();
        put(&mut fields, "closure", self.closure.to_value());
        put(&mut fields, "healthy", Value::Bool(self.healthy));
        put(&mut fields, "iuid", Value::Text(self.iuid.clone()));
        Value::object(fields)
    }

    /// Reads a `TERMINATE` payload from a value.
    pub fn from_value(v: &Value) -> (r: Result<Terminate, DecodeError>)
        ensures
            outcome(r) == Terminate::read(v@),
    {
        let fields = match v.as_object() {
            Err(e) => {
                return Err(e);
            },
            Ok(fields) => fields,
        };
        match OpCode::Terminate.check_tag(fields) {
            Err(e) => {
                return Err(e);
            },
            Ok(_) => {},
        }
        let closure = match get_required(fields, "closure") {
            Err(e) => {
                return Err(e);
            },
            Ok(c) => match Closure::from_value(c) {
                Err(e) => {
                    return Err(e);
                },
                Ok(closure) => closure,
            },
        };
        let healthy = match get_bool(fields, "healthy") {
            Err(e) => {
                return Err(e);
            },
            Ok(healthy) => healthy,
        };
        match get_text(fields, "iuid") {
            Err(e) => Err(e),
            Ok(iuid) => Ok(Terminate { closure, healthy, iuid }),
        }
    }

    /// A `TERMINATE` payload that is written and read again is what it was,
    /// field for field.
    pub proof fn lemma_read_written(v: TerminateView)
        ensures
            Terminate::read(Terminate::written(v)) == Ok::<TerminateView, DecodeError>(v),
    {
        lemma_member_names();
        OpCode::lemma_named_wire_name(OpCode::Terminate);
        Closure::lemma_read_written(v.closure);
        let ms = Terminate::written(v)->Object_0;
        lemma_member_found(ms, 0, "op"@);
        lemma_member_found(ms, 1, "closure"@);
        lemma_member_found(ms, 2, "healthy"@);
        lemma_member_found(ms, 3, "iuid"@);
    }

    /// The text that a payload is encoded as: that of the object it is
    /// written as.
    pub open spec fn encoded(v: TerminateView) -> Seq<char> {
        printed(Terminate::written(v))
    }

    /// What decoding a text comes to: the payload that the value of the text
    /// is read as, or the reason why there is none.
    pub open spec fn decoded(s: Seq<char>) -> Result<TerminateView, DecodeError> {
        match parsed(s) {
            Err(e) => Err(e),
            Ok(v) => Terminate::read(v),
        }
    }

    /// Encodes this payload as text.
    pub fn encode(&self) -> (r: String)
        ensures
            r@ == Terminate::encoded(self@),
    {
        self.to_value().to_text()
    }

    /// Decodes a payload from text. Where the text is no payload of this
    /// kind, the error says why, and nothing is made up in its place.
    pub fn decode(text: &str) -> (r: Result<Terminate, DecodeError>)
        ensures
            outcome(r) == Terminate::decoded(text@),
    {
        match Value::from_text(text) {
            Err(e) => Err(e),
            Ok(v) => Terminate::from_value(&v),
        }
    }

    /// The object that a payload is written as can be read back from its
    /// text.
    pub proof fn lemma_written_legible(v: TerminateView)
        ensures
            legible(Terminate::written(v), MAX_DEPTH as nat),
    {
        let ms = Terminate::written(v)->Object_0;
        assert forall|i: int| 0 <= i < ms.len() implies legible(
            #[trigger] ms[i].1,
            (MAX_DEPTH - 1) as nat,
        ) by {
            if i == 1 {
                lemma_legible_flat(Closure::written(v.closure)->Object_0, (MAX_DEPTH - 1) as nat);
            }
        }
    }

    /// A payload that is encoded and decoded again is what it was, field
    /// for field, and an absent field is absent again.
    pub proof fn lemma_decode_encode(v: TerminateView)
        ensures
            Terminate::decoded(Terminate::encoded(v)) == Ok::<TerminateView, DecodeError>(v),
    {
        Terminate::lemma_written_legible(v);
        lemma_parsed_printed(Terminate::written(v));
        Terminate::lemma_read_written(v);
    }
}

} // verus!
