//! Operation codes.

use crate::chars::same_text;
use crate::error::DecodeError;
use crate::text::grammar::parsed;
use crate::value::{get_text, members_view, put, required_text, Members, Value, ValueView};
use vstd::prelude::*;

verus! {

/// The operation a payload performs. Each payload type has exactly one.
#[derive(Clone, Copy, Debug, PartialEq, Eq, Structural)]
pub enum OpCode {
    /// HELLO - upon connecting to the Gateway.
    Hello,
    /// HEARTBEAT - upon request or needing to validate the connection.
    Heartbeat,
    /// HEARTBEAT_ACK - validates the last given HEARTBEAT response.
    HeartbeatAck,
    /// TERMINATE - upon failure to comply to specific conditions.
    Terminate,
    /// DECLARE - upon informing the Gateway of a client's identity.
    Declare,
}

impl OpCode {
    /// The discriminant of a variant in the encoded form: its name.
    pub open spec fn wire_name(self) -> Seq<char> {
        match self {
            OpCode::Hello => "Hello"@,
            OpCode::Heartbeat => "Heartbeat"@,
            OpCode::HeartbeatAck => "HeartbeatAck"@,
            OpCode::Terminate => "Terminate"@,
            OpCode::Declare => "Declare"@,
        }
    }

    /// The variant a discriminant stands for, if any.
    pub open spec fn named(name: Seq<char>) -> Option<OpCode> {
        if name == "Hello"@ {
            Some(OpCode::Hello)
        } else if name == "Heartbeat"@ {
            Some(OpCode::Heartbeat)
        } else if name == "HeartbeatAck"@ {
            Some(OpCode::HeartbeatAck)
        } else if name == "Terminate"@ {
            Some(OpCode::Terminate)
        } else if name == "Declare"@ {
            Some(OpCode::Declare)
        } else {
            None
        }
    }

    /// The discriminant of this variant.
    pub fn name(&self) -> (r: &'static str)
        ensures
            r@ == self.wire_name(),
    {
        match self {
            OpCode::Hello => "Hello",
            OpCode::Heartbeat => "Heartbeat",
            OpCode::HeartbeatAck => "HeartbeatAck",
            OpCode::Terminate => "Terminate",
            OpCode::Declare => "Declare",
        }
    }

    /// The variant that `name` stands for; `None` where it stands for none.
    pub fn from_name(name: &str) -> (r: Option<OpCode>)
        ensures
            r == OpCode::named(name@),
    {
        if same_text(name, "Hello") {
            Some(OpCode::Hello)
        } else if same_text(name, "Heartbeat") {
            Some(OpCode::Heartbeat)
        } else if same_text(name, "HeartbeatAck") {
            Some(OpCode::HeartbeatAck)
        } else if same_text(name, "Terminate") {
            Some(OpCode::Terminate)
        } else if same_text(name, "Declare") {
            Some(OpCode::Declare)
        } else {
            None
        }
    }

    /// Reading a discriminant back gives the variant it was written for.
    pub proof fn lemma_named_wire_name(op: OpCode)
        ensures
            OpCode::named(op.wire_name()) == Some(op),
    {
        OpCode::lemma_names_differ(op, OpCode::Hello);
        OpCode::lemma_names_differ(op, OpCode::Heartbeat);
        OpCode::lemma_names_differ(op, OpCode::HeartbeatAck);
        OpCode::lemma_names_differ(op, OpCode::Terminate);
        OpCode::lemma_names_differ(op, OpCode::Declare);
    }

    /// A discriminant that is read as a variant is the one written for it.
    pub proof fn lemma_wire_name_named(name: Seq<char>)
        ensures
            OpCode::named(name) matches Some(op) ==> op.wire_name() == name,
    {
    }

    /// No two variants share a discriminant.
    pub proof fn lemma_names_differ(a: OpCode, b: OpCode)
        ensures
            a.wire_name() == b.wire_name() <==> a == b,
    {
        reveal_strlit("Hello");
        reveal_strlit("Heartbeat");
        reveal_strlit("HeartbeatAck");
        reveal_strlit("Terminate");
        reveal_strlit("Declare");
        assert("Hello"@.len() == 5);
        assert("Heartbeat"@.len() == 9 && "Heartbeat"@[0] == 'H');
        assert("HeartbeatAck"@.len() == 12);
        assert("Terminate"@.len() == 9 && "Terminate"@[0] == 'T');
        assert("Declare"@.len() == 7);
    }

    /// The operation that the member `op` tags an object with. The member
    /// is to be there and to be a text; a text that names no operation is an
    /// unknown discriminant.
    pub open spec fn tag_of(ms: Members) -> Result<OpCode, DecodeError> {
        match required_text(ms, "op"@) {
            Err(e) => Err(e),
            Ok(name) => match OpCode::named(name) {
                None => Err(DecodeError::UnknownDiscriminant),
                Some(op) => Ok(op),
            },
        }
    }

    /// The operation that a payload in its text is tagged with. The text is
    /// to be that of an object.
    pub open spec fn tag_in(text: Seq<char>) -> Result<OpCode, DecodeError> {
        match parsed(text) {
            Err(e) => Err(e),
            Ok(v) => match v.members() {
                Err(e) => Err(e),
                Ok(ms) => OpCode::tag_of(ms),
            },
        }
    }

    /// The operation that the payload in `text` is tagged with, which tells
    /// the decoder to hand the text to.
    pub fn peek(text: &str) -> (r: Result<OpCode, DecodeError>)
        ensures
            r == OpCode::tag_in(text@),
    {
        match Value::from_text(text) {
            Err(e) => Err(e),
            Ok(v) => match v.as_object() {
                Err(e) => Err(e),
                Ok(fields) => OpCode::read_tag(fields),
            },
        }
    }

    /// What is wrong with the tag of an object that is to be a payload of
    /// operation `self`: that there is none, or that it is the tag of another
    /// operation. `None` says that nothing is wrong.
    pub open spec fn tag_error(self, ms: Members) -> Option<DecodeError> {
        match OpCode::tag_of(ms) {
            Err(e) => Some(e),
            Ok(op) => if op == self {
                None
            } else {
                Some(DecodeError::UnexpectedOp)
            },
        }
    }

    /// The operation that `fields` are tagged with.
    pub fn read_tag(fields: &Vec<(String, Value)>) -> (r: Result<OpCode, DecodeError>)
        ensures
            r == OpCode::tag_of(members_view(fields@)),
    {
        match get_text(fields, "op") {
            Err(e) => Err(e),
            Ok(name) => match OpCode::from_name(name.as_str()) {
                None => Err(DecodeError::UnknownDiscriminant),
                Some(op) => Ok(op),
            },
        }
    }

    /// Checks that `fields` are tagged with this operation.
    pub fn check_tag(&self, fields: &Vec<(String, Value)>) -> (r: Result<(), DecodeError>)
        ensures
            match r {
                Ok(_) => self.tag_error(members_view(fields@)) is None,
                Err(e) => self.tag_error(members_view(fields@)) == Some(e),
            },
    {
        match OpCode::read_tag(fields) {
            Err(e) => Err(e),
            Ok(op) => if op == *self {
                Ok(())
            } else {
                Err(DecodeError::UnexpectedOp)
            },
        }
    }

    /// The member that tags an object with this operation.
    pub open spec fn tag(self) -> Members {
        seq![("op"@, ValueView::Text(self.wire_name()))]
    }

    /// Starts the members of a payload of this operation with its tag.
    pub fn tagged(&self) -> (fields: Vec<(String, Value)>)
        ensures
            members_view(fields@) == self.tag(),
    {
        let mut fields: Vec<(String, Value)> = Vec::new();
        assert(members_view(fields@) =~= Seq::<(Seq<char>, ValueView)>::empty());
        put(&mut fields, "op", Value::Text(self.name().to_owned()));
        assert(members_view(fields@) =~= self.tag());
        fields
    }
}

} // verus!
