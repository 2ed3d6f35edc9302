//! What holds of every payload, whichever of the operations it belongs to.

use crate::error::DecodeError;
use crate::payloads::declare::{Declare, DeclareView};
use crate::payloads::heartbeat::{Heartbeat, HeartbeatView};
use crate::payloads::hello::{Hello, HelloView};
use crate::payloads::op::OpCode;
use crate::payloads::terminate::{Terminate, TerminateView};
use crate::text::grammar::parsed;
use crate::value::{member, Members, ValueView};
use vstd::prelude::*;

verus! {

/// Every payload is written with the tag of its own operation.
pub proof fn lemma_written_tag(
    hello: HelloView,
    heartbeat: HeartbeatView,
    declare: DeclareView,
    terminate: TerminateView,
)
    ensures
        OpCode::tag_of(Hello::written(hello)->Object_0) == Ok::<OpCode, DecodeError>(OpCode::Hello),
        OpCode::tag_of(Heartbeat::written(heartbeat)->Object_0) == Ok::<OpCode, DecodeError>(
            OpCode::Heartbeat,
        ),
        OpCode::tag_of(Declare::written(declare)->Object_0) == Ok::<OpCode, DecodeError>(
            OpCode::Declare,
        ),
        OpCode::tag_of(Terminate::written(terminate)->Object_0) == Ok::<OpCode, DecodeError>(
            OpCode::Terminate,
        ),
{
    Hello::lemma_read_written(hello);
    Heartbeat::lemma_read_written(heartbeat);
    Declare::lemma_read_written(declare);
    Terminate::lemma_read_written(terminate);
}

/// A payload is decoded only from a text that is tagged with the operation
/// of its type: no decoder gives a payload for the tag of another.
pub proof fn lemma_decoded_tag(text: Seq<char>)
    ensures
        Hello::decoded(text) is Ok ==> OpCode::tag_in(text) == Ok::<OpCode, DecodeError>(
            OpCode::Hello,
        ),
        Heartbeat::decoded(text) is Ok ==> OpCode::tag_in(text) == Ok::<OpCode, DecodeError>(
            OpCode::Heartbeat,
        ),
        Declare::decoded(text) is Ok ==> OpCode::tag_in(text) == Ok::<OpCode, DecodeError>(
            OpCode::Declare,
        ),
        Terminate::decoded(text) is Ok ==> OpCode::tag_in(text) == Ok::<OpCode, DecodeError>(
            OpCode::Terminate,
        ),
{
}

/// A text whose tag cannot be read is no payload: every decoder fails on it,
/// with the error that reading the tag gives.
pub proof fn lemma_untagged_rejected(text: Seq<char>)
    ensures
        OpCode::tag_in(text) matches Err(e) ==> {
            &&& Hello::decoded(text) == Err::<HelloView, DecodeError>(e)
            &&& Heartbeat::decoded(text) == Err::<HeartbeatView, DecodeError>(e)
            &&& Declare::decoded(text) == Err::<DeclareView, DecodeError>(e)
            &&& Terminate::decoded(text) == Err::<TerminateView, DecodeError>(e)
        },
{
}

/// An object whose member `op` names none of the operations is no payload:
/// every decoder answers `UnknownDiscriminant`, and none puts an operation
/// of its own in the place of the unknown one.
pub proof fn lemma_unknown_op_rejected(text: Seq<char>, ms: Members, name: Seq<char>)
    requires
        parsed(text) == Ok::<ValueView, DecodeError>(ValueView::Object(ms)),
        member(ms, "op"@) == Ok::<Option<ValueView>, DecodeError>(Some(ValueView::Text(name))),
        OpCode::named(name) is None,
    ensures
        Hello::decoded(text) == Err::<HelloView, DecodeError>(DecodeError::UnknownDiscriminant),
        Heartbeat::decoded(text) == Err::<HeartbeatView, DecodeError>(
            DecodeError::UnknownDiscriminant,
        ),
        Declare::decoded(text) == Err::<DeclareView, DecodeError>(
            DecodeError::UnknownDiscriminant,
        ),
        Terminate::decoded(text) == Err::<TerminateView, DecodeError>(
            DecodeError::UnknownDiscriminant,
        ),
{
}

} // verus!
