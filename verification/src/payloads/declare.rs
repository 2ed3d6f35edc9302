//! The `DECLARE` payload and the tracker fields it may carry.

use crate::chars::text_view;
use crate::error::{outcome, DecodeError};
use crate::payloads::op::OpCode;
use crate::text::grammar::{legible, lemma_legible_flat, parsed, printed, MAX_DEPTH};
use crate::text::round_trip::lemma_parsed_printed;
use crate::value::{
    get_optional, get_optional_text, get_text, lemma_member_absent,
    lemma_member_found, members_view, optional, optional_text, put, put_optional_text,
    required_text, text_member, Value, ValueView,
};
use vstd::prelude::*;

verus! {

/// Represents a set of tracker fields for the `DECLARE` payload. A field that
/// is absent was not reported, and means no more than that.
#[derive(Clone, Debug, PartialEq, Eq)]
pub struct TrackFields {
    /// The operating system of the client.
    pub os: Option<String>,
    /// The name of the application's client.
    pub app: Option<String>,
}

/// What a [`TrackFields`] holds, as plain values.
pub struct TrackFieldsView {
    pub os: Option<Seq<char>>,
    pub app: Option<Seq<char>>,
}

impl View for TrackFields {
    type V = TrackFieldsView;

    open spec fn view(&self) -> TrackFieldsView {
        TrackFieldsView { os: text_view(self.os), app: text_view(self.app) }
    }
}

impl TrackFields {
    /// Returns a `TrackFields` struct with specified values.
    pub fn new(os: Option<String>, app: Option<String>) -> (r: TrackFields)
        ensures
            r.os == os,
            r.app == app,
    {
        TrackFields { os, app }
    }

    /// The object that tracker fields are written as: the member `os` and
    /// the member `app`, each only where the field is present.
    pub open spec fn written(v: TrackFieldsView) -> ValueView {
        ValueView::Object(text_member("os"@, v.os) + text_member("app"@, v.app))
    }

    /// The tracker fields that a value is read as. The value is to be an
    /// object; each of `os` and `app` is a text, or absent.
    pub open spec fn read(v: ValueView) -> Result<TrackFieldsView, DecodeError> {
        match v.members() {
            Err(e) => Err(e),
            Ok(ms) => match optional_text(ms, "os"@) {
                Err(e) => Err(e),
                Ok(os) => match optional_text(ms, "app"@) {
                    Err(e) => Err(e),
                    Ok(app) => Ok(TrackFieldsView { os, app }),
                },
            },
        }
    }

    /// Writes these tracker fields as a value.
    pub fn to_value(&self) -> (r: Value)
        ensures
            r@ == TrackFields::written(self@),
    {
        let mut fields: Vec<(String, Value)> = Vec::new();
        assert(members_view(fields@) =~= Seq::<(Seq<char>, ValueView)>::empty());
        put_optional_text(&mut fields, "os", &self.os);
        put_optional_text(&mut fields, "app", &self.app);
        assert(members_view(fields@) =~= text_member("os"@, self@.os) + text_member(
            "app"@,
            self@.app,
        ));
        Value::object(fields)
    }

    /// Reads tracker fields from a value.
    pub fn from_value(v: &Value) -> (r: Result<TrackFields, DecodeError>)
        ensures
            outcome(r) == TrackFields::read(v@),
    {
        let fields = match v.as_object() {
            Err(e) => {
                return Err(e);
            },
            Ok(fields) => fields,
        };
        let os = match get_optional_text(fields, "os") {
            Err(e) => {
                return Err(e);
            },
            Ok(os) => os,
        };
        let app = match get_optional_text(fields, "app") {
            Err(e) => {
                return Err(e);
            },
            Ok(app) => app,
        };
        Ok(TrackFields { os, app })
    }

    /// Tracker fields that are written and read again are what they were,
    /// field for field, the absent ones too.
    pub proof fn lemma_read_written(v: TrackFieldsView)
        ensures
            TrackFields::read(TrackFields::written(v)) == Ok::<TrackFieldsView, DecodeError>(v),
    {
        lemma_member_names();
        let ms = text_member("os"@, v.os) + text_member("app"@, v.app);
        match v.os {
            Some(os) => {
                lemma_member_found(ms, 0, "os"@);
            },
            None => {
                lemma_member_absent(ms, "os"@);
            },
        }
        match v.app {
            Some(app) => {
                lemma_member_found(ms, ms.len() - 1, "app"@);
            },
            None => {
                lemma_member_absent(ms, "app"@);
            },
        }
    }
}

/// The names of the members differ from one another.
pub proof fn lemma_member_names()
    ensures
        "os"@ != "app"@,
        "op"@ != "token"@,
        "op"@ != "tracker"@,
        "token"@ != "tracker"@,
{
    reveal_strlit("os");
    reveal_strlit("app");
    reveal_strlit("op");
    reveal_strlit("token");
    reveal_strlit("tracker");
    assert("os"@.len() == 2);
    assert("app"@.len() == 3);
    assert("op"@.len() == 2);
    assert("token"@.len() == 5);
    assert("tracker"@.len() == 7);
}

/// Represents a `DECLARE` payload, by which a client tells the gateway who it
/// is.
///
/// Its operation code is [`OpCode::Declare`]. The code is no field that could
/// be set to another: the type fixes it, `op` gives it, and the encoded form
/// carries it as the member `op`.
#[derive(Clone, Debug, PartialEq, Eq)]
pub struct Declare {
    /// An authentication token of the connection.
    pub token: String,
    /// Tracker fields for analytic purposes.
    pub tracker: Option<TrackFields>,
}

/// What a [`Declare`] holds, as plain values.
pub struct DeclareView {
    pub token: Seq<char>,
    pub tracker: Option<TrackFieldsView>,
}

/// What tracker fields that may be absent hold.
pub open spec fn tracker_view(tracker: Option<TrackFields>) -> Option<TrackFieldsView> {
    match tracker {
        Some(t) => Some(t@),
        None => None,
    }
}

impl View for Declare {
    type V = DeclareView;

    open spec fn view(&self) -> DeclareView {
        DeclareView { token: self.token@, tracker: tracker_view(self.tracker) }
    }
}

impl Declare {
    /// Returns a `DECLARE` payload with specified values. The token is kept
    /// as it is, an empty one too, and so is the tracker.
    pub fn new(token: &str, tracker: Option<TrackFields>) -> (r: Declare)
        ensures
            r.token@ == token@,
            r.tracker == tracker,
    {
        Declare { token: token.to_owned(), tracker }
    }

    /// The operation code of every `DECLARE` payload.
    pub fn op(&self) -> (r: OpCode)
        ensures
            r == OpCode::Declare,
    {
        OpCode::Declare
    }

    /// The object that a `DECLARE` payload is written as: the tag, the
    /// member `token` and, where there is a tracker, the member `tracker`.
    pub open spec fn written(v: DeclareView) -> ValueView {
        ValueView::Object(
            OpCode::Declare.tag().push(("token"@, ValueView::Text(v.token))) + match v.tracker {
                Some(t) => seq![("tracker"@, TrackFields::written(t))],
                None => Seq::empty(),
            },
        )
    }

    /// The `DECLARE` payload that a value is read as. The value is to be an
    /// object tagged `Declare`, with a text as `token`; `tracker` is tracker
    /// fields, or absent.
    pub open spec fn read(v: ValueView) -> Result<DeclareView, DecodeError> {
        match v.members() {
            Err(e) => Err(e),
            Ok(ms) => match OpCode::Declare.tag_error(ms) {
                Some(e) => Err(e),
                None => match required_text(ms, "token"@) {
                    Err(e) => Err(e),
                    Ok(token) => match optional(ms, "tracker"@) {
                        Err(e) => Err(e),
                        Ok(None) => Ok(DeclareView { token, tracker: None }),
                        Ok(Some(t)) => match TrackFields::read(t) {
                            Err(e) => Err(e),
                            Ok(tracker) => Ok(DeclareView { token, tracker: Some(tracker) }),
                        },
                    },
                },
            },
        }
    }

    /// Writes this payload as a value.
    pub fn to_value(&self) -> (r: Value)
        ensures
            r@ == Declare::written(self@),
    {
        let mut fields = OpCode::Declare.tagged();
        put(&mut fields, "token", Value::Text(self.token.clone()));
        match &self.tracker {
            Some(t) => {
                put(&mut fields, "tracker", t.to_value());
            },
            None => {},
        }
        assert(members_view(fields@) =~= Declare::written(self@)->Object_0);
        Value::object(fields)
    }

    /// Reads a `DECLARE` payload from a value.
    pub fn from_value(v: &Value) -> (r: Result<Declare, DecodeError>)
        ensures
            outcome(r) == Declare::read(v@),
    {
        let fields = match v.as_object() {
            Err(e) => {
                return Err(e);
            },
            Ok(fields) => fields,
        };
        match OpCode::Declare.check_tag(fields) {
            Err(e) => {
                return Err(e);
            },
            Ok(_) => {},
        }
        let token = match get_text(fields, "token") {
            Err(e) => {
                return Err(e);
            },
            Ok(token) => token,
        };
        let tracker = match get_optional(fields, "tracker") {
            Err(e) => {
                return Err(e);
            },
            Ok(None) => None,
            Ok(Some(t)) => match TrackFields::from_value(t) {
                Err(e) => {
                    return Err(e);
                },
                Ok(tracker) => Some(tracker),
            },
        };
        Ok(Declare { token, tracker })
    }

    /// A `DECLARE` payload that is written and read again is what it was,
    /// field for field.
    pub proof fn lemma_read_written(v: DeclareView)
        ensures
            Declare::read(Declare::written(v)) == Ok::<DeclareView, DecodeError>(v),
    {
        lemma_member_names();
        OpCode::lemma_named_wire_name(OpCode::Declare);
        let ms = Declare::written(v)->Object_0;
        lemma_member_found(ms, 0, "op"@);
        lemma_member_found(ms, 1, "token"@);
        match v.tracker {
            Some(t) => {
                lemma_member_found(ms, 2, "tracker"@);
                TrackFields::lemma_read_written(t);
            },
            None => {
                lemma_member_absent(ms, "tracker"@);
            },
        }
    }

    /// The text that a payload is encoded as: that of the object it is
    /// written as.
    pub open spec fn encoded(v: DeclareView) -> Seq<char> {
        printed(Declare::written(v))
    }

    /// What decoding a text comes to: the payload that the value of the text
    /// is read as, or the reason why there is none.
    pub open spec fn decoded(s: Seq<char>) -> Result<DeclareView, DecodeError> {
        match parsed(s) {
            Err(e) => Err(e),
            Ok(v) => Declare::read(v),
        }
    }

    /// Encodes this payload as text.
    pub fn encode(&self) -> (r: String)
        ensures
            r@ == Declare::encoded(self@),
    {
        self.to_value().to_text()
    }

    /// Decodes a payload from text. Where the text is no payload of this
    /// kind, the error says why, and nothing is made up in its place.
    pub fn decode(text: &str) -> (r: Result<Declare, DecodeError>)
        ensures
            outcome(r) == Declare::decoded(text@),
    {
        match Value::from_text(text) {
            Err(e) => Err(e),
            Ok(v) => Declare::from_value(&v),
        }
    }

    /// The object that a payload is written as can be read back from its
    /// text.
    pub proof fn lemma_written_legible(v: DeclareView)
        ensures
            legible(Declare::written(v), MAX_DEPTH as nat),
    {
        let ms = Declare::written(v)->Object_0;
        assert forall|i: int| 0 <= i < ms.len() implies legible(
            #[trigger] ms[i].1,
            (MAX_DEPTH - 1) as nat,
        ) by {
            if i == 2 {
                let t = v.tracker->Some_0;
                lemma_legible_flat(TrackFields::written(t)->Object_0, (MAX_DEPTH - 1) as nat);
            }
        }
    }

    /// A payload that is encoded and decoded again is what it was, field
    /// for field, and an absent field is absent again.
    pub proof fn lemma_decode_encode(v: DeclareView)
        ensures
            Declare::decoded(Declare::encoded(v)) == Ok::<DeclareView, DecodeError>(v),
    {
        Declare::lemma_written_legible(v);
        lemma_parsed_printed(Declare::written(v));
        Declare::lemma_read_written(v);
    }
}

} // verus!
