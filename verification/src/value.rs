//! The structured form of a payload: a tree of values in which an object
//! holds named members. Encoding builds such a tree and decoding reads one;
//! the text of a tree is the business of another module.

use crate::chars::text_view;
use crate::error::DecodeError;
use vstd::prelude::*;

verus! {

/// A value of the interchange format.
#[derive(Debug, PartialEq, Eq)]
pub enum Value {
    /// Nothing; where a member may be absent, `null` says that it is.
    Null,
    /// `true` or `false`.
    Bool(bool),
    /// An unsigned whole number.
    Number(u64),
    /// A number that `Number` does not hold, in the characters it is written
    /// with: one with a sign, a fraction or an exponent, or one too large.
    Decimal(String),
    /// A text.
    Text(String),
    /// Named members, in the order in which they were written.
    Object(Vec<(String, Value)>),
}

/// What a [`Value`] holds, as plain values.
pub enum ValueView {
    Null,
    Bool(bool),
    Number(u64),
    Decimal(Seq<char>),
    Text(Seq<char>),
    Object(Seq<(Seq<char>, ValueView)>),
}

/// The members of an object: names with their values.
pub type Members = Seq<(Seq<char>, ValueView)>;

impl View for Value {
    type V = ValueView;

    open spec fn view(&self) -> ValueView
        decreases self, 0nat,
    {
        match self {
            Value::Null => ValueView::Null,
            Value::Bool(b) => ValueView::Bool(*b),
            Value::Number(n) => ValueView::Number(*n),
            Value::Decimal(t) => ValueView::Decimal(t@),
            Value::Text(t) => ValueView::Text(t@),
            Value::Object(fields) => ValueView::Object(first_members(fields@, fields@.len())),
        }
    }
}

/// What the first `n` members of an object hold.
pub open spec fn first_members(fields: Seq<(String, Value)>, n: nat) -> Members
    decreases fields, n,
{
    if n == 0 || n > fields.len() {
        Seq::empty()
    } else {
        first_members(fields, (n - 1) as nat).push((fields[n - 1].0@, fields[n - 1].1.view()))
    }
}

/// The first members of an object, one for one.
pub proof fn lemma_first_members(fields: Seq<(String, Value)>, n: nat)
    requires
        n <= fields.len(),
    ensures
        first_members(fields, n).len() == n,
        forall|i: int|
            0 <= i < n ==> first_members(fields, n)[i] == (fields[i].0@, fields[i].1@),
    decreases n,
{
    if n > 0 {
        lemma_first_members(fields, (n - 1) as nat);
        assert(first_members(fields, n) == first_members(fields, (n - 1) as nat).push(
            (fields[n - 1].0@, fields[n - 1].1@),
        ));
    } else {
        assert(first_members(fields, n) == Seq::<(Seq<char>, ValueView)>::empty());
    }
}

/// What the members of an object hold.
pub open spec fn members_view(fields: Seq<(String, Value)>) -> Members {
    Seq::new(fields.len(), |i: int| (fields[i].0@, fields[i].1@))
}

/// An object holds what its members hold.
pub proof fn lemma_object_view(fields: Vec<(String, Value)>)
    ensures
        Value::Object(fields)@ == ValueView::Object(members_view(fields@)),
{
    lemma_first_members(fields@, fields@.len());
    assert(first_members(fields@, fields@.len()) =~= members_view(fields@));
}

/// Whether member `i` of `ms` goes by `name`.
pub open spec fn named_at(ms: Members, i: int, name: Seq<char>) -> bool {
    0 <= i < ms.len() && ms[i].0 == name
}

/// The member of `ms` that goes by `name`: none where no member does, its
/// value where exactly one does, and an error where several do.
pub open spec fn member(ms: Members, name: Seq<char>) -> Result<Option<ValueView>, DecodeError> {
    if !(exists|i: int| named_at(ms, i, name)) {
        Ok(None)
    } else {
        let i = choose|i: int| named_at(ms, i, name);
        if forall|j: int| named_at(ms, j, name) ==> j == i {
            Ok(Some(ms[i].1))
        } else {
            Err(DecodeError::Malformed)
        }
    }
}

/// The member `name` of a payload that cannot do without it.
pub open spec fn required(ms: Members, name: Seq<char>) -> Result<ValueView, DecodeError> {
    match member(ms, name) {
        Err(e) => Err(e),
        Ok(None) => Err(DecodeError::MissingField),
        Ok(Some(v)) => Ok(v),
    }
}

/// The member `name` of a payload that can do without it: left out and
/// `null` both say that it is absent.
pub open spec fn optional(ms: Members, name: Seq<char>) -> Result<Option<ValueView>, DecodeError> {
    match member(ms, name) {
        Err(e) => Err(e),
        Ok(None) => Ok(None),
        Ok(Some(ValueView::Null)) => Ok(None),
        Ok(Some(v)) => Ok(Some(v)),
    }
}

impl ValueView {
    /// The text that this value is, if it is one.
    pub open spec fn text(self) -> Result<Seq<char>, DecodeError> {
        match self {
            ValueView::Text(t) => Ok(t),
            _ => Err(DecodeError::Malformed),
        }
    }

    /// The truth value that this value is, if it is one.
    pub open spec fn truth(self) -> Result<bool, DecodeError> {
        match self {
            ValueView::Bool(b) => Ok(b),
            _ => Err(DecodeError::Malformed),
        }
    }

    /// The number that this value is, if it is one and no greater than `max`.
    pub open spec fn number(self, max: u64) -> Result<u64, DecodeError> {
        match self {
            ValueView::Number(n) if n <= max => Ok(n),
            _ => Err(DecodeError::Malformed),
        }
    }

    /// The members of the object that this value is, if it is one.
    pub open spec fn members(self) -> Result<Members, DecodeError> {
        match self {
            ValueView::Object(ms) => Ok(ms),
            _ => Err(DecodeError::Malformed),
        }
    }
}

/// A member that is the only one of its name is the one that is found.
pub proof fn lemma_member_found(ms: Members, i: int, name: Seq<char>)
    requires
        named_at(ms, i, name),
        forall|j: int| 0 <= j < ms.len() && j != i ==> ms[j].0 != name,
    ensures
        member(ms, name) == Ok::<Option<ValueView>, DecodeError>(Some(ms[i].1)),
{
    let k = choose|k: int| named_at(ms, k, name);
    assert(k == i);
}

/// Where no member goes by a name, none is found.
pub proof fn lemma_member_absent(ms: Members, name: Seq<char>)
    requires
        forall|j: int| 0 <= j < ms.len() ==> ms[j].0 != name,
    ensures
        member(ms, name) == Ok::<Option<ValueView>, DecodeError>(None),
{
}

/// What a lookup in an object came to, as plain values.
pub open spec fn lookup_view(r: Result<Option<&Value>, DecodeError>) -> Result<
    Option<ValueView>,
    DecodeError,
> {
    match r {
        Ok(Some(v)) => Ok(Some(v@)),
        Ok(None) => Ok(None),
        Err(e) => Err(e),
    }
}

/// Looks `name` up among `fields`: `Ok(None)` where no member goes by it, the
/// member's value where exactly one does, `Malformed` where several do.
pub fn find<'a>(fields: &'a Vec<(String, Value)>, name: &str) -> (r: Result<
    Option<&'a Value>,
    DecodeError,
>)
    ensures
        lookup_view(r) == member(members_view(fields@), name@),
{
    let wanted = name.to_owned();
    let ghost ms = members_view(fields@);
    let mut found: Option<usize> = None;
    let mut i: usize = 0;
    while i < fields.len()
        invariant
            i <= fields.len(),
            wanted@ == name@,
            ms == members_view(fields@),
            match found {
                Some(k) => k < i && named_at(ms, k as int, name@),
                None => true,
            },
            forall|j: int| 0 <= j < i && named_at(ms, j, name@) ==> found == Some(j as usize),
        decreases fields.len() - i,
    {
        if fields[i].0 == wanted {
            assert(named_at(ms, i as int, name@));
            match found {
                Some(k) => {
                    assert(named_at(ms, k as int, name@));
                    return Err(DecodeError::Malformed);
                },
                None => {
                    found = Some(i);
                },
            }
        }
        i += 1;
    }
    match found {
        Some(k) => {
            proof {
                assert forall|j: int| 0 <= j < ms.len() && j != k implies ms[j].0 != name@ by {
                    if ms[j].0 == name@ {
                        assert(named_at(ms, j, name@));
                    }
                }
                lemma_member_found(ms, k as int, name@);
            }
            Ok(Some(&fields[k].1))
        },
        None => Ok(None),
    }
}

/// The text in member `name`, which the payload cannot do without.
pub open spec fn required_text(ms: Members, name: Seq<char>) -> Result<Seq<char>, DecodeError> {
    match required(ms, name) {
        Err(e) => Err(e),
        Ok(v) => v.text(),
    }
}

/// The truth value in member `name`, which the payload cannot do without.
pub open spec fn required_truth(ms: Members, name: Seq<char>) -> Result<bool, DecodeError> {
    match required(ms, name) {
        Err(e) => Err(e),
        Ok(v) => v.truth(),
    }
}

/// The number in member `name`, which the payload cannot do without and
/// which is to be no greater than `max`.
pub open spec fn required_number(ms: Members, name: Seq<char>, max: u64) -> Result<
    u64,
    DecodeError,
> {
    match required(ms, name) {
        Err(e) => Err(e),
        Ok(v) => v.number(max),
    }
}

/// The text in member `name`, if the member is there.
pub open spec fn optional_text(ms: Members, name: Seq<char>) -> Result<
    Option<Seq<char>>,
    DecodeError,
> {
    match optional(ms, name) {
        Err(e) => Err(e),
        Ok(None) => Ok(None),
        Ok(Some(v)) => match v.text() {
            Err(e) => Err(e),
            Ok(t) => Ok(Some(t)),
        },
    }
}

/// The member that carries a text, or no member where there is no text.
pub open spec fn text_member(name: Seq<char>, text: Option<Seq<char>>) -> Members {
    match text {
        Some(t) => seq![(name, ValueView::Text(t))],
        None => Seq::empty(),
    }
}

impl Clone for Value {
    /// A value that holds what this one holds.
    fn clone(&self) -> (r: Value)
        ensures
            r@ == self@,
        decreases self,
    {
        match self {
            Value::Null => Value::Null,
            Value::Bool(b) => Value::Bool(*b),
            Value::Number(n) => Value::Number(*n),
            Value::Decimal(t) => Value::Decimal(t.clone()),
            Value::Text(t) => Value::Text(t.clone()),
            Value::Object(fields) => {
                proof {
                    lemma_object_view(*fields);
                }
                let mut copy: Vec<(String, Value)> = Vec::new();
                let mut i: usize = 0;
                while i < fields.len()
                    invariant
                        i <= fields.len(),
                        decreases_to!(self => fields),
                        members_view(copy@) == members_view(fields@).subrange(0, i as int),
                    decreases fields.len() - i,
                {
                    let ghost sofar = members_view(copy@);
                    let name = fields[i].0.clone();
                    let value = fields[i].1.clone();
                    let ghost member = (name@, value@);
                    copy.push((name, value));
                    assert(members_view(copy@) =~= sofar.push(member));
                    assert(member == members_view(fields@)[i as int]);
                    i += 1;
                    assert(members_view(copy@) =~= members_view(fields@).subrange(0, i as int));
                }
                assert(members_view(copy@) =~= members_view(fields@));
                Value::object(copy)
            },
        }
    }
}

impl Value {
    /// The text that this value is; `Malformed` where it is none.
    pub fn as_text(&self) -> (r: Result<&String, DecodeError>)
        ensures
            match r {
                Ok(t) => self@.text() == Ok::<Seq<char>, DecodeError>(t@),
                Err(e) => self@.text() == Err::<Seq<char>, DecodeError>(e),
            },
    {
        match self {
            Value::Text(t) => Ok(t),
            _ => Err(DecodeError::Malformed),
        }
    }

    /// The truth value that this value is; `Malformed` where it is none.
    pub fn as_bool(&self) -> (r: Result<bool, DecodeError>)
        ensures
            r == self@.truth(),
    {
        match self {
            Value::Bool(b) => Ok(*b),
            _ => Err(DecodeError::Malformed),
        }
    }

    /// The number that this value is; `Malformed` where it is none, or one
    /// greater than `max`.
    pub fn as_number(&self, max: u64) -> (r: Result<u64, DecodeError>)
        ensures
            r == self@.number(max),
    {
        match self {
            Value::Number(n) => if *n <= max {
                Ok(*n)
            } else {
                Err(DecodeError::Malformed)
            },
            _ => Err(DecodeError::Malformed),
        }
    }

    /// The members of the object that this value is; `Malformed` where it
    /// is none.
    pub fn as_object(&self) -> (r: Result<&Vec<(String, Value)>, DecodeError>)
        ensures
            match r {
                Ok(fields) => self@.members() == Ok::<Members, DecodeError>(
                    members_view(fields@),
                ),
                Err(e) => self@.members() == Err::<Members, DecodeError>(e),
            },
    {
        match self {
            Value::Object(fields) => {
                proof {
                    lemma_object_view(*fields);
                }
                Ok(fields)
            },
            _ => Err(DecodeError::Malformed),
        }
    }

    /// The object whose members are `fields`.
    pub fn object(fields: Vec<(String, Value)>) -> (r: Value)
        ensures
            r@ == ValueView::Object(members_view(fields@)),
    {
        proof {
            lemma_object_view(fields);
        }
        Value::Object(fields)
    }
}

/// The value of member `name`; `MissingField` where no member goes by it.
pub fn get_required<'a>(fields: &'a Vec<(String, Value)>, name: &str) -> (r: Result<
    &'a Value,
    DecodeError,
>)
    ensures
        match r {
            Ok(v) => required(members_view(fields@), name@) == Ok::<ValueView, DecodeError>(v@),
            Err(e) => required(members_view(fields@), name@) == Err::<ValueView, DecodeError>(e),
        },
{
    match find(fields, name) {
        Err(e) => Err(e),
        Ok(None) => Err(DecodeError::MissingField),
        Ok(Some(v)) => Ok(v),
    }
}

/// The value of member `name`, if the member is there and is not `null`.
pub fn get_optional<'a>(fields: &'a Vec<(String, Value)>, name: &str) -> (r: Result<
    Option<&'a Value>,
    DecodeError,
>)
    ensures
        lookup_view(r) == optional(members_view(fields@), name@),
{
    match find(fields, name) {
        Err(e) => Err(e),
        Ok(None) => Ok(None),
        Ok(Some(v)) => match v {
            Value::Null => Ok(None),
            _ => Ok(Some(v)),
        },
    }
}

/// A copy of the text in member `name`.
pub fn get_text(fields: &Vec<(String, Value)>, name: &str) -> (r: Result<String, DecodeError>)
    ensures
        match r {
            Ok(t) => required_text(members_view(fields@), name@) == Ok::<Seq<char>, DecodeError>(
                t@,
            ),
            Err(e) => required_text(members_view(fields@), name@) == Err::<
                Seq<char>,
                DecodeError,
            >(e),
        },
{
    match get_required(fields, name) {
        Err(e) => Err(e),
        Ok(v) => match v.as_text() {
            Err(e) => Err(e),
            Ok(t) => Ok(t.clone()),
        },
    }
}

/// The truth value in member `name`.
pub fn get_bool(fields: &Vec<(String, Value)>, name: &str) -> (r: Result<bool, DecodeError>)
    ensures
        r == required_truth(members_view(fields@), name@),
{
    match get_required(fields, name) {
        Err(e) => Err(e),
        Ok(v) => v.as_bool(),
    }
}

/// The number in member `name`, which is to be no greater than `max`.
pub fn get_number(fields: &Vec<(String, Value)>, name: &str, max: u64) -> (r: Result<
    u64,
    DecodeError,
>)
    ensures
        r == required_number(members_view(fields@), name@, max),
{
    match get_required(fields, name) {
        Err(e) => Err(e),
        Ok(v) => v.as_number(max),
    }
}

/// A copy of the text in member `name`, if the member is there.
pub fn get_optional_text(fields: &Vec<(String, Value)>, name: &str) -> (r: Result<
    Option<String>,
    DecodeError,
>)
    ensures
        match r {
            Ok(Some(t)) => optional_text(members_view(fields@), name@) == Ok::<
                Option<Seq<char>>,
                DecodeError,
            >(Some(t@)),
            Ok(None) => optional_text(members_view(fields@), name@) == Ok::<
                Option<Seq<char>>,
                DecodeError,
            >(None),
            Err(e) => optional_text(members_view(fields@), name@) == Err::<
                Option<Seq<char>>,
                DecodeError,
            >(e),
        },
{
    match get_optional(fields, name) {
        Err(e) => Err(e),
        Ok(None) => Ok(None),
        Ok(Some(v)) => match v.as_text() {
            Err(e) => Err(e),
            Ok(t) => Ok(Some(t.clone())),
        },
    }
}

/// Adds to `fields` the member `name` with `value`.
pub fn put(fields: &mut Vec<(String, Value)>, name: &str, value: Value)
    ensures
        members_view(final(fields)@) == members_view(old(fields)@).push((name@, value@)),
{
    fields.push((name.to_owned(), value));
    assert(members_view(fields@) =~= members_view(old(fields)@).push((name@, value@)));
}

/// Adds to `fields` the member `name` with `text`, or nothing where there is
/// no text.
pub fn put_optional_text(fields: &mut Vec<(String, Value)>, name: &str, text: &Option<String>)
    ensures
        members_view(final(fields)@) == members_view(old(fields)@) + text_member(
            name@,
            text_view(*text),
        ),
{
    match text {
        Some(t) => {
            put(fields, name, Value::Text(t.clone()));
            assert(members_view(fields@) =~= members_view(old(fields)@) + seq![
                (name@, ValueView::Text(t@)),
            ]);
        },
        None => {
            assert(members_view(fields@) =~= members_view(old(fields)@) + Seq::<
                (Seq<char>, ValueView),
            >::empty());
        },
    }
}

} // verus!
