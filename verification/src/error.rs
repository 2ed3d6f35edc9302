//! Why decoding a payload failed.

use vstd::prelude::*;

verus! {

/// The reason a decoder gives for refusing its input. A decoder that fails
/// hands back nothing else: no partly built payload and no default.
#[derive(Clone, Copy, Debug, PartialEq, Eq, Structural)]
pub enum DecodeError {
    /// The text is not of the interchange format, or a member holds a value
    /// of the wrong kind, a number too large for its field, or a name twice.
    Malformed,
    /// A member that the payload cannot do without is absent.
    MissingField,
    /// `op` or `fault` names no variant of its enumeration.
    UnknownDiscriminant,
    /// `op` names an operation other than the one being decoded.
    UnexpectedOp,
}

/// What a decoder came to, with the payload as plain values.
pub open spec fn outcome<T: View>(r: Result<T, DecodeError>) -> Result<T::V, DecodeError> {
    match r {
        Ok(t) => Ok(t@),
        Err(e) => Err(e),
    }
}

} // verus!
