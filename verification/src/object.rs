//! Operand values.
use vstd::prelude::*;
use vstd::std_specs::convert::TryFromSpecImpl;

verus! {

/// The three kinds of operand.
#[derive(Debug, Clone, Copy, PartialEq, Eq, Structural)]
pub enum Tag {
    Unsigned,
    Signed,
    Bool,
}

/// A tagged operand.  No opcode ever converts one tag into another.
#[derive(Debug, Clone, Copy, PartialEq, Eq, Structural)]
pub enum Object {
    Unsigned(u64),
    Signed(i64),
    Bool(bool),
}

/// A projection was asked of an operand that carries another tag.
#[derive(Debug, Clone, Copy, PartialEq, Eq, Structural)]
pub struct TypeMismatchError;

impl Object {
    pub open spec fn tag(self) -> Tag {
        match self {
            Object::Unsigned(_) => Tag::Unsigned,
            Object::Signed(_) => Tag::Signed,
            Object::Bool(_) => Tag::Bool,
        }
    }

    /// The payload of an `Unsigned` operand; 0 for the other tags.
    pub open spec fn unsigned(self) -> u64 {
        match self {
            Object::Unsigned(x) => x,
            _ => 0,
        }
    }

    /// The payload of a `Signed` operand; 0 for the other tags.
    pub open spec fn signed(self) -> i64 {
        match self {
            Object::Signed(x) => x,
            _ => 0,
        }
    }

    /// The payload of a `Bool` operand; `false` for the other tags.
    pub open spec fn truth(self) -> bool {
        match self {
            Object::Bool(x) => x,
            _ => false,
        }
    }
}

impl TryFrom<Object> for u64 {
    type Error = TypeMismatchError;

    fn try_from(value: Object) -> (r: Result<Self, TypeMismatchError>) {
        match value {
            Object::Unsigned(x) => Ok(x),
            _ => Err(TypeMismatchError {  }),
        }
    }
}

impl TryFromSpecImpl<Object> for u64 {
    open spec fn obeys_try_from_spec() -> bool {
        true
    }

    open spec fn try_from_spec(value: Object) -> Result<Self, TypeMismatchError> {
        match value {
            Object::Unsigned(x) => Ok(x),
            _ => Err(TypeMismatchError {  }),
        }
    }
}

impl TryFrom<Object> for i64 {
    type Error = TypeMismatchError;

    fn try_from(value: Object) -> (r: Result<Self, TypeMismatchError>) {
        match value {
            Object::Signed(x) => Ok(x),
            _ => Err(TypeMismatchError {  }),
        }
    }
}

impl TryFromSpecImpl<Object> for i64 {
    open spec fn obeys_try_from_spec() -> bool {
        true
    }

    open spec fn try_from_spec(value: Object) -> Result<Self, TypeMismatchError> {
        match value {
            Object::Signed(x) => Ok(x),
            _ => Err(TypeMismatchError {  }),
        }
    }
}

impl TryFrom<Object> for bool {
    type Error = TypeMismatchError;

    fn try_from(value: Object) -> (r: Result<Self, TypeMismatchError>) {
        match value {
            Object::Bool(x) => Ok(x),
            _ => Err(TypeMismatchError {  }),
        }
    }
}

impl TryFromSpecImpl<Object> for bool {
    open spec fn obeys_try_from_spec() -> bool {
        true
    }

    open spec fn try_from_spec(value: Object) -> Result<Self, TypeMismatchError> {
        match value {
            Object::Bool(x) => Ok(x),
            _ => Err(TypeMismatchError {  }),
        }
    }
}

} // verus!
