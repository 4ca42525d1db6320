//! The tri-state field: not provided, explicitly null, or holding a value.

use vstd::prelude::*;

verus! {

/// One field of an entity.
///
/// `Undefined` is the state of a field nobody supplied; a storage read
/// produces only `Null` or `Value`.
#[derive(Debug, Clone, PartialEq, Eq)]
pub enum Null<T> {
    Undefined,
    Null,
    Value(T),
}

/// How a field travels on the wire: the key left out, the key with an
/// explicit null, or the key with its value.
#[derive(Debug, Clone, PartialEq, Eq)]
pub enum Wire<T> {
    Absent,
    ExplicitNull,
    Present(T),
}

/// What `encode` makes of a field.
pub open spec fn encoded<T>(field: Null<T>) -> Wire<T> {
    match field {
        Null::Undefined => Wire::Absent,
        Null::Null => Wire::ExplicitNull,
        Null::Value(v) => Wire::Present(v),
    }
}

/// What `decode` makes of a wire field.
pub open spec fn decoded<T>(wire: Wire<T>) -> Null<T> {
    match wire {
        Wire::Absent => Null::Undefined,
        Wire::ExplicitNull => Null::Null,
        Wire::Present(v) => Null::Value(v),
    }
}

/// What a storage read of a nullable column becomes.
pub open spec fn wrapped<T>(raw: Option<T>) -> Null<T> {
    match raw {
        Some(v) => Null::Value(v),
        None => Null::Null,
    }
}

impl<T> Null<T> {
    /// A field holding `value`.
    pub fn new(value: T) -> (r: Self)
        ensures
            r == Null::Value(value),
    {
        Null::Value(value)
    }

    /// The field for a nullable column read from storage: a missing value
    /// is `Null`, never `Undefined`.
    pub fn wrap(raw: Option<T>) -> (r: Self)
        ensures
            r == wrapped(raw),
            !(r is Undefined),
    {
        match raw {
            Some(v) => Null::Value(v),
            None => Null::Null,
        }
    }

    pub fn is_undefined(&self) -> (r: bool)
        ensures
            r == (*self is Undefined),
    {
        match self {
            Null::Undefined => true,
            _ => false,
        }
    }

    pub fn is_null(&self) -> (r: bool)
        ensures
            r == (*self is Null),
    {
        match self {
            Null::Null => true,
            _ => false,
        }
    }

    pub fn is_value(&self) -> (r: bool)
        ensures
            r == (*self is Value),
    {
        match self {
            Null::Value(_) => true,
            _ => false,
        }
    }

    /// Whether the field equals the default, which is `Undefined`.
    pub fn is_empty(&self) -> (r: bool)
        ensures
            r == (*self is Undefined),
    {
        self.is_undefined()
    }

    /// The value, if the field holds one.
    pub fn take(self) -> (r: Option<T>)
        ensures
            r == match self {
                Null::Value(v) => Some(v),
                _ => None::<T>,
            },
    {
        match self {
            Null::Value(v) => Some(v),
            _ => None,
        }
    }

    /// The wire form: an undefined field is left out, a null field is sent
    /// as an explicit null, a value is sent as it is.
    pub fn encode(self) -> (r: Wire<T>)
        ensures
            r == encoded(self),
    {
        match self {
            Null::Undefined => Wire::Absent,
            Null::Null => Wire::ExplicitNull,
            Null::Value(v) => Wire::Present(v),
        }
    }

    /// The field that a wire form stands for.
    pub fn decode(wire: Wire<T>) -> (r: Self)
        ensures
            r == decoded(wire),
    {
        match wire {
            Wire::Absent => Null::Undefined,
            Wire::ExplicitNull => Null::Null,
            Wire::Present(v) => Null::Value(v),
        }
    }
}

impl<T> Default for Null<T> {
    fn default() -> (r: Self)
        ensures
            r == Null::<T>::Undefined,
    {
        Null::Undefined
    }
}

/// Decoding what was encoded gives the field back, whatever its state.
pub proof fn lemma_decode_encode<T>(field: Null<T>)
    ensures
        decoded(encoded(field)) == field,
{
}

/// Encoding what was decoded gives the wire form back.
pub proof fn lemma_encode_decode<T>(wire: Wire<T>)
    ensures
        encoded(decoded(wire)) == wire,
{
}

/// A field read from storage is never undefined, and its wire form always
/// carries the key.
pub proof fn lemma_wrapped_is_defined<T>(raw: Option<T>)
    ensures
        !(wrapped(raw) is Undefined),
        !(encoded(wrapped(raw)) is Absent),
{
}

} // verus!
