use vstd::prelude::*;

verus! {

/// The universe of plain values that a data format carries: the model of a
/// serializable payload. A request envelope travels as a `Tagged` value; the
/// primitive results travel as `Unit` and `Int`.
#[derive(Debug, PartialEq, Eq)]
pub enum Value {
    Unit,
    Int(i64),
    Pair(Box<Value>, Box<Value>),
    Tagged(u64, Box<Value>),
}

/// A type that can travel through an RPC session: it embeds into the `Value`
/// universe and parses back. This is the serializable-value bound of the
/// session's typed `send` and `recv`.
pub trait Wireable: Sized {
    /// The embedding of this value into the `Value` universe.
    spec fn as_value(&self) -> Value;

    /// Which values parse back, and to what.
    spec fn parse_spec(v: Value) -> Option<Self>;

    fn to_value(&self) -> (v: Value)
        ensures
            v == self.as_value(),
    ;

    fn of_value(v: &Value) -> (r: Option<Self>)
        ensures
            r == Self::parse_spec(*v),
    ;

    /// Round trip: parsing an embedded value yields the value itself.
    proof fn lemma_embed_round_trip(&self)
        ensures
            Self::parse_spec(self.as_value()) == Some(*self),
    ;
}

impl Wireable for i64 {
    open spec fn as_value(&self) -> Value {
        Value::Int(*self)
    }

    open spec fn parse_spec(v: Value) -> Option<i64> {
        match v {
            Value::Int(n) => Some(n),
            _ => None,
        }
    }

    fn to_value(&self) -> (v: Value) {
        Value::Int(*self)
    }

    fn of_value(v: &Value) -> (r: Option<i64>) {
        match v {
            Value::Int(n) => Some(*n),
            _ => None,
        }
    }

    proof fn lemma_embed_round_trip(&self) {
    }
}

} // verus!
