//! The values under evaluation: a text and the tag it was built with.
use crate::decimal::{
    decimal_string, decimal_text, decimal_value, decimal_value_i64, lemma_decimal_round_trip,
    parse_decimal,
};
use vstd::prelude::*;
use vstd::std_specs::cmp::PartialEqSpecImpl;

verus! {

/// The tag of a value: a number or a piece of text.
#[derive(Debug, Clone, Copy, PartialEq, Eq, Structural)]
pub enum ValueKind {
    Number,
    Literal,
}

/// A tagged scalar: its textual form and the tag it was built with. The tag is
/// fixed at construction. A value built from a number holds that number's
/// decimal notation.
#[derive(Debug)]
pub struct Value {
    inner: String,
    kind: ValueKind,
}

/// What a [`Value`] is to a contract.
pub struct ValueView {
    pub text: Seq<char>,
    pub kind: ValueKind,
}

impl ValueView {
    /// The integer that the text denotes, if it denotes one.
    pub open spec fn number(self) -> Option<int> {
        decimal_value(self.text)
    }

    /// A value tagged as a number holds the decimal notation of an integer
    /// that a `u32` or an `i32` can hold.
    pub open spec fn well_formed(self) -> bool {
        self.kind == ValueKind::Number ==> exists|n: int|
            i32::MIN <= n <= u32::MAX && self.text == #[trigger] decimal_text(n)
    }
}

impl View for Value {
    type V = ValueView;

    closed spec fn view(&self) -> ValueView {
        ValueView { text: self.inner@, kind: self.kind }
    }
}

impl Value {
    #[verifier::type_invariant]
    spec fn inv(self) -> bool {
        self@.well_formed()
    }

    /// The value of an integer, tagged as a number.
    fn of_integer(n: i64) -> (r: Value)
        requires
            i32::MIN <= n <= u32::MAX,
        ensures
            r@ == (ValueView { text: decimal_text(n as int), kind: ValueKind::Number }),
    {
        Value { inner: decimal_string(n), kind: ValueKind::Number }
    }

    /// Whether the value carries the tag `kind`.
    pub fn is_kind_of(&self, kind: ValueKind) -> (b: bool)
        ensures
            b == (self@.kind == kind),
    {
        self.kind == kind
    }

    /// The textual form of the value.
    pub fn to_string(&self) -> (s: String)
        ensures
            s@ == self@.text,
    {
        self.inner.clone()
    }

    /// The integer that the text denotes, whatever the tag: `None` where the
    /// text is no integer in decimal notation, or one beyond 64 bits. A value
    /// tagged as a number always denotes one.
    pub fn to_integer(&self) -> (r: Option<i64>)
        ensures
            r == decimal_value_i64(self@.text),
            self@.well_formed(),
            self@.kind == ValueKind::Number ==> r is Some,
    {
        proof {
            use_type_invariant(self);
            if self@.kind == ValueKind::Number {
                let n = choose|n: int|
                    i32::MIN <= n <= u32::MAX && self@.text == #[trigger] decimal_text(n);
                lemma_decimal_round_trip(n);
            }
        }
        parse_decimal(self.inner.as_str())
    }
}

impl PartialEqSpecImpl for Value {
    open spec fn obeys_eq_spec() -> bool {
        true
    }

    open spec fn eq_spec(&self, other: &Value) -> bool {
        self@ == other@
    }
}

impl PartialEq for Value {
    /// Two values are equal where their texts and their tags are.
    fn eq(&self, other: &Value) -> (r: bool) {
        self.inner == other.inner && self.kind == other.kind
    }
}

impl Eq for Value {}

impl Clone for Value {
    fn clone(&self) -> (r: Value)
        ensures
            r@ == self@,
    {
        proof {
            use_type_invariant(self);
        }
        Value { inner: self.inner.clone(), kind: self.kind }
    }
}

/// The conversions into and out of a value are specified on `from` itself,
/// over the view: a text does not determine the `String` that holds it.
impl vstd::std_specs::convert::FromSpecImpl<u32> for Value {
    open spec fn obeys_from_spec() -> bool {
        false
    }

    open spec fn from_spec(v: u32) -> Value {
        arbitrary()
    }
}

impl From<u32> for Value {
    /// The value of an unsigned number: its decimal notation, tagged as a
    /// number.
    fn from(value: u32) -> (r: Value)
        ensures
            r@ == (ValueView { text: decimal_text(value as int), kind: ValueKind::Number }),
    {
        Value::of_integer(value as i64)
    }
}

impl vstd::std_specs::convert::FromSpecImpl<i32> for Value {
    open spec fn obeys_from_spec() -> bool {
        false
    }

    open spec fn from_spec(v: i32) -> Value {
        arbitrary()
    }
}

impl From<i32> for Value {
    /// The value of a signed number: its decimal notation, tagged as a number.
    fn from(value: i32) -> (r: Value)
        ensures
            r@ == (ValueView { text: decimal_text(value as int), kind: ValueKind::Number }),
    {
        Value::of_integer(value as i64)
    }
}

impl<'a> vstd::std_specs::convert::FromSpecImpl<&'a str> for Value {
    open spec fn obeys_from_spec() -> bool {
        false
    }

    open spec fn from_spec(v: &'a str) -> Value {
        arbitrary()
    }
}

impl<'a> From<&'a str> for Value {
    /// The value of a text: the text itself, tagged as a literal.
    fn from(value: &'a str) -> (r: Value)
        ensures
            r@ == (ValueView { text: value@, kind: ValueKind::Literal }),
    {
        Value { inner: value.to_owned(), kind: ValueKind::Literal }
    }
}

impl vstd::std_specs::convert::FromSpecImpl<Value> for String {
    open spec fn obeys_from_spec() -> bool {
        false
    }

    open spec fn from_spec(v: Value) -> String {
        arbitrary()
    }
}

impl From<Value> for String {
    /// The textual form of the value, which is consumed.
    fn from(value: Value) -> (s: String)
        ensures
            s@ == value@.text,
    {
        value.inner
    }
}

impl<'a> vstd::std_specs::convert::FromSpecImpl<&'a Value> for String {
    open spec fn obeys_from_spec() -> bool {
        false
    }

    open spec fn from_spec(v: &'a Value) -> String {
        arbitrary()
    }
}

impl<'a> From<&'a Value> for String {
    /// The textual form of the value.
    fn from(value: &'a Value) -> (s: String)
        ensures
            s@ == value@.text,
    {
        value.inner.clone()
    }
}

} // verus!
