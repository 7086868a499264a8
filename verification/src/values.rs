//! Sensor values and the range predicates that test them.

use vstd::prelude::*;

verus! {

/// A tagged value: a sensor reading, or an argument handed to a device.
///
/// Numbers are integers, counted in the smallest unit of the capability
/// they belong to.
#[derive(Debug, PartialEq, Eq)]
pub enum Value {
    String(String),
    Bool(bool),
    Num(i64),
    /// A structured document, kept as its text.
    Json(String),
    /// An opaque blob.
    Blob { data: Vec<u8>, mime_type: String },
    Vec(Vec<Value>),
}

/// What a [`Value`] holds, as mathematics.
pub ghost enum ValueView {
    String(Seq<char>),
    Bool(bool),
    Num(int),
    Json(Seq<char>),
    Blob { data: Seq<u8>, mime_type: Seq<char> },
    Vec(Seq<ValueView>),
}

/// The views of a sequence of values, in order.
pub open spec fn views_of(values: Seq<Value>) -> Seq<ValueView>
    decreases values,
{
    Seq::new(values.len(), |i: int| if 0 <= i < values.len() { values[i].view() } else { arbitrary() })
}

impl View for Value {
    type V = ValueView;

    open spec fn view(&self) -> ValueView
        decreases self,
    {
        match self {
            Value::String(s) => ValueView::String(s@),
            Value::Bool(b) => ValueView::Bool(*b),
            Value::Num(n) => ValueView::Num(*n as int),
            Value::Json(s) => ValueView::Json(s@),
            Value::Blob { data, mime_type } => ValueView::Blob { data: data@, mime_type: mime_type@ },
            Value::Vec(items) => ValueView::Vec(views_of(items@)),
        }
    }
}

impl Clone for Value {
    /// A deep copy: the copy holds what this value holds.
    fn clone(&self) -> (copy: Self)
        ensures
            copy@ == self@,
        decreases self,
    {
        match self {
            Value::String(s) => Value::String(s.clone()),
            Value::Bool(b) => Value::Bool(*b),
            Value::Num(n) => Value::Num(*n),
            Value::Json(s) => Value::Json(s.clone()),
            Value::Blob { data, mime_type } => {
                let bytes = data.clone();
                assert(bytes@ =~= data@);
                Value::Blob { data: bytes, mime_type: mime_type.clone() }
            },
            Value::Vec(items) => {
                let mut copies: Vec<Value> = Vec::new();
                let mut i: usize = 0;
                while i < items.len()
                    invariant
                        *self == Value::Vec(*items),
                        i <= items.len(),
                        copies@.len() == i,
                        forall|k: int| 0 <= k < i ==> (#[trigger] copies@[k])@ == items@[k]@,
                    decreases items.len() - i,
                {
                    proof {
                        vstd::std_specs::vec::axiom_vec_index_decreases(*items, i as int);
                        assert(decreases_to!(*self => self->Vec_0));
                    }
                    copies.push(items[i].clone());
                    i += 1;
                }
                assert(views_of(copies@) =~= views_of(items@));
                Value::Vec(copies)
            },
        }
    }
}

/// A predicate on values: the set of readings that satisfy a condition.
#[derive(Debug, PartialEq, Eq)]
pub enum Range {
    /// Numbers up to and including the bound.
    Leq(i64),
    /// Numbers from the bound upwards, the bound included.
    Geq(i64),
    /// Numbers between the two bounds, both included.
    BetweenEq { min: i64, max: i64 },
    /// Numbers below `min` or above `max`, both bounds excluded.
    OutOfStrict { min: i64, max: i64 },
    /// The one string.
    EqString(String),
    /// The one boolean.
    EqBool(bool),
    /// Every value.
    Any,
}

/// What a [`Range`] holds, as mathematics.
pub ghost enum RangeView {
    Leq(int),
    Geq(int),
    BetweenEq { min: int, max: int },
    OutOfStrict { min: int, max: int },
    EqString(Seq<char>),
    EqBool(bool),
    Any,
}

impl RangeView {
    /// Whether `value` lies in the range.
    ///
    /// `Any` takes every value. A boolean is tested by `EqBool` only, a
    /// string by `EqString` only, a number by the four numeric ranges only.
    /// Every other pairing is a mismatch of kinds, and a mismatch is no
    /// error: the value is simply not in the range.
    pub open spec fn accepts(self, value: ValueView) -> bool {
        match (self, value) {
            (RangeView::Any, _) => true,
            (RangeView::EqBool(expected), ValueView::Bool(b)) => b == expected,
            (RangeView::EqString(expected), ValueView::String(s)) => s == expected,
            (RangeView::Leq(max), ValueView::Num(x)) => x <= max,
            (RangeView::Geq(min), ValueView::Num(x)) => min <= x,
            (RangeView::BetweenEq { min, max }, ValueView::Num(x)) => min <= x <= max,
            (RangeView::OutOfStrict { min, max }, ValueView::Num(x)) => x < min || max < x,
            _ => false,
        }
    }
}

impl View for Range {
    type V = RangeView;

    open spec fn view(&self) -> RangeView {
        match self {
            Range::Leq(max) => RangeView::Leq(*max as int),
            Range::Geq(min) => RangeView::Geq(*min as int),
            Range::BetweenEq { min, max } => RangeView::BetweenEq { min: *min as int, max: *max as int },
            Range::OutOfStrict { min, max } => RangeView::OutOfStrict {
                min: *min as int,
                max: *max as int,
            },
            Range::EqString(s) => RangeView::EqString(s@),
            Range::EqBool(b) => RangeView::EqBool(*b),
            Range::Any => RangeView::Any,
        }
    }
}

impl Clone for Range {
    fn clone(&self) -> (copy: Self)
        ensures
            copy@ == self@,
    {
        match self {
            Range::Leq(max) => Range::Leq(*max),
            Range::Geq(min) => Range::Geq(*min),
            Range::BetweenEq { min, max } => Range::BetweenEq { min: *min, max: *max },
            Range::OutOfStrict { min, max } => Range::OutOfStrict { min: *min, max: *max },
            Range::EqString(s) => Range::EqString(s.clone()),
            Range::EqBool(b) => Range::EqBool(*b),
            Range::Any => Range::Any,
        }
    }
}

impl Range {
    /// Tests a value against the range.
    pub fn accepts(&self, value: &Value) -> (inside: bool)
        ensures
            inside == self@.accepts(value@),
    {
        match (self, value) {
            (Range::Any, _) => true,
            (Range::EqBool(expected), Value::Bool(b)) => *b == *expected,
            (Range::EqString(expected), Value::String(s)) => *s == *expected,
            (Range::Leq(max), Value::Num(x)) => *x <= *max,
            (Range::Geq(min), Value::Num(x)) => *min <= *x,
            (Range::BetweenEq { min, max }, Value::Num(x)) => *min <= *x && *x <= *max,
            (Range::OutOfStrict { min, max }, Value::Num(x)) => *x < *min || *max < *x,
            _ => false,
        }
    }
}

} // verus!
