//! The values that the blackboard stores and the entries that configure it.

use vstd::prelude::*;

verus! {

/// A value of one of the five kinds that the blackboard stores. A
/// floating-point value is held as the bits of its IEEE 754 encoding, so
/// that it is read back exactly as it was written.
#[derive(Debug)]
pub enum BlackboardValue {
    String(String),
    Int(i32),
    Float(u32),
    Double(u64),
    Bool(bool),
}

/// The kind of a value.
#[derive(Clone, Copy, Debug, PartialEq, Eq, Structural)]
pub enum ValueKind {
    Utf8String,
    Int32,
    Float32,
    Float64,
    Bool,
}

/// What a value is, apart from how it is held in memory.
pub enum ValueView {
    String(Seq<char>),
    Int(i32),
    Float(u32),
    Double(u64),
    Bool(bool),
}

impl ValueView {
    /// The kind that the value carries.
    pub open spec fn kind(self) -> ValueKind {
        match self {
            ValueView::String(_) => ValueKind::Utf8String,
            ValueView::Int(_) => ValueKind::Int32,
            ValueView::Float(_) => ValueKind::Float32,
            ValueView::Double(_) => ValueKind::Float64,
            ValueView::Bool(_) => ValueKind::Bool,
        }
    }
}

impl ValueView {
    /// The text of a string value.
    pub open spec fn as_text(self) -> Seq<char> {
        match self {
            ValueView::String(v) => v,
            _ => Seq::empty(),
        }
    }

    /// The number of a 32-bit integer value.
    pub open spec fn as_int(self) -> i32 {
        match self {
            ValueView::Int(v) => v,
            _ => 0,
        }
    }

    /// The bits of a single-precision value.
    pub open spec fn as_float_bits(self) -> u32 {
        match self {
            ValueView::Float(v) => v,
            _ => 0,
        }
    }

    /// The bits of a double-precision value.
    pub open spec fn as_double_bits(self) -> u64 {
        match self {
            ValueView::Double(v) => v,
            _ => 0,
        }
    }

    /// The truth value of a boolean value.
    pub open spec fn as_bool(self) -> bool {
        match self {
            ValueView::Bool(v) => v,
            _ => false,
        }
    }
}

impl View for BlackboardValue {
    type V = ValueView;

    open spec fn view(&self) -> ValueView {
        match self {
            BlackboardValue::String(v) => ValueView::String(v@),
            BlackboardValue::Int(v) => ValueView::Int(*v),
            BlackboardValue::Float(v) => ValueView::Float(*v),
            BlackboardValue::Double(v) => ValueView::Double(*v),
            BlackboardValue::Bool(v) => ValueView::Bool(*v),
        }
    }
}

impl Clone for BlackboardValue {
    fn clone(&self) -> (copy: BlackboardValue)
        ensures
            copy@ == self@,
    {
        match self {
            BlackboardValue::String(v) => BlackboardValue::String(v.clone()),
            BlackboardValue::Int(v) => BlackboardValue::Int(*v),
            BlackboardValue::Float(v) => BlackboardValue::Float(*v),
            BlackboardValue::Double(v) => BlackboardValue::Double(*v),
            BlackboardValue::Bool(v) => BlackboardValue::Bool(*v),
        }
    }
}

impl BlackboardValue {
    /// The kind that the value carries.
    pub fn kind(&self) -> (kind: ValueKind)
        ensures
            kind == self@.kind(),
    {
        match self {
            BlackboardValue::String(_) => ValueKind::Utf8String,
            BlackboardValue::Int(_) => ValueKind::Int32,
            BlackboardValue::Float(_) => ValueKind::Float32,
            BlackboardValue::Double(_) => ValueKind::Float64,
            BlackboardValue::Bool(_) => ValueKind::Bool,
        }
    }
}

/// What an entry is: a key and the value under it.
pub type EntryView = (Seq<char>, ValueView);

/// A key with its value.
#[derive(Debug)]
pub struct BlackboardEntry {
    pub key: String,
    pub value: BlackboardValue,
}

impl View for BlackboardEntry {
    type V = EntryView;

    open spec fn view(&self) -> EntryView {
        (self.key@, self.value@)
    }
}

impl Clone for BlackboardEntry {
    fn clone(&self) -> (copy: BlackboardEntry)
        ensures
            copy@ == self@,
    {
        BlackboardEntry { key: self.key.clone(), value: self.value.clone() }
    }
}

} // verus!
