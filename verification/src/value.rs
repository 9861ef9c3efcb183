//! Footer field override values, their types, and the Thrift wire types they
//! are written as.

use std::collections::BTreeMap;
use vstd::prelude::*;

verus! {

/// The type a footer field override is expected to have when it is read back.
#[derive(Clone, Copy, Debug, PartialEq, Eq, Structural)]
pub enum FooterFieldValueType {
    Bool,
    String,
    Int32,
    Int64,
    Bytes,
}

/// A value written into (or read out of) a footer field that is overridden.
#[derive(Clone, Debug)]
pub enum FooterFieldValue {
    Bool(bool),
    String(String),
    Int32(i32),
    Int64(i64),
    Bytes(Vec<u8>),
}

/// The field types of the Thrift protocol, as they appear in a field header.
#[derive(Clone, Copy, Debug, PartialEq, Eq, Structural)]
pub enum WireType {
    Stop,
    Void,
    Bool,
    I08,
    Double,
    I16,
    I32,
    I64,
    String,
    Utf7,
    Struct,
    MapOf,
    SetOf,
    ListOf,
    Utf8,
    Utf16,
}

/// Field id to the type its override is read as.
pub type FooterFieldReadOverrides = BTreeMap<i16, FooterFieldValueType>;

/// Field id to the value that was read for it.
pub type FooterFieldValues = BTreeMap<i16, FooterFieldValue>;

/// The type of a value.
pub open spec fn spec_value_type(v: FooterFieldValue) -> FooterFieldValueType {
    match v {
        FooterFieldValue::Bool(_) => FooterFieldValueType::Bool,
        FooterFieldValue::String(_) => FooterFieldValueType::String,
        FooterFieldValue::Int32(_) => FooterFieldValueType::Int32,
        FooterFieldValue::Int64(_) => FooterFieldValueType::Int64,
        FooterFieldValue::Bytes(_) => FooterFieldValueType::Bytes,
    }
}

/// The Thrift wire type that a value of type `t` travels as: strings and
/// byte strings share the binary wire type.
pub open spec fn spec_wire_type(t: FooterFieldValueType) -> WireType {
    match t {
        FooterFieldValueType::Bool => WireType::Bool,
        FooterFieldValueType::String => WireType::String,
        FooterFieldValueType::Bytes => WireType::String,
        FooterFieldValueType::Int32 => WireType::I32,
        FooterFieldValueType::Int64 => WireType::I64,
    }
}

/// Two values are the same: the same kind, holding the same contents.
pub open spec fn spec_same_value(a: FooterFieldValue, b: FooterFieldValue) -> bool {
    match (a, b) {
        (FooterFieldValue::Bool(x), FooterFieldValue::Bool(y)) => x == y,
        (FooterFieldValue::String(x), FooterFieldValue::String(y)) => x@ == y@,
        (FooterFieldValue::Int32(x), FooterFieldValue::Int32(y)) => x == y,
        (FooterFieldValue::Int64(x), FooterFieldValue::Int64(y)) => x == y,
        (FooterFieldValue::Bytes(x), FooterFieldValue::Bytes(y)) => x@ == y@,
        _ => false,
    }
}

/// The name of a type in messages.
pub open spec fn spec_label(t: FooterFieldValueType) -> Seq<char> {
    match t {
        FooterFieldValueType::Bool => "bool"@,
        FooterFieldValueType::String => "string"@,
        FooterFieldValueType::Int32 => "i32"@,
        FooterFieldValueType::Int64 => "i64"@,
        FooterFieldValueType::Bytes => "bytes"@,
    }
}

impl FooterFieldValue {
    /// The type of this value.
    pub fn value_type(&self) -> (t: FooterFieldValueType)
        ensures
            t == spec_value_type(*self),
    {
        match self {
            FooterFieldValue::Bool(_) => FooterFieldValueType::Bool,
            FooterFieldValue::String(_) => FooterFieldValueType::String,
            FooterFieldValue::Int32(_) => FooterFieldValueType::Int32,
            FooterFieldValue::Int64(_) => FooterFieldValueType::Int64,
            FooterFieldValue::Bytes(_) => FooterFieldValueType::Bytes,
        }
    }
}

impl FooterFieldValueType {
    /// The Thrift wire type of a field of this type.
    pub fn wire_type(self) -> (w: WireType)
        ensures
            w == spec_wire_type(self),
    {
        match self {
            FooterFieldValueType::Bool => WireType::Bool,
            FooterFieldValueType::String | FooterFieldValueType::Bytes => WireType::String,
            FooterFieldValueType::Int32 => WireType::I32,
            FooterFieldValueType::Int64 => WireType::I64,
        }
    }

    /// The name of this type in messages: `bool`, `string`, `i32`, `i64` or
    /// `bytes`.
    pub fn label(self) -> (s: &'static str)
        ensures
            s@ == spec_label(self),
    {
        match self {
            FooterFieldValueType::Bool => "bool",
            FooterFieldValueType::String => "string",
            FooterFieldValueType::Int32 => "i32",
            FooterFieldValueType::Int64 => "i64",
            FooterFieldValueType::Bytes => "bytes",
        }
    }
}

} // verus!
