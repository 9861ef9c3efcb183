//! Errors of reading and writing footer field overrides.

use crate::value::{FooterFieldValueType, WireType};
use vstd::prelude::*;

verus! {

/// Why reading or writing an overridden footer field failed.
#[derive(Debug)]
pub enum OverrideError {
    /// The Thrift protocol failed.
    Thrift(thrift::Error),
    /// An overridden field arrived with another wire type than its override
    /// declares.
    TypeMismatch { field_id: i16, expected: FooterFieldValueType, found: WireType },
}

} // verus!
