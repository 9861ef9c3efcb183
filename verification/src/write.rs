//! Writing an overridden footer field.

use crate::compact::{
    compact_binary, compact_bool_field, compact_field_header, compact_i32, compact_i64,
    delta_fits, last_field_id, pending_bool_field, written_bytes, CompactWriter,
    FieldHeader,
};
use crate::error::OverrideError;
use crate::value::{spec_value_type, spec_wire_type, FooterFieldValue};
use vstd::prelude::*;
use vstd::utf8::encode_utf8;

verus! {

/// The compact field header of field `field_id` holding `value`, written
/// against the id base `base`; a bool's value rides in it.
pub open spec fn spec_field_header_bytes(field_id: i16, base: i16, value: FooterFieldValue) -> Seq<
    u8,
> {
    match value {
        FooterFieldValue::Bool(b) => compact_bool_field(field_id, base, b),
        _ => compact_field_header(spec_wire_type(spec_value_type(value)), field_id, base),
    }
}

/// The compact bytes of `value` after its field header: none for a bool.
pub open spec fn spec_value_bytes(value: FooterFieldValue) -> Seq<u8> {
    match value {
        FooterFieldValue::Bool(_) => Seq::empty(),
        FooterFieldValue::String(s) => compact_binary(encode_utf8(s@)),
        FooterFieldValue::Int32(i) => compact_i32(i),
        FooterFieldValue::Int64(i) => compact_i64(i),
        FooterFieldValue::Bytes(b) => compact_binary(b@),
    }
}

/// The compact bytes of field `field_id` holding `value`, written against the
/// id base `base`: its header, then the value.
pub open spec fn spec_field_bytes(field_id: i16, base: i16, value: FooterFieldValue) -> Seq<u8> {
    spec_field_header_bytes(field_id, base, value) + spec_value_bytes(value)
}

/// The field header for writing `value` as field `field_id` named
/// `field_name`: the name, the wire type of the value's type (strings and
/// byte strings both travel as Thrift strings), and the id.
pub fn footer_field_header(field_id: i16, field_name: &str, value: &FooterFieldValue) -> (h:
    FieldHeader)
    ensures
        h.name matches Some(n) && n@ == field_name@,
        h.field_type == spec_wire_type(spec_value_type(*value)),
        h.id == Some(field_id),
{
    let field_type = value.value_type().wire_type();
    FieldHeader { name: Some(field_name.to_owned()), field_type, id: Some(field_id) }
}

/// Writes `value` as field `field_id` named `field_name`: the header from
/// `footer_field_header`, the value by the write of its kind, and the end of
/// the field. Into a `Vec<u8>` this does not fail; it appends the field's
/// compact bytes against the writer's id base, after which no bool header is
/// held back and `field_id` is the id base.
pub fn write_footer_field_value(
    protocol: &mut CompactWriter,
    field_id: i16,
    field_name: &str,
    value: &FooterFieldValue,
) -> (r: Result<(), OverrideError>)
    requires
        pending_bool_field(*old(protocol)) is None,
        delta_fits(field_id, last_field_id(*old(protocol))),
    ensures
        r is Ok,
        written_bytes(*final(protocol)) == written_bytes(*old(protocol)) + spec_field_bytes(
            field_id,
            last_field_id(*old(protocol)),
            *value,
        ),
        pending_bool_field(*final(protocol)) is None,
        last_field_id(*final(protocol)) == field_id,
{
    let header = footer_field_header(field_id, field_name, value);
    if let Err(e) = protocol.write_field_begin(&header) {
        return Err(OverrideError::Thrift(e));
    }
    let written = match value {
        FooterFieldValue::Bool(v) => protocol.write_bool(*v),
        FooterFieldValue::String(v) => protocol.write_string(v.as_str()),
        FooterFieldValue::Int32(v) => protocol.write_i32(*v),
        FooterFieldValue::Int64(v) => protocol.write_i64(*v),
        FooterFieldValue::Bytes(v) => protocol.write_bytes(v.as_slice()),
    };
    if let Err(e) = written {
        return Err(OverrideError::Thrift(e));
    }
    match protocol.write_field_end() {
        Ok(()) => Ok(()),
        Err(e) => Err(OverrideError::Thrift(e)),
    }
}

} // verus!
