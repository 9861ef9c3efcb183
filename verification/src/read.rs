//! Reading overridden footer fields: the value of one field, and a reader
//! that takes the overridden fields of the footer struct out of the field
//! stream before the footer decoder sees them.

use crate::compact::{
    binary_cut_short, binary_read, bool_read, byte_read, collection_header_read,
    compact_bool_field, compact_field_header, consumed_exactly, consumes, delta_fits,
    double_read, i16_read, i32_read, i64_read, i8_read, last_read_field_id, map_header_read,
    message_header_read, next_header_safe, open_structs, pending_read_bool, plain_field_type,
    string_bytes_bad, string_read, unread_bytes, unread_starts_with, varint_unterminated,
    decode_field_header, lemma_field_header_decoding, CompactReader, FieldHeader,
};
use crate::error::OverrideError;
use crate::write::{spec_field_bytes, spec_field_header_bytes, spec_value_bytes};
use crate::value::{
    spec_same_value, spec_value_type, spec_wire_type, FooterFieldReadOverrides, FooterFieldValue,
    FooterFieldValueType, FooterFieldValues, WireType,
};
use thrift::protocol::{
    TListIdentifier, TMapIdentifier, TMessageIdentifier, TSetIdentifier, TStructIdentifier,
};
use vstd::prelude::*;
use vstd::utf8::encode_utf8;

verus! {

broadcast use vstd::std_specs::btree::group_btree_axioms;

/// A string or byte string short enough (a string by its UTF-8 bytes) for
/// its `u32` length prefix; any other value.
pub open spec fn value_fits(value: FooterFieldValue) -> bool {
    match value {
        FooterFieldValue::String(s) => encode_utf8(s@).len() <= u32::MAX,
        FooterFieldValue::Bytes(b) => b@.len() <= u32::MAX,
        _ => true,
    }
}

/// The reader stands at `value` as written after its field header: a bool
/// kept from the header, or the value's compact bytes at the front.
pub open spec fn stream_holds_value(r: CompactReader, value: FooterFieldValue) -> bool {
    &&& value_fits(value)
    &&& match value {
        FooterFieldValue::Bool(b) => pending_read_bool(r) == Some(b),
        _ => unread_starts_with(r, spec_value_bytes(value)),
    }
}

/// What the read of kind `t` gave, handed on as a footer value: its value
/// under the variant of `t`, its error as a Thrift error, both unchanged; the
/// read itself went from reader `old_r` to `new_r`.
pub open spec fn inner_read_handed_on(
    old_r: CompactReader,
    new_r: CompactReader,
    t: FooterFieldValueType,
    r: Result<FooterFieldValue, OverrideError>,
) -> bool {
    match t {
        FooterFieldValueType::Bool => exists|x: Result<bool, thrift::Error>|
            #[trigger] bool_read(old_r, new_r, x) && r == match x {
                Ok(v) => Ok::<FooterFieldValue, OverrideError>(FooterFieldValue::Bool(v)),
                Err(e) => Err::<FooterFieldValue, OverrideError>(OverrideError::Thrift(e)),
            },
        FooterFieldValueType::String => exists|x: Result<String, thrift::Error>|
            #[trigger] string_read(old_r, new_r, x) && r == match x {
                Ok(v) => Ok::<FooterFieldValue, OverrideError>(FooterFieldValue::String(v)),
                Err(e) => Err::<FooterFieldValue, OverrideError>(OverrideError::Thrift(e)),
            },
        FooterFieldValueType::Int32 => exists|x: Result<i32, thrift::Error>|
            #[trigger] i32_read(old_r, new_r, x) && r == match x {
                Ok(v) => Ok::<FooterFieldValue, OverrideError>(FooterFieldValue::Int32(v)),
                Err(e) => Err::<FooterFieldValue, OverrideError>(OverrideError::Thrift(e)),
            },
        FooterFieldValueType::Int64 => exists|x: Result<i64, thrift::Error>|
            #[trigger] i64_read(old_r, new_r, x) && r == match x {
                Ok(v) => Ok::<FooterFieldValue, OverrideError>(FooterFieldValue::Int64(v)),
                Err(e) => Err::<FooterFieldValue, OverrideError>(OverrideError::Thrift(e)),
            },
        FooterFieldValueType::Bytes => exists|x: Result<Vec<u8>, thrift::Error>|
            #[trigger] binary_read(old_r, new_r, x) && r == match x {
                Ok(v) => Ok::<FooterFieldValue, OverrideError>(FooterFieldValue::Bytes(v)),
                Err(e) => Err::<FooterFieldValue, OverrideError>(OverrideError::Thrift(e)),
            },
    }
}

/// The read of kind `t` fails on `bytes`: they are empty, or an integer's
/// varint does not end within its longest form, or a length prefix runs
/// past the end of the bytes, or a string's bytes are not UTF-8. (A bool's
/// value may be kept from its header, so no bytes make it fail here.)
pub open spec fn value_read_fails(t: FooterFieldValueType, bytes: Seq<u8>) -> bool {
    match t {
        FooterFieldValueType::Bool => false,
        FooterFieldValueType::Int32 => varint_unterminated(bytes, 5),
        FooterFieldValueType::Int64 => varint_unterminated(bytes, 10),
        FooterFieldValueType::Bytes => bytes.len() == 0 || exists|len: nat|
            #[trigger] binary_cut_short(bytes, len),
        FooterFieldValueType::String => bytes.len() == 0 || exists|len: nat|
            #[trigger] string_bytes_bad(bytes, len),
    }
}

/// Reads the value of field `field_id`, which arrived with wire type
/// `actual_type` and is overridden as `expected_type`. A wire type other than
/// the one that `expected_type` travels as is refused before anything is
/// read; otherwise the value is read by the read of its kind, whose value or
/// error is handed on unchanged (`inner_read_handed_on`), and a value of type
/// `expected_type` that was written there comes back as it was written.
pub fn read_footer_field_value(
    protocol: &mut CompactReader,
    field_id: i16,
    actual_type: WireType,
    expected_type: FooterFieldValueType,
) -> (r: Result<FooterFieldValue, OverrideError>)
    ensures
        actual_type != spec_wire_type(expected_type) ==> {
            &&& r == Err::<FooterFieldValue, OverrideError>(
                OverrideError::TypeMismatch { field_id, expected: expected_type, found: actual_type },
            )
            &&& *final(protocol) == *old(protocol)
        },
        actual_type == spec_wire_type(expected_type) ==> {
            &&& consumes(*old(protocol), *final(protocol))
            &&& last_read_field_id(*final(protocol)) == last_read_field_id(*old(protocol))
            &&& r matches Ok(v) ==> spec_value_type(v) == expected_type
            &&& r matches Err(e) ==> e is Thrift
            &&& inner_read_handed_on(*old(protocol), *final(protocol), expected_type, r)
        },
        actual_type == spec_wire_type(expected_type) && value_read_fails(
            expected_type,
            unread_bytes(*old(protocol)),
        ) ==> (match r {
            Err(OverrideError::Thrift(_)) => true,
            _ => false,
        }),
        forall|v: FooterFieldValue|
            #![trigger stream_holds_value(*old(protocol), v)]
            actual_type == spec_wire_type(expected_type) && spec_value_type(v) == expected_type
                && stream_holds_value(*old(protocol), v) ==> {
                &&& r matches Ok(x) && spec_same_value(x, v)
                &&& consumed_exactly(*old(protocol), *final(protocol), spec_value_bytes(v))
            },
{
    let expected_wire = expected_type.wire_type();
    if actual_type != expected_wire {
        return Err(
            OverrideError::TypeMismatch { field_id, expected: expected_type, found: actual_type },
        );
    }
    match expected_type {
        FooterFieldValueType::Bool => match protocol.read_bool() {
            Ok(v) => Ok(FooterFieldValue::Bool(v)),
            Err(e) => Err(OverrideError::Thrift(e)),
        },
        FooterFieldValueType::String => match protocol.read_string() {
            Ok(v) => Ok(FooterFieldValue::String(v)),
            Err(e) => Err(OverrideError::Thrift(e)),
        },
        FooterFieldValueType::Int32 => match protocol.read_i32() {
            Ok(v) => Ok(FooterFieldValue::Int32(v)),
            Err(e) => Err(OverrideError::Thrift(e)),
        },
        FooterFieldValueType::Int64 => match protocol.read_i64() {
            Ok(v) => Ok(FooterFieldValue::Int64(v)),
            Err(e) => Err(OverrideError::Thrift(e)),
        },
        FooterFieldValueType::Bytes => match protocol.read_bytes() {
            Ok(v) => Ok(FooterFieldValue::Bytes(v)),
            Err(e) => Err(OverrideError::Thrift(e)),
        },
    }
}

/// What the reader does with a field header it has read.
#[derive(Clone, Copy, Debug, PartialEq, Eq, Structural)]
pub enum FieldAction {
    /// Hand the header on to the decoder.
    PassOn,
    /// Take the field's value out of the stream as an override of this type.
    Capture(i16, FooterFieldValueType),
}

/// A field is taken out when it is a real field (not `Stop`, with an id) of
/// the outermost struct (nesting depth 1) and its id has an override.
pub open spec fn spec_field_action(
    depth: u32,
    overrides: Map<i16, FooterFieldValueType>,
    header: FieldHeader,
) -> FieldAction {
    if header.field_type == WireType::Stop {
        FieldAction::PassOn
    } else {
        match header.id {
            None => FieldAction::PassOn,
            Some(id) => if depth == 1 && overrides.contains_key(id) {
                FieldAction::Capture(id, overrides[id])
            } else {
                FieldAction::PassOn
            },
        }
    }
}

/// Every overridden id is at most `i16::MAX - 15`, so that a short field
/// header after it (id delta up to 15) cannot carry the id past `i16::MAX`.
pub open spec fn ids_leave_delta_room(overrides: Map<i16, FooterFieldValueType>) -> bool {
    forall|k: i16| #![trigger overrides.contains_key(k)] overrides.contains_key(k) ==> k <= i16::MAX - 15
}

/// Every captured value sits under an overridden id and has the type that
/// its override declares.
pub open spec fn values_match_overrides(
    values: Map<i16, FooterFieldValue>,
    overrides: Map<i16, FooterFieldValueType>,
) -> bool {
    forall|k: i16|
        #![trigger values.contains_key(k)]
        values.contains_key(k) ==> overrides.contains_key(k) && spec_value_type(values[k])
            == overrides[k]
}

/// The bytes before `b` at the front of `s` come off first; then `b` stands
/// at the front of what is left.
proof fn lemma_prefix_concat(a: Seq<u8>, b: Seq<u8>, s: Seq<u8>)
    requires
        (a + b).is_prefix_of(s),
    ensures
        a.is_prefix_of(s),
        b.is_prefix_of(s.skip(a.len() as int)),
{
    assert((a + b).subrange(0, a.len() as int) =~= a);
    assert(s.skip(a.len() as int).subrange(0, b.len() as int) =~= (a + b).subrange(
        a.len() as int,
        (a + b).len() as int,
    ));
}

/// Skipping twice is skipping the sum.
proof fn lemma_skip_skip(s: Seq<u8>, i: int, j: int)
    requires
        0 <= i,
        0 <= j,
        i + j <= s.len(),
    ensures
        s.skip(i).skip(j) == s.skip(i + j),
{
    assert(s.skip(i).skip(j) =~= s.skip(i + j));
}

/// A Thrift input protocol over a footer that takes the overridden fields of
/// the outermost struct out of the field stream, records their values, and
/// passes everything else on unchanged.
pub struct OverrideInputProtocol<'a> {
    inner: &'a mut CompactReader,
    overrides: &'a FooterFieldReadOverrides,
    values: FooterFieldValues,
    structs: u32,
}

/// What ends a run of taken-out fields: the end of the struct, a header of a
/// type other than bool, a bool field's header with its value, the end of
/// the bytes, or the header of a field to be taken out as type `t` (not a
/// bool) followed by bytes on which the read of its value fails.
pub enum NextHeader {
    Stop,
    Plain(WireType, i16),
    BoolField(i16, bool),
    End,
    BadValue(i16, FooterFieldValueType),
}

/// The header that `e` reads back as (the end of the bytes reads as none;
/// it is given the `Stop` header here, which nothing uses).
pub open spec fn next_header_of(e: NextHeader) -> FieldHeader {
    match e {
        NextHeader::Stop => FieldHeader { name: None, field_type: WireType::Stop, id: None },
        NextHeader::End => FieldHeader { name: None, field_type: WireType::Stop, id: None },
        NextHeader::BadValue(id, t) => FieldHeader {
            name: None,
            field_type: spec_wire_type(t),
            id: Some(id),
        },
        NextHeader::Plain(t, id) => FieldHeader { name: None, field_type: t, id: Some(id) },
        NextHeader::BoolField(id, _) => FieldHeader {
            name: None,
            field_type: WireType::Bool,
            id: Some(id),
        },
    }
}

/// The compact bytes of `e` written against the id base `base`.
pub open spec fn next_header_bytes(e: NextHeader, base: i16) -> Seq<u8> {
    match e {
        NextHeader::Stop => seq![0u8],
        NextHeader::End => Seq::empty(),
        NextHeader::BadValue(id, t) => compact_field_header(spec_wire_type(t), id, base),
        NextHeader::Plain(t, id) => compact_field_header(t, id, base),
        NextHeader::BoolField(id, b) => compact_bool_field(id, base, b),
    }
}

/// `e` is a header the writer can write against `base` and the reader reads
/// back.
pub open spec fn next_header_readable(e: NextHeader, base: i16) -> bool {
    match e {
        NextHeader::Stop => true,
        NextHeader::End => true,
        NextHeader::BadValue(id, t) => t != FooterFieldValueType::Bool && delta_fits(id, base),
        NextHeader::Plain(t, id) => plain_field_type(t) && delta_fits(id, base),
        NextHeader::BoolField(id, _) => delta_fits(id, base),
    }
}

/// The id base after a run of fields written from `base`: the id of the last
/// field, or `base` for no field.
pub open spec fn run_base(fields: Seq<(i16, FooterFieldValue)>, base: i16) -> i16 {
    if fields.len() == 0 {
        base
    } else {
        fields.last().0
    }
}

/// The compact bytes of a run of fields, each written against the id of the
/// one before it, the first against `base`.
pub open spec fn run_bytes(fields: Seq<(i16, FooterFieldValue)>, base: i16) -> Seq<u8>
    decreases fields.len(),
{
    if fields.len() == 0 {
        Seq::empty()
    } else {
        run_bytes(fields.drop_last(), base) + spec_field_bytes(
            fields.last().0,
            run_base(fields.drop_last(), base),
            fields.last().1,
        )
    }
}

/// `values` with the fields of the run recorded in order, a later one
/// replacing an earlier one with the same id.
pub open spec fn run_values(
    values: Map<i16, FooterFieldValue>,
    fields: Seq<(i16, FooterFieldValue)>,
) -> Map<i16, FooterFieldValue>
    decreases fields.len(),
{
    if fields.len() == 0 {
        values
    } else {
        run_values(values, fields.drop_last()).insert(fields.last().0, fields.last().1)
    }
}

/// Two maps of values hold the same ids, with the same values.
pub open spec fn same_values(a: Map<i16, FooterFieldValue>, b: Map<i16, FooterFieldValue>) -> bool {
    &&& a.dom() == b.dom()
    &&& forall|k: i16| #![trigger a[k]] a.contains_key(k) ==> spec_same_value(a[k], b[k])
}

/// Each field of the run is one the reader takes out: it is in the outermost
/// struct, overridden as the type of its value, short enough for its length
/// prefix, and its id delta from the one before fits.
pub open spec fn run_taken_out(
    p: OverrideInputProtocol,
    fields: Seq<(i16, FooterFieldValue)>,
    base: i16,
) -> bool {
    &&& fields.len() > 0 ==> p.depth() == 1
    &&& forall|i: int|
        #![trigger fields[i]]
        0 <= i < fields.len() ==> {
            &&& p.overrides().contains_key(fields[i].0)
            &&& p.overrides()[fields[i].0] == spec_value_type(fields[i].1)
            &&& value_fits(fields[i].1)
            &&& delta_fits(fields[i].0, run_base(fields.take(i), base))
        }
}

/// The reader stands before a run of overridden fields, as the writer wrote
/// them from the reader's id base, and then the header `e`, which is not
/// taken out as a field: it is passed on, or it is an overridden field of
/// another wire type than its override's; or the bytes end after the run,
/// or after the header of one more field taken out.
pub open spec fn stream_at_run(
    p: OverrideInputProtocol,
    fields: Seq<(i16, FooterFieldValue)>,
    e: NextHeader,
) -> bool {
    let base = last_read_field_id(p.reader());
    let end = run_base(fields, base);
    &&& run_taken_out(p, fields, base)
    &&& next_header_readable(e, end)
    &&& unread_starts_with(p.reader(), run_bytes(fields, base) + next_header_bytes(e, end))
    &&& match e {
        NextHeader::End => unread_bytes(p.reader()) == run_bytes(fields, base),
        NextHeader::BadValue(id, t) => {
            &&& spec_field_action(p.depth(), p.overrides(), next_header_of(e))
                == FieldAction::Capture(id, t)
            &&& value_read_fails(
                t,
                unread_bytes(p.reader()).skip(
                    (run_bytes(fields, base) + next_header_bytes(e, end)).len() as int,
                ),
            )
        },
        _ => spec_field_action(p.depth(), p.overrides(), next_header_of(e)) matches FieldAction::Capture(
            _,
            t,
        ) ==> next_header_of(e).field_type != spec_wire_type(t),
    }
}

/// What `read_field_begin` gives when the reader stood before the run
/// `fields` and then `e`: the run's bytes and `e`'s consumed, the run's values
/// recorded in order, and `e` passed on, or refused as a type mismatch; at
/// the end of the bytes, or at a field whose value cannot be read, a Thrift
/// error, with the run's values recorded and nothing for that field (the
/// failed read consumes some of what follows the header, not said how much).
pub open spec fn run_outcome(
    old_p: OverrideInputProtocol,
    new_p: OverrideInputProtocol,
    fields: Seq<(i16, FooterFieldValue)>,
    e: NextHeader,
    r: Result<FieldHeader, OverrideError>,
) -> bool {
    let base = last_read_field_id(old_p.reader());
    let end = run_base(fields, base);
    &&& if e is BadValue {
        unread_bytes(new_p.reader()).is_suffix_of(
            unread_bytes(old_p.reader()).skip(
                (run_bytes(fields, base) + next_header_bytes(e, end)).len() as int,
            ),
        )
    } else {
        consumed_exactly(
            old_p.reader(),
            new_p.reader(),
            run_bytes(fields, base) + next_header_bytes(e, end),
        )
    }
    &&& same_values(new_p.values(), run_values(old_p.values(), fields))
    &&& if e is End || e is BadValue {
        match r {
            Err(OverrideError::Thrift(_)) => true,
            _ => false,
        }
    } else {
        match spec_field_action(old_p.depth(), old_p.overrides(), next_header_of(e)) {
            FieldAction::PassOn => {
                &&& r == Ok::<FieldHeader, OverrideError>(next_header_of(e))
                &&& e matches NextHeader::BoolField(_, b) ==> pending_read_bool(new_p.reader())
                    == Some(b)
            },
            FieldAction::Capture(id, t) => r == Err::<FieldHeader, OverrideError>(
                OverrideError::TypeMismatch {
                    field_id: id,
                    expected: t,
                    found: next_header_of(e).field_type,
                },
            ),
        }
    }
}

/// What `read_field_begin` gives by the first field header at the front of
/// the reader, in any form the compact reader accepts (`decode_field_header`):
/// a header it cannot decode is a Thrift error; a header that is not taken
/// out is returned as it is, with exactly its bytes consumed; an overridden
/// field of another wire type than its override's is refused as a type
/// mismatch after its header; an overridden field whose value cannot be read
/// is a Thrift error. In each of these cases the recorded values stay as they
/// were. (An overridden field whose value is read goes on to the next header.)
pub open spec fn first_header_outcome(
    old_p: OverrideInputProtocol,
    new_p: OverrideInputProtocol,
    r: Result<FieldHeader, OverrideError>,
) -> bool {
    let u = unread_bytes(old_p.reader());
    match decode_field_header(u, last_read_field_id(old_p.reader())) {
        None => {
            &&& new_p.values() == old_p.values()
            &&& match r {
                Err(OverrideError::Thrift(_)) => true,
                _ => false,
            }
        },
        Some((h, n)) => match spec_field_action(old_p.depth(), old_p.overrides(), h) {
            FieldAction::PassOn => {
                &&& r == Ok::<FieldHeader, OverrideError>(h)
                &&& unread_bytes(new_p.reader()) == u.skip(n)
                &&& new_p.values() == old_p.values()
            },
            FieldAction::Capture(id, t) => if h.field_type != spec_wire_type(t) {
                &&& r == Err::<FieldHeader, OverrideError>(
                    OverrideError::TypeMismatch { field_id: id, expected: t, found: h.field_type },
                )
                &&& unread_bytes(new_p.reader()) == u.skip(n)
                &&& new_p.values() == old_p.values()
            } else if value_read_fails(t, u.skip(n)) {
                &&& new_p.values() == old_p.values()
                &&& match r {
                    Err(OverrideError::Thrift(_)) => true,
                    _ => false,
                }
            } else {
                true
            },
        },
    }
}

/// Whatever its form, a first header in the outermost struct whose id has an
/// override and whose wire type is not that override's is refused as a type
/// mismatch naming the id, the override's type and the header's wire type:
/// only the header is consumed and nothing is recorded.
pub open spec fn overridden_mismatch_refused(
    old_p: OverrideInputProtocol,
    new_p: OverrideInputProtocol,
    r: Result<FieldHeader, OverrideError>,
) -> bool {
    let u = unread_bytes(old_p.reader());
    match decode_field_header(u, last_read_field_id(old_p.reader())) {
        Some((h, n)) => mismatched_override(old_p, h) ==> {
            &&& r == Err::<FieldHeader, OverrideError>(
                OverrideError::TypeMismatch {
                    field_id: h.id->0,
                    expected: old_p.overrides()[h.id->0],
                    found: h.field_type,
                },
            )
            &&& unread_bytes(new_p.reader()) == u.skip(n)
            &&& new_p.values() == old_p.values()
        },
        None => true,
    }
}

/// `h` is a field of the outermost struct with an overridden id, arriving
/// with a wire type other than its override's.
pub open spec fn mismatched_override(p: OverrideInputProtocol, h: FieldHeader) -> bool {
    &&& h.field_type != WireType::Stop
    &&& p.depth() == 1
    &&& h.id is Some
    &&& p.overrides().contains_key(h.id->0)
    &&& h.field_type != spec_wire_type(p.overrides()[h.id->0])
}

/// The first field header at the front of the reader is an overridden
/// field of its override's wire type whose value can be read.
pub open spec fn first_field_taken_out(p: OverrideInputProtocol) -> bool {
    let u = unread_bytes(p.reader());
    &&& decode_field_header(u, last_read_field_id(p.reader())) matches Some((h, n))
    &&& spec_field_action(p.depth(), p.overrides(), h) matches FieldAction::Capture(_, t)
    &&& h.field_type == spec_wire_type(t)
    &&& !value_read_fails(t, u.skip(n))
}

/// Every field of `taken` is one a reader in state `p` takes out: it is in
/// the outermost struct, and its value has the type of its id's override.
pub open spec fn captured_run(p: OverrideInputProtocol, taken: Seq<(i16, FooterFieldValue)>) -> bool {
    forall|i: int|
        #![trigger taken[i]]
        0 <= i < taken.len() ==> {
            &&& p.depth() == 1
            &&& p.overrides().contains_key(taken[i].0)
            &&& p.overrides()[taken[i].0] == spec_value_type(taken[i].1)
        }
}

/// A run of fields is the start of a longer one.
proof fn lemma_run_prefix(fields: Seq<(i16, FooterFieldValue)>, base: i16, k: int)
    requires
        0 <= k <= fields.len(),
    ensures
        run_bytes(fields.take(k), base).is_prefix_of(run_bytes(fields, base)),
    decreases fields.len() - k,
{
    if k == fields.len() {
        assert(fields.take(k) =~= fields);
    } else {
        let d = fields.drop_last();
        assert(d.take(k) =~= fields.take(k));
        lemma_run_prefix(d, base, k);
        let a = run_bytes(d.take(k), base);
        let b = run_bytes(d, base);
        let c = run_bytes(fields, base);
        assert(c.subrange(0, b.len() as int) =~= b);
        assert(c.subrange(0, a.len() as int) =~= b.subrange(0, a.len() as int));
    }
}

/// Being a prefix carries over.
proof fn lemma_prefix_trans(a: Seq<u8>, b: Seq<u8>, c: Seq<u8>)
    requires
        a.is_prefix_of(b),
        b.is_prefix_of(c),
    ensures
        a.is_prefix_of(c),
{
    assert(c.subrange(0, a.len() as int) =~= b.subrange(0, a.len() as int));
}

impl<'a> OverrideInputProtocol<'a> {
    /// The reader underneath, as it stands.
    pub closed spec fn reader(&self) -> CompactReader {
        *self.inner
    }

    /// Field id to the type its override is read as.
    pub closed spec fn overrides(&self) -> Map<i16, FooterFieldValueType> {
        self.overrides@
    }

    /// The values captured so far.
    pub closed spec fn values(&self) -> Map<i16, FooterFieldValue> {
        self.values@
    }

    /// How many structs the reader has entered and not left.
    pub closed spec fn depth(&self) -> u32 {
        self.structs
    }

    /// The captured values agree with the overrides, every overridden id
    /// leaves room for a short header's id delta after it, and the reader
    /// underneath has at least as many structs open as this one counts.
    pub open spec fn wf(&self) -> bool {
        &&& values_match_overrides(self.values(), self.overrides())
        &&& ids_leave_delta_room(self.overrides())
        &&& open_structs(self.reader()) >= self.depth()
    }

    /// A reader over `inner` with `overrides`, outside any struct and with
    /// nothing captured.
    pub fn new(inner: &'a mut CompactReader, overrides: &'a FooterFieldReadOverrides) -> (p: Self)
        requires
            ids_leave_delta_room(overrides@),
        ensures
            p.reader() == *old(inner),
            p.overrides() == overrides@,
            p.values() == Map::<i16, FooterFieldValue>::empty(),
            p.depth() == 0,
            p.wf(),
    {
        OverrideInputProtocol { inner, overrides, values: FooterFieldValues::new(), structs: 0 }
    }

    /// The values captured, by field id.
    pub fn into_values(self) -> (v: FooterFieldValues)
        requires
            self.wf(),
        ensures
            v@ == self.values(),
            values_match_overrides(v@, self.overrides()),
    {
        self.values
    }

    /// How many structs the reader has entered and not left.
    pub fn struct_depth(&self) -> (d: u32)
        ensures
            d == self.depth(),
    {
        self.structs
    }

    /// What to do with `header` at the current depth.
    pub fn field_action(&self, header: &FieldHeader) -> (a: FieldAction)
        ensures
            a == spec_field_action(self.depth(), self.overrides(), *header),
            header.field_type != WireType::Stop && self.depth() == 1 && header.id is Some
                && self.overrides().contains_key(header.id->0) ==> a == FieldAction::Capture(
                header.id->0,
                self.overrides()[header.id->0],
            ),
            header.field_type == WireType::Stop || header.id is None || self.depth() != 1
                || !self.overrides().contains_key(header.id->0) ==> a == FieldAction::PassOn,
    {
        if header.field_type == WireType::Stop {
            return FieldAction::PassOn;
        }
        match header.id {
            None => FieldAction::PassOn,
            Some(id) => {
                if self.structs != 1 {
                    return FieldAction::PassOn;
                }
                match self.overrides.get(&id) {
                    Some(t) => FieldAction::Capture(id, *t),
                    None => FieldAction::PassOn,
                }
            },
        }
    }

    /// Reads field headers until one is to be passed on, and returns it.
    /// Each field taken out on the way (see `spec_field_action`) has its
    /// value read as its override's type and recorded under its id; a field
    /// that arrives with the wrong wire type ends the read with a
    /// `TypeMismatch`. Whatever the stream holds, the recorded values end up
    /// as they were with the fields taken out in this call recorded in
    /// order (`captured_run`, `run_values`): only the overridden ids of the
    /// outermost struct ever change, and none is dropped. Whatever form the
    /// first header at the front takes, it decides the outcome as
    /// `first_header_outcome` says, a failed read of a taken-out value
    /// included. Over a stream the writer wrote (a run of overridden fields
    /// and then a header that is not taken out, the end of the bytes, or a
    /// field whose value cannot be read) the outcome is `run_outcome`.
    #[verifier::rlimit(100)]
    pub fn read_field_begin(&mut self) -> (r: Result<FieldHeader, OverrideError>)
        requires
            old(self).wf(),
            next_header_safe(old(self).reader()),
        ensures
            final(self).wf(),
            final(self).depth() == old(self).depth(),
            final(self).overrides() == old(self).overrides(),
            consumes(old(self).reader(), final(self).reader()),
            r matches Ok(h) ==> spec_field_action(old(self).depth(), old(self).overrides(), h)
                == FieldAction::PassOn,
            r matches Ok(h) ==> h.name is None && (h.field_type == WireType::Stop <==> h.id is None),
            forall|k: i16|
                #![trigger final(self).values().contains_key(k)]
                old(self).values().contains_key(k) ==> final(self).values().contains_key(k),
            forall|k: i16|
                #![trigger final(self).values().contains_key(k)]
                final(self).values().contains_key(k) && !(old(self).values().contains_key(k)
                    && final(self).values()[k] == old(self).values()[k]) ==> old(self).depth()
                    == 1 && old(self).overrides().contains_key(k),
            old(self).depth() != 1 ==> final(self).values() == old(self).values(),
            r matches Err(OverrideError::TypeMismatch { field_id, expected, found }) ==> {
                &&& old(self).depth() == 1
                &&& old(self).overrides().contains_key(field_id)
                &&& old(self).overrides()[field_id] == expected
                &&& found != spec_wire_type(expected)
            },
            forall|fields: Seq<(i16, FooterFieldValue)>, e: NextHeader|
                #![trigger stream_at_run(*old(self), fields, e)]
                stream_at_run(*old(self), fields, e) ==> run_outcome(
                    *old(self),
                    *final(self),
                    fields,
                    e,
                    r,
                ),
            exists|taken: Seq<(i16, FooterFieldValue)>|
                #[trigger] captured_run(*old(self), taken) && final(self).values() == run_values(
                    old(self).values(),
                    taken,
                ),
            first_header_outcome(*old(self), *final(self), r),
            overridden_mismatch_refused(*old(self), *final(self), r),
    {
        let ghost start = *old(self);
        let ghost base = last_read_field_id(start.reader());
        let ghost mut k: int = 0;
        let ghost mut taken: Seq<(i16, FooterFieldValue)> = Seq::empty();
        let ghost mut iters: nat = 0;
        loop
            invariant
                self.wf(),
                next_header_safe(self.reader()),
                self.depth() == old(self).depth(),
                self.overrides() == old(self).overrides(),
                consumes(old(self).reader(), self.reader()),
                forall|k: i16|
                    #![trigger self.values().contains_key(k)]
                    old(self).values().contains_key(k) ==> self.values().contains_key(k),
                forall|k: i16|
                    #![trigger self.values().contains_key(k)]
                    self.values().contains_key(k) && !(old(self).values().contains_key(k)
                        && self.values()[k] == old(self).values()[k]) ==> old(self).depth() == 1
                        && old(self).overrides().contains_key(k),
                old(self).depth() != 1 ==> self.values() == old(self).values(),
                start == *old(self),
                captured_run(start, taken),
                iters == 0 ==> self.reader() == start.reader() && self.values() == start.values(),
                iters > 0 ==> first_field_taken_out(start),
                self.values() == run_values(start.values(), taken),
                base == last_read_field_id(start.reader()),
                forall|fields: Seq<(i16, FooterFieldValue)>, e: NextHeader|
                    #![trigger stream_at_run(start, fields, e)]
                    stream_at_run(start, fields, e) ==> {
                        &&& 0 <= k <= fields.len()
                        &&& consumed_exactly(
                            start.reader(),
                            self.reader(),
                            run_bytes(fields.take(k), base),
                        )
                        &&& last_read_field_id(self.reader()) == run_base(fields.take(k), base)
                        &&& same_values(self.values(), run_values(start.values(), fields.take(k)))
                    },
            decreases unread_bytes(self.reader()).len(),
        {
            let ghost r0 = *self.inner;
            let read = self.inner.read_field_begin();
            let ghost r1 = *self.inner;
            proof {
                lemma_field_header_decoding(unread_bytes(r0), last_read_field_id(r0));
                assert forall|fields: Seq<(i16, FooterFieldValue)>, e: NextHeader|
                    stream_at_run(start, fields, e) implies {
                    &&& k < fields.len() ==> {
                        let id = fields[k].0;
                        let v = fields[k].1;
                        let hb = spec_field_header_bytes(id, run_base(fields.take(k), base), v);
                        &&& read matches Ok(h) && h.field_type == spec_wire_type(
                            spec_value_type(v),
                        ) && h.id == Some(id)
                        &&& stream_holds_value(r1, v)
                        &&& consumed_exactly(r0, r1, hb)
                        &&& last_read_field_id(r1) == id
                    }
                    &&& k == fields.len() && e is End ==> read is Err && unread_bytes(r1)
                        == unread_bytes(r0) && unread_bytes(r0).len() == 0
                    &&& k == fields.len() && e is BadValue ==> unread_bytes(r1) == unread_bytes(
                        start.reader(),
                    ).skip(
                        (run_bytes(fields, base) + next_header_bytes(e, run_base(fields, base))).len() as int,
                    )
                    &&& k == fields.len() && e !is End ==> {
                        let end = run_base(fields, base);
                        &&& read == Ok::<FieldHeader, thrift::Error>(next_header_of(e))
                        &&& consumed_exactly(r0, r1, next_header_bytes(e, end))
                        &&& e matches NextHeader::BoolField(_, b) ==> pending_read_bool(r1)
                            == Some(b)
                    }
                } by {
                    let u = unread_bytes(start.reader());
                    let end = run_base(fields, base);
                    let all = run_bytes(fields, base) + next_header_bytes(e, end);
                    lemma_prefix_concat(run_bytes(fields, base), next_header_bytes(e, end), u);
                    if k < fields.len() {
                        let id = fields[k].0;
                        let v = fields[k].1;
                        let b0 = run_base(fields.take(k), base);
                        let fb = spec_field_bytes(id, b0, v);
                        let hb = spec_field_header_bytes(id, b0, v);
                        let vb = spec_value_bytes(v);
                        let t1 = fields.take(k + 1);
                        assert(t1.drop_last() =~= fields.take(k));
                        assert(t1.last() == fields[k]);
                        assert(run_bytes(t1, base) == run_bytes(fields.take(k), base) + fb);
                        lemma_run_prefix(fields, base, k + 1);
                        lemma_prefix_trans(run_bytes(t1, base), run_bytes(fields, base), u);
                        lemma_prefix_concat(run_bytes(fields.take(k), base), fb, u);
                        lemma_prefix_concat(hb, vb, unread_bytes(r0));
                        assert(fields[k] == fields[k]);
                        match v {
                            FooterFieldValue::Bool(b) => {
                                assert(compact_bool_field(id, b0, b) == hb);
                                assert(vb =~= Seq::<u8>::empty());
                            },
                            _ => {
                                let t = spec_wire_type(spec_value_type(v));
                                assert(compact_field_header(t, id, b0) == hb);
                            },
                        }
                    } else {
                        assert(fields.take(k) =~= fields);
                        match e {
                            NextHeader::Stop => {},
                            NextHeader::Plain(t, id) => {
                                assert(compact_field_header(t, id, end) == next_header_bytes(
                                    e,
                                    end,
                                ));
                            },
                            NextHeader::BoolField(id, b) => {
                                assert(compact_bool_field(id, end, b) == next_header_bytes(
                                    e,
                                    end,
                                ));
                            },
                            NextHeader::End => {
                                assert(unread_bytes(r0).len() == 0);
                                assert(unread_bytes(r1) =~= unread_bytes(r0));
                            },
                            NextHeader::BadValue(id, t) => {
                                assert(compact_field_header(spec_wire_type(t), id, end)
                                    == next_header_bytes(e, end));
                                lemma_skip_skip(
                                    u,
                                    run_bytes(fields, base).len() as int,
                                    next_header_bytes(e, end).len() as int,
                                );
                            },
                        }
                    }
                }
            }
            let field = match read {
                Ok(f) => f,
                Err(err) => {
                    proof {
                        assert forall|fields: Seq<(i16, FooterFieldValue)>, e: NextHeader|
                            stream_at_run(start, fields, e) implies run_outcome(
                            start,
                            *self,
                            fields,
                            e,
                            Err::<FieldHeader, OverrideError>(OverrideError::Thrift(err)),
                        ) by {
                            if k < fields.len() {
                                assert(fields[k] == fields[k]);
                            } else {
                                assert(fields.take(k) =~= fields);
                                assert(run_bytes(fields, base) + next_header_bytes(e, run_base(fields, base))
                                    =~= run_bytes(fields, base));
                            }
                        }
                    }
                    return Err(OverrideError::Thrift(err));
                },
            };
            let action = self.field_action(&field);
            match action {
                FieldAction::PassOn => {
                    proof {
                        assert forall|fields: Seq<(i16, FooterFieldValue)>, e: NextHeader|
                            stream_at_run(start, fields, e) implies run_outcome(
                            start,
                            *self,
                            fields,
                            e,
                            Ok::<FieldHeader, OverrideError>(field),
                        ) by {
                            if k < fields.len() {
                                assert(fields[k] == fields[k]);
                            } else {
                                let end = run_base(fields, base);
                                lemma_skip_skip(
                                    unread_bytes(start.reader()),
                                    run_bytes(fields, base).len() as int,
                                    next_header_bytes(e, end).len() as int,
                                );
                                assert(fields.take(k) =~= fields);
                            }
                        }
                    }
                    return Ok(field);
                },
                FieldAction::Capture(field_id, expected_type) => {
                    let ghost r1b = *self.inner;
                    let got = read_footer_field_value(
                        self.inner,
                        field_id,
                        field.field_type,
                        expected_type,
                    );
                    let ghost r2 = *self.inner;
                    let value = match got {
                        Ok(v) => v,
                        Err(err) => {
                            proof {
                                assert forall|fields: Seq<(i16, FooterFieldValue)>, e: NextHeader|
                                    stream_at_run(start, fields, e) implies run_outcome(
                                    start,
                                    *self,
                                    fields,
                                    e,
                                    Err::<FieldHeader, OverrideError>(err),
                                ) by {
                                    if k < fields.len() {
                                        assert(fields[k] == fields[k]);
                                    } else {
                                        let end = run_base(fields, base);
                                        lemma_skip_skip(
                                            unread_bytes(start.reader()),
                                            run_bytes(fields, base).len() as int,
                                            next_header_bytes(e, end).len() as int,
                                        );
                                        assert(fields.take(k) =~= fields);

                                    }
                                }
                            }
                            return Err(err);
                        },
                    };
                    match self.inner.read_field_end() {
                        Ok(()) => {},
                        Err(e) => return Err(OverrideError::Thrift(e)),
                    }
                    let ghost before = self.values@;
                    let ghost gv = value;
                    self.values.insert(field_id, value);
                    proof {
                        let old_taken = taken;
                        taken = taken.push((field_id, gv));
                        assert(taken.drop_last() =~= old_taken);
                        assert(taken.last() == (field_id, gv));
                        assert(self.values() == run_values(start.values(), taken));
                        assert forall|i: int| 0 <= i < taken.len() implies {
                            &&& start.depth() == 1
                            &&& start.overrides().contains_key(#[trigger] taken[i].0)
                            &&& start.overrides()[taken[i].0] == spec_value_type(taken[i].1)
                        } by {
                            if i < old_taken.len() {
                                assert(taken[i] == old_taken[i]);
                            }
                        }
                    }
                    proof {
                        assert(field.id == Some(field_id));
                        assert(last_read_field_id(self.reader()) == field_id);
                        assert(self.overrides().contains_key(field_id));
                        assert(field_id <= i16::MAX - 15);
                        if unread_bytes(self.reader()).len() > 0 {
                            assert(unread_bytes(self.reader())[0] / 16 <= 15);
                        }
                        assert forall|fields: Seq<(i16, FooterFieldValue)>, e: NextHeader|
                            stream_at_run(start, fields, e) implies {
                            &&& 0 <= k + 1 <= fields.len()
                            &&& consumed_exactly(
                                start.reader(),
                                self.reader(),
                                run_bytes(fields.take(k + 1), base),
                            )
                            &&& last_read_field_id(self.reader()) == run_base(
                                fields.take(k + 1),
                                base,
                            )
                            &&& same_values(
                                self.values(),
                                run_values(start.values(), fields.take(k + 1)),
                            )
                        } by {
                            assert(fields[k] == fields[k]);
                            let t1 = fields.take(k + 1);
                            assert(t1.drop_last() =~= fields.take(k));
                            assert(t1.last() == fields[k]);
                            let b0 = run_base(fields.take(k), base);
                            let id = fields[k].0;
                            let v = fields[k].1;
                            let hb = spec_field_header_bytes(id, b0, v);
                            let vb = spec_value_bytes(v);
                            let fb = spec_field_bytes(id, b0, v);
                            let u = unread_bytes(start.reader());
                            let end = run_base(fields, base);
                            lemma_prefix_concat(run_bytes(fields, base), next_header_bytes(e, end), u);
                            assert(run_bytes(t1, base) == run_bytes(fields.take(k), base) + fb);
                            lemma_run_prefix(fields, base, k + 1);
                            lemma_prefix_trans(run_bytes(t1, base), run_bytes(fields, base), u);
                            lemma_skip_skip(
                                unread_bytes(start.reader()),
                                run_bytes(fields.take(k), base).len() as int,
                                hb.len() as int,
                            );
                            lemma_skip_skip(
                                unread_bytes(start.reader()),
                                run_bytes(fields.take(k), base).len() as int + hb.len(),
                                vb.len() as int,
                            );
                            assert(run_bytes(t1, base) == run_bytes(fields.take(k), base) + (hb
                                + vb));
                            let old_vals = run_values(start.values(), fields.take(k));
                            assert(run_values(start.values(), t1) == old_vals.insert(id, v));
                            assert(self.values().dom() =~= old_vals.insert(id, v).dom());
                        }
                        k = k + 1;
                        if iters == 0 {
                            assert(r0 == start.reader());
                            assert(field.field_type == spec_wire_type(expected_type));
                            assert(!value_read_fails(expected_type, unread_bytes(r1)));
                        }
                        iters = iters + 1;
                    }
                },
            }
        }
    }

    /// Enters a struct: one level deeper, here and in the reader underneath.
    pub fn read_struct_begin(&mut self) -> (r: Result<Option<TStructIdentifier>, thrift::Error>)
        requires
            old(self).depth() < u32::MAX,
        ensures
            r matches Ok(None),
            final(self).depth() == old(self).depth() + 1,
            unread_bytes(final(self).reader()) == unread_bytes(old(self).reader()),
            open_structs(final(self).reader()) == open_structs(old(self).reader()) + 1,
            final(self).values() == old(self).values(),
            final(self).overrides() == old(self).overrides(),
    {
        self.structs = self.structs + 1;
        self.inner.read_struct_begin()
    }

    /// Leaves a struct: the reader underneath pops its level (it must have
    /// one), and the depth here goes down by one, staying at 0 if it is 0.
    pub fn read_struct_end(&mut self) -> (r: Result<(), thrift::Error>)
        requires
            open_structs(old(self).reader()) > 0,
        ensures
            r is Ok,
            final(self).depth() == spec_depth_after_end(old(self).depth()),
            unread_bytes(final(self).reader()) == unread_bytes(old(self).reader()),
            open_structs(final(self).reader()) == open_structs(old(self).reader()) - 1,
            final(self).values() == old(self).values(),
            final(self).overrides() == old(self).overrides(),
    {
        if let Err(e) = self.inner.read_struct_end() {
            return Err(e);
        }
        self.structs = self.structs.saturating_sub(1);
        Ok(())
    }

    /// Reads a message header. Handed straight to the reader underneath.
    pub fn read_message_begin(&mut self) -> (r: Result<TMessageIdentifier, thrift::Error>)
        ensures
            passes_through(*old(self), *final(self)),
            message_header_read(old(self).reader(), final(self).reader(), r),
    {
        self.inner.read_message_begin()
    }

    /// Ends a message. Handed straight to the reader underneath.
    pub fn read_message_end(&mut self) -> (r: Result<(), thrift::Error>)
        ensures
            r is Ok,
            unchanged(*old(self), *final(self)),
    {
        self.inner.read_message_end()
    }

    /// Ends a field. Handed straight to the reader underneath.
    pub fn read_field_end(&mut self) -> (r: Result<(), thrift::Error>)
        ensures
            r is Ok,
            unchanged(*old(self), *final(self)),
    {
        self.inner.read_field_end()
    }

    /// Reads a bool. Handed straight to the reader underneath.
    pub fn read_bool(&mut self) -> (r: Result<bool, thrift::Error>)
        ensures
            passes_through(*old(self), *final(self)),
            bool_read(old(self).reader(), final(self).reader(), r),
    {
        self.inner.read_bool()
    }

    /// Reads a byte string. Handed straight to the reader underneath.
    pub fn read_bytes(&mut self) -> (r: Result<Vec<u8>, thrift::Error>)
        ensures
            passes_through(*old(self), *final(self)),
            binary_read(old(self).reader(), final(self).reader(), r),
    {
        self.inner.read_bytes()
    }

    /// Reads an `i8`. Handed straight to the reader underneath.
    pub fn read_i8(&mut self) -> (r: Result<i8, thrift::Error>)
        ensures
            passes_through(*old(self), *final(self)),
            i8_read(old(self).reader(), final(self).reader(), r),
    {
        self.inner.read_i8()
    }

    /// Reads an `i16`. Handed straight to the reader underneath.
    pub fn read_i16(&mut self) -> (r: Result<i16, thrift::Error>)
        ensures
            passes_through(*old(self), *final(self)),
            i16_read(old(self).reader(), final(self).reader(), r),
    {
        self.inner.read_i16()
    }

    /// Reads an `i32`. Handed straight to the reader underneath.
    pub fn read_i32(&mut self) -> (r: Result<i32, thrift::Error>)
        ensures
            passes_through(*old(self), *final(self)),
            i32_read(old(self).reader(), final(self).reader(), r),
    {
        self.inner.read_i32()
    }

    /// Reads an `i64`. Handed straight to the reader underneath.
    pub fn read_i64(&mut self) -> (r: Result<i64, thrift::Error>)
        ensures
            passes_through(*old(self), *final(self)),
            i64_read(old(self).reader(), final(self).reader(), r),
    {
        self.inner.read_i64()
    }

    /// Reads a double, as its IEEE-754 bit pattern. Handed straight to the reader underneath.
    pub fn read_double_bits(&mut self) -> (r: Result<u64, thrift::Error>)
        ensures
            passes_through(*old(self), *final(self)),
            double_read(old(self).reader(), final(self).reader(), r),
    {
        self.inner.read_double_bits()
    }

    /// Reads a string. Handed straight to the reader underneath.
    pub fn read_string(&mut self) -> (r: Result<String, thrift::Error>)
        ensures
            passes_through(*old(self), *final(self)),
            string_read(old(self).reader(), final(self).reader(), r),
    {
        self.inner.read_string()
    }

    /// Reads a list header. Handed straight to the reader underneath.
    pub fn read_list_begin(&mut self) -> (r: Result<TListIdentifier, thrift::Error>)
        ensures
            passes_through(*old(self), *final(self)),
            collection_header_read(old(self).reader(), final(self).reader(), r),
    {
        self.inner.read_list_begin()
    }

    /// Ends a list. Handed straight to the reader underneath.
    pub fn read_list_end(&mut self) -> (r: Result<(), thrift::Error>)
        ensures
            r is Ok,
            unchanged(*old(self), *final(self)),
    {
        self.inner.read_list_end()
    }

    /// Reads a set header. Handed straight to the reader underneath.
    pub fn read_set_begin(&mut self) -> (r: Result<TSetIdentifier, thrift::Error>)
        ensures
            passes_through(*old(self), *final(self)),
            collection_header_read(old(self).reader(), final(self).reader(), r),
    {
        self.inner.read_set_begin()
    }

    /// Ends a set. Handed straight to the reader underneath.
    pub fn read_set_end(&mut self) -> (r: Result<(), thrift::Error>)
        ensures
            r is Ok,
            unchanged(*old(self), *final(self)),
    {
        self.inner.read_set_end()
    }

    /// Reads a map header. Handed straight to the reader underneath.
    pub fn read_map_begin(&mut self) -> (r: Result<TMapIdentifier, thrift::Error>)
        ensures
            passes_through(*old(self), *final(self)),
            map_header_read(old(self).reader(), final(self).reader(), r),
    {
        self.inner.read_map_begin()
    }

    /// Ends a map. Handed straight to the reader underneath.
    pub fn read_map_end(&mut self) -> (r: Result<(), thrift::Error>)
        ensures
            r is Ok,
            unchanged(*old(self), *final(self)),
    {
        self.inner.read_map_end()
    }

    /// Reads one byte. Handed straight to the reader underneath.
    pub fn read_byte(&mut self) -> (r: Result<u8, thrift::Error>)
        ensures
            passes_through(*old(self), *final(self)),
            byte_read(old(self).reader(), final(self).reader(), r),
    {
        self.inner.read_byte()
    }
}

/// A call that the reader only hands on: the reader underneath consumes
/// from the front, and nothing else changes.
pub open spec fn passes_through(old_p: OverrideInputProtocol, new_p: OverrideInputProtocol) -> bool {
    &&& consumes(old_p.reader(), new_p.reader())
    &&& new_p.depth() == old_p.depth()
    &&& new_p.overrides() == old_p.overrides()
    &&& new_p.values() == old_p.values()
}

/// A call that does nothing: the reader underneath and everything here stay
/// as they were.
pub open spec fn unchanged(old_p: OverrideInputProtocol, new_p: OverrideInputProtocol) -> bool {
    &&& new_p.reader() == old_p.reader()
    &&& new_p.depth() == old_p.depth()
    &&& new_p.overrides() == old_p.overrides()
    &&& new_p.values() == old_p.values()
}

/// The depth after leaving a struct at depth `d`.
pub open spec fn spec_depth_after_end(d: u32) -> u32 {
    if d == 0 { 0 } else { (d - 1) as u32 }
}

} // verus!
