//! The Thrift compact protocol, as the library reads and writes footer
//! fields with it.
//!
//! `CompactReader` and `CompactWriter` hold thrift's `TCompactInputProtocol`
//! and `TCompactOutputProtocol`. Those two generic types cannot be declared
//! as they stand (their transport parameter is bounded by a thrift trait), so
//! each is held, opaque, in a struct of this library. What the contracts know
//! of them is carried by the names below: the bytes a writer has put into its
//! buffer and a reader has not yet consumed, the field-header bookkeeping of
//! both (compact headers carry id deltas, and a bool's value rides in its
//! field header), and the number of structs a reader has entered and not
//! left. The compact encodings are written out below (varints, zigzag,
//! field and collection headers): the writer's contracts say which encoding
//! each write appends, and the reader's say that reading gives back what that
//! write wrote.

use crate::value::WireType;
use vstd::utf8::{encode_utf8, valid_utf8};
use thrift::protocol::{
    TCompactInputProtocol, TCompactOutputProtocol, TFieldIdentifier, TInputProtocol,
    TListIdentifier, TMapIdentifier, TMessageIdentifier, TOutputProtocol, TSetIdentifier,
    TStructIdentifier, TType,
};
use vstd::prelude::*;

verus! {

#[verifier::external_type_specification]
#[verifier::external_body]
pub struct ExThriftError(thrift::Error);

#[verifier::external_type_specification]
#[verifier::external_body]
pub struct ExTMessageIdentifier(TMessageIdentifier);

#[verifier::external_type_specification]
#[verifier::external_body]
pub struct ExTStructIdentifier(TStructIdentifier);

#[verifier::external_type_specification]
#[verifier::external_body]
pub struct ExTListIdentifier(TListIdentifier);

#[verifier::external_type_specification]
#[verifier::external_body]
pub struct ExTSetIdentifier(TSetIdentifier);

#[verifier::external_type_specification]
#[verifier::external_body]
pub struct ExTMapIdentifier(TMapIdentifier);

/// A Thrift field header: what `read_field_begin` returns and what
/// `write_field_begin` takes.
#[derive(Clone, Debug)]
pub struct FieldHeader {
    pub name: Option<String>,
    pub field_type: WireType,
    pub id: Option<i16>,
}

/// A compact-protocol reader over a footer held in memory.
#[verifier::external_body]
pub struct CompactReader {
    protocol: TCompactInputProtocol<std::io::Cursor<Vec<u8>>>,
}

/// A compact-protocol writer that appends to a byte buffer.
#[verifier::external_body]
pub struct CompactWriter<'w> {
    protocol: TCompactOutputProtocol<&'w mut Vec<u8>>,
}

/// The bytes that a reader has not consumed yet: what its cursor has left.
pub uninterp spec fn unread_bytes(r: CompactReader) -> Seq<u8>;

/// How many structs the reader has entered and not left: the length of the
/// stack of field ids that `TCompactInputProtocol` keeps.
pub uninterp spec fn open_structs(r: CompactReader) -> nat;

/// The id of the last field header the reader read in the current struct:
/// the base that the next header's id delta is added to.
pub uninterp spec fn last_read_field_id(r: CompactReader) -> i16;

/// The value of the bool field whose header the reader has just read, kept
/// for the `read_bool` that follows, if there is one.
pub uninterp spec fn pending_read_bool(r: CompactReader) -> Option<bool>;

/// The bytes in the writer's buffer.
pub uninterp spec fn written_bytes(w: CompactWriter) -> Seq<u8>;

/// The id of the bool field whose header `TCompactOutputProtocol` holds back
/// until the value is written (a bool field's value is packed into its
/// header), if there is one.
pub uninterp spec fn pending_bool_field(w: CompactWriter) -> Option<i16>;

/// The id of the last field header that the writer wrote: the base that the
/// next header's id delta is taken from.
pub uninterp spec fn last_field_id(w: CompactWriter) -> i16;

/// The unsigned varint (LEB128) of `n`: seven bits a byte, the low bits
/// first, the top bit set on every byte but the last.
pub closed spec fn varint(n: nat) -> Seq<u8>
    decreases n,
{
    if n < 128 {
        seq![n as u8]
    } else {
        seq![(128 + n % 128) as u8] + varint(n / 128)
    }
}

/// Zigzag: 0, -1, 1, -2, 2, ... to 0, 1, 2, 3, 4, ..., so that numbers near
/// zero get short varints.
pub closed spec fn zigzag(v: int) -> nat {
    if v >= 0 {
        (2 * v) as nat
    } else {
        (-2 * v - 1) as nat
    }
}

/// `n` as the `u32` it is cast to before its varint is written.
pub open spec fn as_u32(n: int) -> nat {
    (n % 0x1_0000_0000) as nat
}

/// The compact code of a field or element type (a bool element is 1); a
/// type without a code gets 0.
pub closed spec fn compact_type_code(t: WireType) -> int {
    match t {
        WireType::Bool => 1,
        WireType::I08 => 3,
        WireType::I16 => 4,
        WireType::I32 => 5,
        WireType::I64 => 6,
        WireType::Double => 7,
        WireType::String => 8,
        WireType::ListOf => 9,
        WireType::SetOf => 10,
        WireType::MapOf => 11,
        WireType::Struct => 12,
        _ => 0,
    }
}

/// A compact field header with type code `code` for field `id` against the
/// id base `base`: one byte with the id delta in the high half when the
/// delta is 1 to 14, else the code alone and the id as a zigzag varint.
pub closed spec fn field_header_bytes(code: int, id: i16, base: i16) -> Seq<u8> {
    let d = id - base;
    if 0 < d < 15 {
        seq![(d * 16 + code) as u8]
    } else {
        seq![code as u8] + compact_i16(id)
    }
}

/// The compact field header that `write_field_begin` writes for a field of
/// type `t` (not a bool) and id `id`, against the id base `base`.
pub closed spec fn compact_field_header(t: WireType, id: i16, base: i16) -> Seq<u8> {
    field_header_bytes(compact_type_code(t), id, base)
}

/// The compact field header with the value packed in that `write_bool`
/// writes for a bool field `id` held back, against the id base `base`: the
/// type code 1 for `true`, 2 for `false`.
pub closed spec fn compact_bool_field(id: i16, base: i16, b: bool) -> Seq<u8> {
    field_header_bytes(if b { 1 } else { 2 }, id, base)
}

/// The compact encoding of an `i32` that `write_i32` writes: the varint of
/// its zigzag.
pub closed spec fn compact_i32(v: i32) -> Seq<u8> {
    varint(zigzag(v as int))
}

/// The compact encoding of an `i64` that `write_i64` writes: the varint of
/// its zigzag.
pub closed spec fn compact_i64(v: i64) -> Seq<u8> {
    varint(zigzag(v as int))
}

/// The compact encoding of a byte string that `write_bytes` writes: the
/// varint of its length (cast to `u32`), then the bytes. `write_string`
/// writes a string's UTF-8 bytes this way.
pub closed spec fn compact_binary(b: Seq<u8>) -> Seq<u8> {
    varint(as_u32(b.len() as int)) + b
}

/// The compact encoding of an `i16` (the varint of its zigzag), as a field
/// header carries a long-form id.
pub closed spec fn compact_i16(v: i16) -> Seq<u8> {
    varint(zigzag(v as int))
}

/// The compact header of a list or set with elements of type `t` and `size`
/// elements: the size in the high half of a byte beside the type code when
/// it is at most 14, else 15 there and the size as a varint after it.
pub closed spec fn compact_collection_header(t: WireType, size: i32) -> Seq<u8> {
    if size <= 14 {
        seq![(size * 16 + compact_type_code(t)) as u8]
    } else {
        seq![(0xF0 + compact_type_code(t)) as u8] + varint(as_u32(size as int))
    }
}

/// The compact header of a map from `k` to `v` with `size` entries: a zero
/// byte for an empty map, else the size as a varint and then one byte with
/// the key type's code in its high half and the value type's in its low.
pub closed spec fn compact_map_header(k: WireType, v: WireType, size: i32) -> Seq<u8> {
    if size == 0 {
        seq![0u8]
    } else {
        varint(as_u32(size as int)) + seq![
            (compact_type_code(k) * 16 + compact_type_code(v)) as u8,
        ]
    }
}

/// The compact header of a message of kind `kind` (1 to 4: call, reply,
/// exception, oneway) with sequence number `seq` and name `name`: the
/// protocol id 0x82, the kind above the version 1, the sequence number as a
/// varint (cast to `u32`), and the name as a string.
pub closed spec fn compact_message_header(name: Seq<char>, kind: u8, seq: i32) -> Seq<u8> {
    seq![0x82u8, (kind * 32 + 1) as u8] + varint(as_u32(seq as int)) + compact_binary(
        encode_utf8(name),
    )
}

/// The varint reader gives up on `bytes`: they are empty, or their first
/// `max` bytes (all there are, if fewer) carry the continuation bit, so no
/// varint of at most `max` bytes ends in them.
pub open spec fn varint_unterminated(bytes: Seq<u8>, max: nat) -> bool {
    bytes.len() == 0 || forall|i: int|
        #![trigger bytes[i]]
        0 <= i < bytes.len() && i < max ==> bytes[i] >= 128
}

/// `bytes` start with a length prefix `len` (a `u32` varint) and have fewer
/// than `len` bytes after it.
pub open spec fn binary_cut_short(bytes: Seq<u8>, len: nat) -> bool {
    &&& len <= u32::MAX
    &&& varint(len).is_prefix_of(bytes)
    &&& bytes.len() < varint(len).len() + len
}

/// `bytes` start with a length prefix `len` (a `u32` varint), and the `len`
/// bytes after it are not all there or are not UTF-8.
pub open spec fn string_bytes_bad(bytes: Seq<u8>, len: nat) -> bool {
    &&& len <= u32::MAX
    &&& varint(len).is_prefix_of(bytes)
    &&& (bytes.len() < varint(len).len() + len || !valid_utf8(
        bytes.subrange(varint(len).len() as int, (varint(len).len() + len) as int),
    ))
}

/// The index of the byte that ends the varint at the front of `bs`: the
/// first one without the continuation bit.
pub open spec fn varint_end(bs: Seq<u8>) -> int
    decreases bs.len(),
{
    if bs.len() == 0 || bs[0] < 128 {
        0
    } else {
        1 + varint_end(bs.drop_first())
    }
}

/// The number the varint bytes `bs` stand for: seven bits a byte, the low
/// bits first.
pub open spec fn varint_value(bs: Seq<u8>) -> nat
    decreases bs.len(),
{
    if bs.len() == 0 {
        0
    } else {
        (bs[0] % 128) as nat + 128 * varint_value(bs.drop_first())
    }
}

/// The inverse of zigzag: 0, 1, 2, 3, 4, ... to 0, -1, 1, -2, 2, ...
pub open spec fn unzigzag(n: nat) -> int {
    if n % 2 == 0 {
        (n / 2) as int
    } else {
        -((n + 1) / 2)
    }
}

/// The field type of a compact type code from 0 to 12 (1 and 2 are a bool
/// field's two values).
pub open spec fn header_type(c: int) -> WireType {
    if c == 0 {
        WireType::Stop
    } else if c == 1 || c == 2 {
        WireType::Bool
    } else if c == 3 {
        WireType::I08
    } else if c == 4 {
        WireType::I16
    } else if c == 5 {
        WireType::I32
    } else if c == 6 {
        WireType::I64
    } else if c == 7 {
        WireType::Double
    } else if c == 8 {
        WireType::String
    } else if c == 9 {
        WireType::ListOf
    } else if c == 10 {
        WireType::SetOf
    } else if c == 11 {
        WireType::MapOf
    } else {
        WireType::Struct
    }
}

/// How the compact reader decodes the field header at the front of `bytes`
/// with the id base `base`: the header and its length in bytes, or `None`
/// where it fails. The low half of the first byte is the type code (0 ends
/// the struct; 13 to 15 are no type); a high half that is not 0 is the id
/// delta from `base`; else the id follows as a zigzag varint of at most
/// three bytes.
pub open spec fn decode_field_header(bytes: Seq<u8>, base: i16) -> Option<(FieldHeader, int)> {
    if bytes.len() == 0 {
        None
    } else {
        let c = bytes[0] % 16;
        let d = bytes[0] / 16;
        if c == 0 {
            Some((FieldHeader { name: None, field_type: WireType::Stop, id: None }, 1))
        } else if c > 12 {
            None
        } else if d != 0 {
            Some(
                (
                    FieldHeader { name: None, field_type: header_type(c as int), id: Some((base + d) as i16) },
                    1,
                ),
            )
        } else if varint_unterminated(bytes.skip(1), 3) {
            None
        } else {
            let rest = bytes.skip(1);
            let e = varint_end(rest);
            Some(
                (
                    FieldHeader {
                        name: None,
                        field_type: header_type(c as int),
                        id: Some(unzigzag(varint_value(rest.take(e + 1))) as i16),
                    },
                    e + 2,
                ),
            )
        }
    }
}

/// `enc` stands at the front of the reader's unread bytes.
pub open spec fn unread_starts_with(r: CompactReader, enc: Seq<u8>) -> bool {
    enc.is_prefix_of(unread_bytes(r))
}

/// The reader has consumed exactly `enc` from the front.
pub open spec fn consumed_exactly(old_r: CompactReader, new_r: CompactReader, enc: Seq<u8>) -> bool {
    unread_bytes(new_r) == unread_bytes(old_r).skip(enc.len() as int)
}

/// A read that consumes bytes whenever it succeeds, and fails when nothing
/// is left to read.
pub open spec fn advances<T>(
    old_r: CompactReader,
    new_r: CompactReader,
    r: Result<T, thrift::Error>,
) -> bool {
    &&& r is Ok ==> unread_bytes(new_r).len() < unread_bytes(old_r).len()
    &&& unread_bytes(old_r).len() == 0 ==> r is Err
}

/// `read_byte`: the first unread byte, consumed; an error when none is left.
pub open spec fn byte_read(
    old_r: CompactReader,
    new_r: CompactReader,
    r: Result<u8, thrift::Error>,
) -> bool {
    &&& unread_bytes(old_r).len() > 0 ==> {
        &&& r == Ok::<u8, thrift::Error>(unread_bytes(old_r)[0])
        &&& consumed_exactly(old_r, new_r, seq![unread_bytes(old_r)[0]])
    }
    &&& unread_bytes(old_r).len() == 0 ==> r is Err
}

/// `read_i8`: the first unread byte as an `i8`, consumed; an error when none
/// is left.
pub open spec fn i8_read(
    old_r: CompactReader,
    new_r: CompactReader,
    r: Result<i8, thrift::Error>,
) -> bool {
    &&& unread_bytes(old_r).len() > 0 ==> {
        &&& r == Ok::<i8, thrift::Error>(unread_bytes(old_r)[0] as i8)
        &&& consumed_exactly(old_r, new_r, seq![unread_bytes(old_r)[0]])
    }
    &&& unread_bytes(old_r).len() == 0 ==> r is Err
}

/// `read_bool`: a value kept from a bool field's header, reading nothing;
/// else one byte, 1 for `true` and 2 for `false`, anything else an error.
pub open spec fn bool_read(
    old_r: CompactReader,
    new_r: CompactReader,
    r: Result<bool, thrift::Error>,
) -> bool {
    match pending_read_bool(old_r) {
        Some(b) => {
            &&& r == Ok::<bool, thrift::Error>(b)
            &&& unread_bytes(new_r) == unread_bytes(old_r)
            &&& pending_read_bool(new_r) is None
        },
        None => {
            &&& unread_bytes(old_r).len() == 0 ==> r is Err
            &&& unread_bytes(old_r).len() > 0 ==> {
                &&& unread_bytes(old_r)[0] == 1 ==> r == Ok::<bool, thrift::Error>(true)
                &&& unread_bytes(old_r)[0] == 2 ==> r == Ok::<bool, thrift::Error>(false)
                &&& unread_bytes(old_r)[0] != 1 && unread_bytes(old_r)[0] != 2 ==> r is Err
                &&& r is Ok ==> consumed_exactly(old_r, new_r, seq![unread_bytes(old_r)[0]])
            }
        },
    }
}

/// `read_i32`: an `i32` that `write_i32` wrote reads back, consumed; bytes
/// in which no varint of at most five bytes ends are refused.
pub open spec fn i32_read(
    old_r: CompactReader,
    new_r: CompactReader,
    r: Result<i32, thrift::Error>,
) -> bool {
    &&& advances(old_r, new_r, r)
    &&& varint_unterminated(unread_bytes(old_r), 5) ==> r is Err
    &&& forall|v: i32|
        #![trigger compact_i32(v)]
        unread_starts_with(old_r, compact_i32(v)) ==> {
            &&& r == Ok::<i32, thrift::Error>(v)
            &&& consumed_exactly(old_r, new_r, compact_i32(v))
        }
}

/// `read_i64`: an `i64` that `write_i64` wrote reads back, consumed; bytes
/// in which no varint of at most ten bytes ends are refused.
pub open spec fn i64_read(
    old_r: CompactReader,
    new_r: CompactReader,
    r: Result<i64, thrift::Error>,
) -> bool {
    &&& advances(old_r, new_r, r)
    &&& varint_unterminated(unread_bytes(old_r), 10) ==> r is Err
    &&& forall|v: i64|
        #![trigger compact_i64(v)]
        unread_starts_with(old_r, compact_i64(v)) ==> {
            &&& r == Ok::<i64, thrift::Error>(v)
            &&& consumed_exactly(old_r, new_r, compact_i64(v))
        }
}

/// `read_bytes`: a byte string of at most `u32::MAX` bytes (the length
/// prefix is a `u32`) that `write_bytes` wrote reads back, consumed; a
/// length prefix that runs past the end of the bytes is refused.
pub open spec fn binary_read(
    old_r: CompactReader,
    new_r: CompactReader,
    r: Result<Vec<u8>, thrift::Error>,
) -> bool {
    &&& advances(old_r, new_r, r)
    &&& forall|len: nat|
        #![trigger varint(len)]
        binary_cut_short(unread_bytes(old_r), len) ==> r is Err
    &&& forall|b: Seq<u8>|
        #![trigger compact_binary(b)]
        b.len() <= u32::MAX && unread_starts_with(old_r, compact_binary(b)) ==> {
            &&& r matches Ok(v) && v@ == b
            &&& consumed_exactly(old_r, new_r, compact_binary(b))
        }
}

/// `read_string`: a string whose UTF-8 bytes (at most `u32::MAX` of them,
/// for the `u32` length prefix) `write_string` wrote reads back, consumed;
/// a length prefix that runs past the end, or bytes after it that are not
/// UTF-8, are refused.
pub open spec fn string_read(
    old_r: CompactReader,
    new_r: CompactReader,
    r: Result<String, thrift::Error>,
) -> bool {
    &&& advances(old_r, new_r, r)
    &&& forall|len: nat|
        #![trigger varint(len)]
        string_bytes_bad(unread_bytes(old_r), len) ==> r is Err
    &&& forall|t: Seq<char>|
        #![trigger compact_binary(encode_utf8(t))]
        encode_utf8(t).len() <= u32::MAX && unread_starts_with(old_r, compact_binary(encode_utf8(t)))
            ==> {
            &&& r matches Ok(v) && v@ == t
            &&& consumed_exactly(old_r, new_r, compact_binary(encode_utf8(t)))
        }
}

/// `read_i16`: an `i16` encoded as a zigzag varint reads back, consumed.
pub open spec fn i16_read(
    old_r: CompactReader,
    new_r: CompactReader,
    r: Result<i16, thrift::Error>,
) -> bool {
    &&& advances(old_r, new_r, r)
    &&& forall|v: i16|
        #![trigger compact_i16(v)]
        unread_starts_with(old_r, compact_i16(v)) ==> {
            &&& r == Ok::<i16, thrift::Error>(v)
            &&& consumed_exactly(old_r, new_r, compact_i16(v))
        }
}

/// `read_list_begin` and `read_set_begin`: a collection header with an
/// element type that has a wire code and a size that is not negative reads,
/// consumed.
pub open spec fn collection_header_read<T>(
    old_r: CompactReader,
    new_r: CompactReader,
    r: Result<T, thrift::Error>,
) -> bool {
    &&& advances(old_r, new_r, r)
    &&& forall|t: WireType, size: i32|
        #![trigger compact_collection_header(t, size)]
        writable_field_type(t) && size >= 0 && unread_starts_with(
            old_r,
            compact_collection_header(t, size),
        )
            ==> {
            &&& r is Ok
            &&& consumed_exactly(old_r, new_r, compact_collection_header(t, size))
        }
}

/// `read_map_begin`: a map header with key and value types that have wire
/// codes reads, consumed.
pub open spec fn map_header_read(
    old_r: CompactReader,
    new_r: CompactReader,
    r: Result<TMapIdentifier, thrift::Error>,
) -> bool {
    &&& advances(old_r, new_r, r)
    &&& forall|k: WireType, v: WireType, size: i32|
        #![trigger compact_map_header(k, v, size)]
        writable_field_type(k) && writable_field_type(v) && unread_starts_with(
            old_r,
            compact_map_header(k, v, size),
        ) ==> {
            &&& r is Ok
            &&& consumed_exactly(old_r, new_r, compact_map_header(k, v, size))
        }
}

/// `read_message_begin`: a message header of a known kind whose name's UTF-8
/// bytes fit the `u32` length prefix reads, consumed.
pub open spec fn message_header_read(
    old_r: CompactReader,
    new_r: CompactReader,
    r: Result<TMessageIdentifier, thrift::Error>,
) -> bool {
    &&& advances(old_r, new_r, r)
    &&& forall|name: Seq<char>, kind: u8, seq: i32|
        #![trigger compact_message_header(name, kind, seq)]
        1 <= kind <= 4 && encode_utf8(name).len() <= u32::MAX && unread_starts_with(
            old_r,
            compact_message_header(name, kind, seq),
        ) ==> {
            &&& r is Ok
            &&& consumed_exactly(old_r, new_r, compact_message_header(name, kind, seq))
        }
}

/// The little-endian number in the eight bytes `b`.
pub open spec fn le_u64(b: Seq<u8>) -> int {
    b[0] + 0x100 * b[1] + 0x1_0000 * b[2] + 0x100_0000 * b[3] + 0x1_0000_0000 * b[4]
        + 0x100_0000_0000 * b[5] + 0x1_0000_0000_0000 * b[6] + 0x100_0000_0000_0000 * b[7]
}

/// `read_double`: the bit pattern of the double in the next eight bytes
/// (little-endian), consumed; an error when fewer are left.
pub open spec fn double_read(
    old_r: CompactReader,
    new_r: CompactReader,
    r: Result<u64, thrift::Error>,
) -> bool {
    &&& unread_bytes(old_r).len() >= 8 ==> {
        &&& r matches Ok(bits) && bits == le_u64(unread_bytes(old_r).take(8))
        &&& consumed_exactly(old_r, new_r, unread_bytes(old_r).take(8))
    }
    &&& unread_bytes(old_r).len() < 8 ==> r is Err
}

/// The next field header does not carry the running id past `i16::MAX`: a
/// short header (type in the low half of its byte, id delta in the high
/// half) adds its delta to the id base, which the compact reader does with
/// overflow checks.
pub open spec fn next_header_safe(r: CompactReader) -> bool {
    unread_bytes(r).len() == 0 || unread_bytes(r)[0] % 16 == 0 || last_read_field_id(r)
        + unread_bytes(r)[0] / 16 <= i16::MAX
}

/// A field type whose compact header the reader decodes back to the same
/// type: any type with a wire code but `Stop`, whose code ends a struct, and
/// `Bool`, whose header carries the value.
pub open spec fn plain_field_type(t: WireType) -> bool {
    writable_field_type(t) && t != WireType::Stop && t != WireType::Bool
}

/// The reader only ever consumes bytes from the front, and keeps its struct
/// nesting.
pub open spec fn consumes(old_r: CompactReader, new_r: CompactReader) -> bool {
    &&& unread_bytes(new_r).is_suffix_of(unread_bytes(old_r))
    &&& open_structs(new_r) == open_structs(old_r)
}

/// A field type that `TCompactOutputProtocol` has a wire code for.
pub open spec fn writable_field_type(t: WireType) -> bool {
    !(t == WireType::Void || t == WireType::Utf7 || t == WireType::Utf8 || t == WireType::Utf16)
}

/// Whether `a - b` fits in an `i16`: the compact writer computes each field
/// header's id delta that way.
pub open spec fn delta_fits(a: i16, b: i16) -> bool {
    i16::MIN <= a - b <= i16::MAX
}

/// Some encodings worked out: a short i32 header for field 8 after field 0,
/// a long string header for field 30 after field 8, short and long bool
/// headers, the zigzag varints of -3 and 300, and a two-byte string.
pub proof fn compact_encoding_examples()
    ensures
        compact_field_header(WireType::I32, 8, 0) == seq![0x85u8],
        compact_field_header(WireType::String, 30, 8) == seq![0x08u8, 0x3Cu8],
        compact_bool_field(31, 30, true) == seq![0x11u8],
        compact_bool_field(39, 40, false) == seq![0x02u8, 0x4Eu8],
        compact_i32(-3i32) == seq![0x05u8],
        compact_i64(300i64) == seq![0xD8u8, 0x04u8],
        compact_binary(seq![0x61u8, 0x62u8]) == seq![0x02u8, 0x61u8, 0x62u8],
{
    assert(compact_type_code(WireType::I32) == 5);
    assert(compact_type_code(WireType::String) == 8);
    assert(zigzag(30) == 60);
    assert(varint(60) == seq![0x3Cu8]);
    assert(compact_i16(30) == seq![0x3Cu8]);
    assert(seq![0x08u8] + seq![0x3Cu8] =~= seq![0x08u8, 0x3Cu8]);
    assert(zigzag(39) == 78);
    assert(varint(78) == seq![0x4Eu8]);
    assert(compact_i16(39) == seq![0x4Eu8]);
    assert(seq![0x02u8] + seq![0x4Eu8] =~= seq![0x02u8, 0x4Eu8]);
    assert(zigzag(-3) == 5);
    assert(varint(5) == seq![0x05u8]);
    assert(zigzag(300) == 600);
    assert(varint(4) == seq![0x04u8]);
    assert(600nat % 128 == 88);
    assert(600nat / 128 == 4);
    assert(varint(600) == seq![0xD8u8] + varint(4));
    assert(seq![0xD8u8] + seq![0x04u8] =~= seq![0xD8u8, 0x04u8]);
    assert(as_u32(2) == 2);
    assert(varint(2) == seq![0x02u8]);
    assert(seq![0x02u8] + seq![0x61u8, 0x62u8] =~= seq![0x02u8, 0x61u8, 0x62u8]);
}

/// The varint of `n`: at least one byte, the continuation bit on every byte
/// but the last, standing for `n`, and at most two bytes below 2^14, three
/// below 2^21.
proof fn lemma_varint(n: nat, tail: Seq<u8>)
    ensures
        varint(n).len() >= 1,
        varint(n)[varint(n).len() - 1] < 128,
        forall|i: int| 0 <= i < varint(n).len() - 1 ==> #[trigger] varint(n)[i] >= 128,
        varint_end(varint(n) + tail) == varint(n).len() - 1,
        varint_value(varint(n)) == n,
        n < 0x4000 ==> varint(n).len() <= 2,
        n < 0x20_0000 ==> varint(n).len() <= 3,
    decreases n,
{
    if n >= 128 {
        lemma_varint(n / 128, tail);
        let v = varint(n);
        let w = varint(n / 128);
        assert(v == seq![(128 + n % 128) as u8] + w);
        assert((v + tail).drop_first() =~= w + tail);
        assert(v.drop_first() =~= w);
        assert(v[0] == 128 + n % 128);
        assert(varint_value(v) == (v[0] % 128) as nat + 128 * varint_value(w));
        assert(n % 128 + 128 * (n / 128) == n);
        assert(v[0] % 128 == n % 128);
        assert(varint_value(w) == n / 128);
        assert forall|i: int| 0 <= i < v.len() - 1 implies #[trigger] v[i] >= 128 by {
            if i > 0 {
                assert(v[i] == w[i - 1]);
            }
        }
    } else {
        assert(varint(n).drop_first() =~= Seq::<u8>::empty());
        assert(varint_value(Seq::<u8>::empty()) == 0);
    }
}

/// Unzigzag undoes zigzag.
proof fn lemma_unzigzag(v: int)
    ensures
        unzigzag(zigzag(v)) == v,
{
}

/// The varint reader finds the end of a varint at or before any byte
/// without the continuation bit.
proof fn lemma_varint_end_at_most(bs: Seq<u8>, i: int)
    requires
        0 <= i < bs.len(),
        bs[i] < 128,
    ensures
        varint_end(bs) <= i,
    decreases i,
{
    if i > 0 && bs[0] >= 128 {
        lemma_varint_end_at_most(bs.drop_first(), i - 1);
    }
}

/// The end of a varint is never before its first byte.
proof fn lemma_varint_end_nonneg(bs: Seq<u8>)
    ensures
        varint_end(bs) >= 0,
    decreases bs.len(),
{
    if bs.len() > 0 && bs[0] >= 128 {
        lemma_varint_end_nonneg(bs.drop_first());
    }
}

/// What `decode_field_header` gives: a header read this way has no name,
/// has an id exactly when it is not `Stop`, and takes at least one byte and
/// no more than there are. The headers that `write_field_begin` and
/// `write_bool` write (and the `Stop` byte) decode to what was written, and
/// take exactly their bytes.
pub proof fn lemma_field_header_decoding(bytes: Seq<u8>, base: i16)
    ensures
        decode_field_header(bytes, base) matches Some((h, n)) ==> {
            &&& h.name is None
            &&& (h.field_type == WireType::Stop <==> h.id is None)
            &&& 1 <= n <= bytes.len()
        },
        seq![0u8].is_prefix_of(bytes) ==> decode_field_header(bytes, base) == Some(
            (FieldHeader { name: None, field_type: WireType::Stop, id: None }, 1int),
        ),
        forall|t: WireType, id: i16|
            #![trigger compact_field_header(t, id, base)]
            plain_field_type(t) && delta_fits(id, base) && compact_field_header(
                t,
                id,
                base,
            ).is_prefix_of(bytes) ==> decode_field_header(bytes, base) == Some(
                (
                    FieldHeader { name: None, field_type: t, id: Some(id) },
                    compact_field_header(t, id, base).len() as int,
                ),
            ),
        forall|id: i16, b: bool|
            #![trigger compact_bool_field(id, base, b)]
            delta_fits(id, base) && compact_bool_field(id, base, b).is_prefix_of(bytes)
                ==> decode_field_header(bytes, base) == Some(
                (
                    FieldHeader { name: None, field_type: WireType::Bool, id: Some(id) },
                    compact_bool_field(id, base, b).len() as int,
                ),
            ) && bytes[0] % 16 == (if b { 1int } else { 2int }),
{
    if bytes.len() > 0 {
        let c = bytes[0] % 16;
        assert(c != 0 ==> header_type(c as int) != WireType::Stop);
        if c != 0 && c <= 12 && bytes[0] / 16 == 0 && !varint_unterminated(bytes.skip(1), 3) {
            let rest = bytes.skip(1);
            let i = choose|i: int| 0 <= i < rest.len() && i < 3 && !(rest[i] >= 128);
            lemma_varint_end_at_most(rest, i);
            assert(varint_end(rest) >= 0) by {
                lemma_varint_end_nonneg(rest);
            }
        }
    }
    if seq![0u8].is_prefix_of(bytes) {
        assert(bytes[0] == bytes.subrange(0, 1)[0]);
    }
    assert forall|t: WireType, id: i16|
        #![trigger compact_field_header(t, id, base)]
        plain_field_type(t) && delta_fits(id, base) && compact_field_header(
            t,
            id,
            base,
        ).is_prefix_of(bytes) implies decode_field_header(bytes, base) == Some(
            (
                FieldHeader { name: None, field_type: t, id: Some(id) },
                compact_field_header(t, id, base).len() as int,
            ),
        ) by {
        lemma_header_decodes(compact_type_code(t), id, base, bytes);
        assert(header_type(compact_type_code(t)) == t);
    }
    assert forall|id: i16, b: bool|
        #![trigger compact_bool_field(id, base, b)]
        delta_fits(id, base) && compact_bool_field(id, base, b).is_prefix_of(bytes) implies
            decode_field_header(bytes, base) == Some(
            (
                FieldHeader { name: None, field_type: WireType::Bool, id: Some(id) },
                compact_bool_field(id, base, b).len() as int,
            ),
        ) && bytes[0] % 16 == (if b { 1int } else { 2int }) by {
        lemma_header_decodes(if b { 1int } else { 2int }, id, base, bytes);
    }
}

/// A field header with type code `code` (1 to 12) written for `id` against
/// `base` decodes to that code's type and `id`, taking exactly its bytes.
proof fn lemma_header_decodes(code: int, id: i16, base: i16, bytes: Seq<u8>)
    requires
        1 <= code <= 12,
        delta_fits(id, base),
        field_header_bytes(code, id, base).is_prefix_of(bytes),
    ensures
        decode_field_header(bytes, base) == Some(
            (
                FieldHeader { name: None, field_type: header_type(code), id: Some(id) },
                field_header_bytes(code, id, base).len() as int,
            ),
        ),
        bytes[0] % 16 == code,
{
    let hb = field_header_bytes(code, id, base);
    assert(bytes[0] == hb[0]);
    let d = id - base;
    if 0 < d < 15 {
        assert(bytes[0] == d * 16 + code);
    } else {
        let z = zigzag(id as int);
        let v = varint(z);
        assert(hb == seq![code as u8] + v);
        let rest = bytes.skip(1);
        let tail = bytes.skip(hb.len() as int);
        lemma_varint(z, tail);
        lemma_unzigzag(id as int);
        assert(bytes.subrange(0, hb.len() as int) == hb);
        assert forall|j: int| 0 <= j < rest.len() implies rest[j] == (v + tail)[j] by {
            if j < v.len() {
                assert(rest[j] == bytes.subrange(0, hb.len() as int)[j + 1]);
            }
        }
        assert(rest =~= v + tail);
        assert(rest.take(v.len() as int) =~= v);
        assert(rest[v.len() - 1] < 128);
        assert(!varint_unterminated(rest, 3));
    }
}

impl CompactReader {
    /// `TCompactInputProtocol::new` over a cursor at the start of `bytes`:
    /// all of `bytes` is unread, no struct is open, the id base is 0 and no
    /// bool value is kept.
    #[verifier::external_body]
    fn over_bytes(bytes: Vec<u8>) -> (r: CompactReader)
        ensures
            unread_bytes(r) == bytes@,
            open_structs(r) == 0,
            last_read_field_id(r) == 0,
            pending_read_bool(r) is None,
    {
        CompactReader { protocol: TCompactInputProtocol::new(std::io::Cursor::new(bytes)) }
    }

    /// A reader at the start of `bytes`, outside any struct.
    pub fn new(bytes: Vec<u8>) -> (r: CompactReader)
        ensures
            unread_bytes(r) == bytes@,
            open_structs(r) == 0,
            last_read_field_id(r) == 0,
            pending_read_bool(r) is None,
    {
        Self::over_bytes(bytes)
    }

    /// `TInputProtocol::read_message_begin`: reads from the front; the struct
    /// stack is untouched.
    #[verifier::external_body]
    pub(crate) fn read_message_begin(&mut self) -> (r: Result<TMessageIdentifier, thrift::Error>)
        ensures
            consumes(*old(self), *final(self)),
            message_header_read(*old(self), *final(self), r),
    {
        self.protocol.read_message_begin()
    }

    /// `TInputProtocol::read_message_end`: does nothing and succeeds.
    #[verifier::external_body]
    pub(crate) fn read_message_end(&mut self) -> (r: Result<(), thrift::Error>)
        ensures
            *final(self) == *old(self),
            r is Ok,
    {
        self.protocol.read_message_end()
    }

    /// `TInputProtocol::read_struct_begin`: pushes the id base onto the
    /// field-id stack and starts a new one at 0, reads nothing, and returns
    /// `Ok(None)`.
    #[verifier::external_body]
    pub(crate) fn read_struct_begin(&mut self) -> (r: Result<Option<TStructIdentifier>, thrift::Error>)
        ensures
            unread_bytes(*final(self)) == unread_bytes(*old(self)),
            open_structs(*final(self)) == open_structs(*old(self)) + 1,
            last_read_field_id(*final(self)) == 0,
            pending_read_bool(*final(self)) == pending_read_bool(*old(self)),
            r matches Ok(None),
    {
        self.protocol.read_struct_begin()
    }

    /// `TInputProtocol::read_struct_end`: pops the field-id stack (it panics
    /// on an empty one) and returns `Ok(())`.
    #[verifier::external_body]
    pub(crate) fn read_struct_end(&mut self) -> (r: Result<(), thrift::Error>)
        requires
            open_structs(*old(self)) > 0,
        ensures
            unread_bytes(*final(self)) == unread_bytes(*old(self)),
            open_structs(*final(self)) == open_structs(*old(self)) - 1,
            r is Ok,
    {
        self.protocol.read_struct_end()
    }

    /// `TInputProtocol::read_field_begin`, its `TFieldIdentifier` taken field
    /// for field: the header at the front is decoded as `decode_field_header`
    /// says, consumed, and becomes the id base; a bool field's value is kept
    /// for `read_bool`. Where the decoding fails, the read fails.
    /// The compact reader panics (with overflow checks on) when a short
    /// header's id delta carries the running id past `i16::MAX`; `requires`
    /// leaves those states out.
    #[verifier::external_body]
    pub(crate) fn read_field_begin(&mut self) -> (r: Result<FieldHeader, thrift::Error>)
        requires
            next_header_safe(*old(self)),
        ensures
            decode_field_header(unread_bytes(*old(self)), last_read_field_id(*old(self))) is None
                ==> r is Err,
            decode_field_header(unread_bytes(*old(self)), last_read_field_id(*old(self))) matches Some(
                (h, n),
            ) ==> {
                &&& r == Ok::<FieldHeader, thrift::Error>(h)
                &&& unread_bytes(*final(self)) == unread_bytes(*old(self)).skip(n)
                &&& open_structs(*final(self)) == open_structs(*old(self))
                &&& h.field_type != WireType::Stop ==> last_read_field_id(*final(self)) == h.id->0
                &&& h.field_type == WireType::Bool ==> pending_read_bool(*final(self)) == Some(
                    unread_bytes(*old(self))[0] % 16 == 1,
                )
            },
            consumes(*old(self), *final(self)),
    {
        self.protocol.read_field_begin().map(|f| FieldHeader {
            name: f.name,
            id: f.id,
            field_type: match f.field_type {
                TType::Stop => WireType::Stop, TType::Void => WireType::Void,
                TType::Bool => WireType::Bool, TType::I08 => WireType::I08,
                TType::Double => WireType::Double, TType::I16 => WireType::I16,
                TType::I32 => WireType::I32, TType::I64 => WireType::I64,
                TType::String => WireType::String, TType::Utf7 => WireType::Utf7,
                TType::Struct => WireType::Struct, TType::Map => WireType::MapOf,
                TType::Set => WireType::SetOf, TType::List => WireType::ListOf,
                TType::Utf8 => WireType::Utf8, TType::Utf16 => WireType::Utf16,
            },
        })
    }

    /// `TInputProtocol::read_field_end`: does nothing and succeeds.
    #[verifier::external_body]
    pub(crate) fn read_field_end(&mut self) -> (r: Result<(), thrift::Error>)
        ensures
            *final(self) == *old(self),
            r is Ok,
    {
        self.protocol.read_field_end()
    }

    /// `TInputProtocol::read_bool`: the value kept from a bool field's
    /// header, reading nothing, or else one byte.
    #[verifier::external_body]
    pub(crate) fn read_bool(&mut self) -> (r: Result<bool, thrift::Error>)
        ensures
            consumes(*old(self), *final(self)),
            last_read_field_id(*final(self)) == last_read_field_id(*old(self)),
            bool_read(*old(self), *final(self), r),
    {
        self.protocol.read_bool()
    }

    /// `TInputProtocol::read_bytes`: a length-prefixed byte string. A byte
    /// string of at most `u32::MAX` bytes (the length prefix is a `u32`) that
    /// `write_bytes` wrote reads back as the same bytes.
    /// Not stated: a length prefix of up to 4 GiB is allocated before the
    /// bytes are read, which may exhaust memory on a corrupt footer.
    #[verifier::external_body]
    pub(crate) fn read_bytes(&mut self) -> (r: Result<Vec<u8>, thrift::Error>)
        ensures
            consumes(*old(self), *final(self)),
            last_read_field_id(*final(self)) == last_read_field_id(*old(self)),
            binary_read(*old(self), *final(self), r),
    {
        self.protocol.read_bytes()
    }

    /// `TInputProtocol::read_i8`.
    #[verifier::external_body]
    pub(crate) fn read_i8(&mut self) -> (r: Result<i8, thrift::Error>)
        ensures
            consumes(*old(self), *final(self)),
            i8_read(*old(self), *final(self), r),
    {
        self.protocol.read_i8()
    }

    /// `TInputProtocol::read_i16`.
    #[verifier::external_body]
    pub(crate) fn read_i16(&mut self) -> (r: Result<i16, thrift::Error>)
        ensures
            consumes(*old(self), *final(self)),
            i16_read(*old(self), *final(self), r),
    {
        self.protocol.read_i16()
    }

    /// `TInputProtocol::read_i32`: an `i32` that `write_i32` wrote reads back.
    #[verifier::external_body]
    pub(crate) fn read_i32(&mut self) -> (r: Result<i32, thrift::Error>)
        ensures
            consumes(*old(self), *final(self)),
            last_read_field_id(*final(self)) == last_read_field_id(*old(self)),
            i32_read(*old(self), *final(self), r),
    {
        self.protocol.read_i32()
    }

    /// `TInputProtocol::read_i64`: an `i64` that `write_i64` wrote reads back.
    #[verifier::external_body]
    pub(crate) fn read_i64(&mut self) -> (r: Result<i64, thrift::Error>)
        ensures
            consumes(*old(self), *final(self)),
            last_read_field_id(*final(self)) == last_read_field_id(*old(self)),
            i64_read(*old(self), *final(self), r),
    {
        self.protocol.read_i64()
    }

    /// `TInputProtocol::read_double`, the double handed out as its IEEE-754
    /// bit pattern (`to_bits`), one for one.
    #[verifier::external_body]
    pub(crate) fn read_double_bits(&mut self) -> (r: Result<u64, thrift::Error>)
        ensures
            consumes(*old(self), *final(self)),
            double_read(*old(self), *final(self), r),
    {
        self.protocol.read_double().map(|d| d.to_bits())
    }

    /// `TInputProtocol::read_string`: a length-prefixed UTF-8 string, read
    /// as `read_bytes` reads it and then checked as UTF-8.
    /// Not stated: as for `read_bytes`, the length is allocated up front.
    #[verifier::external_body]
    pub(crate) fn read_string(&mut self) -> (r: Result<String, thrift::Error>)
        ensures
            consumes(*old(self), *final(self)),
            last_read_field_id(*final(self)) == last_read_field_id(*old(self)),
            string_read(*old(self), *final(self), r),
    {
        self.protocol.read_string()
    }

    /// `TInputProtocol::read_list_begin`.
    #[verifier::external_body]
    pub(crate) fn read_list_begin(&mut self) -> (r: Result<TListIdentifier, thrift::Error>)
        ensures
            consumes(*old(self), *final(self)),
            collection_header_read(*old(self), *final(self), r),
    {
        self.protocol.read_list_begin()
    }

    /// `TInputProtocol::read_list_end`: does nothing and succeeds.
    #[verifier::external_body]
    pub(crate) fn read_list_end(&mut self) -> (r: Result<(), thrift::Error>)
        ensures
            *final(self) == *old(self),
            r is Ok,
    {
        self.protocol.read_list_end()
    }

    /// `TInputProtocol::read_set_begin`.
    #[verifier::external_body]
    pub(crate) fn read_set_begin(&mut self) -> (r: Result<TSetIdentifier, thrift::Error>)
        ensures
            consumes(*old(self), *final(self)),
            collection_header_read(*old(self), *final(self), r),
    {
        self.protocol.read_set_begin()
    }

    /// `TInputProtocol::read_set_end`: does nothing and succeeds.
    #[verifier::external_body]
    pub(crate) fn read_set_end(&mut self) -> (r: Result<(), thrift::Error>)
        ensures
            *final(self) == *old(self),
            r is Ok,
    {
        self.protocol.read_set_end()
    }

    /// `TInputProtocol::read_map_begin`.
    #[verifier::external_body]
    pub(crate) fn read_map_begin(&mut self) -> (r: Result<TMapIdentifier, thrift::Error>)
        ensures
            consumes(*old(self), *final(self)),
            map_header_read(*old(self), *final(self), r),
    {
        self.protocol.read_map_begin()
    }

    /// `TInputProtocol::read_map_end`: does nothing and succeeds.
    #[verifier::external_body]
    pub(crate) fn read_map_end(&mut self) -> (r: Result<(), thrift::Error>)
        ensures
            *final(self) == *old(self),
            r is Ok,
    {
        self.protocol.read_map_end()
    }

    /// `TInputProtocol::read_byte`: one byte.
    #[verifier::external_body]
    pub(crate) fn read_byte(&mut self) -> (r: Result<u8, thrift::Error>)
        ensures
            consumes(*old(self), *final(self)),
            byte_read(*old(self), *final(self), r),
    {
        self.protocol.read_byte()
    }
}

impl<'w> CompactWriter<'w> {
    /// `TCompactOutputProtocol::new` over `buf`: the buffer as it is, no
    /// header held back, and the id base 0.
    #[verifier::external_body]
    fn appending_to(buf: &'w mut Vec<u8>) -> (w: CompactWriter<'w>)
        ensures
            written_bytes(w) == old(buf)@,
            pending_bool_field(w) is None,
            last_field_id(w) == 0,
    {
        CompactWriter { protocol: TCompactOutputProtocol::new(buf) }
    }

    /// A writer that appends to `buf`, outside any struct.
    pub fn new(buf: &'w mut Vec<u8>) -> (w: CompactWriter<'w>)
        ensures
            written_bytes(w) == old(buf)@,
            pending_bool_field(w) is None,
            last_field_id(w) == 0,
    {
        Self::appending_to(buf)
    }

    /// `TOutputProtocol::write_field_begin`, the header given field for field
    /// as a `TFieldIdentifier`. A bool header is held back until its value is
    /// written (the writer panics if one is already held back); any other
    /// header is written at once against the id base (the writer panics on a
    /// missing id, on a type without a wire code, and, with overflow checks
    /// on, on a delta that does not fit an `i16`). Writes into a `Vec<u8>`
    /// do not fail.
    #[verifier::external_body]
    pub(crate) fn write_field_begin(&mut self, header: &FieldHeader) -> (r: Result<(), thrift::Error>)
        requires
            header.id is Some,
            writable_field_type(header.field_type),
            header.field_type == WireType::Bool ==> pending_bool_field(*old(self)) is None,
            header.field_type != WireType::Bool ==> delta_fits(
                header.id->0,
                last_field_id(*old(self)),
            ),
        ensures
            r is Ok,
            header.field_type == WireType::Bool ==> {
                &&& pending_bool_field(*final(self)) == Some(header.id->0)
                &&& last_field_id(*final(self)) == last_field_id(*old(self))
                &&& written_bytes(*final(self)) == written_bytes(*old(self))
            },
            header.field_type != WireType::Bool ==> {
                &&& pending_bool_field(*final(self)) == pending_bool_field(*old(self))
                &&& last_field_id(*final(self)) == header.id->0
                &&& written_bytes(*final(self)) == written_bytes(*old(self)) + compact_field_header(
                    header.field_type,
                    header.id->0,
                    last_field_id(*old(self)),
                )
            },
    {
        let field_type = match header.field_type {
            WireType::Stop => TType::Stop, WireType::Void => TType::Void,
            WireType::Bool => TType::Bool, WireType::I08 => TType::I08,
            WireType::Double => TType::Double, WireType::I16 => TType::I16,
            WireType::I32 => TType::I32, WireType::I64 => TType::I64,
            WireType::String => TType::String, WireType::Utf7 => TType::Utf7,
            WireType::Struct => TType::Struct, WireType::MapOf => TType::Map,
            WireType::SetOf => TType::Set, WireType::ListOf => TType::List,
            WireType::Utf8 => TType::Utf8, WireType::Utf16 => TType::Utf16,
        };
        let id = TFieldIdentifier { name: header.name.clone(), field_type, id: header.id };
        self.protocol.write_field_begin(&id)
    }

    /// `TOutputProtocol::write_bool`: with a bool header held back, writes
    /// that header with the value packed in (against the id base, see
    /// `write_field_begin`); else writes one byte, 1 for `true` and 2 for
    /// `false`.
    #[verifier::external_body]
    pub(crate) fn write_bool(&mut self, b: bool) -> (r: Result<(), thrift::Error>)
        requires
            pending_bool_field(*old(self)) matches Some(id) ==> delta_fits(
                id,
                last_field_id(*old(self)),
            ),
        ensures
            r is Ok,
            pending_bool_field(*final(self)) is None,
            pending_bool_field(*old(self)) matches Some(id) ==> {
                &&& last_field_id(*final(self)) == id
                &&& written_bytes(*final(self)) == written_bytes(*old(self)) + compact_bool_field(
                    id,
                    last_field_id(*old(self)),
                    b,
                )
            },
            pending_bool_field(*old(self)) is None ==> {
                &&& last_field_id(*final(self)) == last_field_id(*old(self))
                &&& written_bytes(*final(self)) == written_bytes(*old(self)) + seq![
                    if b { 1u8 } else { 2u8 },
                ]
            },
    {
        self.protocol.write_bool(b)
    }

    /// `TOutputProtocol::write_string`: the string's UTF-8 bytes, written as
    /// `write_bytes` writes them.
    #[verifier::external_body]
    pub(crate) fn write_string(&mut self, s: &str) -> (r: Result<(), thrift::Error>)
        ensures
            r is Ok,
            pending_bool_field(*final(self)) == pending_bool_field(*old(self)),
            last_field_id(*final(self)) == last_field_id(*old(self)),
            written_bytes(*final(self)) == written_bytes(*old(self)) + compact_binary(encode_utf8(s@)),
    {
        self.protocol.write_string(s)
    }

    /// `TOutputProtocol::write_bytes`: a length-prefixed byte string.
    #[verifier::external_body]
    pub(crate) fn write_bytes(&mut self, b: &[u8]) -> (r: Result<(), thrift::Error>)
        ensures
            r is Ok,
            pending_bool_field(*final(self)) == pending_bool_field(*old(self)),
            last_field_id(*final(self)) == last_field_id(*old(self)),
            written_bytes(*final(self)) == written_bytes(*old(self)) + compact_binary(b@),
    {
        self.protocol.write_bytes(b)
    }

    /// `TOutputProtocol::write_i32`: a zigzag varint.
    #[verifier::external_body]
    pub(crate) fn write_i32(&mut self, i: i32) -> (r: Result<(), thrift::Error>)
        ensures
            r is Ok,
            pending_bool_field(*final(self)) == pending_bool_field(*old(self)),
            last_field_id(*final(self)) == last_field_id(*old(self)),
            written_bytes(*final(self)) == written_bytes(*old(self)) + compact_i32(i),
    {
        self.protocol.write_i32(i)
    }

    /// `TOutputProtocol::write_i64`: a zigzag varint.
    #[verifier::external_body]
    pub(crate) fn write_i64(&mut self, i: i64) -> (r: Result<(), thrift::Error>)
        ensures
            r is Ok,
            pending_bool_field(*final(self)) == pending_bool_field(*old(self)),
            last_field_id(*final(self)) == last_field_id(*old(self)),
            written_bytes(*final(self)) == written_bytes(*old(self)) + compact_i64(i),
    {
        self.protocol.write_i64(i)
    }

    /// `TOutputProtocol::write_field_end`: writes nothing; the writer panics
    /// if a bool header is still held back.
    #[verifier::external_body]
    pub(crate) fn write_field_end(&mut self) -> (r: Result<(), thrift::Error>)
        requires
            pending_bool_field(*old(self)) is None,
        ensures
            r is Ok,
            pending_bool_field(*final(self)) is None,
            last_field_id(*final(self)) == last_field_id(*old(self)),
            written_bytes(*final(self)) == written_bytes(*old(self)),
    {
        self.protocol.write_field_end()
    }
}

} // verus!
