//! What holds across writing and reading overridden footer fields.

use crate::compact::{
    decode_field_header,
    last_field_id, last_read_field_id, unread_bytes, unread_starts_with, written_bytes, CompactReader,
    CompactWriter, FieldHeader,
};
use crate::read::{
    next_header_bytes, next_header_of, next_header_readable, run_base, run_bytes,
    run_taken_out, run_values, captured_run, first_header_outcome, spec_depth_after_end, spec_field_action, stream_at_run, stream_holds_value,
    value_fits, FieldAction, NextHeader, OverrideInputProtocol,
};
use crate::error::OverrideError;
use crate::value::{spec_value_type, spec_wire_type, FooterFieldValue, FooterFieldValueType, WireType};
use crate::write::spec_field_bytes;
use vstd::prelude::*;
use vstd::utf8::encode_utf8;

verus! {

/// A field written for `value` under `field_id` (its header carries the wire
/// type of the value's type) is taken out by a reader at the outermost struct
/// whose override for `field_id` is the value's type, and it passes that
/// reader's wire-type check, so the value comes back with the same type.
pub proof fn written_field_is_captured(
    field_id: i16,
    value: FooterFieldValue,
    overrides: Map<i16, FooterFieldValueType>,
    header: FieldHeader,
)
    requires
        overrides.contains_key(field_id),
        overrides[field_id] == spec_value_type(value),
        header.field_type == spec_wire_type(spec_value_type(value)),
        header.id == Some(field_id),
    ensures
        spec_field_action(1, overrides, header) == FieldAction::Capture(
            field_id,
            spec_value_type(value),
        ),
        header.field_type == spec_wire_type(overrides[field_id]),
{
}

/// Two override types share a wire type exactly when they are the same type
/// or are `String` and `Bytes`: a string written can be read as bytes and
/// the other way round, and any other change of type is refused on read.
pub proof fn wire_types_coincide(a: FooterFieldValueType, b: FooterFieldValueType)
    ensures
        spec_wire_type(a) == spec_wire_type(b) <==> (a == b || (a == FooterFieldValueType::String
            && b == FooterFieldValueType::Bytes) || (a == FooterFieldValueType::Bytes && b
            == FooterFieldValueType::String)),
{
}

/// A field is taken out only at the outermost struct: inside a nested
/// struct, or outside any struct, every header is passed on.
pub proof fn only_outermost_fields_captured(
    depth: u32,
    overrides: Map<i16, FooterFieldValueType>,
    header: FieldHeader,
)
    requires
        depth != 1,
    ensures
        spec_field_action(depth, overrides, header) == FieldAction::PassOn,
{
}

/// Without overrides nothing is taken out: every header is passed on, so the
/// footer decoder sees the field stream as it is.
pub proof fn no_overrides_pass_everything_on(depth: u32, header: FieldHeader)
    ensures
        spec_field_action(depth, Map::<i16, FooterFieldValueType>::empty(), header)
            == FieldAction::PassOn,
{
}

/// Leaving a struct undoes entering it.
pub proof fn struct_end_undoes_begin(depth: u32)
    requires
        depth < u32::MAX,
    ensures
        spec_depth_after_end((depth + 1) as u32) == depth,
{
}

/// A header that is not taken out (no override for its id, a nested or no
/// struct, or the end of the struct), at the front of the reader as the
/// writer wrote it against the reader's id base, is a run of no fields
/// followed by that header: `read_field_begin` returns it as it is and
/// consumes exactly its bytes (`run_outcome`). With no overrides at all this
/// holds of every header, so the decoder sees the field stream unchanged.
pub proof fn header_not_taken_out_is_passed_on(p: OverrideInputProtocol, e: NextHeader)
    requires
        e !is End,
        e !is BadValue,
        spec_field_action(p.depth(), p.overrides(), next_header_of(e)) == FieldAction::PassOn,
        next_header_readable(e, last_read_field_id(p.reader())),
        unread_starts_with(p.reader(), next_header_bytes(e, last_read_field_id(p.reader()))),
    ensures
        stream_at_run(p, Seq::empty(), e),
{
    let base = last_read_field_id(p.reader());
    assert(run_bytes(Seq::<(i16, FooterFieldValue)>::empty(), base) + next_header_bytes(e, base)
        =~= next_header_bytes(e, base));
}

/// After the first `n` writes of a run, the writer has appended the compact
/// bytes of the first `n` fields, and the last of them is its id base.
proof fn lemma_writes_append_run(
    ws: Seq<CompactWriter>,
    fields: Seq<(i16, FooterFieldValue)>,
    n: int,
)
    requires
        ws.len() == fields.len() + 1,
        0 <= n <= fields.len(),
        forall|i: int|
            #![trigger fields[i]]
            0 <= i < fields.len() ==> {
                &&& written_bytes(ws[i + 1]) == written_bytes(ws[i]) + spec_field_bytes(
                    fields[i].0,
                    last_field_id(ws[i]),
                    fields[i].1,
                )
                &&& last_field_id(ws[i + 1]) == fields[i].0
            },
    ensures
        written_bytes(ws[n]) == written_bytes(ws[0]) + run_bytes(
            fields.take(n),
            last_field_id(ws[0]),
        ),
        last_field_id(ws[n]) == run_base(fields.take(n), last_field_id(ws[0])),
    decreases n,
{
    let base = last_field_id(ws[0]);
    if n == 0 {
        assert(fields.take(0) =~= Seq::<(i16, FooterFieldValue)>::empty());
        assert(written_bytes(ws[0]) + Seq::<u8>::empty() =~= written_bytes(ws[0]));
    } else {
        lemma_writes_append_run(ws, fields, n - 1);
        let t = fields.take(n);
        assert(t.drop_last() =~= fields.take(n - 1));
        assert(t.last() == fields[n - 1]);
        assert(fields[n - 1] == fields[n - 1]);
        let fb = spec_field_bytes(fields[n - 1].0, last_field_id(ws[n - 1]), fields[n - 1].1);
        assert(run_bytes(t, base) == run_bytes(fields.take(n - 1), base) + fb);
        assert(written_bytes(ws[n]) =~= written_bytes(ws[0]) + (run_bytes(
            fields.take(n - 1),
            base,
        ) + fb));
    }
}

/// Fields written one after another by `write_footer_field_value` (each
/// call's contract holding from one writer state to the next) append, in
/// order, the compact bytes of the run. A reader at the writer's first id
/// base, with those bytes and then a header that is not taken out in front
/// of it (or those bytes and nothing more), stands at that run:
/// `read_field_begin` then takes every field out in order, records each
/// value, and returns that header (or fails at the end of the bytes with the
/// run's values recorded, `run_outcome`).
pub proof fn written_run_reads_back(
    ws: Seq<CompactWriter>,
    fields: Seq<(i16, FooterFieldValue)>,
    p: OverrideInputProtocol,
    e: NextHeader,
)
    requires
        ws.len() == fields.len() + 1,
        forall|i: int|
            #![trigger fields[i]]
            0 <= i < fields.len() ==> {
                &&& written_bytes(ws[i + 1]) == written_bytes(ws[i]) + spec_field_bytes(
                    fields[i].0,
                    last_field_id(ws[i]),
                    fields[i].1,
                )
                &&& last_field_id(ws[i + 1]) == fields[i].0
            },
        e !is BadValue,
        last_read_field_id(p.reader()) == last_field_id(ws[0]),
        run_taken_out(p, fields, last_field_id(ws[0])),
        next_header_readable(e, last_field_id(ws.last())),
        spec_field_action(p.depth(), p.overrides(), next_header_of(e)) matches FieldAction::Capture(
            _,
            t,
        ) ==> next_header_of(e).field_type != spec_wire_type(t),
        unread_starts_with(
            p.reader(),
            written_bytes(ws.last()).skip(written_bytes(ws[0]).len() as int) + next_header_bytes(
                e,
                last_field_id(ws.last()),
            ),
        ),
        e is End ==> unread_bytes(p.reader()) == written_bytes(ws.last()).skip(
            written_bytes(ws[0]).len() as int,
        ),
    ensures
        written_bytes(ws.last()) == written_bytes(ws[0]) + run_bytes(fields, last_field_id(ws[0])),
        last_field_id(ws.last()) == run_base(fields, last_field_id(ws[0])),
        stream_at_run(p, fields, e),
{
    let n = fields.len() as int;
    lemma_writes_append_run(ws, fields, n);
    assert(fields.take(n) =~= fields);
    assert(ws.last() == ws[n]);
    let w0 = written_bytes(ws[0]);
    let rb = run_bytes(fields, last_field_id(ws[0]));
    assert((w0 + rb).skip(w0.len() as int) =~= rb);
}

/// A string and the byte string of its UTF-8 bytes are written as the same
/// compact bytes under any field header, fit their length prefix alike, and
/// a reader that holds one holds the other: a field written as a string
/// reads back as bytes and the other way round.
pub proof fn string_and_bytes_share_encoding(
    field_id: i16,
    base: i16,
    s: String,
    b: Vec<u8>,
    r: CompactReader,
)
    requires
        b@ == encode_utf8(s@),
    ensures
        spec_field_bytes(field_id, base, FooterFieldValue::String(s)) == spec_field_bytes(
            field_id,
            base,
            FooterFieldValue::Bytes(b),
        ),
        value_fits(FooterFieldValue::String(s)) == value_fits(FooterFieldValue::Bytes(b)),
        stream_holds_value(r, FooterFieldValue::String(s)) == stream_holds_value(
            r,
            FooterFieldValue::Bytes(b),
        ),
{
}

/// All the fields that a sequence of calls took out, call after call, each
/// call's in its order.
pub open spec fn all_taken(takens: Seq<Seq<(i16, FooterFieldValue)>>) -> Seq<(i16, FooterFieldValue)>
    decreases takens.len(),
{
    if takens.len() == 0 {
        Seq::empty()
    } else {
        all_taken(takens.drop_last()) + takens.last()
    }
}

/// Recording two runs one after the other is recording them joined.
proof fn lemma_run_values_concat(
    values: Map<i16, FooterFieldValue>,
    a: Seq<(i16, FooterFieldValue)>,
    b: Seq<(i16, FooterFieldValue)>,
)
    ensures
        run_values(values, a + b) == run_values(run_values(values, a), b),
    decreases b.len(),
{
    if b.len() == 0 {
        assert(a + b =~= a);
    } else {
        lemma_run_values_concat(values, a, b.drop_last());
        assert((a + b).drop_last() =~= a + b.drop_last());
        assert((a + b).last() == b.last());
    }
}

/// Over any sequence of calls on one reader, where each call records the
/// fields it takes out, in order and at the outermost struct
/// (`read_field_begin` does so, by its `captured_run`), and every other call
/// keeps the values (an empty run), the values at the end are those at the
/// start with every field taken out, call after call, recorded in order.
pub proof fn values_across_calls(
    ps: Seq<OverrideInputProtocol>,
    takens: Seq<Seq<(i16, FooterFieldValue)>>,
)
    requires
        ps.len() == takens.len() + 1,
        forall|i: int|
            #![trigger takens[i]]
            0 <= i < takens.len() ==> captured_run(ps[i], takens[i]) && ps[i + 1].values()
                == run_values(ps[i].values(), takens[i]),
    ensures
        ps.last().values() == run_values(ps[0].values(), all_taken(takens)),
    decreases takens.len(),
{
    if takens.len() > 0 {
        let n = takens.len() - 1;
        assert(takens[n] == takens[n]);
        values_across_calls(ps.drop_last(), takens.drop_last());
        assert forall|i: int| 0 <= i < takens.drop_last().len() implies #[trigger] takens.drop_last()[i]
            == takens[i] by {}
        lemma_run_values_concat(ps[0].values(), all_taken(takens.drop_last()), takens.last());
        assert(ps.drop_last().last() == ps[n]);
    }
}

/// Where `id` last occurs in `fields`, or -1 where it does not occur.
pub open spec fn last_index_of(fields: Seq<(i16, FooterFieldValue)>, id: i16) -> int
    decreases fields.len(),
{
    if fields.len() == 0 {
        -1
    } else if fields.last().0 == id {
        fields.len() - 1
    } else {
        last_index_of(fields.drop_last(), id)
    }
}

/// Recording a run keeps every id recorded before and adds exactly the ids
/// of the run; an id of the run holds the value of its last occurrence, and
/// any other id keeps its value. So, from a reader made with nothing
/// recorded, `into_values` holds exactly the ids taken out, each with the
/// value it was last taken out with.
pub proof fn last_value_wins(
    values: Map<i16, FooterFieldValue>,
    fields: Seq<(i16, FooterFieldValue)>,
    id: i16,
)
    ensures
        -1 <= last_index_of(fields, id) < fields.len(),
        last_index_of(fields, id) >= 0 ==> fields[last_index_of(fields, id)].0 == id,
        forall|m: int|
            last_index_of(fields, id) < m < fields.len() ==> #[trigger] fields[m].0 != id,
        run_values(values, fields).contains_key(id) <==> (values.contains_key(id)
            || last_index_of(fields, id) >= 0),
        last_index_of(fields, id) >= 0 ==> run_values(values, fields)[id] == fields[last_index_of(
            fields,
            id,
        )].1,
        last_index_of(fields, id) < 0 ==> run_values(values, fields)[id] == values[id],
    decreases fields.len(),
{
    if fields.len() > 0 {
        let d = fields.drop_last();
        last_value_wins(values, d, id);
        assert forall|m: int| last_index_of(fields, id) < m < fields.len() implies #[trigger] fields[m].0
            != id by {
            if m < d.len() {
                assert(d[m] == fields[m]);
            }
        }
        if fields.last().0 != id && last_index_of(d, id) >= 0 {
            assert(d[last_index_of(d, id)] == fields[last_index_of(d, id)]);
        }
    }
}

/// In the outermost struct every field whose id has an override is taken
/// out as that override, whatever wire type its header carries: the wire
/// type is checked against the override afterwards, never used to let the
/// field through to the decoder.
pub proof fn overridden_field_is_taken_out_whatever_its_type(
    overrides: Map<i16, FooterFieldValueType>,
    header: FieldHeader,
    id: i16,
)
    requires
        header.field_type != WireType::Stop,
        header.id == Some(id),
        overrides.contains_key(id),
    ensures
        spec_field_action(1, overrides, header) == FieldAction::Capture(id, overrides[id]),
{
}

/// A field of the outermost struct with an overridden id whose header
/// carries another wire type than the override's (in whatever form the
/// header is written) ends `read_field_begin` with a type mismatch naming
/// the id, the override's type and the header's wire type; only the header
/// is consumed and no value is recorded. In particular such a field is
/// never handed on to the decoder.
pub proof fn mismatched_override_is_refused(
    p: OverrideInputProtocol,
    q: OverrideInputProtocol,
    r: Result<FieldHeader, OverrideError>,
    h: FieldHeader,
    n: int,
    id: i16,
)
    requires
        first_header_outcome(p, q, r),
        decode_field_header(unread_bytes(p.reader()), last_read_field_id(p.reader())) == Some(
            (h, n),
        ),
        p.depth() == 1,
        h.field_type != WireType::Stop,
        h.id == Some(id),
        p.overrides().contains_key(id),
        h.field_type != spec_wire_type(p.overrides()[id]),
    ensures
        r == Err::<FieldHeader, OverrideError>(
            OverrideError::TypeMismatch {
                field_id: id,
                expected: p.overrides()[id],
                found: h.field_type,
            },
        ),
        r !is Ok,
        unread_bytes(q.reader()) == unread_bytes(p.reader()).skip(n),
        q.values() == p.values(),
{
}

} // verus!
