//! What the byte codec produces and reads, stated over the model, and the
//! round-trip law.
use vstd::prelude::*;
use crate::lanes::{decode_lanes, encode_lanes, lemma_lanes_round_trip};
use crate::model::{lemma_fields_ordered, lemma_wf_fields, RecordModel, TypeModel, ValueModel};

verus! {

/// The value has the shape of the type: a primitive has the kind's lane
/// count, and a record one fitting value per field.
pub open spec fn value_fits(ty: TypeModel, v: ValueModel) -> bool
    decreases ty,
{
    match ty {
        TypeModel::Prim(p) => v matches ValueModel::Prim(lanes) && lanes.len() == p.lane_count(),
        TypeModel::Record(r) => v matches ValueModel::Record(vals) && vals.len() == r.fields.len()
            && forall|i: int|
            0 <= i < r.fields.len() ==> value_fits(r.fields[i].data_type, #[trigger] vals[i]),
    }
}

/// `chunk` written over `buf` from position `at`.
pub open spec fn splice(buf: Seq<u8>, at: int, chunk: Seq<u8>) -> Seq<u8> {
    buf.subrange(0, at) + chunk + buf.subrange(at + chunk.len(), buf.len() as int)
}

/// `buf` with the first `n` chunks written at their fields' offsets, in field order.
pub open spec fn place_fields(buf: Seq<u8>, r: RecordModel, chunks: Seq<Seq<u8>>, n: int) -> Seq<
    u8,
>
    decreases n,
{
    if n <= 0 {
        buf
    } else {
        splice(place_fields(buf, r, chunks, n - 1), r.fields[n - 1].offset as int, chunks[n - 1])
    }
}

/// The field values of a record value (empty for any other value).
pub open spec fn field_values(v: ValueModel) -> Seq<ValueModel> {
    match v {
        ValueModel::Record(vals) => vals,
        ValueModel::Prim(_) => Seq::empty(),
    }
}

/// The lanes of a primitive value (empty for any other value).
pub open spec fn prim_lanes(v: ValueModel) -> Seq<u32> {
    match v {
        ValueModel::Prim(lanes) => lanes,
        ValueModel::Record(_) => Seq::empty(),
    }
}

/// `buf` after `v`, a value of type `ty`, is written over it: a primitive's
/// lanes little-endian, four bytes each; a record's fields each over its own
/// byte range, and the bytes between and after fields as they were in `buf`.
pub open spec fn write_into(ty: TypeModel, v: ValueModel, buf: Seq<u8>) -> Seq<u8>
    decreases ty,
{
    match ty {
        TypeModel::Prim(_) => encode_lanes(prim_lanes(v)),
        TypeModel::Record(r) => place_fields(
            buf,
            r,
            field_chunks(r, field_values(v), buf),
            r.fields.len() as int,
        ),
    }
}

/// The bytes of each field value written over its field's range of `buf`.
pub open spec fn field_chunks(r: RecordModel, vals: Seq<ValueModel>, buf: Seq<u8>) -> Seq<Seq<u8>>
    decreases r,
{
    Seq::new(
        r.fields.len(),
        |i: int|
            if 0 <= i < r.fields.len() {
                write_into(
                    r.fields[i].data_type,
                    vals[i],
                    buf.subrange(r.fields[i].offset as int, r.field_end(i)),
                )
            } else {
                Seq::empty()
            },
    )
}

/// Byte `j` lies in one of the first `n` fields of `r`.
pub open spec fn in_some_field(r: RecordModel, n: int, j: int) -> bool {
    exists|k: int| 0 <= k < n && r.fields[k].offset <= j < #[trigger] r.field_end(k)
}

/// The value of type `ty` that `bytes` hold: a record's fields are read from
/// their offsets.
pub open spec fn decode(ty: TypeModel, bytes: Seq<u8>) -> ValueModel
    decreases ty,
{
    match ty {
        TypeModel::Prim(_) => ValueModel::Prim(decode_lanes(bytes)),
        TypeModel::Record(r) => ValueModel::Record(
            Seq::new(
                r.fields.len(),
                |i: int|
                    if 0 <= i < r.fields.len() {
                        decode(
                            r.fields[i].data_type,
                            bytes.subrange(r.fields[i].offset as int, r.field_end(i)),
                        )
                    } else {
                        ValueModel::Prim(Seq::empty())
                    },
            ),
        ),
    }
}

/// Writing chunks that fit their fields keeps the buffer's length and leaves
/// each of the first `n` chunks in place.
pub proof fn lemma_place_fields(buf: Seq<u8>, r: RecordModel, chunks: Seq<Seq<u8>>, n: int)
    requires
        r.is_laid_out(),
        buf.len() == r.size,
        0 <= n <= r.fields.len(),
        chunks.len() == r.fields.len(),
        forall|i: int| 0 <= i < r.fields.len() ==> (#[trigger] chunks[i]).len() == r.fields[i].data_type.size(),
    ensures
        place_fields(buf, r, chunks, n).len() == r.size,
        forall|k: int|
            0 <= k < n ==> (#[trigger] place_fields(buf, r, chunks, n).subrange(
                r.fields[k].offset as int,
                r.field_end(k),
            )) == chunks[k],
        forall|j: int|
            0 <= j < r.size && !in_some_field(r, n, j) ==> #[trigger] place_fields(buf, r, chunks, n)[j]
                == buf[j],
    decreases n,
{
    if n > 0 {
        let prev = place_fields(buf, r, chunks, n - 1);
        lemma_place_fields(buf, r, chunks, n - 1);
        lemma_fields_ordered(r, n - 1, r.fields.len() as int);
        let at = r.fields[n - 1].offset as int;
        let cur = place_fields(buf, r, chunks, n);
        assert(cur == splice(prev, at, chunks[n - 1]));
        assert forall|k: int| 0 <= k < n implies (#[trigger] cur.subrange(
            r.fields[k].offset as int,
            r.field_end(k),
        )) == chunks[k] by {
            if k < n - 1 {
                lemma_fields_ordered(r, k, n - 1);
                lemma_fields_ordered(r, k, r.fields.len() as int);
                assert(cur.subrange(r.fields[k].offset as int, r.field_end(k)) =~= prev.subrange(
                    r.fields[k].offset as int,
                    r.field_end(k),
                ));
            } else {
                assert(cur.subrange(r.fields[k].offset as int, r.field_end(k)) =~= chunks[k]);
            }
        }
        assert forall|j: int| 0 <= j < r.size && !in_some_field(r, n, j) implies #[trigger] cur[j]
            == buf[j] by {
            if in_some_field(r, n - 1, j) {
                let k = choose|k: int| 0 <= k < n - 1 && r.fields[k].offset <= j < #[trigger] r.field_end(k);
                assert(0 <= k < n && r.fields[k].offset <= j < r.field_end(k));
            }
            assert(!(r.fields[n - 1].offset <= j < r.field_end(n - 1)));
        }
    }
}

/// Writing a fitting value over a buffer of the type's size keeps that size.
pub proof fn lemma_write_len(ty: TypeModel, v: ValueModel, buf: Seq<u8>)
    requires
        ty.wf(),
        value_fits(ty, v),
        buf.len() == ty.size(),
    ensures
        write_into(ty, v, buf).len() == ty.size(),
    decreases ty, 1int,
{
    match ty {
        TypeModel::Prim(p) => {
            p.lemma_size_align();
            assert(prim_lanes(v).len() == p.lane_count());
        },
        TypeModel::Record(r) => {
            lemma_record_chunks(r, v, buf);
            lemma_place_fields(buf, r, field_chunks(r, field_values(v), buf), r.fields.len() as int);
        },
    }
}

/// Each field's chunk fills exactly its field's range.
pub proof fn lemma_record_chunks(r: RecordModel, v: ValueModel, buf: Seq<u8>)
    requires
        TypeModel::Record(r).wf(),
        value_fits(TypeModel::Record(r), v),
        buf.len() == r.size,
    ensures
        field_chunks(r, field_values(v), buf).len() == r.fields.len(),
        forall|i: int|
            0 <= i < r.fields.len() ==> (#[trigger] field_chunks(r, field_values(v), buf)[i]).len()
                == r.fields[i].data_type.size(),
    decreases TypeModel::Record(r), 0int,
{
    lemma_wf_fields(r);
    let t = TypeModel::Record(r);
    let chunks = field_chunks(r, field_values(v), buf);
    assert forall|i: int| 0 <= i < r.fields.len() implies (#[trigger] chunks[i]).len()
        == r.fields[i].data_type.size() by {
        assert(r.fields[i].data_type.wf());
        assert(value_fits(r.fields[i].data_type, field_values(v)[i]));
        lemma_fields_ordered(r, i, r.fields.len() as int);
        assert(decreases_to!(t => t->Record_0));
        assert(decreases_to!(r.fields => r.fields[i]));
        lemma_write_len(
            r.fields[i].data_type,
            field_values(v)[i],
            buf.subrange(r.fields[i].offset as int, r.field_end(i)),
        );
    }
}

/// Writing a record value leaves every byte outside the record's fields as
/// it was.
pub proof fn lemma_padding_kept(r: RecordModel, v: ValueModel, buf: Seq<u8>, j: int)
    requires
        TypeModel::Record(r).wf(),
        value_fits(TypeModel::Record(r), v),
        buf.len() == r.size,
        0 <= j < r.size,
        forall|k: int| 0 <= k < r.fields.len() ==> !(r.fields[k].offset <= j < #[trigger] r.field_end(k)),
    ensures
        write_into(TypeModel::Record(r), v, buf)[j] == buf[j],
{
    lemma_wf_fields(r);
    lemma_record_chunks(r, v, buf);
    lemma_place_fields(buf, r, field_chunks(r, field_values(v), buf), r.fields.len() as int);
}

/// Round trip: reading back the bytes of a fitting value, written over any
/// buffer of the type's size, gives the value.
pub proof fn lemma_round_trip(ty: TypeModel, v: ValueModel, buf: Seq<u8>)
    requires
        ty.wf(),
        value_fits(ty, v),
        buf.len() == ty.size(),
    ensures
        write_into(ty, v, buf).len() == ty.size(),
        decode(ty, write_into(ty, v, buf)) == v,
    decreases ty,
{
    lemma_write_len(ty, v, buf);
    match ty {
        TypeModel::Prim(p) => {
            lemma_lanes_round_trip(prim_lanes(v));
        },
        TypeModel::Record(r) => {
            lemma_wf_fields(r);
            let vals = field_values(v);
            let chunks = field_chunks(r, vals, buf);
            let bytes = write_into(ty, v, buf);
            lemma_record_chunks(r, v, buf);
            lemma_place_fields(buf, r, chunks, r.fields.len() as int);
            let d = decode(ty, bytes);
            assert forall|i: int| 0 <= i < r.fields.len() implies field_values(d)[i] == vals[i] by {
                assert(bytes.subrange(r.fields[i].offset as int, r.field_end(i)) == chunks[i]);
                assert(r.fields[i].data_type.wf());
                assert(value_fits(r.fields[i].data_type, vals[i]));
                lemma_fields_ordered(r, i, r.fields.len() as int);
                lemma_round_trip(
                    r.fields[i].data_type,
                    vals[i],
                    buf.subrange(r.fields[i].offset as int, r.field_end(i)),
                );
            }
            assert(field_values(d) =~= vals);
        },
    }
}

} // verus!
