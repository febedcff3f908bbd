//! Type descriptors: a primitive kind or a record layout.
use vstd::prelude::*;
use crate::encoding::{
    decode, field_chunks, field_values, in_some_field, lemma_padding_kept, lemma_place_fields,
    lemma_record_chunks, lemma_round_trip, place_fields, splice, value_fits, write_into,
};
use crate::lanes::{lanes_to_bytes, read_lanes, write_lanes};
use crate::model::{lemma_fields_ordered, lemma_wf_fields, RecordModel, TypeModel, ValueModel};
use crate::prim_type::PrimTypeInfo;
use crate::record_type::RecordTypeInfo;

verus! {

/// The descriptor of a type: a primitive kind or a record layout.
#[derive(Debug)]
pub enum DataTypeInfo {
    Prim(PrimTypeInfo),
    Record(RecordTypeInfo),
}

impl DataTypeInfo {
    pub open spec fn model(&self) -> TypeModel
        decreases self,
    {
        match self {
            DataTypeInfo::Prim(p) => TypeModel::Prim(*p),
            DataTypeInfo::Record(rt) => TypeModel::Record(rt.model()),
        }
    }

    /// Every descriptor is well formed: its records are laid out by the layout rule.
    pub fn note_wf(&self)
        ensures
            self@.wf(),
    {
        if let DataTypeInfo::Record(rt) = self {
            rt.note_wf();
        }
    }

    pub fn size(&self) -> (r: usize)
        ensures
            r == self@.size(),
    {
        match self {
            DataTypeInfo::Prim(p) => p.size(),
            DataTypeInfo::Record(rt) => rt.size(),
        }
    }

    pub fn align(&self) -> (r: usize)
        ensures
            r == self@.align(),
    {
        match self {
            DataTypeInfo::Prim(p) => p.align(),
            DataTypeInfo::Record(rt) => rt.align(),
        }
    }

    pub fn name(&self) -> (r: &str)
        ensures
            r@ == self@.name(),
    {
        match self {
            DataTypeInfo::Prim(p) => p.name(),
            DataTypeInfo::Record(rt) => rt.name().as_str(),
        }
    }
}

impl View for DataTypeInfo {
    type V = TypeModel;

    open spec fn view(&self) -> TypeModel {
        self.model()
    }
}

impl Clone for DataTypeInfo {
    fn clone(&self) -> (r: Self)
        ensures
            r == *self,
    {
        match self {
            DataTypeInfo::Prim(p) => DataTypeInfo::Prim(*p),
            DataTypeInfo::Record(rt) => DataTypeInfo::Record(rt.clone()),
        }
    }
}

impl PrimTypeInfo {
    pub fn into_data_type(self) -> (r: DataTypeInfo)
        ensures
            r == DataTypeInfo::Prim(self),
            r@ == TypeModel::Prim(self),
    {
        DataTypeInfo::Prim(self)
    }
}

/// A value of some shape: the 32-bit lanes of a primitive (a float lane is its
/// bit pattern, a signed lane its two's-complement pattern), or the values of
/// a record's fields in declared order.
#[derive(Debug, PartialEq, Eq)]
pub enum DataValue {
    Prim(Vec<u32>),
    Record(Vec<DataValue>),
}

impl View for DataValue {
    type V = ValueModel;

    open spec fn view(&self) -> ValueModel
        decreases self,
    {
        match self {
            DataValue::Prim(lanes) => ValueModel::Prim(lanes@),
            DataValue::Record(vals) => ValueModel::Record(
                Seq::new(
                    vals@.len(),
                    |i: int|
                        if 0 <= i < vals@.len() {
                            vals@[i].view()
                        } else {
                            ValueModel::Prim(Seq::empty())
                        },
                ),
            ),
        }
    }
}

/// Why a value cannot be written or read.
#[derive(Clone, Copy, PartialEq, Eq, Structural, Debug)]
pub enum CodecError {
    /// The byte buffer's length is not the type's size.
    LengthMismatch,
    /// The value does not have the type's shape.
    ValueMismatch,
}

impl DataTypeInfo {
    /// Whether `v` has the shape of this type.
    pub fn fits(&self, v: &DataValue) -> (r: bool)
        ensures
            r == value_fits(self@, v@),
        decreases self@,
    {
        match self {
            DataTypeInfo::Prim(p) => match v {
                DataValue::Prim(lanes) => {
                    proof {
                        p.lemma_size_align();
                    }
                    lanes.len() == p.size() / 4
                },
                DataValue::Record(_) => false,
            },
            DataTypeInfo::Record(rt) => match v {
                DataValue::Prim(_) => false,
                DataValue::Record(vals) => {
                    let r = rt.record_info().info();
                    let ghost rm = r@;
                    let n = r.field_count();
                    if vals.len() != n {
                        return false;
                    }
                    let mut i: usize = 0;
                    while i < n
                        invariant
                            n == rm.fields.len(),
                            rm == r@,
                            n == vals@.len(),
                            self@ == TypeModel::Record(rm),
                            v@ == ValueModel::Record(field_values(v@)),
                            forall|k: int| 0 <= k < n ==> #[trigger] field_values(v@)[k] == vals@[k]@,
                            0 <= i <= n,
                            forall|k: int| 0 <= k < i ==> value_fits(rm.fields[k].data_type, #[trigger] field_values(v@)[k]),
                        decreases n - i,
                    {
                        let f = r.field(i);
                        assert(field_values(v@)[i as int] == vals@[i as int]@);
                        assert(decreases_to!(self@ => self@->Record_0));
                        assert(decreases_to!(rm.fields => rm.fields[i as int]));
                        if !f.data_type().fits(&vals[i]) {
                            return false;
                        }
                        i = i + 1;
                    }
                    true
                },
            },
        }
    }
}

impl DataTypeInfo {
    /// Whether the two descriptors describe the same type.
    pub fn same(&self, other: &DataTypeInfo) -> (r: bool)
        ensures
            r == (self@ == other@),
        decreases self@,
    {
        match (self, other) {
            (DataTypeInfo::Prim(p), DataTypeInfo::Prim(q)) => *p == *q,
            (DataTypeInfo::Record(a), DataTypeInfo::Record(b)) => {
                let ra = a.record_info().info();
                let rb = b.record_info().info();
                let ghost am = ra@;
                let ghost bm = rb@;
                if !ra.name().same(rb.name()) || ra.size() != rb.size() || ra.align() != rb.align() {
                    return false;
                }
                let n = ra.field_count();
                if rb.field_count() != n {
                    return false;
                }
                let mut i: usize = 0;
                while i < n
                    invariant
                        self@ == TypeModel::Record(am),
                        other@ == TypeModel::Record(bm),
                        am == ra@,
                        bm == rb@,
                        n == am.fields.len(),
                        n == bm.fields.len(),
                        0 <= i <= n,
                        forall|k: int| 0 <= k < i ==> #[trigger] am.fields[k] == bm.fields[k],
                    decreases n - i,
                {
                    let fa = ra.field(i);
                    let fb = rb.field(i);
                    assert(decreases_to!(self@ => self@->Record_0));
                    assert(decreases_to!(am.fields => am.fields[i as int]));
                    if !fa.name().same(fb.name()) || fa.offset() != fb.offset()
                        || !fa.data_type().same(fb.data_type()) {
                        return false;
                    }
                    i = i + 1;
                }
                assert(am.fields =~= bm.fields);
                true
            },
            _ => false,
        }
    }
}

impl PartialEq for DataTypeInfo {
    fn eq(&self, other: &DataTypeInfo) -> (r: bool) {
        self.same(other)
    }
}

impl vstd::std_specs::cmp::PartialEqSpecImpl for DataTypeInfo {
    open spec fn obeys_eq_spec() -> bool {
        true
    }

    open spec fn eq_spec(&self, other: &DataTypeInfo) -> bool {
        self@ == other@
    }
}

impl Eq for DataTypeInfo {
}

/// `buf` with `v`, a value of type `info`, written over it.
fn encode_value(info: &DataTypeInfo, v: &DataValue, buf: &[u8]) -> (r: Vec<u8>)
    requires
        value_fits(info@, v@),
        buf@.len() == info@.size(),
    ensures
        r@ == write_into(info@, v@, buf@),
    decreases info@,
{
    info.note_wf();
    match info {
        DataTypeInfo::Prim(_) => match v {
            DataValue::Prim(lanes) => lanes_to_bytes(lanes.as_slice()),
            DataValue::Record(_) => Vec::new(),
        },
        DataTypeInfo::Record(rt) => {
            let r = rt.record_info().info();
            let vals = match v {
                DataValue::Record(vals) => vals,
                DataValue::Prim(_) => {
                    return Vec::new();
                },
            };
            let ghost rm = r@;
            let ghost chunks = field_chunks(rm, field_values(v@), buf@);
            proof {
                lemma_wf_fields(rm);
                lemma_record_chunks(rm, v@, buf@);
            }
            let size = r.size();
            let mut out: Vec<u8> = Vec::new();
            let mut j: usize = 0;
            while j < size
                invariant
                    size == rm.size,
                    buf@.len() == size,
                    0 <= j <= size,
                    out@ == buf@.take(j as int),
                decreases size - j,
            {
                out.push(buf[j]);
                assert(out@ =~= buf@.take(j + 1));
                j = j + 1;
            }
            assert(out@ =~= buf@);
            let n = r.field_count();
            let mut i: usize = 0;
            while i < n
                invariant
                    n == rm.fields.len(),
                    rm == r@,
                    info@ == TypeModel::Record(rm),
                    info@.wf(),
                    value_fits(info@, v@),
                    v@ == ValueModel::Record(field_values(v@)),
                    vals@.len() == n,
                    forall|k: int| 0 <= k < n ==> #[trigger] field_values(v@)[k] == vals@[k]@,
                    chunks == field_chunks(rm, field_values(v@), buf@),
                    chunks.len() == n,
                    forall|k: int| 0 <= k < n ==> (#[trigger] chunks[k]).len() == rm.fields[k].data_type.size(),
                    buf@.len() == rm.size,
                    0 <= i <= n,
                    out@ == place_fields(buf@, rm, chunks, i as int),
                    out@.len() == rm.size,
                decreases n - i,
            {
                let f = r.field(i);
                let off = f.offset();
                proof {
                    lemma_fields_ordered(rm, i as int, n as int);
                }
                let end = r.field_end(i);
                assert(decreases_to!(info@ => rm.fields[i as int].data_type));
                assert(field_values(v@)[i as int] == vals@[i as int]@);
                let chunk = encode_value(f.data_type(), &vals[i], &buf[off..end]);
                proof {
                    lemma_place_fields(buf@, rm, chunks, i + 1);
                }
                write_at(&mut out, off, &chunk);
                i = i + 1;
            }
            out
        },
    }
}

/// Writes `chunk` over `out` from position `at`.
fn write_slice_at(out: &mut [u8], at: usize, chunk: &Vec<u8>)
    requires
        at + chunk@.len() <= old(out)@.len(),
    ensures
        final(out)@ == splice(old(out)@, at as int, chunk@),
{
    let n = chunk.len();
    let len = out.len();
    let mut k: usize = 0;
    while k < n
        invariant
            n == chunk@.len(),
            len == out@.len(),
            at + n <= out@.len(),
            out@.len() == old(out)@.len(),
            0 <= k <= n,
            forall|j: int| 0 <= j < out@.len() ==> #[trigger] out@[j] == (if at <= j < at + k { chunk@[j - at] } else { old(out)@[j] }),
        decreases n - k,
    {
        out[at + k] = chunk[k];
        k = k + 1;
    }
    assert(out@ =~= splice(old(out)@, at as int, chunk@));
}

/// Writes `chunk` over `out` from position `at`.
fn write_at(out: &mut Vec<u8>, at: usize, chunk: &Vec<u8>)
    requires
        at + chunk@.len() <= old(out)@.len(),
    ensures
        final(out)@ == splice(old(out)@, at as int, chunk@),
{
    let n = chunk.len();
    let len = out.len();
    let mut k: usize = 0;
    while k < n
        invariant
            n == chunk@.len(),
            len == out@.len(),
            at + n <= out@.len(),
            out@.len() == old(out)@.len(),
            0 <= k <= n,
            forall|j: int| 0 <= j < out@.len() ==> #[trigger] out@[j] == (if at <= j < at + k { chunk@[j - at] } else { old(out)@[j] }),
        decreases n - k,
    {
        out.set(at + k, chunk[k]);
        k = k + 1;
    }
    assert(out@ =~= splice(old(out)@, at as int, chunk@));
}

/// The value of type `info` that `bytes` hold.
fn decode_value(info: &DataTypeInfo, bytes: &[u8]) -> (r: DataValue)
    requires
        bytes@.len() == info@.size(),
    ensures
        r@ == decode(info@, bytes@),
    decreases info@,
{
    info.note_wf();
    match info {
        DataTypeInfo::Prim(p) => {
            proof {
                p.lemma_size_align();
            }
            DataValue::Prim(read_lanes(bytes))
        },
        DataTypeInfo::Record(rt) => {
            let r = rt.record_info().info();
            let ghost rm = r@;
            proof {
                lemma_wf_fields(rm);
            }
            let n = r.field_count();
            let size = r.size();
            let mut out: Vec<DataValue> = Vec::new();
            let mut i: usize = 0;
            while i < n
                invariant
                    size == rm.size,
                    n == rm.fields.len(),
                    rm == r@,
                    info@ == TypeModel::Record(rm),
                    info@.wf(),
                    bytes@.len() == rm.size,
                    0 <= i <= n,
                    out@.len() == i,
                    forall|k: int| 0 <= k < i ==> (#[trigger] out@[k])@ == decode(rm.fields[k].data_type, bytes@.subrange(rm.fields[k].offset as int, rm.field_end(k))),
                decreases n - i,
            {
                let f = r.field(i);
                let fty = f.data_type();
                let off = f.offset();
                proof {
                    lemma_fields_ordered(rm, i as int, n as int);
                }
                let end = off + fty.size();
                assert(decreases_to!(info@ => rm.fields[i as int].data_type));
                let val = decode_value(fty, &bytes[off..end]);
                out.push(val);
                i = i + 1;
            }
            let r = DataValue::Record(out);
            assert(field_values(r@) =~= field_values(decode(info@, bytes@)));
            r
        },
    }
}

/// Writes `dt`, a value of type `info`, into `bytes_out`: a primitive's lanes
/// little-endian; a record's fields each into its own byte range, leaving the
/// bytes between and after fields as they were.
pub fn data_type_write(dt: &DataValue, info: &DataTypeInfo, bytes_out: &mut [u8]) -> (r: Result<
    (),
    CodecError,
>)
    ensures
        match r {
            Ok(()) => old(bytes_out)@.len() == info@.size() && value_fits(info@, dt@)
                && final(bytes_out)@ == write_into(info@, dt@, old(bytes_out)@),
            Err(CodecError::LengthMismatch) => old(bytes_out)@.len() != info@.size()
                && final(bytes_out)@ == old(bytes_out)@,
            Err(CodecError::ValueMismatch) => old(bytes_out)@.len() == info@.size() && !value_fits(
                info@,
                dt@,
            ) && final(bytes_out)@ == old(bytes_out)@,
        },
{
    if bytes_out.len() != info.size() {
        return Err(CodecError::LengthMismatch);
    }
    if !info.fits(dt) {
        return Err(CodecError::ValueMismatch);
    }
    info.note_wf();
    match info {
        DataTypeInfo::Prim(p) => {
            let lanes = match dt {
                DataValue::Prim(lanes) => lanes,
                DataValue::Record(_) => {
                    return Err(CodecError::ValueMismatch);
                },
            };
            proof {
                p.lemma_size_align();
            }
            write_lanes(lanes.as_slice(), bytes_out);
            Ok(())
        },
        DataTypeInfo::Record(rt) => {
            let r = rt.record_info().info();
            let vals = match dt {
                DataValue::Record(vals) => vals,
                DataValue::Prim(_) => {
                    return Err(CodecError::ValueMismatch);
                },
            };
            let ghost rm = r@;
            let ghost old_bytes = bytes_out@;
            let ghost chunks = field_chunks(rm, field_values(dt@), old_bytes);
            proof {
                lemma_wf_fields(rm);
                lemma_record_chunks(rm, dt@, old_bytes);
            }
            let n = r.field_count();
            let mut i: usize = 0;
            while i < n
                invariant
                    n == rm.fields.len(),
                    rm == r@,
                    info@ == TypeModel::Record(rm),
                    info@.wf(),
                    value_fits(info@, dt@),
                    dt@ == ValueModel::Record(field_values(dt@)),
                    vals@.len() == n,
                    forall|k: int| 0 <= k < n ==> #[trigger] field_values(dt@)[k] == vals@[k]@,
                    chunks == field_chunks(rm, field_values(dt@), old_bytes),
                    chunks.len() == n,
                    forall|k: int| 0 <= k < n ==> (#[trigger] chunks[k]).len() == rm.fields[k].data_type.size(),
                    old_bytes.len() == rm.size,
                    0 <= i <= n,
                    bytes_out@ == place_fields(old_bytes, rm, chunks, i as int),
                decreases n - i,
            {
                let f = r.field(i);
                let off = f.offset();
                proof {
                    lemma_fields_ordered(rm, i as int, n as int);
                    lemma_place_fields(old_bytes, rm, chunks, i as int);
                    lemma_place_fields(old_bytes, rm, chunks, i + 1);
                    assert forall|j: int| off <= j < rm.field_end(i as int) implies !in_some_field(rm, i as int, j) by {
                        if in_some_field(rm, i as int, j) {
                            let k = choose|k: int| 0 <= k < i && rm.fields[k].offset <= j < #[trigger] rm.field_end(k);
                            lemma_fields_ordered(rm, k, i as int);
                        }
                    }
                }
                let end = r.field_end(i);
                assert(field_values(dt@)[i as int] == vals@[i as int]@);
                let chunk = encode_value(f.data_type(), &vals[i], &bytes_out[off..end]);
                assert(bytes_out@.subrange(off as int, end as int) =~= old_bytes.subrange(off as int, end as int));
                write_slice_at(bytes_out, off, &chunk);
                i = i + 1;
            }
            Ok(())
        },
    }
}

/// Reads a value of type `info` from `bytes` into `dt_out`.
pub fn data_type_read(dt_out: &mut DataValue, info: &DataTypeInfo, bytes: &[u8]) -> (r: Result<
    (),
    CodecError,
>)
    ensures
        match r {
            Ok(()) => bytes@.len() == info@.size() && final(dt_out)@ == decode(info@, bytes@),
            Err(e) => e == CodecError::LengthMismatch && bytes@.len() != info@.size()
                && *final(dt_out) == *old(dt_out),
        },
{
    if bytes.len() != info.size() {
        return Err(CodecError::LengthMismatch);
    }
    *dt_out = decode_value(info, bytes);
    Ok(())
}

/// Round trip: reading back the bytes written for a value of a type gives
/// that value. `bytes` is what writing `v` over `buf` produced and `w` what
/// reading `bytes` produced.
pub proof fn lemma_write_read(info: TypeModel, v: DataValue, buf: Seq<u8>, bytes: Seq<u8>, w: DataValue)
    requires
        info.wf(),
        value_fits(info, v@),
        buf.len() == info.size(),
        bytes == write_into(info, v@, buf),
        w@ == decode(info, bytes),
    ensures
        w@ == v@,
{
    lemma_round_trip(info, v@, buf);
}

/// Writing a record value leaves the bytes outside its fields as they were:
/// `bytes` is what writing `v` over `buf` produced, and byte `j` lies in no field.
pub proof fn lemma_write_keeps_padding(r: RecordModel, v: DataValue, buf: Seq<u8>, bytes: Seq<u8>, j: int)
    requires
        TypeModel::Record(r).wf(),
        value_fits(TypeModel::Record(r), v@),
        buf.len() == r.size,
        bytes == write_into(TypeModel::Record(r), v@, buf),
        0 <= j < r.size,
        forall|k: int| 0 <= k < r.fields.len() ==> !(r.fields[k].offset <= j < #[trigger] r.field_end(k)),
    ensures
        bytes[j] == buf[j],
{
    lemma_padding_kept(r, v@, buf, j);
}

} // verus!
