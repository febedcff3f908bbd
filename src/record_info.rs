//! Record layouts, their shared handles, and the layout builder.
use vstd::prelude::*;
use std::marker::PhantomData;
use std::sync::Arc;
use crate::data_type::{data_type_read, data_type_write, CodecError, DataTypeInfo, DataValue};
use crate::encoding::{value_fits, write_into};
use crate::record_type::RecordType;
use crate::model::{
    end_of, field_types, has_duplicate_names, layout_fits, layout_of, lemma_fits_prefix,
    lemma_fields_ordered, lemma_layout_push, lemma_max_align, lemma_round_up, lemma_end_of_nonneg, lemma_wf_align,
    max_align, FieldModel, RecordModel, TypeModel, ValueModel,
};
use crate::shared_name::SharedName;

verus! {

/// One field of a record layout.
#[derive(Debug)]
pub struct RecordFieldInfo {
    name: SharedName,
    data_type: DataTypeInfo,
    offset: usize,
}

impl RecordFieldInfo {
    pub closed spec fn model(&self) -> FieldModel
        decreases self,
    {
        FieldModel { name: self.name@, data_type: self.data_type.model(), offset: self.offset as nat }
    }

    pub fn name(&self) -> (r: &SharedName)
        ensures
            r@ == self.model().name,
    {
        &self.name
    }

    pub fn data_type(&self) -> (r: &DataTypeInfo)
        ensures
            r@ == self.model().data_type,
    {
        &self.data_type
    }

    pub fn offset(&self) -> (r: usize)
        ensures
            r == self.model().offset,
    {
        self.offset
    }
}

/// The models of a sequence of fields.
pub closed spec fn fields_model(fields: Seq<RecordFieldInfo>) -> Seq<FieldModel>
    decreases fields,
{
    Seq::new(
        fields.len(),
        |i: int|
            if 0 <= i < fields.len() {
                fields[i].model()
            } else {
                arbitrary()
            },
    )
}

/// The layout of a record: its name, its fields in declared order with their
/// offsets, its size and its alignment. It is laid out by the layout rule.
#[derive(Debug)]
pub struct RecordInfo {
    name: SharedName,
    fields: Vec<RecordFieldInfo>,
    size: usize,
    align: usize,
}

impl RecordInfo {
    pub closed spec fn model(&self) -> RecordModel
        decreases self,
    {
        RecordModel {
            name: self.name@,
            fields: fields_model(self.fields@),
            size: self.size as nat,
            align: self.align as nat,
        }
    }

    #[verifier::type_invariant]
    closed spec fn laid_out(&self) -> bool {
        TypeModel::Record(self.model()).wf()
    }

    /// Every layout is laid out by the layout rule.
    pub fn note_wf(&self)
        ensures
            TypeModel::Record(self@).wf(),
    {
        proof {
            use_type_invariant(self);
        }
    }

    pub fn size(&self) -> (r: usize)
        ensures
            r == self@.size,
    {
        self.size
    }

    pub fn align(&self) -> (r: usize)
        ensures
            r == self@.align,
    {
        self.align
    }

    pub fn name(&self) -> (r: &SharedName)
        ensures
            r@ == self@.name,
    {
        &self.name
    }

    pub fn field_count(&self) -> (r: usize)
        ensures
            r == self@.fields.len(),
    {
        self.fields.len()
    }

    /// Where field `i` ends: its offset plus its type's size.
    pub fn field_end(&self, i: usize) -> (r: usize)
        requires
            i < self@.fields.len(),
        ensures
            r == self@.field_end(i as int),
    {
        self.note_wf();
        proof {
            lemma_fields_ordered(self@, i as int, self@.fields.len() as int);
        }
        let f = &self.fields[i];
        f.offset + f.data_type.size()
    }

    pub fn field(&self, i: usize) -> (r: &RecordFieldInfo)
        requires
            i < self@.fields.len(),
        ensures
            r.model() == self@.fields[i as int],
    {
        &self.fields[i]
    }
}

impl View for RecordInfo {
    type V = RecordModel;

    open spec fn view(&self) -> RecordModel {
        self.model()
    }
}

/// A shared handle to a record layout. Handles compare by the layout they hold.
#[derive(Debug)]
pub struct SharedRecordInfo {
    inner: Arc<RecordInfo>,
}

impl SharedRecordInfo {
    pub closed spec fn model(&self) -> RecordModel
        decreases self,
    {
        self.inner.model()
    }

    pub fn new(info: RecordInfo) -> (r: Self)
        ensures
            r@ == info@,
    {
        SharedRecordInfo { inner: Arc::new(info) }
    }

    pub fn info(&self) -> (r: &RecordInfo)
        ensures
            r@ == self@,
    {
        &self.inner
    }

    pub fn note_wf(&self)
        ensures
            TypeModel::Record(self@).wf(),
    {
        self.inner.note_wf();
    }

    pub fn size(&self) -> (r: usize)
        ensures
            r == self@.size,
    {
        self.inner.size()
    }

    pub fn align(&self) -> (r: usize)
        ensures
            r == self@.align,
    {
        self.inner.align()
    }

    pub fn name(&self) -> (r: &SharedName)
        ensures
            r@ == self@.name,
    {
        self.inner.name()
    }

    pub fn into_data_type(self) -> (r: DataTypeInfo)
        ensures
            r@ == TypeModel::Record(self@),
    {
        DataTypeInfo::Record(crate::record_type::RecordTypeInfo::new(self))
    }
}

impl View for SharedRecordInfo {
    type V = RecordModel;

    open spec fn view(&self) -> RecordModel {
        self.model()
    }
}

impl PartialEq for SharedRecordInfo {
    fn eq(&self, other: &SharedRecordInfo) -> (r: bool) {
        self.clone().into_data_type().same(&other.clone().into_data_type())
    }
}

impl vstd::std_specs::cmp::PartialEqSpecImpl for SharedRecordInfo {
    open spec fn obeys_eq_spec() -> bool {
        true
    }

    open spec fn eq_spec(&self, other: &SharedRecordInfo) -> bool {
        self@ == other@
    }
}

impl Eq for SharedRecordInfo {
}

impl Clone for SharedRecordInfo {
    fn clone(&self) -> (r: Self)
        ensures
            r == *self,
    {
        SharedRecordInfo { inner: self.inner.clone() }
    }
}

/// A shared handle to the layout of the record type `RT`.
pub struct TypedRecordInfo<RT> {
    inner: SharedRecordInfo,
    _record: PhantomData<RT>,
}

impl<RT> View for TypedRecordInfo<RT> {
    type V = RecordModel;

    closed spec fn view(&self) -> RecordModel {
        self.inner@
    }
}

impl<RT: RecordType> TypedRecordInfo<RT> {
    pub(crate) fn new(inner: SharedRecordInfo) -> (r: Self)
        ensures
            r@ == inner@,
    {
        TypedRecordInfo { inner, _record: PhantomData }
    }

    pub fn into_untyped(self) -> (r: SharedRecordInfo)
        ensures
            r@ == self@,
    {
        self.inner
    }

    pub fn untyped(&self) -> (r: &SharedRecordInfo)
        ensures
            r@ == self@,
    {
        &self.inner
    }

    pub fn size(&self) -> (r: usize)
        ensures
            r == self@.size,
    {
        self.inner.size()
    }

    pub fn align(&self) -> (r: usize)
        ensures
            r == self@.align,
    {
        self.inner.align()
    }

    /// Writes the fields of `rec` into `bytes_out`, each into its own byte
    /// range; the bytes between and after fields stay as they were.
    pub fn write_value(&self, rec: &RT, bytes_out: &mut [u8]) -> (r: Result<(), CodecError>)
        ensures
            match r {
                Ok(()) => old(bytes_out)@.len() == self@.size && exists|v: ValueModel|
                    value_fits(TypeModel::Record(self@), v) && final(bytes_out)@ == #[trigger] write_into(
                        TypeModel::Record(self@),
                        v,
                        old(bytes_out)@,
                    ),
                Err(CodecError::LengthMismatch) => old(bytes_out)@.len() != self@.size
                    && final(bytes_out)@ == old(bytes_out)@,
                Err(CodecError::ValueMismatch) => old(bytes_out)@.len() == self@.size
                    && final(bytes_out)@ == old(bytes_out)@,
            },
    {
        let value = DataValue::Record(rec.field_values());
        let info = self.inner.clone().into_data_type();
        let ghost before = bytes_out@;
        let r = data_type_write(&value, &info, bytes_out);
        if r.is_ok() {
            assert(bytes_out@ == write_into(TypeModel::Record(self@), value@, before));
        }
        r
    }

    /// Reads the fields of `rec` from `bytes`, each at its offset.
    pub fn read_value(&self, rec: &mut RT, bytes: &[u8]) -> (r: Result<(), CodecError>)
        ensures
            r is Ok <==> bytes@.len() == self@.size,
            r is Err ==> r == Err::<(), CodecError>(CodecError::LengthMismatch),
    {
        let info = self.inner.clone().into_data_type();
        let mut value = DataValue::Record(Vec::new());
        match data_type_read(&mut value, &info, bytes) {
            Ok(()) => {},
            Err(e) => {
                return Err(e);
            },
        }
        if let DataValue::Record(values) = value {
            rec.set_field_values(values);
        }
        Ok(())
    }
}

/// One entry of an ordered field specification: a field's name and type.
#[derive(Debug)]
pub struct RecordFieldSpec {
    pub name: SharedName,
    pub data_type: DataTypeInfo,
}

impl RecordFieldSpec {
    pub open spec fn model(&self) -> (Seq<char>, TypeModel) {
        (self.name@, self.data_type@)
    }

    pub fn new(name: SharedName, data_type: DataTypeInfo) -> (r: Self)
        ensures
            r.name == name,
            r.data_type == data_type,
    {
        RecordFieldSpec { name, data_type }
    }
}

impl Clone for RecordFieldSpec {
    fn clone(&self) -> (r: Self)
        ensures
            r.model() == self.model(),
    {
        RecordFieldSpec { name: self.name.clone(), data_type: self.data_type.clone() }
    }
}

/// The model of an ordered field specification.
pub open spec fn specs_model(specs: Seq<RecordFieldSpec>) -> Seq<(Seq<char>, TypeModel)> {
    specs.map_values(|f: RecordFieldSpec| f.model())
}

/// Why a record cannot be declared.
#[derive(Clone, Copy, PartialEq, Eq, Structural, Debug)]
pub enum RecordError {
    /// Two fields share a name.
    DuplicateField,
    /// The layout does not fit the address space.
    TooLarge,
    /// The record contains itself, directly or through other records.
    Cyclic,
}

/// Lays out fields one at a time.
struct Builder {
    name: SharedName,
    fields: Vec<RecordFieldInfo>,
    cur_size: usize,
    max_align: usize,
    specs: Ghost<Seq<(Seq<char>, TypeModel)>>,
}

impl Builder {
    /// The fields so far are laid out by the layout rule.
    spec fn inv(&self) -> bool {
        let specs = self.specs@;
        let l = layout_of(self.name@, specs);
        &&& self.fields@.len() == specs.len()
        &&& forall|i: int| 0 <= i < specs.len() ==> #[trigger] self.fields@[i].model() == l.fields[i]
        &&& self.cur_size == end_of(field_types(specs))
        &&& self.max_align == max_align(field_types(specs))
        &&& forall|i: int| 0 <= i < specs.len() ==> (#[trigger] specs[i]).1.wf()
    }

    fn new(name: SharedName) -> (r: Builder)
        ensures
            r.inv(),
            r.name@ == name@,
            r.specs@ == Seq::<(Seq<char>, TypeModel)>::empty(),
    {
        Builder { name, fields: Vec::new(), cur_size: 0, max_align: 1, specs: Ghost(Seq::empty()) }
    }

    /// Places a field after the ones placed so far.
    fn add_field(&mut self, name: SharedName, data_type: DataTypeInfo) -> (r: Result<(), RecordError>)
        requires
            old(self).inv(),
            forall|i: int| 0 <= i < old(self).specs@.len() ==> (#[trigger] old(self).specs@[i]).0 != name@,
        ensures
            final(self).name@ == old(self).name@,
            ({
                let specs = old(self).specs@.push((name@, data_type@));
                match r {
                    Ok(()) => final(self).inv() && final(self).specs@ == specs,
                    Err(e) => e == RecordError::TooLarge && !layout_fits(specs),
                }
            }),
    {
        let ghost spec = (name@, data_type@);
        let ghost specs = self.specs@;
        let ghost next = specs.push(spec);
        data_type.note_wf();
        let a = data_type.align();
        let s = data_type.size();
        proof {
            lemma_wf_align(data_type@);
            lemma_layout_push(self.name@, specs, spec);
            lemma_end_of_nonneg(field_types(specs));
            lemma_round_up(end_of(field_types(specs)), a as int);
            lemma_max_align(field_types(next), 0);
        }
        let padded = match self.cur_size.checked_add(a - 1) {
            Some(p) => p,
            None => {
                return Err(RecordError::TooLarge);
            },
        };
        let offset = padded / a * a;
        let end = match offset.checked_add(s) {
            Some(e) => e,
            None => {
                return Err(RecordError::TooLarge);
            },
        };
        self.fields.push(RecordFieldInfo { name, data_type, offset });
        self.cur_size = end;
        if a > self.max_align {
            self.max_align = a;
        }
        self.specs = Ghost(next);
        proof {
            let l = layout_of(self.name@, next);
            assert forall|i: int| 0 <= i < next.len() implies #[trigger] self.fields@[i].model()
                == l.fields[i] by {
                if i < specs.len() {
                    assert(self.fields@[i] == old(self).fields@[i]);
                }
            }
            assert forall|i: int| 0 <= i < next.len() implies (#[trigger] next[i]).1.wf() by {
                if i < specs.len() {
                    assert(next[i] == specs[i]);
                }
            }
        }
        Ok(())
    }

    /// Rounds the size up to the record's alignment and yields the layout.
    fn finish(self) -> (r: Result<RecordInfo, RecordError>)
        requires
            self.inv(),
            !has_duplicate_names(self.specs@),
        ensures
            match r {
                Ok(info) => layout_fits(self.specs@) && info@ == layout_of(self.name@, self.specs@),
                Err(e) => e == RecordError::TooLarge && !layout_fits(self.specs@),
            },
    {
        let ghost specs = self.specs@;
        let ghost types = field_types(specs);
        proof {
            lemma_max_align(types, 0);
            lemma_end_of_nonneg(types);
            lemma_round_up(end_of(types), max_align(types));
        }
        let m = self.max_align;
        let padded = match self.cur_size.checked_add(m - 1) {
            Some(p) => p,
            None => {
                return Err(RecordError::TooLarge);
            },
        };
        let size = padded / m * m;
        proof {
            let l = layout_of(self.name@, specs);
            let model = RecordModel {
                name: self.name@,
                fields: fields_model(self.fields@),
                size: size as nat,
                align: m as nat,
            };
            assert forall|i: int| 0 <= i < l.fields.len() implies model.fields[i] == l.fields[i] by {
                assert(self.fields@[i].model() == l.fields[i]);
            }
            assert(model.fields =~= l.fields);
            assert(model == l);
            assert(model.field_specs() =~= specs);
            assert forall|i: int| 0 <= i < model.fields.len() implies (#[trigger] model.fields[i]).data_type.wf() by {
                assert(specs[i].1.wf());
            }
        }
        let info = RecordInfo { name: self.name, fields: self.fields, size, align: m };
        Ok(info)
    }
}

/// Lays out the named record with the given fields in declared order.
pub fn build_record_info(name: &SharedName, specs: &Vec<RecordFieldSpec>) -> (r: Result<
    RecordInfo,
    RecordError,
>)
    ensures
        ({
            let m = specs_model(specs@);
            match r {
                Ok(info) => !has_duplicate_names(m) && layout_fits(m) && info@ == layout_of(name@, m),
                Err(RecordError::DuplicateField) => has_duplicate_names(m),
                Err(RecordError::TooLarge) => !has_duplicate_names(m) && !layout_fits(m),
                Err(RecordError::Cyclic) => false,
            }
        }),
{
    let ghost m = specs_model(specs@);
    let n = specs.len();
    let mut i: usize = 0;
    while i < n
        invariant
            n == specs@.len(),
            m == specs_model(specs@),
            0 <= i <= n,
            forall|a: int, b: int| 0 <= a < b < i ==> #[trigger] m[a].0 != #[trigger] m[b].0,
        decreases n - i,
    {
        let mut j: usize = 0;
        while j < i
            invariant
                n == specs@.len(),
                m == specs_model(specs@),
                0 <= j <= i < n,
                forall|b: int| 0 <= b < j ==> #[trigger] m[b].0 != m[i as int].0,
            decreases i - j,
        {
            if specs[j].name.same(&specs[i].name) {
                assert(m[j as int].0 == m[i as int].0);
                return Err(RecordError::DuplicateField);
            }
            j = j + 1;
        }
        i = i + 1;
    }
    assert(!has_duplicate_names(m));
    assert(m.take(0) =~= Seq::<(Seq<char>, TypeModel)>::empty());
    let mut builder = Builder::new(name.clone());
    let mut k: usize = 0;
    while k < n
        invariant
            n == specs@.len(),
            m == specs_model(specs@),
            !has_duplicate_names(m),
            0 <= k <= n,
            builder.inv(),
            builder.name@ == name@,
            builder.specs@ == m.take(k as int),
        decreases n - k,
    {
        let spec = &specs[k];
        proof {
            assert forall|i: int| 0 <= i < builder.specs@.len() implies (#[trigger] builder.specs@[i]).0
                != spec.name@ by {
                assert(m[i].0 != m[k as int].0);
            }
        }
        match builder.add_field(spec.name.clone(), spec.data_type.clone()) {
            Ok(()) => {},
            Err(e) => {
                proof {
                    assert(m.take(k as int).push((spec.name@, spec.data_type@)) =~= m.take(k + 1));
                    lemma_fits_prefix(m, k + 1);
                }
                return Err(e);
            },
        }
        assert(m.take(k as int).push((spec.name@, spec.data_type@)) =~= m.take(k + 1));
        k = k + 1;
    }
    assert(m.take(n as int) =~= m);
    builder.finish()
}

} // verus!
