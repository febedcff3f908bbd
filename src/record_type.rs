//! The record variant of a type descriptor.
use vstd::prelude::*;
use crate::data_type::DataValue;
use crate::model::{RecordModel, TypeModel};
use crate::prim_type::PrimTypeInfo;
use crate::record_info::SharedRecordInfo;
use crate::registry::{DeclarationScope, RecordShape};
use crate::shared_name::{intern_name, SharedName};

verus! {

/// The descriptor of a record type: a shared handle to its layout.
#[derive(Debug)]
pub struct RecordTypeInfo {
    record_info: SharedRecordInfo,
}

impl RecordTypeInfo {
    pub closed spec fn model(&self) -> RecordModel
        decreases self,
    {
        self.record_info.model()
    }

    pub fn new(record_info: SharedRecordInfo) -> (r: Self)
        ensures
            r@ == record_info@,
    {
        RecordTypeInfo { record_info }
    }

    pub fn record_info(&self) -> (r: &SharedRecordInfo)
        ensures
            r@ == self@,
    {
        &self.record_info
    }

    pub fn note_wf(&self)
        ensures
            crate::model::TypeModel::Record(self@).wf(),
    {
        self.record_info.note_wf();
    }

    pub fn size(&self) -> (r: usize)
        ensures
            r == self@.size,
    {
        self.record_info.size()
    }

    pub fn align(&self) -> (r: usize)
        ensures
            r == self@.align,
    {
        self.record_info.align()
    }

    pub fn name(&self) -> (r: &SharedName)
        ensures
            r@ == self@.name,
    {
        self.record_info.name()
    }
}

impl View for RecordTypeInfo {
    type V = RecordModel;

    open spec fn view(&self) -> RecordModel {
        self.model()
    }
}

impl Clone for RecordTypeInfo {
    fn clone(&self) -> (r: Self)
        ensures
            r == *self,
    {
        RecordTypeInfo { record_info: self.record_info.clone() }
    }
}

/// Receives a record's fields in declared order.
pub trait RecordTypeFieldSpecifier {
    /// Declares a field of a primitive kind.
    fn prim_field(&mut self, name: &str, info: PrimTypeInfo);

    /// Declares a field holding a record with the given layout.
    fn record_field(&mut self, name: &str, info: SharedRecordInfo);
}

impl RecordTypeFieldSpecifier for RecordShape {
    fn prim_field(&mut self, name: &str, info: PrimTypeInfo)
        ensures
            final(self).model() == (old(self).model().0, old(self).model().1.push(
                (name@, TypeModel::Prim(info)),
            )),
    {
        self.push_field(intern_name(name), info.into_data_type());
    }

    fn record_field(&mut self, name: &str, info: SharedRecordInfo)
        ensures
            final(self).model() == (old(self).model().0, old(self).model().1.push(
                (name@, TypeModel::Record(info@)),
            )),
    {
        self.push_field(intern_name(name), info.into_data_type());
    }
}

/// A Rust type that is a record: it declares its fields in order, and hands
/// out and takes back their values in that order (the accessor pairs).
pub trait RecordType: Sized {
    /// The record's name, which identifies it in the cache and in shader source.
    fn name() -> &'static str;

    /// Declares the fields, in order. A field holding a record takes that
    /// record's layout, which `declare_record_type` gives within `scope`.
    fn specify_fields<FS: RecordTypeFieldSpecifier>(scope: &DeclarationScope, fs: &mut FS);

    /// The values of the fields, in declared order.
    fn field_values(&self) -> Vec<DataValue>;

    /// Stores the values of the fields, given in declared order.
    fn set_field_values(&mut self, values: Vec<DataValue>);
}

} // verus!
