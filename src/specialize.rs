//! Dispatch on a Rust type's shape: every type with a fixed shape sends a
//! request to exactly one of two handlers, the primitive one or the record
//! one, and always to the same one.
use vstd::prelude::*;
use crate::data_type::{CodecError, DataTypeInfo};
use crate::lanes::{decode_lanes, encode_lanes};
use crate::model::{has_duplicate_names, layout_fits, layout_of, TypeModel};
use crate::prim_type::PrimType;
use crate::record_info::RecordError;
use crate::record_type::RecordType;
use crate::registry::{record_info_for_type, RecordRegistry};

verus! {

/// Handlers for a request about a type, with no value at hand.
pub trait DataTypeSpecialize {
    type Result;

    fn prim<PT: PrimType>(self) -> Self::Result;

    fn record<RT: RecordType>(self) -> Self::Result;
}

/// Handlers for a request that reads a value.
pub trait DataTypeSpecializeRef {
    type Result;

    fn prim<PT: PrimType>(self, prim: &PT) -> Self::Result;

    fn record<RT: RecordType>(self, rec: &RT) -> Self::Result;
}

/// Handlers for a request that writes into a value.
pub trait DataTypeSpecializeMut {
    type Result;

    fn prim<PT: PrimType>(self, prim: &mut PT) -> Self::Result;

    fn record<RT: RecordType>(self, rec: &mut RT) -> Self::Result;
}

/// A Rust type with a fixed shape. A primitive type dispatches to the
/// primitive handler; a record type implements this trait by dispatching to
/// the record handler with itself.
pub trait DataType: Sized {
    fn specialize<S: DataTypeSpecialize>(spez: S) -> S::Result;

    fn specialize_ref<S: DataTypeSpecializeRef>(&self, spez: S) -> S::Result;

    fn specialize_mut<S: DataTypeSpecializeMut>(&mut self, spez: S) -> S::Result;
}

impl<T: PrimType> DataType for T {
    fn specialize<S: DataTypeSpecialize>(spez: S) -> S::Result {
        spez.prim::<T>()
    }

    fn specialize_ref<S: DataTypeSpecializeRef>(&self, spez: S) -> S::Result {
        spez.prim::<T>(self)
    }

    fn specialize_mut<S: DataTypeSpecializeMut>(&mut self, spez: S) -> S::Result {
        spez.prim::<T>(self)
    }
}

/// Obtains a type's descriptor.
struct InfoSpecializer<'a> {
    registry: &'a RecordRegistry,
}

impl<'a> DataTypeSpecialize for InfoSpecializer<'a> {
    type Result = Result<DataTypeInfo, RecordError>;

    fn prim<PT: PrimType>(self) -> (r: Result<DataTypeInfo, RecordError>)
        ensures
            r matches Ok(info) && info@ == crate::model::TypeModel::Prim(PT::spec_prim_info()),
    {
        Ok(PT::prim_info().into_data_type())
    }

    fn record<RT: RecordType>(self) -> (r: Result<DataTypeInfo, RecordError>)
        ensures
            !(r matches Err(RecordError::Cyclic)),
            r matches Ok(info) ==> exists|specs: Seq<(Seq<char>, TypeModel)>|
                !has_duplicate_names(specs) && layout_fits(specs) && info@ == TypeModel::Record(
                    #[trigger] layout_of(info@.name(), specs),
                ),
    {
        match record_info_for_type::<RT>(self.registry) {
            Ok(info) => {
                let ghost tm = info@;
                let d = info.into_untyped().into_data_type();
                proof {
                    let specs = choose|specs: Seq<(Seq<char>, TypeModel)>|
                        !has_duplicate_names(specs) && layout_fits(specs) && tm == #[trigger] layout_of(tm.name, specs);
                    assert(d@.name() == tm.name);
                    assert(layout_of(d@.name(), specs) == tm);
                }
                Ok(d)
            },
            Err(e) => Err(e),
        }
    }
}

/// The descriptor of `DT`; a record type's layout comes from `registry`.
pub fn data_type_info_for<DT: DataType>(registry: &RecordRegistry) -> (r: Result<DataTypeInfo, RecordError>)
    ensures
        r matches Ok(info) ==> info@.wf(),
{
    let r = DT::specialize(InfoSpecializer { registry });
    if let Ok(info) = &r {
        info.note_wf();
    }
    r
}

/// Writes a value into a byte buffer.
struct WriteSpecializer<'a, 'b> {
    registry: &'a RecordRegistry,
    bytes_out: &'b mut [u8],
}

impl<'a, 'b> DataTypeSpecializeRef for WriteSpecializer<'a, 'b> {
    type Result = Result<(), CodecError>;

    fn prim<PT: PrimType>(self, prim: &PT) -> (r: Result<(), CodecError>)
        ensures
            r is Err ==> r == Err::<(), CodecError>(CodecError::LengthMismatch),
    {
        write_prim(prim, self.bytes_out)
    }

    fn record<RT: RecordType>(self, rec: &RT) -> Result<(), CodecError> {
        match record_info_for_type::<RT>(self.registry) {
            Ok(info) => info.write_value(rec, self.bytes_out),
            Err(_) => Err(CodecError::ValueMismatch),
        }
    }
}

/// Writes a primitive value into `bytes_out` when its length is the kind's size.
fn write_prim<PT: PrimType>(prim: &PT, bytes_out: &mut [u8]) -> (r: Result<(), CodecError>)
    ensures
        r is Ok <==> old(bytes_out)@.len() == PT::spec_prim_info().spec_size(),
        r is Ok ==> final(bytes_out)@ == encode_lanes(prim.lanes()),
        r is Err ==> r == Err::<(), CodecError>(CodecError::LengthMismatch) && final(bytes_out)@
            == old(bytes_out)@,
{
    if bytes_out.len() != PT::prim_info().size() {
        return Err(CodecError::LengthMismatch);
    }
    prim.write_bytes(bytes_out);
    Ok(())
}

/// Writes `dt` into `bytes_out`, whose length must be the size of `DT`.
pub fn write_data<DT: DataType>(dt: &DT, registry: &RecordRegistry, bytes_out: &mut [u8]) -> Result<(), CodecError> {
    dt.specialize_ref(WriteSpecializer { registry, bytes_out })
}

/// Reads a value from a byte buffer.
struct ReadSpecializer<'a, 'b> {
    registry: &'a RecordRegistry,
    bytes: &'b [u8],
}

impl<'a, 'b> DataTypeSpecializeMut for ReadSpecializer<'a, 'b> {
    type Result = Result<(), CodecError>;

    fn prim<PT: PrimType>(self, prim: &mut PT) -> (r: Result<(), CodecError>)
        ensures
            r is Err ==> r == Err::<(), CodecError>(CodecError::LengthMismatch) && *final(prim)
                == *old(prim),
    {
        read_prim(prim, self.bytes)
    }

    fn record<RT: RecordType>(self, rec: &mut RT) -> Result<(), CodecError> {
        match record_info_for_type::<RT>(self.registry) {
            Ok(info) => info.read_value(rec, self.bytes),
            Err(_) => Err(CodecError::ValueMismatch),
        }
    }
}

/// Reads a primitive value from `bytes` when its length is the kind's size.
fn read_prim<PT: PrimType>(prim: &mut PT, bytes: &[u8]) -> (r: Result<(), CodecError>)
    ensures
        r is Ok <==> bytes@.len() == PT::spec_prim_info().spec_size(),
        r is Ok ==> final(prim).lanes() == decode_lanes(bytes@),
        r is Err ==> r == Err::<(), CodecError>(CodecError::LengthMismatch) && *final(prim)
            == *old(prim),
{
    if bytes.len() != PT::prim_info().size() {
        return Err(CodecError::LengthMismatch);
    }
    prim.read_bytes(bytes);
    Ok(())
}

/// Reads `dt_out` from `bytes`, whose length must be the size of `DT`.
pub fn read_data<DT: DataType>(dt_out: &mut DT, registry: &RecordRegistry, bytes: &[u8]) -> Result<(), CodecError> {
    dt_out.specialize_mut(ReadSpecializer { registry, bytes })
}

} // verus!
