//! Runtime reflection of GPU data types: byte layouts of primitive and record
//! shapes, and transcoding between typed values and raw byte buffers.
pub mod data_type;
pub mod encoding;
pub mod lanes;
pub mod model;
pub mod prim_type;
pub mod record_info;
pub mod record_type;
pub mod registry;
pub mod scalar_type;
pub mod shared_name;
pub mod specialize;
pub mod vector_type;

pub use data_type::{data_type_read, data_type_write, CodecError, DataTypeInfo, DataValue};
pub use prim_type::{PrimType, PrimTypeInfo};
pub use record_info::{
    build_record_info, RecordError, RecordFieldInfo, RecordFieldSpec, RecordInfo, SharedRecordInfo,
    TypedRecordInfo,
};
pub use record_type::{RecordType, RecordTypeFieldSpecifier, RecordTypeInfo};
pub use registry::{
    declare_record_named, declare_record_type, record_info_for_type, DeclarationScope, RecordRegistry, RecordShape,
};
pub use scalar_type::{Float32, ScalarType, ScalarTypeInfo};
pub use shared_name::{intern_name, SharedName};
pub use specialize::{
    data_type_info_for, read_data, write_data, DataType, DataTypeSpecialize, DataTypeSpecializeMut,
    DataTypeSpecializeRef,
};
pub use vector_type::{VectorType, VectorTypeInfo};
