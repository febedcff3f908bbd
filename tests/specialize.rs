use pewter::{
    data_type_info_for, read_data, record_info_for_type, write_data, CodecError, DataType,
    DataTypeSpecialize, DataTypeSpecializeMut, DataTypeSpecializeRef, DataValue,
    DeclarationScope, Float32, PrimType, RecordRegistry, RecordType, RecordTypeFieldSpecifier,
    VectorTypeInfo,
};

#[derive(Clone, Copy, Debug, Default, PartialEq)]
struct Pair {
    a: u32,
    b: [i32; 2],
}

impl RecordType for Pair {
    fn name() -> &'static str {
        "Pair"
    }

    fn specify_fields<FS: RecordTypeFieldSpecifier>(_scope: &DeclarationScope, fs: &mut FS) {
        fs.prim_field("a", u32::prim_info());
        fs.prim_field("b", <[i32; 2]>::prim_info());
    }

    fn field_values(&self) -> Vec<DataValue> {
        vec![self.a.to_data_value(), self.b.to_data_value()]
    }

    fn set_field_values(&mut self, values: Vec<DataValue>) {
        assert!(self.a.set_from_data_value(&values[0]));
        assert!(self.b.set_from_data_value(&values[1]));
    }
}

impl DataType for Pair {
    fn specialize<S: DataTypeSpecialize>(spez: S) -> S::Result {
        spez.record::<Self>()
    }

    fn specialize_ref<S: DataTypeSpecializeRef>(&self, spez: S) -> S::Result {
        spez.record(self)
    }

    fn specialize_mut<S: DataTypeSpecializeMut>(&mut self, spez: S) -> S::Result {
        spez.record(self)
    }
}

#[test]
fn descriptor_of_primitive_types() {
    let registry = RecordRegistry::new();
    let info = data_type_info_for::<[Float32; 3]>(&registry).unwrap();
    assert!(info == VectorTypeInfo::F32x3.into_prim().into_data_type());
    assert_eq!(info.size(), 12);
    assert_eq!(info.align(), 16);
    assert_eq!(info.name(), "vec3<f32>");
    assert_eq!(data_type_info_for::<i32>(&registry).unwrap().name(), "i32");
}

#[test]
fn descriptor_of_record_type() {
    let registry = RecordRegistry::new();
    let info = data_type_info_for::<Pair>(&registry).unwrap();
    assert_eq!(info.name(), "Pair");
    assert_eq!(info.size(), 16);
    assert_eq!(info.align(), 8);
    let typed = record_info_for_type::<Pair>(&registry).unwrap();
    assert!(info == typed.into_untyped().into_data_type());
}

#[test]
fn write_and_read_through_dispatch() {
    let registry = RecordRegistry::new();
    let mut bytes = vec![0_u8; 4];
    write_data(&0x0a0b0c0d_u32, &registry, &mut bytes).unwrap();
    assert_eq!(bytes, vec![0x0d, 0x0c, 0x0b, 0x0a]);
    let mut back = 0_u32;
    read_data(&mut back, &registry, &bytes).unwrap();
    assert_eq!(back, 0x0a0b0c0d);

    let pair = Pair { a: 7, b: [-1, 2] };
    let mut bytes = vec![0xee_u8; 16];
    write_data(&pair, &registry, &mut bytes).unwrap();
    assert_eq!(bytes, vec![7, 0, 0, 0, 0xee, 0xee, 0xee, 0xee, 0xff, 0xff, 0xff, 0xff, 2, 0, 0, 0]);
    let mut pair2 = Pair::default();
    read_data(&mut pair2, &registry, &bytes).unwrap();
    assert_eq!(pair2, pair);
}

#[test]
fn dispatch_checks_lengths() {
    let registry = RecordRegistry::new();
    let mut short = vec![0_u8; 3];
    assert_eq!(write_data(&1_u32, &registry, &mut short), Err(CodecError::LengthMismatch));
    let mut v = 5_u32;
    assert_eq!(read_data(&mut v, &registry, &short), Err(CodecError::LengthMismatch));
    assert_eq!(v, 5);
    let mut wrong = vec![0_u8; 8];
    assert_eq!(write_data(&Pair::default(), &registry, &mut wrong), Err(CodecError::LengthMismatch));
}
