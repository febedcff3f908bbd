use pewter::{
    data_type_read, data_type_write, declare_record_type, intern_name, record_info_for_type,
    CodecError, DataTypeInfo, DataValue, DeclarationScope, PrimType, RecordError, RecordRegistry,
    RecordShape, RecordType, RecordTypeFieldSpecifier, ScalarTypeInfo, SharedRecordInfo,
    VectorTypeInfo,
};

fn u32_type() -> DataTypeInfo {
    u32::prim_info().into_data_type()
}

fn point_shape() -> RecordShape {
    let mut shape = RecordShape::new(intern_name("Point"));
    shape.push_field(intern_name("x"), u32_type());
    shape.push_field(intern_name("y"), u32_type());
    shape
}

fn point_info(registry: &RecordRegistry) -> SharedRecordInfo {
    registry.record_info_for_shape(&point_shape()).unwrap()
}

fn rect_shape(registry: &RecordRegistry) -> RecordShape {
    let mut shape = RecordShape::new(intern_name("Rect"));
    shape.push_field(intern_name("top_left"), point_info(registry).into_data_type());
    shape.push_field(intern_name("size"), <[u32; 2]>::prim_info().into_data_type());
    shape
}

fn point_value(x: u32, y: u32) -> DataValue {
    DataValue::Record(vec![DataValue::Prim(vec![x]), DataValue::Prim(vec![y])])
}

#[test]
fn test_point_record() {
    let registry = RecordRegistry::new();
    let record_info = record_info_for_type::<Point>(&registry).unwrap();
    let pt = Point { x: 99, y: 33 };
    let mut bytes = (0..record_info.size()).map(|_| 0).collect::<Vec<_>>();
    record_info.write_value(&pt, &mut bytes).unwrap();
    let mut pt2 = Point::default();
    record_info.read_value(&mut pt2, &bytes).unwrap();
    assert!(pt == pt2);
    assert!(&bytes == &[99, 0, 0, 0, 33, 0, 0, 0], "Unexpected bytes: {:?}", &bytes);
}

#[test]
fn test_rectangle_record() {
    let registry = RecordRegistry::new();
    let record_info = record_info_for_type::<Rect>(&registry).unwrap();
    let rect = Rect {
        top_left: Point { x: 99, y: 33 },
        size: [101, 99014],
    };
    let mut bytes = (0..record_info.size()).map(|_| 0).collect::<Vec<_>>();
    record_info.write_value(&rect, &mut bytes).unwrap();
    let mut rect2 = Rect::default();
    record_info.read_value(&mut rect2, &bytes).unwrap();
    assert!(rect == rect2);
    assert!(
        &bytes
            == &[
                99,
                0,
                0,
                0,
                33,
                0,
                0,
                0,
                101,
                0,
                0,
                0,
                (99014 & 0xff) as u8,
                ((99014 >> 8) & 0xff) as u8,
                ((99014 >> 16) & 0xff) as u8,
                0,
            ],
        "Unexpected bytes: {:?}",
        &bytes
    );
}

#[derive(Clone, Copy, Debug, Default, PartialEq, Eq)]
struct Point {
    x: u32,
    y: u32,
}

impl RecordType for Point {
    fn name() -> &'static str {
        "Point"
    }

    fn specify_fields<FS: RecordTypeFieldSpecifier>(_scope: &DeclarationScope, fs: &mut FS) {
        fs.prim_field("x", u32::prim_info());
        fs.prim_field("y", u32::prim_info());
    }

    fn field_values(&self) -> Vec<DataValue> {
        vec![self.x.to_data_value(), self.y.to_data_value()]
    }

    fn set_field_values(&mut self, values: Vec<DataValue>) {
        assert!(self.x.set_from_data_value(&values[0]));
        assert!(self.y.set_from_data_value(&values[1]));
    }
}

#[derive(Clone, Copy, Debug, Default, PartialEq, Eq)]
struct Rect {
    top_left: Point,
    size: [u32; 2],
}

impl RecordType for Rect {
    fn name() -> &'static str {
        "Rect"
    }

    fn specify_fields<FS: RecordTypeFieldSpecifier>(scope: &DeclarationScope, fs: &mut FS) {
        let top_left = declare_record_type::<Point>(scope).unwrap();
        fs.record_field("top_left", top_left.into_untyped());
        fs.prim_field("size", <[u32; 2]>::prim_info());
    }

    fn field_values(&self) -> Vec<DataValue> {
        vec![DataValue::Record(self.top_left.field_values()), self.size.to_data_value()]
    }

    fn set_field_values(&mut self, values: Vec<DataValue>) {
        let mut values = values.into_iter();
        match values.next() {
            Some(DataValue::Record(fields)) => self.top_left.set_field_values(fields),
            other => panic!("unexpected field value {:?}", other),
        }
        assert!(self.size.set_from_data_value(&values.next().unwrap()));
    }
}

#[test]
fn point_value_codec() {
    let registry = RecordRegistry::new();
    let record_info = point_info(&registry);
    let data_type = record_info.clone().into_data_type();
    let pt = point_value(99, 33);
    let mut bytes = vec![0_u8; record_info.size()];
    data_type_write(&pt, &data_type, &mut bytes).unwrap();
    let mut pt2 = DataValue::Record(Vec::new());
    data_type_read(&mut pt2, &data_type, &bytes).unwrap();
    assert_eq!(pt, pt2);
    assert_eq!(bytes, vec![99, 0, 0, 0, 33, 0, 0, 0]);
}

#[test]
fn typed_and_shape_requests_share_the_cache() {
    let registry = RecordRegistry::new();
    let typed = record_info_for_type::<Rect>(&registry).unwrap();
    assert_eq!(typed.size(), 16);
    assert_eq!(typed.align(), 8);
    assert_eq!(typed.untyped().name().as_str(), "Rect");
    assert_eq!(registry.cached_count(&point_shape()), 1);
    let again = record_info_for_type::<Rect>(&registry).unwrap();
    assert!(again.into_untyped().into_data_type().same(&typed.into_untyped().into_data_type()));
}

#[test]
fn write_value_rejects_wrong_length() {
    let registry = RecordRegistry::new();
    let record_info = record_info_for_type::<Point>(&registry).unwrap();
    let mut bytes = vec![0_u8; 9];
    assert_eq!(record_info.write_value(&Point { x: 1, y: 2 }, &mut bytes), Err(CodecError::LengthMismatch));
    let mut pt = Point { x: 5, y: 6 };
    assert_eq!(record_info.read_value(&mut pt, &bytes), Err(CodecError::LengthMismatch));
    assert_eq!(pt, Point { x: 5, y: 6 });
}

#[test]
fn point_layout() {
    let registry = RecordRegistry::new();
    let info = point_info(&registry);
    assert_eq!(info.size(), 8);
    assert_eq!(info.align(), 4);
    assert_eq!(info.name().as_str(), "Point");
    let r = info.info();
    assert_eq!(r.field_count(), 2);
    assert_eq!(r.field(0).name().as_str(), "x");
    assert_eq!(r.field(0).offset(), 0);
    assert_eq!(r.field(1).name().as_str(), "y");
    assert_eq!(r.field(1).offset(), 4);
    assert_eq!(r.field_end(0), 4);
    assert_eq!(r.field_end(1), 8);
}

#[test]
fn nested_layout() {
    let registry = RecordRegistry::new();
    let info = registry.record_info_for_shape(&rect_shape(&registry)).unwrap();
    assert_eq!(info.size(), 16);
    // `size` is a two-lane vector, aligned to 8, and a record takes the
    // largest alignment of its fields.
    assert_eq!(info.align(), 8);
    let r = info.info();
    assert_eq!(r.field(0).offset(), 0);
    assert_eq!(r.field(0).data_type().size(), 8);
    assert_eq!(r.field(0).data_type().name(), "Point");
    assert_eq!(r.field(1).offset(), 8);
    assert_eq!(r.field(1).data_type().size(), 8);
    assert_eq!(r.field(1).data_type().name(), "vec2<u32>");
}

#[test]
fn vec3_padding_layout() {
    let registry = RecordRegistry::new();
    let mut shape = RecordShape::new(intern_name("Padded"));
    shape.push_field(intern_name("a"), VectorTypeInfo::F32x3.into_prim().into_data_type());
    shape.push_field(intern_name("b"), u32_type());
    let info = registry.record_info_for_shape(&shape).unwrap();
    let r = info.info();
    assert_eq!(r.field(0).offset(), 0);
    assert_eq!(r.field(0).data_type().size(), 12);
    assert_eq!(r.field(0).data_type().align(), 16);
    // `b` is aligned to 4, so it follows `a` directly; the record's size is
    // then rounded up to its alignment of 16.
    assert_eq!(r.field(1).offset(), 12);
    assert_eq!(info.align(), 16);
    assert_eq!(info.size(), 16);
}

#[test]
fn u32_after_vec3_rounds_up() {
    let registry = RecordRegistry::new();
    let mut shape = RecordShape::new(intern_name("Mixed"));
    shape.push_field(intern_name("a"), u32_type());
    shape.push_field(intern_name("b"), VectorTypeInfo::U32x3.into_prim().into_data_type());
    shape.push_field(intern_name("c"), VectorTypeInfo::I32x2.into_prim().into_data_type());
    let info = registry.record_info_for_shape(&shape).unwrap();
    let r = info.info();
    assert_eq!(r.field(0).offset(), 0);
    assert_eq!(r.field(1).offset(), 16);
    assert_eq!(r.field(2).offset(), 32);
    assert_eq!(info.align(), 16);
    assert_eq!(info.size(), 48);
}

#[test]
fn empty_record_layout() {
    let registry = RecordRegistry::new();
    let shape = RecordShape::new(intern_name("Empty"));
    let info = registry.record_info_for_shape(&shape).unwrap();
    assert_eq!(info.size(), 0);
    assert_eq!(info.align(), 1);
    assert_eq!(info.info().field_count(), 0);
}

#[test]
fn duplicate_field_is_rejected() {
    let registry = RecordRegistry::new();
    let mut shape = RecordShape::new(intern_name("Twice"));
    shape.push_field(intern_name("x"), u32_type());
    shape.push_field(intern_name("x"), ScalarTypeInfo::I32.into_prim().into_data_type());
    assert_eq!(registry.record_info_for_shape(&shape).unwrap_err(), RecordError::DuplicateField);
    assert_eq!(registry.cached_count(&shape), 0);
}

#[test]
fn repeated_requests_give_identical_layouts() {
    let registry = RecordRegistry::new();
    let first = registry.record_info_for_shape(&rect_shape(&registry)).unwrap();
    for _ in 0..10 {
        let again = registry.record_info_for_shape(&rect_shape(&registry)).unwrap();
        assert_eq!(format!("{:?}", again), format!("{:?}", first));
        assert_eq!(again, first);
        assert!(again.clone().into_data_type() == first.clone().into_data_type());
    }
    assert_eq!(registry.cached_count(&rect_shape(&registry)), 1);
    assert_eq!(registry.cached_count(&point_shape()), 1);
}

#[test]
fn different_shapes_are_cached_apart() {
    let registry = RecordRegistry::new();
    let a = point_info(&registry);
    let mut other = RecordShape::new(intern_name("Point"));
    other.push_field(intern_name("x"), u32_type());
    let b = registry.record_info_for_shape(&other).unwrap();
    assert_eq!(a.size(), 8);
    assert_eq!(b.size(), 4);
    assert!(a != b);
    assert_eq!(registry.cached_count(&point_shape()), 1);
    assert_eq!(registry.cached_count(&other), 1);
}

#[test]
fn codec_rejects_wrong_length() {
    let registry = RecordRegistry::new();
    let data_type = point_info(&registry).into_data_type();
    let mut short = vec![7_u8; 7];
    assert_eq!(data_type_write(&point_value(1, 2), &data_type, &mut short), Err(CodecError::LengthMismatch));
    assert_eq!(short, vec![7_u8; 7]);
    let mut out = point_value(5, 6);
    assert_eq!(data_type_read(&mut out, &data_type, &short), Err(CodecError::LengthMismatch));
    assert_eq!(out, point_value(5, 6));
}

#[test]
fn codec_rejects_wrong_shape() {
    let registry = RecordRegistry::new();
    let data_type = point_info(&registry).into_data_type();
    let mut bytes = vec![0_u8; 8];
    let wrong = DataValue::Record(vec![DataValue::Prim(vec![1])]);
    assert_eq!(data_type_write(&wrong, &data_type, &mut bytes), Err(CodecError::ValueMismatch));
    let lanes = DataValue::Prim(vec![1, 2]);
    assert_eq!(data_type_write(&lanes, &data_type, &mut bytes), Err(CodecError::ValueMismatch));
    assert_eq!(bytes, vec![0_u8; 8]);
}

#[test]
fn padding_is_left_untouched() {
    let registry = RecordRegistry::new();
    let mut shape = RecordShape::new(intern_name("Padded"));
    shape.push_field(intern_name("a"), u32_type());
    shape.push_field(intern_name("b"), VectorTypeInfo::U32x2.into_prim().into_data_type());
    let data_type = registry.record_info_for_shape(&shape).unwrap().into_data_type();
    assert_eq!(data_type.size(), 16);
    let mut bytes = vec![0xaa_u8; 16];
    let v = DataValue::Record(vec![DataValue::Prim(vec![1]), DataValue::Prim(vec![2, 3])]);
    data_type_write(&v, &data_type, &mut bytes).unwrap();
    assert_eq!(bytes, vec![1, 0, 0, 0, 0xaa, 0xaa, 0xaa, 0xaa, 2, 0, 0, 0, 3, 0, 0, 0]);
    let mut back = DataValue::Prim(Vec::new());
    data_type_read(&mut back, &data_type, &bytes).unwrap();
    assert_eq!(back, v);
}

#[test]
fn nested_padding_is_left_untouched() {
    let registry = RecordRegistry::new();
    let mut inner = RecordShape::new(intern_name("Inner"));
    inner.push_field(intern_name("a"), VectorTypeInfo::F32x3.into_prim().into_data_type());
    let inner_info = registry.record_info_for_shape(&inner).unwrap();
    assert_eq!(inner_info.size(), 16);
    let mut outer = RecordShape::new(intern_name("Outer"));
    outer.push_field(intern_name("x"), u32_type());
    outer.push_field(intern_name("inner"), inner_info.into_data_type());
    let data_type = registry.record_info_for_shape(&outer).unwrap().into_data_type();
    assert_eq!(data_type.size(), 32);
    let mut bytes = vec![0x55_u8; 32];
    let v = DataValue::Record(vec![
        DataValue::Prim(vec![9]),
        DataValue::Record(vec![DataValue::Prim(vec![1, 2, 3])]),
    ]);
    data_type_write(&v, &data_type, &mut bytes).unwrap();
    let mut expected = vec![9_u8, 0, 0, 0];
    expected.extend_from_slice(&[0x55; 12]);
    expected.extend_from_slice(&[1, 0, 0, 0, 2, 0, 0, 0, 3, 0, 0, 0]);
    expected.extend_from_slice(&[0x55; 4]);
    assert_eq!(bytes, expected);
    let mut back = DataValue::Prim(Vec::new());
    data_type_read(&mut back, &data_type, &bytes).unwrap();
    assert_eq!(back, v);
}

#[test]
fn primitive_codec_through_descriptor() {
    let data_type = VectorTypeInfo::I32x3.into_prim().into_data_type();
    let v = DataValue::Prim(vec![(-1_i32) as u32, 2, 0x0102_0304]);
    let mut bytes = vec![0_u8; 12];
    data_type_write(&v, &data_type, &mut bytes).unwrap();
    assert_eq!(bytes, vec![0xff, 0xff, 0xff, 0xff, 2, 0, 0, 0, 4, 3, 2, 1]);
    let mut back = DataValue::Prim(Vec::new());
    data_type_read(&mut back, &data_type, &bytes).unwrap();
    assert_eq!(back, v);
}

#[derive(Clone, Copy, Debug, Default, PartialEq, Eq)]
struct Node {
    value: u32,
}

impl RecordType for Node {
    fn name() -> &'static str {
        "Node"
    }

    fn specify_fields<FS: RecordTypeFieldSpecifier>(scope: &DeclarationScope, fs: &mut FS) {
        match declare_record_type::<Node>(scope) {
            Ok(_) => panic!("a record cannot contain itself"),
            Err(e) => assert_eq!(e, RecordError::Cyclic),
        }
        fs.prim_field("value", u32::prim_info());
    }

    fn field_values(&self) -> Vec<DataValue> {
        vec![self.value.to_data_value()]
    }

    fn set_field_values(&mut self, values: Vec<DataValue>) {
        assert!(self.value.set_from_data_value(&values[0]));
    }
}

#[test]
fn self_containing_record_is_rejected() {
    let registry = RecordRegistry::new();
    let info = record_info_for_type::<Node>(&registry).unwrap();
    assert_eq!(info.size(), 4);
    let scope = DeclarationScope::new(&registry);
    assert!(!scope.is_pending(&intern_name("Node")));
}
