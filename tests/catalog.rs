use pewter::{intern_name, PrimTypeInfo, ScalarTypeInfo, VectorTypeInfo};

#[test]
fn scalar_catalog() {
    for (kind, name) in [
        (ScalarTypeInfo::U32, "u32"),
        (ScalarTypeInfo::I32, "i32"),
        (ScalarTypeInfo::F32, "f32"),
    ] {
        assert_eq!(kind.size(), 4);
        assert_eq!(kind.align(), 4);
        assert_eq!(kind.name(), name);
        assert_eq!(kind.into_prim(), PrimTypeInfo::Scalar(kind));
        assert_eq!(kind.into_prim().into_data_type().size(), 4);
    }
}

#[test]
fn vector_catalog() {
    let all = [
        (VectorTypeInfo::U32x2, 8, 8, "vec2<u32>"),
        (VectorTypeInfo::U32x3, 12, 16, "vec3<u32>"),
        (VectorTypeInfo::U32x4, 16, 16, "vec4<u32>"),
        (VectorTypeInfo::I32x2, 8, 8, "vec2<i32>"),
        (VectorTypeInfo::I32x3, 12, 16, "vec3<i32>"),
        (VectorTypeInfo::I32x4, 16, 16, "vec4<i32>"),
        (VectorTypeInfo::F32x2, 8, 8, "vec2<f32>"),
        (VectorTypeInfo::F32x3, 12, 16, "vec3<f32>"),
        (VectorTypeInfo::F32x4, 16, 16, "vec4<f32>"),
    ];
    for (kind, size, align, name) in all {
        assert_eq!(kind.size(), size);
        assert_eq!(kind.align(), align);
        assert_eq!(kind.name(), name);
        let prim = kind.into_prim();
        assert_eq!(prim.size(), size);
        assert_eq!(prim.align(), align);
        assert_eq!(prim.name(), name);
        let dt = prim.into_data_type();
        assert_eq!(dt.size(), size);
        assert_eq!(dt.align(), align);
        assert_eq!(dt.name(), name);
    }
}

#[test]
fn names_compare_by_text() {
    let a = intern_name("field");
    let b = intern_name("field");
    let c = intern_name("other");
    assert!(a == b);
    assert!(a.same(&b));
    assert!(a != c);
    assert!(!a.same(&c));
    assert_eq!(a.as_str(), "field");
}
