//! Vector kinds: two, three or four lanes of one scalar kind.
use vstd::prelude::*;
use crate::lanes::{
    decode_lanes, lemma_signed_bits, lemma_signed_bits_injective, read_lanes,
    write_lanes,
};
use crate::prim_type::{PrimType, PrimTypeInfo};
use crate::scalar_type::{Float32, ScalarType, ScalarTypeInfo};

verus! {

/// A vector kind. Its size is four bytes per lane; its alignment is 8 for two
/// lanes and 16 for three or four (a three-lane vector is aligned like a
/// four-lane one but keeps its 12-byte size).
#[derive(Clone, Copy, PartialEq, Eq, Structural, Hash, Debug)]
pub enum VectorTypeInfo {
    U32x2,
    U32x3,
    U32x4,
    I32x2,
    I32x3,
    I32x4,
    F32x2,
    F32x3,
    F32x4,
}

impl VectorTypeInfo {
    pub open spec fn scalar(&self) -> ScalarTypeInfo {
        match *self {
            VectorTypeInfo::U32x2 | VectorTypeInfo::U32x3 | VectorTypeInfo::U32x4 => ScalarTypeInfo::U32,
            VectorTypeInfo::I32x2 | VectorTypeInfo::I32x3 | VectorTypeInfo::I32x4 => ScalarTypeInfo::I32,
            VectorTypeInfo::F32x2 | VectorTypeInfo::F32x3 | VectorTypeInfo::F32x4 => ScalarTypeInfo::F32,
        }
    }

    pub open spec fn lane_count(&self) -> nat {
        match *self {
            VectorTypeInfo::U32x2 | VectorTypeInfo::I32x2 | VectorTypeInfo::F32x2 => 2,
            VectorTypeInfo::U32x3 | VectorTypeInfo::I32x3 | VectorTypeInfo::F32x3 => 3,
            VectorTypeInfo::U32x4 | VectorTypeInfo::I32x4 | VectorTypeInfo::F32x4 => 4,
        }
    }

    pub open spec fn spec_size(&self) -> nat {
        4 * self.lane_count()
    }

    pub open spec fn spec_align(&self) -> nat {
        if self.lane_count() == 2 {
            8
        } else {
            16
        }
    }

    pub open spec fn spec_name(&self) -> Seq<char> {
        match *self {
            VectorTypeInfo::U32x2 => "vec2<u32>"@,
            VectorTypeInfo::U32x3 => "vec3<u32>"@,
            VectorTypeInfo::U32x4 => "vec4<u32>"@,
            VectorTypeInfo::I32x2 => "vec2<i32>"@,
            VectorTypeInfo::I32x3 => "vec3<i32>"@,
            VectorTypeInfo::I32x4 => "vec4<i32>"@,
            VectorTypeInfo::F32x2 => "vec2<f32>"@,
            VectorTypeInfo::F32x3 => "vec3<f32>"@,
            VectorTypeInfo::F32x4 => "vec4<f32>"@,
        }
    }

    pub fn into_prim(self) -> (r: PrimTypeInfo)
        ensures
            r == PrimTypeInfo::Vector(self),
    {
        PrimTypeInfo::Vector(self)
    }

    pub fn size(&self) -> (r: usize)
        ensures
            r == self.spec_size(),
    {
        match *self {
            VectorTypeInfo::U32x2 | VectorTypeInfo::I32x2 | VectorTypeInfo::F32x2 => 8,
            VectorTypeInfo::U32x3 | VectorTypeInfo::I32x3 | VectorTypeInfo::F32x3 => 12,
            VectorTypeInfo::U32x4 | VectorTypeInfo::I32x4 | VectorTypeInfo::F32x4 => 16,
        }
    }

    pub fn align(&self) -> (r: usize)
        ensures
            r == self.spec_align(),
    {
        match *self {
            VectorTypeInfo::U32x2 | VectorTypeInfo::I32x2 | VectorTypeInfo::F32x2 => 8,
            VectorTypeInfo::U32x3 | VectorTypeInfo::I32x3 | VectorTypeInfo::F32x3 => 16,
            VectorTypeInfo::U32x4 | VectorTypeInfo::I32x4 | VectorTypeInfo::F32x4 => 16,
        }
    }

    pub fn name(&self) -> (r: &'static str)
        ensures
            r@ == self.spec_name(),
    {
        match *self {
            VectorTypeInfo::U32x2 => "vec2<u32>",
            VectorTypeInfo::U32x3 => "vec3<u32>",
            VectorTypeInfo::U32x4 => "vec4<u32>",
            VectorTypeInfo::I32x2 => "vec2<i32>",
            VectorTypeInfo::I32x3 => "vec3<i32>",
            VectorTypeInfo::I32x4 => "vec4<i32>",
            VectorTypeInfo::F32x2 => "vec2<f32>",
            VectorTypeInfo::F32x3 => "vec3<f32>",
            VectorTypeInfo::F32x4 => "vec4<f32>",
        }
    }
}

/// A Rust type that holds one vector.
pub trait VectorType: PrimType {
    type Field: ScalarType;

    fn vector_info() -> (r: VectorTypeInfo)
        ensures
            Self::spec_prim_info() == PrimTypeInfo::Vector(r),
    ;
}

impl PrimType for [u32; 2] {
    open spec fn spec_prim_info() -> PrimTypeInfo {
        PrimTypeInfo::Vector(VectorTypeInfo::U32x2)
    }

    open spec fn lanes(&self) -> Seq<u32> {
        self@
    }

    fn prim_info() -> (r: PrimTypeInfo) {
        PrimTypeInfo::Vector(VectorTypeInfo::U32x2)
    }

    fn write_bytes(&self, bytes_out: &mut [u8]) {
        let lanes: [u32; 2] = [self[0], self[1]];
        assert(lanes@ =~= self.lanes());
        write_lanes(lanes.as_slice(), bytes_out);
    }

    fn read_bytes(&mut self, bytes_in: &[u8]) {
        let v = read_lanes(bytes_in);
        *self = [v[0], v[1]];
        assert(self.lanes() =~= decode_lanes(bytes_in@));
    }

    proof fn lemma_lane_count(v: Self) {
        assert(v@.len() == 2);
        assert(Self::spec_prim_info().lane_count() == 2);
    }

    proof fn lemma_lanes_injective(a: Self, b: Self) {
        assert(a.lanes()[0] == b.lanes()[0]);
        assert(a.lanes()[1] == b.lanes()[1]);
        assert(a@.len() == b@.len());
        assert(a@ =~= b@);
    }
}

impl VectorType for [u32; 2] {
    type Field = u32;

    fn vector_info() -> (r: VectorTypeInfo) {
        VectorTypeInfo::U32x2
    }
}

impl PrimType for [u32; 3] {
    open spec fn spec_prim_info() -> PrimTypeInfo {
        PrimTypeInfo::Vector(VectorTypeInfo::U32x3)
    }

    open spec fn lanes(&self) -> Seq<u32> {
        self@
    }

    fn prim_info() -> (r: PrimTypeInfo) {
        PrimTypeInfo::Vector(VectorTypeInfo::U32x3)
    }

    fn write_bytes(&self, bytes_out: &mut [u8]) {
        let lanes: [u32; 3] = [self[0], self[1], self[2]];
        assert(lanes@ =~= self.lanes());
        write_lanes(lanes.as_slice(), bytes_out);
    }

    fn read_bytes(&mut self, bytes_in: &[u8]) {
        let v = read_lanes(bytes_in);
        *self = [v[0], v[1], v[2]];
        assert(self.lanes() =~= decode_lanes(bytes_in@));
    }

    proof fn lemma_lane_count(v: Self) {
        assert(v@.len() == 3);
        assert(Self::spec_prim_info().lane_count() == 3);
    }

    proof fn lemma_lanes_injective(a: Self, b: Self) {
        assert(a.lanes()[0] == b.lanes()[0]);
        assert(a.lanes()[1] == b.lanes()[1]);
        assert(a.lanes()[2] == b.lanes()[2]);
        assert(a@.len() == b@.len());
        assert(a@ =~= b@);
    }
}

impl VectorType for [u32; 3] {
    type Field = u32;

    fn vector_info() -> (r: VectorTypeInfo) {
        VectorTypeInfo::U32x3
    }
}

impl PrimType for [u32; 4] {
    open spec fn spec_prim_info() -> PrimTypeInfo {
        PrimTypeInfo::Vector(VectorTypeInfo::U32x4)
    }

    open spec fn lanes(&self) -> Seq<u32> {
        self@
    }

    fn prim_info() -> (r: PrimTypeInfo) {
        PrimTypeInfo::Vector(VectorTypeInfo::U32x4)
    }

    fn write_bytes(&self, bytes_out: &mut [u8]) {
        let lanes: [u32; 4] = [self[0], self[1], self[2], self[3]];
        assert(lanes@ =~= self.lanes());
        write_lanes(lanes.as_slice(), bytes_out);
    }

    fn read_bytes(&mut self, bytes_in: &[u8]) {
        let v = read_lanes(bytes_in);
        *self = [v[0], v[1], v[2], v[3]];
        assert(self.lanes() =~= decode_lanes(bytes_in@));
    }

    proof fn lemma_lane_count(v: Self) {
        assert(v@.len() == 4);
        assert(Self::spec_prim_info().lane_count() == 4);
    }

    proof fn lemma_lanes_injective(a: Self, b: Self) {
        assert(a.lanes()[0] == b.lanes()[0]);
        assert(a.lanes()[1] == b.lanes()[1]);
        assert(a.lanes()[2] == b.lanes()[2]);
        assert(a.lanes()[3] == b.lanes()[3]);
        assert(a@.len() == b@.len());
        assert(a@ =~= b@);
    }
}

impl VectorType for [u32; 4] {
    type Field = u32;

    fn vector_info() -> (r: VectorTypeInfo) {
        VectorTypeInfo::U32x4
    }
}

impl PrimType for [i32; 2] {
    open spec fn spec_prim_info() -> PrimTypeInfo {
        PrimTypeInfo::Vector(VectorTypeInfo::I32x2)
    }

    open spec fn lanes(&self) -> Seq<u32> {
        self@.map_values(|x: i32| x as u32)
    }

    fn prim_info() -> (r: PrimTypeInfo) {
        PrimTypeInfo::Vector(VectorTypeInfo::I32x2)
    }

    fn write_bytes(&self, bytes_out: &mut [u8]) {
        let lanes: [u32; 2] = [self[0] as u32, self[1] as u32];
        assert(lanes@ =~= self.lanes());
        write_lanes(lanes.as_slice(), bytes_out);
    }

    fn read_bytes(&mut self, bytes_in: &[u8]) {
        let v = read_lanes(bytes_in);
        proof {
            lemma_signed_bits(v@[0]);
            lemma_signed_bits(v@[1]);
        }
        *self = [v[0] as i32, v[1] as i32];
        assert(self.lanes() =~= decode_lanes(bytes_in@));
    }

    proof fn lemma_lane_count(v: Self) {
        assert(v@.len() == 2);
        assert(Self::spec_prim_info().lane_count() == 2);
    }

    proof fn lemma_lanes_injective(a: Self, b: Self) {
        assert(a.lanes()[0] == a@[0] as u32 && b.lanes()[0] == b@[0] as u32);
        assert(a.lanes()[0] == b.lanes()[0]);
        lemma_signed_bits_injective(a@[0], b@[0]);
        assert(a.lanes()[1] == a@[1] as u32 && b.lanes()[1] == b@[1] as u32);
        assert(a.lanes()[1] == b.lanes()[1]);
        lemma_signed_bits_injective(a@[1], b@[1]);
        assert(a@.len() == b@.len());
        assert(a@ =~= b@);
    }
}

impl VectorType for [i32; 2] {
    type Field = i32;

    fn vector_info() -> (r: VectorTypeInfo) {
        VectorTypeInfo::I32x2
    }
}

impl PrimType for [i32; 3] {
    open spec fn spec_prim_info() -> PrimTypeInfo {
        PrimTypeInfo::Vector(VectorTypeInfo::I32x3)
    }

    open spec fn lanes(&self) -> Seq<u32> {
        self@.map_values(|x: i32| x as u32)
    }

    fn prim_info() -> (r: PrimTypeInfo) {
        PrimTypeInfo::Vector(VectorTypeInfo::I32x3)
    }

    fn write_bytes(&self, bytes_out: &mut [u8]) {
        let lanes: [u32; 3] = [self[0] as u32, self[1] as u32, self[2] as u32];
        assert(lanes@ =~= self.lanes());
        write_lanes(lanes.as_slice(), bytes_out);
    }

    fn read_bytes(&mut self, bytes_in: &[u8]) {
        let v = read_lanes(bytes_in);
        proof {
            lemma_signed_bits(v@[0]);
            lemma_signed_bits(v@[1]);
            lemma_signed_bits(v@[2]);
        }
        *self = [v[0] as i32, v[1] as i32, v[2] as i32];
        assert(self.lanes() =~= decode_lanes(bytes_in@));
    }

    proof fn lemma_lane_count(v: Self) {
        assert(v@.len() == 3);
        assert(Self::spec_prim_info().lane_count() == 3);
    }

    proof fn lemma_lanes_injective(a: Self, b: Self) {
        assert(a.lanes()[0] == a@[0] as u32 && b.lanes()[0] == b@[0] as u32);
        assert(a.lanes()[0] == b.lanes()[0]);
        lemma_signed_bits_injective(a@[0], b@[0]);
        assert(a.lanes()[1] == a@[1] as u32 && b.lanes()[1] == b@[1] as u32);
        assert(a.lanes()[1] == b.lanes()[1]);
        lemma_signed_bits_injective(a@[1], b@[1]);
        assert(a.lanes()[2] == a@[2] as u32 && b.lanes()[2] == b@[2] as u32);
        assert(a.lanes()[2] == b.lanes()[2]);
        lemma_signed_bits_injective(a@[2], b@[2]);
        assert(a@.len() == b@.len());
        assert(a@ =~= b@);
    }
}

impl VectorType for [i32; 3] {
    type Field = i32;

    fn vector_info() -> (r: VectorTypeInfo) {
        VectorTypeInfo::I32x3
    }
}

impl PrimType for [i32; 4] {
    open spec fn spec_prim_info() -> PrimTypeInfo {
        PrimTypeInfo::Vector(VectorTypeInfo::I32x4)
    }

    open spec fn lanes(&self) -> Seq<u32> {
        self@.map_values(|x: i32| x as u32)
    }

    fn prim_info() -> (r: PrimTypeInfo) {
        PrimTypeInfo::Vector(VectorTypeInfo::I32x4)
    }

    fn write_bytes(&self, bytes_out: &mut [u8]) {
        let lanes: [u32; 4] = [self[0] as u32, self[1] as u32, self[2] as u32, self[3] as u32];
        assert(lanes@ =~= self.lanes());
        write_lanes(lanes.as_slice(), bytes_out);
    }

    fn read_bytes(&mut self, bytes_in: &[u8]) {
        let v = read_lanes(bytes_in);
        proof {
            lemma_signed_bits(v@[0]);
            lemma_signed_bits(v@[1]);
            lemma_signed_bits(v@[2]);
            lemma_signed_bits(v@[3]);
        }
        *self = [v[0] as i32, v[1] as i32, v[2] as i32, v[3] as i32];
        assert(self.lanes() =~= decode_lanes(bytes_in@));
    }

    proof fn lemma_lane_count(v: Self) {
        assert(v@.len() == 4);
        assert(Self::spec_prim_info().lane_count() == 4);
    }

    proof fn lemma_lanes_injective(a: Self, b: Self) {
        assert(a.lanes()[0] == a@[0] as u32 && b.lanes()[0] == b@[0] as u32);
        assert(a.lanes()[0] == b.lanes()[0]);
        lemma_signed_bits_injective(a@[0], b@[0]);
        assert(a.lanes()[1] == a@[1] as u32 && b.lanes()[1] == b@[1] as u32);
        assert(a.lanes()[1] == b.lanes()[1]);
        lemma_signed_bits_injective(a@[1], b@[1]);
        assert(a.lanes()[2] == a@[2] as u32 && b.lanes()[2] == b@[2] as u32);
        assert(a.lanes()[2] == b.lanes()[2]);
        lemma_signed_bits_injective(a@[2], b@[2]);
        assert(a.lanes()[3] == a@[3] as u32 && b.lanes()[3] == b@[3] as u32);
        assert(a.lanes()[3] == b.lanes()[3]);
        lemma_signed_bits_injective(a@[3], b@[3]);
        assert(a@.len() == b@.len());
        assert(a@ =~= b@);
    }
}

impl VectorType for [i32; 4] {
    type Field = i32;

    fn vector_info() -> (r: VectorTypeInfo) {
        VectorTypeInfo::I32x4
    }
}

impl PrimType for [Float32; 2] {
    open spec fn spec_prim_info() -> PrimTypeInfo {
        PrimTypeInfo::Vector(VectorTypeInfo::F32x2)
    }

    open spec fn lanes(&self) -> Seq<u32> {
        self@.map_values(|x: Float32| x.bits)
    }

    fn prim_info() -> (r: PrimTypeInfo) {
        PrimTypeInfo::Vector(VectorTypeInfo::F32x2)
    }

    fn write_bytes(&self, bytes_out: &mut [u8]) {
        let lanes: [u32; 2] = [self[0].bits, self[1].bits];
        assert(lanes@ =~= self.lanes());
        write_lanes(lanes.as_slice(), bytes_out);
    }

    fn read_bytes(&mut self, bytes_in: &[u8]) {
        let v = read_lanes(bytes_in);
        *self = [Float32 { bits: v[0] }, Float32 { bits: v[1] }];
        assert(self.lanes() =~= decode_lanes(bytes_in@));
    }

    proof fn lemma_lane_count(v: Self) {
        assert(v@.len() == 2);
        assert(Self::spec_prim_info().lane_count() == 2);
    }

    proof fn lemma_lanes_injective(a: Self, b: Self) {
        assert(a.lanes()[0] == a@[0].bits && b.lanes()[0] == b@[0].bits);
        assert(a.lanes()[1] == a@[1].bits && b.lanes()[1] == b@[1].bits);
        assert(a@.len() == b@.len());
        assert(a@ =~= b@);
    }
}

impl VectorType for [Float32; 2] {
    type Field = Float32;

    fn vector_info() -> (r: VectorTypeInfo) {
        VectorTypeInfo::F32x2
    }
}

impl PrimType for [Float32; 3] {
    open spec fn spec_prim_info() -> PrimTypeInfo {
        PrimTypeInfo::Vector(VectorTypeInfo::F32x3)
    }

    open spec fn lanes(&self) -> Seq<u32> {
        self@.map_values(|x: Float32| x.bits)
    }

    fn prim_info() -> (r: PrimTypeInfo) {
        PrimTypeInfo::Vector(VectorTypeInfo::F32x3)
    }

    fn write_bytes(&self, bytes_out: &mut [u8]) {
        let lanes: [u32; 3] = [self[0].bits, self[1].bits, self[2].bits];
        assert(lanes@ =~= self.lanes());
        write_lanes(lanes.as_slice(), bytes_out);
    }

    fn read_bytes(&mut self, bytes_in: &[u8]) {
        let v = read_lanes(bytes_in);
        *self = [Float32 { bits: v[0] }, Float32 { bits: v[1] }, Float32 { bits: v[2] }];
        assert(self.lanes() =~= decode_lanes(bytes_in@));
    }

    proof fn lemma_lane_count(v: Self) {
        assert(v@.len() == 3);
        assert(Self::spec_prim_info().lane_count() == 3);
    }

    proof fn lemma_lanes_injective(a: Self, b: Self) {
        assert(a.lanes()[0] == a@[0].bits && b.lanes()[0] == b@[0].bits);
        assert(a.lanes()[1] == a@[1].bits && b.lanes()[1] == b@[1].bits);
        assert(a.lanes()[2] == a@[2].bits && b.lanes()[2] == b@[2].bits);
        assert(a@.len() == b@.len());
        assert(a@ =~= b@);
    }
}

impl VectorType for [Float32; 3] {
    type Field = Float32;

    fn vector_info() -> (r: VectorTypeInfo) {
        VectorTypeInfo::F32x3
    }
}

impl PrimType for [Float32; 4] {
    open spec fn spec_prim_info() -> PrimTypeInfo {
        PrimTypeInfo::Vector(VectorTypeInfo::F32x4)
    }

    open spec fn lanes(&self) -> Seq<u32> {
        self@.map_values(|x: Float32| x.bits)
    }

    fn prim_info() -> (r: PrimTypeInfo) {
        PrimTypeInfo::Vector(VectorTypeInfo::F32x4)
    }

    fn write_bytes(&self, bytes_out: &mut [u8]) {
        let lanes: [u32; 4] = [self[0].bits, self[1].bits, self[2].bits, self[3].bits];
        assert(lanes@ =~= self.lanes());
        write_lanes(lanes.as_slice(), bytes_out);
    }

    fn read_bytes(&mut self, bytes_in: &[u8]) {
        let v = read_lanes(bytes_in);
        *self = [Float32 { bits: v[0] }, Float32 { bits: v[1] }, Float32 { bits: v[2] }, Float32 { bits: v[3] }];
        assert(self.lanes() =~= decode_lanes(bytes_in@));
    }

    proof fn lemma_lane_count(v: Self) {
        assert(v@.len() == 4);
        assert(Self::spec_prim_info().lane_count() == 4);
    }

    proof fn lemma_lanes_injective(a: Self, b: Self) {
        assert(a.lanes()[0] == a@[0].bits && b.lanes()[0] == b@[0].bits);
        assert(a.lanes()[1] == a@[1].bits && b.lanes()[1] == b@[1].bits);
        assert(a.lanes()[2] == a@[2].bits && b.lanes()[2] == b@[2].bits);
        assert(a.lanes()[3] == a@[3].bits && b.lanes()[3] == b@[3].bits);
        assert(a@.len() == b@.len());
        assert(a@ =~= b@);
    }
}

impl VectorType for [Float32; 4] {
    type Field = Float32;

    fn vector_info() -> (r: VectorTypeInfo) {
        VectorTypeInfo::F32x4
    }
}

} // verus!
