//! Scalar kinds: 32-bit unsigned, signed and floating-point numbers.
use vstd::prelude::*;
use crate::lanes::{
    decode_lanes, lemma_signed_bits, lemma_signed_bits_injective, read_word,
    write_lanes,
};
use crate::prim_type::{PrimType, PrimTypeInfo};

verus! {

/// A scalar kind. Every scalar is one 32-bit lane: four bytes, aligned to four.
#[derive(Clone, Copy, PartialEq, Eq, Structural, Hash, Debug)]
pub enum ScalarTypeInfo {
    U32,
    I32,
    F32,
}

impl ScalarTypeInfo {
    /// The name of the kind in shader source.
    pub open spec fn spec_name(&self) -> Seq<char> {
        match *self {
            ScalarTypeInfo::U32 => "u32"@,
            ScalarTypeInfo::I32 => "i32"@,
            ScalarTypeInfo::F32 => "f32"@,
        }
    }

    pub fn into_prim(self) -> (r: PrimTypeInfo)
        ensures
            r == PrimTypeInfo::Scalar(self),
    {
        PrimTypeInfo::Scalar(self)
    }

    pub fn size(&self) -> (r: usize)
        ensures
            r == 4,
    {
        4
    }

    pub fn align(&self) -> (r: usize)
        ensures
            r == 4,
    {
        4
    }

    pub fn name(&self) -> (r: &'static str)
        ensures
            r@ == self.spec_name(),
    {
        match *self {
            ScalarTypeInfo::U32 => "u32",
            ScalarTypeInfo::I32 => "i32",
            ScalarTypeInfo::F32 => "f32",
        }
    }
}

/// A Rust type that holds one scalar.
pub trait ScalarType: PrimType {
    fn scalar_info() -> (r: ScalarTypeInfo)
        ensures
            Self::spec_prim_info() == PrimTypeInfo::Scalar(r),
    ;
}

/// A 32-bit float held as its IEEE-754 bit pattern, which is what the byte
/// codec reads and writes.
#[derive(Clone, Copy, PartialEq, Eq, Structural, Hash, Debug, Default)]
pub struct Float32 {
    pub bits: u32,
}

impl Float32 {
    pub fn from_bits(bits: u32) -> (r: Float32)
        ensures
            r.bits == bits,
    {
        Float32 { bits }
    }

    pub fn to_bits(self) -> (r: u32)
        ensures
            r == self.bits,
    {
        self.bits
    }
}

impl PrimType for u32 {
    open spec fn spec_prim_info() -> PrimTypeInfo {
        PrimTypeInfo::Scalar(ScalarTypeInfo::U32)
    }

    open spec fn lanes(&self) -> Seq<u32> {
        seq![*self]
    }

    fn prim_info() -> (r: PrimTypeInfo) {
        PrimTypeInfo::Scalar(ScalarTypeInfo::U32)
    }

    fn write_bytes(&self, bytes_out: &mut [u8]) {
        let lanes: [u32; 1] = [*self];
        assert(lanes@ =~= self.lanes());
        write_lanes(lanes.as_slice(), bytes_out);
    }

    fn read_bytes(&mut self, bytes_in: &[u8]) {
        *self = read_word(bytes_in, 0);
        assert(seq![*self] =~= decode_lanes(bytes_in@));
    }

    proof fn lemma_lane_count(v: Self) {
        assert(v.lanes().len() == 1);
        assert(Self::spec_prim_info().lane_count() == 1);
    }

    proof fn lemma_lanes_injective(a: Self, b: Self) {
        assert(a.lanes()[0] == a && b.lanes()[0] == b);
    }
}

impl ScalarType for u32 {
    fn scalar_info() -> (r: ScalarTypeInfo) {
        ScalarTypeInfo::U32
    }
}

impl PrimType for i32 {
    open spec fn spec_prim_info() -> PrimTypeInfo {
        PrimTypeInfo::Scalar(ScalarTypeInfo::I32)
    }

    open spec fn lanes(&self) -> Seq<u32> {
        seq![*self as u32]
    }

    fn prim_info() -> (r: PrimTypeInfo) {
        PrimTypeInfo::Scalar(ScalarTypeInfo::I32)
    }

    fn write_bytes(&self, bytes_out: &mut [u8]) {
        let lanes: [u32; 1] = [*self as u32];
        assert(lanes@ =~= self.lanes());
        write_lanes(lanes.as_slice(), bytes_out);
    }

    fn read_bytes(&mut self, bytes_in: &[u8]) {
        let w = read_word(bytes_in, 0);
        *self = w as i32;
        proof {
            lemma_signed_bits(w);
        }
        assert(seq![*self as u32] =~= decode_lanes(bytes_in@));
    }

    proof fn lemma_lane_count(v: Self) {
        assert(v.lanes().len() == 1);
        assert(Self::spec_prim_info().lane_count() == 1);
    }

    proof fn lemma_lanes_injective(a: Self, b: Self) {
        assert(a.lanes()[0] == a as u32 && b.lanes()[0] == b as u32);
        lemma_signed_bits_injective(a, b);
    }
}

impl ScalarType for i32 {
    fn scalar_info() -> (r: ScalarTypeInfo) {
        ScalarTypeInfo::I32
    }
}

impl PrimType for Float32 {
    open spec fn spec_prim_info() -> PrimTypeInfo {
        PrimTypeInfo::Scalar(ScalarTypeInfo::F32)
    }

    open spec fn lanes(&self) -> Seq<u32> {
        seq![self.bits]
    }

    fn prim_info() -> (r: PrimTypeInfo) {
        PrimTypeInfo::Scalar(ScalarTypeInfo::F32)
    }

    fn write_bytes(&self, bytes_out: &mut [u8]) {
        let lanes: [u32; 1] = [self.bits];
        assert(lanes@ =~= self.lanes());
        write_lanes(lanes.as_slice(), bytes_out);
    }

    fn read_bytes(&mut self, bytes_in: &[u8]) {
        *self = Float32 { bits: read_word(bytes_in, 0) };
        assert(seq![self.bits] =~= decode_lanes(bytes_in@));
    }

    proof fn lemma_lane_count(v: Self) {
        assert(v.lanes().len() == 1);
        assert(Self::spec_prim_info().lane_count() == 1);
    }

    proof fn lemma_lanes_injective(a: Self, b: Self) {
        assert(a.lanes()[0] == a.bits && b.lanes()[0] == b.bits);
    }
}

impl ScalarType for Float32 {
    fn scalar_info() -> (r: ScalarTypeInfo) {
        ScalarTypeInfo::F32
    }
}

} // verus!
