//! Primitive kinds (scalars and vectors) and the Rust types that hold them.
use vstd::prelude::*;
use crate::data_type::DataValue;
use crate::lanes::{decode_lanes, encode_lanes, lanes_to_bytes, lemma_lanes_round_trip, read_lanes};
use crate::model::ValueModel;
use crate::scalar_type::ScalarTypeInfo;
use crate::vector_type::VectorTypeInfo;

verus! {

/// A primitive kind: a scalar or a vector of scalars.
#[derive(Clone, Copy, PartialEq, Eq, Structural, Hash, Debug)]
pub enum PrimTypeInfo {
    Scalar(ScalarTypeInfo),
    Vector(VectorTypeInfo),
}

impl PrimTypeInfo {
    /// How many 32-bit lanes a value of this kind holds.
    pub open spec fn lane_count(&self) -> nat {
        match *self {
            PrimTypeInfo::Scalar(_) => 1,
            PrimTypeInfo::Vector(v) => v.lane_count(),
        }
    }

    pub open spec fn spec_size(&self) -> nat {
        match *self {
            PrimTypeInfo::Scalar(_) => 4,
            PrimTypeInfo::Vector(v) => v.spec_size(),
        }
    }

    pub open spec fn spec_align(&self) -> nat {
        match *self {
            PrimTypeInfo::Scalar(_) => 4,
            PrimTypeInfo::Vector(v) => v.spec_align(),
        }
    }

    pub open spec fn spec_name(&self) -> Seq<char> {
        match *self {
            PrimTypeInfo::Scalar(s) => s.spec_name(),
            PrimTypeInfo::Vector(v) => v.spec_name(),
        }
    }

    /// Four bytes per lane, and an alignment of at least four.
    pub proof fn lemma_size_align(&self)
        ensures
            self.spec_size() == 4 * self.lane_count(),
            self.spec_align() >= 4,
            self.spec_size() <= 16,
            self.spec_align() <= 16,
    {
    }

    pub fn size(&self) -> (r: usize)
        ensures
            r == self.spec_size(),
    {
        match self {
            PrimTypeInfo::Scalar(s) => s.size(),
            PrimTypeInfo::Vector(v) => v.size(),
        }
    }

    pub fn align(&self) -> (r: usize)
        ensures
            r == self.spec_align(),
    {
        match self {
            PrimTypeInfo::Scalar(s) => s.align(),
            PrimTypeInfo::Vector(v) => v.align(),
        }
    }

    pub fn name(&self) -> (r: &'static str)
        ensures
            r@ == self.spec_name(),
    {
        match self {
            PrimTypeInfo::Scalar(s) => s.name(),
            PrimTypeInfo::Vector(v) => v.name(),
        }
    }
}

/// A Rust type that holds one primitive value, with its byte codec.
pub trait PrimType: Sized {
    /// The kind of every value of this type.
    spec fn spec_prim_info() -> PrimTypeInfo;

    /// The 32-bit lanes of the value, in declared order (a float lane is its bit pattern).
    spec fn lanes(&self) -> Seq<u32>;

    fn prim_info() -> (r: PrimTypeInfo)
        ensures
            r == Self::spec_prim_info(),
    ;

    /// Writes the lanes little-endian, four bytes each, in lane order.
    fn write_bytes(&self, bytes_out: &mut [u8])
        requires
            old(bytes_out)@.len() == Self::spec_prim_info().spec_size(),
        ensures
            final(bytes_out)@ == encode_lanes(self.lanes()),
    ;

    /// Reads the value back from its little-endian bytes.
    fn read_bytes(&mut self, bytes_in: &[u8])
        requires
            bytes_in@.len() == Self::spec_prim_info().spec_size(),
        ensures
            final(self).lanes() == decode_lanes(bytes_in@),
    ;

    proof fn lemma_lane_count(v: Self)
        ensures
            v.lanes().len() == Self::spec_prim_info().lane_count(),
    ;

    /// A value is determined by its lanes.
    proof fn lemma_lanes_injective(a: Self, b: Self)
        requires
            a.lanes() == b.lanes(),
        ensures
            a == b,
    ;

    /// The value as a primitive `DataValue`.
    fn to_data_value(&self) -> (r: DataValue)
        ensures
            r@ == ValueModel::Prim(self.lanes()),
    {
        proof {
            Self::lemma_lane_count(*self);
            Self::spec_prim_info().lemma_size_align();
        }
        let n = Self::prim_info().size();
        let mut buf: Vec<u8> = Vec::new();
        let mut i: usize = 0;
        while i < n
            invariant
                n == Self::spec_prim_info().spec_size(),
                0 <= i <= n,
                buf@.len() == i,
            decreases n - i,
        {
            buf.push(0u8);
            i = i + 1;
        }
        self.write_bytes(buf.as_mut_slice());
        let lanes = read_lanes(buf.as_slice());
        proof {
            lemma_lanes_round_trip(self.lanes());
        }
        DataValue::Prim(lanes)
    }

    /// Takes the lanes of a primitive `DataValue` with this kind's lane count;
    /// returns false, and changes nothing, for any other value.
    fn set_from_data_value(&mut self, v: &DataValue) -> (r: bool)
        ensures
            r == (v@ matches ValueModel::Prim(lanes) && lanes.len() == Self::spec_prim_info().lane_count()),
            r ==> ValueModel::Prim(final(self).lanes()) == v@,
            !r ==> *final(self) == *old(self),
    {
        proof {
            Self::spec_prim_info().lemma_size_align();
        }
        match v {
            DataValue::Prim(lanes) => {
                if lanes.len() != Self::prim_info().size() / 4 {
                    return false;
                }
                let bytes = lanes_to_bytes(lanes.as_slice());
                self.read_bytes(bytes.as_slice());
                proof {
                    lemma_lanes_round_trip(lanes@);
                }
                true
            },
            DataValue::Record(_) => false,
        }
    }
}

/// Reading back what `write_bytes` wrote gives the value that was written:
/// `bytes` is what writing `v` produced and `w` is what reading `bytes` produced.
pub proof fn lemma_prim_round_trip<PT: PrimType>(v: PT, bytes: Seq<u8>, w: PT)
    requires
        bytes == encode_lanes(v.lanes()),
        w.lanes() == decode_lanes(bytes),
    ensures
        w == v,
{
    lemma_lanes_round_trip(v.lanes());
    PT::lemma_lanes_injective(v, w);
}

} // verus!
