//! Little-endian encoding of 32-bit lanes: every primitive value is a
//! sequence of 32-bit lanes, and each lane takes four bytes, lowest first.
use vstd::prelude::*;

verus! {

/// Byte `k` (0 = least significant) of the word `x`.
pub open spec fn lane_byte(x: u32, k: int) -> u8 {
    if k == 0 {
        (x & 0xff) as u8
    } else if k == 1 {
        ((x >> 8u32) & 0xff) as u8
    } else if k == 2 {
        ((x >> 16u32) & 0xff) as u8
    } else {
        ((x >> 24u32) & 0xff) as u8
    }
}

/// The word whose little-endian bytes are `b0, b1, b2, b3`.
pub open spec fn word_from_bytes(b0: u8, b1: u8, b2: u8, b3: u8) -> u32 {
    (b0 as u32) | ((b1 as u32) << 8u32) | ((b2 as u32) << 16u32) | ((b3 as u32) << 24u32)
}

/// The bytes of a sequence of lanes: four per lane, in lane order.
pub open spec fn encode_lanes(lanes: Seq<u32>) -> Seq<u8> {
    Seq::new(4 * lanes.len(), |j: int| lane_byte(lanes[j / 4], j % 4))
}

/// The lanes read back from a byte sequence, four bytes per lane.
pub open spec fn decode_lanes(bytes: Seq<u8>) -> Seq<u32> {
    Seq::new(
        bytes.len() / 4,
        |i: int| word_from_bytes(bytes[4 * i], bytes[4 * i + 1], bytes[4 * i + 2], bytes[4 * i + 3]),
    )
}

pub proof fn lemma_word_round_trip(x: u32)
    ensures
        word_from_bytes(lane_byte(x, 0), lane_byte(x, 1), lane_byte(x, 2), lane_byte(x, 3)) == x,
{
    assert((((x & 0xff) as u8) as u32) | (((((x >> 8u32) & 0xff) as u8) as u32) << 8u32) | (
    ((((x >> 16u32) & 0xff) as u8) as u32) << 16u32) | (((((x >> 24u32) & 0xff) as u8) as u32)
        << 24u32) == x) by (bit_vector);
}

/// Decoding the encoding of any lanes gives the lanes back.
pub proof fn lemma_lanes_round_trip(lanes: Seq<u32>)
    ensures
        decode_lanes(encode_lanes(lanes)) == lanes,
{
    let bytes = encode_lanes(lanes);
    assert(bytes.len() / 4 == lanes.len()) by (nonlinear_arith)
        requires
            bytes.len() == 4 * lanes.len(),
    ;
    assert forall|i: int| 0 <= i < lanes.len() implies #[trigger] decode_lanes(bytes)[i]
        == lanes[i] by {
        assert((4 * i) / 4 == i && (4 * i) % 4 == 0 && (4 * i + 1) / 4 == i && (4 * i + 1) % 4 == 1
            && (4 * i + 2) / 4 == i && (4 * i + 2) % 4 == 2 && (4 * i + 3) / 4 == i && (4 * i + 3)
            % 4 == 3) by (nonlinear_arith)
            requires
                0 <= i,
        ;
        assert(4 * i + 3 < 4 * lanes.len()) by (nonlinear_arith)
            requires
                i < lanes.len(),
        ;
        assert(bytes[4 * i] == lane_byte(lanes[i], 0));
        assert(bytes[4 * i + 1] == lane_byte(lanes[i], 1));
        assert(bytes[4 * i + 2] == lane_byte(lanes[i], 2));
        assert(bytes[4 * i + 3] == lane_byte(lanes[i], 3));
        lemma_word_round_trip(lanes[i]);
    }
    assert(decode_lanes(bytes) =~= lanes);
}

/// A signed lane is stored as its two's-complement bit pattern.
pub proof fn lemma_signed_bits(w: u32)
    ensures
        ((w as i32) as u32) == w,
{
    assert(((w as i32) as u32) == w) by (bit_vector);
}

/// Two signed values with one bit pattern are equal.
pub proof fn lemma_signed_bits_injective(x: i32, y: i32)
    ensures
        (x as u32) == (y as u32) ==> x == y,
{
    assert((x as u32) == (y as u32) ==> x == y) by (bit_vector);
}

/// Writes `lanes` little-endian into `bytes_out`, which holds exactly four bytes per lane.
pub fn write_lanes(lanes: &[u32], bytes_out: &mut [u8])
    requires
        old(bytes_out)@.len() == 4 * lanes@.len(),
    ensures
        final(bytes_out)@ == encode_lanes(lanes@),
{
    let n = lanes.len();
    let len = bytes_out.len();
    let mut i: usize = 0;
    while i < n
        invariant
            n == lanes@.len(),
            len == bytes_out@.len(),
            bytes_out@.len() == 4 * n,
            0 <= i <= n,
            forall|j: int| 0 <= j < 4 * i ==> #[trigger] bytes_out@[j] == lane_byte(lanes@[j / 4], j % 4),
        decreases n - i,
    {
        let x = lanes[i];
        assert(4 * i + 4 <= 4 * n) by (nonlinear_arith)
            requires
                i < n,
        ;
        let base = 4 * i;
        bytes_out[base] = (x & 0xff) as u8;
        bytes_out[base + 1] = ((x >> 8u32) & 0xff) as u8;
        bytes_out[base + 2] = ((x >> 16u32) & 0xff) as u8;
        bytes_out[base + 3] = ((x >> 24u32) & 0xff) as u8;
        assert forall|j: int| 0 <= j < 4 * (i + 1) implies #[trigger] bytes_out@[j] == lane_byte(
            lanes@[j / 4],
            j % 4,
        ) by {
            if j >= 4 * i {
                assert(j / 4 == i && j % 4 == j - 4 * i) by (nonlinear_arith)
                    requires
                        4 * i <= j < 4 * i + 4,
                ;
            }
        }
        i = i + 1;
    }
    assert(bytes_out@ =~= encode_lanes(lanes@));
}

/// The little-endian bytes of `lanes`, four per lane.
pub fn lanes_to_bytes(lanes: &[u32]) -> (r: Vec<u8>)
    ensures
        r@ == encode_lanes(lanes@),
{
    let n = lanes.len();
    let mut out: Vec<u8> = Vec::new();
    let mut i: usize = 0;
    while i < n
        invariant
            n == lanes@.len(),
            0 <= i <= n,
            out@.len() == 4 * i,
            forall|j: int| 0 <= j < 4 * i ==> #[trigger] out@[j] == lane_byte(lanes@[j / 4], j % 4),
        decreases n - i,
    {
        let x = lanes[i];
        out.push((x & 0xff) as u8);
        out.push(((x >> 8u32) & 0xff) as u8);
        out.push(((x >> 16u32) & 0xff) as u8);
        out.push(((x >> 24u32) & 0xff) as u8);
        assert forall|j: int| 0 <= j < 4 * (i + 1) implies #[trigger] out@[j] == lane_byte(
            lanes@[j / 4],
            j % 4,
        ) by {
            if j >= 4 * i {
                assert(j / 4 == i && j % 4 == j - 4 * i) by (nonlinear_arith)
                    requires
                        4 * i <= j < 4 * i + 4,
                ;
            }
        }
        i = i + 1;
    }
    assert(out@ =~= encode_lanes(lanes@));
    out
}

/// Reads the word stored little-endian at `bytes[at .. at + 4]`.
pub fn read_word(bytes: &[u8], at: usize) -> (r: u32)
    requires
        at + 4 <= bytes@.len(),
    ensures
        r == word_from_bytes(bytes@[at as int], bytes@[at + 1], bytes@[at + 2], bytes@[at + 3]),
{
    (bytes[at] as u32) | ((bytes[at + 1] as u32) << 8u32) | ((bytes[at + 2] as u32) << 16u32) | ((
    bytes[at + 3] as u32) << 24u32)
}

/// Reads the lanes stored little-endian in `bytes`, four bytes per lane.
pub fn read_lanes(bytes: &[u8]) -> (r: Vec<u32>)
    requires
        bytes@.len() % 4 == 0,
    ensures
        r@ == decode_lanes(bytes@),
{
    let len = bytes.len();
    let n = len / 4;
    let mut out: Vec<u32> = Vec::new();
    let mut i: usize = 0;
    while i < n
        invariant
            len == bytes@.len(),
            n == bytes@.len() / 4,
            bytes@.len() % 4 == 0,
            0 <= i <= n,
            out@ == decode_lanes(bytes@).take(i as int),
        decreases n - i,
    {
        assert(4 * i + 4 <= bytes@.len()) by (nonlinear_arith)
            requires
                i < n,
                n == bytes@.len() / 4,
                bytes@.len() % 4 == 0,
        ;
        let w = read_word(bytes, 4 * i);
        out.push(w);
        assert(out@ =~= decode_lanes(bytes@).take(i + 1));
        i = i + 1;
    }
    assert(out@ =~= decode_lanes(bytes@));
    out
}

} // verus!
