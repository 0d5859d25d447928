//! Bit codec for the inter-half wire format.
//!
//! A 5x6 boolean switch grid is flattened column-major (`index = row + 5 *
//! col`, 30 bits) and packed into 4 bytes, lowest bit first within each
//! byte. The two bits past the grid are always zero in an encoded frame.

use vstd::prelude::*;
use crate::rows_view;

verus! {

/// True when bit `i` (counted from the least significant end) of `b` is set.
pub open spec fn bit_of(b: u8, i: int) -> bool {
    (b >> (i as u8)) & 1 == 1
}

/// Bit `k` of the column-major flattening of a 5x6 grid; the positions past
/// the 30 grid bits read as zero.
pub open spec fn grid_bit(g: Seq<Seq<bool>>, k: int) -> bool {
    0 <= k < 30 && g[k % 5][k / 5]
}

/// One as a byte for a set bit, zero for a clear one.
pub open spec fn bit_u8(b: bool) -> u8 {
    if b {
        1
    } else {
        0
    }
}

/// A byte assembled from its eight bits, lowest first.
pub open spec fn pack8(
    b0: bool,
    b1: bool,
    b2: bool,
    b3: bool,
    b4: bool,
    b5: bool,
    b6: bool,
    b7: bool,
) -> u8 {
    bit_u8(b0) | (bit_u8(b1) << 1) | (bit_u8(b2) << 2) | (bit_u8(b3) << 3) | (bit_u8(b4) << 4)
        | (bit_u8(b5) << 5) | (bit_u8(b6) << 6) | (bit_u8(b7) << 7)
}

/// Byte `j` of the encoding: grid bits `8j .. 8j + 8`.
pub open spec fn pack_byte(g: Seq<Seq<bool>>, j: int) -> u8 {
    pack8(
        grid_bit(g, 8 * j),
        grid_bit(g, 8 * j + 1),
        grid_bit(g, 8 * j + 2),
        grid_bit(g, 8 * j + 3),
        grid_bit(g, 8 * j + 4),
        grid_bit(g, 8 * j + 5),
        grid_bit(g, 8 * j + 6),
        grid_bit(g, 8 * j + 7),
    )
}

/// The 4-byte wire image of a 5x6 grid.
pub open spec fn encode_spec(g: Seq<Seq<bool>>) -> Seq<u8> {
    Seq::new(4, |j: int| pack_byte(g, j))
}

/// The 5x6 grid read back from a 4-byte wire image.
pub open spec fn decode_spec(b: Seq<u8>) -> Seq<Seq<bool>> {
    Seq::new(5, |r: int| Seq::new(6, |c: int| bit_of(b[(r + 5 * c) / 8], (r + 5 * c) % 8)))
}

proof fn lemma_or_shift_bit(p: u8, v: u8, i: u8, b: u8)
    by (bit_vector)
    requires
        v == 0 || v == 1,
        i < 8,
        b < 8,
        (p >> i) & 1 == 0,
    ensures
        ((p | (v << i)) >> i) & 1 == v,
        b != i ==> ((p | (v << i)) >> b) & 1 == ((p >> b) & 1),
{
}

proof fn lemma_bit01(x: u8, k: u8)
    by (bit_vector)
    requires
        k < 8,
    ensures
        ((x >> k) & 1) == 0 || ((x >> k) & 1) == 1,
{
}

proof fn lemma_u8_eq_from_bits(a: u8, b: u8)
    by (bit_vector)
    requires
        ((a >> 0) & 1) == ((b >> 0) & 1),
        ((a >> 1) & 1) == ((b >> 1) & 1),
        ((a >> 2) & 1) == ((b >> 2) & 1),
        ((a >> 3) & 1) == ((b >> 3) & 1),
        ((a >> 4) & 1) == ((b >> 4) & 1),
        ((a >> 5) & 1) == ((b >> 5) & 1),
        ((a >> 6) & 1) == ((b >> 6) & 1),
        ((a >> 7) & 1) == ((b >> 7) & 1),
    ensures
        a == b,
{
}

proof fn lemma_u8_eq_from_bits_q(a: u8, b: u8)
    requires
        forall|k: int| 0 <= k < 8 ==> (#[trigger] (a >> (k as u8))) & 1 == (b >> (k as u8)) & 1,
    ensures
        a == b,
{
    assert((a >> (0int as u8)) & 1 == (b >> (0int as u8)) & 1);
    assert((a >> (1int as u8)) & 1 == (b >> (1int as u8)) & 1);
    assert((a >> (2int as u8)) & 1 == (b >> (2int as u8)) & 1);
    assert((a >> (3int as u8)) & 1 == (b >> (3int as u8)) & 1);
    assert((a >> (4int as u8)) & 1 == (b >> (4int as u8)) & 1);
    assert((a >> (5int as u8)) & 1 == (b >> (5int as u8)) & 1);
    assert((a >> (6int as u8)) & 1 == (b >> (6int as u8)) & 1);
    assert((a >> (7int as u8)) & 1 == (b >> (7int as u8)) & 1);
    lemma_u8_eq_from_bits(a, b);
}

proof fn lemma_pack8_bits(b0: bool, b1: bool, b2: bool, b3: bool, b4: bool, b5: bool, b6: bool, b7: bool)
    by (bit_vector)
    ensures
        ((pack8(b0, b1, b2, b3, b4, b5, b6, b7) >> 0) & 1 == 1) == b0,
        ((pack8(b0, b1, b2, b3, b4, b5, b6, b7) >> 1) & 1 == 1) == b1,
        ((pack8(b0, b1, b2, b3, b4, b5, b6, b7) >> 2) & 1 == 1) == b2,
        ((pack8(b0, b1, b2, b3, b4, b5, b6, b7) >> 3) & 1 == 1) == b3,
        ((pack8(b0, b1, b2, b3, b4, b5, b6, b7) >> 4) & 1 == 1) == b4,
        ((pack8(b0, b1, b2, b3, b4, b5, b6, b7) >> 5) & 1 == 1) == b5,
        ((pack8(b0, b1, b2, b3, b4, b5, b6, b7) >> 6) & 1 == 1) == b6,
        ((pack8(b0, b1, b2, b3, b4, b5, b6, b7) >> 7) & 1 == 1) == b7,
{
}

proof fn lemma_zero_shr(k: u8)
    by (bit_vector)
    requires
        k < 8,
    ensures
        (0u8 >> k) & 1 == 0,
{
}

proof fn lemma_high_bits_zero(x: u8)
    by (bit_vector)
    requires
        x < 64,
    ensures
        (x >> 6) & 1 == 0,
        (x >> 7) & 1 == 0,
{
}

/// The bits of `pack_byte` are the corresponding grid bits.
proof fn lemma_pack_byte_bit(g: Seq<Seq<bool>>, j: int, i: int)
    requires
        0 <= j < 4,
        0 <= i < 8,
    ensures
        bit_of(pack_byte(g, j), i) == grid_bit(g, 8 * j + i),
{
    lemma_pack8_bits(
        grid_bit(g, 8 * j),
        grid_bit(g, 8 * j + 1),
        grid_bit(g, 8 * j + 2),
        grid_bit(g, 8 * j + 3),
        grid_bit(g, 8 * j + 4),
        grid_bit(g, 8 * j + 5),
        grid_bit(g, 8 * j + 6),
        grid_bit(g, 8 * j + 7),
    );
}

fn pack_byte_exec(state: &[[bool; 6]; 5], j: usize) -> (p: u8)
    requires
        j < 4,
    ensures
        p == pack_byte(rows_view(*state), j as int),
{
    let ghost gv = rows_view(*state);
    let mut p: u8 = 0;
    let mut i: usize = 0;
    proof {
        assert forall|b: int| 0 <= b < 8 implies !bit_of(0u8, b) by {
            lemma_zero_shr(b as u8);
        }
    }
    while i < 8
        invariant
            i <= 8,
            j < 4,
            gv == rows_view(*state),
            forall|b: int| 0 <= b < i ==> bit_of(p, b) == grid_bit(gv, 8 * (j as int) + b),
            forall|b: int| i <= b < 8 ==> !bit_of(p, b),
        decreases 8 - i,
    {
        let k = 8 * j + i;
        let v: bool;
        if k < 30 {
            proof {
                assert(k / 5 < 6) by (nonlinear_arith)
                    requires
                        k < 30,
                ;
            }
            v = state[k % 5][k / 5];
        } else {
            v = false;
        }
        proof {
            assert(v == grid_bit(gv, k as int));
        }
        let vb: u8 = if v {
            1
        } else {
            0
        };
        let ghost p_old = p;
        proof {
            assert(!bit_of(p, i as int));
            lemma_bit01(p, i as u8);
            assert((p >> (i as u8)) & 1 == 0);
        }
        p = p | (vb << (i as u8));
        proof {
            assert forall|b: int| 0 <= b < 8 implies bit_of(p, b) == (if b == i {
                v
            } else {
                bit_of(p_old, b)
            }) by {
                lemma_or_shift_bit(p_old, vb, i as u8, b as u8);
            }
        }
        i += 1;
    }
    proof {
        let q = pack_byte(gv, j as int);
        assert forall|b: int| 0 <= b < 8 implies (#[trigger] (p >> (b as u8))) & 1 == (q >> (b as u8))
            & 1 by {
            assert(bit_of(p, b) == grid_bit(gv, 8 * (j as int) + b));
            lemma_pack_byte_bit(gv, j as int, b);
            lemma_bit01(p, b as u8);
            lemma_bit01(q, b as u8);
        }
        lemma_u8_eq_from_bits_q(p, q);
    }
    p
}

/// Pack a 5x6 switch grid into its 4-byte wire image.
pub fn encode(state: &[[bool; 6]; 5]) -> (encoded: [u8; 4])
    ensures
        encoded@ == encode_spec(rows_view(*state)),
{
    let mut encoded: [u8; 4] = [0, 0, 0, 0];
    let mut j: usize = 0;
    while j < 4
        invariant
            j <= 4,
            encoded@.len() == 4,
            forall|t: int| 0 <= t < j ==> encoded@[t] == pack_byte(rows_view(*state), t),
        decreases 4 - j,
    {
        let p = pack_byte_exec(state, j);
        encoded[j] = p;
        j += 1;
    }
    proof {
        assert(encoded@ =~= encode_spec(rows_view(*state)));
    }
    encoded
}

/// Unpack a 4-byte wire image into the 5x6 switch grid it encodes. The two
/// bits past the 30 grid bits are ignored.
pub fn decode(encoded: &[u8; 4], state: &mut [[bool; 6]; 5])
    ensures
        rows_view(*final(state)) == decode_spec(encoded@),
{
    let mut r: usize = 0;
    while r < 5
        invariant
            r <= 5,
            forall|r2: int, c2: int|
                0 <= r2 < r && 0 <= c2 < 6 ==> rows_view(*state)[r2][c2] == decode_spec(
                    encoded@,
                )[r2][c2],
        decreases 5 - r,
    {
        let mut c: usize = 0;
        while c < 6
            invariant
                r < 5,
                c <= 6,
                forall|r2: int, c2: int|
                    0 <= r2 < r && 0 <= c2 < 6 ==> rows_view(*state)[r2][c2] == decode_spec(
                        encoded@,
                    )[r2][c2],
                forall|c2: int|
                    0 <= c2 < c ==> rows_view(*state)[r as int][c2] == decode_spec(
                        encoded@,
                    )[r as int][c2],
            decreases 6 - c,
        {
            let k = r + 5 * c;
            let byte = encoded[k / 8];
            let bit = (byte >> ((k % 8) as u8)) & 1 == 1;
            let mut row = state[r];
            row[c] = bit;
            state[r] = row;
            c += 1;
        }
        r += 1;
    }
    proof {
        assert(rows_view(*state) =~~= decode_spec(encoded@));
    }
}

/// Decoding inverts encoding: every 5x6 grid survives the trip to the wire
/// image and back unchanged.
pub proof fn lemma_codec_grid_roundtrip(g: Seq<Seq<bool>>)
    requires
        g.len() == 5,
        forall|r: int| 0 <= r < 5 ==> (#[trigger] g[r]).len() == 6,
    ensures
        decode_spec(encode_spec(g)) == g,
{
    assert forall|r: int, c: int| 0 <= r < 5 && 0 <= c < 6 implies decode_spec(encode_spec(g))[r][c]
        == g[r][c] by {
        let k = r + 5 * c;
        assert(0 <= k < 30);
        assert(0 <= k / 8 < 4 && 0 <= k % 8 < 8);
        lemma_pack_byte_bit(g, k / 8, k % 8);
        assert(8 * (k / 8) + k % 8 == k);
        assert(k % 5 == r && k / 5 == c) by (nonlinear_arith)
            requires 0 <= r < 5 && 0 <= c < 6 && k == r + 5 * c
        ;
    }
    assert(decode_spec(encode_spec(g)) =~~= g);
}

/// Encoding inverts decoding on every well-formed wire image: 4 bytes whose
/// two bits past the grid are clear (the final byte is below 64, as every
/// encoded frame has it).
pub proof fn lemma_codec_bytes_roundtrip(b: Seq<u8>)
    requires
        b.len() == 4,
        b[3] < 64,
    ensures
        encode_spec(decode_spec(b)) == b,
{
    let dv = decode_spec(b);
    assert forall|j: int| 0 <= j < 4 implies encode_spec(dv)[j] == b[j] by {
        let p = pack_byte(dv, j);
        assert forall|i: int| 0 <= i < 8 implies (#[trigger] (p >> (i as u8))) & 1 == (b[j] >> (
        i as u8)) & 1 by {
            lemma_pack_byte_bit(dv, j, i);
            let k = 8 * j + i;
            if k < 30 {
                let r = k % 5;
                let c = k / 5;
                assert(0 <= r < 5 && 0 <= c < 6) by (nonlinear_arith)
                    requires
                        0 <= k < 30 && r == k % 5 && c == k / 5,
                ;
                assert(r + 5 * c == k);
                assert(grid_bit(dv, k) == dv[r][c]);
                assert(dv[r][c] == bit_of(b[k / 8], k % 8));
                assert(k / 8 == j && k % 8 == i);
            } else {
                assert(j == 3 && (i == 6 || i == 7));
                lemma_high_bits_zero(b[3]);
                assert(!bit_of(b[3], i));
                assert(!grid_bit(dv, k));
            }
            lemma_bit01(p, i as u8);
            lemma_bit01(b[j], i as u8);
        }
        lemma_u8_eq_from_bits_q(p, b[j]);
    }
    assert(encode_spec(dv) =~= b);
}

} // verus!
