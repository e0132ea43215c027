use vstd::prelude::*;
use vstd::arithmetic::power2::{pow2, lemma_pow2_pos, lemma_pow2_unfold, lemma2_to64};
use crate::error::Grib1Error;

verus! {

/// Bit `i` of `buf`, read as one stream, most significant bit of each byte first.
pub open spec fn bit_at(buf: Seq<u8>, i: int) -> nat {
    ((buf[i / 8] >> ((7 - i % 8) as u8)) & 1u8) as nat
}

/// The unsigned value of the `w` bits of `buf` that start at bit `start`,
/// the first of them the most significant.
pub open spec fn bits_value(buf: Seq<u8>, start: int, w: nat) -> nat
    decreases w,
{
    if w == 0 {
        0
    } else {
        bits_value(buf, start, (w - 1) as nat) * 2 + bit_at(buf, start + w - 1)
    }
}

/// Whether `count` values of `width` bits can be read from `buf`: a width of
/// at most 32 bits, and enough bits in the buffer.
pub open spec fn unpack_fits(buf: Seq<u8>, width: nat, count: nat) -> bool {
    count == 0 || (width <= 32 && count * width <= buf.len() * 8)
}

/// The `k`-th packed value of `width` bits in `buf`.
pub open spec fn packed_value(buf: Seq<u8>, width: nat, k: int) -> nat {
    bits_value(buf, k * width, width)
}

proof fn lemma_bit_at_bound(buf: Seq<u8>, i: int)
    ensures
        bit_at(buf, i) <= 1,
{
    let x: u8 = buf[i / 8];
    let s: u8 = (7 - i % 8) as u8;
    assert((x >> s) & 1u8 <= 1u8) by (bit_vector);
}

/// A value read from `w` bits is below `2^w`.
pub proof fn lemma_bits_value_bound(buf: Seq<u8>, start: int, w: nat)
    ensures
        bits_value(buf, start, w) < pow2(w),
    decreases w,
{
    lemma_pow2_pos(w);
    if w > 0 {
        lemma_bits_value_bound(buf, start, (w - 1) as nat);
        lemma_pow2_unfold(w);
        lemma_bit_at_bound(buf, start + w - 1);
    }
}

/// Reads the `width` bits of `buf` that start at bit `pos`.
fn read_bits(buf: &[u8], pos: u64, width: u8) -> (r: u32)
    requires
        width <= 32,
        pos + width <= buf@.len() * 8,
        buf@.len() * 8 <= u64::MAX,
    ensures
        r as nat == bits_value(buf@, pos as int, width as nat),
{
    let mut v: u64 = 0;
    let mut j: u8 = 0;
    while j < width
        invariant
            j <= width <= 32,
            pos + width <= buf@.len() * 8,
            buf@.len() * 8 <= u64::MAX,
            v as nat == bits_value(buf@, pos as int, j as nat),
        decreases width - j,
    {
        let i: u64 = pos + j as u64;
        let byte = buf[(i / 8) as usize];
        let sh: u8 = 7 - (i % 8) as u8;
        let bit: u8 = (byte >> sh) & 1u8;
        proof {
            lemma_bits_value_bound(buf@, pos as int, j as nat);
            lemma2_to64();
            vstd::arithmetic::power2::lemma_pow2_strictly_increases(j as nat, 32);
            assert((byte >> sh) & 1u8 <= 1u8) by (bit_vector);
            assert(bit as nat == bit_at(buf@, pos + j));
        }
        v = v * 2 + bit as u64;
        j = j + 1;
    }
    proof {
        lemma_bits_value_bound(buf@, pos as int, width as nat);
        lemma2_to64();
        if width < 32 {
            vstd::arithmetic::power2::lemma_pow2_strictly_increases(width as nat, 32);
        }
    }
    v as u32
}

/// Reads `count` unsigned values of `width` bits each, packed back to back
/// from the first bit of `buf`. Fails when the buffer runs out first, or when
/// a value would not fit in 32 bits.
pub fn unpack_bits(buf: &[u8], width: u8, count: usize) -> (r: Result<Vec<u32>, Grib1Error>)
    requires
        buf@.len() * 8 <= u64::MAX,
    ensures
        match r {
            Ok(v) => unpack_fits(buf@, width as nat, count as nat) && v@.len() == count
                && (forall|k: int| 0 <= k < count ==> #[trigger] packed_value(buf@, width as nat, k)
                < pow2(width as nat))
                && forall|k: int| 0 <= k < count ==> #[trigger] v@[k] as nat == packed_value(
                    buf@, width as nat, k),
            Err(e) => !unpack_fits(buf@, width as nat, count as nat) && e == Grib1Error::DataDecodeFailed,
        },
{
    let total: u64 = buf.len() as u64 * 8;
    let mut out: Vec<u32> = Vec::new();
    let mut pos: u64 = 0;
    let mut k: usize = 0;
    while k < count
        invariant
            total == buf@.len() * 8,
            k <= count,
            out@.len() == k,
            pos == k * width,
            pos <= total,
            k > 0 ==> width <= 32,
            forall|q: int| 0 <= q < k ==> #[trigger] out@[q] as nat == packed_value(
                buf@, width as nat, q),
            forall|q: int| 0 <= q < k ==> #[trigger] packed_value(buf@, width as nat, q) < pow2(
                width as nat),
        decreases count - k,
    {
        if width > 32 || total - pos < width as u64 {
            proof {
                if width <= 32 {
                    assert(count * width >= (k + 1) * width) by (nonlinear_arith)
                        requires k + 1 <= count;
                    assert((k + 1) * width == k * width + width) by (nonlinear_arith);
                }
            }
            return Err(Grib1Error::DataDecodeFailed);
        }
        let x = read_bits(buf, pos, width);
        proof {
            lemma_bits_value_bound(buf@, pos as int, width as nat);
            assert((k + 1) * width == k * width + width) by (nonlinear_arith);
        }
        out.push(x);
        pos = pos + width as u64;
        k = k + 1;
    }
    Ok(out)
}

} // verus!
