use vstd::prelude::*;

verus! {

/// Unsigned big-endian value of the two bytes at `i`.
pub open spec fn u16_be(b: Seq<u8>, i: int) -> nat {
    (b[i] as nat) * 256 + (b[i + 1] as nat)
}

/// Unsigned big-endian value of the three bytes at `i`.
pub open spec fn u24_be(b: Seq<u8>, i: int) -> nat {
    (b[i] as nat) * 65536 + (b[i + 1] as nat) * 256 + (b[i + 2] as nat)
}

/// Sign-magnitude value of the two bytes at `i`: the top bit is the sign,
/// the other fifteen bits the magnitude.
pub open spec fn i16_sm(b: Seq<u8>, i: int) -> int {
    let mag = (b[i] as int % 128) * 256 + (b[i + 1] as int);
    if b[i] >= 128 {
        -mag
    } else {
        mag
    }
}

/// Sign-magnitude value of the three bytes at `i`: the top bit is the sign,
/// the other twenty-three bits the magnitude.
pub open spec fn i24_sm(b: Seq<u8>, i: int) -> int {
    let mag = (b[i] as int % 128) * 65536 + (b[i + 1] as int) * 256 + (b[i + 2] as int);
    if b[i] >= 128 {
        -mag
    } else {
        mag
    }
}

pub fn read_u16_be(array: &[u8]) -> (r: u16)
    requires
        array@.len() >= 2,
    ensures
        r as nat == u16_be(array@, 0),
{
    (array[0] as u16) * 256 + (array[1] as u16)
}

pub fn read_u24_be(array: &[u8]) -> (r: u32)
    requires
        array@.len() >= 3,
    ensures
        r as nat == u24_be(array@, 0),
{
    (array[0] as u32) * 65536 + (array[1] as u32) * 256 + (array[2] as u32)
}

pub fn read_i16_be(array: &[u8]) -> (r: i16)
    requires
        array@.len() >= 2,
    ensures
        r as int == i16_sm(array@, 0),
{
    let val: i16 = ((array[0] % 128) as i16) * 256 + (array[1] as i16);
    if array[0] >= 128 {
        -val
    } else {
        val
    }
}

pub fn read_i24_be(array: &[u8]) -> (r: i32)
    requires
        array@.len() >= 3,
    ensures
        r as int == i24_sm(array@, 0),
{
    let val: i32 = ((array[0] % 128) as i32) * 65536 + (array[1] as i32) * 256 + (array[2] as i32);
    if array[0] >= 128 {
        -val
    } else {
        val
    }
}

/// An IBM System/360 single-precision number, kept as its three parts.
/// Its value is `sign * mantissa * 2^-24 * 16^(exponent - 64)`.
#[derive(Debug, Clone, Copy, PartialEq, Eq)]
pub struct IbmFloat {
    pub negative: bool,
    /// Base-16 exponent with a bias of 64, below 128.
    pub exponent: u8,
    /// Twenty-four bit fraction, below 2^24.
    pub mantissa: u32,
}

impl IbmFloat {
    pub open spec fn wf(&self) -> bool {
        self.exponent < 128 && self.mantissa < 0x100_0000
    }
}

/// The parts of the IBM float held in the four bytes at `i`.
pub open spec fn ibm_spec(b: Seq<u8>, i: int) -> IbmFloat {
    IbmFloat {
        negative: b[i] >= 128,
        exponent: (b[i] % 128) as u8,
        mantissa: u24_be(b, i + 1) as u32,
    }
}

/// Splits four bytes into the sign, exponent and mantissa of an IBM float.
pub fn read_f32_ibm(data: &[u8]) -> (r: IbmFloat)
    requires
        data@.len() >= 4,
    ensures
        r == ibm_spec(data@, 0),
        r.wf(),
{
    let mantissa = (data[1] as u32) * 65536 + (data[2] as u32) * 256 + (data[3] as u32);
    IbmFloat { negative: data[0] >= 128, exponent: data[0] % 128, mantissa }
}

} // verus!
