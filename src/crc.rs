//! The CRC-16 of CCSDS packets: polynomial x^16 + x^12 + x^5 + 1, register
//! preset to all ones, bits fed most significant first.
use vstd::prelude::*;

verus! {

/// The generator polynomial without its x^16 term.
pub const POLYNOMIAL: u16 = 0x1021;

/// The value of the shift register before the first bit.
pub const PRESET: u16 = 0xffff;

/// One clock of the shift register: the input bit is XORed with the bit that
/// falls out, and when the result is one the polynomial is XORed in.
pub open spec fn crc_bit(reg: u16, bit: bool) -> u16 {
    let shifted = (reg << 1u16) as u16;
    if ((reg & 0x8000) != 0) != bit {
        shifted ^ POLYNOMIAL
    } else {
        shifted
    }
}

/// The register after the first `k` bits of `b`, most significant bit first.
pub open spec fn crc_bits(reg: u16, b: u8, k: nat) -> u16
    decreases k,
{
    if k == 0 {
        reg
    } else {
        crc_bit(crc_bits(reg, b, (k - 1) as nat), (b >> ((8 - k) as u8)) & 1 == 1)
    }
}

/// The CRC-16 of a byte sequence.
pub open spec fn crc16(s: Seq<u8>) -> u16
    decreases s.len(),
{
    if s.len() == 0 {
        PRESET
    } else {
        crc_bits(crc16(s.drop_last()), s.last(), 8)
    }
}

/// The CRC-16 of the first `size` bytes of `bytes`.
pub fn calculate16(bytes: &[u8], size: usize) -> (r: u16)
    requires
        size <= bytes@.len(),
    ensures
        r == crc16(bytes@.take(size as int)),
{
    let mut shift_reg: u16 = PRESET;
    let mut i: usize = 0;
    proof {
        assert(bytes@.take(0) =~= Seq::<u8>::empty());
    }
    while i < size
        invariant
            i <= size <= bytes@.len(),
            shift_reg == crc16(bytes@.take(i as int)),
        decreases size - i,
    {
        let next_byte = bytes[i];
        let ghost start = shift_reg;
        let mut bit_no: u8 = 8;
        while bit_no > 0
            invariant
                bit_no <= 8,
                shift_reg == crc_bits(start, next_byte, (8 - bit_no) as nat),
            decreases bit_no,
        {
            bit_no -= 1;
            let bit = (next_byte >> bit_no) & 1 == 1;
            let carry = (shift_reg & 0x8000) != 0;
            shift_reg = shift_reg << 1;
            if carry != bit {
                shift_reg = shift_reg ^ POLYNOMIAL;
            }
        }
        proof {
            assert(bytes@.take(i + 1).drop_last() =~= bytes@.take(i as int));
        }
        i += 1;
    }
    shift_reg
}

/// The CRC-16 of no bytes is the preset.
pub proof fn lemma_crc16_empty()
    ensures
        crc16(Seq::<u8>::empty()) == 0xffff,
{
}

} // verus!
