//! The two checksums of the protocol: CRC-16/CCITT-FALSE over every frame and
//! CRC-32/ISO-HDLC over manifests and canonical parameter sets.

use vstd::prelude::*;

verus! {

/// One bit step of CRC-16/CCITT-FALSE (polynomial 0x1021, MSB first).
pub open spec fn crc16_bit(c: u16) -> u16 {
    if c & 0x8000u16 != 0 {
        (c << 1u16) ^ 0x1021u16
    } else {
        c << 1u16
    }
}

/// `n` bit steps of CRC-16/CCITT-FALSE.
pub open spec fn crc16_bits(c: u16, n: nat) -> u16
    decreases n,
{
    if n == 0 {
        c
    } else {
        crc16_bits(crc16_bit(c), (n - 1) as nat)
    }
}

/// Folds one byte into a CRC-16/CCITT-FALSE register.
pub open spec fn crc16_byte(c: u16, b: u8) -> u16 {
    crc16_bits(c ^ ((b as u16) << 8u16), 8)
}

/// Folds a byte sequence into a CRC-16/CCITT-FALSE register.
pub open spec fn crc16_fold(c: u16, s: Seq<u8>) -> u16
    decreases s.len(),
{
    if s.len() == 0 {
        c
    } else {
        crc16_byte(crc16_fold(c, s.drop_last()), s.last())
    }
}

/// CRC-16/CCITT-FALSE: initial value 0xFFFF, no reflection, no final xor.
pub open spec fn spec_crc16(s: Seq<u8>) -> u16 {
    crc16_fold(0xFFFFu16, s)
}

/// One bit step of the reflected CRC-32 (polynomial 0xEDB88320, LSB first).
pub open spec fn crc32_bit(c: u32) -> u32 {
    if c & 1u32 != 0 {
        (c >> 1u32) ^ 0xEDB8_8320u32
    } else {
        c >> 1u32
    }
}

/// `n` bit steps of the reflected CRC-32.
pub open spec fn crc32_bits(c: u32, n: nat) -> u32
    decreases n,
{
    if n == 0 {
        c
    } else {
        crc32_bits(crc32_bit(c), (n - 1) as nat)
    }
}

/// Folds one byte into a reflected CRC-32 register.
pub open spec fn crc32_byte(c: u32, b: u8) -> u32 {
    crc32_bits(c ^ (b as u32), 8)
}

/// Folds a byte sequence into a reflected CRC-32 register.
pub open spec fn crc32_fold(c: u32, s: Seq<u8>) -> u32
    decreases s.len(),
{
    if s.len() == 0 {
        c
    } else {
        crc32_byte(crc32_fold(c, s.drop_last()), s.last())
    }
}

/// CRC-32/ISO-HDLC: initial value 0xFFFFFFFF, reflected, final xor 0xFFFFFFFF.
pub open spec fn spec_crc32(s: Seq<u8>) -> u32 {
    crc32_fold(0xFFFF_FFFFu32, s) ^ 0xFFFF_FFFFu32
}

fn crc16_step_byte(crc: u16, byte: u8) -> (out: u16)
    ensures
        out == crc16_byte(crc, byte),
{
    let start: u16 = crc ^ ((byte as u16) << 8u16);
    let mut c: u16 = start;
    let mut k: u32 = 0;
    while k < 8
        invariant
            k <= 8,
            crc16_bits(c, (8 - k) as nat) == crc16_bits(start, 8),
            start == crc ^ ((byte as u16) << 8u16),
        decreases 8 - k,
    {
        c = if c & 0x8000u16 != 0 {
            (c << 1u16) ^ 0x1021u16
        } else {
            c << 1u16
        };
        k = k + 1;
    }
    c
}

fn crc32_step_byte(crc: u32, byte: u8) -> (out: u32)
    ensures
        out == crc32_byte(crc, byte),
{
    let start: u32 = crc ^ (byte as u32);
    let mut c: u32 = start;
    let mut k: u32 = 0;
    while k < 8
        invariant
            k <= 8,
            crc32_bits(c, (8 - k) as nat) == crc32_bits(start, 8),
            start == crc ^ (byte as u32),
        decreases 8 - k,
    {
        c = if c & 1u32 != 0 {
            (c >> 1u32) ^ 0xEDB8_8320u32
        } else {
            c >> 1u32
        };
        k = k + 1;
    }
    c
}

/// CRC-16/CCITT-FALSE of `data` (check value 0x29B1 over "123456789").
pub fn crc16_ccitt_false(data: &[u8]) -> (crc: u16)
    ensures
        crc == spec_crc16(data@),
{
    let mut crc: u16 = 0xFFFF;
    let mut i: usize = 0;
    while i < data.len()
        invariant
            i <= data@.len(),
            crc == crc16_fold(0xFFFFu16, data@.take(i as int)),
        decreases data@.len() - i,
    {
        proof {
            assert(data@.take(i + 1).drop_last() =~= data@.take(i as int));
        }
        crc = crc16_step_byte(crc, data[i]);
        i = i + 1;
    }
    proof {
        assert(data@.take(i as int) =~= data@);
    }
    crc
}

/// CRC-32/ISO-HDLC of `data` (check value 0xCBF43926 over "123456789").
pub fn crc32_iso_hdlc(data: &[u8]) -> (crc: u32)
    ensures
        crc == spec_crc32(data@),
{
    let mut crc: u32 = 0xFFFF_FFFF;
    let mut i: usize = 0;
    while i < data.len()
        invariant
            i <= data@.len(),
            crc == crc32_fold(0xFFFF_FFFFu32, data@.take(i as int)),
        decreases data@.len() - i,
    {
        proof {
            assert(data@.take(i + 1).drop_last() =~= data@.take(i as int));
        }
        crc = crc32_step_byte(crc, data[i]);
        i = i + 1;
    }
    proof {
        assert(data@.take(i as int) =~= data@);
    }
    crc ^ 0xFFFF_FFFF
}

} // verus!
