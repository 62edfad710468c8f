//! The checks of the transfer protocols: the XMODEM checksum, CRC-16/XMODEM and CRC-32.

use vstd::prelude::*;

verus! {

/// Sum of the bytes modulo 256: the one-byte check of classic XMODEM.
pub open spec fn checksum_of(s: Seq<u8>) -> u8
    decreases s.len(),
{
    if s.len() == 0 {
        0
    } else {
        ((checksum_of(s.drop_last()) as int + s.last() as int) % 256) as u8
    }
}

pub fn checksum(data: &[u8]) -> (r: u8)
    ensures
        r == checksum_of(data@),
{
    let mut sum: u8 = 0;
    let mut i: usize = 0;
    while i < data.len()
        invariant
            i <= data@.len(),
            sum == checksum_of(data@.subrange(0, i as int)),
        decreases data@.len() - i,
    {
        proof {
            assert(data@.subrange(0, i as int + 1).drop_last() == data@.subrange(0, i as int));
        }
        sum = sum.wrapping_add(data[i]);
        i += 1;
    }
    proof {
        assert(data@.subrange(0, data@.len() as int) == data@);
    }
    sum
}


/// One step of the CRC-16/XMODEM register (polynomial 0x1021, most significant bit first).
pub open spec fn crc16_shift(c: u16) -> u16 {
    if c & 0x8000 != 0 {
        ((c << 1u16) ^ 0x1021u16) as u16
    } else {
        (c << 1u16) as u16
    }
}

/// The CRC-16 register after `n` shifts.
pub open spec fn crc16_bits(c: u16, n: nat) -> u16
    decreases n,
{
    if n == 0 {
        c
    } else {
        crc16_shift(crc16_bits(c, (n - 1) as nat))
    }
}

/// The CRC-16 register after taking in one byte.
pub open spec fn crc16_byte(c: u16, b: u8) -> u16 {
    crc16_bits(c ^ ((b as u16) << 8u16), 8)
}

/// CRC-16/XMODEM of a byte string: initial value 0, no reflection, no final xor.
pub open spec fn crc16_of(s: Seq<u8>) -> u16
    decreases s.len(),
{
    if s.len() == 0 {
        0
    } else {
        crc16_byte(crc16_of(s.drop_last()), s.last())
    }
}

/// One step of the reflected CRC-32 register (polynomial 0xEDB88320).
pub open spec fn crc32_shift(c: u32) -> u32 {
    if c & 1 != 0 {
        (c >> 1u32) ^ 0xEDB8_8320u32
    } else {
        c >> 1u32
    }
}

/// The CRC-32 register after `n` shifts.
pub open spec fn crc32_bits(c: u32, n: nat) -> u32
    decreases n,
{
    if n == 0 {
        c
    } else {
        crc32_shift(crc32_bits(c, (n - 1) as nat))
    }
}

/// The CRC-32 register after taking in one byte.
pub open spec fn crc32_byte(c: u32, b: u8) -> u32 {
    crc32_bits(c ^ (b as u32), 8)
}

/// The CRC-32 register after a byte string, starting from all ones.
pub open spec fn crc32_register(s: Seq<u8>) -> u32
    decreases s.len(),
{
    if s.len() == 0 {
        0xFFFF_FFFF
    } else {
        crc32_byte(crc32_register(s.drop_last()), s.last())
    }
}

/// CRC-32 (IEEE 802.3, as ZMODEM uses it): the register inverted at the end.
pub open spec fn crc32_of(s: Seq<u8>) -> u32 {
    crc32_register(s) ^ 0xFFFF_FFFFu32
}

fn crc16_step(c: u16, b: u8) -> (r: u16)
    ensures
        r == crc16_byte(c, b),
{
    let mut reg: u16 = c ^ ((b as u16) << 8u16);
    let ghost start = reg;
    let mut j: u32 = 0;
    while j < 8
        invariant
            j <= 8,
            start == c ^ ((b as u16) << 8u16),
            reg == crc16_bits(start, j as nat),
        decreases 8 - j,
    {
        if reg & 0x8000 != 0 {
            reg = (reg << 1u16) ^ 0x1021u16;
        } else {
            reg = reg << 1u16;
        }
        j += 1;
    }
    reg
}

/// CRC-16/XMODEM, the check of XMODEM-CRC, YMODEM and ZMODEM's 16-bit frames.
pub fn crc16(data: &[u8]) -> (r: u16)
    ensures
        r == crc16_of(data@),
{
    let mut c: u16 = 0;
    let mut i: usize = 0;
    while i < data.len()
        invariant
            i <= data@.len(),
            c == crc16_of(data@.subrange(0, i as int)),
        decreases data@.len() - i,
    {
        proof {
            assert(data@.subrange(0, i as int + 1).drop_last() == data@.subrange(0, i as int));
        }
        c = crc16_step(c, data[i]);
        i += 1;
    }
    proof {
        assert(data@.subrange(0, data@.len() as int) == data@);
    }
    c
}

fn crc32_step(c: u32, b: u8) -> (r: u32)
    ensures
        r == crc32_byte(c, b),
{
    let mut reg: u32 = c ^ (b as u32);
    let ghost start = reg;
    let mut j: u32 = 0;
    while j < 8
        invariant
            j <= 8,
            start == c ^ (b as u32),
            reg == crc32_bits(start, j as nat),
        decreases 8 - j,
    {
        if reg & 1 != 0 {
            reg = (reg >> 1u32) ^ 0xEDB8_8320u32;
        } else {
            reg = reg >> 1u32;
        }
        j += 1;
    }
    reg
}

/// CRC-32, the check of ZMODEM's 32-bit frames and data subpackets.
pub fn crc32(data: &[u8]) -> (r: u32)
    ensures
        r == crc32_of(data@),
{
    let mut c: u32 = 0xFFFF_FFFF;
    let mut i: usize = 0;
    while i < data.len()
        invariant
            i <= data@.len(),
            c == crc32_register(data@.subrange(0, i as int)),
        decreases data@.len() - i,
    {
        proof {
            assert(data@.subrange(0, i as int + 1).drop_last() == data@.subrange(0, i as int));
        }
        c = crc32_step(c, data[i]);
        i += 1;
    }
    proof {
        assert(data@.subrange(0, data@.len() as int) == data@);
    }
    c ^ 0xFFFF_FFFF
}

} // verus!
