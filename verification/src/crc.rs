//! CRC-32 (the polynomial used by PNG), bit by bit, reflected form.
//! The cache writes metadata chunks into PNG streams, and every chunk
//! carries this checksum over its type and data bytes.
use vstd::prelude::*;

verus! {

/// One shift-and-conditionally-xor step of the reflected CRC-32 polynomial.
pub open spec fn crc32_step(c: u32) -> u32 {
    if c & 1 == 1 {
        (c >> 1u32) ^ 0xEDB8_8320u32
    } else {
        c >> 1u32
    }
}

/// `n` successive CRC-32 steps applied to `c`.
pub open spec fn crc32_steps(c: u32, n: nat) -> u32
    decreases n,
{
    if n == 0 {
        c
    } else {
        crc32_step(crc32_steps(c, (n - 1) as nat))
    }
}

/// Folds one byte into a running CRC-32 state.
pub open spec fn crc32_byte(c: u32, b: u8) -> u32 {
    crc32_steps(c ^ (b as u32), 8)
}

/// Folds a byte string into a running CRC-32 state, front to back.
pub open spec fn crc32_accum(c: u32, s: Seq<u8>) -> u32
    decreases s.len(),
{
    if s.len() == 0 {
        c
    } else {
        crc32_accum(crc32_byte(c, s[0]), s.drop_first())
    }
}

/// The CRC-32 checksum of a byte string, as PNG stores it.
pub open spec fn crc32_of(s: Seq<u8>) -> u32 {
    crc32_accum(0xFFFF_FFFFu32, s) ^ 0xFFFF_FFFFu32
}

/// Computes the CRC-32 checksum of `s`.
pub fn crc32_bytes(s: &[u8]) -> (r: u32)
    ensures
        r == crc32_of(s@),
{
    let mut c: u32 = 0xFFFF_FFFF;
    let mut i: usize = 0;
    proof {
        assert(s@.subrange(0, s@.len() as int) =~= s@);
    }
    while i < s.len()
        invariant
            i <= s@.len(),
            crc32_accum(c, s@.subrange(i as int, s@.len() as int)) == crc32_accum(
                0xFFFF_FFFFu32,
                s@,
            ),
        decreases s@.len() - i,
    {
        let ghost rest = s@.subrange(i as int, s@.len() as int);
        let mut b: u32 = c ^ (s[i] as u32);
        let ghost b0 = b;
        let mut k: usize = 0;
        while k < 8
            invariant
                k <= 8,
                b == crc32_steps(b0, k as nat),
            decreases 8 - k,
        {
            b = if b & 1 == 1 {
                (b >> 1u32) ^ 0xEDB8_8320u32
            } else {
                b >> 1u32
            };
            k = k + 1;
        }
        proof {
            assert(b == crc32_byte(c, s@[i as int]));
            assert(rest.drop_first() =~= s@.subrange(i + 1, s@.len() as int));
            assert(crc32_accum(c, rest) == crc32_accum(crc32_byte(c, rest[0]), rest.drop_first()));
        }
        c = b;
        i = i + 1;
    }
    proof {
        assert(s@.subrange(s@.len() as int, s@.len() as int) =~= Seq::<u8>::empty());
    }
    c ^ 0xFFFF_FFFF
}

} // verus!
