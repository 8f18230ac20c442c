//! CRC-32 over byte strings, reflected polynomial 0xEDB88320, caller-supplied
//! seed and no final inversion. This is the checksum the boot selector uses to
//! validate an otadata slot's sequence number.

use vstd::prelude::*;

verus! {

/// One shift round of the reflected CRC-32: `n` applications of the
/// shift-and-conditionally-xor step to `crc`.
pub open spec fn crc32_shift(crc: u32, n: nat) -> u32
    decreases n,
{
    if n == 0 {
        crc
    } else {
        let c = crc32_shift(crc, (n - 1) as nat);
        if c & 1 == 1 {
            (c >> 1) ^ 0xEDB88320u32
        } else {
            c >> 1
        }
    }
}

/// Folding one byte into the running CRC.
pub open spec fn crc32_byte(crc: u32, b: u8) -> u32 {
    crc32_shift(crc ^ (b as u32), 8)
}

/// CRC-32 of `data` starting from `seed`, bytes folded in order, without a
/// final xor.
pub open spec fn crc32_of(data: Seq<u8>, seed: u32) -> u32
    decreases data.len(),
{
    if data.len() == 0 {
        seed
    } else {
        crc32_byte(crc32_of(data.drop_last(), seed), data.last())
    }
}

/// Computes the CRC-32 of `data` with the given starting value.
pub fn calc_crc32(data: &[u8], seed: u32) -> (r: u32)
    ensures
        r == crc32_of(data@, seed),
{
    let mut crc: u32 = seed;
    let n: usize = data.len();
    assert(data@.take(0) =~= Seq::<u8>::empty());
    for i in 0..n
        invariant
            n == data@.len(),
            crc == crc32_of(data@.take(i as int), seed),
    {
        let b: u8 = data[i];
        let mut c: u32 = crc ^ (b as u32);
        let ghost c0 = c;
        let mut k: usize = 0;
        while k < 8
            invariant
                k <= 8,
                c == crc32_shift(c0, k as nat),
            decreases 8 - k,
        {
            if c & 1 == 1 {
                c = (c >> 1) ^ 0xEDB88320u32;
            } else {
                c = c >> 1;
            }
            k = k + 1;
        }
        proof {
            assert(data@.take(i + 1).drop_last() =~= data@.take(i as int));
            assert(data@.take(i + 1).last() == data@[i as int]);
        }
        crc = c;
    }
    proof {
        assert(data@.take(n as int) =~= data@);
    }
    crc
}

/// The CRC-32 of an erased word: four 0xFF bytes folded from seed
/// 0xFFFFFFFF give 0, so an erased otadata slot can never carry a valid
/// CRC for its (all-ones) sequence.
pub proof fn lemma_crc32_erased_word()
    ensures
        crc32_of(seq![0xFFu8, 0xFFu8, 0xFFu8, 0xFFu8], 0xFFFFFFFFu32) == 0u32,
{
    reveal_with_fuel(crc32_shift, 10);
    assert(0xFFFFFFFFu32 ^ 0xFFu32 == 0xFFFFFF00u32
        && 0xFFFFFF00u32 & 1u32 == 0u32 && 0xFFFFFF00u32 >> 1u32 == 0x7FFFFF80u32
        && 0x7FFFFF80u32 & 1u32 == 0u32 && 0x7FFFFF80u32 >> 1u32 == 0x3FFFFFC0u32
        && 0x3FFFFFC0u32 & 1u32 == 0u32 && 0x3FFFFFC0u32 >> 1u32 == 0x1FFFFFE0u32
        && 0x1FFFFFE0u32 & 1u32 == 0u32 && 0x1FFFFFE0u32 >> 1u32 == 0x0FFFFFF0u32
        && 0x0FFFFFF0u32 & 1u32 == 0u32 && 0x0FFFFFF0u32 >> 1u32 == 0x07FFFFF8u32
        && 0x07FFFFF8u32 & 1u32 == 0u32 && 0x07FFFFF8u32 >> 1u32 == 0x03FFFFFCu32
        && 0x03FFFFFCu32 & 1u32 == 0u32 && 0x03FFFFFCu32 >> 1u32 == 0x01FFFFFEu32
        && 0x01FFFFFEu32 & 1u32 == 0u32 && 0x01FFFFFEu32 >> 1u32 == 0x00FFFFFFu32)
        by (bit_vector);
    assert(crc32_byte(0xFFFFFFFFu32, 0xFFu8) == 0x00FFFFFFu32);
    assert(0x00FFFFFFu32 ^ 0xFFu32 == 0x00FFFF00u32
        && 0x00FFFF00u32 & 1u32 == 0u32 && 0x00FFFF00u32 >> 1u32 == 0x007FFF80u32
        && 0x007FFF80u32 & 1u32 == 0u32 && 0x007FFF80u32 >> 1u32 == 0x003FFFC0u32
        && 0x003FFFC0u32 & 1u32 == 0u32 && 0x003FFFC0u32 >> 1u32 == 0x001FFFE0u32
        && 0x001FFFE0u32 & 1u32 == 0u32 && 0x001FFFE0u32 >> 1u32 == 0x000FFFF0u32
        && 0x000FFFF0u32 & 1u32 == 0u32 && 0x000FFFF0u32 >> 1u32 == 0x0007FFF8u32
        && 0x0007FFF8u32 & 1u32 == 0u32 && 0x0007FFF8u32 >> 1u32 == 0x0003FFFCu32
        && 0x0003FFFCu32 & 1u32 == 0u32 && 0x0003FFFCu32 >> 1u32 == 0x0001FFFEu32
        && 0x0001FFFEu32 & 1u32 == 0u32 && 0x0001FFFEu32 >> 1u32 == 0x0000FFFFu32)
        by (bit_vector);
    assert(crc32_byte(0x00FFFFFFu32, 0xFFu8) == 0x0000FFFFu32);
    assert(0x0000FFFFu32 ^ 0xFFu32 == 0x0000FF00u32
        && 0x0000FF00u32 & 1u32 == 0u32 && 0x0000FF00u32 >> 1u32 == 0x00007F80u32
        && 0x00007F80u32 & 1u32 == 0u32 && 0x00007F80u32 >> 1u32 == 0x00003FC0u32
        && 0x00003FC0u32 & 1u32 == 0u32 && 0x00003FC0u32 >> 1u32 == 0x00001FE0u32
        && 0x00001FE0u32 & 1u32 == 0u32 && 0x00001FE0u32 >> 1u32 == 0x00000FF0u32
        && 0x00000FF0u32 & 1u32 == 0u32 && 0x00000FF0u32 >> 1u32 == 0x000007F8u32
        && 0x000007F8u32 & 1u32 == 0u32 && 0x000007F8u32 >> 1u32 == 0x000003FCu32
        && 0x000003FCu32 & 1u32 == 0u32 && 0x000003FCu32 >> 1u32 == 0x000001FEu32
        && 0x000001FEu32 & 1u32 == 0u32 && 0x000001FEu32 >> 1u32 == 0x000000FFu32)
        by (bit_vector);
    assert(crc32_byte(0x0000FFFFu32, 0xFFu8) == 0x000000FFu32);
    assert(0x000000FFu32 ^ 0xFFu32 == 0u32 && 0u32 & 1u32 == 0u32 && 0u32 >> 1u32 == 0u32)
        by (bit_vector);
    assert(crc32_byte(0x000000FFu32, 0xFFu8) == 0u32);
    let s = seq![0xFFu8, 0xFFu8, 0xFFu8, 0xFFu8];
    assert(s.drop_last() =~= seq![0xFFu8, 0xFFu8, 0xFFu8]);
    assert(seq![0xFFu8, 0xFFu8, 0xFFu8].drop_last() =~= seq![0xFFu8, 0xFFu8]);
    assert(seq![0xFFu8, 0xFFu8].drop_last() =~= seq![0xFFu8]);
    assert(seq![0xFFu8].drop_last() =~= Seq::<u8>::empty());
    assert(crc32_of(Seq::<u8>::empty(), 0xFFFFFFFFu32) == 0xFFFFFFFFu32);
    assert(crc32_of(seq![0xFFu8], 0xFFFFFFFFu32) == 0x00FFFFFFu32);
    assert(crc32_of(seq![0xFFu8, 0xFFu8], 0xFFFFFFFFu32) == 0x0000FFFFu32);
    assert(crc32_of(seq![0xFFu8, 0xFFu8, 0xFFu8], 0xFFFFFFFFu32) == 0x000000FFu32);
}

} // verus!
