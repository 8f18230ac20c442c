//! Boot-selector (otadata) slots. Two 32-byte slots hold a sequence number,
//! an image state and a CRC-32 of the sequence; the bootloader boots the OTA
//! partition derived from the highest sequence whose CRC is valid.

use vstd::prelude::*;
use vstd::arithmetic::div_mod::{
    lemma_add_mod_noop, lemma_mod_division_less_than_divisor, lemma_mod_multiples_vanish,
};
use crate::crc32::{calc_crc32, crc32_of};

verus! {

/// The four little-endian bytes of a 32-bit word.
pub open spec fn u32_le(x: u32) -> Seq<u8> {
    seq![
        (x & 0xff) as u8,
        ((x >> 8) & 0xff) as u8,
        ((x >> 16) & 0xff) as u8,
        ((x >> 24) & 0xff) as u8,
    ]
}

/// The 32-bit word four little-endian bytes stand for.
pub open spec fn u32_of_le(s: Seq<u8>) -> u32
    recommends
        s.len() == 4,
{
    (s[0] as u32) | (s[1] as u32) << 8 | (s[2] as u32) << 16 | (s[3] as u32) << 24
}

/// Reading back the bytes of a word gives the word.
pub proof fn lemma_u32_le_inverse(x: u32)
    ensures
        u32_of_le(u32_le(x)) == x,
{
    assert(x & 0xff < 256 && (x >> 8) & 0xff < 256 && (x >> 16) & 0xff < 256 && (x >> 24) & 0xff
        < 256) by (bit_vector);
    assert(((x & 0xff) as u8) as u32 == x & 0xff);
    assert((((x >> 8) & 0xff) as u8) as u32 == (x >> 8) & 0xff);
    assert((((x >> 16) & 0xff) as u8) as u32 == (x >> 16) & 0xff);
    assert((((x >> 24) & 0xff) as u8) as u32 == (x >> 24) & 0xff);
    assert((x & 0xff) | (((x >> 8) & 0xff) << 8) | (((x >> 16) & 0xff) << 16) | (((x >> 24)
        & 0xff) << 24) == x) by (bit_vector);
}

/// Encodes a 32-bit word as its four little-endian bytes.
pub fn u32_le_bytes(x: u32) -> (r: Vec<u8>)
    ensures
        r@ == u32_le(x),
{
    proof {
        assert(x & 0xff < 256 && (x >> 8) & 0xff < 256 && (x >> 16) & 0xff < 256 && (x >> 24)
            & 0xff < 256) by (bit_vector);
    }
    let mut r: Vec<u8> = Vec::new();
    r.push((x & 0xff) as u8);
    r.push(((x >> 8) & 0xff) as u8);
    r.push(((x >> 16) & 0xff) as u8);
    r.push(((x >> 24) & 0xff) as u8);
    proof {
        assert(r@ =~= u32_le(x));
    }
    r
}

/// Decodes four little-endian bytes into a 32-bit word.
pub fn u32_of_le_bytes(s: &[u8]) -> (r: u32)
    requires
        s@.len() == 4,
    ensures
        r == u32_of_le(s@),
{
    let b0: u32 = s[0] as u32;
    let b1: u32 = s[1] as u32;
    let b2: u32 = s[2] as u32;
    let b3: u32 = s[3] as u32;
    b0 | b1 << 8 | b2 << 16 | b3 << 24
}

/// State word of an application image as stored in an otadata slot.
#[derive(Debug, Clone, Copy, PartialEq, Eq, Structural)]
pub enum OtaImgState {
    EspOtaImgNew,
    EspOtaImgPendingVerify,
    EspOtaImgValid,
    EspOtaImgInvalid,
    EspOtaImgAborted,
    EspOtaImgUndefined,
}

/// The 32-bit code that stands for an image state on flash.
pub open spec fn spec_state_code(s: OtaImgState) -> u32 {
    match s {
        OtaImgState::EspOtaImgNew => 0u32,
        OtaImgState::EspOtaImgPendingVerify => 1u32,
        OtaImgState::EspOtaImgValid => 2u32,
        OtaImgState::EspOtaImgInvalid => 3u32,
        OtaImgState::EspOtaImgAborted => 4u32,
        OtaImgState::EspOtaImgUndefined => 0xFFFFFFFFu32,
    }
}

/// The image state a 32-bit code stands for; every unassigned code reads as
/// `EspOtaImgUndefined`.
pub open spec fn spec_state_of_code(c: u32) -> OtaImgState {
    if c == 0 {
        OtaImgState::EspOtaImgNew
    } else if c == 1 {
        OtaImgState::EspOtaImgPendingVerify
    } else if c == 2 {
        OtaImgState::EspOtaImgValid
    } else if c == 3 {
        OtaImgState::EspOtaImgInvalid
    } else if c == 4 {
        OtaImgState::EspOtaImgAborted
    } else {
        OtaImgState::EspOtaImgUndefined
    }
}

/// Encodes an image state as its on-flash 32-bit code.
pub fn state_code(s: OtaImgState) -> (r: u32)
    ensures
        r == spec_state_code(s),
{
    match s {
        OtaImgState::EspOtaImgNew => 0u32,
        OtaImgState::EspOtaImgPendingVerify => 1u32,
        OtaImgState::EspOtaImgValid => 2u32,
        OtaImgState::EspOtaImgInvalid => 3u32,
        OtaImgState::EspOtaImgAborted => 4u32,
        OtaImgState::EspOtaImgUndefined => 0xFFFFFFFFu32,
    }
}

/// Decodes an on-flash 32-bit code into an image state.
pub fn state_of_code(c: u32) -> (r: OtaImgState)
    ensures
        r == spec_state_of_code(c),
{
    if c == 0 {
        OtaImgState::EspOtaImgNew
    } else if c == 1 {
        OtaImgState::EspOtaImgPendingVerify
    } else if c == 2 {
        OtaImgState::EspOtaImgValid
    } else if c == 3 {
        OtaImgState::EspOtaImgInvalid
    } else if c == 4 {
        OtaImgState::EspOtaImgAborted
    } else {
        OtaImgState::EspOtaImgUndefined
    }
}

/// One boot-selector slot as read from flash.
#[derive(Debug, Clone, Copy, PartialEq, Eq, Structural)]
pub struct EspOtaSelectEntry {
    pub seq: u32,
    pub ota_state: OtaImgState,
    pub crc: u32,
}

/// A slot's CRC field is valid exactly when it equals the CRC-32 of the
/// little-endian sequence bytes, seeded with 0xFFFFFFFF.
pub open spec fn slot_crc_ok(seq: u32, crc: u32) -> bool {
    crc == crc32_of(u32_le(seq), 0xFFFFFFFFu32)
}

/// Checks the CRC of a sequence number read from a slot.
pub fn is_crc_seq_correct(seq: u32, crc: u32) -> (r: bool)
    ensures
        r == slot_crc_ok(seq, crc),
{
    let bytes: Vec<u8> = u32_le_bytes(seq);
    let crc_calc: u32 = calc_crc32(bytes.as_slice(), 0xFFFFFFFFu32);
    crc == crc_calc
}

/// Returns the sequence read from `seq` (4 little-endian bytes) when `crc`
/// matches it, and `default` otherwise.
pub fn seq_or_default(seq: &[u8], crc: u32, default: u32) -> (r: u32)
    requires
        seq@.len() == 4,
    ensures
        crc == crc32_of(seq@, 0xFFFFFFFFu32) ==> r == u32_of_le(seq@),
        crc != crc32_of(seq@, 0xFFFFFFFFu32) ==> r == default,
{
    let crc_calc: u32 = calc_crc32(seq, 0xFFFFFFFFu32);
    if crc == crc_calc {
        u32_of_le_bytes(seq)
    } else {
        default
    }
}

/// The effective sequence of a slot: its stored sequence when the CRC is
/// valid, and 0 otherwise.
pub open spec fn effective_seq(seq: u32, crc: u32) -> u32 {
    if slot_crc_ok(seq, crc) {
        seq
    } else {
        0u32
    }
}

/// The OTA partition a sequence number selects: `(seq - 1) mod count`, with
/// sequence 0 (unconfigured) mapping to partition 0.
pub open spec fn spec_seq_to_part(seq: u32, ota_count: nat) -> nat
    recommends
        ota_count > 0,
{
    if seq == 0 {
        0
    } else {
        ((seq - 1) as nat) % ota_count
    }
}

/// Maps a boot sequence number to the OTA partition index it selects.
pub fn seq_to_part(seq: u32, ota_count: usize) -> (r: usize)
    requires
        ota_count > 0,
    ensures
        r == spec_seq_to_part(seq, ota_count as nat),
{
    if seq == 0 {
        0
    } else {
        (((seq - 1) as usize) % ota_count) as usize
    }
}

impl EspOtaSelectEntry {
    /// Forces the sequence to 0 when the stored CRC does not match it, so
    /// that the other slot wins the boot selection.
    pub fn check_crc(&mut self)
        ensures
            final(self).seq == effective_seq(old(self).seq, old(self).crc),
            final(self).ota_state == old(self).ota_state,
            final(self).crc == old(self).crc,
    {
        if !is_crc_seq_correct(self.seq, self.crc) {
            self.seq = 0;
        }
    }
}

/// The 32 on-flash bytes of a slot holding sequence `seq`, state code
/// `state` and CRC `crc`: sequence, a 20-byte 0xFF-filled label, state, CRC,
/// all little-endian.
pub open spec fn slot_bytes(seq: u32, state: u32, crc: u32) -> Seq<u8> {
    u32_le(seq) + Seq::new(20nat, |i: int| 0xFFu8) + u32_le(state) + u32_le(crc)
}

/// The slot value encoded by 32 on-flash bytes, CRC not yet checked.
pub open spec fn spec_decode_slot(b: Seq<u8>) -> EspOtaSelectEntry
    recommends
        b.len() == 32,
{
    EspOtaSelectEntry {
        seq: u32_of_le(b.subrange(0, 4)),
        ota_state: spec_state_of_code(u32_of_le(b.subrange(24, 28))),
        crc: u32_of_le(b.subrange(28, 32)),
    }
}

/// Builds the 32 on-flash bytes of a slot.
pub fn encode_slot(seq: u32, state: OtaImgState) -> (r: Vec<u8>)
    ensures
        r@ == slot_bytes(seq, spec_state_code(state), crc32_of(u32_le(seq), 0xFFFFFFFFu32)),
        r@.len() == 32,
{
    let seq_bytes: Vec<u8> = u32_le_bytes(seq);
    let crc: u32 = calc_crc32(seq_bytes.as_slice(), 0xFFFFFFFFu32);
    let state_bytes: Vec<u8> = u32_le_bytes(state_code(state));
    let crc_bytes: Vec<u8> = u32_le_bytes(crc);
    let mut out: Vec<u8> = Vec::new();
    let mut i: usize = 0;
    while i < 4
        invariant
            i <= 4,
            out@ =~= seq_bytes@.take(i as int),
            seq_bytes@.len() == 4,
        decreases 4 - i,
    {
        out.push(seq_bytes[i]);
        i = i + 1;
    }
    let mut j: usize = 0;
    while j < 20
        invariant
            j <= 20,
            seq_bytes@.len() == 4,
            out@ =~= seq_bytes@ + Seq::new(j as nat, |k: int| 0xFFu8),
        decreases 20 - j,
    {
        out.push(0xFFu8);
        j = j + 1;
    }
    let mut k: usize = 0;
    while k < 4
        invariant
            k <= 4,
            seq_bytes@.len() == 4,
            state_bytes@.len() == 4,
            out@ =~= seq_bytes@ + Seq::new(20nat, |t: int| 0xFFu8) + state_bytes@.take(k as int),
        decreases 4 - k,
    {
        out.push(state_bytes[k]);
        k = k + 1;
    }
    let mut m: usize = 0;
    while m < 4
        invariant
            m <= 4,
            seq_bytes@.len() == 4,
            state_bytes@.len() == 4,
            crc_bytes@.len() == 4,
            out@ =~= seq_bytes@ + Seq::new(20nat, |t: int| 0xFFu8) + state_bytes@
                + crc_bytes@.take(m as int),
        decreases 4 - m,
    {
        out.push(crc_bytes[m]);
        m = m + 1;
    }
    proof {
        assert(out@ =~= slot_bytes(seq, spec_state_code(state), crc32_of(u32_le(seq), 0xFFFFFFFFu32)));
    }
    out
}

/// Reads a slot out of 32 on-flash bytes and validates its CRC, so that the
/// returned sequence is the effective one.
pub fn decode_slot_checked(b: &[u8]) -> (r: EspOtaSelectEntry)
    requires
        b@.len() == 32,
    ensures
        r.seq == effective_seq(
            spec_decode_slot(b@).seq,
            spec_decode_slot(b@).crc,
        ),
        r.ota_state == spec_decode_slot(b@).ota_state,
        r.crc == spec_decode_slot(b@).crc,
{
    let seq_slice: &[u8] = vstd::slice::slice_subrange(b, 0, 4);
    let state_slice: &[u8] = vstd::slice::slice_subrange(b, 24, 28);
    let crc_slice: &[u8] = vstd::slice::slice_subrange(b, 28, 32);
    let mut entry: EspOtaSelectEntry = EspOtaSelectEntry {
        seq: u32_of_le_bytes(seq_slice),
        ota_state: state_of_code(u32_of_le_bytes(state_slice)),
        crc: u32_of_le_bytes(crc_slice),
    };
    entry.check_crc();
    entry
}

/// Holds when sequence `t` selects partition `target` out of `n`.
pub open spec fn seq_selects(t: int, target: int, n: int) -> bool {
    (t - 1) % n == target
}

/// Holds when `s` is the boot sequence the selector writes for a new target:
/// the smallest sequence not below `m` (and not below 1) that selects
/// partition `target` out of `n`.
pub open spec fn is_next_boot_seq(s: u32, m: u32, target: u32, n: u32) -> bool {
    &&& s >= 1
    &&& s >= m
    &&& seq_selects(s as int, target as int, n as int)
    &&& forall|t: int| m <= t < s && t >= 1 ==> !#[trigger] seq_selects(t, target as int, n as int)
}

/// There is exactly one such sequence.
pub proof fn lemma_next_boot_seq_unique(s1: u32, s2: u32, m: u32, target: u32, n: u32)
    requires
        n > 0,
        is_next_boot_seq(s1, m, target, n),
        is_next_boot_seq(s2, m, target, n),
    ensures
        s1 == s2,
{
    if s1 < s2 {
        assert(!seq_selects(s1 as int, target as int, n as int));
    } else if s2 < s1 {
        assert(!seq_selects(s2 as int, target as int, n as int));
    }
}

/// Computes the boot sequence for a new target partition: the smallest
/// sequence at least `max_seq` (and positive) with `(s - 1) mod n == target`.
pub fn next_boot_seq(max_seq: u32, target: u32, n: u32) -> (s: u32)
    requires
        0 < n <= 0x7FFFFFFF,
        target < n,
        max_seq <= u32::MAX - n,
    ensures
        is_next_boot_seq(s, max_seq, target, n),
{
    let m1: u32 = if max_seq == 0 { 1 } else { max_seq };
    let rem: u32 = (m1 - 1) % n;
    proof {
        lemma_mod_division_less_than_divisor((m1 - 1) as int, n as int);
    }
    let k: u32 = if target >= rem { target - rem } else { target + n - rem };
    let s: u32 = m1 + k;
    proof {
        let ni = n as int;
        let base = (m1 - 1) as int;
        assert(base % ni == rem as int);
        // (s - 1) % n == target: s - 1 = base + k and k ≡ target - rem (mod n).
        lemma_add_mod_noop(base, k as int, ni);
        assert((base + k) % ni == ((rem as int) + (k as int % ni)) % ni);
        if target >= rem {
            vstd::arithmetic::div_mod::lemma_small_mod(k as nat, n as nat);
            vstd::arithmetic::div_mod::lemma_small_mod(target as nat, n as nat);
            assert(((rem as int) + (k as int)) == target as int);
        } else {
            vstd::arithmetic::div_mod::lemma_small_mod(k as nat, n as nat);
            assert(((rem as int) + (k as int)) == target as int + ni);
            lemma_mod_multiples_vanish(1, target as int, ni);
            vstd::arithmetic::div_mod::lemma_small_mod(target as nat, n as nat);
        }
        assert(((s - 1) as int) % ni == target as int);
        assert(seq_selects(s as int, target as int, ni));
        // Minimality: every t with max_seq <= t < s misses the target residue.
        assert forall|t: int| max_seq <= t < s && t >= 1 implies !seq_selects(
            t,
            target as int,
            ni,
        ) by {
            assert(t >= m1);
            let j = t - 1 - base;
            assert(0 <= j < k);
            lemma_add_mod_noop(base, j, ni);
            vstd::arithmetic::div_mod::lemma_small_mod(j as nat, n as nat);
            assert((t - 1) % ni == ((rem as int) + j) % ni);
            if rem + j < ni {
                vstd::arithmetic::div_mod::lemma_small_mod((rem + j) as nat, n as nat);
            } else {
                lemma_mod_multiples_vanish(1, (rem as int) + j - ni, ni);
                vstd::arithmetic::div_mod::lemma_small_mod(((rem as int) + j - ni) as nat, n as nat);
            }
        }
    }
    s
}

/// The sequence the selector would write a second time for the same target is
/// the one it wrote the first time: re-running the computation on the slots
/// just written is a fixed point, so two consecutive writes for one target
/// produce identical otadata bytes.
pub proof fn lemma_next_boot_seq_idempotent(s: u32, m: u32, target: u32, n: u32)
    requires
        n > 0,
        is_next_boot_seq(s, m, target, n),
    ensures
        is_next_boot_seq(s, s, target, n),
        forall|s2: u32| #[trigger] is_next_boot_seq(s2, s, target, n) ==> s2 == s,
{
    assert(is_next_boot_seq(s, s, target, n));
    assert forall|s2: u32| #[trigger] is_next_boot_seq(s2, s, target, n) implies s2 == s by {
        lemma_next_boot_seq_unique(s2, s, s, target, n);
    }
}

/// After the selector writes sequence `s` for `target`, the slot holding `s`
/// has a valid CRC and the highest effective sequence, so the bootloader's
/// selection rule boots partition `target`.
pub proof fn lemma_pending_selects_target(s: u32, m: u32, target: u32, n: u32)
    requires
        n > 0,
        is_next_boot_seq(s, m, target, n),
    ensures
        spec_seq_to_part(s, n as nat) == target as nat,
{
    assert(s >= 1);
    assert(((s - 1) as nat) % (n as nat) == ((s - 1) as int % (n as int)));
}

} // verus!
