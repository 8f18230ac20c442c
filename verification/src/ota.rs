//! The OTA engine: reads the partition table, streams a new image into the
//! next OTA slot while hashing it, verifies it, and drives the otadata boot
//! selector for activation, confirmation and rollback.

use vstd::prelude::*;
use crate::crc32::crc32_of;
use crate::bytesutil::eq_bytes;
use crate::flashdev::{store_bytes, FlashMedia};
use crate::hexutil::{decode_hex, hex_ok, spec_hex_decode};
use crate::otadata::{
    decode_slot_checked, effective_seq, encode_slot, is_next_boot_seq, lemma_u32_le_inverse,
    next_boot_seq, seq_to_part, slot_bytes, spec_decode_slot, spec_seq_to_part, spec_state_code,
    spec_state_of_code, state_code, u32_le, u32_le_bytes, u32_of_le, EspOtaSelectEntry, OtaImgState,
};
use crate::partitions::{lemma_scan_ota_len, read_partitions, scan_table, OtaError, PartitionInfo};
use crate::sha256::{sha256_of, sha_absorbed, ShaStream};

verus! {

/// Flash offset of the partition table.
pub const PART_OFFSET: u32 = 0x8000;

/// Size of the partition table in bytes.
pub const PART_SIZE: u32 = 0xC00;

/// Read granularity of `ota_verify`.
pub const OTA_VERIFY_READ_SIZE: u32 = 256;

/// State of one running deployment: the streaming hash, the write cursor and
/// the target slot.
pub struct FlashProgress {
    pub last_hash: ShaStream,
    pub flash_offset: u32,
    pub flash_size: u32,
    pub remaining: u32,
    pub target_partition: usize,
    pub target_hash: Vec<u8>,
}

/// The OTA engine over a flash medium.
pub struct Ota<S: FlashMedia> {
    pub flash: S,
    pub progress: Option<FlashProgress>,
    pub pinfo: PartitionInfo,
    pub booted_partition: Option<usize>,
}

impl<S: FlashMedia> Ota<S> {
    /// The OTA partitions as (offset, size) pairs.
    pub open spec fn parts(&self) -> Seq<(u32, u32)> {
        self.pinfo.ota_partitions@
    }

    /// Offset of the second otadata slot: the first sits at the start of the
    /// otadata region, the second at half its size.
    pub open spec fn slot2_offset(&self) -> int {
        self.pinfo.otadata_offset + (self.pinfo.otadata_size as int) / 2
    }

    /// The engine's invariant: at least two OTA partitions, and a running
    /// deployment (if any) pinned inside its target partition with the write
    /// cursor, the remaining count and the streamed bytes in step.
    pub open spec fn wf(&self) -> bool {
        &&& 2 <= self.parts().len() <= 96
    &&& match self.progress {
            Some(p) => {
                &&& (p.target_partition as int) < self.parts().len()
                &&& p.remaining <= p.flash_size
                &&& p.target_hash@.len() == 32
                &&& p.flash_offset as int == self.parts()[p.target_partition as int].0 + (
                p.flash_size - p.remaining)
                &&& sha_absorbed(p.last_hash).len() == p.flash_size - p.remaining
            },
            None => true,
        }
    }

    /// The OTA partition index a deployment will be streamed into: the slot
    /// after the currently booted one, or slot 0 when the booted partition is
    /// unknown.
    pub open spec fn spec_next_partition(&self) -> int {
        match self.booted_partition {
            Some(p) => (p as int + 1) % (self.parts().len() as int),
            None => 0,
        }
    }

    /// Creates the engine: reads and parses the partition table and requires
    /// at least two OTA partitions. `booted_partition` is the slot the
    /// running image was resolved to, if known.
    pub fn new(flash: S, booted_partition: Option<usize>) -> (r: Result<Ota<S>, OtaError>)
        requires
            match booted_partition {
                Some(p) => p < usize::MAX,
                None => true,
            },
        ensures
            match r {
                Ok(ota) => {
                    &&& ota.wf()
                    &&& ota.progress is None
                    &&& ota.flash.contents() == flash.contents()
                    &&& ota.booted_partition == booted_partition
                    &&& {
                        let fin = scan_table(
                            flash.contents().subrange(
                                PART_OFFSET as int,
                                PART_OFFSET as int + PART_SIZE as int,
                            ),
                            PART_SIZE as int / 32,
                        );
                        !fin.failed && fin.ota.len() >= 2 && ota.parts() == fin.ota
                            && ota.pinfo.otadata_offset == fin.od_off && ota.pinfo.otadata_size
                            == fin.od_size
                    }
                },
                Err(e) => {
                    let fin = scan_table(
                        flash.contents().subrange(
                            PART_OFFSET as int,
                            PART_OFFSET as int + PART_SIZE as int,
                        ),
                        PART_SIZE as int / 32,
                    );
                    &&& e == OtaError::WrongOTAPArtitionOrder ==> fin.failed
                    &&& e == OtaError::NotEnoughPartitions ==> !fin.failed && fin.ota.len() < 2
                    &&& (e == OtaError::FlashRWError || e == OtaError::WrongOTAPArtitionOrder || e
                        == OtaError::NotEnoughPartitions)
                },
            },
    {
        let table: Vec<u8> = match flash.read(PART_OFFSET, PART_SIZE) {
            Ok(t) => t,
            Err(_) => {
                return Err(OtaError::FlashRWError);
            },
        };
        let pinfo: PartitionInfo = match read_partitions(table.as_slice()) {
            Ok(p) => p,
            Err(e) => {
                return Err(e);
            },
        };
        if pinfo.ota_partitions.len() < 2 {
            return Err(OtaError::NotEnoughPartitions);
        }
        proof {
            lemma_scan_ota_len(
                flash.contents().subrange(
                    PART_OFFSET as int,
                    PART_OFFSET as int + PART_SIZE as int,
                ),
                PART_SIZE as int / 32,
            );
        }
        Ok(Ota { flash, progress: None, pinfo, booted_partition })
    }

    /// The currently booted OTA partition index, when known.
    pub fn get_currently_booted_partition(&self) -> (r: Option<usize>)
        ensures
            r == self.booted_partition,
    {
        self.booted_partition
    }

    /// The OTA partition the next deployment goes to.
    pub fn get_next_ota_partition(&self) -> (r: Option<usize>)
        requires
            self.wf(),
            match self.booted_partition {
                Some(p) => p < usize::MAX - 1,
                None => true,
            },
        ensures
            match r {
                Some(p) => self.booted_partition is Some && p == self.spec_next_partition(),
                None => self.booted_partition is None,
            },
    {
        match self.booted_partition {
            Some(p) => {
                let count: usize = self.pinfo.ota_partitions.len();
                Some((p + 1) % count)
            },
            None => None,
        }
    }

    /// Starts a deployment of `size` bytes whose SHA-256, in hexadecimal, is
    /// `chksum`. Fails with `InvalidChecksum` exactly when `chksum` is not 64
    /// hexadecimal digits; otherwise pins a fresh progress to the next OTA
    /// slot's base.
    pub fn ota_begin(&mut self, size: u32, chksum: &[u8]) -> (r: Result<(), OtaError>)
        requires
            old(self).wf(),
            match old(self).booted_partition {
                Some(p) => p < usize::MAX - 1,
                None => true,
            },
        ensures
            final(self).wf(),
            final(self).flash.contents() == old(self).flash.contents(),
            final(self).pinfo == old(self).pinfo,
            final(self).booted_partition == old(self).booted_partition,
            match r {
                Ok(_) => {
                    &&& chksum@.len() == 64 && hex_ok(chksum@)
                    &&& match final (self).progress {
                        Some(p) => {
                            &&& p.flash_size == size
                            &&& p.remaining == size
                            &&& p.target_partition as int == old(self).spec_next_partition()
                            &&& p.flash_offset == old(self).parts()[p.target_partition as int].0
                            &&& p.target_hash@ == spec_hex_decode(chksum@)
                            &&& sha_absorbed(p.last_hash) == Seq::<u8>::empty()
                        },
                        None => false,
                    }
                },
                Err(e) => e == OtaError::InvalidChecksum && !(chksum@.len() == 64 && hex_ok(
                    chksum@,
                )) && final(self).progress == old(self).progress,
            },
    {
        let next_part: usize = match self.get_next_ota_partition() {
            Some(p) => p,
            None => 0,
        };
        if chksum.len() != 64 {
            return Err(OtaError::InvalidChecksum);
        }
        let target_hash: Vec<u8> = match decode_hex(chksum) {
            Some(h) => h,
            None => {
                return Err(OtaError::InvalidChecksum);
            },
        };
        let ota_offset: u32 = self.pinfo.ota_partitions[next_part].0;
        self.progress = Some(
            FlashProgress {
                last_hash: ShaStream::new(),
                flash_size: size,
                remaining: size,
                flash_offset: ota_offset,
                target_partition: next_part,
                target_hash,
            },
        );
        Ok(())
    }

    /// Writes the next `length` bytes of the image, advancing the cursor and
    /// the streamed hash. Returns `Ok(true)` exactly on the call that
    /// consumes the last remaining byte.
    pub fn ota_write_chunk(&mut self, chunk: &[u8], length: u32) -> (r: Result<bool, OtaError>)
        requires
            old(self).wf(),
            length <= chunk@.len(),
        ensures
            final(self).wf(),
            final(self).pinfo == old(self).pinfo,
            final(self).booted_partition == old(self).booted_partition,
            final(self).flash.contents().len() == old(self).flash.contents().len(),
            match old(self).progress {
                None => r == Err::<bool, OtaError>(OtaError::OtaNotStarted) && final(self).progress
                    is None && final(self).flash.contents() == old(self).flash.contents(),
                Some(p) => {
                    if p.remaining == 0 {
                        r == Ok::<bool, OtaError>(true) && final(self).progress == old(
                            self,
                        ).progress && final(self).flash.contents() == old(self).flash.contents()
                    } else if length > p.remaining {
                        r == Err::<bool, OtaError>(OtaError::FlashRWError) && final(self).progress
                            == old(self).progress && final(self).flash.contents() == old(
                            self,
                        ).flash.contents()
                    } else {
                        match r {
                            Ok(done) => {
                                &&& final (self).flash.contents() == store_bytes(
                                    old(self).flash.contents(),
                                    p.flash_offset as int,
                                    chunk@.take(length as int),
                                )
                                &&& match final (self).progress {
                                    Some(q) => {
                                        &&& q.remaining == p.remaining - length
                                        &&& q.flash_offset == p.flash_offset + length
                                        &&& q.flash_size == p.flash_size
                                        &&& q.target_partition == p.target_partition
                                        &&& q.target_hash@ == p.target_hash@
                                        &&& sha_absorbed(q.last_hash) == sha_absorbed(p.last_hash)
                                            + chunk@.take(length as int)
                                    },
                                    None => false,
                                }
                                &&& done == (p.remaining == length)
                            },
                            Err(e) => e == OtaError::FlashRWError && final(self).progress == old(
                                self,
                            ).progress,
                        }
                    }
                },
            },
    {
        let p: &mut FlashProgress = match self.progress.as_mut() {
            Some(p) => p,
            None => {
                return Err(OtaError::OtaNotStarted);
            },
        };
        if p.remaining == 0 {
            return Ok(true);
        }
        if length > p.remaining {
            return Err(OtaError::FlashRWError);
        }
        if p.flash_offset > u32::MAX - length {
            return Err(OtaError::FlashRWError);
        }
        let data: &[u8] = vstd::slice::slice_subrange(chunk, 0, length as usize);
        match self.flash.write(p.flash_offset, data) {
            Ok(_) => {},
            Err(_) => {
                return Err(OtaError::FlashRWError);
            },
        }
        p.last_hash.update(data);
        p.flash_offset = p.flash_offset + length;
        p.remaining = p.remaining - length;
        Ok(p.remaining == 0)
    }

    /// Reads back the written region block by block and compares its SHA-256
    /// to the target hash. Purely diagnostic: changes nothing.
    pub fn ota_verify(&self) -> (r: Result<bool, OtaError>)
        requires
            self.wf(),
        ensures
            match r {
                Ok(same) => match self.progress {
                    Some(p) => {
                        let base = self.parts()[p.target_partition as int].0;
                        &&& base + p.flash_size <= self.flash.contents().len()
                        &&& same == (sha256_of(
                            self.flash.contents().subrange(
                                base as int,
                                base as int + p.flash_size as int,
                            ),
                        ) == p.target_hash@)
                    },
                    None => false,
                },
                Err(e) => e == OtaError::OtaNotStarted && self.progress is None || e
                    == OtaError::FlashRWError && self.progress is Some,
            },
    {
        let p: &FlashProgress = match self.progress.as_ref() {
            Some(p) => p,
            None => {
                return Err(OtaError::OtaNotStarted);
            },
        };
        let mut hasher: ShaStream = ShaStream::new();
        let base: u32 = self.pinfo.ota_partitions[p.target_partition].0;
        match self.flash.read(base, 0) {
            Ok(_) => {},
            Err(_) => {
                return Err(OtaError::FlashRWError);
            },
        }
        let mut partition_offset: u32 = base;
        let mut remaining: u32 = p.flash_size;
        proof {
            assert(self.flash.contents().subrange(base as int, base as int) =~= Seq::<u8>::empty());
        }
        while remaining > 0
            invariant
                self.wf(),
                self.progress == Some(*p),
                base == self.parts()[p.target_partition as int].0,
                remaining <= p.flash_size,
                partition_offset as int == base + (p.flash_size - remaining),
                base <= self.flash.contents().len(),
                partition_offset as int <= self.flash.contents().len(),
                sha_absorbed(hasher) == self.flash.contents().subrange(
                    base as int,
                    partition_offset as int,
                ),
            decreases remaining,
        {
            let n: u32 = if remaining < OTA_VERIFY_READ_SIZE {
                remaining
            } else {
                OTA_VERIFY_READ_SIZE
            };
            let block: Vec<u8> = match self.flash.read(partition_offset, n) {
                Ok(b) => b,
                Err(_) => {
                    return Err(OtaError::FlashRWError);
                },
            };
            hasher.update(block.as_slice());
            proof {
                assert(self.flash.contents().subrange(base as int, partition_offset as int)
                    + block@ =~= self.flash.contents().subrange(
                    base as int,
                    partition_offset as int + n as int,
                ));
            }
            if partition_offset > u32::MAX - n {
                return Err(OtaError::FlashRWError);
            }
            partition_offset = partition_offset + n;
            remaining = remaining - n;
        }
        let computed: Vec<u8> = hasher.digest();
        let same: bool = eq_bytes(computed.as_slice(), p.target_hash.as_slice());
        Ok(same)
    }

    /// Checks the streamed image: fails with `WrongCRC` exactly when the
    /// streamed bytes do not hash to the target; with `verify` set it then
    /// also re-reads flash and fails with `OtaVerifyError` when the
    /// read-back differs from the target. On success nothing is altered and
    /// no boot slot changes.
    pub fn ota_flush(&self, verify: bool) -> (r: Result<(), OtaError>)
        requires
            self.wf(),
        ensures
            ({
                let readback_ok = match self.progress {
                    Some(p) => {
                        let base = self.parts()[p.target_partition as int].0;
                        sha256_of(
                            self.flash.contents().subrange(
                                base as int,
                                base as int + p.flash_size as int,
                            ),
                        ) == p.target_hash@
                    },
                    None => false,
                };
                let streamed_ok = match self.progress {
                    Some(p) => sha256_of(sha_absorbed(p.last_hash)) == p.target_hash@,
                    None => false,
                };
                match r {
                    Ok(_) => self.progress is Some && streamed_ok && (verify ==> readback_ok),
                    Err(e) => {
                        &&& e == OtaError::OtaNotStarted ==> self.progress is None
                        &&& e == OtaError::WrongCRC ==> self.progress is Some && !streamed_ok
                        &&& e == OtaError::OtaVerifyError ==> verify && self.progress is Some
                            && streamed_ok && !readback_ok
                        &&& e == OtaError::FlashRWError ==> verify && self.progress is Some
                            && streamed_ok
                        &&& (e == OtaError::OtaNotStarted || e == OtaError::OtaVerifyError || e
                            == OtaError::WrongCRC || e == OtaError::FlashRWError)
                    },
                }
            }),
    {
        let p: &FlashProgress = match self.progress.as_ref() {
            Some(p) => p,
            None => {
                return Err(OtaError::OtaNotStarted);
            },
        };
        let streamed: Vec<u8> = p.last_hash.digest();
        if !eq_bytes(streamed.as_slice(), p.target_hash.as_slice()) {
            return Err(OtaError::WrongCRC);
        }
        if verify {
            match self.ota_verify() {
                Ok(true) => {},
                Ok(false) => {
                    return Err(OtaError::OtaVerifyError);
                },
                Err(OtaError::OtaNotStarted) => {
                    return Err(OtaError::OtaNotStarted);
                },
                Err(_) => {
                    return Err(OtaError::FlashRWError);
                },
            }
        }
        Ok(())
    }

    /// Reads both otadata slots, CRC-checked, so that a slot with a bad CRC
    /// reports sequence 0.
    pub fn get_ota_boot_entries(&self) -> (r: Result<
        (EspOtaSelectEntry, EspOtaSelectEntry),
        OtaError,
    >)
        ensures
            match r {
                Ok((s1, s2)) => {
                    let c = self.flash.contents();
                    let b1 = c.subrange(
                        self.pinfo.otadata_offset as int,
                        self.pinfo.otadata_offset as int + 32,
                    );
                    let b2 = c.subrange(self.slot2_offset(), self.slot2_offset() + 32);
                    &&& self.pinfo.otadata_offset + 32 <= c.len()
                    &&& self.slot2_offset() + 32 <= c.len()
                    &&& s1.seq == effective_seq(spec_decode_slot(b1).seq, spec_decode_slot(b1).crc)
                    &&& s1.ota_state == spec_decode_slot(b1).ota_state
                    &&& s1.crc == spec_decode_slot(b1).crc
                    &&& s2.seq == effective_seq(spec_decode_slot(b2).seq, spec_decode_slot(b2).crc)
                    &&& s2.ota_state == spec_decode_slot(b2).ota_state
                    &&& s2.crc == spec_decode_slot(b2).crc
                },
                Err(e) => e == OtaError::FlashRWError,
            },
    {
        let b1: Vec<u8> = match self.flash.read(self.pinfo.otadata_offset, 32) {
            Ok(b) => b,
            Err(_) => {
                return Err(OtaError::FlashRWError);
            },
        };
        let half: u32 = self.pinfo.otadata_size >> 1;
        if self.pinfo.otadata_offset > u32::MAX - half {
            return Err(OtaError::FlashRWError);
        }
        let off2: u32 = self.pinfo.otadata_offset + half;
        let b2: Vec<u8> = match self.flash.read(off2, 32) {
            Ok(b) => b,
            Err(_) => {
                return Err(OtaError::FlashRWError);
            },
        };
        proof {
            let sz = self.pinfo.otadata_size;
            assert(sz >> 1u32 == sz / 2) by (bit_vector);
        }
        let s1: EspOtaSelectEntry = decode_slot_checked(b1.as_slice());
        let s2: EspOtaSelectEntry = decode_slot_checked(b2.as_slice());
        Ok((s1, s2))
    }

    /// Flash offset of otadata slot `sl` (1 or 2).
    pub open spec fn slot_off(&self, sl: int) -> int {
        if sl == 1 {
            self.pinfo.otadata_offset as int
        } else {
            self.slot2_offset()
        }
    }

    /// The checked value (sequence zeroed on a bad CRC) of otadata slot `sl`
    /// in the current flash contents.
    pub open spec fn read_slot(&self, sl: int) -> EspOtaSelectEntry {
        let b = self.flash.contents().subrange(self.slot_off(sl), self.slot_off(sl) + 32);
        EspOtaSelectEntry {
            seq: effective_seq(spec_decode_slot(b).seq, spec_decode_slot(b).crc),
            ota_state: spec_decode_slot(b).ota_state,
            crc: spec_decode_slot(b).crc,
        }
    }

    /// Which otadata slot selects the currently booted partition, if either.
    pub open spec fn spec_current_slot(&self) -> Option<u8> {
        match self.booted_partition {
            Some(cur) => if spec_seq_to_part(self.read_slot(1).seq, self.parts().len())
                == cur as nat {
                Some(1u8)
            } else if spec_seq_to_part(self.read_slot(2).seq, self.parts().len()) == cur as nat {
                Some(2u8)
            } else {
                None
            },
            None => None,
        }
    }

    /// The image state recorded for the currently booted partition.
    pub open spec fn spec_current_state(&self) -> Option<OtaImgState> {
        match self.spec_current_slot() {
            Some(sl) => Some(self.read_slot(sl as int).ota_state),
            None => None,
        }
    }

    /// Writes both otadata slots so that the next boot selects `target`: the
    /// new sequence is the smallest one at or above both current effective
    /// sequences that selects `target`; when it is 2 the second slot keeps
    /// the old image as valid, otherwise the second slot is invalidated.
    /// Sequence numbers within one partition count of the 32-bit wrap point
    /// are refused with `FlashRWError`: sequence wrap-around is not
    /// supported.
    pub fn set_target_ota_boot_partition(&mut self, target: u32, state: OtaImgState) -> (r:
        Result<(), OtaError>)
        requires
            old(self).wf(),
            (target as int) < old(self).parts().len(),
        ensures
            final(self).wf(),
            final(self).pinfo == old(self).pinfo,
            final(self).booted_partition == old(self).booted_partition,
            final(self).progress == old(self).progress,
            final(self).flash.contents().len() == old(self).flash.contents().len(),
            match r {
                Ok(_) => exists|s: u32|
                    #[trigger] is_next_boot_seq(
                        s,
                        max_seq(old(self).read_slot(1).seq, old(self).read_slot(2).seq),
                        target,
                        old(self).parts().len() as u32,
                    ) && final(self).flash.contents() == pending_otadata(
                        old(self).flash.contents(),
                        old(self).pinfo.otadata_offset as int,
                        old(self).slot2_offset(),
                        s,
                        state,
                    ),
                Err(e) => e == OtaError::FlashRWError,
            },
            max_seq(old(self).read_slot(1).seq, old(self).read_slot(2).seq) > u32::MAX - old(
                self,
            ).parts().len() ==> r is Err,
    {
        let entries: (EspOtaSelectEntry, EspOtaSelectEntry) = match self.get_ota_boot_entries() {
            Ok(e) => e,
            Err(_) => {
                return Err(OtaError::FlashRWError);
            },
        };
        let (slot1, slot2) = entries;
        proof {
            assert(slot1 == self.read_slot(1));
            assert(slot2 == self.read_slot(2));
        }
        let n: u32 = self.pinfo.ota_partitions.len() as u32;
        let m: u32 = if slot1.seq >= slot2.seq {
            slot1.seq
        } else {
            slot2.seq
        };
        proof {
            assert(m == max_seq(slot1.seq, slot2.seq));
        }
        if m > u32::MAX - n {
            return Err(OtaError::FlashRWError);
        }
        let s: u32 = next_boot_seq(m, target, n);
        let entry1: Vec<u8> = encode_slot(s, state);
        let entry2: Vec<u8> = if s == 2 {
            encode_slot(1, OtaImgState::EspOtaImgValid)
        } else {
            let mut v: Vec<u8> = Vec::new();
            let mut i: usize = 0;
            while i < 32
                invariant
                    i <= 32,
                    v@ =~= Seq::new(i as nat, |k: int| 0xFFu8),
                decreases 32 - i,
            {
                v.push(0xFF);
                i = i + 1;
            }
            proof {
                assert(v@ =~= Seq::new(32nat, |k: int| 0xFFu8));
            }
            v
        };
        let half: u32 = self.pinfo.otadata_size >> 1;
        if self.pinfo.otadata_offset > u32::MAX - half {
            return Err(OtaError::FlashRWError);
        }
        let off2: u32 = self.pinfo.otadata_offset + half;
        proof {
            let sz = self.pinfo.otadata_size;
            assert(sz >> 1u32 == sz / 2) by (bit_vector);
        }
        let ghost c0 = self.flash.contents();
        match self.flash.write(self.pinfo.otadata_offset, entry1.as_slice()) {
            Ok(_) => {},
            Err(_) => {
                return Err(OtaError::FlashRWError);
            },
        }
        match self.flash.write(off2, entry2.as_slice()) {
            Ok(_) => {},
            Err(_) => {
                return Err(OtaError::FlashRWError);
            },
        }
        proof {
            assert(self.flash.contents() =~= pending_otadata(
                c0,
                self.pinfo.otadata_offset as int,
                self.slot2_offset(),
                s,
                state,
            ));
            assert(is_next_boot_seq(
                s,
                max_seq(old(self).read_slot(1).seq, old(self).read_slot(2).seq),
                target,
                old(self).parts().len() as u32,
            ));
        }
        Ok(())
    }

    /// Marks the streamed image as the one to boot next: rewrites the boot
    /// selector for the deployment's target partition, with state `New` when
    /// `rollback` is requested (so the bootloader can roll back an
    /// unconfirmed image) and `Undefined` otherwise.
    pub fn ota_set_pending_image(&mut self, rollback: bool) -> (r: Result<(), OtaError>)
        requires
            old(self).wf(),
        ensures
            final(self).wf(),
            final(self).pinfo == old(self).pinfo,
            final(self).booted_partition == old(self).booted_partition,
            final(self).progress == old(self).progress,
            final(self).flash.contents().len() == old(self).flash.contents().len(),
            match r {
                Ok(_) => match old(self).progress {
                    Some(p) => exists|s: u32|
                        #[trigger] is_next_boot_seq(
                            s,
                            max_seq(old(self).read_slot(1).seq, old(self).read_slot(2).seq),
                            p.target_partition as u32,
                            old(self).parts().len() as u32,
                        ) && final(self).flash.contents() == pending_otadata(
                            old(self).flash.contents(),
                            old(self).pinfo.otadata_offset as int,
                            old(self).slot2_offset(),
                            s,
                            if rollback {
                                OtaImgState::EspOtaImgNew
                            } else {
                                OtaImgState::EspOtaImgUndefined
                            },
                        ),
                    None => false,
                },
                Err(e) => {
                    &&& e == OtaError::OtaNotStarted ==> old(self).progress is None
                        && final(self).flash.contents() == old(self).flash.contents()
                    &&& e == OtaError::FlashRWError ==> old(self).progress is Some
                    &&& old(self).progress is None ==> e == OtaError::OtaNotStarted
                    &&& (e == OtaError::OtaNotStarted || e == OtaError::FlashRWError)
                },
            },
    {
        let target: u32 = match self.progress.as_ref() {
            Some(p) => p.target_partition as u32,
            None => {
                return Err(OtaError::OtaNotStarted);
            },
        };
        let state: OtaImgState = if rollback {
            OtaImgState::EspOtaImgNew
        } else {
            OtaImgState::EspOtaImgUndefined
        };
        self.set_target_ota_boot_partition(target, state)
    }

    /// Rewrites only the 4-byte state word of otadata slot 1 or 2; the
    /// sequence and its CRC stay as they are.
    pub fn set_ota_state(&mut self, slot: u8, state: OtaImgState) -> (r: Result<(), OtaError>)
        requires
            old(self).wf(),
        ensures
            final(self).wf(),
            final(self).pinfo == old(self).pinfo,
            final(self).booted_partition == old(self).booted_partition,
            final(self).progress == old(self).progress,
            final(self).flash.contents().len() == old(self).flash.contents().len(),
            match r {
                Ok(_) => (slot == 1 || slot == 2) && final(self).flash.contents() == store_bytes(
                    old(self).flash.contents(),
                    old(self).slot_off(slot as int) + 24,
                    u32_le(spec_state_code(state)),
                ),
                Err(e) => {
                    &&& e == OtaError::CannotFindCurrentBootPartition ==> !(slot == 1 || slot
                        == 2) && final(self).flash.contents() == old(self).flash.contents()
                    &&& !(slot == 1 || slot == 2) ==> e
                        == OtaError::CannotFindCurrentBootPartition
                    &&& (e == OtaError::CannotFindCurrentBootPartition || e
                        == OtaError::FlashRWError)
                },
            },
    {
        let off: u32 = if slot == 1 {
            self.pinfo.otadata_offset
        } else if slot == 2 {
            let half: u32 = self.pinfo.otadata_size >> 1;
            if self.pinfo.otadata_offset > u32::MAX - half {
                return Err(OtaError::FlashRWError);
            }
            proof {
                let sz = self.pinfo.otadata_size;
                assert(sz >> 1u32 == sz / 2) by (bit_vector);
            }
            self.pinfo.otadata_offset + half
        } else {
            return Err(OtaError::CannotFindCurrentBootPartition);
        };
        if off > u32::MAX - 24 {
            return Err(OtaError::FlashRWError);
        }
        let code_bytes: Vec<u8> = u32_le_bytes(state_code(state));
        match self.flash.write(off + 24, code_bytes.as_slice()) {
            Ok(_) => Ok(()),
            Err(_) => Err(OtaError::FlashRWError),
        }
    }

    /// The otadata slot whose sequence selects the currently booted
    /// partition, with its checked contents.
    pub fn get_current_slot(&self) -> (r: Result<(u8, EspOtaSelectEntry), OtaError>)
        requires
            self.wf(),
        ensures
            match r {
                Ok((sl, e)) => self.spec_current_slot() == Some(sl) && e == self.read_slot(
                    sl as int,
                ),
                Err(e) => {
                    &&& e == OtaError::CannotFindCurrentBootPartition ==> self.spec_current_slot()
                        is None
                    &&& (e == OtaError::CannotFindCurrentBootPartition || e
                        == OtaError::FlashRWError)
                },
            },
    {
        let entries: (EspOtaSelectEntry, EspOtaSelectEntry) = match self.get_ota_boot_entries() {
            Ok(e) => e,
            Err(_) => {
                return Err(OtaError::FlashRWError);
            },
        };
        let (slot1, slot2) = entries;
        let current: usize = match self.booted_partition {
            Some(c) => c,
            None => {
                return Err(OtaError::CannotFindCurrentBootPartition);
            },
        };
        let count: usize = self.pinfo.ota_partitions.len();
        let p1: usize = seq_to_part(slot1.seq, count);
        let p2: usize = seq_to_part(slot2.seq, count);
        proof {
            assert(slot1 == self.read_slot(1));
            assert(slot2 == self.read_slot(2));
        }
        if current == p1 {
            Ok((1, slot1))
        } else if current == p2 {
            Ok((2, slot2))
        } else {
            Err(OtaError::CannotFindCurrentBootPartition)
        }
    }

    /// The image state recorded for the currently booted partition.
    pub fn get_ota_image_state(&self) -> (r: Result<OtaImgState, OtaError>)
        requires
            self.wf(),
        ensures
            match r {
                Ok(st) => self.spec_current_state() == Some(st),
                Err(e) => {
                    &&& e == OtaError::CannotFindCurrentBootPartition ==> self.spec_current_state()
                        is None
                    &&& (e == OtaError::CannotFindCurrentBootPartition || e
                        == OtaError::FlashRWError)
                },
            },
    {
        match self.get_current_slot() {
            Ok((_, e)) => Ok(e.ota_state),
            Err(e) => Err(e),
        }
    }

    /// Confirms the running image: writes `Valid` into the current slot's
    /// state word.
    pub fn ota_mark_app_valid(&mut self) -> (r: Result<(), OtaError>)
        requires
            old(self).wf(),
        ensures
            final(self).wf(),
            final(self).pinfo == old(self).pinfo,
            final(self).booted_partition == old(self).booted_partition,
            final(self).progress == old(self).progress,
            final(self).flash.contents().len() == old(self).flash.contents().len(),
            match r {
                Ok(_) => match old(self).spec_current_slot() {
                    Some(sl) => final(self).flash.contents() == store_bytes(
                        old(self).flash.contents(),
                        old(self).slot_off(sl as int) + 24,
                        u32_le(spec_state_code(OtaImgState::EspOtaImgValid)),
                    ),
                    None => false,
                },
                Err(e) => {
                    &&& e == OtaError::CannotFindCurrentBootPartition ==> old(
                        self,
                    ).spec_current_slot() is None
                    &&& (e == OtaError::CannotFindCurrentBootPartition || e
                        == OtaError::FlashRWError)
                },
            },
    {
        let current: (u8, EspOtaSelectEntry) = match self.get_current_slot() {
            Ok(c) => c,
            Err(e) => {
                return Err(e);
            },
        };
        let (slot_nmb, _slot) = current;
        match self.set_ota_state(slot_nmb, OtaImgState::EspOtaImgValid) {
            Ok(_) => Ok(()),
            Err(_) => Err(OtaError::FlashRWError),
        }
    }

    /// Rejects the running image: writes `Invalid` into the current slot's
    /// state word, so that the bootloader rolls back on the next boot.
    pub fn ota_mark_app_invalid_rollback(&mut self) -> (r: Result<(), OtaError>)
        requires
            old(self).wf(),
        ensures
            final(self).wf(),
            final(self).pinfo == old(self).pinfo,
            final(self).booted_partition == old(self).booted_partition,
            final(self).progress == old(self).progress,
            final(self).flash.contents().len() == old(self).flash.contents().len(),
            match r {
                Ok(_) => match old(self).spec_current_slot() {
                    Some(sl) => final(self).flash.contents() == store_bytes(
                        old(self).flash.contents(),
                        old(self).slot_off(sl as int) + 24,
                        u32_le(spec_state_code(OtaImgState::EspOtaImgInvalid)),
                    ),
                    None => false,
                },
                Err(e) => {
                    &&& e == OtaError::CannotFindCurrentBootPartition ==> old(
                        self,
                    ).spec_current_slot() is None
                    &&& (e == OtaError::CannotFindCurrentBootPartition || e
                        == OtaError::FlashRWError)
                },
            },
    {
        let current: (u8, EspOtaSelectEntry) = match self.get_current_slot() {
            Ok(c) => c,
            Err(e) => {
                return Err(e);
            },
        };
        let (slot_nmb, _slot) = current;
        match self.set_ota_state(slot_nmb, OtaImgState::EspOtaImgInvalid) {
            Ok(_) => Ok(()),
            Err(_) => Err(OtaError::FlashRWError),
        }
    }

    /// Abandons the running deployment: marks the slot after the target
    /// partition as aborted and drops the progress.
    pub fn ota_abort(&mut self) -> (r: Result<(), OtaError>)
        requires
            old(self).wf(),
        ensures
            final(self).wf(),
            final(self).pinfo == old(self).pinfo,
            final(self).booted_partition == old(self).booted_partition,
            final(self).flash.contents().len() == old(self).flash.contents().len(),
            match r {
                Ok(_) => match old(self).progress {
                    Some(p) => final(self).progress is None && final(self).flash.contents()
                        == store_bytes(
                        old(self).flash.contents(),
                        old(self).slot_off(p.target_partition + 1) + 24,
                        u32_le(spec_state_code(OtaImgState::EspOtaImgAborted)),
                    ) && p.target_partition + 1 <= 2,
                    None => false,
                },
                Err(e) => {
                    &&& e == OtaError::OtaNotStarted ==> old(self).progress is None
                    &&& old(self).progress is None ==> e == OtaError::OtaNotStarted
                    &&& e == OtaError::CannotFindCurrentBootPartition ==> (match old(
                        self,
                    ).progress {
                        Some(p) => p.target_partition + 1 > 2,
                        None => false,
                    })
                    &&& final(self).progress == old(self).progress
                    &&& (e == OtaError::OtaNotStarted
                        || e == OtaError::CannotFindCurrentBootPartition || e
                        == OtaError::FlashRWError)
                },
            },
    {
        let target: usize = match self.progress.as_ref() {
            Some(p) => p.target_partition,
            None => {
                return Err(OtaError::OtaNotStarted);
            },
        };
        let slot: u8 = if target >= 2 {
            3
        } else {
            (target + 1) as u8
        };
        match self.set_ota_state(slot, OtaImgState::EspOtaImgAborted) {
            Ok(_) => {},
            Err(e) => {
                return Err(e);
            },
        }
        self.progress = None;
        Ok(())
    }

}

/// The larger of two sequence numbers.
pub open spec fn max_seq(a: u32, b: u32) -> u32 {
    if a >= b {
        a
    } else {
        b
    }
}

/// After the selector writes sequence `s` for partition `target`, the two
/// otadata slots decode so that slot 1 carries the valid, highest sequence:
/// the bootloader's rule (highest CRC-valid sequence wins; `(seq - 1) mod
/// count` names the partition) boots exactly `target`. Together with the
/// uniqueness of the written sequence this makes `set_pending` idempotent:
/// a second write for the same target produces the same bytes.
#[verifier::rlimit(100)]
#[verifier::spinoff_prover]
pub proof fn lemma_set_pending_boot_selection(
    c0: Seq<u8>,
    od1: int,
    od2: int,
    s: u32,
    state: OtaImgState,
    m: u32,
    target: u32,
    n: u32,
)
    requires
        0 <= od1,
        od1 + 32 <= od2,
        od2 + 32 <= c0.len(),
        n > 0,
        is_next_boot_seq(s, m, target, n),
    ensures
        ({
            let c1 = pending_otadata(c0, od1, od2, s, state);
            let b1 = c1.subrange(od1, od1 + 32);
            let b2 = c1.subrange(od2, od2 + 32);
            let e1 = effective_seq(spec_decode_slot(b1).seq, spec_decode_slot(b1).crc);
            let e2 = effective_seq(spec_decode_slot(b2).seq, spec_decode_slot(b2).crc);
            &&& e1 == s
            &&& e2 == if s == 2 {
                1u32
            } else {
                0u32
            }
            &&& e1 > e2
            &&& spec_decode_slot(b1).ota_state == spec_state_of_code(spec_state_code(state))
            &&& spec_seq_to_part(max_seq(e1, e2), n as nat) == target as nat
        }),
{
    let c1 = pending_otadata(c0, od1, od2, s, state);
    let b1 = c1.subrange(od1, od1 + 32);
    let b2 = c1.subrange(od2, od2 + 32);
    let crc_s = crc32_of(u32_le(s), 0xFFFFFFFFu32);
    assert(b1 =~= slot_bytes(s, spec_state_code(state), crc_s));
    assert(b1.subrange(0, 4) =~= u32_le(s));
    assert(b1.subrange(24, 28) =~= u32_le(spec_state_code(state)));
    assert(b1.subrange(28, 32) =~= u32_le(crc_s));
    lemma_u32_le_inverse(s);
    lemma_u32_le_inverse(spec_state_code(state));
    lemma_u32_le_inverse(crc_s);
    assert(spec_decode_slot(b1).seq == s);
    assert(spec_decode_slot(b1).crc == crc_s);
    assert(effective_seq(spec_decode_slot(b1).seq, spec_decode_slot(b1).crc) == s);
    if s == 2 {
        let crc_1 = crc32_of(u32_le(1u32), 0xFFFFFFFFu32);
        assert(b2 =~= slot_bytes(1u32, spec_state_code(OtaImgState::EspOtaImgValid), crc_1));
        assert(b2.subrange(0, 4) =~= u32_le(1u32));
        assert(b2.subrange(28, 32) =~= u32_le(crc_1));
        lemma_u32_le_inverse(1u32);
        lemma_u32_le_inverse(crc_1);
        assert(spec_decode_slot(b2).seq == 1u32);
        assert(spec_decode_slot(b2).crc == crc_1);
        assert(effective_seq(spec_decode_slot(b2).seq, spec_decode_slot(b2).crc) == 1u32);
    } else {
        assert(b2 =~= Seq::new(32nat, |i: int| 0xFFu8));
        let all_ff = seq![0xFFu8, 0xFFu8, 0xFFu8, 0xFFu8];
        assert(b2.subrange(0, 4) =~= all_ff);
        assert(b2.subrange(28, 32) =~= all_ff);
        let q = spec_decode_slot(b2).seq;
        assert(q == u32_of_le(all_ff));
        assert(u32_of_le(all_ff) == 0xFFFFFFFFu32) by {
            assert(0xFFu32 | 0xFFu32 << 8 | 0xFFu32 << 16 | 0xFFu32 << 24 == 0xFFFFFFFFu32)
                by (bit_vector);
        }
        assert(u32_le(0xFFFFFFFFu32) =~= all_ff) by {
            assert(0xFFFFFFFFu32 & 0xff == 0xFF && (0xFFFFFFFFu32 >> 8) & 0xff == 0xFF && (
            0xFFFFFFFFu32 >> 16) & 0xff == 0xFF && (0xFFFFFFFFu32 >> 24) & 0xff == 0xFF)
                by (bit_vector);
        }
        crate::crc32::lemma_crc32_erased_word();
        assert(crc32_of(u32_le(q), 0xFFFFFFFFu32) == 0u32);
        assert(spec_decode_slot(b2).crc == 0xFFFFFFFFu32);
        assert(!crate::otadata::slot_crc_ok(q, spec_decode_slot(b2).crc));
        assert(effective_seq(spec_decode_slot(b2).seq, spec_decode_slot(b2).crc) == 0u32);
    }
    crate::otadata::lemma_pending_selects_target(s, m, target, n);
}

/// The otadata region bytes after the selector writes sequence `s` with
/// image state `state` for a new target: slot 1 holds the new entry; slot 2
/// holds the previous image (sequence 1) as valid when `s == 2`, and is
/// erased to 0xFF otherwise.
pub open spec fn pending_otadata(c0: Seq<u8>, od1: int, od2: int, s: u32, state: OtaImgState) -> Seq<u8> {
    let b1 = slot_bytes(
        s,
        spec_state_code(state),
        crc32_of(u32_le(s), 0xFFFFFFFFu32),
    );
    let b2 = if s == 2 {
        slot_bytes(
            1u32,
            spec_state_code(OtaImgState::EspOtaImgValid),
            crc32_of(u32_le(1u32), 0xFFFFFFFFu32),
        )
    } else {
        Seq::new(32nat, |i: int| 0xFFu8)
    };
    store_bytes(store_bytes(c0, od1, b1), od2, b2)
}


} // verus!
