//! The partition table: 32-byte entries at a fixed flash offset. Application
//! partitions of subtype 0x10 and above are the OTA slots and must appear
//! with strictly consecutive indices starting at 0; a data partition of
//! subtype 0 is the otadata region.

use vstd::prelude::*;
use vstd::bytes::{spec_u32_from_le_bytes, u32_from_le_bytes};

verus! {

/// Errors of the OTA engine.
#[derive(Debug, Clone, Copy, PartialEq, Eq, Structural)]
pub enum OtaError {
    NotEnoughPartitions,
    OtaNotStarted,
    FlashRWError,
    WrongCRC,
    WrongOTAPArtitionOrder,
    OtaVerifyError,
    CannotFindCurrentBootPartition,
    InvalidChecksum,
}

/// The partitions the OTA engine works with: each OTA slot as (offset, size),
/// and the otadata region.
pub struct PartitionInfo {
    pub ota_partitions: Vec<(u32, u32)>,
    pub otadata_offset: u32,
    pub otadata_size: u32,
}

/// State of the scan over the partition table entries.
pub struct PartitionScan {
    pub ota: Seq<(u32, u32)>,
    pub od_off: u32,
    pub od_size: u32,
    pub failed: bool,
    pub stopped: bool,
}

/// The 32-byte entry at index `i` of the table.
pub open spec fn table_entry(t: Seq<u8>, i: int) -> Seq<u8> {
    t.subrange(32 * i, 32 * i + 32)
}

/// An all-0xFF entry ends the table.
pub open spec fn entry_is_end(e: Seq<u8>) -> bool {
    forall|j: int| 0 <= j < 32 ==> e[j] == 0xFFu8
}

/// An entry participates only when it carries the table magic 0xAA 0x50.
pub open spec fn entry_has_magic(e: Seq<u8>) -> bool {
    e[0] == 0xAAu8 && e[1] == 0x50u8
}

/// Folds one table entry into the scan state: stop on the end marker, skip
/// entries without magic, collect OTA application partitions (failing when
/// their indices are not consecutive from 0), and record the otadata region.
pub open spec fn scan_step(st: PartitionScan, e: Seq<u8>) -> PartitionScan {
    if entry_is_end(e) {
        PartitionScan { stopped: true, ..st }
    } else if !entry_has_magic(e) {
        st
    } else {
        let p_type = e[2];
        let p_subtype = e[3];
        let p_offset = spec_u32_from_le_bytes(e.subrange(4, 8));
        let p_size = spec_u32_from_le_bytes(e.subrange(8, 12));
        if p_type == 0u8 && p_subtype >= 0x10u8 {
            if p_subtype - 0x10 == st.ota.len() {
                PartitionScan { ota: st.ota.push((p_offset, p_size)), ..st }
            } else {
                PartitionScan { failed: true, ..st }
            }
        } else if p_type == 1u8 && p_subtype == 0u8 {
            PartitionScan { od_off: p_offset, od_size: p_size, ..st }
        } else {
            st
        }
    }
}

/// The scan state after the first `n` entries of the table.
pub open spec fn scan_table(t: Seq<u8>, n: int) -> PartitionScan
    decreases n,
{
    if n <= 0 {
        PartitionScan { ota: Seq::empty(), od_off: 0u32, od_size: 0u32, failed: false, stopped: false }
    } else {
        let prev = scan_table(t, n - 1);
        if prev.stopped || prev.failed {
            prev
        } else {
            scan_step(prev, table_entry(t, n - 1))
        }
    }
}

/// Once the scan has stopped or failed, later entries change nothing.
pub proof fn lemma_scan_stable(t: Seq<u8>, i: int, n: int)
    requires
        0 <= i <= n,
        scan_table(t, i).stopped || scan_table(t, i).failed,
    ensures
        scan_table(t, n) == scan_table(t, i),
    decreases n - i,
{
    if i < n {
        lemma_scan_stable(t, i, n - 1);
    }
}

/// The scan collects at most one OTA partition per entry.
pub proof fn lemma_scan_ota_len(t: Seq<u8>, n: int)
    requires
        n >= 0,
    ensures
        scan_table(t, n).ota.len() <= n,
    decreases n,
{
    if n > 0 {
        lemma_scan_ota_len(t, n - 1);
    }
}

/// True when the 32 bytes of `e` are all 0xFF.
fn is_all_ff(e: &[u8]) -> (r: bool)
    requires
        e@.len() == 32,
    ensures
        r == entry_is_end(e@),
{
    let mut j: usize = 0;
    while j < 32
        invariant
            j <= 32,
            e@.len() == 32,
            forall|k: int| 0 <= k < j ==> e@[k] == 0xFFu8,
        decreases 32 - j,
    {
        if e[j] != 0xFF {
            return false;
        }
        j = j + 1;
    }
    true
}

/// Parses a partition table image. Returns the collected OTA partitions and
/// the otadata region; fails with `WrongOTAPArtitionOrder` exactly when the
/// scan meets an OTA partition whose index is out of order.
pub fn read_partitions(table: &[u8]) -> (r: Result<PartitionInfo, OtaError>)
    requires
        table@.len() % 32 == 0,
        table@.len() <= 0xC00,
    ensures
        ({
            let fin = scan_table(table@, table@.len() as int / 32);
            match r {
                Ok(info) => !fin.failed && info.ota_partitions@ == fin.ota
                    && info.otadata_offset == fin.od_off && info.otadata_size == fin.od_size,
                Err(e) => fin.failed && e == OtaError::WrongOTAPArtitionOrder,
            }
        }),
{
    let n_entries: usize = table.len() / 32;
    let mut ota: Vec<(u32, u32)> = Vec::new();
    let mut od_off: u32 = 0;
    let mut od_size: u32 = 0;
    let mut i: usize = 0;
    while i < n_entries
        invariant
            i <= n_entries,
            table@.len() % 32 == 0,
            table@.len() <= 0xC00,
            n_entries == table@.len() as int / 32,
            !scan_table(table@, i as int).stopped,
            !scan_table(table@, i as int).failed,
            ota@ == scan_table(table@, i as int).ota,
            od_off == scan_table(table@, i as int).od_off,
            od_size == scan_table(table@, i as int).od_size,
        decreases n_entries - i,
    {
        let ghost pre = scan_table(table@, i as int);
        let e: &[u8] = vstd::slice::slice_subrange(table, 32 * i, 32 * i + 32);
        proof {
            assert(e@ =~= table_entry(table@, i as int));
        }
        if is_all_ff(e) {
            proof {
                lemma_scan_stable(table@, i as int + 1, n_entries as int);
            }
            return Ok(PartitionInfo { ota_partitions: ota, otadata_offset: od_off, otadata_size: od_size });
        }
        let magic_ok: bool = e[0] == 0xAA && e[1] == 0x50;
        if magic_ok {
            let p_type: u8 = e[2];
            let p_subtype: u8 = e[3];
            let p_offset: u32 = u32_from_le_bytes(vstd::slice::slice_subrange(e, 4, 8));
            let p_size: u32 = u32_from_le_bytes(vstd::slice::slice_subrange(e, 8, 12));
            proof {
                assert(e@.subrange(4, 8) =~= table_entry(table@, i as int).subrange(4, 8));
                assert(e@.subrange(8, 12) =~= table_entry(table@, i as int).subrange(8, 12));
            }
            if p_type == 0 && p_subtype >= 0x10 {
                if (p_subtype - 0x10) as usize == ota.len() {
                    ota.push((p_offset, p_size));
                } else {
                    proof {
                        lemma_scan_stable(table@, i as int + 1, n_entries as int);
                    }
                    return Err(OtaError::WrongOTAPArtitionOrder);
                }
            } else if p_type == 1 && p_subtype == 0 {
                od_off = p_offset;
                od_size = p_size;
            }
        }
        i = i + 1;
    }
    Ok(PartitionInfo { ota_partitions: ota, otadata_offset: od_off, otadata_size: od_size })
}

} // verus!
