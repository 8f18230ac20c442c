//! Persistent records of the update client: the key-data partition found in
//! the partition table, and length-prefixed blobs (authentication keys, the
//! deployment record, the device configuration) at fixed offsets inside it.

use vstd::prelude::*;
use crate::flashdev::{store_bytes, FlashMedia};
use crate::menderutils::{MenderResult, MenderStatus};
use crate::otadata::{u32_le, u32_le_bytes, u32_of_le, u32_of_le_bytes};
use crate::partitions::{entry_has_magic, entry_is_end, table_entry};

verus! {

/// Room reserved for the private key record.
pub const TLS_PRIVATE_KEY_LENGTH: u32 = 2048;

/// Room reserved for the public key record.
pub const TLS_PUBLIC_KEY_LENGTH: u32 = 384;

/// Room reserved for the deployment and configuration records.
pub const MAX_DATA_SIZE: u32 = 1024;

/// The offsets of the persisted records inside the key-data partition.
#[derive(Debug, Clone, Copy, PartialEq, Eq, Structural)]
pub struct FlashKeyInfo {
    pub privatekey_offset: u32,
    pub publickey_offset: u32,
    pub deployment_data_offset: u32,
    pub device_config_offset: u32,
    pub flashkey_size: u32,
}

/// The scan over the partition table for the key-data partition: the last
/// data partition of subtype 2 before the end marker wins.
pub open spec fn scan_keydata(t: Seq<u8>, n: int) -> (u32, u32, bool)
    decreases n,
{
    if n <= 0 {
        (0u32, 0u32, false)
    } else {
        let prev = scan_keydata(t, n - 1);
        if prev.2 {
            prev
        } else {
            let e = table_entry(t, n - 1);
            if entry_is_end(e) {
                (prev.0, prev.1, true)
            } else if entry_has_magic(e) && e[2] == 1u8 && e[3] == 2u8 {
                (
                    crate::otadata::u32_of_le(e.subrange(4, 8)),
                    crate::otadata::u32_of_le(e.subrange(8, 12)),
                    false,
                )
            } else {
                prev
            }
        }
    }
}

/// Once the key-data scan has stopped, later entries change nothing.
proof fn lemma_keydata_scan_stable(t: Seq<u8>, i: int, n: int)
    requires
        0 <= i <= n,
        scan_keydata(t, i).2,
    ensures
        scan_keydata(t, n) == scan_keydata(t, i),
    decreases n - i,
{
    if i < n {
        lemma_keydata_scan_stable(t, i, n - 1);
    }
}

/// The record offsets derived from the key-data partition: the public key
/// follows the private key's reservation, then the deployment record, then
/// the device configuration.
pub open spec fn spec_keydata_info(off: u32, size: u32) -> FlashKeyInfo
    recommends
        off + TLS_PRIVATE_KEY_LENGTH + TLS_PUBLIC_KEY_LENGTH + MAX_DATA_SIZE <= u32::MAX,
{
    FlashKeyInfo {
        privatekey_offset: off,
        publickey_offset: (off + TLS_PRIVATE_KEY_LENGTH) as u32,
        deployment_data_offset: (off + TLS_PRIVATE_KEY_LENGTH + TLS_PUBLIC_KEY_LENGTH) as u32,
        device_config_offset: (off + TLS_PRIVATE_KEY_LENGTH + TLS_PUBLIC_KEY_LENGTH
            + MAX_DATA_SIZE) as u32,
        flashkey_size: size,
    }
}

/// The fixed layout of the records: each reservation follows the previous
/// one, and the last fits below the address space's top.
pub open spec fn keyinfo_wf(p: FlashKeyInfo) -> bool {
    &&& p.publickey_offset == p.privatekey_offset + TLS_PRIVATE_KEY_LENGTH
    &&& p.deployment_data_offset == p.publickey_offset + TLS_PUBLIC_KEY_LENGTH
    &&& p.device_config_offset == p.deployment_data_offset + MAX_DATA_SIZE
    &&& p.device_config_offset + MAX_DATA_SIZE <= u32::MAX
}

/// The records and the key-data flash they live in.
pub struct FlashKey<S: FlashMedia> {
    pub flash: S,
    pub pinfo: FlashKeyInfo,
}

impl<S: FlashMedia> FlashKey<S> {
    /// Locates the key-data partition in the partition table image and
    /// derives the record offsets; fails when the partition is too small
    /// for all four records.
    pub fn read_keydata_partitions(table: &[u8]) -> (r: Result<FlashKeyInfo, MenderStatus>)
        requires
            table@.len() % 32 == 0,
            table@.len() <= 0xC00,
        ensures
            ({
                let sc = scan_keydata(table@, table@.len() as int / 32);
                let fits = sc.0 + TLS_PRIVATE_KEY_LENGTH + TLS_PUBLIC_KEY_LENGTH + MAX_DATA_SIZE
                    + MAX_DATA_SIZE <= sc.0 + sc.1 && sc.0 + sc.1 <= u32::MAX;
                match r {
                    Ok(info) => fits && info == spec_keydata_info(sc.0, sc.1),
                    Err(e) => e == MenderStatus::Failed && !fits,
                }
            }),
    {
        let n_entries: usize = table.len() / 32;
        let mut off: u32 = 0;
        let mut size: u32 = 0;
        let mut i: usize = 0;
        while i < n_entries
            invariant
                i <= n_entries,
                table@.len() % 32 == 0,
                table@.len() <= 0xC00,
                n_entries == table@.len() as int / 32,
                !scan_keydata(table@, i as int).2,
                off == scan_keydata(table@, i as int).0,
                size == scan_keydata(table@, i as int).1,
            ensures
                off == scan_keydata(table@, n_entries as int).0,
                size == scan_keydata(table@, n_entries as int).1,
            decreases n_entries - i,
        {
            let e: &[u8] = vstd::slice::slice_subrange(table, 32 * i, 32 * i + 32);
            proof {
                assert(e@ =~= table_entry(table@, i as int));
            }
            let mut all_ff: bool = true;
            let mut j: usize = 0;
            while j < 32
                invariant
                    j <= 32,
                    e@.len() == 32,
                    all_ff == (forall|k: int| 0 <= k < j ==> e@[k] == 0xFFu8),
                decreases 32 - j,
            {
                if e[j] != 0xFF {
                    all_ff = false;
                    proof {
                        assert(!(forall|k: int| 0 <= k < j + 1 ==> e@[k] == 0xFFu8));
                    }
                }
                j = j + 1;
            }
            if all_ff {
                proof {
                    assert(entry_is_end(table_entry(table@, i as int)));
                    assert(scan_keydata(table@, i as int + 1).2);
                    assert(scan_keydata(table@, i as int + 1).0 == off);
                    assert(scan_keydata(table@, i as int + 1).1 == size);
                    lemma_keydata_scan_stable(table@, i as int + 1, n_entries as int);
                }
                break ;
            }
            if e[0] == 0xAA && e[1] == 0x50 && e[2] == 1 && e[3] == 2 {
                off = u32_of_le_bytes(vstd::slice::slice_subrange(e, 4, 8));
                size = u32_of_le_bytes(vstd::slice::slice_subrange(e, 8, 12));
                proof {
                    assert(e@.subrange(4, 8) =~= table_entry(table@, i as int).subrange(4, 8));
                    assert(e@.subrange(8, 12) =~= table_entry(table@, i as int).subrange(8, 12));
                }
            }
            i = i + 1;
        }
        if (off as u64) + 2048 + 384 + 1024 + 1024 > (off as u64) + (size as u64) || (off as u64)
            + (size as u64) > u32::MAX as u64 {
            return Err(MenderStatus::Failed);
        }
        Ok(
            FlashKeyInfo {
                privatekey_offset: off,
                publickey_offset: off + 2048,
                deployment_data_offset: off + 2048 + 384,
                device_config_offset: off + 2048 + 384 + 1024,
                flashkey_size: size,
            },
        )
    }

    /// A record store over the medium, with offsets from its partition
    /// table.
    pub fn new(flash: S) -> (r: Result<FlashKey<S>, MenderStatus>)
        ensures
            match r {
                Ok(fk) => {
                    let sc = scan_keydata(
                        flash.contents().subrange(
                            crate::ota::PART_OFFSET as int,
                            crate::ota::PART_OFFSET as int + crate::ota::PART_SIZE as int,
                        ),
                        crate::ota::PART_SIZE as int / 32,
                    );
                    &&& fk.flash.contents() == flash.contents()
                    &&& sc.0 + TLS_PRIVATE_KEY_LENGTH + TLS_PUBLIC_KEY_LENGTH + MAX_DATA_SIZE
                        + MAX_DATA_SIZE <= sc.0 + sc.1
                    &&& sc.0 + sc.1 <= u32::MAX
                    &&& fk.pinfo == spec_keydata_info(sc.0, sc.1)
                    &&& keyinfo_wf(fk.pinfo)
                },
                Err(e) => e == MenderStatus::Failed,
            },
    {
        let table: Vec<u8> = match flash.read(crate::ota::PART_OFFSET, crate::ota::PART_SIZE) {
            Ok(t) => t,
            Err(_) => {
                return Err(MenderStatus::Failed);
            },
        };
        let pinfo: FlashKeyInfo = match Self::read_keydata_partitions(table.as_slice()) {
            Ok(p) => p,
            Err(e) => {
                return Err(e);
            },
        };
        Ok(FlashKey { flash, pinfo })
    }
}

/// A stored record is its length word followed by that many bytes.
pub open spec fn spec_record(c: Seq<u8>, off: u32) -> Seq<u8> {
    let len = u32_of_le(c.subrange(off as int, off as int + 4));
    c.subrange(off as int + 4, off as int + 4 + len as int)
}

/// The stored length word of a record.
pub open spec fn spec_record_len(c: Seq<u8>, off: u32) -> u32 {
    u32_of_le(c.subrange(off as int, off as int + 4))
}

/// Reads the length-prefixed record at `off`: absent when the length word
/// is zero, invalid when it exceeds `max`.
pub fn get_record<S: FlashMedia>(flash: &S, off: u32, max: u32) -> (r: Result<
    Vec<u8>,
    MenderStatus,
>)
    requires
        off + 4 + max <= u32::MAX,
    ensures
        match r {
            Ok(data) => {
                &&& 0 < spec_record_len(flash.contents(), off) <= max
                &&& data@ == spec_record(flash.contents(), off)
            },
            Err(e) => {
                &&& e == MenderStatus::NotFound ==> spec_record_len(flash.contents(), off) == 0
                    || spec_record_len(flash.contents(), off) > max
                &&& (e == MenderStatus::NotFound || e == MenderStatus::Failed)
            },
        },
{
    let len_bytes: Vec<u8> = match flash.read(off, 4) {
        Ok(b) => b,
        Err(_) => {
            return Err(MenderStatus::Failed);
        },
    };
    let len: u32 = u32_of_le_bytes(len_bytes.as_slice());
    if len == 0 || len > max {
        return Err(MenderStatus::NotFound);
    }
    match flash.read(off + 4, len) {
        Ok(data) => Ok(data),
        Err(_) => Err(MenderStatus::Failed),
    }
}

/// Writes the length-prefixed record at `off`; data longer than `max` is
/// refused. On success the record reads back as written and no byte outside
/// the record changes.
pub fn set_record<S: FlashMedia>(flash: &mut S, off: u32, data: &[u8], max: u32) -> (r: Result<
    (),
    MenderStatus,
>)
    requires
        off + 4 + max <= u32::MAX,
    ensures
        final(flash).contents().len() == old(flash).contents().len(),
        match r {
            Ok(_) => {
                &&& data@.len() <= max
                &&& off + 4 + data@.len() <= old(flash).contents().len()
                &&& final(flash).contents() == store_bytes(
                    store_bytes(old(flash).contents(), off as int, u32_le(data@.len() as u32)),
                    off as int + 4,
                    data@,
                )
                &&& spec_record_len(final(flash).contents(), off) == data@.len()
                &&& spec_record(final(flash).contents(), off) == data@
                &&& forall|k: int|
                    0 <= k < final(flash).contents().len() && !(off <= k < off + 4 + data@.len())
                        ==> #[trigger] final(flash).contents()[k] == old(flash).contents()[k]
            },
            Err(e) => {
                &&& e == MenderStatus::Failed
                &&& data@.len() > max ==> final(flash).contents() == old(flash).contents()
            },
        },
{
    let dl: usize = data.len();
    if dl > max as usize {
        return Err(MenderStatus::Failed);
    }
    let len_bytes: Vec<u8> = u32_le_bytes(dl as u32);
    match flash.write(off, len_bytes.as_slice()) {
        Ok(_) => {},
        Err(_) => {
            return Err(MenderStatus::Failed);
        },
    }
    match flash.write(off + 4, data) {
        Ok(_) => {
            proof {
                crate::otadata::lemma_u32_le_inverse(dl as u32);
                assert(final(flash).contents().subrange(off as int, off as int + 4) =~= u32_le(
                    dl as u32,
                ));
                assert(final(flash).contents().subrange(off as int + 4, off as int + 4 + dl)
                    =~= data@);
            }
            Ok(())
        },
        Err(_) => Err(MenderStatus::Failed),
    }
}

/// Clears the record at `off` by zeroing its length word; no byte outside
/// the word changes.
pub fn delete_record<S: FlashMedia>(flash: &mut S, off: u32) -> (r: Result<(), MenderStatus>)
    ensures
        final(flash).contents().len() == old(flash).contents().len(),
        match r {
            Ok(_) => {
                &&& off + 4 <= old(flash).contents().len()
                &&& final(flash).contents() == store_bytes(
                    old(flash).contents(),
                    off as int,
                    u32_le(0u32),
                )
                &&& spec_record_len(final(flash).contents(), off) == 0
                &&& forall|k: int|
                    0 <= k < final(flash).contents().len() && !(off <= k < off + 4) ==> #[trigger]
                        final(flash).contents()[k] == old(flash).contents()[k]
            },
            Err(e) => e == MenderStatus::Failed,
        },
{
    let zero: Vec<u8> = u32_le_bytes(0);
    match flash.write(off, zero.as_slice()) {
        Ok(_) => {
            proof {
                crate::otadata::lemma_u32_le_inverse(0u32);
                assert(final(flash).contents().subrange(off as int, off as int + 4) =~= u32_le(
                    0u32,
                ));
            }
            Ok(())
        },
        Err(_) => Err(MenderStatus::Failed),
    }
}

impl<S: FlashMedia> FlashKey<S> {
    /// Stores the authentication key pair: both records hold the given
    /// bytes afterwards. A key that does not fit its reservation (record
    /// length word included) is refused with nothing written.
    pub fn set_authentication_keys(&mut self, private_key: &[u8], public_key: &[u8]) -> (r:
        MenderResult<()>)
        requires
            keyinfo_wf(old(self).pinfo),
        ensures
            final(self).pinfo == old(self).pinfo,
            final(self).flash.contents().len() == old(self).flash.contents().len(),
            match r {
                Ok(_) => {
                    &&& private_key@.len() <= TLS_PRIVATE_KEY_LENGTH - 4
                    &&& public_key@.len() <= TLS_PUBLIC_KEY_LENGTH - 4
                    &&& spec_record(
                        final(self).flash.contents(),
                        old(self).pinfo.privatekey_offset,
                    ) == private_key@
                    &&& spec_record(
                        final(self).flash.contents(),
                        old(self).pinfo.publickey_offset,
                    ) == public_key@
                },
                Err(e) => e == MenderStatus::Failed,
            },
            private_key@.len() > TLS_PRIVATE_KEY_LENGTH - 4 || public_key@.len()
                > TLS_PUBLIC_KEY_LENGTH - 4 ==> r is Err,
    {
        if private_key.len() > 2044 || public_key.len() > 380 {
            return Err(MenderStatus::Failed);
        }
        match set_record(&mut self.flash, self.pinfo.privatekey_offset, private_key, 2044) {
            Ok(_) => {},
            Err(e) => {
                return Err(e);
            },
        }
        let ghost c1 = self.flash.contents();
        let ghost po = self.pinfo.privatekey_offset as int;
        match set_record(&mut self.flash, self.pinfo.publickey_offset, public_key, 380) {
            Ok(_) => {
                proof {
                    let c2 = self.flash.contents();
                    assert(c2.subrange(po, po + 4) =~= c1.subrange(po, po + 4));
                    assert(c2.subrange(po + 4, po + 4 + private_key@.len()) =~= c1.subrange(
                        po + 4,
                        po + 4 + private_key@.len(),
                    ));
                }
                Ok((MenderStatus::Okay, ()))
            },
            Err(e) => Err(e),
        }
    }

    /// Loads the authentication key pair; absent keys report `NotFound`.
    pub fn get_authentication_keys(&self) -> (r: MenderResult<(Vec<u8>, Vec<u8>)>)
        requires
            keyinfo_wf(self.pinfo),
        ensures
            match r {
                Ok((st, keys)) => st == MenderStatus::Okay && keys.0@ == spec_record(
                    self.flash.contents(),
                    self.pinfo.privatekey_offset,
                ) && keys.1@ == spec_record(self.flash.contents(), self.pinfo.publickey_offset),
                Err(e) => e == MenderStatus::NotFound || e == MenderStatus::Failed,
            },
    {
        let private_key: Vec<u8> = match get_record(
            &self.flash,
            self.pinfo.privatekey_offset,
            2044,
        ) {
            Ok(d) => d,
            Err(e) => {
                return Err(e);
            },
        };
        let public_key: Vec<u8> = match get_record(&self.flash, self.pinfo.publickey_offset, 380) {
            Ok(d) => d,
            Err(e) => {
                return Err(e);
            },
        };
        Ok((MenderStatus::Okay, (private_key, public_key)))
    }

    /// Forgets the authentication keys: both length words read zero
    /// afterwards.
    pub fn delete_authentication_keys(&mut self) -> (r: MenderResult<()>)
        requires
            keyinfo_wf(old(self).pinfo),
        ensures
            final(self).pinfo == old(self).pinfo,
            final(self).flash.contents().len() == old(self).flash.contents().len(),
            match r {
                Ok(_) => spec_record_len(
                    final(self).flash.contents(),
                    old(self).pinfo.privatekey_offset,
                ) == 0 && spec_record_len(
                    final(self).flash.contents(),
                    old(self).pinfo.publickey_offset,
                ) == 0,
                Err(e) => e == MenderStatus::Failed,
            },
    {
        match delete_record(&mut self.flash, self.pinfo.privatekey_offset) {
            Ok(_) => {},
            Err(e) => {
                return Err(e);
            },
        }
        let ghost c1 = self.flash.contents();
        let ghost po = self.pinfo.privatekey_offset as int;
        match delete_record(&mut self.flash, self.pinfo.publickey_offset) {
            Ok(_) => {
                proof {
                    let c2 = self.flash.contents();
                    assert(c2.subrange(po, po + 4) =~= c1.subrange(po, po + 4));
                }
                Ok((MenderStatus::Okay, ()))
            },
            Err(e) => Err(e),
        }
    }

    /// Stores the persisted deployment record: it reads back as written.
    /// Data beyond the reservation (length word included) is refused.
    pub fn set_deployment_data(&mut self, data: &[u8]) -> (r: MenderResult<()>)
        requires
            old(self).pinfo.deployment_data_offset + 4 + MAX_DATA_SIZE <= u32::MAX,
        ensures
            final(self).pinfo == old(self).pinfo,
            final(self).flash.contents().len() == old(self).flash.contents().len(),
            match r {
                Ok(_) => data@.len() <= MAX_DATA_SIZE - 4 && spec_record(
                    final(self).flash.contents(),
                    old(self).pinfo.deployment_data_offset,
                ) == data@,
                Err(e) => e == MenderStatus::Failed,
            },
            data@.len() > MAX_DATA_SIZE - 4 ==> r is Err,
    {
        match set_record(&mut self.flash, self.pinfo.deployment_data_offset, data, 1020) {
            Ok(_) => Ok((MenderStatus::Okay, ())),
            Err(e) => Err(e),
        }
    }

    /// Loads the persisted deployment record.
    pub fn get_deployment_data(&self) -> (r: MenderResult<Vec<u8>>)
        requires
            self.pinfo.deployment_data_offset + 4 + MAX_DATA_SIZE <= u32::MAX,
        ensures
            match r {
                Ok((st, data)) => st == MenderStatus::Okay && data@ == spec_record(
                    self.flash.contents(),
                    self.pinfo.deployment_data_offset,
                ),
                Err(e) => e == MenderStatus::NotFound || e == MenderStatus::Failed,
            },
    {
        match get_record(&self.flash, self.pinfo.deployment_data_offset, 1020) {
            Ok(d) => Ok((MenderStatus::Okay, d)),
            Err(e) => Err(e),
        }
    }

    /// Clears the persisted deployment record: its length word reads zero.
    pub fn delete_deployment_data(&mut self) -> (r: MenderResult<()>)
        ensures
            final(self).pinfo == old(self).pinfo,
            final(self).flash.contents().len() == old(self).flash.contents().len(),
            match r {
                Ok(_) => spec_record_len(
                    final(self).flash.contents(),
                    old(self).pinfo.deployment_data_offset,
                ) == 0,
                Err(e) => e == MenderStatus::Failed,
            },
    {
        match delete_record(&mut self.flash, self.pinfo.deployment_data_offset) {
            Ok(_) => Ok((MenderStatus::Okay, ())),
            Err(e) => Err(e),
        }
    }

    /// Stores the device configuration record: it reads back as written.
    /// Data beyond the reservation (length word included) is refused.
    pub fn set_device_config(&mut self, data: &[u8]) -> (r: MenderResult<()>)
        requires
            old(self).pinfo.device_config_offset + 4 + MAX_DATA_SIZE <= u32::MAX,
        ensures
            final(self).pinfo == old(self).pinfo,
            final(self).flash.contents().len() == old(self).flash.contents().len(),
            match r {
                Ok(_) => data@.len() <= MAX_DATA_SIZE - 4 && spec_record(
                    final(self).flash.contents(),
                    old(self).pinfo.device_config_offset,
                ) == data@,
                Err(e) => e == MenderStatus::Failed,
            },
            data@.len() > MAX_DATA_SIZE - 4 ==> r is Err,
    {
        match set_record(&mut self.flash, self.pinfo.device_config_offset, data, 1020) {
            Ok(_) => Ok((MenderStatus::Okay, ())),
            Err(e) => Err(e),
        }
    }

    /// Loads the device configuration record.
    pub fn get_device_config(&self) -> (r: MenderResult<Vec<u8>>)
        requires
            self.pinfo.device_config_offset + 4 + MAX_DATA_SIZE <= u32::MAX,
        ensures
            match r {
                Ok((st, data)) => st == MenderStatus::Okay && data@ == spec_record(
                    self.flash.contents(),
                    self.pinfo.device_config_offset,
                ),
                Err(e) => e == MenderStatus::NotFound || e == MenderStatus::Failed,
            },
    {
        match get_record(&self.flash, self.pinfo.device_config_offset, 1020) {
            Ok(d) => Ok((MenderStatus::Okay, d)),
            Err(e) => Err(e),
        }
    }
}

} // verus!
