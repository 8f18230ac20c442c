//! Fixed-layout non-volatile storage for the TLS credential blobs: three
//! blocks at fixed flash addresses, each written and read whole.

use vstd::prelude::*;
use crate::flashdev::{store_bytes, FlashMedia};

verus! {

/// The credential block a request names.
#[derive(Debug, Clone, Copy, PartialEq, Eq, Structural)]
pub enum BlockId {
    CrtPemId,
    DvtCrtId,
    DvtKeyId,
}

/// Errors of the block store.
#[derive(Debug, Clone, Copy, PartialEq, Eq, Structural)]
pub enum NvsError {
    IdInvalid,
    LenInvalid,
    WriteErr,
    ReadErr,
}

/// Flash address of a block.
pub open spec fn spec_block_addr(id: BlockId) -> u32 {
    match id {
        BlockId::CrtPemId => 0x9000u32,
        BlockId::DvtCrtId => 0xA000u32,
        BlockId::DvtKeyId => 0xB000u32,
    }
}

/// Exact size of a block.
pub open spec fn spec_block_size(id: BlockId) -> usize {
    match id {
        BlockId::CrtPemId => 2574usize,
        BlockId::DvtCrtId => 1268usize,
        BlockId::DvtKeyId => 1678usize,
    }
}

/// The block store over a flash medium.
pub struct Nvm<S: FlashMedia> {
    pub storage: S,
}

impl<S: FlashMedia> Nvm<S> {
    /// A store over the given medium.
    pub fn init(storage: S) -> (r: Nvm<S>)
        ensures
            r.storage.contents() == storage.contents(),
    {
        Nvm { storage }
    }

    /// Writes a whole block; the buffer must be exactly the block's size.
    pub fn nvs_write(&mut self, id: BlockId, buf: &[u8]) -> (r: Result<(), NvsError>)
        ensures
            final(self).storage.contents().len() == old(self).storage.contents().len(),
            match r {
                Ok(_) => buf@.len() == spec_block_size(id) && final(self).storage.contents()
                    == store_bytes(
                    old(self).storage.contents(),
                    spec_block_addr(id) as int,
                    buf@,
                ),
                Err(e) => {
                    &&& e == NvsError::LenInvalid ==> buf@.len() != spec_block_size(id)
                        && final(self).storage.contents() == old(self).storage.contents()
                    &&& (e == NvsError::LenInvalid || e == NvsError::WriteErr)
                },
            },
    {
        let size: usize = match id {
            BlockId::CrtPemId => 2574,
            BlockId::DvtCrtId => 1268,
            BlockId::DvtKeyId => 1678,
        };
        if buf.len() != size {
            return Err(NvsError::LenInvalid);
        }
        let addr: u32 = match id {
            BlockId::CrtPemId => 0x9000,
            BlockId::DvtCrtId => 0xA000,
            BlockId::DvtKeyId => 0xB000,
        };
        match self.storage.write(addr, buf) {
            Ok(_) => Ok(()),
            Err(_) => Err(NvsError::WriteErr),
        }
    }

    /// Reads a whole block.
    pub fn nvs_read(&self, id: BlockId) -> (r: Result<Vec<u8>, NvsError>)
        ensures
            match r {
                Ok(data) => data@ == self.storage.contents().subrange(
                    spec_block_addr(id) as int,
                    spec_block_addr(id) as int + spec_block_size(id) as int,
                ),
                Err(e) => e == NvsError::ReadErr,
            },
    {
        let size: u32 = match id {
            BlockId::CrtPemId => 2574,
            BlockId::DvtCrtId => 1268,
            BlockId::DvtKeyId => 1678,
        };
        let addr: u32 = match id {
            BlockId::CrtPemId => 0x9000,
            BlockId::DvtCrtId => 0xA000,
            BlockId::DvtKeyId => 0xB000,
        };
        match self.storage.read(addr, size) {
            Ok(data) => Ok(data),
            Err(_) => Err(NvsError::ReadErr),
        }
    }
}

} // verus!
