//! Byte-addressed flash storage as the OTA engine sees it. The engine is
//! generic over the medium; an in-memory medium is provided, and a hardware
//! driver can implement the same trait.

use vstd::prelude::*;

verus! {

/// Error of a flash read or write.
#[derive(Debug, Clone, Copy, PartialEq, Eq, Structural)]
pub struct FlashError;

/// `c` with the bytes starting at `off` replaced by `d`.
pub open spec fn store_bytes(c: Seq<u8>, off: int, d: Seq<u8>) -> Seq<u8> {
    Seq::new(c.len(), |i: int| if off <= i < off + d.len() { d[i - off] } else { c[i] })
}

/// A byte-addressed storage medium. Reads and writes move whole byte ranges;
/// an out-of-range access fails. A write may fail for other reasons too (a
/// worn device, a bus fault); the contents are then unspecified, but the
/// medium never changes size.
pub trait FlashMedia: Sized {
    /// The bytes the medium holds.
    spec fn contents(&self) -> Seq<u8>;

    /// The size of the medium in bytes.
    fn media_len(&self) -> (n: usize)
        ensures
            n == self.contents().len(),
    ;

    /// Reads `len` bytes starting at `offset`.
    fn read(&self, offset: u32, len: u32) -> (r: Result<Vec<u8>, FlashError>)
        ensures
            match r {
                Ok(data) => offset + len <= self.contents().len() && data@ == self.contents()
                    .subrange(offset as int, offset as int + len as int),
                Err(_) => true,
            },
            offset + len > self.contents().len() ==> r is Err,
    ;

    /// Writes `data` starting at `offset`.
    fn write(&mut self, offset: u32, data: &[u8]) -> (r: Result<(), FlashError>)
        ensures
            final(self).contents().len() == old(self).contents().len(),
            match r {
                Ok(_) => offset + data@.len() <= old(self).contents().len() && final(self)
                    .contents() == store_bytes(old(self).contents(), offset as int, data@),
                Err(_) => true,
            },
            offset + data@.len() > old(self).contents().len() ==> r is Err,
    ;
}

/// An in-memory flash medium: its contract strengthens the trait's — every
/// in-range access succeeds.
pub struct RamFlash {
    mem: Vec<u8>,
}

impl RamFlash {
    /// A medium of `size` bytes, all holding `fill`.
    pub fn filled(size: usize, fill: u8) -> (r: RamFlash)
        ensures
            r.contents() == Seq::new(size as nat, |i: int| fill),
    {
        let mut mem: Vec<u8> = Vec::new();
        let mut i: usize = 0;
        while i < size
            invariant
                i <= size,
                mem@ =~= Seq::new(i as nat, |k: int| fill),
            decreases size - i,
        {
            mem.push(fill);
            i = i + 1;
        }
        proof {
            assert(mem@ =~= Seq::new(size as nat, |i: int| fill));
        }
        RamFlash { mem }
    }

    /// A medium holding exactly the given bytes.
    pub fn from_vec(mem: Vec<u8>) -> (r: RamFlash)
        ensures
            r.contents() == mem@,
    {
        RamFlash { mem }
    }

    /// The current contents, for inspection.
    pub fn bytes(&self) -> (r: &Vec<u8>)
        ensures
            r@ == self.contents(),
    {
        &self.mem
    }
}

impl FlashMedia for RamFlash {
    closed spec fn contents(&self) -> Seq<u8> {
        self.mem@
    }

    fn media_len(&self) -> (n: usize)
        ensures
            n == self.contents().len(),
    {
        self.mem.len()
    }

    fn read(&self, offset: u32, len: u32) -> (r: Result<Vec<u8>, FlashError>)
        ensures
            match r {
                Ok(data) => offset + len <= self.contents().len() && data@ == self.contents()
                    .subrange(offset as int, offset as int + len as int),
                Err(_) => true,
            },
            offset + len > self.contents().len() ==> r is Err,
            offset + len <= self.contents().len() ==> r is Ok,
    {
        let off: usize = offset as usize;
        let n: usize = len as usize;
        if n > self.mem.len() || off > self.mem.len() - n {
            return Err(FlashError);
        }
        let mut out: Vec<u8> = Vec::new();
        let mut i: usize = 0;
        while i < n
            invariant
                i <= n,
                off + n <= usize::MAX,
                off + n <= self.mem@.len(),
                out@ =~= self.mem@.subrange(off as int, off as int + i as int),
            decreases n - i,
        {
            out.push(self.mem[off + i]);
            i = i + 1;
        }
        proof {
            assert(out@ =~= self.contents().subrange(offset as int, offset as int + len as int));
        }
        Ok(out)
    }

    fn write(&mut self, offset: u32, data: &[u8]) -> (r: Result<(), FlashError>)
        ensures
            final(self).contents().len() == old(self).contents().len(),
            match r {
                Ok(_) => offset + data@.len() <= old(self).contents().len() && final(self)
                    .contents() == store_bytes(old(self).contents(), offset as int, data@),
                Err(_) => true,
            },
            offset + data@.len() > old(self).contents().len() ==> r is Err,
            offset + data@.len() <= old(self).contents().len() ==> r is Ok,
    {
        let off: usize = offset as usize;
        let n: usize = data.len();
        if n > self.mem.len() || off > self.mem.len() - n {
            return Err(FlashError);
        }
        let mut i: usize = 0;
        while i < n
            invariant
                i <= n,
                off + n <= usize::MAX,
                off + n <= self.mem@.len(),
                self.mem@.len() == old(self).mem@.len(),
                data@.len() == n,
                forall|k: int| 0 <= k < i ==> self.mem@[off + k] == data@[k],
                forall|k: int| 0 <= k < self.mem@.len() && !(off <= k < off + i) ==> self.mem@[k]
                    == old(self).mem@[k],
            decreases n - i,
        {
            self.mem.set(off + i, data[i]);
            i = i + 1;
        }
        proof {
            assert(self.mem@ =~= store_bytes(old(self).contents(), offset as int, data@));
        }
        Ok(())
    }
}

} // verus!
