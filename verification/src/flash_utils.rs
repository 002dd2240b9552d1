//! The read-only flash-buffer adapter.
//!
//! A raw dump is treated as a randomly-addressable storage device with a
//! 4-byte read word and 4096-byte erase pages. Only reading is offered
//! here: there is no legitimate code path that writes to a decoded dump,
//! so the adapter exposes no write or erase operation at all.

use vstd::prelude::*;

verus! {

broadcast use {vstd::std_specs::vec::group_vec_axioms, vstd::seq::group_seq_axioms};

/// The error of an out-of-bounds access to the flash buffer.
#[derive(Debug, Clone, Copy, PartialEq, Eq, Structural)]
pub struct FlashVecError;

/// A read-only byte buffer standing in for a flash device.
#[derive(Debug)]
pub struct FlashVec<'a>(pub &'a [u8]);

impl<'a> FlashVec<'a> {
    /// The device capacity: the buffer length.
    pub fn capacity(&self) -> (r: usize)
        ensures
            r == self.0@.len(),
    {
        self.0.len()
    }

    /// Reads `len` bytes at `offset`, or fails when the range leaves the
    /// buffer.
    pub fn read(&self, offset: u32, len: usize) -> (r: Result<Vec<u8>, FlashVecError>)
        ensures
            (match r {
                Ok(bytes) => offset + len <= self.0@.len() && bytes@ == self.0@.subrange(
                    offset as int,
                    offset + len,
                ),
                Err(e) => offset + len > self.0@.len() && e == FlashVecError,
            }),
    {
        let n = self.0.len();
        if len > n || (offset as usize) > n - len {
            return Err(FlashVecError);
        }
        let base = offset as usize;
        let mut out: Vec<u8> = Vec::new();
        let mut k: usize = 0;
        while k < len
            invariant
                k <= len,
                base + len <= n,
                n == self.0@.len(),
                out@ =~= self.0@.subrange(base as int, base + k),
            decreases len - k,
        {
            out.push(self.0[base + k]);
            proof {
                assert(out@ =~= self.0@.subrange(base as int, base + k + 1));
            }
            k += 1;
        }
        Ok(out)
    }
}

/// Whether a page-sized chunk read off the device still holds the erased
/// sentinel in every byte, which marks the end of the written log.
pub fn page_is_erased(page: &[u8]) -> (r: bool)
    ensures
        r == (forall|i: int| 0 <= i < page@.len() ==> page@[i] == 0xFF),
{
    let n = page.len();
    let mut i: usize = 0;
    while i < n
        invariant
            i <= n,
            n == page@.len(),
            forall|j: int| 0 <= j < i ==> page@[j] == 0xFF,
        decreases n - i,
    {
        if page[i] != 0xFF {
            assert(page@[i as int] != 0xFF);
            return false;
        }
        i += 1;
    }
    true
}

} // verus!
