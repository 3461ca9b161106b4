//! A bounded one-time read over a byte range of a larger backing store.
//!
//! A logical "file" is often a small section of a larger physical file, so
//! every read must be clipped to the logical range: whatever the caller's
//! buffer size and whatever the physical file holds beyond the range, bytes
//! past the logical boundary are never handed out.

use vstd::prelude::*;

verus! {

/// Represents a bounded one-time read of one logical file.
///
/// The reader tracks the logical range (`start`, `len`) within the backing
/// store and how much has been consumed. It cannot seek, and it cannot read
/// past the end of the range.
pub struct FsReader {
    start: u64,
    len: usize,
    n_read: usize,
}

impl FsReader {
    /// Consumption never passes the logical length, and the range's end
    /// stays addressable.
    pub closed spec fn wf(self) -> bool {
        self.n_read <= self.len && self.start + self.len <= u64::MAX
    }

    /// Where the logical file starts in the backing store.
    pub closed spec fn start_at(self) -> int {
        self.start as int
    }

    /// The logical length.
    pub closed spec fn logical_len(self) -> int {
        self.len as int
    }

    /// How many bytes have been read so far.
    pub closed spec fn consumed(self) -> int {
        self.n_read as int
    }

    /// A reader over a whole file of the given size.
    pub fn for_file(len: usize) -> (r: FsReader)
        requires
            len <= u64::MAX,
        ensures
            r.wf(),
            r.start_at() == 0,
            r.logical_len() == len,
            r.consumed() == 0,
    {
        FsReader { start: 0, len, n_read: 0 }
    }

    /// A reader over the range of a contained file within a pack, as its
    /// directory entry gives it.
    pub fn for_pack_file(offset: u64, size: usize) -> (r: FsReader)
        requires
            offset + size <= u64::MAX,
        ensures
            r.wf(),
            r.start_at() == offset,
            r.logical_len() == size,
            r.consumed() == 0,
    {
        FsReader { start: offset, len: size, n_read: 0 }
    }

    /// The size of the logical file, in bytes.
    pub fn len(&self) -> (r: usize)
        ensures
            r == self.logical_len(),
    {
        self.len
    }

    /// How many bytes are left to read.
    pub fn remaining(&self) -> (r: usize)
        requires
            self.wf(),
        ensures
            r == self.logical_len() - self.consumed(),
    {
        self.len - self.n_read
    }

    /// How many bytes the next read may hand out for a buffer of the given
    /// size: never more than what is left of the logical range.
    pub fn clip(&self, buf_len: usize) -> (r: usize)
        requires
            self.wf(),
        ensures
            r == if buf_len <= self.logical_len() - self.consumed() {
                buf_len as int
            } else {
                self.logical_len() - self.consumed()
            },
            r <= self.logical_len() - self.consumed(),
    {
        let remain = self.len - self.n_read;
        if buf_len < remain {
            buf_len
        } else {
            remain
        }
    }

    /// Record that `n` bytes were read from the backing store.
    pub fn advance(&mut self, n: usize)
        requires
            old(self).wf(),
            n <= old(self).logical_len() - old(self).consumed(),
        ensures
            final(self).wf(),
            final(self).start_at() == old(self).start_at(),
            final(self).logical_len() == old(self).logical_len(),
            final(self).consumed() == old(self).consumed() + n,
    {
        self.n_read = self.n_read + n;
    }

    /// The position in the backing store that the next read starts from.
    pub fn position(&self) -> (r: u64)
        requires
            self.wf(),
        ensures
            r == self.start_at() + self.consumed(),
    {
        self.start + (self.n_read as u64)
    }

    /// Read up to `buf_len` bytes from an in-memory backing store.
    ///
    /// The read is clipped to the logical range and to the bytes the store
    /// physically holds; an empty result signals the end of the data.
    pub fn read_bytes(&mut self, data: &[u8], buf_len: usize) -> (out: Vec<u8>)
        requires
            old(self).wf(),
        ensures
            final(self).wf(),
            final(self).start_at() == old(self).start_at(),
            final(self).logical_len() == old(self).logical_len(),
            ({
                let pos = old(self).start_at() + old(self).consumed();
                let logical = old(self).logical_len() - old(self).consumed();
                let phys = if pos < data@.len() {
                    data@.len() - pos
                } else {
                    0
                };
                let k = spec_min3(buf_len as int, logical, phys);
                &&& out@.len() == k
                &&& final(self).consumed() == old(self).consumed() + k
                &&& (k > 0 ==> out@ == data@.subrange(pos, pos + k))
            }),
    {
        let ghost pos_spec = self.start as int + self.n_read as int;
        let mut k = self.len - self.n_read;
        if buf_len < k {
            k = buf_len;
        }
        let pos = self.start + (self.n_read as u64);
        let mut out: Vec<u8> = Vec::new();
        if pos >= (data.len() as u64) {
            return out;
        }
        let pos_us = pos as usize;
        let avail = data.len() - pos_us;
        if avail < k {
            k = avail;
        }
        let mut t: usize = 0;
        while t < k
            invariant
                0 <= t <= k,
                pos_us + k <= data@.len(),
                data@.len() <= usize::MAX,
                out@.len() == t,
                out@ == data@.subrange(pos_us as int, pos_us as int + t),
            decreases k - t,
        {
            out.push(data[pos_us + t]);
            proof {
                assert(out@ =~= data@.subrange(pos_us as int, pos_us as int + t + 1));
            }
            t += 1;
        }
        self.n_read = self.n_read + k;
        out
    }
}

/// The least of three quantities, never below zero.
pub open spec fn spec_min3(a: int, b: int, c: int) -> int {
    let m = if a <= b {
        a
    } else {
        b
    };
    let m2 = if m <= c {
        m
    } else {
        c
    };
    if m2 >= 0 {
        m2
    } else {
        0
    }
}

/// The total number of bytes a reader hands out over a sequence of reads,
/// with `wants` the buffer sizes the caller asks for in turn. Each read
/// yields what [`FsReader::read_bytes`] yields and consumes what it
/// consumes.
pub open spec fn total_yield(start: int, len: int, n_read: int, data_len: int, wants: Seq<
    int,
>) -> int
    decreases wants.len(),
{
    if wants.len() == 0 {
        0
    } else {
        let pos = start + n_read;
        let phys = if pos < data_len {
            data_len - pos
        } else {
            0
        };
        let k = spec_min3(wants[0], len - n_read, phys);
        k + total_yield(start, len, n_read + k, data_len, wants.drop_first())
    }
}

/// A bounded reader never hands out more than its logical length in total:
/// however many reads are made and whatever buffer sizes they ask for, the
/// bytes yielded over all of them never exceed what was left of the range.
pub proof fn lemma_reader_never_overruns(
    start: int,
    len: int,
    n_read: int,
    data_len: int,
    wants: Seq<int>,
)
    requires
        0 <= n_read <= len,
    ensures
        0 <= total_yield(start, len, n_read, data_len, wants) <= len - n_read,
    decreases wants.len(),
{
    if wants.len() > 0 {
        let pos = start + n_read;
        let phys = if pos < data_len {
            data_len - pos
        } else {
            0
        };
        let k = spec_min3(wants[0], len - n_read, phys);
        lemma_reader_never_overruns(start, len, n_read + k, data_len, wants.drop_first());
    }
}

} // verus!
