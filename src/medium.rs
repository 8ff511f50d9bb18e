//! The storage a filesystem lives on: a byte-addressable store read and
//! written in exact, positioned ranges.
use vstd::prelude::*;
use crate::error::FsError;

verus! {

/// The store `c` after `data` was written at `offset`. A write past the end
/// grows the store; bytes that no write reached read as zero. Writing no
/// bytes changes nothing.
pub open spec fn overwrite(c: Seq<u8>, offset: int, data: Seq<u8>) -> Seq<u8> {
    let n = if data.len() > 0 && offset + data.len() > c.len() {
        offset + data.len()
    } else {
        c.len() as int
    };
    Seq::new(
        n as nat,
        |i: int|
            if offset <= i < offset + data.len() {
                data[i - offset]
            } else if i < c.len() {
                c[i]
            } else {
                0u8
            },
    )
}

/// `disk` holds the bytes `rec` at `off`.
pub open spec fn holds_record(disk: Seq<u8>, off: int, rec: Seq<u8>) -> bool {
    0 <= off && off + rec.len() <= disk.len() && disk.subrange(off, off + rec.len()) == rec
}

/// What was just written is there to read.
pub proof fn lemma_overwrite_holds(c: Seq<u8>, off: int, rec: Seq<u8>)
    requires
        0 <= off,
        rec.len() > 0,
    ensures
        holds_record(overwrite(c, off, rec), off, rec),
{
    assert(overwrite(c, off, rec).subrange(off, off + rec.len()) =~= rec);
}

/// A write that does not overlap a range leaves the bytes there as they were.
pub proof fn lemma_overwrite_disjoint(c: Seq<u8>, off: int, rec: Seq<u8>, o: int, d: Seq<u8>)
    requires
        holds_record(c, off, rec),
        0 <= o,
        o + d.len() <= off || off + rec.len() <= o,
    ensures
        holds_record(overwrite(c, o, d), off, rec),
{
    assert(overwrite(c, o, d).subrange(off, off + rec.len()) =~= rec);
}

/// Two adjacent writes leave what one write of both would.
pub proof fn lemma_overwrite_append(c: Seq<u8>, o: int, a: Seq<u8>, b: Seq<u8>)
    requires
        0 <= o,
    ensures
        overwrite(overwrite(c, o, a), o + a.len(), b) == overwrite(c, o, a + b),
{
    assert(overwrite(overwrite(c, o, a), o + a.len(), b) =~= overwrite(c, o, a + b));
}

/// A byte-addressable store. A read or write covers the whole range or
/// fails; a failed write may have changed any part of the store.
pub trait Medium {
    /// The bytes the store holds.
    spec fn contents(&self) -> Seq<u8>;

    /// Reads `len` bytes at `offset` into `buffer`.
    fn read_all(&self, offset: u64, len: usize, buffer: &mut Vec<u8>) -> (r: Result<(), FsError>)
        requires
            old(buffer)@.len() == len,
        ensures
            final(buffer)@.len() == len,
            r is Ok ==> offset + len <= self.contents().len() && final(buffer)@
                == self.contents().subrange(offset as int, offset + len),
            r is Err ==> r == Err::<(), FsError>(FsError::IoError),
    ;

    /// Writes the `len` bytes of `buffer` at `offset`.
    fn write_all(&mut self, offset: u64, len: usize, buffer: &[u8]) -> (r: Result<(), FsError>)
        requires
            buffer@.len() == len,
        ensures
            r is Ok ==> final(self).contents() == overwrite(
                old(self).contents(),
                offset as int,
                buffer@,
            ),
            r is Err ==> r == Err::<(), FsError>(FsError::IoError),
    ;
}

/// A fixed-size store held in memory. A read or write that does not fit in
/// it fails.
pub struct MemoryMedium {
    bytes: Vec<u8>,
}

impl MemoryMedium {
    /// A zero-filled store of `size` bytes.
    pub fn new(size: usize) -> (r: MemoryMedium)
        ensures
            r.contents() == Seq::new(size as nat, |i: int| 0u8),
    {
        let mut bytes: Vec<u8> = Vec::new();
        let mut i: usize = 0;
        while i < size
            invariant
                i <= size,
                bytes@ == Seq::new(i as nat, |k: int| 0u8),
            decreases size - i,
        {
            bytes.push(0u8);
            i = i + 1;
            assert(bytes@ =~= Seq::new(i as nat, |k: int| 0u8));
        }
        MemoryMedium { bytes }
    }

    /// A store that holds `bytes`.
    pub fn from_bytes(bytes: Vec<u8>) -> (r: MemoryMedium)
        ensures
            r.contents() == bytes@,
    {
        MemoryMedium { bytes }
    }

    /// The bytes the store holds.
    pub fn into_bytes(self) -> (r: Vec<u8>)
        ensures
            r@ == self.contents(),
    {
        self.bytes
    }

    /// Size of the store, in bytes.
    pub fn len(&self) -> (r: usize)
        ensures
            r == self.contents().len(),
    {
        self.bytes.len()
    }
}

impl Medium for MemoryMedium {
    closed spec fn contents(&self) -> Seq<u8> {
        self.bytes@
    }

    fn read_all(&self, offset: u64, len: usize, buffer: &mut Vec<u8>) -> (r: Result<(), FsError>) {
        let size = self.bytes.len();
        if offset > size as u64 || len > size - offset as usize {
            return Err(FsError::IoError);
        }
        let start = offset as usize;
        let mut i: usize = 0;
        while i < len
            invariant
                i <= len,
                start + len <= size,
                size == self.bytes@.len(),
                buffer@.len() == len,
                forall|k: int| 0 <= k < i ==> buffer@[k] == self.bytes@[start + k],
            decreases len - i,
        {
            buffer.set(i, self.bytes[start + i]);
            i = i + 1;
        }
        assert(buffer@ =~= self.bytes@.subrange(start as int, start + len));
        Ok(())
    }

    fn write_all(&mut self, offset: u64, len: usize, buffer: &[u8]) -> (r: Result<(), FsError>) {
        let size = self.bytes.len();
        if offset > size as u64 || len > size - offset as usize {
            return Err(FsError::IoError);
        }
        let start = offset as usize;
        let mut i: usize = 0;
        while i < len
            invariant
                i <= len,
                start + len <= size,
                size == self.bytes@.len(),
                buffer@.len() == len,
                self.bytes@.len() == old(self).bytes@.len(),
                forall|k: int|
                    0 <= k < size ==> #[trigger] self.bytes@[k] == if start <= k < start + i {
                        buffer@[k - start]
                    } else {
                        old(self).bytes@[k]
                    },
            decreases len - i,
        {
            self.bytes.set(start + i, buffer[i]);
            i = i + 1;
        }
        assert(self.bytes@ =~= overwrite(old(self).bytes@, offset as int, buffer@));
        Ok(())
    }
}

} // verus!
