//! A bounds-checked cursor over an in-memory byte region. Every multi-byte
//! integer in the installer formats handled here is little-endian.

use vstd::prelude::*;

verus! {

/// The little-endian 16-bit value of two bytes.
pub open spec fn spec_le16(b0: u8, b1: u8) -> u16 {
    (b0 as u16 + b1 as u16 * 0x100) as u16
}

/// The little-endian 32-bit value of four bytes.
pub open spec fn spec_le32(b0: u8, b1: u8, b2: u8, b3: u8) -> u32 {
    (b0 as u32 + b1 as u32 * 0x100 + b2 as u32 * 0x1_0000 + b3 as u32 * 0x100_0000) as u32
}

/// A cursor over a byte region; reads fail once fewer bytes remain than
/// asked for, and the position never passes the end.
pub struct ByteReader<'a> {
    pub data: &'a [u8],
    pub pos: usize,
}

impl<'a> ByteReader<'a> {
    /// The reader's position is inside its region.
    pub open spec fn wf(&self) -> bool {
        self.pos <= self.data@.len()
    }

    /// The bytes not yet consumed.
    pub open spec fn remaining(&self) -> Seq<u8> {
        self.data@.skip(self.pos as int)
    }

    pub fn new(data: &'a [u8]) -> (r: ByteReader<'a>)
        ensures
            r.wf(),
            r.data@ == data@,
            r.pos == 0,
    {
        ByteReader { data, pos: 0 }
    }

    pub fn at(data: &'a [u8], pos: usize) -> (r: Option<ByteReader<'a>>)
        ensures
            match r {
                Some(rd) => pos <= data@.len() && rd.wf() && rd.data@ == data@ && rd.pos == pos,
                None => pos > data@.len(),
            },
    {
        if pos <= data.len() {
            Some(ByteReader { data, pos })
        } else {
            None
        }
    }

    pub fn remaining_len(&self) -> (r: usize)
        requires
            self.wf(),
        ensures
            r == self.remaining().len(),
    {
        self.data.len() - self.pos
    }

    /// Reads one byte.
    pub fn read_u8(&mut self) -> (r: Option<u8>)
        requires
            old(self).wf(),
        ensures
            final(self).wf(),
            final(self).data@ == old(self).data@,
            match r {
                Some(b) => old(self).remaining().len() >= 1 && b == old(self).remaining()[0]
                    && final(self).pos == old(self).pos + 1,
                None => old(self).remaining().len() < 1 && final(self).pos == old(self).pos,
            },
    {
        if self.pos < self.data.len() {
            let b = self.data[self.pos];
            self.pos = self.pos + 1;
            Some(b)
        } else {
            None
        }
    }

    /// Reads a little-endian 16-bit integer.
    pub fn read_u16_le(&mut self) -> (r: Option<u16>)
        requires
            old(self).wf(),
        ensures
            final(self).wf(),
            final(self).data@ == old(self).data@,
            match r {
                Some(v) => old(self).remaining().len() >= 2 && v == spec_le16(
                    old(self).remaining()[0],
                    old(self).remaining()[1],
                ) && final(self).pos == old(self).pos + 2,
                None => old(self).remaining().len() < 2 && final(self).pos == old(self).pos,
            },
    {
        if 2 <= self.data.len() - self.pos {
            let b0 = self.data[self.pos];
            let b1 = self.data[self.pos + 1];
            self.pos = self.pos + 2;
            Some(b0 as u16 + b1 as u16 * 0x100)
        } else {
            None
        }
    }

    /// Reads a little-endian 32-bit integer.
    pub fn read_u32_le(&mut self) -> (r: Option<u32>)
        requires
            old(self).wf(),
        ensures
            final(self).wf(),
            final(self).data@ == old(self).data@,
            match r {
                Some(v) => old(self).remaining().len() >= 4 && v == spec_le32(
                    old(self).remaining()[0],
                    old(self).remaining()[1],
                    old(self).remaining()[2],
                    old(self).remaining()[3],
                ) && final(self).pos == old(self).pos + 4,
                None => old(self).remaining().len() < 4 && final(self).pos == old(self).pos,
            },
    {
        if 4 <= self.data.len() - self.pos {
            let b0 = self.data[self.pos];
            let b1 = self.data[self.pos + 1];
            let b2 = self.data[self.pos + 2];
            let b3 = self.data[self.pos + 3];
            self.pos = self.pos + 4;
            Some(b0 as u32 + b1 as u32 * 0x100 + b2 as u32 * 0x1_0000 + b3 as u32 * 0x100_0000)
        } else {
            None
        }
    }

    /// Reads `n` bytes into a fresh vector.
    pub fn read_bytes(&mut self, n: usize) -> (r: Option<Vec<u8>>)
        requires
            old(self).wf(),
        ensures
            final(self).wf(),
            final(self).data@ == old(self).data@,
            match r {
                Some(v) => old(self).remaining().len() >= n && v@ == old(self).remaining().take(
                    n as int,
                ) && final(self).pos == old(self).pos + n,
                None => old(self).remaining().len() < n && final(self).pos == old(self).pos,
            },
    {
        if n <= self.data.len() - self.pos {
            let mut out: Vec<u8> = Vec::new();
            let mut i: usize = 0;
            while i < n
                invariant
                    i <= n,
                    self.wf(),
                    self.pos + n <= self.data.len(),
                    out@ == self.remaining().subrange(0, i as int),
                decreases n - i,
            {
                out.push(self.data[self.pos + i]);
                proof {
                    assert(out@ =~= self.remaining().subrange(0, i + 1));
                }
                i = i + 1;
            }
            self.pos = self.pos + n;
            proof {
                assert(old(self).remaining().subrange(0, n as int) =~= old(
                    self,
                ).remaining().take(n as int));
            }
            Some(out)
        } else {
            None
        }
    }

    /// Skips `n` bytes.
    pub fn skip_bytes(&mut self, n: usize) -> (r: bool)
        requires
            old(self).wf(),
        ensures
            final(self).wf(),
            final(self).data@ == old(self).data@,
            r == (old(self).remaining().len() >= n),
            if r {
                final(self).pos == old(self).pos + n
            } else {
                final(self).pos == old(self).pos
            },
    {
        if n <= self.data.len() - self.pos {
            self.pos = self.pos + n;
            true
        } else {
            false
        }
    }
}

/// Copies `data[start .. start + len]`, if that range lies inside `data`.
pub fn bytes_range(data: &[u8], start: usize, len: usize) -> (r: Option<Vec<u8>>)
    ensures
        match r {
            Some(v) => start + len <= data@.len() && v@ == data@.subrange(
                start as int,
                start + len,
            ),
            None => start + len > data@.len(),
        },
{
    if start <= data.len() && len <= data.len() - start {
        let mut out: Vec<u8> = Vec::new();
        let mut i: usize = 0;
        while i < len
            invariant
                i <= len,
                start + len <= data@.len(),
                data@.len() <= usize::MAX,
                out@ == data@.subrange(start as int, start + i),
            decreases len - i,
        {
            out.push(data[start + i]);
            proof {
                assert(out@ =~= data@.subrange(start as int, start + i + 1));
            }
            i = i + 1;
        }
        Some(out)
    } else {
        None
    }
}

} // verus!
