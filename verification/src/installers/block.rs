//! The sub-block storage layer of the setup container: the stored payload is
//! cut into 4 KiB slices, each preceded by its own 32-bit checksum word.
//! This layer strips and verifies those words, yielding the raw payload.

use vstd::prelude::*;
use crate::installers::compression::INNO_BLOCK_SIZE;
use crate::installers::crc32::{crc32_of, spec_crc32};
use crate::installers::reader::spec_le32;

verus! {

/// The payload carried by a sub-block stream: each block is a 4-byte
/// checksum word followed by up to 4 KiB of payload (only the last block may
/// be short), and every checksum must match its block. `None` when a block
/// is truncated, empty, or fails its checksum.
pub open spec fn spec_deblock(data: Seq<u8>) -> Option<Seq<u8>>
    decreases data.len(),
{
    if data.len() == 0 {
        Some(Seq::empty())
    } else if data.len() < 5 {
        None
    } else {
        let crc = spec_le32(data[0], data[1], data[2], data[3]);
        let chunk_len = if data.len() - 4 < 4096 {
            data.len() - 4
        } else {
            4096
        };
        let chunk = data.subrange(4, 4 + chunk_len);
        if spec_crc32(chunk) == crc {
            match spec_deblock(data.skip(4 + chunk_len)) {
                Some(rest) => Some(chunk + rest),
                None => None,
            }
        } else {
            None
        }
    }
}

/// Strips and verifies the per-block checksum words of a sub-block stream.
pub fn deblock(data: &Vec<u8>) -> (r: Option<Vec<u8>>)
    ensures
        match r {
            Some(v) => spec_deblock(data@) == Some(v@),
            None => spec_deblock(data@) is None,
        },
{
    let mut out: Vec<u8> = Vec::new();
    let mut pos: usize = 0;
    proof {
        assert(data@.skip(0) =~= data@);
        assert(data@.len() == data.len());
    }
    while pos < data.len()
        invariant
            pos <= data.len(),
            data@.len() <= usize::MAX,
            forall|rest: Seq<u8>|
                spec_deblock(data@.skip(pos as int)) == Some(rest) ==> spec_deblock(data@)
                    == Some(out@ + rest),
            spec_deblock(data@.skip(pos as int)) is None ==> spec_deblock(data@) is None,
        decreases data.len() - pos,
    {
        let ghost tail = data@.skip(pos as int);
        let remaining = data.len() - pos;
        if remaining < 5 {
            return None;
        }
        let crc = {
            let b0 = data[pos];
            let b1 = data[pos + 1];
            let b2 = data[pos + 2];
            let b3 = data[pos + 3];
            b0 as u32 + b1 as u32 * 0x100 + b2 as u32 * 0x1_0000 + b3 as u32 * 0x100_0000
        };
        let chunk_len: usize = if remaining - 4 < INNO_BLOCK_SIZE as usize {
            remaining - 4
        } else {
            INNO_BLOCK_SIZE as usize
        };
        proof {
            assert(tail[0] == data@[pos as int]);
            assert(tail[1] == data@[pos + 1]);
            assert(tail[2] == data@[pos + 2]);
            assert(tail[3] == data@[pos + 3]);
        }
        let mut chunk: Vec<u8> = Vec::new();
        let mut i: usize = 0;
        while i < chunk_len
            invariant
                i <= chunk_len,
                pos + 4 + chunk_len <= data.len(),
                data@.len() <= usize::MAX,
                chunk@ == data@.subrange(pos + 4, pos + 4 + i),
            decreases chunk_len - i,
        {
            chunk.push(data[pos + 4 + i]);
            proof {
                assert(chunk@ =~= data@.subrange(pos + 4, pos + 4 + i + 1));
            }
            i = i + 1;
        }
        proof {
            assert(tail.subrange(4, 4 + chunk_len as int) =~= data@.subrange(
                pos + 4,
                pos + 4 + chunk_len,
            ));
            assert(chunk@ == tail.subrange(4, 4 + chunk_len as int));
        }
        if crc32_of(&chunk) != crc {
            proof {
                assert(spec_deblock(tail) is None);
            }
            return None;
        }
        let ghost prev_out = out@;
        let mut j: usize = 0;
        while j < chunk.len()
            invariant
                j <= chunk.len(),
                out@ == prev_out + chunk@.take(j as int),
            decreases chunk.len() - j,
        {
            out.push(chunk[j]);
            proof {
                assert(out@ =~= prev_out + chunk@.take(j + 1));
            }
            j = j + 1;
        }
        proof {
            assert(prev_out + chunk@.take(chunk@.len() as int) =~= prev_out + chunk@);
            assert(tail.skip(4 + chunk_len as int) =~= data@.skip(pos + 4 + chunk_len));
            let next_tail = data@.skip(pos + 4 + chunk_len);
            assert(spec_deblock(tail) == match spec_deblock(next_tail) {
                Some(rest) => Some(chunk@ + rest),
                None => None::<Seq<u8>>,
            });
            assert forall|rest: Seq<u8>| spec_deblock(next_tail) == Some(rest) implies spec_deblock(
                data@,
            ) == Some(out@ + rest) by {
                assert(spec_deblock(tail) == Some(chunk@ + rest));
                assert(prev_out + (chunk@ + rest) =~= (prev_out + chunk@) + rest);
            }
        }
        pos = pos + 4 + chunk_len;
    }
    proof {
        assert(data@.skip(pos as int) =~= Seq::<u8>::empty());
        assert(spec_deblock(Seq::<u8>::empty()) == Some(Seq::<u8>::empty()));
        assert(out@ + Seq::<u8>::empty() =~= out@);
    }
    Some(out)
}

} // verus!
