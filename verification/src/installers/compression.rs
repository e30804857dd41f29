//! Which decompression algorithm wraps the header payload, and how many
//! stored bytes it occupies. The answer is version-gated, and for legacy
//! containers the declared size must be inflated by one checksum word per
//! 4 KiB storage sub-block, because those checksums sit inside the payload.

use vstd::prelude::*;
use crate::installers::inno_version::{spec_triple_lt, InnoVersion};

verus! {

/// The size in bytes of one storage sub-block.
pub const INNO_BLOCK_SIZE: u32 = 4096;

/// The decompression algorithm wrapped around the header stream, carrying
/// the declared size in bytes of the encoded payload.
#[derive(Clone, Copy, PartialEq, Eq, Structural, Debug)]
pub enum Compression {
    Stored(u64),
    Zlib(u64),
    Lzma1(u64),
}

impl Compression {
    /// The declared stored size, whatever the algorithm.
    pub open spec fn spec_stored_size(&self) -> u64 {
        match *self {
            Compression::Stored(n) => n,
            Compression::Zlib(n) => n,
            Compression::Lzma1(n) => n,
        }
    }

    pub fn stored_size(&self) -> (r: u64)
        ensures
            r == self.spec_stored_size(),
    {
        match *self {
            Compression::Stored(n) => n,
            Compression::Zlib(n) => n,
            Compression::Lzma1(n) => n,
        }
    }
}

/// One 32-bit checksum word per started 4 KiB sub-block, added to the
/// declared size: legacy containers interleave those checksums with the
/// payload, so they occupy stored bytes.
pub open spec fn spec_block_adjusted(size: int) -> int {
    size + ((size + 4095) / 4096) * 4
}

/// The algorithm for a modern container (version after 4.0.9): one declared
/// size plus a compressed flag; compressed payloads use LZMA1 when the
/// version is past 4.1.6, and the legacy zlib before that.
pub open spec fn spec_resolve_modern(version: InnoVersion, size: u32, compressed: bool) -> Compression {
    if compressed {
        if spec_triple_lt((4, 1, 6), version.triple()) {
            Compression::Lzma1(size as u64)
        } else {
            Compression::Zlib(size as u64)
        }
    } else {
        Compression::Stored(size as u64)
    }
}

/// The algorithm for a legacy container: a compressed size of all-ones bits
/// is the sentinel for "stored, use the uncompressed size"; anything else is
/// zlib. Either way the declared size is inflated by the per-block checksum
/// words.
pub open spec fn spec_resolve_legacy(compressed_size: u32, uncompressed_size: u32) -> Compression {
    if compressed_size == 0xFFFF_FFFFu32 {
        Compression::Stored(spec_block_adjusted(uncompressed_size as int) as u64)
    } else {
        Compression::Zlib(spec_block_adjusted(compressed_size as int) as u64)
    }
}

/// Resolves the compression of a modern container.
pub fn resolve_modern(version: &InnoVersion, size: u32, compressed: bool) -> (r: Compression)
    ensures
        r == spec_resolve_modern(*version, size, compressed),
{
    if compressed {
        if version.after_triple(4, 1, 6) {
            Compression::Lzma1(size as u64)
        } else {
            Compression::Zlib(size as u64)
        }
    } else {
        Compression::Stored(size as u64)
    }
}

/// Resolves the compression of a legacy container.
pub fn resolve_legacy(compressed_size: u32, uncompressed_size: u32) -> (r: Compression)
    ensures
        r == spec_resolve_legacy(compressed_size, uncompressed_size),
        compressed_size == 0xFFFF_FFFFu32 ==> r is Stored,
        compressed_size != 0xFFFF_FFFFu32 ==> r is Zlib,
{
    if compressed_size == 0xFFFF_FFFFu32 {
        let n = block_adjusted(uncompressed_size);
        Compression::Stored(n)
    } else {
        let n = block_adjusted(compressed_size);
        Compression::Zlib(n)
    }
}

fn block_adjusted(size: u32) -> (r: u64)
    ensures
        r == spec_block_adjusted(size as int),
{
    let s = size as u64;
    s + ((s + 4095) / 4096) * 4
}

} // verus!
