//! The 32-bit cyclic redundancy check that guards the setup container's
//! size fields and each 4 KiB storage sub-block.

use vstd::prelude::*;

verus! {

/// One shift step of the reflected CRC-32 polynomial 0xEDB88320.
pub open spec fn spec_crc32_shift(x: u32) -> u32 {
    if x & 1 == 1 {
        (x >> 1) ^ 0xEDB8_8320u32
    } else {
        x >> 1
    }
}

/// `n` shift steps.
pub open spec fn spec_crc32_shifts(x: u32, n: nat) -> u32
    decreases n,
{
    if n == 0 {
        x
    } else {
        spec_crc32_shifts(spec_crc32_shift(x), (n - 1) as nat)
    }
}

/// Folds one byte into the running state.
pub open spec fn spec_crc32_byte(state: u32, b: u8) -> u32 {
    spec_crc32_shifts(state ^ (b as u32), 8)
}

/// Folds a byte sequence into the running state, first byte first.
pub open spec fn spec_crc32_raw(state: u32, bytes: Seq<u8>) -> u32
    decreases bytes.len(),
{
    if bytes.len() == 0 {
        state
    } else {
        spec_crc32_raw(spec_crc32_byte(state, bytes[0]), bytes.drop_first())
    }
}

/// The CRC-32 of a byte sequence.
pub open spec fn spec_crc32(bytes: Seq<u8>) -> u32 {
    spec_crc32_raw(0xFFFF_FFFFu32, bytes) ^ 0xFFFF_FFFFu32
}

/// Extending the input by one byte folds that byte into the state last.
pub proof fn lemma_crc32_raw_push(state: u32, bytes: Seq<u8>, b: u8)
    ensures
        spec_crc32_raw(state, bytes.push(b)) == spec_crc32_byte(spec_crc32_raw(state, bytes), b),
    decreases bytes.len(),
{
    let p = bytes.push(b);
    assert(p.len() == bytes.len() + 1);
    if bytes.len() == 0 {
        assert(p[0] == b);
        assert(p.drop_first() =~= Seq::<u8>::empty());
        assert(spec_crc32_raw(state, p) == spec_crc32_raw(spec_crc32_byte(state, b), p.drop_first()));
        assert(spec_crc32_raw(spec_crc32_byte(state, b), Seq::<u8>::empty()) == spec_crc32_byte(
            state,
            b,
        ));
        assert(spec_crc32_raw(state, bytes) == state);
    } else {
        assert(p[0] == bytes[0]);
        assert(p.drop_first() =~= bytes.drop_first().push(b));
        lemma_crc32_raw_push(spec_crc32_byte(state, bytes[0]), bytes.drop_first(), b);
        assert(spec_crc32_raw(state, p) == spec_crc32_raw(
            spec_crc32_byte(state, bytes[0]),
            bytes.drop_first().push(b),
        ));
        assert(spec_crc32_raw(state, bytes) == spec_crc32_raw(
            spec_crc32_byte(state, bytes[0]),
            bytes.drop_first(),
        ));
    }
}

/// A running checksum over every byte fed to it: the read-through filter
/// that integrity checks in the container formats are computed with.
pub struct Crc32 {
    pub state: u32,
    pub consumed: Ghost<Seq<u8>>,
}

impl Crc32 {
    /// The state is the raw fold of everything consumed so far.
    pub open spec fn wf(&self) -> bool {
        self.state == spec_crc32_raw(0xFFFF_FFFFu32, self.consumed@)
    }

    pub fn new() -> (r: Crc32)
        ensures
            r.wf(),
            r.consumed@ == Seq::<u8>::empty(),
    {
        Crc32 { state: 0xFFFF_FFFFu32, consumed: Ghost(Seq::empty()) }
    }

    /// Feeds one byte through the filter.
    pub fn update(&mut self, b: u8)
        requires
            old(self).wf(),
        ensures
            final(self).wf(),
            final(self).consumed@ == old(self).consumed@.push(b),
    {
        let mut x: u32 = self.state ^ (b as u32);
        let mut n: usize = 0;
        while n < 8
            invariant
                n <= 8,
                x == spec_crc32_shifts(old(self).state ^ (b as u32), n as nat),
            decreases 8 - n,
        {
            proof {
                lemma_crc32_shifts_step(old(self).state ^ (b as u32), n as nat);
            }
            if x & 1 == 1 {
                x = (x >> 1) ^ 0xEDB8_8320u32;
            } else {
                x = x >> 1;
            }
            n = n + 1;
        }
        self.state = x;
        proof {
            self.consumed@ = old(self).consumed@.push(b);
            lemma_crc32_raw_push(0xFFFF_FFFFu32, old(self).consumed@, b);
        }
    }

    /// Feeds a whole byte slice through the filter.
    pub fn update_bytes(&mut self, bytes: &Vec<u8>)
        requires
            old(self).wf(),
        ensures
            final(self).wf(),
            final(self).consumed@ == old(self).consumed@ + bytes@,
    {
        let mut i: usize = 0;
        while i < bytes.len()
            invariant
                i <= bytes.len(),
                self.wf(),
                self.consumed@ == old(self).consumed@ + bytes@.take(i as int),
            decreases bytes.len() - i,
        {
            self.update(bytes[i]);
            proof {
                assert(self.consumed@ =~= old(self).consumed@ + bytes@.take(i + 1));
            }
            i = i + 1;
        }
        proof {
            assert(old(self).consumed@ + bytes@.take(bytes@.len() as int) =~= old(self).consumed@
                + bytes@);
        }
    }

    /// The checksum of everything consumed so far.
    pub fn finalize(&self) -> (r: u32)
        requires
            self.wf(),
        ensures
            r == spec_crc32(self.consumed@),
    {
        self.state ^ 0xFFFF_FFFFu32
    }
}

proof fn lemma_crc32_shifts_step(x: u32, n: nat)
    ensures
        spec_crc32_shifts(x, n + 1) == spec_crc32_shift(spec_crc32_shifts(x, n)),
    decreases n,
{
    if n == 0 {
        assert(spec_crc32_shifts(x, 1) == spec_crc32_shifts(spec_crc32_shift(x), 0));
    } else {
        lemma_crc32_shifts_step(spec_crc32_shift(x), (n - 1) as nat);
        assert((n - 1) as nat + 1 == n);
        assert(spec_crc32_shifts(x, n + 1) == spec_crc32_shifts(spec_crc32_shift(x), n));
        assert(spec_crc32_shifts(x, n) == spec_crc32_shifts(spec_crc32_shift(x), (n - 1) as nat));
    }
}

/// The CRC-32 of a byte vector.
pub fn crc32_of(bytes: &Vec<u8>) -> (r: u32)
    ensures
        r == spec_crc32(bytes@),
{
    let mut filter = Crc32::new();
    filter.update_bytes(bytes);
    proof {
        assert(Seq::<u8>::empty() + bytes@ =~= bytes@);
    }
    filter.finalize()
}

} // verus!
