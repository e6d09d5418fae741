//! The source of signed pseudo-random magnitudes that drives spawning.
//!
//! A draw consumes two bytes of a buffer of secure random bytes supplied by
//! the host: the first byte gives the magnitude in steps of 1/256 (25 units),
//! the second the sign. The buffer itself is plain data; whoever constructs a
//! `RandomSource` decides where the bytes come from.

use vstd::prelude::*;

verus! {

/// The value of one draw, in 1/6400 units: magnitude `b0/256`, negated when
/// `b1 > 127`.
pub open spec fn rand_of(b0: u8, b1: u8) -> int {
    if b1 > 127 {
        -25 * b0
    } else {
        25 * b0
    }
}

/// The value of the draw whose two bytes sit at `pos` in `bytes`.
pub open spec fn rand_at(bytes: Seq<u8>, pos: int) -> int {
    rand_of(bytes[pos], bytes[pos + 1])
}

/// Every draw has magnitude below 1.0 (6400 units), is an exact multiple of
/// 1/256 (25 units), and is the magnitude `25 * b0` taken positively or
/// negatively according to the sign byte.
pub proof fn lemma_rand_range(b0: u8, b1: u8)
    ensures
        -6400 < rand_of(b0, b1) < 6400,
        rand_of(b0, b1) == 25 * (b0 as int) || rand_of(b0, b1) == -25 * (b0 as int),
        b1 <= 127 ==> rand_of(b0, b1) == 25 * (b0 as int),
        b1 > 127 ==> rand_of(b0, b1) == -25 * (b0 as int),
        rand_of(b0, b1) % 25 == 0,
{
    assert(rand_of(b0, b1) % 25 == 0) by (nonlinear_arith)
        requires
            rand_of(b0, b1) == 25 * (b0 as int) || rand_of(b0, b1) == -25 * (b0 as int),
    ;
}

/// A pool of secure random bytes and a cursor; each draw consumes two bytes.
pub struct RandomSource {
    pub bytes: Vec<u8>,
    pub pos: usize,
}

impl RandomSource {
    /// The cursor never runs past the end of the pool.
    pub open spec fn wf(&self) -> bool {
        self.pos <= self.bytes.len()
    }

    /// How many undrawn bytes are left.
    pub open spec fn remaining(&self) -> int {
        self.bytes.len() - self.pos
    }

    pub fn new(bytes: Vec<u8>) -> (s: RandomSource)
        ensures
            s.wf(),
            s.bytes@ == bytes@,
            s.pos == 0,
    {
        RandomSource { bytes, pos: 0 }
    }

    /// Replace the pool with fresh bytes and reset the cursor.
    pub fn refill(&mut self, bytes: Vec<u8>)
        ensures
            final(self).wf(),
            final(self).bytes@ == bytes@,
            final(self).pos == 0,
    {
        self.bytes = bytes;
        self.pos = 0;
    }

    /// How many undrawn bytes are left, as a runtime value.
    pub fn available(&self) -> (n: usize)
        requires
            self.wf(),
        ensures
            n as int == self.remaining(),
    {
        self.bytes.len() - self.pos
    }

    /// One draw: a signed value whose magnitude is below 1.0 (6400 units) in
    /// steps of 1/256 (25 units), determined exactly by the next two bytes.
    pub fn next(&mut self) -> (r: i64)
        requires
            old(self).wf(),
            old(self).remaining() >= 2,
        ensures
            final(self).wf(),
            final(self).bytes@ == old(self).bytes@,
            final(self).pos == old(self).pos + 2,
            r as int == rand_at(old(self).bytes@, old(self).pos as int),
            -6400 < r < 6400,
    {
        let b0 = self.bytes[self.pos];
        let b1 = self.bytes[self.pos + 1];
        self.pos = self.pos + 2;
        let magnitude = (b0 as i64) * 25;
        if b1 > 127 {
            -magnitude
        } else {
            magnitude
        }
    }
}

} // verus!
