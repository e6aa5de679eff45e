//! A signed 32-bit cell kept as raw unsigned bits.

use crate::arith::wrap_i32;
use vstd::prelude::*;

verus! {

/// A signed accumulator, stored as the bits of an unsigned word, whose addition
/// wraps around.
///
/// Every change goes through an exclusive reference: the task that holds it works on the
/// cell undisturbed, and no update is lost.
pub struct AtomicI32 {
    bits: u32,
}

impl View for AtomicI32 {
    type V = i32;

    /// The number that the bits stand for.
    closed spec fn view(&self) -> i32 {
        self.bits as i32
    }
}

impl AtomicI32 {
    /// A cell that holds `v`.
    pub fn new(v: i32) -> (cell: Self)
        ensures
            cell@ == v,
    {
        assert((v as u32) as i32 == v) by (bit_vector);
        AtomicI32 {
            bits: #[verifier::truncate]
            (v as u32),
        }
    }

    /// The number in the cell.
    pub fn load(&self) -> (v: i32)
        ensures
            v == self@,
    {
        #[verifier::truncate]
        (self.bits as i32)
    }

    /// Puts `v` into the cell.
    pub fn store(&mut self, v: i32)
        ensures
            final(self)@ == v,
    {
        assert((v as u32) as i32 == v) by (bit_vector);
        self.bits = #[verifier::truncate]
        (v as u32);
    }

    /// Adds `v`, wrapping around at the ends of the `i32` range, and returns what the
    /// cell held before.
    pub fn fetch_add(&mut self, v: i32) -> (before: i32)
        ensures
            before == old(self)@,
            final(self)@ == wrap_i32(old(self)@ + v),
    {
        let before: u32 = self.bits;
        let addend: u32 = #[verifier::truncate]
        (v as u32);
        let sum: u32 = before.wrapping_add(addend);
        proof {
            assert(before as i32 as int == if before < 0x8000_0000u32 {
                before as int
            } else {
                before - 0x1_0000_0000
            }) by (bit_vector);
            assert(sum as i32 as int == if sum < 0x8000_0000u32 {
                sum as int
            } else {
                sum - 0x1_0000_0000
            }) by (bit_vector);
            assert(addend as int == if v >= 0 {
                v as int
            } else {
                v + 0x1_0000_0000
            }) by (bit_vector)
                requires
                    addend == v as u32,
            ;
        }
        self.bits = sum;
        #[verifier::truncate]
        (before as i32)
    }
}

} // verus!
