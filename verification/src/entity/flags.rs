use vstd::prelude::*;

verus! {

/// A set of entity flags, one bit each.
#[derive(Clone, Copy, PartialEq, Eq, Structural, Debug)]
pub struct EntityFlags {
    pub bits: u32,
}

pub const GRAVITY: u32 = 0x1;
pub const THROW: u32 = 0x2;
pub const EATER: u32 = 0x4;
pub const COLLIDE: u32 = 0x8;
pub const MOVABLE: u32 = 0x10;
pub const MOVED: u32 = 0x20;
pub const MASS_CHANGED: u32 = 0x40;
pub const BOUNCE: u32 = 0x80;
pub const MATRIX_SIMPLE_TO_CHANGE: u32 = 0x100;

/// The bit is one of the nine flags.
pub open spec fn is_flag(bit: u32) -> bool {
    bit == GRAVITY || bit == THROW || bit == EATER || bit == COLLIDE || bit == MOVABLE || bit == MOVED
        || bit == MASS_CHANGED || bit == BOUNCE || bit == MATRIX_SIMPLE_TO_CHANGE
}

impl EntityFlags {
    /// Every bit of `mask` is set.
    pub open spec fn has(self, mask: u32) -> bool {
        self.bits & mask == mask
    }

    /// No flag set.
    pub fn empty() -> (f: EntityFlags)
        ensures
            f.bits == 0,
            forall|b: u32| is_flag(b) ==> !#[trigger] f.has(b),
    {
        proof {
            assert forall|b: u32| is_flag(b) implies !(0u32 & b == b) by {
                assert(b != 0 ==> 0u32 & b != b) by (bit_vector);
            }
        }
        EntityFlags { bits: 0 }
    }

    pub fn contains(&self, mask: u32) -> (b: bool)
        ensures
            b == self.has(mask),
    {
        self.bits & mask == mask
    }

    /// Sets the flag `bit`; the other flags keep their value.
    pub fn insert(&mut self, bit: u32)
        requires
            is_flag(bit),
        ensures
            final(self).bits == old(self).bits | bit,
            final(self).has(bit),
            forall|b: u32| is_flag(b) && b != bit ==> (#[trigger] final(self).has(b) == old(self).has(b)),
    {
        let old_bits = self.bits;
        self.bits = self.bits | bit;
        proof {
            lemma_flags_disjoint(bit);
            let nb = self.bits;
            assert(nb & bit == bit) by (bit_vector)
                requires
                    nb == old_bits | bit,
            ;
            assert forall|b: u32| is_flag(b) && b != bit implies ((nb & b == b) == (old_bits & b == b)) by {
                assert(b & bit == 0);
                assert((nb & b == b) == (old_bits & b == b)) by (bit_vector)
                    requires
                        nb == old_bits | bit,
                        b & bit == 0,
                ;
            }
        }
    }

    /// Clears the flag `bit`; the other flags keep their value.
    pub fn remove(&mut self, bit: u32)
        requires
            is_flag(bit),
        ensures
            final(self).bits == old(self).bits & !bit,
            !final(self).has(bit),
            forall|b: u32| is_flag(b) && b != bit ==> (#[trigger] final(self).has(b) == old(self).has(b)),
    {
        let old_bits = self.bits;
        self.bits = self.bits & !bit;
        proof {
            lemma_flags_disjoint(bit);
            let nb = self.bits;
            assert(bit != 0);
            assert(nb & bit != bit) by (bit_vector)
                requires
                    nb == old_bits & !bit,
                    bit != 0,
            ;
            assert forall|b: u32| is_flag(b) && b != bit implies ((nb & b == b) == (old_bits & b == b)) by {
                assert(b & bit == 0);
                assert((nb & b == b) == (old_bits & b == b)) by (bit_vector)
                    requires
                        nb == old_bits & !bit,
                        b & bit == 0,
                ;
            }
        }
    }
}

/// Two different flags share no bit.
pub proof fn lemma_flags_disjoint(bit: u32)
    requires
        is_flag(bit),
    ensures
        bit != 0,
        forall|b: u32| is_flag(b) && b != bit ==> #[trigger] (b & bit) == 0,
{
    assert forall|b: u32| is_flag(b) && b != bit implies #[trigger] (b & bit) == 0 by {
        assert(is_flag(b) && is_flag(bit) && b != bit ==> b & bit == 0) by (bit_vector);
    }
}

} // verus!
