//! Facts about masks and shifts that the drivers share.
use vstd::prelude::*;

verus! {

/// A masked byte is no larger than the mask.
pub proof fn lemma_mask8(value: u8, mask: u8)
    by (bit_vector)
    ensures
        value & mask <= mask,
        value & mask <= value,
{
}

/// A masked half-word is no larger than the mask.
pub proof fn lemma_mask16(value: u16, mask: u16)
    by (bit_vector)
    ensures
        value & mask <= mask,
        value & mask <= value,
{
}

/// A masked word is no larger than the mask.
pub proof fn lemma_mask32(value: u32, mask: u32)
    by (bit_vector)
    ensures
        value & mask <= mask,
        value & mask <= value,
{
}

/// A masked double word is no larger than the mask.
pub proof fn lemma_mask64(value: u64, mask: u64)
    by (bit_vector)
    ensures
        value & mask <= mask,
        value & mask <= value,
{
}

/// 256 flags, none of them set.
pub fn no_flags() -> (flags: [bool; 256])
    ensures
        flags@ == Seq::new(256, |i: int| false),
{
    let flags: [bool; 256] = [false; 256];
    assert(flags@.len() == 256);
    assert forall|i: int| 0 <= i < 256 implies !flags@[i] by {
        assert(flags@[i] == vstd::array::spec_array_fill_for_copy_type::<bool, 256>(false)@[i]);
    }
    assert(flags@ =~= Seq::new(256, |i: int| false));
    flags
}

} // verus!
