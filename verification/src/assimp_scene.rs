//! The options with which a scene is imported, as the importer takes them:
//! one number with a bit for each post-processing step.
use vstd::prelude::*;

verus! {

/// The bits of all the steps together.
pub open spec fn combined(steps: Seq<u32>) -> u32
    decreases steps.len(),
{
    if steps.len() == 0 {
        0
    } else {
        combined(steps.drop_last()) | steps.last()
    }
}

/// Folds the bits of the post-processing steps into one number.
pub fn combine_flags(steps: &Vec<u32>) -> (flags: u32)
    ensures
        flags == combined(steps@),
{
    let mut flags: u32 = 0;
    let mut i: usize = 0;
    while i < steps.len()
        invariant
            i <= steps.len(),
            flags == combined(steps@.take(i as int)),
        decreases steps.len() - i,
    {
        assert(steps@.take(i + 1).drop_last() == steps@.take(i as int));
        flags = flags | steps[i];
        i += 1;
    }
    assert(steps@.take(i as int) == steps@);
    flags
}

/// Every bit of every step is set in the combination, and no other bit.
pub proof fn lemma_combined_bits(steps: Seq<u32>, bit: u32)
    requires
        bit < 32,
    ensures
        (combined(steps) >> bit) & 1 == 1 <==> exists|i: int|
            0 <= i < steps.len() && (#[trigger] steps[i] >> bit) & 1 == 1,
    decreases steps.len(),
{
    if steps.len() > 0 {
        let earlier = steps.drop_last();
        lemma_combined_bits(earlier, bit);
        let a = combined(earlier);
        let b = steps.last();
        assert(((a | b) >> bit) & 1 == 1 <==> ((a >> bit) & 1 == 1 || (b >> bit) & 1 == 1))
            by (bit_vector)
            requires
                bit < 32,
        ;
        if (combined(steps) >> bit) & 1 == 1 {
            if (b >> bit) & 1 == 1 {
                assert((steps[steps.len() - 1] >> bit) & 1 == 1);
            } else {
                let i = choose|i: int| 0 <= i < earlier.len() && (#[trigger] earlier[i] >> bit) & 1 == 1;
                assert(steps[i] == earlier[i]);
            }
        }
        if exists|i: int| 0 <= i < steps.len() && (#[trigger] steps[i] >> bit) & 1 == 1 {
            let i = choose|i: int| 0 <= i < steps.len() && (#[trigger] steps[i] >> bit) & 1 == 1;
            if i < earlier.len() {
                assert(earlier[i] == steps[i]);
            }
        }
    } else {
        assert((0u32 >> bit) & 1 == 0) by (bit_vector)
            requires
                bit < 32,
        ;
    }
}

} // verus!
