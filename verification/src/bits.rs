//! Single-bit operations on 32-bit register words.
//!
//! The pending bitmap and every context's enable bitmap pack 32 sources into
//! one register word; these helpers set, clear and test one bit of such a
//! word, specified through [`nth_bit`].

use vstd::prelude::*;

verus! {

/// Whether bit `i` of the word `w` is set.
pub open spec fn nth_bit(w: u32, i: u32) -> bool {
    (w >> i) & 1 == 1
}

/// Returns `w` with bit `i` set and every other bit unchanged.
pub fn set_bit(w: u32, i: u32) -> (r: u32)
    requires
        i < 32,
    ensures
        forall|j: u32| j < 32 ==> #[trigger] nth_bit(r, j) == (j == i || nth_bit(w, j)),
{
    proof {
        assert(forall|j: u32| i < 32 && j < 32 ==> #[trigger] nth_bit(w | (1u32 << i), j) == (j
            == i || nth_bit(w, j))) by (bit_vector);
    }
    w | (1u32 << i)
}

/// Returns `w` with bit `i` cleared and every other bit unchanged.
pub fn clear_bit(w: u32, i: u32) -> (r: u32)
    requires
        i < 32,
    ensures
        forall|j: u32| j < 32 ==> #[trigger] nth_bit(r, j) == (j != i && nth_bit(w, j)),
{
    proof {
        assert(forall|j: u32| i < 32 && j < 32 ==> #[trigger] nth_bit(w & !(1u32 << i), j) == (j
            != i && nth_bit(w, j))) by (bit_vector);
    }
    w & !(1u32 << i)
}

/// Tests bit `i` of the word `w`.
pub fn test_bit(w: u32, i: u32) -> (r: bool)
    requires
        i < 32,
    ensures
        r == nth_bit(w, i),
{
    (w >> i) & 1 == 1
}

/// No bit of the all-zero word is set.
pub proof fn lemma_nth_bit_zero()
    by (bit_vector)
    ensures
        forall|j: u32| !nth_bit(0u32, j),
{
}

} // verus!
