//! Resolution of a hart identity to a flat context index.
//!
//! How a controller numbers its contexts is vendor-defined, so the mapping is
//! an injectable strategy: the [`HartContext`] trait turns a caller-described
//! identity into the flat index the register file is addressed by, and
//! [`SimpleContext`] is the reference scheme that sums the privilege-level
//! counts of all preceding harts.

use vstd::prelude::*;

verus! {

/// A hart context: one privilege mode on one hart.
///
/// An implementation resolves such an identity to the flat context index the
/// controller's register file uses. The numbering is vendor-defined, so
/// platform integrators substitute their own implementation without touching
/// the controller logic.
pub trait HartContext: Sized {
    /// When the identity is well-formed enough to resolve at all.
    spec fn valid(self) -> bool;

    /// The flat context index this identity resolves to.
    spec fn index_spec(self) -> int;

    /// Resolves this identity to its flat context index.
    fn index(self) -> (r: usize)
        requires
            self.valid(),
        ensures
            r as int == self.index_spec(),
    ;
}

/// The privilege mode half of a hart context.
#[derive(Debug, Clone, Copy, PartialEq, Eq, Structural)]
pub enum Mode {
    /// Machine mode.
    Machine,
    /// Supervisor mode.
    Supervisor,
}

impl Mode {
    /// The ordinal of this mode inside a hart's block of context indices.
    pub open spec fn ordinal_spec(self) -> int {
        match self {
            Mode::Machine => 0,
            Mode::Supervisor => 1,
        }
    }

    /// Returns the ordinal of this mode.
    pub fn ordinal(self) -> (r: u8)
        ensures
            r as int == self.ordinal_spec(),
    {
        match self {
            Mode::Machine => 0,
            Mode::Supervisor => 1,
        }
    }
}

/// The sum of the first `n` per-hart privilege-level counts: the flat index
/// of hart `n`'s first context.
pub open spec fn privilege_prefix_sum(privileges: Seq<u8>, n: int) -> int
    decreases n,
{
    if n <= 0 {
        0
    } else {
        privilege_prefix_sum(privileges, n - 1) + privileges[n - 1]
    }
}

/// The prefix sum never shrinks as it takes in more harts.
pub proof fn lemma_prefix_sum_monotonic(privileges: Seq<u8>, a: int, b: int)
    requires
        0 <= a <= b,
    ensures
        privilege_prefix_sum(privileges, a) <= privilege_prefix_sum(privileges, b),
    decreases b - a,
{
    if a < b {
        lemma_prefix_sum_monotonic(privileges, a, b - 1);
    }
}

/// The reference context numbering: each hart contributes as many context
/// indices as it has privilege levels, in hart order, and a context's index
/// is its hart's first index plus the mode's ordinal.
#[derive(Debug, Clone, Copy, PartialEq, Eq)]
pub struct SimpleContext<'a> {
    /// How many privilege levels each hart supports, indexed by hart id.
    pub privileges: &'a [u8],
    /// The hart the context lives on.
    pub hart_id: usize,
    /// The privilege mode of the context.
    pub mode: Mode,
}

impl<'a> HartContext for SimpleContext<'a> {
    /// The hart exists, it supports the requested mode, and the hart's first
    /// index fits the count's arithmetic.
    open spec fn valid(self) -> bool {
        &&& self.hart_id < self.privileges@.len()
        &&& self.mode.ordinal_spec() <= self.privileges@[self.hart_id as int]
        &&& privilege_prefix_sum(self.privileges@, self.hart_id as int) <= u8::MAX
    }

    open spec fn index_spec(self) -> int {
        privilege_prefix_sum(self.privileges@, self.hart_id as int) + self.mode.ordinal_spec()
    }

    fn index(self) -> (r: usize) {
        let mut sum: u8 = 0;
        let mut i: usize = 0;
        while i < self.hart_id
            invariant
                i <= self.hart_id,
                self.hart_id < self.privileges@.len(),
                sum as int == privilege_prefix_sum(self.privileges@, i as int),
                privilege_prefix_sum(self.privileges@, self.hart_id as int) <= u8::MAX,
            decreases self.hart_id - i,
        {
            proof {
                lemma_prefix_sum_monotonic(self.privileges@, i + 1, self.hart_id as int);
            }
            sum = sum + self.privileges[i];
            i = i + 1;
        }
        sum as usize + self.mode.ordinal() as usize
    }
}

} // verus!
