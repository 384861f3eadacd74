//! The controller: register state, the software-visible operations, and the
//! hardware reactions the claim/complete protocol depends on.
//!
//! [`Plic`] holds the flat register file as one word array, addressed through
//! the word indices of [`crate::layout`], together with the controller's
//! internal per-source gateways and the implementation-defined masks that
//! bound priority and threshold values. Every operation's contract is stated
//! over the spec accessors (`prio`, `pending_bit`, `enabled_bit`,
//! `threshold`, `claim_holder`), and each one also says which state it leaves
//! untouched: that independence is what the address model is for.

use vstd::prelude::*;

use crate::bits;
use crate::hart::HartContext;
use crate::layout;

verus! {

/// A Platform-Level Interrupt Controller.
///
/// The register file and the controller's reaction to accesses are modelled
/// together: software-side operations write the file exactly where the
/// address layout places them, and `claim` performs the controller's own
/// arbitration. The implementation-defined width of priority and threshold
/// values is a mask fixed at construction, the way real hardware fixes it in
/// silicon; probing discovers it through the register file alone.
pub struct Plic {
    words: Vec<u32>,
    claimant: Vec<Option<usize>>,
    priority_mask: u32,
    threshold_mask: u32,
}

impl Plic {
    /// The register file spans the whole layout and every source has a
    /// gateway slot.
    pub closed spec fn wf(self) -> bool {
        &&& self.words@.len() == layout::REGISTER_WORDS
        &&& self.claimant@.len() == layout::SOURCE_NUM
    }

    /// The priority register of source `s`.
    pub closed spec fn prio(self, s: int) -> u32 {
        self.words@[layout::priority_word(s)]
    }

    /// Whether source `s`'s pending bit is set.
    pub closed spec fn pending_bit(self, s: int) -> bool {
        bits::nth_bit(
            self.words@[layout::pending_word(layout::group_of(s))],
            layout::bit_of(s) as u32,
        )
    }

    /// Whether source `s` is enabled for context `c`.
    pub closed spec fn enabled_bit(self, c: int, s: int) -> bool {
        bits::nth_bit(
            self.words@[layout::enable_word(c, layout::group_of(s))],
            layout::bit_of(s) as u32,
        )
    }

    /// The priority threshold register of context `c`.
    pub closed spec fn threshold(self, c: int) -> u32 {
        self.words@[layout::threshold_word(c)]
    }

    /// The context holding an outstanding claim on source `s`, if any.
    /// While it is `Some`, the source's gateway forwards no new assertion.
    pub closed spec fn claim_holder(self, s: int) -> Option<int> {
        match self.claimant@[s] {
            Some(c) => Some(c as int),
            None => None,
        }
    }

    /// The largest priority value the implementation can hold.
    pub closed spec fn priority_limit(self) -> u32 {
        self.priority_mask
    }

    /// The largest threshold value the implementation can hold.
    pub closed spec fn threshold_limit(self) -> u32 {
        self.threshold_mask
    }

    /// Source `s` qualifies for a claim in context `c`: it is pending,
    /// enabled there, and its priority exceeds the context's threshold.
    pub open spec fn eligible(self, c: int, s: int) -> bool {
        &&& 1 <= s < 1024
        &&& self.pending_bit(s)
        &&& self.enabled_bit(c, s)
        &&& self.prio(s) > self.threshold(c)
    }
}

/// Both states give every source the same priority.
pub open spec fn same_priorities(a: Plic, b: Plic) -> bool {
    forall|s: int| 0 <= s < 1024 ==> a.prio(s) == b.prio(s)
}

/// Both states give every source the same pending bit.
pub open spec fn same_pending(a: Plic, b: Plic) -> bool {
    forall|s: int| 0 <= s < 1024 ==> a.pending_bit(s) == b.pending_bit(s)
}

/// Both states give every (context, source) pair the same enable bit.
pub open spec fn same_enables(a: Plic, b: Plic) -> bool {
    forall|c: int, s: int|
        0 <= c < 15872 && 0 <= s < 1024 ==> a.enabled_bit(c, s) == b.enabled_bit(c, s)
}

/// Both states give every context the same threshold.
pub open spec fn same_thresholds(a: Plic, b: Plic) -> bool {
    forall|c: int| 0 <= c < 15872 ==> a.threshold(c) == b.threshold(c)
}

/// Both states have the same outstanding claims.
pub open spec fn same_claims(a: Plic, b: Plic) -> bool {
    forall|s: int| 0 <= s < 1024 ==> a.claim_holder(s) == b.claim_holder(s)
}

/// Both states have the same implementation-defined value masks.
pub open spec fn same_limits(a: Plic, b: Plic) -> bool {
    a.priority_limit() == b.priority_limit() && a.threshold_limit() == b.threshold_limit()
}

impl Plic {
    fn read_word(&self, idx: usize) -> (w: u32)
        requires
            self.wf(),
            idx < layout::REGISTER_WORDS,
        ensures
            w == self.words@[idx as int],
    {
        self.words[idx]
    }

    fn write_word(&mut self, idx: usize, v: u32)
        requires
            old(self).wf(),
            idx < layout::REGISTER_WORDS,
        ensures
            final(self).wf(),
            final(self).words@ == old(self).words@.update(idx as int, v),
            final(self).claimant@ == old(self).claimant@,
            same_limits(*old(self), *final(self)),
    {
        self.words[idx] = v;
    }
}

/// After an update of source `s`'s priority word, only that priority
/// changed: every other register the accessors read lies in another word.
proof fn lemma_priority_update(pre: Plic, post: Plic, s: int, v: u32)
    requires
        pre.wf(),
        0 <= s < 1024,
        post.words@ == pre.words@.update(layout::priority_word(s), v),
    ensures
        post.prio(s) == v,
        forall|s2: int| 0 <= s2 < 1024 && s2 != s ==> post.prio(s2) == pre.prio(s2),
        same_pending(pre, post),
        same_enables(pre, post),
        same_thresholds(pre, post),
{
    assert forall|s2: int| 0 <= s2 < 1024 implies post.pending_bit(s2) == pre.pending_bit(s2) by {
        assert(layout::pending_word(layout::group_of(s2)) != layout::priority_word(s));
    }
    assert forall|c2: int, s2: int| 0 <= c2 < 15872 && 0 <= s2 < 1024 implies post.enabled_bit(
        c2,
        s2,
    ) == pre.enabled_bit(c2, s2) by {
        assert(layout::enable_word(c2, layout::group_of(s2)) != layout::priority_word(s));
    }
    assert forall|c2: int| 0 <= c2 < 15872 implies post.threshold(c2) == pre.threshold(c2) by {
        assert(layout::threshold_word(c2) != layout::priority_word(s));
    }
}

/// After an update of the pending word of group `g`, pending bits of other
/// groups and all other regions are untouched, and the bits of group `g`
/// are those of the written word.
proof fn lemma_pending_update(pre: Plic, post: Plic, g: int, v: u32)
    requires
        pre.wf(),
        0 <= g < 32,
        post.words@ == pre.words@.update(layout::pending_word(g), v),
    ensures
        forall|s2: int|
            0 <= s2 < 1024 && layout::group_of(s2) == g ==> post.pending_bit(s2) == bits::nth_bit(
                v,
                layout::bit_of(s2) as u32,
            ),
        forall|s2: int|
            0 <= s2 < 1024 && layout::group_of(s2) != g ==> post.pending_bit(s2)
                == pre.pending_bit(s2),
        same_priorities(pre, post),
        same_enables(pre, post),
        same_thresholds(pre, post),
{
    assert forall|s2: int| 0 <= s2 < 1024 implies post.prio(s2) == pre.prio(s2) by {
        assert(layout::priority_word(s2) != layout::pending_word(g));
    }
    assert forall|c2: int, s2: int| 0 <= c2 < 15872 && 0 <= s2 < 1024 implies post.enabled_bit(
        c2,
        s2,
    ) == pre.enabled_bit(c2, s2) by {
        assert(layout::enable_word(c2, layout::group_of(s2)) != layout::pending_word(g));
    }
    assert forall|c2: int| 0 <= c2 < 15872 implies post.threshold(c2) == pre.threshold(c2) by {
        assert(layout::threshold_word(c2) != layout::pending_word(g));
    }
}

/// After an update of context `c`'s enable word for group `g`, enable bits
/// of other (context, group) pairs and all other regions are untouched, and
/// the bits of (`c`, `g`) are those of the written word.
proof fn lemma_enable_update(pre: Plic, post: Plic, c: int, g: int, v: u32)
    requires
        pre.wf(),
        0 <= c < 15872,
        0 <= g < 32,
        post.words@ == pre.words@.update(layout::enable_word(c, g), v),
    ensures
        forall|s2: int|
            0 <= s2 < 1024 && layout::group_of(s2) == g ==> post.enabled_bit(c, s2)
                == bits::nth_bit(v, layout::bit_of(s2) as u32),
        forall|c2: int, s2: int|
            0 <= c2 < 15872 && 0 <= s2 < 1024 && !(c2 == c && layout::group_of(s2) == g)
                ==> post.enabled_bit(c2, s2) == pre.enabled_bit(c2, s2),
        same_priorities(pre, post),
        same_pending(pre, post),
        same_thresholds(pre, post),
{
    assert forall|c2: int, s2: int|
        0 <= c2 < 15872 && 0 <= s2 < 1024 && !(c2 == c && layout::group_of(s2) == g)
        implies post.enabled_bit(c2, s2) == pre.enabled_bit(c2, s2) by {
        layout::lemma_enable_word_injective(c2, layout::group_of(s2), c, g);
    }
    assert forall|s2: int| 0 <= s2 < 1024 implies post.prio(s2) == pre.prio(s2) by {
        assert(layout::priority_word(s2) != layout::enable_word(c, g));
    }
    assert forall|s2: int| 0 <= s2 < 1024 implies post.pending_bit(s2) == pre.pending_bit(s2) by {
        assert(layout::pending_word(layout::group_of(s2)) != layout::enable_word(c, g));
    }
    assert forall|c2: int| 0 <= c2 < 15872 implies post.threshold(c2) == pre.threshold(c2) by {
        assert(layout::threshold_word(c2) != layout::enable_word(c, g));
    }
}

/// After an update of context `c`'s threshold word, only that threshold
/// changed.
proof fn lemma_threshold_update(pre: Plic, post: Plic, c: int, v: u32)
    requires
        pre.wf(),
        0 <= c < 15872,
        post.words@ == pre.words@.update(layout::threshold_word(c), v),
    ensures
        post.threshold(c) == v,
        forall|c2: int| 0 <= c2 < 15872 && c2 != c ==> post.threshold(c2) == pre.threshold(c2),
        same_priorities(pre, post),
        same_pending(pre, post),
        same_enables(pre, post),
{
    assert forall|c2: int| 0 <= c2 < 15872 && c2 != c implies post.threshold(c2) == pre.threshold(
        c2,
    ) by {
        layout::lemma_context_words_injective(c2, c);
    }
    assert forall|s2: int| 0 <= s2 < 1024 implies post.prio(s2) == pre.prio(s2) by {
        assert(layout::priority_word(s2) != layout::threshold_word(c));
    }
    assert forall|s2: int| 0 <= s2 < 1024 implies post.pending_bit(s2) == pre.pending_bit(s2) by {
        assert(layout::pending_word(layout::group_of(s2)) != layout::threshold_word(c));
    }
    assert forall|c2: int, s2: int| 0 <= c2 < 15872 && 0 <= s2 < 1024 implies post.enabled_bit(
        c2,
        s2,
    ) == pre.enabled_bit(c2, s2) by {
        assert(layout::enable_word(c2, layout::group_of(s2)) != layout::threshold_word(c));
    }
}

/// After a write to context `c`'s claim/complete word, nothing any accessor
/// reads changed: that word is a doorbell, not state.
proof fn lemma_claim_word_update(pre: Plic, post: Plic, c: int, v: u32)
    requires
        pre.wf(),
        0 <= c < 15872,
        post.words@ == pre.words@.update(layout::claim_word(c), v),
    ensures
        same_priorities(pre, post),
        same_pending(pre, post),
        same_enables(pre, post),
        same_thresholds(pre, post),
{
    assert forall|s2: int| 0 <= s2 < 1024 implies post.prio(s2) == pre.prio(s2) by {
        assert(layout::priority_word(s2) != layout::claim_word(c));
    }
    assert forall|s2: int| 0 <= s2 < 1024 implies post.pending_bit(s2) == pre.pending_bit(s2) by {
        assert(layout::pending_word(layout::group_of(s2)) != layout::claim_word(c));
    }
    assert forall|c2: int, s2: int| 0 <= c2 < 15872 && 0 <= s2 < 1024 implies post.enabled_bit(
        c2,
        s2,
    ) == pre.enabled_bit(c2, s2) by {
        assert(layout::enable_word(c2, layout::group_of(s2)) != layout::claim_word(c));
    }
    assert forall|c2: int| 0 <= c2 < 15872 implies post.threshold(c2) == pre.threshold(c2) by {
        layout::lemma_context_words_injective(c2, c);
    }
}

impl Plic {
    /// Builds a controller whose registers are all zero, with the given
    /// implementation-defined masks on priority and threshold values.
    ///
    /// All-zero registers mean: every priority zero, nothing pending,
    /// nothing enabled, every threshold zero, and no claim outstanding.
    pub fn new(priority_mask: u32, threshold_mask: u32) -> (p: Plic)
        ensures
            p.wf(),
            p.priority_limit() == priority_mask,
            p.threshold_limit() == threshold_mask,
            forall|s: int| 0 <= s < 1024 ==> p.prio(s) == 0,
            forall|s: int| 0 <= s < 1024 ==> !p.pending_bit(s),
            forall|c: int, s: int| 0 <= c < 15872 && 0 <= s < 1024 ==> !p.enabled_bit(c, s),
            forall|c: int| 0 <= c < 15872 ==> p.threshold(c) == 0,
            forall|s: int| 0 <= s < 1024 ==> p.claim_holder(s) is None,
    {
        let mut words: Vec<u32> = Vec::new();
        let mut i: usize = 0;
        while i < layout::REGISTER_WORDS
            invariant
                i <= layout::REGISTER_WORDS,
                words@.len() == i,
                forall|k: int| 0 <= k < i ==> words@[k] == 0u32,
            decreases layout::REGISTER_WORDS - i,
        {
            words.push(0);
            i = i + 1;
        }
        let mut claimant: Vec<Option<usize>> = Vec::new();
        let mut j: usize = 0;
        while j < layout::SOURCE_NUM
            invariant
                j <= layout::SOURCE_NUM,
                claimant@.len() == j,
                forall|k: int| 0 <= k < j ==> claimant@[k] is None,
            decreases layout::SOURCE_NUM - j,
        {
            claimant.push(None);
            j = j + 1;
        }
        let p = Plic { words, claimant, priority_mask, threshold_mask };
        proof {
            bits::lemma_nth_bit_zero();
            assert forall|s: int| 0 <= s < 1024 implies !p.pending_bit(s) by {
                assert(p.words@[layout::pending_word(layout::group_of(s))] == 0u32);
            }
            assert forall|c: int, s: int| 0 <= c < 15872 && 0 <= s < 1024 implies !p.enabled_bit(
                c,
                s,
            ) by {
                assert(p.words@[layout::enable_word(c, layout::group_of(s))] == 0u32);
            }
            assert forall|c: int| 0 <= c < 15872 implies p.threshold(c) == 0 by {
                assert(p.words@[layout::threshold_word(c)] == 0u32);
            }
        }
        p
    }

    /// Initializes context `context`: sets its priority threshold to zero,
    /// the only state this layer initializes. With a zero threshold every
    /// enabled, pending source of nonzero priority is eligible for claim
    /// (see [`lemma_zero_threshold_eligibility`]).
    pub fn init_by_context<C: HartContext>(&mut self, context: C)
        requires
            old(self).wf(),
            context.valid(),
            context.index_spec() < 15872,
        ensures
            final(self).wf(),
            final(self).threshold(context.index_spec()) == 0,
            forall|c2: int|
                0 <= c2 < 15872 && c2 != context.index_spec() ==> final(self).threshold(c2) == old(
                    self,
                ).threshold(c2),
            same_priorities(*old(self), *final(self)),
            same_pending(*old(self), *final(self)),
            same_enables(*old(self), *final(self)),
            same_claims(*old(self), *final(self)),
            same_limits(*old(self), *final(self)),
    {
        let ci = context.index();
        let off = layout::threshold_offset(ci);
        self.write_word(off / 4, 0);
        proof {
            lemma_threshold_update(*old(self), *self, ci as int, 0);
        }
    }

    /// Sets the priority of interrupt `source` to `value`.
    ///
    /// Priority zero means "never interrupt": it disables the source.
    /// The lowest active priority is one. Hardware only implements the bits
    /// of its mask, so the stored value is `value` masked to the supported
    /// width, which [`Plic::probe_priority_bits`] discovers.
    pub fn set_priority(&mut self, source: u32, value: u32)
        requires
            old(self).wf(),
            1 <= source < 1024,
        ensures
            final(self).wf(),
            final(self).prio(source as int) == value & old(self).priority_limit(),
            forall|s2: int|
                0 <= s2 < 1024 && s2 != source ==> final(self).prio(s2) == old(self).prio(s2),
            same_pending(*old(self), *final(self)),
            same_enables(*old(self), *final(self)),
            same_thresholds(*old(self), *final(self)),
            same_claims(*old(self), *final(self)),
            same_limits(*old(self), *final(self)),
    {
        let off = layout::priority_offset(source);
        let stored: u32 = value & self.priority_mask;
        self.write_word(off / 4, stored);
        proof {
            lemma_priority_update(*old(self), *self, source as int, stored);
        }
    }

    /// Reads the priority of interrupt `source`.
    pub fn get_priority(&self, source: u32) -> (r: u32)
        requires
            self.wf(),
            1 <= source < 1024,
        ensures
            r == self.prio(source as int),
    {
        let off = layout::priority_offset(source);
        self.read_word(off / 4)
    }

    /// Probes the largest priority value interrupt `source` can hold, by
    /// writing all-ones and reading back what hardware kept.
    ///
    /// The probe is destructive: the source's priority is left at the
    /// maximum. Use it only during discovery, never on a live source.
    /// Probing is idempotent: the result is the implementation's mask,
    /// which no operation changes.
    pub fn probe_priority_bits(&mut self, source: u32) -> (r: u32)
        requires
            old(self).wf(),
            1 <= source < 1024,
        ensures
            final(self).wf(),
            r == old(self).priority_limit(),
            final(self).prio(source as int) == old(self).priority_limit(),
            forall|s2: int|
                0 <= s2 < 1024 && s2 != source ==> final(self).prio(s2) == old(self).prio(s2),
            same_pending(*old(self), *final(self)),
            same_enables(*old(self), *final(self)),
            same_thresholds(*old(self), *final(self)),
            same_claims(*old(self), *final(self)),
            same_limits(*old(self), *final(self)),
    {
        let off = layout::priority_offset(source);
        let stored: u32 = !0u32 & self.priority_mask;
        proof {
            let m = self.priority_mask;
            assert(!0u32 & m == m) by (bit_vector);
        }
        self.write_word(off / 4, stored);
        proof {
            lemma_priority_update(*old(self), *self, source as int, stored);
        }
        self.read_word(off / 4)
    }

    /// Checks whether interrupt `source` is pending.
    ///
    /// Read-only: the bit reflects hardware-asserted state and software
    /// cannot write it directly.
    pub fn is_pending(&self, source: u32) -> (r: bool)
        requires
            self.wf(),
            1 <= source < 1024,
        ensures
            r == self.pending_bit(source as int),
    {
        let (g, b) = layout::source_group_and_bit(source);
        let off = layout::pending_offset(g);
        let w = self.read_word(off / 4);
        bits::test_bit(w, b)
    }

    /// Enables interrupt `source` for context `context`: a read-modify-write
    /// that sets the source's bit in the context's enable bitmap.
    ///
    /// Every other enable bit, and all priority, pending and threshold
    /// state, is untouched: enable state is independent per (context,
    /// source) pair.
    pub fn enable<C: HartContext>(&mut self, source: u32, context: C)
        requires
            old(self).wf(),
            1 <= source < 1024,
            context.valid(),
            context.index_spec() < 15872,
        ensures
            final(self).wf(),
            final(self).enabled_bit(context.index_spec(), source as int),
            forall|c2: int, s2: int|
                0 <= c2 < 15872 && 0 <= s2 < 1024 && !(c2 == context.index_spec() && s2
                    == source) ==> final(self).enabled_bit(c2, s2) == old(self).enabled_bit(
                    c2,
                    s2,
                ),
            same_priorities(*old(self), *final(self)),
            same_pending(*old(self), *final(self)),
            same_thresholds(*old(self), *final(self)),
            same_claims(*old(self), *final(self)),
            same_limits(*old(self), *final(self)),
    {
        let ci = context.index();
        let (g, b) = layout::source_group_and_bit(source);
        let off = layout::enable_offset(ci, g);
        let w = self.read_word(off / 4);
        let w2 = bits::set_bit(w, b);
        self.write_word(off / 4, w2);
        proof {
            lemma_enable_update(*old(self), *self, ci as int, g as int, w2);
            assert forall|c2: int, s2: int|
                0 <= c2 < 15872 && 0 <= s2 < 1024 && !(c2 == ci && s2 == source)
                implies self.enabled_bit(c2, s2) == old(self).enabled_bit(c2, s2) by {
                if c2 == ci && layout::group_of(s2) == g as int {
                    assert(layout::bit_of(s2) != layout::bit_of(source as int));
                }
            }
        }
    }

    /// Disables interrupt `source` for context `context`: a
    /// read-modify-write that clears the source's bit in the context's
    /// enable bitmap. Everything else is untouched.
    pub fn disable<C: HartContext>(&mut self, source: u32, context: C)
        requires
            old(self).wf(),
            1 <= source < 1024,
            context.valid(),
            context.index_spec() < 15872,
        ensures
            final(self).wf(),
            !final(self).enabled_bit(context.index_spec(), source as int),
            forall|c2: int, s2: int|
                0 <= c2 < 15872 && 0 <= s2 < 1024 && !(c2 == context.index_spec() && s2
                    == source) ==> final(self).enabled_bit(c2, s2) == old(self).enabled_bit(
                    c2,
                    s2,
                ),
            same_priorities(*old(self), *final(self)),
            same_pending(*old(self), *final(self)),
            same_thresholds(*old(self), *final(self)),
            same_claims(*old(self), *final(self)),
            same_limits(*old(self), *final(self)),
    {
        let ci = context.index();
        let (g, b) = layout::source_group_and_bit(source);
        let off = layout::enable_offset(ci, g);
        let w = self.read_word(off / 4);
        let w2 = bits::clear_bit(w, b);
        self.write_word(off / 4, w2);
        proof {
            lemma_enable_update(*old(self), *self, ci as int, g as int, w2);
            assert forall|c2: int, s2: int|
                0 <= c2 < 15872 && 0 <= s2 < 1024 && !(c2 == ci && s2 == source)
                implies self.enabled_bit(c2, s2) == old(self).enabled_bit(c2, s2) by {
                if c2 == ci && layout::group_of(s2) == g as int {
                    assert(layout::bit_of(s2) != layout::bit_of(source as int));
                }
            }
        }
    }

    /// Checks whether interrupt `source` is enabled for context `context`.
    pub fn is_enabled<C: HartContext>(&self, source: u32, context: C) -> (r: bool)
        requires
            self.wf(),
            1 <= source < 1024,
            context.valid(),
            context.index_spec() < 15872,
        ensures
            r == self.enabled_bit(context.index_spec(), source as int),
    {
        let ci = context.index();
        let (g, b) = layout::source_group_and_bit(source);
        let off = layout::enable_offset(ci, g);
        let w = self.read_word(off / 4);
        bits::test_bit(w, b)
    }

    /// Reads the priority threshold of context `context`.
    pub fn get_threshold<C: HartContext>(&self, context: C) -> (r: u32)
        requires
            self.wf(),
            context.valid(),
            context.index_spec() < 15872,
        ensures
            r == self.threshold(context.index_spec()),
    {
        let ci = context.index();
        let off = layout::threshold_offset(ci);
        self.read_word(off / 4)
    }

    /// Sets the priority threshold of context `context` to `value`, masked
    /// to the implementation's supported width. Only sources whose priority
    /// strictly exceeds the threshold are eligible for claim there.
    pub fn set_threshold<C: HartContext>(&mut self, context: C, value: u32)
        requires
            old(self).wf(),
            context.valid(),
            context.index_spec() < 15872,
        ensures
            final(self).wf(),
            final(self).threshold(context.index_spec()) == value & old(self).threshold_limit(),
            forall|c2: int|
                0 <= c2 < 15872 && c2 != context.index_spec() ==> final(self).threshold(c2) == old(
                    self,
                ).threshold(c2),
            same_priorities(*old(self), *final(self)),
            same_pending(*old(self), *final(self)),
            same_enables(*old(self), *final(self)),
            same_claims(*old(self), *final(self)),
            same_limits(*old(self), *final(self)),
    {
        let ci = context.index();
        let off = layout::threshold_offset(ci);
        let stored: u32 = value & self.threshold_mask;
        self.write_word(off / 4, stored);
        proof {
            lemma_threshold_update(*old(self), *self, ci as int, stored);
        }
    }

    /// Probes the largest threshold value context `context` can hold, by
    /// writing all-ones and reading back what hardware kept.
    ///
    /// Destructive like [`Plic::probe_priority_bits`], and likewise
    /// idempotent: the result is the implementation's mask, which no
    /// operation changes.
    pub fn probe_threshold_bits<C: HartContext>(&mut self, context: C) -> (r: u32)
        requires
            old(self).wf(),
            context.valid(),
            context.index_spec() < 15872,
        ensures
            final(self).wf(),
            r == old(self).threshold_limit(),
            final(self).threshold(context.index_spec()) == old(self).threshold_limit(),
            forall|c2: int|
                0 <= c2 < 15872 && c2 != context.index_spec() ==> final(self).threshold(c2) == old(
                    self,
                ).threshold(c2),
            same_priorities(*old(self), *final(self)),
            same_pending(*old(self), *final(self)),
            same_enables(*old(self), *final(self)),
            same_claims(*old(self), *final(self)),
            same_limits(*old(self), *final(self)),
    {
        let ci = context.index();
        let off = layout::threshold_offset(ci);
        let stored: u32 = !0u32 & self.threshold_mask;
        proof {
            let m = self.threshold_mask;
            assert(!0u32 & m == m) by (bit_vector);
        }
        self.write_word(off / 4, stored);
        proof {
            lemma_threshold_update(*old(self), *self, ci as int, stored);
        }
        self.read_word(off / 4)
    }

    /// The hardware side of the model: interrupt `source` asserts its
    /// signal. The source's gateway forwards it - setting the pending bit -
    /// only while no claim on the source is outstanding; a signal arriving
    /// between claim and completion is not forwarded.
    pub fn raise(&mut self, source: u32)
        requires
            old(self).wf(),
            1 <= source < 1024,
        ensures
            final(self).wf(),
            old(self).claim_holder(source as int) is None ==> final(self).pending_bit(
                source as int,
            ),
            old(self).claim_holder(source as int) is Some ==> final(self).pending_bit(source as int)
                == old(self).pending_bit(source as int),
            forall|s2: int|
                0 <= s2 < 1024 && s2 != source ==> final(self).pending_bit(s2) == old(
                    self,
                ).pending_bit(s2),
            same_priorities(*old(self), *final(self)),
            same_enables(*old(self), *final(self)),
            same_thresholds(*old(self), *final(self)),
            same_claims(*old(self), *final(self)),
            same_limits(*old(self), *final(self)),
    {
        if self.claimant[source as usize].is_none() {
            let (g, b) = layout::source_group_and_bit(source);
            let off = layout::pending_offset(g);
            let w = self.read_word(off / 4);
            let w2 = bits::set_bit(w, b);
            self.write_word(off / 4, w2);
            proof {
                lemma_pending_update(*old(self), *self, g as int, w2);
                assert forall|s2: int| 0 <= s2 < 1024 && s2 != source implies self.pending_bit(s2)
                    == old(self).pending_bit(s2) by {
                    if layout::group_of(s2) == g as int {
                        assert(layout::bit_of(s2) != layout::bit_of(source as int));
                    }
                }
            }
        }
    }

    /// The controller's arbitration: the winning source among those
    /// eligible for context `ci`, or zero when none is. The winner has the
    /// highest priority, with ties broken towards the lowest source id.
    fn select_best(&self, ci: usize, th: u32) -> (r: u32)
        requires
            self.wf(),
            ci < 15872,
            th == self.threshold(ci as int),
        ensures
            r == 0 ==> forall|t: int| !self.eligible(ci as int, t),
            r != 0 ==> 1 <= r < 1024 && self.eligible(ci as int, r as int),
            r != 0 ==> forall|t: int|
                self.eligible(ci as int, t) ==> self.prio(t) <= self.prio(r as int),
            r != 0 ==> forall|t: int|
                self.eligible(ci as int, t) && self.prio(t) == self.prio(r as int) ==> r <= t,
    {
        let mut best: u32 = 0;
        let mut best_prio: u32 = 0;
        let mut s: u32 = 1;
        while s < 1024
            invariant
                self.wf(),
                ci < 15872,
                th == self.threshold(ci as int),
                1 <= s <= 1024,
                best == 0 ==> forall|t: int| 1 <= t < s ==> !self.eligible(ci as int, t),
                best != 0 ==> 1 <= best < s && self.eligible(ci as int, best as int),
                best != 0 ==> best_prio == self.prio(best as int),
                best != 0 ==> forall|t: int|
                    1 <= t < s && self.eligible(ci as int, t) ==> self.prio(t) <= best_prio,
                best != 0 ==> forall|t: int|
                    1 <= t < s && self.eligible(ci as int, t) && self.prio(t) == best_prio
                        ==> best <= t,
            decreases 1024 - s,
        {
            let p = self.read_word(layout::priority_offset(s) / 4);
            let (g, b) = layout::source_group_and_bit(s);
            let pend = bits::test_bit(self.read_word(layout::pending_offset(g) / 4), b);
            let en = bits::test_bit(self.read_word(layout::enable_offset(ci, g) / 4), b);
            let elig = pend && en && p > th;
            proof {
                assert(elig == self.eligible(ci as int, s as int));
            }
            if elig && (best == 0 || p > best_prio) {
                best = s;
                best_prio = p;
            }
            s = s + 1;
        }
        best
    }

    /// Claims an interrupt for context `context`: among the sources that
    /// are pending, enabled for this context and of priority above its
    /// threshold, the controller picks the one of highest priority (lowest
    /// id on ties), atomically clears its pending bit, closes its gateway,
    /// and returns its id. Returns `None` - never the reserved id 0 - when
    /// no source qualifies.
    ///
    /// Claiming is always legal, even with no interrupt notification
    /// outstanding: a context that has masked notifications can poll by
    /// calling this repeatedly.
    pub fn claim<C: HartContext>(&mut self, context: C) -> (r: Option<u32>)
        requires
            old(self).wf(),
            context.valid(),
            context.index_spec() < 15872,
        ensures
            final(self).wf(),
            same_priorities(*old(self), *final(self)),
            same_enables(*old(self), *final(self)),
            same_thresholds(*old(self), *final(self)),
            same_limits(*old(self), *final(self)),
            r is None ==> forall|t: int| !old(self).eligible(context.index_spec(), t),
            r is None ==> same_pending(*old(self), *final(self)) && same_claims(
                *old(self),
                *final(self),
            ),
            r matches Some(s) ==> 1 <= s < 1024 && old(self).eligible(
                context.index_spec(),
                s as int,
            ),
            r matches Some(s) ==> forall|t: int|
                old(self).eligible(context.index_spec(), t) ==> old(self).prio(t) <= old(
                    self,
                ).prio(s as int),
            r matches Some(s) ==> forall|t: int|
                old(self).eligible(context.index_spec(), t) && old(self).prio(t) == old(self).prio(
                    s as int,
                ) ==> s <= t,
            r matches Some(s) ==> !final(self).pending_bit(s as int),
            r matches Some(s) ==> forall|s2: int|
                0 <= s2 < 1024 && s2 != s ==> final(self).pending_bit(s2) == old(self).pending_bit(
                    s2,
                ),
            r matches Some(s) ==> final(self).claim_holder(s as int) == Some(
                context.index_spec(),
            ),
            r matches Some(s) ==> forall|s2: int|
                0 <= s2 < 1024 && s2 != s ==> final(self).claim_holder(s2) == old(
                    self,
                ).claim_holder(s2),
    {
        let ci = context.index();
        let off_th = layout::threshold_offset(ci);
        let th = self.read_word(off_th / 4);
        let best = self.select_best(ci, th);
        if best == 0 {
            None
        } else {
            let (g, b) = layout::source_group_and_bit(best);
            let off = layout::pending_offset(g);
            let w = self.read_word(off / 4);
            let w2 = bits::clear_bit(w, b);
            self.write_word(off / 4, w2);
            self.claimant[best as usize] = Some(ci);
            proof {
                lemma_pending_update(*old(self), *self, g as int, w2);
                assert forall|s2: int| 0 <= s2 < 1024 && s2 != best implies self.pending_bit(s2)
                    == old(self).pending_bit(s2) by {
                    if layout::group_of(s2) == g as int {
                        assert(layout::bit_of(s2) != layout::bit_of(best as int));
                    }
                }
            }
            Some(best)
        }
    }

    /// Signals that the handler for interrupt `source`, previously claimed
    /// by `context`, has finished: writes the id back to the context's
    /// claim/complete register. The controller re-opens the source's
    /// gateway, re-arming it for future claims once it asserts again; the
    /// pending bit itself is untouched (claiming, not completing, clears
    /// it).
    pub fn complete<C: HartContext>(&mut self, context: C, source: u32)
        requires
            old(self).wf(),
            1 <= source < 1024,
            context.valid(),
            context.index_spec() < 15872,
            old(self).claim_holder(source as int) == Some(context.index_spec()),
        ensures
            final(self).wf(),
            final(self).claim_holder(source as int) is None,
            forall|s2: int|
                0 <= s2 < 1024 && s2 != source ==> final(self).claim_holder(s2) == old(
                    self,
                ).claim_holder(s2),
            same_priorities(*old(self), *final(self)),
            same_pending(*old(self), *final(self)),
            same_enables(*old(self), *final(self)),
            same_thresholds(*old(self), *final(self)),
            same_limits(*old(self), *final(self)),
    {
        let ci = context.index();
        let off = layout::claim_offset(ci);
        self.write_word(off / 4, source);
        self.claimant[source as usize] = None;
        proof {
            lemma_claim_word_update(*old(self), *self, ci as int, source);
        }
    }
}

/// Law: a source whose pending bit is clear cannot be claimed by any
/// context, whatever its enable, priority and threshold state.
///
/// `claim` clears the pending bit of the source it returns, and `complete`
/// leaves pending bits untouched, so a claimed-then-completed source stays
/// out of later claims until its gateway forwards a new assertion.
pub proof fn lemma_not_pending_not_eligible(p: Plic, c: int, s: int)
    requires
        !p.pending_bit(s),
    ensures
        !p.eligible(c, s),
{
}

/// Law: arbitration is deterministic: the claim contract's clauses -
/// eligible, of maximal priority, least id among equals - are satisfied by
/// at most one source, so the contract pins which source a claim delivers.
pub proof fn lemma_arbitration_unique(p: Plic, c: int, s1: int, s2: int)
    requires
        p.eligible(c, s1),
        p.eligible(c, s2),
        forall|t: int| p.eligible(c, t) ==> p.prio(t) <= p.prio(s1),
        forall|t: int| p.eligible(c, t) && p.prio(t) == p.prio(s1) ==> s1 <= t,
        forall|t: int| p.eligible(c, t) ==> p.prio(t) <= p.prio(s2),
        forall|t: int| p.eligible(c, t) && p.prio(t) == p.prio(s2) ==> s2 <= t,
    ensures
        s1 == s2,
{
}

/// Law: with a zero threshold - the state `init_by_context` establishes -
/// eligibility for a context reduces to being pending, enabled there, and
/// of nonzero priority: every nonzero-priority enabled source that asserts
/// can be claimed.
pub proof fn lemma_zero_threshold_eligibility(p: Plic, c: int, s: int)
    requires
        p.threshold(c) == 0,
    ensures
        p.eligible(c, s) <==> (1 <= s < 1024 && p.pending_bit(s) && p.enabled_bit(c, s) && p.prio(
            s,
        ) > 0),
{
}

} // verus!
