//! The register file geometry of the controller.
//!
//! The controller presents one flat block of `0x400_0000` bytes of 32-bit
//! registers. Four regions live inside it:
//!
//! | Region        | Byte offset | Extent          | Element                        |
//! |---------------|-------------|-----------------|--------------------------------|
//! | Priority      | `0x000000`  | 1024 x 4 B      | one word per source id         |
//! | Pending       | `0x001000`  | 32 x 4 B        | bitmap, 32 sources per word    |
//! | Enable        | `0x002000`  | 15872 x 128 B   | per context: 32-word bitmap    |
//! | Context-local | `0x200000`  | 15872 x 4096 B  | threshold, then claim/complete |
//!
//! These offsets are bit-exact: hardware compatibility depends on them,
//! including the 4096-byte context-local stride (so each context's registers
//! can sit in their own page) and the 128-byte enable stride (the 32-word
//! bitmap rounded up to an alignment-friendly block).
//!
//! Everything here is stated twice: a spec function gives the word index of a
//! register inside the block, and an executable function computes the byte
//! offset and is proved to agree with it. The lemmas at the end show that
//! distinct registers never share a word, which is what makes per-source and
//! per-context state independent.

use vstd::prelude::*;

verus! {

/// Number of interrupt source ids, the reserved id 0 included.
pub const SOURCE_NUM: usize = 1024;

/// Number of interrupt contexts the register file addresses.
pub const CONTEXT_NUM: usize = 15872;

/// Bits in one register word.
pub const WORD_BITS: usize = 32;

/// Words in one source bitmap: `SOURCE_NUM / WORD_BITS`.
pub const BITMAP_WORDS: usize = 32;

/// Byte offset of the per-source priority array.
pub const PRIORITY_BASE: usize = 0x0000_0000;

/// Byte offset of the pending bitmap.
pub const PENDING_BASE: usize = 0x0000_1000;

/// Byte offset of the enable region.
pub const ENABLE_BASE: usize = 0x0000_2000;

/// Bytes from one context's enable bitmap to the next.
pub const ENABLE_STRIDE: usize = 0x80;

/// Byte offset of the context-local region (threshold and claim/complete).
pub const CONTEXT_BASE: usize = 0x0020_0000;

/// Bytes from one context's local registers to the next.
pub const CONTEXT_STRIDE: usize = 0x1000;

/// Total span of the register file in bytes.
pub const REGISTER_SPAN: usize = 0x0400_0000;

/// Total span of the register file in words.
pub const REGISTER_WORDS: usize = 0x0100_0000;

/// Word index of source `s`'s priority register.
pub open spec fn priority_word(s: int) -> int {
    s
}

/// Word index of the pending bitmap word holding source group `g`.
pub open spec fn pending_word(g: int) -> int {
    0x400 + g
}

/// Word index of context `c`'s enable bitmap word for source group `g`.
pub open spec fn enable_word(c: int, g: int) -> int {
    0x800 + c * 32 + g
}

/// Word index of context `c`'s priority threshold register.
pub open spec fn threshold_word(c: int) -> int {
    0x80000 + c * 0x400
}

/// Word index of context `c`'s claim/complete register.
pub open spec fn claim_word(c: int) -> int {
    0x80000 + c * 0x400 + 1
}

/// The bitmap group a source id falls in: 32 sources share one word.
pub open spec fn group_of(s: int) -> int {
    s / 32
}

/// The bit position of a source id inside its bitmap word.
pub open spec fn bit_of(s: int) -> int {
    s % 32
}

/// Splits a source id into its bitmap group and bit position.
///
/// The same mapping addresses the pending bitmap and each context's enable
/// bitmap.
pub fn source_group_and_bit(source: u32) -> (r: (usize, u32))
    requires
        source < 1024,
    ensures
        r.0 == group_of(source as int),
        r.1 == bit_of(source as int),
        r.0 < BITMAP_WORDS,
        r.1 < 32,
{
    ((source / 32) as usize, source % 32)
}

/// Byte offset of source `s`'s priority register.
pub fn priority_offset(source: u32) -> (off: usize)
    requires
        source < 1024,
    ensures
        off == 4 * priority_word(source as int),
        off < PENDING_BASE,
{
    4 * source as usize
}

/// Byte offset of the pending bitmap word for source group `group`.
pub fn pending_offset(group: usize) -> (off: usize)
    requires
        group < BITMAP_WORDS,
    ensures
        off == 4 * pending_word(group as int),
        PENDING_BASE <= off < ENABLE_BASE,
{
    PENDING_BASE + 4 * group
}

/// Byte offset of context `context`'s enable bitmap word for source group
/// `group`.
pub fn enable_offset(context: usize, group: usize) -> (off: usize)
    requires
        context < CONTEXT_NUM,
        group < BITMAP_WORDS,
    ensures
        off == 4 * enable_word(context as int, group as int),
        ENABLE_BASE <= off < CONTEXT_BASE,
{
    ENABLE_BASE + context * ENABLE_STRIDE + 4 * group
}

/// Byte offset of context `context`'s priority threshold register.
pub fn threshold_offset(context: usize) -> (off: usize)
    requires
        context < CONTEXT_NUM,
    ensures
        off == 4 * threshold_word(context as int),
        CONTEXT_BASE <= off < REGISTER_SPAN,
{
    CONTEXT_BASE + context * CONTEXT_STRIDE
}

/// Byte offset of context `context`'s claim/complete register.
pub fn claim_offset(context: usize) -> (off: usize)
    requires
        context < CONTEXT_NUM,
    ensures
        off == 4 * claim_word(context as int),
        CONTEXT_BASE <= off < REGISTER_SPAN,
{
    CONTEXT_BASE + context * CONTEXT_STRIDE + 4
}

/// Distinct (context, group) pairs use distinct enable words.
pub proof fn lemma_enable_word_injective(c1: int, g1: int, c2: int, g2: int)
    requires
        0 <= c1 < CONTEXT_NUM,
        0 <= g1 < 32,
        0 <= c2 < CONTEXT_NUM,
        0 <= g2 < 32,
    ensures
        (enable_word(c1, g1) == enable_word(c2, g2)) <==> (c1 == c2 && g1 == g2),
{
}

/// Distinct contexts use distinct threshold words and distinct claim words,
/// and no context's threshold word is another's claim word.
pub proof fn lemma_context_words_injective(c1: int, c2: int)
    requires
        0 <= c1 < CONTEXT_NUM,
        0 <= c2 < CONTEXT_NUM,
    ensures
        threshold_word(c1) == threshold_word(c2) ==> c1 == c2,
        claim_word(c1) == claim_word(c2) ==> c1 == c2,
        threshold_word(c1) != claim_word(c2),
{
}

} // verus!
