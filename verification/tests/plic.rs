use plic::layout;
use plic::{HartContext, Mode, Plic, SimpleContext};

fn machine(privileges: &[u8], hart_id: usize) -> SimpleContext<'_> {
    SimpleContext {
        privileges,
        hart_id,
        mode: Mode::Machine,
    }
}

fn supervisor(privileges: &[u8], hart_id: usize) -> SimpleContext<'_> {
    SimpleContext {
        privileges,
        hart_id,
        mode: Mode::Supervisor,
    }
}

#[test]
fn group_and_bit_mapping() {
    assert_eq!(layout::source_group_and_bit(0), (0, 0));
    assert_eq!(layout::source_group_and_bit(33), (1, 1));
    assert_eq!(layout::source_group_and_bit(1023), (31, 31));
}

#[test]
fn register_offsets_match_the_layout_table() {
    assert_eq!(layout::priority_offset(0), 0x000000);
    assert_eq!(layout::priority_offset(1), 0x000004);
    assert_eq!(layout::priority_offset(1023), 0x000ffc);
    assert_eq!(layout::pending_offset(0), 0x001000);
    assert_eq!(layout::pending_offset(31), 0x00107c);
    assert_eq!(layout::enable_offset(0, 0), 0x002000);
    assert_eq!(layout::enable_offset(1, 0), 0x002080);
    assert_eq!(layout::enable_offset(2, 3), 0x00210c);
    assert_eq!(layout::enable_offset(15871, 31), 0x1f1ffc);
    assert_eq!(layout::threshold_offset(0), 0x200000);
    assert_eq!(layout::threshold_offset(1), 0x201000);
    assert_eq!(layout::claim_offset(0), 0x200004);
    assert_eq!(layout::claim_offset(15871), 0x3fff004);
}

#[test]
fn simple_context_resolution() {
    let privileges: Vec<u8> = vec![2, 2, 1];
    assert_eq!(machine(&privileges, 0).index(), 0);
    assert_eq!(supervisor(&privileges, 0).index(), 1);
    assert_eq!(machine(&privileges, 1).index(), 2);
    assert_eq!(supervisor(&privileges, 1).index(), 3);
    assert_eq!(machine(&privileges, 2).index(), 4);
}

#[test]
fn simple_context_resolution_many_harts() {
    let privileges: Vec<u8> = vec![1; 200];
    assert_eq!(machine(&privileges, 0).index(), 0);
    assert_eq!(machine(&privileges, 199).index(), 199);
}

#[test]
fn enable_round_trip_and_independence() {
    let privileges: Vec<u8> = vec![2, 2];
    let c0 = machine(&privileges, 0);
    let c1 = supervisor(&privileges, 0);
    let c2 = machine(&privileges, 1);
    let mut p = Plic::new(7, 7);

    p.enable(5, c0);
    assert!(p.is_enabled(5, c0));
    // Independent of any other (source, context) pair, even in the same
    // 32-source group or the same context.
    assert!(!p.is_enabled(5, c1));
    assert!(!p.is_enabled(5, c2));
    assert!(!p.is_enabled(6, c0));
    assert!(!p.is_enabled(37, c0));

    p.enable(6, c1);
    assert!(p.is_enabled(5, c0));
    assert!(p.is_enabled(6, c1));

    p.disable(5, c0);
    assert!(!p.is_enabled(5, c0));
    assert!(p.is_enabled(6, c1));
}

#[test]
fn enable_works_at_the_extremes_of_the_id_spaces() {
    let privileges: Vec<u8> = vec![2];
    let c0 = machine(&privileges, 0);
    let mut p = Plic::new(7, 7);
    p.enable(1, c0);
    p.enable(1023, c0);
    assert!(p.is_enabled(1, c0));
    assert!(p.is_enabled(1023, c0));
    p.disable(1023, c0);
    assert!(p.is_enabled(1, c0));
    assert!(!p.is_enabled(1023, c0));
}

#[test]
fn priority_round_trip_is_masked_to_the_probed_width() {
    let mut p = Plic::new(7, 7);
    p.set_priority(4, 3);
    assert_eq!(p.get_priority(4), 3);
    // 9 = 0b1001 loses its high bit under the 3-bit mask.
    p.set_priority(4, 9);
    assert_eq!(p.get_priority(4), 9 & 7);
    // The probe reveals exactly that mask.
    assert_eq!(p.probe_priority_bits(4), 7);
}

#[test]
fn probing_is_idempotent() {
    let privileges: Vec<u8> = vec![2];
    let c0 = machine(&privileges, 0);
    let mut p = Plic::new(0xf, 3);
    let first = p.probe_priority_bits(9);
    let second = p.probe_priority_bits(9);
    let third = p.probe_priority_bits(9);
    assert_eq!(first, 0xf);
    assert_eq!(second, first);
    assert_eq!(third, first);
    let t1 = p.probe_threshold_bits(c0);
    let t2 = p.probe_threshold_bits(c0);
    assert_eq!(t1, 3);
    assert_eq!(t2, t1);
}

#[test]
fn threshold_round_trip() {
    let privileges: Vec<u8> = vec![2];
    let c0 = machine(&privileges, 0);
    let c1 = supervisor(&privileges, 0);
    let mut p = Plic::new(7, 7);
    p.set_threshold(c0, 5);
    assert_eq!(p.get_threshold(c0), 5);
    assert_eq!(p.get_threshold(c1), 0);
    p.init_by_context(c0);
    assert_eq!(p.get_threshold(c0), 0);
}

#[test]
fn claim_returns_nothing_when_no_source_qualifies() {
    let privileges: Vec<u8> = vec![2];
    let c0 = machine(&privileges, 0);
    let mut p = Plic::new(7, 7);
    // Nothing pending, nothing enabled.
    assert_eq!(p.claim(c0), None);
    // Pending but not enabled.
    p.set_priority(3, 1);
    p.raise(3);
    assert_eq!(p.claim(c0), None);
    // Pending and enabled, but priority zero never qualifies.
    p.enable(4, c0);
    p.raise(4);
    assert_eq!(p.claim(c0), None);
    // Pending and enabled, but not above the threshold.
    p.enable(5, c0);
    p.set_priority(5, 2);
    p.set_threshold(c0, 2);
    p.raise(5);
    assert_eq!(p.claim(c0), None);
    // Lowering the threshold makes the last one claimable.
    p.set_threshold(c0, 1);
    assert_eq!(p.claim(c0), Some(5));
}

#[test]
fn claim_picks_highest_priority_then_lowest_id() {
    let privileges: Vec<u8> = vec![2];
    let c0 = machine(&privileges, 0);
    let mut p = Plic::new(7, 7);
    p.init_by_context(c0);
    for s in [10, 20, 30] {
        p.enable(s, c0);
        p.raise(s);
    }
    p.set_priority(10, 1);
    p.set_priority(20, 5);
    p.set_priority(30, 5);
    // 20 and 30 tie at the top; the lower id wins.
    assert_eq!(p.claim(c0), Some(20));
    // 30 is next, then 10.
    assert_eq!(p.claim(c0), Some(30));
    assert_eq!(p.claim(c0), Some(10));
    assert_eq!(p.claim(c0), None);
}

#[test]
fn claim_complete_round_trip() {
    let privileges: Vec<u8> = vec![2];
    let c0 = machine(&privileges, 0);
    let mut p = Plic::new(7, 7);
    p.init_by_context(c0);
    p.enable(7, c0);
    p.set_priority(7, 3);
    p.raise(7);
    assert!(p.is_pending(7));

    // Claiming delivers the source and clears its pending bit.
    assert_eq!(p.claim(c0), Some(7));
    assert!(!p.is_pending(7));

    // Completion does not make it pending again: a further claim finds
    // nothing until the source re-asserts.
    p.complete(c0, 7);
    assert!(!p.is_pending(7));
    assert_eq!(p.claim(c0), None);

    p.raise(7);
    assert_eq!(p.claim(c0), Some(7));
    p.complete(c0, 7);
}

#[test]
fn gateway_blocks_assertions_while_a_claim_is_outstanding() {
    let privileges: Vec<u8> = vec![2];
    let c0 = machine(&privileges, 0);
    let mut p = Plic::new(7, 7);
    p.init_by_context(c0);
    p.enable(9, c0);
    p.set_priority(9, 2);
    p.raise(9);
    assert_eq!(p.claim(c0), Some(9));
    // The source asserts again before its handler finishes: the gateway
    // holds it back, so no second delivery happens.
    p.raise(9);
    assert!(!p.is_pending(9));
    assert_eq!(p.claim(c0), None);
    // After completion the next assertion goes through again.
    p.complete(c0, 9);
    p.raise(9);
    assert_eq!(p.claim(c0), Some(9));
}

#[test]
fn init_by_context_makes_nonzero_priority_sources_eligible() {
    let privileges: Vec<u8> = vec![2];
    let c0 = machine(&privileges, 0);
    let mut p = Plic::new(7, 7);
    // Mask delivery entirely, then re-initialize the context.
    p.set_threshold(c0, 7);
    p.enable(12, c0);
    p.set_priority(12, 1);
    p.raise(12);
    assert_eq!(p.claim(c0), None);
    p.init_by_context(c0);
    assert_eq!(p.get_threshold(c0), 0);
    // Priority 1, the lowest active level, now qualifies.
    assert_eq!(p.claim(c0), Some(12));
}

#[test]
fn contexts_claim_independently() {
    let privileges: Vec<u8> = vec![2];
    let c0 = machine(&privileges, 0);
    let c1 = supervisor(&privileges, 0);
    let mut p = Plic::new(7, 7);
    p.enable(11, c0);
    p.enable(13, c1);
    p.set_priority(11, 2);
    p.set_priority(13, 2);
    p.raise(11);
    p.raise(13);
    // Each context only sees the sources enabled for it.
    assert_eq!(p.claim(c1), Some(13));
    assert_eq!(p.claim(c0), Some(11));
    assert_eq!(p.claim(c0), None);
    assert_eq!(p.claim(c1), None);
}
