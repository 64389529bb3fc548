use rkbx_osc::chain::{ChainWalk, MockMemory, PointerChain, resolve_in};

// Resolver purity: the resolved address is the iterated dereference of
// the offsets plus the final offset.
#[test]
fn resolve_follows_the_chain() {
    let mut mem = MockMemory::new();
    let base: u64 = 0x1000;
    // base + 0x10 holds 0x2000; 0x2000 + 0x20 holds 0x3000.
    mem.set(0x1010, 0x2000);
    mem.set(0x2020, 0x3000);
    let chain = PointerChain { offsets: vec![0x10, 0x20], final_offset: 0x8 };
    assert_eq!(resolve_in(&mem, base, &chain), Some(0x3008));
}

#[test]
fn resolve_no_hops_adds_final_offset_only() {
    let mem = MockMemory::new();
    let chain = PointerChain { offsets: vec![], final_offset: 0x278 };
    assert_eq!(resolve_in(&mem, 0x7FF600000000, &chain), Some(0x7FF600000278));
}

#[test]
fn resolve_fails_iff_a_hop_fails() {
    let mut mem = MockMemory::new();
    mem.set(0x1010, 0x2000);
    // The second hop reads 0x2020, which is unreadable.
    let chain = PointerChain { offsets: vec![0x10, 0x20], final_offset: 0x8 };
    assert_eq!(resolve_in(&mem, 0x1000, &chain), None);
    // Making it readable recovers the resolution.
    mem.set(0x2020, 0x3000);
    assert_eq!(resolve_in(&mem, 0x1000, &chain), Some(0x3008));
}

#[test]
fn resolve_wraps_at_pointer_width() {
    let mem = MockMemory::new();
    let chain = PointerChain { offsets: vec![], final_offset: 0x10 };
    assert_eq!(resolve_in(&mem, u64::MAX, &chain), Some(0xF));
}

#[test]
fn mock_memory_later_entries_override() {
    let mut mem = MockMemory::new();
    mem.set(0x40, 1);
    mem.set(0x40, 2);
    assert_eq!(mem.read(0x40), Some(2));
    assert_eq!(mem.read(0x41), None);
}

#[test]
fn chain_walk_asks_hop_by_hop() {
    let chain = PointerChain { offsets: vec![0x10, 0x20], final_offset: 0x8 };
    let mut w = ChainWalk::new(0x1000, &chain);
    assert_eq!(w.next_read(), Some(0x1010));
    assert_eq!(w.result(), None);
    w.feed(Some(0x2000));
    assert_eq!(w.next_read(), Some(0x2020));
    w.feed(Some(0x3000));
    assert_eq!(w.next_read(), None);
    assert_eq!(w.result(), Some(0x3008));
}

#[test]
fn chain_walk_fails_on_unreadable_hop() {
    let chain = PointerChain { offsets: vec![0x10], final_offset: 0x8 };
    let mut w = ChainWalk::new(0x1000, &chain);
    assert_eq!(w.next_read(), Some(0x1010));
    w.feed(None);
    assert_eq!(w.next_read(), None);
    assert_eq!(w.result(), None);
}
