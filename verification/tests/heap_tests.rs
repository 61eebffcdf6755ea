use lib::heap::{alloc_on_break, alloc_on_move, alloc_start, brk_reply, AllocAction, MIN_ALIGN};

/// A pretend kernel heap for driving an allocation: `brk(0)` reports the
/// current break, `brk(addr)` moves it when `addr` is within `limit`.
struct FakeKernel {
    brk: usize,
    limit: usize,
    calls: Vec<usize>,
}

impl FakeKernel {
    fn brk(&mut self, address: usize) -> Option<usize> {
        self.calls.push(address);
        if address == 0 {
            return Some(self.brk);
        }
        if address > self.limit {
            return None;
        }
        self.brk = address;
        Some(address)
    }
}

/// Runs one allocation against the fake kernel; returns the address (0 for
/// null) and updates the recorded heap end as the platform layer does.
fn allocate(kernel: &mut FakeKernel, next: &mut usize, size: usize, align: usize) -> usize {
    let mut action = alloc_start(*next, size, align);
    loop {
        match action {
            AllocAction::QueryBreak => action = alloc_on_break(kernel.brk(0), size, align),
            AllocAction::MoveBreak { address, new_break } => {
                action = alloc_on_move(kernel.brk(new_break), address, new_break)
            }
            AllocAction::Grant { address, next: end } => {
                *next = end;
                return address;
            }
            AllocAction::Refuse => return 0,
        }
    }
}

#[test]
fn brk_reply_maps_failure() {
    assert_eq!(brk_reply(u64::MAX), None);
    assert_eq!(brk_reply(-12i64 as u64), None);
    assert_eq!(brk_reply(i64::MIN as u64), None);
    assert_eq!(brk_reply(0x1000), Some(0x1000));
    assert_eq!(brk_reply(i64::MAX as u64), Some(i64::MAX as usize));
    assert_eq!(brk_reply(0), Some(0));
}

#[test]
fn refused_break_move_is_not_granted() {
    assert_eq!(alloc_on_move(brk_reply(-12i64 as u64), 0x10, 0x20), AllocAction::Refuse);
    assert_eq!(alloc_on_break(brk_reply(-12i64 as u64), 8, 8), AllocAction::Refuse);
    assert_eq!(
        alloc_on_move(brk_reply(0x20), 0x10, 0x20),
        AllocAction::Grant { address: 0x10, next: 0x20 }
    );
}

#[test]
fn first_allocation_asks_for_the_break() {
    assert_eq!(alloc_start(0, 8, 8), AllocAction::QueryBreak);
}

#[test]
fn plan_rounds_up_to_min_align() {
    assert_eq!(
        alloc_start(0x1001, 10, 1),
        AllocAction::MoveBreak { address: 0x1010, new_break: 0x101a }
    );
    assert_eq!(
        alloc_start(0x1000, 10, 8),
        AllocAction::MoveBreak { address: 0x1000, new_break: 0x100a }
    );
}

#[test]
fn plan_uses_larger_alignment() {
    assert_eq!(
        alloc_start(0x1010, 4, 4096),
        AllocAction::MoveBreak { address: 0x2000, new_break: 0x2004 }
    );
}

#[test]
fn zero_size_still_takes_one_byte() {
    assert_eq!(
        alloc_start(0x2000, 0, 16),
        AllocAction::MoveBreak { address: 0x2000, new_break: 0x2001 }
    );
}

#[test]
fn plan_refuses_on_overflow() {
    assert_eq!(alloc_start(usize::MAX - 3, 1, 16), AllocAction::Refuse);
    assert_eq!(alloc_start(usize::MAX - 31, 64, 16), AllocAction::Refuse);
}

#[test]
fn failed_break_query_refuses() {
    assert_eq!(alloc_on_break(None, 8, 8), AllocAction::Refuse);
    assert_eq!(
        alloc_on_break(Some(0x4008), 8, 8),
        AllocAction::MoveBreak { address: 0x4010, new_break: 0x4018 }
    );
}

#[test]
fn move_reply_decides() {
    assert_eq!(alloc_on_move(None, 0x10, 0x20), AllocAction::Refuse);
    assert_eq!(alloc_on_move(Some(0x20), 0x10, 0x20), AllocAction::Grant { address: 0x10, next: 0x20 });
}

#[test]
fn successive_allocations_are_aligned_and_disjoint() {
    let mut kernel = FakeKernel { brk: 0x10_0003, limit: 0x20_0000, calls: Vec::new() };
    let mut next = 0;
    let a = allocate(&mut kernel, &mut next, 24, 8);
    let b = allocate(&mut kernel, &mut next, 100, 64);
    let c = allocate(&mut kernel, &mut next, 1, 1);
    assert_eq!(a, 0x10_0010);
    assert_eq!(b, 0x10_0040);
    assert_eq!(c, 0x10_00b0);
    assert!(a + 24 <= b && b + 100 <= c);
    assert_eq!(a % MIN_ALIGN, 0);
    assert_eq!(b % 64, 0);
    assert_eq!(next, 0x10_00b1);
    assert_eq!(kernel.calls, vec![0, 0x10_0028, 0x10_00a4, 0x10_00b1]);
}

#[test]
fn refused_allocation_leaves_heap_unchanged() {
    let mut kernel = FakeKernel { brk: 0x1000, limit: 0x1100, calls: Vec::new() };
    let mut next = 0;
    let a = allocate(&mut kernel, &mut next, 16, 16);
    assert_eq!(a, 0x1000);
    assert_eq!(next, 0x1010);
    let b = allocate(&mut kernel, &mut next, 0x1000, 16);
    assert_eq!(b, 0);
    assert_eq!(next, 0x1010);
    let c = allocate(&mut kernel, &mut next, 16, 16);
    assert_eq!(c, 0x1010);
}

#[test]
fn many_allocations_never_overlap() {
    let mut kernel = FakeKernel { brk: 0x5000, limit: 0x10_0000, calls: Vec::new() };
    let mut next = 0;
    let requests = [(1usize, 1usize), (17, 8), (0, 32), (100, 256), (3, 2), (4096, 4096), (5, 16)];
    let mut blocks: Vec<(usize, usize)> = Vec::new();
    for (size, align) in requests {
        let before = next;
        let address = allocate(&mut kernel, &mut next, size, align);
        assert_ne!(address, 0);
        assert_eq!(address % align, 0);
        assert_eq!(address % MIN_ALIGN, 0);
        assert!(next > before);
        blocks.push((address, size.max(1)));
    }
    for i in 0..blocks.len() {
        for j in i + 1..blocks.len() {
            assert!(blocks[i].0 + blocks[i].1 <= blocks[j].0);
        }
    }
}
