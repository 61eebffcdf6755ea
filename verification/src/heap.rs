//! Allocation through the Open Kernel process heap (`brk` syscall).
//!
//! The heap is a bump allocator: the next free address only grows, and space is
//! reclaimed when the process exits. An allocation alternates between decisions
//! made here and `brk` calls made by the caller: `alloc_start` says what to do
//! first, and `alloc_on_break` / `alloc_on_move` take the kernel's replies.
use vstd::prelude::*;
use vstd::arithmetic::power2::{pow2, lemma_pow2_adds, lemma_pow2_strictly_increases, lemma2_to64, lemma2_to64_rest};
use vstd::bits::{lemma_usize_shl_is_mul, lemma_usize_shr_is_div};
use vstd::arithmetic::div_mod::{lemma_fundamental_div_mod, lemma_mod_multiples_basic, lemma_mod_pos_bound};
use vstd::arithmetic::mul::lemma_mul_is_commutative;

verus! {

/// The `brk` syscall number.
pub const SYS_BRK: u64 = 18;

/// Syscalls report a failure as a reply that is negative as a signed 64-bit
/// value (the negated error number).
pub open spec fn is_error_reply(raw: u64) -> bool {
    raw > i64::MAX
}

/// The smallest alignment the system allocator hands out on x86_64.
pub const MIN_ALIGN: usize = 16;

/// `a` is a power of two.
pub open spec fn is_power_of_two(a: usize) -> bool {
    exists|k: nat| pow2(k) == a
}

/// The alignment actually used for a request of alignment `align`.
pub open spec fn effective_align(align: usize) -> usize {
    if align >= MIN_ALIGN { align } else { MIN_ALIGN }
}

/// The smallest multiple of `a` that is at least `base`.
pub open spec fn round_up(base: int, a: int) -> int {
    ((base + a - 1) / a) * a
}

/// The number of bytes a request of `size` bytes takes from the heap.
pub open spec fn reserved_size(size: usize) -> int {
    if size == 0 { 1 } else { size as int }
}

/// What `brk` returned: the address it reports, or `None` for a failure (a
/// reply that is negative as a signed value).
pub open spec fn brk_reply_spec(raw: u64) -> Option<usize> {
    if is_error_reply(raw) { None } else { Some(raw as usize) }
}

/// The next step of an allocation.
#[derive(PartialEq, Eq, Structural, Clone, Copy, Debug)]
pub enum AllocAction {
    /// Ask the kernel for the current program break (`brk(0)`), then call `alloc_on_break`.
    QueryBreak,
    /// Ask the kernel to move the break to `new_break`, then call `alloc_on_move`.
    MoveBreak { address: usize, new_break: usize },
    /// Record `next` as the new end of the heap, release the lock and return `address`.
    Grant { address: usize, next: usize },
    /// Release the lock and return a null pointer; the heap is unchanged.
    Refuse,
}

/// The plan for placing `size` bytes aligned to `align` on a heap that ends at `base`.
pub open spec fn plan(base: usize, size: usize, align: usize) -> AllocAction {
    let a = effective_align(align) as int;
    if base + a - 1 > usize::MAX {
        AllocAction::Refuse
    } else {
        let start = round_up(base as int, a);
        let end = start + reserved_size(size);
        if end > usize::MAX {
            AllocAction::Refuse
        } else {
            AllocAction::MoveBreak { address: start as usize, new_break: end as usize }
        }
    }
}

/// The first step of an allocation on a heap whose recorded end is `next` (0: not known yet).
pub open spec fn start_spec(next: usize, size: usize, align: usize) -> AllocAction {
    if next == 0 {
        AllocAction::QueryBreak
    } else {
        plan(next, size, align)
    }
}

/// The step after the kernel reported the current break (`None`: `brk(0)` failed).
pub open spec fn on_break_spec(base: Option<usize>, size: usize, align: usize) -> AllocAction {
    match base {
        None => AllocAction::Refuse,
        Some(b) => plan(b, size, align),
    }
}

/// The step after the kernel answered a request to move the break.
pub open spec fn on_move_spec(moved: Option<usize>, address: usize, new_break: usize) -> AllocAction {
    match moved {
        None => AllocAction::Refuse,
        Some(_) => AllocAction::Grant { address, next: new_break },
    }
}

/// Clearing the low bits below a power of two rounds down to a multiple of it.
proof fn lemma_mask_rounds_down(x: usize, a: usize)
    requires
        is_power_of_two(a),
    ensures
        x & !((a - 1) as usize) == (x / a) * a,
        a > 0,
{
    let k = choose|k: nat| pow2(k) == a;
    lemma2_to64();
    lemma2_to64_rest();
    if k > usize::BITS {
        lemma_pow2_strictly_increases(usize::BITS as nat, k);
    }
    assert(k < usize::BITS);
    let ks = k as usize;
    lemma_usize_shl_is_mul(1, ks);
    assert(1usize << ks == a);
    assert(x & !(((1usize << ks) - 1) as usize) == (x >> ks) << ks) by (bit_vector)
        requires
            ks < usize::BITS,
    ;
    lemma_usize_shr_is_div(x, ks);
    lemma_fundamental_div_mod(x as int, a as int);
    assert((x / a) * a <= x) by (nonlinear_arith)
        requires
            a > 0,
    ;
    lemma_usize_shl_is_mul(x >> ks, ks);
}

/// 16 is a power of two.
proof fn lemma_min_align_is_power_of_two()
    ensures
        is_power_of_two(MIN_ALIGN),
{
    lemma2_to64();
    assert(pow2(4) == MIN_ALIGN);
}

/// A power of two below `MIN_ALIGN` divides `MIN_ALIGN`.
proof fn lemma_small_power_divides_min_align(align: usize)
    requires
        is_power_of_two(align),
        align < MIN_ALIGN,
    ensures
        MIN_ALIGN as int % align as int == 0,
{
    let k = choose|k: nat| pow2(k) == align;
    lemma2_to64();
    if k > 4 {
        lemma_pow2_strictly_increases(4, k);
    }
    assert(k < 4);
    assert(k == 0 || k == 1 || k == 2 || k == 3);
    assert(align == 1 || align == 2 || align == 4 || align == 8);
}

/// The rounded-up address is a multiple of `a`, not below `base`, and less than `a` above it.
proof fn lemma_round_up_bounds(base: int, a: int)
    requires
        a > 0,
        base >= 0,
    ensures
        round_up(base, a) % a == 0,
        base <= round_up(base, a) < base + a,
{
    lemma_fundamental_div_mod(base + a - 1, a);
    let q = (base + a - 1) / a;
    let r = (base + a - 1) % a;
    lemma_mod_pos_bound(base + a - 1, a);
    lemma_mul_is_commutative(a, q);
    assert(q * a == base + a - 1 - r);
    lemma_mod_multiples_basic(q, a);
}

/// Rounds `base` up to a multiple of the power of two `alignment`; `None` when that overflows.
fn align_up(base: usize, alignment: usize) -> (aligned: Option<usize>)
    requires
        is_power_of_two(alignment),
    ensures
        match aligned {
            None => base + alignment - 1 > usize::MAX,
            Some(v) => base + alignment - 1 <= usize::MAX && v == round_up(base as int, alignment as int),
        },
{
    proof {
        lemma_mask_rounds_down(0, alignment);
    }
    match base.checked_add(alignment - 1) {
        None => None,
        Some(sum) => {
            proof {
                lemma_mask_rounds_down(sum, alignment);
            }
            Some(sum & !(alignment - 1))
        },
    }
}

/// Places `size` bytes aligned to `align` on a heap that ends at `base`.
fn plan_exec(base: usize, size: usize, align: usize) -> (action: AllocAction)
    requires
        is_power_of_two(align),
    ensures
        action == plan(base, size, align),
{
    let alignment = if align >= MIN_ALIGN { align } else { MIN_ALIGN };
    proof {
        lemma_min_align_is_power_of_two();
    }
    let aligned_start = match align_up(base, alignment) {
        Some(start) => start,
        None => {
            return AllocAction::Refuse;
        },
    };
    let reserved = if size >= 1 { size } else { 1 };
    match aligned_start.checked_add(reserved) {
        Some(new_break) => AllocAction::MoveBreak { address: aligned_start, new_break },
        None => AllocAction::Refuse,
    }
}

/// The first step of allocating `size` bytes aligned to `align` on a heap whose
/// recorded end is `next`; 0 means the end is not known yet and must be asked for.
pub fn alloc_start(next: usize, size: usize, align: usize) -> (action: AllocAction)
    requires
        is_power_of_two(align),
    ensures
        action == start_spec(next, size, align),
{
    if next == 0 {
        AllocAction::QueryBreak
    } else {
        plan_exec(next, size, align)
    }
}

/// The step after `QueryBreak`: `base` is the break the kernel reported, `None` if `brk(0)` failed.
pub fn alloc_on_break(base: Option<usize>, size: usize, align: usize) -> (action: AllocAction)
    requires
        is_power_of_two(align),
    ensures
        action == on_break_spec(base, size, align),
{
    match base {
        None => AllocAction::Refuse,
        Some(b) => plan_exec(b, size, align),
    }
}

/// The step after `MoveBreak { address, new_break }`: `moved` is the kernel's reply,
/// `None` if it refused to move the break.
pub fn alloc_on_move(moved: Option<usize>, address: usize, new_break: usize) -> (action: AllocAction)
    ensures
        action == on_move_spec(moved, address, new_break),
{
    match moved {
        None => AllocAction::Refuse,
        Some(_) => AllocAction::Grant { address, next: new_break },
    }
}

/// Every block the heap plans is aligned to the requested alignment and to
/// `MIN_ALIGN`, starts at or after the current end of the heap, and the new end
/// of the heap is exactly where the block (at least one byte) ends.
pub proof fn law_planned_block_is_aligned_and_fresh(base: usize, size: usize, align: usize)
    requires
        is_power_of_two(align),
    ensures
        plan(base, size, align) matches AllocAction::MoveBreak { address, new_break } ==> {
            &&& address as int % align as int == 0
            &&& address as int % MIN_ALIGN as int == 0
            &&& base <= address
            &&& address + reserved_size(size) == new_break
            &&& address + size <= new_break
            &&& base < new_break
        },
{
    lemma_mask_rounds_down(0, align);
    let a = effective_align(align) as int;
    lemma_round_up_bounds(base as int, a);
    let start = round_up(base as int, a);
    if align < MIN_ALIGN {
        lemma_small_power_divides_min_align(align);
        assert(start % (align as int) == 0) by {
            let q = start / MIN_ALIGN as int;
            lemma_fundamental_div_mod(start, MIN_ALIGN as int);
            let m = MIN_ALIGN as int / align as int;
            lemma_fundamental_div_mod(MIN_ALIGN as int, align as int);
            assert(start == (q * m) * align) by (nonlinear_arith)
                requires
                    start == MIN_ALIGN * q,
                    MIN_ALIGN as int == align * m,
            ;
            lemma_mod_multiples_basic(q * m, align as int);
        }
    } else {
        assert(start % (MIN_ALIGN as int) == 0) by {
            let q = start / align as int;
            lemma_fundamental_div_mod(start, align as int);
            lemma_small_power_or_multiple(align);
            let m = align as int / MIN_ALIGN as int;
            lemma_fundamental_div_mod(align as int, MIN_ALIGN as int);
            assert(start == (q * m) * MIN_ALIGN) by (nonlinear_arith)
                requires
                    start == align * q,
                    align as int == MIN_ALIGN * m,
            ;
            lemma_mod_multiples_basic(q * m, MIN_ALIGN as int);
        }
    }
}

/// A power of two at least `MIN_ALIGN` is a multiple of `MIN_ALIGN`.
proof fn lemma_small_power_or_multiple(align: usize)
    requires
        is_power_of_two(align),
        align >= MIN_ALIGN,
    ensures
        align as int % MIN_ALIGN as int == 0,
{
    let k = choose|k: nat| pow2(k) == align;
    lemma2_to64();
    if k < 4 {
        lemma_pow2_strictly_increases(k, 4);
        assert(false);
    }
    lemma_pow2_adds(4, (k - 4) as nat);
    lemma_mod_multiples_basic(pow2((k - 4) as nat) as int, 16);
}

/// Two blocks planned one after the other, the second on the heap end that the
/// first one left, never overlap, and the heap end only grows.
pub proof fn law_successive_blocks_are_disjoint(
    base: usize,
    size1: usize,
    align1: usize,
    size2: usize,
    align2: usize,
)
    requires
        is_power_of_two(align1),
        is_power_of_two(align2),
    ensures
        plan(base, size1, align1) matches AllocAction::MoveBreak { address: a1, new_break: n1 }
            ==> (plan(n1, size2, align2) matches AllocAction::MoveBreak { address: a2, new_break: n2 }
            ==> a1 + size1 <= a2 && a1 < a2 && n1 < n2),
{
    law_planned_block_is_aligned_and_fresh(base, size1, align1);
    if let AllocAction::MoveBreak { address: a1, new_break: n1 } = plan(base, size1, align1) {
        law_planned_block_is_aligned_and_fresh(n1, size2, align2);
    }
}

/// `action` is the right answer to placing `size` bytes aligned to `align` on a
/// heap that ends at `base`: with `a` the larger of `align` and `MIN_ALIGN`, the
/// block starts at the first multiple of `a` at or above `base` and takes
/// `size` bytes (at least one); the answer is a refusal exactly when that block,
/// or the rounding itself, would pass the end of the address space.
pub open spec fn is_placement(action: AllocAction, base: usize, size: usize, align: usize) -> bool {
    let a: int = if align >= 16 { align as int } else { 16 };
    let need: int = if size == 0 { 1 } else { size as int };
    let start: int = ((base + a - 1) / a) * a;
    let fits = base + a - 1 <= usize::MAX && start + need <= usize::MAX;
    &&& fits ==> action == (AllocAction::MoveBreak { address: start as usize, new_break: (start + need) as usize })
    &&& !fits ==> action == AllocAction::Refuse
    &&& action matches AllocAction::MoveBreak { address, new_break } ==> {
        &&& address as int % align as int == 0
        &&& address as int % 16 == 0
        &&& base <= address < base + a
        &&& new_break == address + need
    }
}

/// Planning a block gives the right placement for every heap end, size and
/// alignment: aligned to the request and to 16, at the first such address at
/// or above the heap end, `size` bytes long (at least one), and refused only
/// when the block would not fit below the end of the address space.
pub proof fn law_plan_places_block(base: usize, size: usize, align: usize)
    requires
        is_power_of_two(align),
    ensures
        is_placement(plan(base, size, align), base, size, align),
{
    law_planned_block_is_aligned_and_fresh(base, size, align);
    lemma_mask_rounds_down(0, align);
    let a = effective_align(align) as int;
    lemma_round_up_bounds(base as int, a);
}

/// Each step of an allocation answers correctly: the first step on a known heap
/// end, and the step after the kernel reports the break, both place the block
/// as `is_placement` says (the requested alignment included); the first step on
/// an unknown end asks for the break, and a failed query refuses; a refused move
/// of the break refuses, and a granted one hands out the planned block and
/// records the planned end.
pub proof fn law_alloc_steps_place_blocks(
    next: usize,
    reported: usize,
    size: usize,
    align: usize,
    address: usize,
    new_break: usize,
    moved: usize,
)
    requires
        is_power_of_two(align),
    ensures
        next != 0 ==> is_placement(start_spec(next, size, align), next, size, align),
        start_spec(0, size, align) == AllocAction::QueryBreak,
        is_placement(on_break_spec(Some(reported), size, align), reported, size, align),
        on_break_spec(None, size, align) == AllocAction::Refuse,
        on_move_spec(None, address, new_break) == AllocAction::Refuse,
        on_move_spec(Some(moved), address, new_break) == (AllocAction::Grant { address, next: new_break }),
{
    law_plan_places_block(next, size, align);
    law_plan_places_block(reported, size, align);
}

/// The blocks of any sequence of allocations never overlap, and the heap end
/// only grows. Allocation `i` planned from heap end `bases[i]` the block at
/// `addresses[i]` with new end `ends[i]`; each later allocation starts from an
/// end at least the one the previous left (the recorded end never shrinks:
/// refused allocations and deallocations leave it as it is).
pub proof fn law_blocks_of_any_sequence_are_disjoint(
    bases: Seq<usize>,
    sizes: Seq<usize>,
    aligns: Seq<usize>,
    addresses: Seq<usize>,
    ends: Seq<usize>,
)
    requires
        bases.len() == sizes.len() == aligns.len() == addresses.len() == ends.len(),
        forall|i: int| 0 <= i < bases.len() ==> is_power_of_two(#[trigger] aligns[i]),
        forall|i: int|
            0 <= i < bases.len() ==> #[trigger] plan(bases[i], sizes[i], aligns[i])
                == (AllocAction::MoveBreak { address: addresses[i], new_break: ends[i] }),
        forall|i: int| 0 <= i < bases.len() - 1 ==> ends[i] <= #[trigger] bases[i + 1],
    ensures
        forall|i: int, j: int|
            0 <= i < j < bases.len() ==> addresses[i] + sizes[i] <= addresses[j] && ends[i] < ends[j],
        forall|i: int| 0 <= i < bases.len() ==> #[trigger] addresses[i] as int % aligns[i] as int == 0,
{
    assert forall|k: int| 0 <= k < bases.len() implies bases[k] < #[trigger] ends[k] by {
        law_planned_block_is_aligned_and_fresh(bases[k], sizes[k], aligns[k]);
    }
    assert forall|i: int| 0 <= i < bases.len() implies #[trigger] addresses[i] as int % aligns[i] as int
        == 0 by {
        law_planned_block_is_aligned_and_fresh(bases[i], sizes[i], aligns[i]);
    }
    assert forall|i: int, j: int| 0 <= i < j < bases.len() implies
        addresses[i] + sizes[i] <= addresses[j] && ends[i] < ends[j] by {
        law_planned_block_is_aligned_and_fresh(bases[i], sizes[i], aligns[i]);
        law_planned_block_is_aligned_and_fresh(bases[j], sizes[j], aligns[j]);
        lemma_later_bases_exceed_earlier_ends(bases, ends, i, j);
    }
}

proof fn lemma_later_bases_exceed_earlier_ends(bases: Seq<usize>, ends: Seq<usize>, i: int, j: int)
    requires
        bases.len() == ends.len(),
        0 <= i < j < bases.len(),
        forall|k: int| 0 <= k < bases.len() ==> bases[k] < #[trigger] ends[k],
        forall|k: int| 0 <= k < bases.len() - 1 ==> #[trigger] ends[k] <= bases[k + 1],
    ensures
        ends[i] <= bases[j],
    decreases j - i,
{
    if j > i + 1 {
        lemma_later_bases_exceed_earlier_ends(bases, ends, i, j - 1);
        assert(bases[j - 1] < ends[j - 1]);
        assert(ends[j - 1] <= bases[j]);
    } else {
        assert(ends[i] <= bases[i + 1]);
    }
}

/// Interprets the raw value that `brk` returned.
pub fn brk_reply(raw: u64) -> (reply: Option<usize>)
    ensures
        reply == brk_reply_spec(raw),
        reply is None <==> (raw as i64) < 0,
{
    assert((raw as i64) < 0 <==> raw > 0x7fff_ffff_ffff_ffffu64) by (bit_vector);
    if raw > i64::MAX as u64 {
        None
    } else {
        Some(raw as usize)
    }
}

} // verus!
