//! The layout of the stops of a gradient in a buffer of the GPU.
//!
//! Behind a header block and one block of colour per stop, the offsets of
//! the stops stand in blocks of four, arranged as a search tree with five
//! branches per node, level by level from the root. A shader finds the stop
//! for an offset in as many block loads as the tree has levels.
//!
//! With `L` levels, level `l` has `5^l` blocks, and slot `i` of block `b`
//! of level `l` holds the offset of stop
//! `b * 5^(L-l) + (i + 1) * 5^(L-l-1) - 1`. A slot whose stop does not exist
//! holds 1.0. Of the last level only the blocks that can hold a stop are
//! stored.

use vstd::prelude::*;

verus! {

/// The kind of a gradient.
#[derive(Clone, Copy, Debug, PartialEq, Eq, Structural)]
pub enum GradientKind {
    Linear,
    Radial,
    Conic,
}

impl GradientKind {
    /// The number that the shaders know the kind by.
    pub open spec fn spec_to_u8(self) -> u8 {
        match self {
            GradientKind::Linear => 0,
            GradientKind::Radial => 1,
            GradientKind::Conic => 2,
        }
    }

    /// The number that the shaders know the kind by.
    pub fn to_u8(self) -> (r: u8)
        ensures
            r == self.spec_to_u8(),
    {
        match self {
            GradientKind::Linear => 0,
            GradientKind::Radial => 1,
            GradientKind::Conic => 2,
        }
    }
}

/// The bit pattern of the single-precision number 1.0: the offset of a slot
/// without a stop, and the alpha of an opaque colour.
pub const ONE: u32 = 0x3f80_0000;

/// More stops than this are not laid out: the tree is addressed by 32-bit
/// numbers.
pub const MAX_STOPS: usize = 0x0fff_ffff;

/// The power of five.
pub open spec fn pow5(k: nat) -> nat
    decreases k,
{
    if k == 0 {
        1
    } else {
        5 * pow5((k - 1) as nat)
    }
}

/// The least number of levels, from `l` on, whose tree can hold `n` stops.
pub open spec fn levels_from(n: nat, l: nat) -> nat
    decreases n - l,
{
    if pow5(l) > n || l >= n {
        l
    } else {
        levels_from(n, l + 1)
    }
}

/// The number of levels of the tree for `n` stops: the least `L`, one at
/// least, with `5^L > n`.
pub open spec fn tree_levels(n: nat) -> nat {
    levels_from(n, 1)
}

/// The number of blocks of all levels before level `l`.
pub open spec fn blocks_before(l: nat) -> nat {
    ((pow5(l) - 1) / 4) as nat
}

/// The number of blocks of the last level that are stored for `n` stops.
pub open spec fn last_level_blocks(n: nat) -> nat {
    let full = pow5((tree_levels(n) - 1) as nat);
    if full <= n / 5 + 1 {
        full
    } else {
        n / 5 + 1
    }
}

/// The number of blocks of level `l` that are stored for `n` stops.
pub open spec fn level_blocks(n: nat, l: nat) -> nat {
    if l + 1 == tree_levels(n) {
        last_level_blocks(n)
    } else {
        pow5(l)
    }
}

/// The number of blocks of offsets for `n` stops.
pub open spec fn offset_blocks(n: nat) -> nat {
    blocks_before((tree_levels(n) - 1) as nat) + last_level_blocks(n)
}

/// The number of all blocks for `n` stops: the header, the colours and the
/// offsets.
pub open spec fn spec_stops_blocks(n: nat) -> nat {
    1 + n + offset_blocks(n)
}

/// The stop whose offset stands in slot `i` of block `b` of level `l` of a
/// tree of `levels` levels.
pub open spec fn stop_index(levels: nat, l: nat, b: nat, i: nat) -> nat {
    (b * pow5((levels - l) as nat) + (i + 1) * pow5((levels - l - 1) as nat) - 1) as nat
}

/// The offset in a slot: that of its stop, or 1.0 where there is no such
/// stop.
pub open spec fn slot(offsets: Seq<u32>, levels: nat, l: nat, b: nat, i: nat) -> u32 {
    let k = stop_index(levels, l, b, i);
    if k < offsets.len() {
        offsets[k as int]
    } else {
        ONE
    }
}

/// Powers of five are positive, grow, and leave 1 when divided by 4.
pub proof fn lemma_pow5(k: nat)
    ensures
        pow5(k) >= 1,
        pow5(k) % 4 == 1,
        pow5(k + 1) == 5 * pow5(k),
        blocks_before(k + 1) == blocks_before(k) + pow5(k),
        pow5(k) > k,
    decreases k,
{
    if k > 0 {
        lemma_pow5((k - 1) as nat);
    }
}

/// The number of levels is the least, one at least, whose power of five is
/// above the number of stops.
pub proof fn lemma_tree_levels(n: nat)
    ensures
        tree_levels(n) >= 1,
        pow5(tree_levels(n)) > n,
        tree_levels(n) > 1 ==> pow5((tree_levels(n) - 1) as nat) <= n,
{
    lemma_levels_from(n, 1);
}

proof fn lemma_levels_from(n: nat, l: nat)
    requires
        l >= 1,
        l > 1 ==> pow5((l - 1) as nat) <= n,
    ensures
        levels_from(n, l) >= l,
        pow5(levels_from(n, l)) > n,
        levels_from(n, l) > 1 ==> pow5((levels_from(n, l) - 1) as nat) <= n,
    decreases n - l,
{
    lemma_pow5(l);
    if pow5(l) <= n {
        lemma_levels_from(n, l + 1);
    }
}

/// The number of blocks that the stops of a gradient take in a buffer of
/// the GPU: one header, one colour per stop, and the tree of the offsets.
pub fn gpu_gradient_stops_blocks(num_stops: usize) -> (r: usize)
    requires
        num_stops <= MAX_STOPS,
    ensures
        r == spec_stops_blocks(num_stops as nat),
{
    let shape = tree_shape(num_stops);
    1 + num_stops + (shape.before_last + shape.last_blocks) as usize
}

/// The shape of the tree for a number of stops.
struct TreeShape {
    /// The number of levels.
    levels: u32,
    /// `5^levels`.
    stride: u64,
    /// The number of blocks of all levels but the last.
    before_last: u64,
    /// The number of blocks of the last level that are stored.
    last_blocks: u64,
}

fn tree_shape(num_stops: usize) -> (r: TreeShape)
    requires
        num_stops <= MAX_STOPS,
    ensures
        r.levels == tree_levels(num_stops as nat),
        r.stride == pow5(r.levels as nat),
        r.stride <= 5 * num_stops + 5,
        r.before_last == blocks_before((r.levels - 1) as nat),
        r.last_blocks == last_level_blocks(num_stops as nat),
        r.before_last <= num_stops,
        r.last_blocks <= num_stops / 5 + 1,
        r.levels >= 1,
        r.levels <= 14,
{
    let n: u64 = num_stops as u64;
    let mut levels: u32 = 1;
    let mut stride: u64 = 5;
    let mut level_blocks: u64 = 1;
    let mut before: u64 = 0;
    proof {
        reveal_with_fuel(pow5, 3);
        lemma_pow5(0);
    }
    while stride <= n
        invariant
            n == num_stops,
            n <= MAX_STOPS,
            levels >= 1,
            stride == pow5(levels as nat),
            level_blocks == pow5((levels - 1) as nat),
            before == blocks_before((levels - 1) as nat),
            levels > 1 ==> level_blocks <= n,
            levels_from(n as nat, levels as nat) == tree_levels(n as nat),
            levels <= stride,
            stride <= 5 * n + 5,
            before <= level_blocks,
            levels > 1 ==> before <= n,
            levels == 1 ==> before == 0,
        decreases
                (if stride <= n {
                    n + 1 - stride
                } else {
                    0
                }),
    {
        proof {
            lemma_pow5(levels as nat);
            lemma_pow5((levels - 1) as nat);
        }
        before = before + level_blocks;
        level_blocks = stride;
        stride = stride * 5;
        levels = levels + 1;
    }
    let cap = n / 5 + 1;
    let last_blocks = if level_blocks <= cap {
        level_blocks
    } else {
        cap
    };
    proof {
        lemma_pow5(levels as nat);
        assert(pow5(14) > MAX_STOPS) by {
            reveal_with_fuel(pow5, 15);
        }
        if levels > 14 {
            lemma_pow5_grows(14, (levels - 1) as nat);
        }
    }
    TreeShape { levels, stride, before_last: before, last_blocks }
}

/// A larger power of five is not smaller.
pub proof fn lemma_pow5_grows(a: nat, b: nat)
    requires
        a <= b,
    ensures
        pow5(a) <= pow5(b),
    decreases b - a,
{
    if a < b {
        lemma_pow5(a);
        lemma_pow5_grows(a + 1, b);
    }
}

/// The product of two powers of five is the power of the sum.
pub proof fn lemma_pow5_add(a: nat, b: nat)
    ensures
        pow5(a) * pow5(b) == pow5(a + b),
    decreases a,
{
    if a == 0 {
        assert(pow5(0) == 1);
        assert(1 * pow5(b) == pow5(b));
    } else {
        lemma_pow5_add((a - 1) as nat, b);
        lemma_pow5((a - 1) as nat);
        lemma_pow5((a - 1 + b) as nat);
        assert(pow5(a) * pow5(b) == 5 * (pow5((a - 1) as nat) * pow5(b))) by (nonlinear_arith)
            requires
                pow5(a) == 5 * pow5((a - 1) as nat),
        ;
    }
}

/// The number of blocks of offsets of the levels before level `l`, as they
/// are stored for `n` stops.
pub open spec fn stored_before(n: nat, l: nat) -> nat {
    if l < tree_levels(n) {
        blocks_before(l)
    } else {
        offset_blocks(n)
    }
}

/// The blocks are those of the first `levels_done` levels of the tree of
/// `offsets`, and the first `blocks_done` blocks of the next level.
pub open spec fn tree_filled(
    blocks: Seq<[u32; 4]>,
    offsets: Seq<u32>,
    levels_done: nat,
    blocks_done: nat,
) -> bool {
    let n = offsets.len();
    let levels = tree_levels(n);
    &&& blocks.len() == stored_before(n, levels_done) + blocks_done
    &&& forall|l: nat, b: nat, i: nat|
        #![trigger slot(offsets, levels, l, b, i)]
        i < 4 && ((l < levels_done && b < level_blocks(n, l)) || (l == levels_done && b
            < blocks_done)) ==> blocks[(blocks_before(l) + b) as int]@[i as int] == slot(
            offsets,
            levels,
            l,
            b,
            i,
        )
}

/// The offset of the stop at position `k`, or 1.0 where there is no such
/// stop.
fn offset_or_one(offsets: &[u32], k: u64) -> (r: u32)
    ensures
        r == (if k < offsets@.len() {
            offsets@[k as int]
        } else {
            ONE
        }),
{
    if k < offsets.len() as u64 {
        offsets[k as usize]
    } else {
        ONE
    }
}

/// The blocks of the offsets of the stops of a gradient, for the shader to
/// search: the tree of the offsets, level by level from the root.
pub fn gpu_gradient_stop_offsets(offsets: &[u32]) -> (blocks: Vec<[u32; 4]>)
    requires
        offsets@.len() <= MAX_STOPS,
    ensures
        blocks@.len() == offset_blocks(offsets@.len()),
        tree_filled(blocks@, offsets@, tree_levels(offsets@.len()), 0),
{
    let ghost n = offsets@.len();
    let ghost top = tree_levels(n);
    let shape = tree_shape(offsets.len());
    let mut blocks: Vec<[u32; 4]> = Vec::new();
    let mut level: u32 = 0;
    let mut index_stride: u64 = shape.stride;
    let mut full_blocks: u64 = 1;
    proof {
        lemma_pow5(0);
        lemma_tree_levels(n);
    }
    while level < shape.levels
        invariant
            n == offsets@.len(),
            n <= MAX_STOPS,
            top == tree_levels(n),
            shape.levels == top,
            shape.stride == pow5(top),
            shape.stride <= 5 * n + 5,
            shape.before_last == blocks_before((top - 1) as nat),
            shape.last_blocks == last_level_blocks(n),
            top >= 1,
            level <= top,
            index_stride == pow5((top - level) as nat),
            level < top ==> full_blocks == pow5(level as nat),
            tree_filled(blocks@, offsets@, level as nat, 0),
        decreases top - level,
    {
        proof {
            lemma_pow5((top - level - 1) as nat);
            lemma_pow5(level as nat);
            lemma_pow5_add(level as nat, (top - level) as nat);
        }
        let next_stride: u64 = index_stride / 5;
        let num_blocks: u64 = if level == shape.levels - 1 {
            shape.last_blocks
        } else {
            full_blocks
        };
        assert(num_blocks == level_blocks(n, level as nat));
        assert(num_blocks <= pow5(level as nat));
        let ghost start = blocks@.len();
        assert(start == blocks_before(level as nat));
        let mut b: u64 = 0;
        while b < num_blocks
            invariant
                n == offsets@.len(),
                top == tree_levels(n),
                level < top,
                b <= num_blocks,
                num_blocks == level_blocks(n, level as nat),
                num_blocks <= pow5(level as nat),
                index_stride == pow5((top - level) as nat),
                next_stride == pow5((top - level - 1) as nat),
                next_stride >= 1,
                index_stride == 5 * next_stride,
                pow5(level as nat) * index_stride == pow5(top),
                pow5(top) <= 5 * n + 5,
                n <= MAX_STOPS,
                start == blocks_before(level as nat),
                tree_filled(blocks@, offsets@, level as nat, b as nat),
            decreases num_blocks - b,
        {
            assert(b * index_stride + index_stride <= pow5(top)) by (nonlinear_arith)
                requires
                    b + 1 <= pow5(level as nat),
                    pow5(level as nat) * index_stride == pow5(top),
                    index_stride >= 0,
            ;
            let base: u64 = b * index_stride;
            let v0 = offset_or_one(offsets, base + next_stride - 1);
            let v1 = offset_or_one(offsets, base + 2 * next_stride - 1);
            let v2 = offset_or_one(offsets, base + 3 * next_stride - 1);
            let v3 = offset_or_one(offsets, base + 4 * next_stride - 1);
            let ghost before = blocks@;
            let block = [v0, v1, v2, v3];
            blocks.push(block);
            proof {
                let lv = level as nat;
                assert forall|l: nat, bb: nat, i: nat|
                    #![trigger slot(offsets@, top, l, bb, i)]
                    i < 4 && ((l < lv && bb < level_blocks(n, l)) || (l == lv && bb < b + 1))
                        implies blocks@[(blocks_before(l) + bb) as int]@[i as int] == slot(
                    offsets@,
                    top,
                    l,
                    bb,
                    i,
                ) by {
                    if l == lv && bb == b {
                        assert(blocks@[start + b] == block);
                        assert(block@[0] == v0 && block@[1] == v1 && block@[2] == v2 && block@[3]
                            == v3);
                        let k = stop_index(top, l, bb, i);
                        assert(k == base + (i + 1) * next_stride - 1) by (nonlinear_arith)
                            requires
                                k == (bb * pow5((top - l) as nat) + (i + 1) * pow5(
                                    (top - l - 1) as nat,
                                ) - 1) as nat,
                                pow5((top - l) as nat) == index_stride,
                                pow5((top - l - 1) as nat) == next_stride,
                                base == bb * index_stride,
                                next_stride >= 1,
                                bb >= 0,
                                i >= 0,
                        ;
                        assert((i + 1) * next_stride == if i == 0 {
                            next_stride as int
                        } else if i == 1 {
                            2 * next_stride
                        } else if i == 2 {
                            3 * next_stride
                        } else {
                            4 * next_stride
                        }) by (nonlinear_arith)
                            requires
                                0 <= i < 4,
                        ;
                        assert(blocks@[(blocks_before(l) + bb) as int]@[i as int] == slot(
                            offsets@,
                            top,
                            l,
                            bb,
                            i,
                        ));
                    } else {
                        if l < lv {
                            lemma_level_start(n, l, lv);
                        }
                        assert(blocks@[(blocks_before(l) + bb) as int] == before[(blocks_before(l) + bb) as int]);
                        assert(before[(blocks_before(l) + bb) as int]@[i as int] == slot(
                            offsets@,
                            top,
                            l,
                            bb,
                            i,
                        ));
                    }
                }
            }
            b += 1;
        }
        proof {
            lemma_pow5(level as nat);
            if level + 1 < top {
                assert(blocks@.len() == blocks_before((level + 1) as nat));
                lemma_pow5((top - level - 2) as nat);
                assert(full_blocks * 5 <= pow5(top)) by (nonlinear_arith)
                    requires
                        full_blocks * index_stride == pow5(top),
                        index_stride >= 5,
                        full_blocks >= 0,
                ;
            }
        }
        index_stride = next_stride;
        if level + 1 < shape.levels {
            full_blocks = full_blocks * 5;
        }
        level += 1;
    }
    blocks
}

/// The blocks of a level stand behind those of the levels before it.
proof fn lemma_level_start(n: nat, l: nat, later: nat)
    requires
        l < later,
        later < tree_levels(n),
    ensures
        blocks_before(l) + level_blocks(n, l) <= blocks_before(later),
    decreases later - l,
{
    lemma_pow5(l);
    if l + 1 < later {
        lemma_level_start(n, l + 1, later);
        lemma_pow5(l + 1);
    }
}

/// Whether all stops are opaque: whether each alpha is 1.0.
pub fn stops_are_opaque(alphas: &[u32]) -> (r: bool)
    ensures
        r == forall|k: int| 0 <= k < alphas@.len() ==> alphas@[k] == ONE,
{
    let mut k: usize = 0;
    while k < alphas.len()
        invariant
            k <= alphas@.len(),
            forall|j: int| 0 <= j < k ==> alphas@[j] == ONE,
        decreases alphas@.len() - k,
    {
        if alphas[k] != ONE {
            return false;
        }
        k += 1;
    }
    true
}

/// The tree of the offsets has as many blocks as are counted for it.
pub proof fn law_tree_fills_its_blocks(blocks: Seq<[u32; 4]>, offsets: Seq<u32>)
    requires
        tree_filled(blocks, offsets, tree_levels(offsets.len()), 0),
    ensures
        1 + offsets.len() + blocks.len() == spec_stops_blocks(offsets.len()),
{
}

} // verus!
