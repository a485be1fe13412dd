use vstd::arithmetic::power2::{
    lemma2_to64, lemma_pow2_pos, lemma_pow2_strictly_increases, lemma_pow2_unfold, pow2,
};
use vstd::prelude::*;

verus! {

/// The largest height a tree may have: its nodes are then still counted by a `usize`.
pub const MAX_HEIGHT: usize = 30;

/// The position of a node's parent, nodes being numbered level by level from the root.
pub open spec fn parent(n: int) -> int {
    (n - 1) / 2
}

/// The position of the other child of a node's parent.
pub open spec fn sibling(n: int) -> int {
    if n % 2 == 1 {
        n + 1
    } else {
        n - 1
    }
}

/// The position reached from node `n` by going up `k` levels.
pub open spec fn ancestor(n: int, k: nat) -> int
    decreases k,
{
    if k == 0 {
        n
    } else {
        parent(ancestor(n, (k - 1) as nat))
    }
}

/// Going up `k` levels from a leaf arrives on the level `k` above the leaves.
pub proof fn lemma_ancestor_level(height: nat, index: nat, k: nat)
    requires
        index < pow2(height),
        k <= height,
    ensures
        pow2((height - k) as nat) - 1 <= ancestor(pow2(height) - 1 + index, k) <= 2 * pow2(
            (height - k) as nat,
        ) - 2,
        ancestor(pow2(height) - 1 + index, k) <= 2 * pow2(height) - 2,
    decreases k,
{
    if k > 0 {
        lemma_ancestor_level(height, index, (k - 1) as nat);
        lemma_pow2_unfold((height - (k - 1)) as nat);
        lemma_pow2_pos((height - k) as nat);
    }
}

/// The node `k` levels above the leaf at `index` is the one at place
/// `index / 2^k` of its level.
pub proof fn lemma_ancestor_position(height: nat, index: nat, k: nat)
    requires
        index < pow2(height),
        k <= height,
    ensures
        ancestor(pow2(height) - 1 + index, k) == pow2((height - k) as nat) - 1 + index / pow2(k),
    decreases k,
{
    lemma2_to64();
    if k > 0 {
        lemma_ancestor_position(height, index, (k - 1) as nat);
        lemma_pow2_unfold((height - (k - 1)) as nat);
        lemma_pow2_unfold(k);
        lemma_pow2_pos((k - 1) as nat);
        lemma_pow2_pos((height - k) as nat);
        let d = pow2((k - 1) as nat) as int;
        let q = index as int / d;
        vstd::arithmetic::div_mod::lemma_div_denominator(index as int, d, 2);
        vstd::arithmetic::div_mod::lemma_div_pos_is_pos(index as int, d);
        assert(d * 2 == pow2(k));
        assert(q / 2 == index as int / pow2(k) as int);
        assert(ancestor(pow2(height) - 1 + index, (k - 1) as nat) == pow2(
            (height - (k - 1)) as nat,
        ) - 1 + q);
    } else {
        assert(index as int / 1 == index);
    }
}

/// Whether the node `level` levels above the leaf at `index` is a right child:
/// bit `level` of the index.
pub open spec fn is_right_at(index: nat, level: nat) -> bool {
    (index / pow2(level)) % 2 == 1
}

/// Two levels of a tree share no position.
proof fn lemma_levels_apart(height: nat, low: nat, high: nat)
    requires
        low < high <= height,
    ensures
        2 * pow2((height - high) as nat) - 2 < pow2((height - low) as nat) - 1,
{
    lemma_pow2_unfold((height - high + 1) as nat);
    if height - high + 1 < height - low {
        lemma_pow2_strictly_increases((height - high + 1) as nat, (height - low) as nat);
    }
}

/// The sibling of a node on the way from a leaf to the root is a node of the
/// tree that is not itself on that way.
pub proof fn lemma_sibling_off_path(height: nat, index: nat, j: nat, m: nat)
    requires
        index < pow2(height),
        j < height,
        m <= height,
    ensures
        sibling(ancestor(pow2(height) - 1 + index, j)) != ancestor(pow2(height) - 1 + index, m),
        0 <= sibling(ancestor(pow2(height) - 1 + index, j)) <= 2 * pow2(height) - 2,
{
    lemma_ancestor_level(height, index, j);
    lemma_ancestor_level(height, index, m);
    lemma_pow2_unfold((height - j) as nat);
    lemma_pow2_pos((height - j - 1) as nat);
    lemma_pow2_pos(height);
    if j > 0 {
        lemma_levels_apart(height, 0, j);
    }
    if m < j {
        lemma_levels_apart(height, m, j);
    } else if j < m {
        lemma_levels_apart(height, j, m);
    }
}

/// The number of leaf slots of a tree of the given height.
pub fn leaf_slots(height: usize) -> (count: usize)
    requires
        height <= MAX_HEIGHT,
    ensures
        count == pow2(height as nat),
        1 <= count <= 0x4000_0000,
{
    let mut count: usize = 1;
    let mut k: usize = 0;
    proof {
        lemma2_to64();
    }
    while k < height
        invariant
            k <= height <= MAX_HEIGHT,
            count == pow2(k as nat),
            1 <= count <= 0x4000_0000,
            pow2(30) == 0x4000_0000,
        decreases height - k,
    {
        proof {
            lemma_pow2_strictly_increases(k as nat, 30);
            lemma_pow2_unfold((k + 1) as nat);
            if k + 1 < 30 {
                lemma_pow2_strictly_increases((k + 1) as nat, 30);
            }
        }
        count = count * 2;
        k = k + 1;
    }
    count
}

} // verus!
