use crate::hash::HashScheme;
use crate::path::{climb, fold_steps, update_verdict, verdict, TreeError};
use crate::positions::{ancestor, lemma_ancestor_level, parent, sibling};
use crate::tree::{labelled, AuthenticatedTree};
use vstd::arithmetic::power2::{lemma2_to64, lemma_pow2_pos, lemma_pow2_unfold, pow2};
use vstd::prelude::*;

verus! {

/// Climbing `k` levels along the path of a leaf arrives at the digest the tree
/// keeps for the leaf's ancestor `k` levels up.
proof fn lemma_climb<H: HashScheme>(tree: &AuthenticatedTree<H>, index: nat, k: nat)
    requires
        tree.wf(),
        index < tree.slots(),
        k <= tree.height,
    ensures
        fold_steps(
            &tree.hasher,
            tree.leaves()[index as int],
            tree.path_steps(index).take(k as int),
        ) == tree.nodes@[ancestor(tree.slots() - 1 + index, k)]@,
    decreases k,
{
    let start = tree.slots() - 1 + index;
    if k == 0 {
        assert(tree.path_steps(index).take(0) =~= Seq::empty());
    } else {
        lemma_climb(tree, index, (k - 1) as nat);
        lemma_ancestor_level(tree.height as nat, index, (k - 1) as nat);
        lemma_pow2_unfold((tree.height - (k - 1)) as nat);
        lemma_pow2_pos((tree.height - k) as nat);
        let at = ancestor(start, (k - 1) as nat);
        let up = parent(at);
        assert(ancestor(start, k) == up);
        assert(labelled(&tree.hasher, tree.nodes@, up));
        let steps = tree.path_steps(index).take(k as int);
        assert(steps.drop_last() =~= tree.path_steps(index).take(k - 1));
        assert(steps.last() == (tree.nodes@[sibling(at)]@, at % 2 == 0));
    }
}

/// The digest of the subtree `level` levels high at place `place` of its level,
/// as a function of the leaf digests alone.
pub open spec fn subtree_digest<H: HashScheme>(
    hasher: &H,
    leaves: Seq<Seq<u8>>,
    level: nat,
    place: nat,
) -> Seq<u8>
    decreases level,
{
    if level == 0 {
        leaves[place as int]
    } else {
        hasher.node_digest(
            subtree_digest(hasher, leaves, (level - 1) as nat, 2 * place),
            subtree_digest(hasher, leaves, (level - 1) as nat, 2 * place + 1),
        )
    }
}

/// The root that a sequence of `2^height` leaf digests hashes up to.
pub open spec fn merkle_root<H: HashScheme>(hasher: &H, height: nat, leaves: Seq<Seq<u8>>) -> Seq<
    u8,
> {
    subtree_digest(hasher, leaves, height, 0)
}

/// Every node of a well-formed tree holds the digest of the subtree below it.
proof fn lemma_node_is_subtree_digest<H: HashScheme>(
    tree: &AuthenticatedTree<H>,
    level: nat,
    place: nat,
)
    requires
        tree.wf(),
        level <= tree.height,
        place < pow2((tree.height - level) as nat),
    ensures
        0 <= pow2((tree.height - level) as nat) - 1 + place < tree.nodes@.len(),
        tree.nodes@[pow2((tree.height - level) as nat) - 1 + place]@ == subtree_digest(
            &tree.hasher,
            tree.leaves(),
            level,
            place,
        ),
    decreases level,
{
    if level == 0 {
    } else {
        lemma_pow2_unfold((tree.height - level + 1) as nat);
        lemma_node_is_subtree_digest(tree, (level - 1) as nat, 2 * place);
        lemma_node_is_subtree_digest(tree, (level - 1) as nat, 2 * place + 1);
        lemma_levels_within(tree.height as nat, level);
        let n = pow2((tree.height - level) as nat) - 1 + place;
        assert(labelled(&tree.hasher, tree.nodes@, n));
    }
}

/// A level above the leaves has at most half as many places as the leaf level.
proof fn lemma_levels_within(height: nat, level: nat)
    requires
        0 < level <= height,
    ensures
        2 * pow2((height - level) as nat) <= pow2(height),
    decreases level,
{
    lemma_pow2_unfold((height - level + 1) as nat);
    if level > 1 {
        lemma_levels_within(height, (level - 1) as nat);
        lemma_pow2_pos((height - level) as nat);
    }
}

/// The root of a well-formed tree is a function of its leaves: it is the root
/// that the leaf digests hash up to, pair by pair and level by level.
pub proof fn law_root_is_the_merkle_root<H: HashScheme>(tree: &AuthenticatedTree<H>)
    requires
        tree.wf(),
    ensures
        tree.root_digest() == merkle_root(&tree.hasher, tree.height as nat, tree.leaves()),
{
    lemma2_to64();
    lemma_node_is_subtree_digest(tree, tree.height as nat, 0);
}

/// Round trip: in a well-formed tree, the path generated for a leaf verifies
/// against the tree's root and any record whose digest is that leaf.
pub proof fn law_round_trip<H: HashScheme>(
    tree: &AuthenticatedTree<H>,
    index: nat,
    record: Seq<u8>,
)
    requires
        tree.wf(),
        index < tree.slots(),
        tree.hasher.leaf_digest(record) == Some(tree.leaves()[index as int]),
    ensures
        verdict(
            &tree.hasher,
            tree.path_steps(index),
            tree.height as nat,
            tree.root_digest(),
            record,
        ) == Ok::<bool, TreeError>(true),
{
    lemma_climb(tree, index, tree.height as nat);
    lemma_ancestor_level(tree.height as nat, index, tree.height as nat);
    lemma2_to64();
    assert(tree.path_steps(index).take(tree.height as int) =~= tree.path_steps(index));
}

/// Update consistency: once the leaf at `index` has been replaced by the digest of
/// `record`, a freshly generated path for that leaf verifies against the new root
/// and `record`, and a freshly generated path for any other leaf still verifies
/// against the new root and a record of that leaf.
pub proof fn law_update_consistency<H: HashScheme>(
    before: &AuthenticatedTree<H>,
    after: &AuthenticatedTree<H>,
    index: nat,
    record: Seq<u8>,
    other: nat,
    other_record: Seq<u8>,
)
    requires
        before.wf(),
        after.wf(),
        after.height == before.height,
        after.hasher == before.hasher,
        index < before.slots(),
        other < before.slots(),
        other != index,
        before.hasher.leaf_digest(record).is_some(),
        after.leaves() == before.leaves().update(
            index as int,
            before.hasher.leaf_digest(record).unwrap(),
        ),
        before.hasher.leaf_digest(other_record) == Some(before.leaves()[other as int]),
    ensures
        verdict(
            &after.hasher,
            after.path_steps(index),
            after.height as nat,
            after.root_digest(),
            record,
        ) == Ok::<bool, TreeError>(true),
        verdict(
            &after.hasher,
            after.path_steps(other),
            after.height as nat,
            after.root_digest(),
            other_record,
        ) == Ok::<bool, TreeError>(true),
{
    law_round_trip(after, index, record);
    law_round_trip(after, other, other_record);
}

/// A path that verifies against one root is rejected for every other root.
pub proof fn law_other_root_rejected<H: HashScheme>(
    hasher: &H,
    steps: Seq<(Seq<u8>, bool)>,
    height: nat,
    root: Seq<u8>,
    other_root: Seq<u8>,
    record: Seq<u8>,
)
    requires
        verdict(hasher, steps, height, root, record) == Ok::<bool, TreeError>(true),
        other_root != root,
    ensures
        verdict(hasher, steps, height, other_root, record) == Ok::<bool, TreeError>(false),
{
}


/// One path serves an update: the path generated for a leaf before it is replaced
/// verifies the old record against the old root and the new record against the
/// new root.
pub proof fn law_update_shares_one_path<H: HashScheme>(
    before: &AuthenticatedTree<H>,
    after: &AuthenticatedTree<H>,
    index: nat,
    old_record: Seq<u8>,
    new_record: Seq<u8>,
)
    requires
        before.wf(),
        after.wf(),
        after.height == before.height,
        after.hasher == before.hasher,
        index < before.slots(),
        before.hasher.leaf_digest(old_record) == Some(before.leaves()[index as int]),
        before.hasher.leaf_digest(new_record).is_some(),
        after.leaves() == before.leaves().update(
            index as int,
            before.hasher.leaf_digest(new_record).unwrap(),
        ),
        after.path_steps(index) == before.path_steps(index),
    ensures
        update_verdict(
            &before.hasher,
            before.path_steps(index),
            before.height as nat,
            before.root_digest(),
            old_record,
            after.root_digest(),
            new_record,
        ) == Ok::<bool, TreeError>(true),
{
    law_round_trip(before, index, old_record);
    law_round_trip(after, index, new_record);
}

/// Two different pairs of children with the same digest.
pub open spec fn node_collision<H: HashScheme>(hasher: &H) -> bool {
    exists|l1: Seq<u8>, r1: Seq<u8>, l2: Seq<u8>, r2: Seq<u8>|
        (l1 != l2 || r1 != r2) && #[trigger] hasher.node_digest(l1, r1) == #[trigger] hasher.node_digest(
            l2,
            r2,
        )
}

/// Two different records with the same digest.
pub open spec fn leaf_collision<H: HashScheme>(hasher: &H) -> bool {
    exists|a: Seq<u8>, b: Seq<u8>|
        a != b && hasher.leaf_digest(a).is_some() && #[trigger] hasher.leaf_digest(a)
            == #[trigger] hasher.leaf_digest(b)
}

/// The sides of two paths agree at every level.
pub open spec fn same_sides(first: Seq<(Seq<u8>, bool)>, second: Seq<(Seq<u8>, bool)>) -> bool {
    &&& first.len() == second.len()
    &&& forall|k: int| 0 <= k < first.len() ==> (#[trigger] first[k]).1 == second[k].1
}

/// Two climbs on the same sides that end in the same digest started from the
/// same digest and passed the same siblings, unless two nodes collide.
proof fn lemma_fold_determines<H: HashScheme>(
    hasher: &H,
    first_start: Seq<u8>,
    first: Seq<(Seq<u8>, bool)>,
    second_start: Seq<u8>,
    second: Seq<(Seq<u8>, bool)>,
)
    requires
        same_sides(first, second),
        fold_steps(hasher, first_start, first) == fold_steps(hasher, second_start, second),
        !node_collision(hasher),
    ensures
        first_start == second_start,
        first == second,
    decreases first.len(),
{
    if first.len() > 0 {
        let a = fold_steps(hasher, first_start, first.drop_last());
        let b = fold_steps(hasher, second_start, second.drop_last());
        let s = first.last();
        let t = second.last();
        assert(s.1 == t.1);
        assert(climb(hasher, a, s) == climb(hasher, b, t));
        if s.1 {
            assert(hasher.node_digest(s.0, a) == hasher.node_digest(t.0, b));
        } else {
            assert(hasher.node_digest(a, s.0) == hasher.node_digest(b, t.0));
        }
        assert(a == b && s.0 == t.0);
        assert(same_sides(first.drop_last(), second.drop_last())) by {
            assert forall|k: int| 0 <= k < first.drop_last().len() implies (
            #[trigger] first.drop_last()[k]).1 == second.drop_last()[k].1 by {
                assert(first[k].1 == second[k].1);
            }
        }
        lemma_fold_determines(hasher, first_start, first.drop_last(), second_start, second.drop_last());
        assert(first =~= first.drop_last().push(s));
        assert(second =~= second.drop_last().push(t));
    } else {
        assert(first =~= second);
    }
}

/// Tamper detection: when a path verifies for a record against a root, a path on
/// the same sides with another record or another sibling verifies against that
/// root only if the hash scheme has a collision.
pub proof fn law_tampering_needs_a_collision<H: HashScheme>(
    hasher: &H,
    height: nat,
    root: Seq<u8>,
    steps: Seq<(Seq<u8>, bool)>,
    record: Seq<u8>,
    forged_steps: Seq<(Seq<u8>, bool)>,
    forged_record: Seq<u8>,
)
    requires
        verdict(hasher, steps, height, root, record) == Ok::<bool, TreeError>(true),
        same_sides(steps, forged_steps),
        forged_record != record || forged_steps != steps,
        verdict(hasher, forged_steps, height, root, forged_record) == Ok::<bool, TreeError>(true),
    ensures
        node_collision(hasher) || leaf_collision(hasher),
{
    if !node_collision(hasher) {
        let leaf = hasher.leaf_digest(record).unwrap();
        let forged_leaf = hasher.leaf_digest(forged_record).unwrap();
        lemma_fold_determines(hasher, leaf, steps, forged_leaf, forged_steps);
        assert(hasher.leaf_digest(record) == hasher.leaf_digest(forged_record));
    }
}


/// Two sequences of leaves whose subtrees at one place have the same digest agree
/// on every leaf below that place, unless two nodes collide.
proof fn lemma_subtree_digest_determines_leaves<H: HashScheme>(
    hasher: &H,
    first: Seq<Seq<u8>>,
    second: Seq<Seq<u8>>,
    level: nat,
    place: nat,
    i: nat,
)
    requires
        !node_collision(hasher),
        subtree_digest(hasher, first, level, place) == subtree_digest(
            hasher,
            second,
            level,
            place,
        ),
        place * pow2(level) <= i < (place + 1) * pow2(level),
    ensures
        first[i as int] == second[i as int],
    decreases level,
{
    if level == 0 {
        lemma2_to64();
    } else {
        let below = (level - 1) as nat;
        let half = pow2(below);
        lemma_pow2_unfold(level);
        let l1 = subtree_digest(hasher, first, below, 2 * place);
        let r1 = subtree_digest(hasher, first, below, 2 * place + 1);
        let l2 = subtree_digest(hasher, second, below, 2 * place);
        let r2 = subtree_digest(hasher, second, below, 2 * place + 1);
        assert(hasher.node_digest(l1, r1) == hasher.node_digest(l2, r2));
        assert(l1 == l2 && r1 == r2);
        assert(place * (2 * half) == (2 * place) * half) by (nonlinear_arith);
        assert((place + 1) * (2 * half) == (2 * place + 1 + 1) * half) by (nonlinear_arith);
        assert((2 * place + 1) * half == (2 * place) * half + half) by (nonlinear_arith);
        if i < (2 * place + 1) * half {
            lemma_subtree_digest_determines_leaves(hasher, first, second, below, 2 * place, i);
        } else {
            lemma_subtree_digest_determines_leaves(hasher, first, second, below, 2 * place + 1, i);
        }
    }
}

/// A stale path betrays an update: once a leaf has been replaced by a different
/// digest, a path generated before for any leaf verifies against the new root
/// only if two nodes collide.
pub proof fn law_stale_path_needs_a_collision<H: HashScheme>(
    before: &AuthenticatedTree<H>,
    after: &AuthenticatedTree<H>,
    index: nat,
    other: nat,
    other_record: Seq<u8>,
)
    requires
        before.wf(),
        after.wf(),
        after.height == before.height,
        after.hasher == before.hasher,
        index < before.slots(),
        other < before.slots(),
        after.leaves()[index as int] != before.leaves()[index as int],
        before.hasher.leaf_digest(other_record) == Some(before.leaves()[other as int]),
        verdict(
            &after.hasher,
            before.path_steps(other),
            after.height as nat,
            after.root_digest(),
            other_record,
        ) == Ok::<bool, TreeError>(true),
    ensures
        node_collision(&before.hasher),
{
    if !node_collision(&before.hasher) {
        law_round_trip(before, other, other_record);
        assert(before.root_digest() == after.root_digest());
        law_root_is_the_merkle_root(before);
        law_root_is_the_merkle_root(after);
        assert(0 * pow2(before.height as nat) == 0) by (nonlinear_arith);
        assert((0 + 1) * pow2(before.height as nat) == pow2(before.height as nat))
            by (nonlinear_arith);
        lemma_subtree_digest_determines_leaves(
            &before.hasher,
            before.leaves(),
            after.leaves(),
            before.height as nat,
            0,
            index,
        );
    }
}


/// An update cannot borrow another leaf's path: a path generated for one leaf
/// passes the check of an update whose old record is not that leaf's record
/// only if the hash scheme has a collision.
pub proof fn law_update_needs_the_leafs_own_path<H: HashScheme>(
    tree: &AuthenticatedTree<H>,
    other: nat,
    other_record: Seq<u8>,
    old_record: Seq<u8>,
    new_root: Seq<u8>,
    new_record: Seq<u8>,
)
    requires
        tree.wf(),
        other < tree.slots(),
        tree.hasher.leaf_digest(other_record) == Some(tree.leaves()[other as int]),
        old_record != other_record,
        update_verdict(
            &tree.hasher,
            tree.path_steps(other),
            tree.height as nat,
            tree.root_digest(),
            old_record,
            new_root,
            new_record,
        ) == Ok::<bool, TreeError>(true),
    ensures
        node_collision(&tree.hasher) || leaf_collision(&tree.hasher),
{
    law_round_trip(tree, other, other_record);
    law_tampering_needs_a_collision(
        &tree.hasher,
        tree.height as nat,
        tree.root_digest(),
        tree.path_steps(other),
        other_record,
        tree.path_steps(other),
        old_record,
    );
}

} // verus!
