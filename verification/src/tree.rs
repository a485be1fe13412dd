use crate::hash::{Digest, HashScheme};
use crate::path::{verdict, AuthenticationPath, PathStep, TreeError};
use crate::positions::{
    ancestor, is_right_at, leaf_slots, lemma_ancestor_position, lemma_sibling_off_path, sibling,
    MAX_HEIGHT,
};
use vstd::arithmetic::power2::{lemma2_to64, lemma_pow2_pos, lemma_pow2_unfold, pow2};
use vstd::prelude::*;

verus! {

/// Every node that has children is labelled with the compression of their labels,
/// left child first.
pub open spec fn consistent<H: HashScheme>(hasher: &H, nodes: Seq<Digest>) -> bool {
    forall|n: int| 0 <= n && 2 * n + 2 < nodes.len() ==> #[trigger] labelled(hasher, nodes, n)
}

/// Node `n` is labelled with the compression of its children's labels.
pub open spec fn labelled<H: HashScheme>(hasher: &H, nodes: Seq<Digest>, n: int) -> bool {
    nodes[n]@ == hasher.node_digest(nodes[2 * n + 1]@, nodes[2 * n + 2]@)
}

/// A complete binary hash tree of fixed height over `2^height` leaf slots. The tree
/// keeps the digest of every node and the hash scheme that made them; a leaf's
/// record itself is not kept.
#[derive(Clone)]
pub struct AuthenticatedTree<H: HashScheme> {
    /// The node digests, level by level from the root; the leaves come last.
    pub nodes: Vec<Digest>,
    /// The number of levels above the leaves.
    pub height: usize,
    /// The scheme that hashes records and compresses digests.
    pub hasher: H,
}

impl<H: HashScheme> AuthenticatedTree<H> {
    /// The number of leaf slots.
    pub open spec fn slots(&self) -> nat {
        pow2(self.height as nat)
    }

    /// The tree has a node for every position, and every inner node is labelled
    /// with the compression of its children's labels.
    pub open spec fn wf(&self) -> bool {
        &&& self.height <= MAX_HEIGHT
        &&& self.nodes@.len() == 2 * pow2(self.height as nat) - 1
        &&& consistent(&self.hasher, self.nodes@)
    }

    /// The leaf digests, from left to right.
    pub open spec fn leaves(&self) -> Seq<Seq<u8>> {
        Seq::new(self.slots(), |i: int| self.nodes@[self.slots() - 1 + i]@)
    }

    /// The digest at the root.
    pub open spec fn root_digest(&self) -> Seq<u8> {
        self.nodes@[0]@
    }

    /// The steps of the authentication path of the leaf at `index`: at each level
    /// from the leaves upwards, the sibling's digest and whether the node on the
    /// path is a right child.
    pub open spec fn path_steps(&self, index: nat) -> Seq<(Seq<u8>, bool)> {
        Seq::new(
            self.height as nat,
            |k: int|
                {
                    let at = ancestor(self.slots() - 1 + index, k as nat);
                    (self.nodes@[sibling(at)]@, at % 2 == 0)
                },
        )
    }

    /// The authentication path of the leaf at `index`: the index and the steps.
    pub open spec fn path_to(&self, index: nat) -> (nat, Seq<(Seq<u8>, bool)>) {
        (index, self.path_steps(index))
    }

    /// The tree over the given leaf digests: every inner node is computed from its
    /// children, from the lowest level up.
    fn assemble(hasher: H, height: usize, leaf_digests: Vec<Digest>) -> (tree: Self)
        requires
            height <= MAX_HEIGHT,
            leaf_digests@.len() == pow2(height as nat),
        ensures
            tree.wf(),
            tree.height == height,
            tree.hasher == hasher,
            tree.leaves() == Seq::new(leaf_digests@.len(), |i: int| leaf_digests@[i]@),
    {
        let count = leaf_slots(height);
        let mut nodes: Vec<Digest> = Vec::new();
        let mut i: usize = 0;
        while i < count - 1
            invariant
                i <= count - 1,
                nodes@.len() == i,
            decreases count - 1 - i,
        {
            nodes.push(Digest::new(Vec::new()));
            i = i + 1;
        }
        let mut j: usize = 0;
        while j < count
            invariant
                j <= count,
                count == leaf_digests@.len(),
                nodes@.len() == count - 1 + j,
                forall|p: int|
                    count - 1 <= p < count - 1 + j ==> (#[trigger] nodes@[p])@ == leaf_digests@[p
                        - (count - 1)]@,
            decreases count - j,
        {
            nodes.push(leaf_digests[j].duplicate());
            j = j + 1;
        }
        let mut n: usize = count - 1;
        while n > 0
            invariant
                n <= count - 1,
                count == leaf_digests@.len(),
                1 <= count <= 0x4000_0000,
                nodes@.len() == 2 * count - 1,
                forall|p: int|
                    count - 1 <= p < 2 * count - 1 ==> (#[trigger] nodes@[p])@ == leaf_digests@[p
                        - (count - 1)]@,
                forall|m: int|
                    n <= m && 2 * m + 2 < nodes@.len() ==> #[trigger] labelled(&hasher, nodes@, m),
            decreases n,
        {
            n = n - 1;
            let digest = hasher.compress(&nodes[2 * n + 1], &nodes[2 * n + 2]);
            let ghost before = nodes@;
            nodes.set(n, digest);
            proof {
                assert forall|m: int| n <= m && 2 * m + 2 < nodes@.len() implies #[trigger] labelled(
                    &hasher,
                    nodes@,
                    m,
                ) by {
                    if m > n {
                        assert(labelled(&hasher, before, m));
                    }
                }
            }
        }
        let tree = AuthenticatedTree { nodes, height, hasher };
        assert(tree.leaves() =~= Seq::new(leaf_digests@.len(), |i: int| leaf_digests@[i]@));
        tree
    }

    /// A tree of the given height in which every leaf is the digest of the empty
    /// record.
    pub fn blank(hasher: H, height: usize) -> (outcome: Result<Self, TreeError>)
        ensures
            height > MAX_HEIGHT ==> outcome matches Err(TreeError::HeightTooLarge),
            height <= MAX_HEIGHT && hasher.leaf_digest(Seq::empty()).is_none()
                ==> outcome matches Err(TreeError::UnhashableLeaf),
            height <= MAX_HEIGHT && hasher.leaf_digest(Seq::empty()).is_some() ==> outcome.is_ok(),
            outcome matches Ok(tree) ==> {
                &&& tree.wf()
                &&& tree.height == height
                &&& tree.hasher == hasher
                &&& tree.leaves() == Seq::new(
                    pow2(height as nat),
                    |i: int| hasher.leaf_digest(Seq::empty()).unwrap(),
                )
            },
    {
        let records: Vec<Vec<u8>> = Vec::new();
        let outcome = Self::new(hasher, height, &records);
        proof {
            if let Ok(ref tree) = outcome {
                assert(tree.leaves() =~= Seq::new(
                    pow2(height as nat),
                    |i: int| hasher.leaf_digest(Seq::empty()).unwrap(),
                ));
            }
        }
        outcome
    }

    /// A tree of the given height whose first leaves are the digests of `records`,
    /// in order, and whose remaining leaves are the digest of the empty record.
    pub fn new(hasher: H, height: usize, records: &Vec<Vec<u8>>) -> (outcome: Result<
        Self,
        TreeError,
    >)
        ensures
            height > MAX_HEIGHT ==> outcome matches Err(TreeError::HeightTooLarge),
            height <= MAX_HEIGHT && records@.len() > pow2(height as nat)
                ==> outcome matches Err(TreeError::TooManyLeaves),
            height <= MAX_HEIGHT && records@.len() <= pow2(height as nat) && !all_hashable(
                &hasher,
                records@,
            ) ==> outcome matches Err(TreeError::UnhashableLeaf),
            height <= MAX_HEIGHT && records@.len() <= pow2(height as nat) && all_hashable(
                &hasher,
                records@,
            ) ==> outcome.is_ok(),
            outcome matches Ok(tree) ==> {
                &&& tree.wf()
                &&& tree.height == height
                &&& tree.hasher == hasher
                &&& tree.leaves() == initial_leaves(&hasher, height as nat, records@)
            },
    {
        if height > MAX_HEIGHT {
            return Err(TreeError::HeightTooLarge);
        }
        let count = leaf_slots(height);
        if records.len() > count {
            return Err(TreeError::TooManyLeaves);
        }
        let empty: Vec<u8> = Vec::new();
        let filler = match hasher.hash_leaf(empty.as_slice()) {
            None => {
                assert(empty@ =~= Seq::<u8>::empty());
                return Err(TreeError::UnhashableLeaf);
            },
            Some(filler) => filler,
        };
        assert(empty@ =~= Seq::<u8>::empty());
        let mut leaf_digests: Vec<Digest> = Vec::new();
        let mut i: usize = 0;
        while i < count
            invariant
                i <= count,
                height <= MAX_HEIGHT,
                count == pow2(height as nat),
                records@.len() <= count,
                leaf_digests@.len() == i,
                filler@ == hasher.leaf_digest(Seq::empty()).unwrap(),
                hasher.leaf_digest(Seq::empty()).is_some(),
                forall|m: int|
                    0 <= m < i && m < records@.len() ==> hasher.leaf_digest(
                        (#[trigger] records@[m])@,
                    ).is_some(),
                forall|m: int|
                    0 <= m < i ==> (#[trigger] leaf_digests@[m])@ == initial_leaves(
                        &hasher,
                        height as nat,
                        records@,
                    )[m],
            decreases count - i,
        {
            let digest = if i < records.len() {
                match hasher.hash_leaf(records[i].as_slice()) {
                    None => {
                        return Err(TreeError::UnhashableLeaf);
                    },
                    Some(digest) => digest,
                }
            } else {
                filler.duplicate()
            };
            leaf_digests.push(digest);
            i = i + 1;
        }
        let tree = Self::assemble(hasher, height, leaf_digests);
        assert(tree.leaves() =~= initial_leaves(&hasher, height as nat, records@));
        Ok(tree)
    }

    /// Checks that the tree is well formed: recomputes every inner node from its
    /// children and compares.
    pub fn is_well_formed(&self) -> (ok: bool)
        ensures
            ok == self.wf(),
    {
        if self.height > MAX_HEIGHT {
            return false;
        }
        let count = leaf_slots(self.height);
        if self.nodes.len() != 2 * count - 1 {
            return false;
        }
        let mut n: usize = 0;
        while n < count - 1
            invariant
                n <= count - 1,
                1 <= count <= 0x4000_0000,
                self.nodes@.len() == 2 * count - 1,
                forall|m: int| 0 <= m < n ==> #[trigger] labelled(&self.hasher, self.nodes@, m),
            decreases count - 1 - n,
        {
            let digest = self.hasher.compress(&self.nodes[2 * n + 1], &self.nodes[2 * n + 2]);
            if !digest.same_as(&self.nodes[n]) {
                assert(!labelled(&self.hasher, self.nodes@, n as int));
                return false;
            }
            n = n + 1;
        }
        true
    }

    /// The digest at the root.
    pub fn root(&self) -> (digest: Digest)
        requires
            self.wf(),
        ensures
            digest@ == self.root_digest(),
    {
        proof {
            vstd::arithmetic::power2::lemma_pow2_pos(self.height as nat);
        }
        self.nodes[0].duplicate()
    }

    /// The authentication path of the leaf at `index`.
    pub fn generate_proof(&self, index: usize) -> (outcome: Result<AuthenticationPath, TreeError>)
        requires
            self.wf(),
        ensures
            outcome.is_err() <==> index >= self.slots(),
            outcome matches Err(e) ==> e == TreeError::IndexOutOfRange,
            outcome matches Ok(path) ==> path@ == self.path_to(index as nat)
                && path.sides_match_index(),
    {
        let count = leaf_slots(self.height);
        if index >= count {
            return Err(TreeError::IndexOutOfRange);
        }
        let start = count - 1 + index;
        let mut steps: Vec<PathStep> = Vec::new();
        let mut at: usize = start;
        let mut k: usize = 0;
        while k < self.height
            invariant
                self.wf(),
                count == pow2(self.height as nat),
                1 <= count <= 0x4000_0000,
                k <= self.height,
                at == ancestor(start as int, k as nat),
                pow2((self.height - k) as nat) - 1 <= at <= 2 * pow2((self.height - k) as nat) - 2,
                at <= 2 * count - 2,
                steps@.len() == k,
                forall|m: int|
                    0 <= m < k ==> (#[trigger] steps@[m]).sibling@ == self.nodes@[sibling(
                        ancestor(start as int, m as nat),
                    )]@ && steps@[m].current_is_right == (ancestor(start as int, m as nat) % 2
                        == 0),
            decreases self.height - k,
        {
            proof {
                lemma_pow2_unfold((self.height - k) as nat);
                vstd::arithmetic::power2::lemma_pow2_pos((self.height - k - 1) as nat);
            }
            let side = at % 2 == 0;
            let other = if side {
                at - 1
            } else {
                at + 1
            };
            steps.push(PathStep { sibling: self.nodes[other].duplicate(), current_is_right: side });
            at = (at - 1) / 2;
            k = k + 1;
        }
        let path = AuthenticationPath { leaf_index: index, steps };
        assert(path.steps_view() =~= self.path_steps(index as nat));
        assert forall|m: int| 0 <= m < path.steps@.len() implies (
        #[trigger] path.steps@[m]).current_is_right == is_right_at(index as nat, m as nat) by {
            lemma_ancestor_position(self.height as nat, index as nat, m as nat);
            lemma_pow2_unfold((self.height - m) as nat);
        }
        Ok(path)
    }

    /// Replaces the leaf at `index` by the digest of `record` and recomputes the
    /// digests of its ancestors up to the root. Nothing changes when the index is
    /// out of range or the record cannot be hashed.
    pub fn update(&mut self, index: usize, record: &[u8]) -> (outcome: Result<(), TreeError>)
        requires
            old(self).wf(),
        ensures
            final(self).wf(),
            final(self).height == old(self).height,
            final(self).hasher == old(self).hasher,
            index >= old(self).slots() ==> outcome == Err::<(), TreeError>(
                TreeError::IndexOutOfRange,
            ),
            index < old(self).slots() && old(self).hasher.leaf_digest(record@).is_none()
                ==> outcome == Err::<(), TreeError>(TreeError::UnhashableLeaf),
            index < old(self).slots() && old(self).hasher.leaf_digest(record@).is_some()
                ==> outcome.is_ok(),
            outcome.is_err() ==> *final(self) == *old(self),
            outcome.is_ok() ==> final(self).leaves() == old(self).leaves().update(
                index as int,
                old(self).hasher.leaf_digest(record@).unwrap(),
            ),
            outcome.is_ok() ==> final(self).path_steps(index as nat) == old(self).path_steps(
                index as nat,
            ),
    {
        let count = leaf_slots(self.height);
        if index >= count {
            return Err(TreeError::IndexOutOfRange);
        }
        let digest = match self.hasher.hash_leaf(record) {
            None => {
                return Err(TreeError::UnhashableLeaf);
            },
            Some(digest) => digest,
        };
        self.replace_leaf(index, digest);
        Ok(())
    }

    /// Puts `digest` in the leaf at `index` and recomputes the digests of its
    /// ancestors up to the root, reading each sibling as the tree holds it. The
    /// siblings along the leaf's path stay as they were.
    pub fn replace_leaf(&mut self, index: usize, digest: Digest)
        requires
            old(self).wf(),
            index < old(self).slots(),
        ensures
            final(self).wf(),
            final(self).height == old(self).height,
            final(self).hasher == old(self).hasher,
            final(self).leaves() == old(self).leaves().update(index as int, digest@),
            final(self).path_steps(index as nat) == old(self).path_steps(index as nat),
    {
        let count = leaf_slots(self.height);
        let start: usize = count - 1 + index;
        let mut at: usize = start;
        let ghost mut k: nat = 0;
        self.nodes.set(at, digest);
        proof {
            assert forall|n: int|
                0 <= n && 2 * n + 2 < self.nodes@.len() && (at == 0 || n != (at - 1)
                    / 2) implies #[trigger] labelled(&self.hasher, self.nodes@, n) by {
                assert(labelled(&old(self).hasher, old(self).nodes@, n));
            }
            assert forall|j: nat| j < self.height implies self.nodes@[sibling(
                #[trigger] ancestor(start as int, j),
            )] == old(self).nodes@[sibling(ancestor(start as int, j))] by {
                lemma_sibling_off_path(self.height as nat, index as nat, j, 0);
            }
        }
        while at > 0
            invariant
                self.height == old(self).height,
                self.hasher == old(self).hasher,
                self.height <= MAX_HEIGHT,
                count == pow2(self.height as nat),
                1 <= count <= 0x4000_0000,
                self.nodes@.len() == 2 * count - 1,
                at <= 2 * count - 2,
                index < count,
                start == count - 1 + index,
                k <= self.height,
                at == ancestor(start as int, k),
                pow2((self.height - k) as nat) - 1 <= at <= 2 * pow2((self.height - k) as nat) - 2,
                forall|p: int|
                    count - 1 <= p < 2 * count - 1 ==> (#[trigger] self.nodes@[p])@ == (if p
                        == count - 1 + index {
                        digest@
                    } else {
                        old(self).nodes@[p]@
                    }),
                forall|n: int|
                    0 <= n && 2 * n + 2 < self.nodes@.len() && (at == 0 || n != (at - 1) / 2)
                        ==> #[trigger] labelled(&self.hasher, self.nodes@, n),
                forall|j: nat|
                    j < self.height ==> self.nodes@[sibling(#[trigger] ancestor(start as int, j))]
                        == old(self).nodes@[sibling(ancestor(start as int, j))],
            decreases at,
        {
            proof {
                if k == self.height {
                    lemma2_to64();
                }
                lemma_pow2_unfold((self.height - k) as nat);
                lemma_pow2_pos((self.height - k - 1) as nat);
            }
            let up = (at - 1) / 2;
            let above = self.hasher.compress(&self.nodes[2 * up + 1], &self.nodes[2 * up + 2]);
            let ghost before = self.nodes@;
            self.nodes.set(up, above);
            at = up;
            proof {
                k = k + 1;
                assert forall|n: int|
                    0 <= n && 2 * n + 2 < self.nodes@.len() && (up == 0 || n != (up - 1)
                        / 2) implies #[trigger] labelled(&self.hasher, self.nodes@, n) by {
                    if n != up {
                        assert(labelled(&self.hasher, before, n));
                    }
                }
                assert forall|j: nat| j < self.height implies self.nodes@[sibling(
                    #[trigger] ancestor(start as int, j),
                )] == old(self).nodes@[sibling(ancestor(start as int, j))] by {
                    lemma_sibling_off_path(self.height as nat, index as nat, j, k);
                }
            }
        }
        assert(self.leaves() =~= old(self).leaves().update(index as int, digest@));
        assert(self.path_steps(index as nat) =~= old(self).path_steps(index as nat));
    }

    /// Checks a path against a root and a leaf record, for this tree's height and
    /// hash scheme.
    pub fn verify(&self, path: &AuthenticationPath, root: &Digest, record: &[u8]) -> (outcome:
        Result<bool, TreeError>)
        ensures
            outcome == verdict(
                &self.hasher,
                path.steps_view(),
                self.height as nat,
                root@,
                record@,
            ),
    {
        path.verify(&self.hasher, self.height, root, record)
    }
}

/// Every record can be hashed, and so can the empty record that fills the rest.
pub open spec fn all_hashable<H: HashScheme>(hasher: &H, records: Seq<Vec<u8>>) -> bool {
    &&& hasher.leaf_digest(Seq::empty()).is_some()
    &&& forall|i: int|
        0 <= i < records.len() ==> hasher.leaf_digest((#[trigger] records[i])@).is_some()
}

/// The leaf digests of a new tree: those of the records, then that of the empty
/// record.
pub open spec fn initial_leaves<H: HashScheme>(
    hasher: &H,
    height: nat,
    records: Seq<Vec<u8>>,
) -> Seq<Seq<u8>> {
    Seq::new(
        pow2(height),
        |i: int|
            if i < records.len() {
                hasher.leaf_digest(records[i]@).unwrap()
            } else {
                hasher.leaf_digest(Seq::empty()).unwrap()
            },
    )
}

} // verus!
