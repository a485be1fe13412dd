use crate::hash::{Digest, HashScheme};
use crate::positions::is_right_at;
use vstd::prelude::*;

verus! {

/// Why a tree operation did not go through.
#[derive(Clone, Copy, Debug, PartialEq, Eq, Structural)]
pub enum TreeError {
    /// The height asked for is above `MAX_HEIGHT`.
    HeightTooLarge,
    /// More leaf records were supplied than a tree of the given height has slots.
    TooManyLeaves,
    /// The leaf index is not below the number of slots.
    IndexOutOfRange,
    /// The path does not have one step per level of the tree.
    PathLengthMismatch,
    /// The hash scheme cannot take the leaf record.
    UnhashableLeaf,
}

/// One level of an authentication path.
#[derive(Debug)]
pub struct PathStep {
    /// The digest of the sibling of the node on the path.
    pub sibling: Digest,
    /// Whether the node on the path is the right child of its parent.
    pub current_is_right: bool,
}

/// What is needed to recompute the root from one leaf: the leaf's index and, from
/// the leaf level upwards, the sibling digest and the side at each level.
#[derive(Debug)]
pub struct AuthenticationPath {
    pub leaf_index: usize,
    pub steps: Vec<PathStep>,
}

/// The digest one level up from `current`, given the sibling and the side.
pub open spec fn climb<H: HashScheme>(hasher: &H, current: Seq<u8>, step: (Seq<u8>, bool)) -> Seq<
    u8,
> {
    if step.1 {
        hasher.node_digest(step.0, current)
    } else {
        hasher.node_digest(current, step.0)
    }
}

/// The digest reached from `start` by climbing through all of `steps` in order.
pub open spec fn fold_steps<H: HashScheme>(
    hasher: &H,
    start: Seq<u8>,
    steps: Seq<(Seq<u8>, bool)>,
) -> Seq<u8>
    decreases steps.len(),
{
    if steps.len() == 0 {
        start
    } else {
        climb(hasher, fold_steps(hasher, start, steps.drop_last()), steps.last())
    }
}

/// What verifying a path of the given steps says of a root and a leaf record, for a
/// tree of the given height.
pub open spec fn verdict<H: HashScheme>(
    hasher: &H,
    steps: Seq<(Seq<u8>, bool)>,
    height: nat,
    root: Seq<u8>,
    record: Seq<u8>,
) -> Result<bool, TreeError> {
    if steps.len() != height {
        Err(TreeError::PathLengthMismatch)
    } else {
        match hasher.leaf_digest(record) {
            None => Err(TreeError::UnhashableLeaf),
            Some(leaf) => Ok(fold_steps(hasher, leaf, steps) == root),
        }
    }
}

/// What checking one path against an update says: the path must verify the old
/// record against the old root and the new record against the new root.
pub open spec fn update_verdict<H: HashScheme>(
    hasher: &H,
    steps: Seq<(Seq<u8>, bool)>,
    height: nat,
    old_root: Seq<u8>,
    old_record: Seq<u8>,
    new_root: Seq<u8>,
    new_record: Seq<u8>,
) -> Result<bool, TreeError> {
    match verdict(hasher, steps, height, old_root, old_record) {
        Err(e) => Err(e),
        Ok(was) => match verdict(hasher, steps, height, new_root, new_record) {
            Err(e) => Err(e),
            Ok(is) => Ok(was && is),
        },
    }
}

impl View for AuthenticationPath {
    type V = (nat, Seq<(Seq<u8>, bool)>);

    /// The leaf index and the steps, leaf level first.
    open spec fn view(&self) -> (nat, Seq<(Seq<u8>, bool)>) {
        (self.leaf_index as nat, self.steps_view())
    }
}

impl AuthenticationPath {
    /// The side recorded at each level is the bit of the leaf index for that
    /// level.
    pub open spec fn sides_match_index(&self) -> bool {
        forall|k: int|
            0 <= k < self.steps@.len() ==> (#[trigger] self.steps@[k]).current_is_right
                == is_right_at(self.leaf_index as nat, k as nat)
    }

    /// The steps as pairs of sibling digest and side, leaf level first.
    pub open spec fn steps_view(&self) -> Seq<(Seq<u8>, bool)> {
        Seq::new(
            self.steps@.len(),
            |k: int| (self.steps@[k].sibling@, self.steps@[k].current_is_right),
        )
    }

    /// Recomputes the root from the leaf record along the path and compares it with
    /// `root`. A path whose length is not `height` is reported, not followed.
    pub fn verify<H: HashScheme>(
        &self,
        hasher: &H,
        height: usize,
        root: &Digest,
        record: &[u8],
    ) -> (outcome: Result<bool, TreeError>)
        ensures
            outcome == verdict(hasher, self.steps_view(), height as nat, root@, record@),
    {
        if self.steps.len() != height {
            return Err(TreeError::PathLengthMismatch);
        }
        let leaf = match hasher.hash_leaf(record) {
            None => {
                return Err(TreeError::UnhashableLeaf);
            },
            Some(leaf) => leaf,
        };
        let mut current = leaf;
        let mut k: usize = 0;
        proof {
            assert(self.steps_view().take(0) =~= Seq::empty());
        }
        while k < self.steps.len()
            invariant
                k <= self.steps@.len(),
                current@ == fold_steps(
                    hasher,
                    hasher.leaf_digest(record@).unwrap(),
                    self.steps_view().take(k as int),
                ),
            decreases self.steps@.len() - k,
        {
            let step = &self.steps[k];
            let next = if step.current_is_right {
                hasher.compress(&step.sibling, &current)
            } else {
                hasher.compress(&current, &step.sibling)
            };
            proof {
                let before = self.steps_view().take(k as int);
                let after = self.steps_view().take(k + 1);
                assert(after.drop_last() =~= before);
                assert(after.last() == self.steps_view()[k as int]);
            }
            current = next;
            k = k + 1;
        }
        proof {
            assert(self.steps_view().take(k as int) =~= self.steps_view());
        }
        Ok(current.same_as(root))
    }

    /// Checks that this one path leads from the old record to the old root and
    /// from the new record to the new root: both records sit in the same slot,
    /// among the same siblings.
    pub fn verify_update<H: HashScheme>(
        &self,
        hasher: &H,
        height: usize,
        old_root: &Digest,
        old_record: &[u8],
        new_root: &Digest,
        new_record: &[u8],
    ) -> (outcome: Result<bool, TreeError>)
        ensures
            outcome == update_verdict(
                hasher,
                self.steps_view(),
                height as nat,
                old_root@,
                old_record@,
                new_root@,
                new_record@,
            ),
    {
        let was = match self.verify(hasher, height, old_root, old_record) {
            Err(e) => {
                return Err(e);
            },
            Ok(was) => was,
        };
        match self.verify(hasher, height, new_root, new_record) {
            Err(e) => Err(e),
            Ok(is) => Ok(was && is),
        }
    }
}

} // verus!
