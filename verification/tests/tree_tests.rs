use ark_crypto_primitives::crh::pedersen;
use ark_crypto_primitives::crh::{CRHScheme, TwoToOneCRHScheme};
use ark_crypto_primitives::merkle_tree::{ByteDigestConverter, Config, MerkleTree, Path};
use ark_ed_on_bls12_381::{EdwardsAffine, EdwardsProjective as JubJub};
use ark_ff::BigInteger256;
use ark_serialize::{CanonicalDeserialize, CanonicalSerialize};
use ark_std::rand::rngs::StdRng;
use ark_std::rand::SeedableRng;
use ark_std::UniformRand;
use rollup_ledger::hash::{Bytes, Digest, HashScheme};
use rollup_ledger::path::{AuthenticationPath, PathStep, TreeError};
use rollup_ledger::positions::leaf_slots;
use rollup_ledger::tree::AuthenticatedTree;

#[derive(Clone)]
pub struct Window4x256;

impl pedersen::Window for Window4x256 {
    const WINDOW_SIZE: usize = 4;
    const NUM_WINDOWS: usize = 256;
}

type LeafH = pedersen::CRH<JubJub, Window4x256>;
type CompressH = pedersen::TwoToOneCRH<JubJub, Window4x256>;

pub struct JubJubMerkleTreeParams;

impl Config for JubJubMerkleTreeParams {
    type Leaf = [u8];
    type LeafDigest = <LeafH as CRHScheme>::Output;
    type LeafInnerDigestConverter = ByteDigestConverter<Self::LeafDigest>;
    type InnerDigest = <CompressH as TwoToOneCRHScheme>::Output;
    type LeafHash = LeafH;
    type TwoToOneHash = CompressH;
}

/// The Pedersen hash over Jubjub in both roles, digests as uncompressed points.
pub struct Pedersen {
    leaf: pedersen::Parameters<JubJub>,
    inner: pedersen::Parameters<JubJub>,
}

impl HashScheme for Pedersen {
    // The two model functions name what `hash_leaf` and `compress` compute; they
    // are never run.
    fn leaf_digest(&self, _: Bytes) -> Option<Bytes> {
        unreachable!()
    }

    fn node_digest(&self, _: Bytes, _: Bytes) -> Bytes {
        unreachable!()
    }

    fn hash_leaf(&self, record: &[u8]) -> Option<Digest> {
        if record.len() > 128 {
            return None;
        }
        let point = LeafH::evaluate(&self.leaf, record).ok()?;
        let mut bytes = Vec::new();
        point.serialize_uncompressed(&mut bytes).ok()?;
        Some(Digest::new(bytes))
    }

    fn compress(&self, left: &Digest, right: &Digest) -> Digest {
        let mut l = left.bytes.clone();
        let mut r = right.bytes.clone();
        l.resize(64, 0);
        r.resize(64, 0);
        let point = CompressH::evaluate(&self.inner, l.as_slice(), r.as_slice()).unwrap();
        let mut bytes = Vec::new();
        point.serialize_uncompressed(&mut bytes).unwrap();
        Digest::new(bytes)
    }

    fn duplicate(&self) -> Self {
        Pedersen { leaf: self.leaf.clone(), inner: self.inner.clone() }
    }
}

fn test_rng() -> StdRng {
    let seed = [
        1, 0, 0, 0, 23, 0, 0, 0, 200, 1, 0, 0, 210, 30, 0, 0, 0, 0, 0, 0, 0, 0, 0, 0, 0, 0, 0, 0,
        0, 0, 0, 0,
    ];
    StdRng::from_seed(seed)
}

fn pedersen(rng: &mut StdRng) -> Pedersen {
    Pedersen {
        leaf: <LeafH as CRHScheme>::setup(rng).unwrap(),
        inner: <CompressH as TwoToOneCRHScheme>::setup(rng).unwrap(),
    }
}

fn height_for(leaves: usize) -> usize {
    let mut height = 0;
    while (1usize << height) < leaves {
        height += 1;
    }
    height
}

fn four_leaves() -> Vec<Vec<u8>> {
    let mut leaves: Vec<Vec<u8>> = Vec::new();
    for i in 0..4u8 {
        leaves.push(vec![i; 30]);
    }
    leaves
}

fn uncompressed<T: CanonicalSerialize>(value: &T) -> Vec<u8> {
    let mut bytes = Vec::new();
    value.serialize_uncompressed(&mut bytes).unwrap();
    bytes
}

#[test]
fn test_simple_merkle_tree() {
    let mut rng = test_rng();
    let hasher = pedersen(&mut rng);
    let leaves = four_leaves();
    let tree = AuthenticatedTree::new(hasher, 2, &leaves).unwrap();

    // A membership proof for the 3rd item.
    let proof = tree.generate_proof(2).unwrap();
    let root = tree.root();
    let result = proof.verify(&tree.hasher, tree.height, &root, &vec![2; 30]).unwrap();
    assert!(result);
}

fn merkle_tree_test<L: CanonicalSerialize>(leaves: &[L], update_query: &[(usize, L)]) {
    let mut rng = test_rng();
    let mut leaves: Vec<Vec<u8>> = leaves.iter().map(|leaf| uncompressed(leaf)).collect();
    let hasher = pedersen(&mut rng);
    let mut tree = AuthenticatedTree::new(hasher, height_for(leaves.len()), &leaves).unwrap();
    let mut root = tree.root();

    // membership without update
    for (i, leaf) in leaves.iter().enumerate() {
        let proof = tree.generate_proof(i).unwrap();
        assert!(tree.verify(&proof, &root, leaf.as_slice()).unwrap())
    }

    // update
    for (i, v) in update_query {
        let v: Vec<u8> = uncompressed(v);
        tree.update(*i, &v).unwrap();
        leaves[*i] = v.clone();
    }

    root = tree.root();
    for (i, leaf) in leaves.iter().enumerate() {
        let proof = tree.generate_proof(i).unwrap();
        assert!(tree.verify(&proof, &root, leaf.as_slice()).unwrap())
    }
}

#[test]
fn mod_good_root_test() {
    let mut rng = test_rng();

    let mut leaves = Vec::new();
    for _ in 0..2u8 {
        leaves.push(BigInteger256::rand(&mut rng));
    }

    merkle_tree_test(
        &leaves,
        &vec![(0, BigInteger256::rand(&mut rng)), (1, BigInteger256::rand(&mut rng))],
    );

    let mut leaves = Vec::new();
    for _ in 0..4u8 {
        leaves.push(BigInteger256::rand(&mut rng));
    }
    merkle_tree_test(&leaves, &vec![(3, BigInteger256::rand(&mut rng))]);
    let mut leaves: Vec<BigInteger256> = Vec::new();
    for _ in 0..128u8 {
        leaves.push(BigInteger256::rand(&mut rng));
    }
    merkle_tree_test(
        &leaves,
        &vec![
            (2, BigInteger256::rand(&mut rng)),
            (3, BigInteger256::rand(&mut rng)),
            (5, BigInteger256::rand(&mut rng)),
            (111, BigInteger256::rand(&mut rng)),
            (127, BigInteger256::rand(&mut rng)),
        ],
    );
}

#[test]
fn root_matches_the_reference_tree() {
    let mut rng = test_rng();
    let hasher = pedersen(&mut rng);
    let leaves = four_leaves();
    let mut reference = MerkleTree::<JubJubMerkleTreeParams>::new(
        &hasher.leaf,
        &hasher.inner,
        leaves.iter().map(|v| v.as_slice()),
    )
    .unwrap();
    let mut tree = AuthenticatedTree::new(hasher, 2, &leaves).unwrap();
    assert_eq!(tree.root().bytes, uncompressed(&reference.root()));

    reference.update(1, &[9u8; 17]).unwrap();
    tree.update(1, &[9u8; 17]).unwrap();
    assert_eq!(tree.root().bytes, uncompressed(&reference.root()));

    // the sibling order matters: swapping two leaves gives another root
    let mut swapped = four_leaves();
    swapped.swap(0, 1);
    let other = AuthenticatedTree::new(tree.hasher.duplicate(), 2, &swapped).unwrap();
    let straight = AuthenticatedTree::new(tree.hasher.duplicate(), 2, &four_leaves()).unwrap();
    assert_ne!(other.root().bytes, straight.root().bytes);
}

#[test]
fn blank_tree_matches_the_reference_tree() {
    let mut rng = test_rng();
    let hasher = pedersen(&mut rng);
    let reference =
        MerkleTree::<JubJubMerkleTreeParams>::blank(&hasher.leaf, &hasher.inner, 4).unwrap();
    let tree = AuthenticatedTree::blank(hasher, 3).unwrap();
    assert_eq!(tree.height, 3);
    assert_eq!(tree.nodes.len(), 15);
    assert_eq!(tree.root().bytes, uncompressed(&reference.root()));
    let empty = tree.hasher.hash_leaf(&[]).unwrap();
    for i in 0..8 {
        assert_eq!(tree.nodes[7 + i].bytes, empty.bytes);
    }
}

#[test]
fn new_pads_with_the_empty_record() {
    let mut rng = test_rng();
    let hasher = pedersen(&mut rng);
    let records = vec![vec![1u8; 30], vec![2u8; 30], vec![3u8; 30]];
    let tree = AuthenticatedTree::new(hasher, 2, &records).unwrap();
    assert_eq!(tree.nodes.len(), 7);
    for i in 0..3 {
        assert_eq!(tree.nodes[3 + i].bytes, tree.hasher.hash_leaf(&records[i]).unwrap().bytes);
    }
    assert_eq!(tree.nodes[6].bytes, tree.hasher.hash_leaf(&[]).unwrap().bytes);
    let left = tree.hasher.compress(&tree.nodes[3], &tree.nodes[4]);
    let right = tree.hasher.compress(&tree.nodes[5], &tree.nodes[6]);
    assert_eq!(tree.nodes[1].bytes, left.bytes);
    assert_eq!(tree.nodes[2].bytes, right.bytes);
    assert_eq!(tree.root().bytes, tree.hasher.compress(&left, &right).bytes);
}

#[test]
fn tree_of_height_zero_is_its_leaf() {
    let mut rng = test_rng();
    let hasher = pedersen(&mut rng);
    let records = vec![vec![5u8; 3]];
    let tree = AuthenticatedTree::new(hasher, 0, &records).unwrap();
    assert_eq!(tree.nodes.len(), 1);
    assert_eq!(tree.root().bytes, tree.hasher.hash_leaf(&[5u8; 3]).unwrap().bytes);
    let proof = tree.generate_proof(0).unwrap();
    assert_eq!(proof.steps.len(), 0);
    assert_eq!(tree.verify(&proof, &tree.root(), &[5u8; 3]), Ok(true));
    assert_eq!(tree.verify(&proof, &tree.root(), &[6u8; 3]), Ok(false));
}

#[test]
fn construction_errors() {
    let mut rng = test_rng();
    let hasher = pedersen(&mut rng);
    let too_many = vec![vec![0u8; 4]; 5];
    assert!(matches!(
        AuthenticatedTree::new(hasher.duplicate(), 2, &too_many),
        Err(TreeError::TooManyLeaves)
    ));
    assert!(matches!(
        AuthenticatedTree::new(hasher.duplicate(), 31, &too_many),
        Err(TreeError::HeightTooLarge)
    ));
    assert!(matches!(
        AuthenticatedTree::blank(hasher.duplicate(), 31),
        Err(TreeError::HeightTooLarge)
    ));
    let too_long = vec![vec![0u8; 4], vec![0u8; 129]];
    assert!(matches!(
        AuthenticatedTree::new(hasher.duplicate(), 2, &too_long),
        Err(TreeError::UnhashableLeaf)
    ));
    let longest = vec![vec![0u8; 128]];
    assert!(AuthenticatedTree::new(hasher, 1, &longest).is_ok());
}

#[test]
fn proof_has_the_siblings_from_the_leaf_up() {
    let mut rng = test_rng();
    let hasher = pedersen(&mut rng);
    let tree = AuthenticatedTree::new(hasher, 2, &four_leaves()).unwrap();
    let proof = tree.generate_proof(2).unwrap();
    assert_eq!(proof.leaf_index, 2);
    assert_eq!(proof.steps.len(), 2);
    assert_eq!(proof.steps[0].sibling.bytes, tree.nodes[6].bytes);
    assert!(!proof.steps[0].current_is_right);
    assert_eq!(proof.steps[1].sibling.bytes, tree.nodes[1].bytes);
    assert!(proof.steps[1].current_is_right);

    let proof = tree.generate_proof(1).unwrap();
    assert_eq!(proof.steps[0].sibling.bytes, tree.nodes[3].bytes);
    assert!(proof.steps[0].current_is_right);
    assert_eq!(proof.steps[1].sibling.bytes, tree.nodes[2].bytes);
    assert!(!proof.steps[1].current_is_right);
}

#[test]
fn out_of_range_index_is_reported() {
    let mut rng = test_rng();
    let hasher = pedersen(&mut rng);
    let mut tree = AuthenticatedTree::new(hasher, 2, &four_leaves()).unwrap();
    assert!(matches!(tree.generate_proof(4), Err(TreeError::IndexOutOfRange)));
    assert!(tree.generate_proof(3).is_ok());
    let before = tree.root();
    assert_eq!(tree.update(4, &[1u8; 30]), Err(TreeError::IndexOutOfRange));
    assert_eq!(tree.update(usize::MAX, &[1u8; 30]), Err(TreeError::IndexOutOfRange));
    assert_eq!(tree.root().bytes, before.bytes);
}

#[test]
fn unhashable_record_changes_nothing() {
    let mut rng = test_rng();
    let hasher = pedersen(&mut rng);
    let mut tree = AuthenticatedTree::new(hasher, 2, &four_leaves()).unwrap();
    let before: Vec<Vec<u8>> = tree.nodes.iter().map(|d| d.bytes.clone()).collect();
    assert_eq!(tree.update(1, &[1u8; 129]), Err(TreeError::UnhashableLeaf));
    let after: Vec<Vec<u8>> = tree.nodes.iter().map(|d| d.bytes.clone()).collect();
    assert_eq!(before, after);
    let proof = tree.generate_proof(1).unwrap();
    assert_eq!(
        tree.verify(&proof, &tree.root(), &[1u8; 129]),
        Err(TreeError::UnhashableLeaf)
    );
}

#[test]
fn path_of_the_wrong_length_is_reported() {
    let mut rng = test_rng();
    let hasher = pedersen(&mut rng);
    let tree = AuthenticatedTree::new(hasher, 2, &four_leaves()).unwrap();
    let root = tree.root();
    let mut proof = tree.generate_proof(2).unwrap();
    proof.steps.pop();
    assert_eq!(tree.verify(&proof, &root, &[2u8; 30]), Err(TreeError::PathLengthMismatch));
    let empty = AuthenticationPath { leaf_index: 0, steps: Vec::new() };
    assert_eq!(tree.verify(&empty, &root, &[0u8; 30]), Err(TreeError::PathLengthMismatch));
    let mut long = tree.generate_proof(2).unwrap();
    long.steps.push(PathStep { sibling: tree.root(), current_is_right: false });
    assert_eq!(
        long.verify(&tree.hasher, 2, &root, &[2u8; 30]),
        Err(TreeError::PathLengthMismatch)
    );
}

#[test]
fn tampering_is_detected() {
    let mut rng = test_rng();
    let hasher = pedersen(&mut rng);
    let leaves = four_leaves();
    let tree = AuthenticatedTree::new(hasher, 2, &leaves).unwrap();
    let root = tree.root();
    for i in 0..4usize {
        let proof = tree.generate_proof(i).unwrap();
        assert_eq!(tree.verify(&proof, &root, &leaves[i]), Ok(true));
        // another leaf
        assert_eq!(tree.verify(&proof, &root, &leaves[(i + 1) % 4]), Ok(false));
        // another root
        let wrong_root = tree.hasher.compress(&root, &root);
        assert_eq!(tree.verify(&proof, &wrong_root, &leaves[i]), Ok(false));
        // another sibling, at each level
        for level in 0..2 {
            let mut forged = tree.generate_proof(i).unwrap();
            forged.steps[level].sibling = tree.root();
            assert_eq!(tree.verify(&forged, &root, &leaves[i]), Ok(false));
        }
        // the wrong side, at each level
        for level in 0..2 {
            let mut forged = tree.generate_proof(i).unwrap();
            forged.steps[level].current_is_right = !forged.steps[level].current_is_right;
            assert_eq!(tree.verify(&forged, &root, &leaves[i]), Ok(false));
        }
    }
}

#[test]
fn update_keeps_other_leaves_and_changes_the_root() {
    let mut rng = test_rng();
    let hasher = pedersen(&mut rng);
    let leaves = four_leaves();
    let mut tree = AuthenticatedTree::new(hasher, 2, &leaves).unwrap();
    let old_root = tree.root();
    let old_proofs: Vec<AuthenticationPath> =
        (0..4).map(|j| tree.generate_proof(j).unwrap()).collect();
    let old_leaf_nodes: Vec<Vec<u8>> = tree.nodes[3..].iter().map(|d| d.bytes.clone()).collect();

    let v = vec![77u8; 12];
    assert_eq!(tree.update(2, &v), Ok(()));
    let new_root = tree.root();
    assert_ne!(new_root.bytes, old_root.bytes);
    let proof = tree.generate_proof(2).unwrap();
    assert_eq!(tree.verify(&proof, &new_root, &v), Ok(true));
    assert_eq!(tree.verify(&proof, &new_root, &leaves[2]), Ok(false));
    for j in [0usize, 1, 3] {
        assert_eq!(tree.nodes[3 + j].bytes, old_leaf_nodes[j]);
        assert_eq!(tree.verify(&old_proofs[j], &new_root, &leaves[j]), Ok(false));
        let fresh = tree.generate_proof(j).unwrap();
        assert_eq!(tree.verify(&fresh, &new_root, &leaves[j]), Ok(true));
    }
    assert_eq!(tree.nodes[5].bytes, tree.hasher.hash_leaf(&v).unwrap().bytes);
}

#[test]
fn leaf_slots_is_the_power_of_two() {
    assert_eq!(leaf_slots(0), 1);
    assert_eq!(leaf_slots(1), 2);
    assert_eq!(leaf_slots(5), 32);
    assert_eq!(leaf_slots(30), 1 << 30);
}

#[test]
fn digests_compare_by_their_bytes() {
    let a = Digest::new(vec![1, 2, 3]);
    let b = a.duplicate();
    assert_eq!(b.bytes, vec![1, 2, 3]);
    assert!(a.same_as(&b));
    assert!(!a.same_as(&Digest::new(vec![1, 2, 4])));
    assert!(!a.same_as(&Digest::new(vec![1, 2])));
    assert!(Digest::new(Vec::new()).same_as(&Digest::new(Vec::new())));
}

#[test]
fn sides_are_the_bits_of_the_index() {
    let mut rng = test_rng();
    let hasher = pedersen(&mut rng);
    let records = vec![vec![1u8; 8]; 8];
    let tree = AuthenticatedTree::new(hasher, 3, &records).unwrap();
    for index in 0..8usize {
        let proof = tree.generate_proof(index).unwrap();
        assert_eq!(proof.leaf_index, index);
        for level in 0..3 {
            assert_eq!(proof.steps[level].current_is_right, (index >> level) & 1 == 1);
        }
    }
}

#[test]
fn one_path_serves_an_update() {
    let mut rng = test_rng();
    let hasher = pedersen(&mut rng);
    let leaves = four_leaves();
    let mut tree = AuthenticatedTree::new(hasher, 2, &leaves).unwrap();
    let old_root = tree.root();
    let path = tree.generate_proof(1).unwrap();
    let elsewhere = tree.generate_proof(2).unwrap();
    let new_leaf = vec![42u8; 30];
    tree.update(1, &new_leaf).unwrap();
    let new_root = tree.root();
    let h = &tree.hasher;
    assert_eq!(
        path.verify_update(h, 2, &old_root, &leaves[1], &new_root, &new_leaf),
        Ok(true)
    );
    // the siblings along the path are as they were
    let again = tree.generate_proof(1).unwrap();
    for level in 0..2 {
        assert_eq!(again.steps[level].sibling.bytes, path.steps[level].sibling.bytes);
    }
    // a path drawn from another position does not bind the two roots
    assert_eq!(
        elsewhere.verify_update(h, 2, &old_root, &leaves[1], &new_root, &new_leaf),
        Ok(false)
    );
    assert_eq!(
        elsewhere.verify_update(h, 2, &old_root, &leaves[2], &new_root, &new_leaf),
        Ok(false)
    );
    // the roots the wrong way round, or a wrong record on either side
    assert_eq!(
        path.verify_update(h, 2, &new_root, &leaves[1], &old_root, &new_leaf),
        Ok(false)
    );
    assert_eq!(
        path.verify_update(h, 2, &old_root, &leaves[0], &new_root, &new_leaf),
        Ok(false)
    );
    assert_eq!(
        path.verify_update(h, 2, &old_root, &leaves[1], &new_root, &leaves[1]),
        Ok(false)
    );
    assert_eq!(
        path.verify_update(h, 3, &old_root, &leaves[1], &new_root, &new_leaf),
        Err(TreeError::PathLengthMismatch)
    );
    assert_eq!(
        path.verify_update(h, 2, &old_root, &leaves[1], &new_root, &[0u8; 200]),
        Err(TreeError::UnhashableLeaf)
    );
}

#[test]
fn replace_leaf_puts_the_digest_in_the_slot() {
    let mut rng = test_rng();
    let hasher = pedersen(&mut rng);
    let mut tree = AuthenticatedTree::new(hasher, 2, &four_leaves()).unwrap();
    let mut other = AuthenticatedTree::new(tree.hasher.duplicate(), 2, &four_leaves()).unwrap();
    let digest = tree.hasher.hash_leaf(&[3u8; 5]).unwrap();
    tree.replace_leaf(3, digest.duplicate());
    other.update(3, &[3u8; 5]).unwrap();
    assert_eq!(tree.nodes[6].bytes, digest.bytes);
    for n in 0..7 {
        assert_eq!(tree.nodes[n].bytes, other.nodes[n].bytes);
    }
    assert_eq!(tree.nodes[2].bytes, tree.hasher.compress(&tree.nodes[5], &tree.nodes[6]).bytes);
    assert_eq!(tree.nodes[0].bytes, tree.hasher.compress(&tree.nodes[1], &tree.nodes[2]).bytes);
}

fn point(digest: &Digest) -> EdwardsAffine {
    EdwardsAffine::deserialize_uncompressed(digest.bytes.as_slice()).unwrap()
}

#[test]
fn proof_is_accepted_by_the_reference_verifier() {
    let mut rng = test_rng();
    let hasher = pedersen(&mut rng);
    let records: Vec<Vec<u8>> = (0..8u8).map(|i| vec![i; 20]).collect();
    let mut tree = AuthenticatedTree::new(hasher, 3, &records).unwrap();
    tree.update(6, &[200u8; 9]).unwrap();
    let reference_root = point(&tree.root());
    for index in 0..8usize {
        let record: Vec<u8> = if index == 6 { vec![200u8; 9] } else { records[index].clone() };
        let proof = tree.generate_proof(index).unwrap();
        let reference: Path<JubJubMerkleTreeParams> = Path {
            leaf_sibling_hash: point(&proof.steps[0].sibling),
            auth_path: proof.steps[1..].iter().rev().map(|s| point(&s.sibling)).collect(),
            leaf_index: proof.leaf_index,
        };
        let accepted = reference
            .verify(&tree.hasher.leaf, &tree.hasher.inner, &reference_root, record.as_slice())
            .unwrap();
        assert!(accepted);
        let rejected = reference
            .verify(&tree.hasher.leaf, &tree.hasher.inner, &reference_root, &[1u8; 3][..])
            .unwrap();
        assert!(!rejected);
    }
}

#[test]
fn proof_of_the_reference_tree_is_accepted() {
    let mut rng = test_rng();
    let hasher = pedersen(&mut rng);
    let leaves = four_leaves();
    let reference = MerkleTree::<JubJubMerkleTreeParams>::new(
        &hasher.leaf,
        &hasher.inner,
        leaves.iter().map(|v| v.as_slice()),
    )
    .unwrap();
    let root = Digest::new(uncompressed(&reference.root()));
    for index in 0..4usize {
        let theirs = reference.generate_proof(index).unwrap();
        let mut steps = vec![PathStep {
            sibling: Digest::new(uncompressed(&theirs.leaf_sibling_hash)),
            current_is_right: index & 1 == 1,
        }];
        for (level, sibling) in theirs.auth_path.iter().rev().enumerate() {
            steps.push(PathStep {
                sibling: Digest::new(uncompressed(sibling)),
                current_is_right: (index >> (level + 1)) & 1 == 1,
            });
        }
        let path = AuthenticationPath { leaf_index: index, steps };
        assert_eq!(path.verify(&hasher, 2, &root, &leaves[index]), Ok(true));
    }
}
