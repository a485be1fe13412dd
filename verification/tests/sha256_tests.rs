use ark_std::rand::rngs::StdRng;
use ark_std::rand::SeedableRng;
use rollup_ledger::account::AccountId;
use rollup_ledger::amount::Amount;
use rollup_ledger::hash::{Digest, HashScheme};
use rollup_ledger::transaction::Transaction;
use rollup_ledger::ledger::{Parameters, State};
use rollup_ledger::path::TreeError;
use rollup_ledger::sha256::Sha256Scheme;
use rollup_ledger::tree::AuthenticatedTree;

const EMPTY: [u8; 32] = [227, 176, 196, 66, 152, 252, 28, 20, 154, 251, 244, 200, 153, 111, 185, 36, 39, 174, 65, 228, 100, 155, 147, 76, 164, 149, 153, 27, 120, 82, 184, 85];
const ABC: [u8; 32] = [186, 120, 22, 191, 143, 1, 207, 234, 65, 65, 64, 222, 93, 174, 34, 35, 176, 3, 97, 163, 150, 23, 122, 156, 180, 16, 255, 97, 242, 0, 21, 173];
const BLANK_PAIR: [u8; 32] = [45, 186, 93, 188, 51, 158, 115, 22, 174, 162, 104, 63, 175, 131, 156, 27, 123, 30, 226, 49, 61, 183, 146, 17, 37, 136, 17, 141, 240, 102, 170, 53];
const A_THEN_B: [u8; 32] = [229, 160, 31, 238, 20, 224, 237, 92, 72, 113, 79, 34, 24, 15, 37, 173, 131, 101, 181, 63, 151, 121, 247, 157, 196, 163, 215, 233, 57, 99, 249, 74];
const B_THEN_A: [u8; 32] = [24, 215, 156, 183, 71, 234, 23, 76, 89, 243, 163, 180, 23, 104, 103, 37, 38, 213, 111, 236, 197, 131, 96, 169, 157, 40, 61, 15, 155, 10, 60, 192];
const A_B_C_BLANK: [u8; 32] = [139, 100, 117, 102, 163, 217, 160, 78, 62, 17, 179, 219, 230, 37, 58, 238, 73, 97, 31, 152, 20, 117, 37, 182, 88, 63, 142, 69, 208, 40, 192, 21];
const A_B_C_D: [u8; 32] = [20, 237, 229, 232, 233, 122, 217, 55, 35, 39, 114, 143, 80, 153, 185, 86, 4, 163, 149, 147, 202, 195, 189, 56, 163, 67, 173, 118, 32, 82, 19, 231];

#[test]
fn sha256_leaf_is_the_digest_of_the_record() {
    let scheme = Sha256Scheme;
    assert_eq!(scheme.hash_leaf(&[]).unwrap().bytes, EMPTY);
    assert_eq!(scheme.hash_leaf(b"abc").unwrap().bytes, ABC);
    assert!(scheme.hash_leaf(&[7u8; 1000]).is_some());
}

#[test]
fn sha256_node_is_the_digest_of_left_then_right() {
    let scheme = Sha256Scheme;
    let a = scheme.hash_leaf(b"a").unwrap();
    let b = scheme.hash_leaf(b"b").unwrap();
    assert_eq!(scheme.compress(&a, &b).bytes, A_THEN_B);
    assert_eq!(scheme.compress(&b, &a).bytes, B_THEN_A);
    let blank = Digest::new(EMPTY.to_vec());
    assert_eq!(scheme.duplicate().compress(&blank, &blank).bytes, BLANK_PAIR);
}

#[test]
fn sha256_tree_has_the_expected_roots() {
    let blank = AuthenticatedTree::blank(Sha256Scheme, 1).unwrap();
    assert_eq!(blank.root().bytes, BLANK_PAIR);
    let records = vec![b"a".to_vec(), b"b".to_vec()];
    let tree = AuthenticatedTree::new(Sha256Scheme, 1, &records).unwrap();
    assert_eq!(tree.root().bytes, A_THEN_B);
    let records = vec![b"a".to_vec(), b"b".to_vec(), b"c".to_vec()];
    let mut tree = AuthenticatedTree::new(Sha256Scheme, 2, &records).unwrap();
    assert_eq!(tree.root().bytes, A_B_C_BLANK);
    assert_eq!(tree.update(3, b"d"), Ok(()));
    assert_eq!(tree.root().bytes, A_B_C_D);
    assert_eq!(tree.update(4, b"e"), Err(TreeError::IndexOutOfRange));
    assert_eq!(tree.root().bytes, A_B_C_D);
}

#[test]
fn sha256_round_trip_for_every_leaf() {
    let records: Vec<Vec<u8>> = (0..32u8).map(|i| vec![i; (i as usize) * 5]).collect();
    let mut tree = AuthenticatedTree::new(Sha256Scheme, 5, &records).unwrap();
    let root = tree.root();
    for (i, record) in records.iter().enumerate() {
        let path = tree.generate_proof(i).unwrap();
        assert_eq!(tree.verify(&path, &root, record), Ok(true));
        assert_eq!(tree.verify(&path, &root, b"something else"), Ok(false));
    }
    let stale = tree.generate_proof(9).unwrap();
    tree.update(20, b"new").unwrap();
    let new_root = tree.root();
    assert_eq!(tree.verify(&stale, &new_root, &records[9]), Ok(false));
    let fresh = tree.generate_proof(9).unwrap();
    assert_eq!(tree.verify(&fresh, &new_root, &records[9]), Ok(true));
    let path = tree.generate_proof(20).unwrap();
    assert_eq!(tree.verify(&path, &new_root, b"new"), Ok(true));
}

#[test]
fn ledger_runs_over_sha256() {
    let mut rng = StdRng::seed_from_u64(7);
    let pp = Parameters::sample(Sha256Scheme, &mut rng);
    let mut state = State::new(4, &pp).unwrap();
    assert_eq!(state.account_merkle_tree.height, 2);
    let blank_root = state.root();
    let (alice, alice_pk, _) = state.sample_keys_and_register(&pp, &mut rng).unwrap();
    assert_ne!(state.root().bytes, blank_root.bytes);
    assert_eq!(state.id_of(&alice_pk), Some(alice));
    let record = state.id_to_account_info.get(&alice.0).unwrap().to_bytes_le();
    assert_eq!(
        state.account_merkle_tree.nodes[3 + alice.0 as usize].bytes,
        Sha256Scheme.hash_leaf(&record).unwrap().bytes
    );
}

#[test]
fn tree_checks_its_own_well_formedness() {
    let records = vec![b"a".to_vec(), b"b".to_vec(), b"c".to_vec()];
    let mut tree = AuthenticatedTree::new(Sha256Scheme, 2, &records).unwrap();
    assert!(tree.is_well_formed());
    assert!(AuthenticatedTree::blank(Sha256Scheme, 0).unwrap().is_well_formed());
    tree.update(1, b"z").unwrap();
    assert!(tree.is_well_formed());
    // a leaf changed behind the tree's back
    let kept = tree.nodes[4].bytes.clone();
    tree.nodes[4] = Digest::new(EMPTY.to_vec());
    assert!(!tree.is_well_formed());
    tree.nodes[4] = Digest::new(kept);
    assert!(tree.is_well_formed());
    // the root changed
    let root = tree.nodes[0].bytes.clone();
    tree.nodes[0] = Digest::new(ABC.to_vec());
    assert!(!tree.is_well_formed());
    tree.nodes[0] = Digest::new(root);
    // a node too many, a wrong height
    tree.nodes.push(Digest::new(EMPTY.to_vec()));
    assert!(!tree.is_well_formed());
    tree.nodes.pop();
    tree.height = 3;
    assert!(!tree.is_well_formed());
    tree.height = 31;
    assert!(!tree.is_well_formed());
    tree.height = 2;
    assert!(tree.is_well_formed());
}

#[test]
fn state_checks_its_own_well_formedness() {
    let mut rng = StdRng::seed_from_u64(11);
    let pp = Parameters::sample(Sha256Scheme, &mut rng);
    let mut state = State::new(8, &pp).unwrap();
    assert!(state.is_well_formed());
    let (alice, _, alice_sk) = state.sample_keys_and_register(&pp, &mut rng).unwrap();
    let (bob, _, _) = state.sample_keys_and_register(&pp, &mut rng).unwrap();
    state.update_balance(alice, Amount(10)).unwrap();
    let tx = Transaction::create(&pp, alice, bob, Amount(3), &alice_sk, &mut rng);
    state.apply_transaction(&pp, &tx).unwrap();
    assert!(state.is_well_formed());

    // a balance changed behind the tree's back
    let mut forged = state.clone();
    forged.id_to_account_info.get_mut(&alice.0).unwrap().balance = Amount(1000);
    assert!(!forged.is_well_formed());
    // an account without a registration is fine; a registration without an account is not
    let mut forged = state.clone();
    forged.id_to_account_info.remove(&bob.0);
    assert!(!forged.is_well_formed());
    // registrations out of order
    let mut forged = state.clone();
    forged.pub_key_to_id.swap(0, 1);
    assert!(!forged.is_well_formed());
    // a registration under another key
    let mut forged = state.clone();
    forged.pub_key_to_id[0].key[0] ^= 1;
    assert!(!forged.is_well_formed());
    // the counter behind an account, or at slot 0
    let mut forged = state.clone();
    forged.next_available_account = Some(AccountId(2));
    assert!(!forged.is_well_formed());
    forged.next_available_account = Some(AccountId(0));
    assert!(!forged.is_well_formed());
    forged.next_available_account = None;
    assert!(forged.is_well_formed());
    // an account in slot 0, or beyond the tree
    let mut forged = state.clone();
    let info = *forged.id_to_account_info.get(&alice.0).unwrap();
    forged.id_to_account_info.insert(0, info);
    assert!(!forged.is_well_formed());
    let mut forged = state.clone();
    forged.id_to_account_info.insert(200, info);
    assert!(!forged.is_well_formed());
    // the clone is the state again
    let copy = state.clone();
    assert!(copy.is_well_formed());
    assert_eq!(copy.root().bytes, state.root().bytes);
    assert_eq!(copy.next_available_account, state.next_available_account);
    let again = pp.clone();
    assert!(tx.validate(&again, &copy));
}

#[test]
fn created_transaction_is_accepted_under_the_signers_key() {
    let mut rng = StdRng::seed_from_u64(5);
    let pp = Parameters::sample(Sha256Scheme, &mut rng);
    let mut state = State::new(8, &pp).unwrap();
    let (alice, alice_pk, alice_sk) = state.sample_keys_and_register(&pp, &mut rng).unwrap();
    let (bob, bob_pk, bob_sk) = state.sample_keys_and_register(&pp, &mut rng).unwrap();
    for amount in [0u64, 1, 77, u64::MAX] {
        let tx = Transaction::create(&pp, alice, bob, Amount(amount), &alice_sk, &mut rng);
        assert!(tx.verify_signature(&pp.sig_params, &alice_pk));
        assert!(!tx.verify_signature(&pp.sig_params, &bob_pk));
        let back = Transaction::create(&pp, bob, alice, Amount(amount), &bob_sk, &mut rng);
        assert!(back.verify_signature(&pp.sig_params, &bob_pk));
        assert!(!back.verify_signature(&pp.sig_params, &alice_pk));
    }
    // the signature is of this transfer's message, not of another's
    let tx = Transaction::create(&pp, alice, bob, Amount(1), &alice_sk, &mut rng);
    let other = Transaction { sender: bob, recipient: alice, amount: Amount(1), signature: tx.signature };
    assert!(!other.verify_signature(&pp.sig_params, &alice_pk));
}
