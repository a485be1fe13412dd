use crate::account::{record_of, AccountId, AccountInformation};
use crate::amount::Amount;
use crate::hash::{same_bytes, same_scheme, Digest, HashScheme};
use crate::path::TreeError;
use crate::positions::leaf_slots;
use crate::signature::{
    public_key_bytes, public_key_encoding, public_key_of, schnorr_keygen, schnorr_setup,
    AccountPublicKey, AccountSecretKey, SignatureParameters,
};
use crate::transaction::Transaction;
use crate::tree::AuthenticatedTree;
use ark_std::rand::rngs::StdRng;
use std::collections::HashMap;
use vstd::arithmetic::power2::{lemma2_to64, lemma_pow2_strictly_increases, pow2};
use vstd::prelude::*;

verus! {

broadcast use vstd::std_specs::hash::group_hash_axioms;

/// What creating and validating transactions needs: the parameters of the
/// signature scheme and the hash scheme of the account tree.
#[derive(Clone)]
pub struct Parameters<H: HashScheme> {
    pub sig_params: SignatureParameters,
    pub hasher: H,
}

impl<H: HashScheme> Parameters<H> {
    /// Parameters with the given hash scheme and freshly drawn signature
    /// parameters.
    pub fn sample(hasher: H, rng: &mut StdRng) -> (parameters: Self)
        ensures
            parameters.hasher == hasher,
    {
        Parameters { sig_params: schnorr_setup(rng), hasher }
    }
}

/// `ark_std::log2`: the least exponent whose power of two is not below `x`.
#[verifier::external_body]
fn ceil_log2(x: usize) -> (exponent: u32)
    ensures
        pow2(exponent as nat) >= x,
        exponent > 0 ==> pow2((exponent - 1) as nat) < x,
{
    ark_std::log2(x)
}

/// One entry of the key index: the encoding of a public key and the identifier
/// registered for it.
#[derive(Clone)]
pub struct KeyEntry {
    pub key: Vec<u8>,
    pub id: AccountId,
}

/// The identifier that a sequence of registrations leaves for a key: that of the
/// latest registration of the key.
pub open spec fn latest(entries: Seq<(Seq<u8>, AccountId)>, key: Seq<u8>) -> Option<AccountId>
    decreases entries.len(),
{
    if entries.len() == 0 {
        None
    } else if entries.last().0 == key {
        Some(entries.last().1)
    } else {
        latest(entries.drop_last(), key)
    }
}

/// The ledger: the accounts, the tree that authenticates them, the index from
/// public keys to identifiers, and the next free identifier.
#[derive(Clone)]
pub struct State<H: HashScheme> {
    /// The identifier the next account gets, or `None` when none is left.
    pub next_available_account: Option<AccountId>,
    /// The tree whose leaf at an account's identifier is the digest of its record.
    pub account_merkle_tree: AuthenticatedTree<H>,
    /// The record of each account, by identifier.
    pub id_to_account_info: HashMap<u8, AccountInformation>,
    /// The registrations in order: each key's latest entry gives its identifier.
    pub pub_key_to_id: Vec<KeyEntry>,
}

impl<H: HashScheme> State<H> {
    /// The digest of a record under the account tree's scheme.
    pub open spec fn digest_of(&self, record: Seq<u8>) -> Option<Seq<u8>> {
        self.account_merkle_tree.hasher.leaf_digest(record)
    }

    /// The registrations as pairs of key encoding and identifier, oldest first.
    pub open spec fn registrations(&self) -> Seq<(Seq<u8>, AccountId)> {
        Seq::new(
            self.pub_key_to_id@.len(),
            |k: int| (self.pub_key_to_id@[k].key@, self.pub_key_to_id@[k].id),
        )
    }

    /// The identifier that the index gives for a key encoding.
    pub open spec fn indexed(&self, key: Seq<u8>) -> Option<AccountId> {
        latest(self.registrations(), key)
    }

    /// The tree is well formed; every account has a slot in it, other than slot 0
    /// and below the next free identifier, and the leaf there is the digest of the
    /// account's record; every registration names an account with that key, and
    /// no identifier was registered twice.
    pub open spec fn wf(&self) -> bool {
        &&& self.account_merkle_tree.wf()
        &&& forall|k: int|
            0 <= k < self.pub_key_to_id@.len() ==> {
                let entry = #[trigger] self.pub_key_to_id@[k];
                &&& self.id_to_account_info@.contains_key(entry.id.0)
                &&& public_key_encoding(self.id_to_account_info@[entry.id.0].public_key)
                    == entry.key@
            }
        &&& forall|j: int, k: int|
            0 <= j < k < self.pub_key_to_id@.len() ==> (#[trigger] self.pub_key_to_id@[j]).id.0 < (
            #[trigger] self.pub_key_to_id@[k]).id.0
        &&& self.next_available_account matches Some(next) ==> next.0 >= 1
        &&& forall|id: u8| #[trigger]
            self.id_to_account_info@.contains_key(id) ==> {
                &&& 1 <= id
                &&& (id as nat) < self.account_merkle_tree.slots()
                &&& self.next_available_account matches Some(next) ==> id < next.0
                &&& self.digest_of(self.id_to_account_info@[id].record()) == Some(
                    self.account_merkle_tree.leaves()[id as int],
                )
            }
    }

    /// Checks that the state is well formed: the tree, the key index and, for
    /// every account, its slot and the leaf there.
    pub fn is_well_formed(&self) -> (ok: bool)
        ensures
            ok == self.wf(),
    {
        if !self.account_merkle_tree.is_well_formed() {
            return false;
        }
        let count = leaf_slots(self.account_merkle_tree.height);
        match self.next_available_account {
            Some(next) => {
                if next.0 < 1 {
                    return false;
                }
            },
            None => {},
        }
        let mut k: usize = 0;
        while k < self.pub_key_to_id.len()
            invariant
                k <= self.pub_key_to_id@.len(),
                forall|j: int|
                    0 <= j < k ==> {
                        let entry = #[trigger] self.pub_key_to_id@[j];
                        &&& self.id_to_account_info@.contains_key(entry.id.0)
                        &&& public_key_encoding(self.id_to_account_info@[entry.id.0].public_key)
                            == entry.key@
                    },
                forall|i: int, j: int|
                    0 <= i < j < k ==> (#[trigger] self.pub_key_to_id@[i]).id.0 < (
                    #[trigger] self.pub_key_to_id@[j]).id.0,
            decreases self.pub_key_to_id@.len() - k,
        {
            let entry = &self.pub_key_to_id[k];
            match self.id_to_account_info.get(&entry.id.0) {
                None => {
                    return false;
                },
                Some(info) => {
                    let bytes = public_key_bytes(&info.public_key);
                    if !same_bytes(&bytes, &entry.key) {
                        return false;
                    }
                },
            }
            if k > 0 && self.pub_key_to_id[k - 1].id.0 >= entry.id.0 {
                return false;
            }
            proof {
                assert forall|i: int| 0 <= i < k implies (#[trigger] self.pub_key_to_id@[i]).id.0
                    < self.pub_key_to_id@[k as int].id.0 by {
                    if i < k - 1 {
                        assert(self.pub_key_to_id@[i].id.0 < self.pub_key_to_id@[k - 1].id.0);
                    }
                }
            }
            k = k + 1;
        }
        let mut slot: usize = 0;
        while slot < 256
            invariant
                slot <= 256,
                self.account_merkle_tree.wf(),
                count == self.account_merkle_tree.slots(),
                1 <= count <= 0x4000_0000,
                forall|id: u8| #[trigger]
                    self.id_to_account_info@.contains_key(id) && (id as int) < slot ==> {
                        &&& 1 <= id
                        &&& (id as nat) < self.account_merkle_tree.slots()
                        &&& self.next_available_account matches Some(next) ==> id < next.0
                        &&& self.digest_of(self.id_to_account_info@[id].record()) == Some(
                            self.account_merkle_tree.leaves()[id as int],
                        )
                    },
            decreases 256 - slot,
        {
            let id = slot as u8;
            match self.id_to_account_info.get(&id) {
                None => {},
                Some(info) => {
                    if id < 1 || slot >= count {
                        return false;
                    }
                    match self.next_available_account {
                        Some(next) => {
                            if id >= next.0 {
                                return false;
                            }
                        },
                        None => {},
                    }
                    let bytes = info.to_bytes_le();
                    match self.account_merkle_tree.hasher.hash_leaf(bytes.as_slice()) {
                        None => {
                            return false;
                        },
                        Some(digest) => {
                            if !digest.same_as(&self.account_merkle_tree.nodes[count - 1 + slot]) {
                                return false;
                            }
                        },
                    }
                },
            }
            slot = slot + 1;
        }
        true
    }

    /// An empty ledger for `num_accounts` accounts: its tree has the least height
    /// that gives that many slots, and the first identifier handed out is 1.
    pub fn new(num_accounts: usize, parameters: &Parameters<H>) -> (outcome: Result<
        Self,
        TreeError,
    >)
        ensures
            num_accounts > 0x4000_0000 ==> outcome matches Err(TreeError::HeightTooLarge),
            num_accounts <= 0x4000_0000 && parameters.hasher.leaf_digest(Seq::empty()).is_none()
                ==> outcome matches Err(TreeError::UnhashableLeaf),
            num_accounts <= 0x4000_0000 && parameters.hasher.leaf_digest(Seq::empty()).is_some()
                ==> outcome.is_ok(),
            outcome matches Ok(state) ==> {
                &&& state.wf()
                &&& state.next_available_account == Some(AccountId(1))
                &&& state.id_to_account_info@ == Map::<u8, AccountInformation>::empty()
                &&& state.registrations() == Seq::<(Seq<u8>, AccountId)>::empty()
                &&& same_scheme(&state.account_merkle_tree.hasher, &parameters.hasher)
                &&& state.account_merkle_tree.slots() >= num_accounts
                &&& state.account_merkle_tree.height > 0 ==> pow2(
                    (state.account_merkle_tree.height - 1) as nat,
                ) < num_accounts
                &&& state.account_merkle_tree.leaves() == Seq::new(
                    state.account_merkle_tree.slots(),
                    |i: int| parameters.hasher.leaf_digest(Seq::empty()).unwrap(),
                )
            },
    {
        let exponent = ceil_log2(num_accounts);
        proof {
            lemma2_to64();
            if exponent > 30 {
                if exponent - 1 > 30 {
                    lemma_pow2_strictly_increases(30, (exponent - 1) as nat);
                }
            } else if exponent < 30 {
                lemma_pow2_strictly_increases(exponent as nat, 30);
            }
        }
        if exponent > 30 {
            return Err(TreeError::HeightTooLarge);
        }
        let height = exponent as usize;
        let hasher = parameters.hasher.duplicate();
        match AuthenticatedTree::blank(hasher, height) {
            Err(e) => Err(e),
            Ok(account_merkle_tree) => {
                assert(account_merkle_tree.leaves() =~= Seq::new(
                    account_merkle_tree.slots(),
                    |i: int| parameters.hasher.leaf_digest(Seq::empty()).unwrap(),
                ));
                let state = State {
                        next_available_account: Some(AccountId(1)),
                        account_merkle_tree,
                        id_to_account_info: HashMap::new(),
                        pub_key_to_id: Vec::new(),
                    };
                assert(state.registrations() =~= Seq::<(Seq<u8>, AccountId)>::empty());
                Ok(state)
            },
        }
    }

    /// The root of the account tree.
    pub fn root(&self) -> (digest: Digest)
        requires
            self.wf(),
        ensures
            digest@ == self.account_merkle_tree.root_digest(),
    {
        self.account_merkle_tree.root()
    }

    /// An identifier is left, and the tree has a slot for it.
    pub open spec fn has_free_slot(&self) -> bool {
        &&& self.next_available_account matches Some(id)
        &&& (id.0 as nat) < self.account_merkle_tree.slots()
    }

    /// An account can be opened for a key when a slot is free and the scheme can
    /// hash the new record.
    pub open spec fn can_register(&self, public_key: AccountPublicKey) -> bool {
        &&& self.has_free_slot()
        &&& self.digest_of(record_of(public_key, Amount(0))).is_some()
    }

    /// `after` is this state with one more account: `id`, with the given key and
    /// balance 0.
    pub open spec fn registered(
        &self,
        after: &Self,
        id: AccountId,
        public_key: AccountPublicKey,
    ) -> bool {
        &&& self.next_available_account == Some(id)
        &&& after.next_available_account == (if id.0 < u8::MAX {
            Some(AccountId((id.0 + 1) as u8))
        } else {
            None
        })
        &&& after.id_to_account_info@ == self.id_to_account_info@.insert(
            id.0,
            AccountInformation { public_key, balance: Amount(0) },
        )
        &&& after.registrations() == self.registrations().push(
            (public_key_encoding(public_key), id),
        )
        &&& after.account_merkle_tree.height == self.account_merkle_tree.height
        &&& after.account_merkle_tree.hasher == self.account_merkle_tree.hasher
        &&& after.account_merkle_tree.leaves() == self.account_merkle_tree.leaves().update(
            id.0 as int,
            self.digest_of(record_of(public_key, Amount(0))).unwrap(),
        )
    }

    /// Opens an account with balance 0 for `public_key` under the next free
    /// identifier. Returns `None`, and changes nothing, when no account can be
    /// opened.
    pub fn register(&mut self, public_key: AccountPublicKey) -> (outcome: Option<AccountId>)
        requires
            old(self).wf(),
        ensures
            final(self).wf(),
            outcome.is_some() <==> old(self).can_register(public_key),
            outcome matches Some(id) ==> old(self).registered(final(self), id, public_key),
            outcome.is_none() ==> *final(self) == *old(self),
    {
        let id = match self.next_available_account {
            None => {
                return None;
            },
            Some(id) => id,
        };
        let count = leaf_slots(self.account_merkle_tree.height);
        if id.0 as usize >= count {
            return None;
        }
        let info = AccountInformation { public_key, balance: Amount(0) };
        let bytes = info.to_bytes_le();
        let digest = match self.account_merkle_tree.hasher.hash_leaf(bytes.as_slice()) {
            None => {
                return None;
            },
            Some(digest) => digest,
        };
        self.account_merkle_tree.replace_leaf(id.0 as usize, digest);
        self.id_to_account_info.insert(id.0, info);
        self.pub_key_to_id.push(KeyEntry { key: public_key_bytes(&public_key), id });
        assert(self.registrations() =~= old(self).registrations().push(
            (public_key_encoding(public_key), id),
        ));
        let mut next = id;
        self.next_available_account = match next.checked_increment() {
            None => None,
            Some(_) => Some(next),
        };
        Some(id)
    }

    /// The identifier registered for a public key, the latest one if the key was
    /// registered more than once.
    pub fn id_of(&self, public_key: &AccountPublicKey) -> (outcome: Option<AccountId>)
        ensures
            outcome == self.indexed(public_key_encoding(*public_key)),
    {
        let key = public_key_bytes(public_key);
        let mut k: usize = self.pub_key_to_id.len();
        proof {
            assert(self.registrations().take(k as int) =~= self.registrations());
        }
        while k > 0
            invariant
                k <= self.pub_key_to_id@.len(),
                key@ == public_key_encoding(*public_key),
                self.indexed(key@) == latest(self.registrations().take(k as int), key@),
            decreases k,
        {
            proof {
                let upto = self.registrations().take(k as int);
                assert(upto.drop_last() =~= self.registrations().take(k - 1));
                assert(upto.last() == self.registrations()[k - 1]);
            }
            k = k - 1;
            if same_bytes(&self.pub_key_to_id[k].key, &key) {
                return Some(self.pub_key_to_id[k].id);
            }
        }
        None
    }

    /// Draws a key pair and opens an account for its public key under the next
    /// free identifier. Which key is drawn is up to the signature scheme: the account
    /// is opened exactly when the drawn key can be registered, so it is opened
    /// whenever every key can, and never when no slot is free. Returns `None`,
    /// and changes nothing, when no account is opened.
    pub fn sample_keys_and_register(
        &mut self,
        ledger_params: &Parameters<H>,
        rng: &mut StdRng,
    ) -> (outcome: Option<(AccountId, AccountPublicKey, AccountSecretKey)>)
        requires
            old(self).wf(),
        ensures
            final(self).wf(),
            outcome matches Some((id, public_key, secret_key)) ==> {
                &&& public_key == public_key_of(ledger_params.sig_params, secret_key)
                &&& old(self).can_register(public_key)
                &&& old(self).registered(final(self), id, public_key)
            },
            outcome.is_none() ==> *final(self) == *old(self),
            !old(self).has_free_slot() ==> outcome.is_none(),
            (forall|key: AccountPublicKey| #[trigger] old(self).can_register(key))
                ==> outcome.is_some(),
    {
        let (public_key, secret_key) = schnorr_keygen(&ledger_params.sig_params, rng);
        match self.register(public_key) {
            None => None,
            Some(id) => Some((id, public_key, secret_key)),
        }
    }

    /// The balance of an account can be set when the account exists and the scheme
    /// can hash the record with the new balance.
    pub open spec fn can_update(&self, id: AccountId, new_amount: Amount) -> bool {
        &&& self.id_to_account_info@.contains_key(id.0)
        &&& self.digest_of(
            record_of(self.id_to_account_info@[id.0].public_key, new_amount),
        ).is_some()
    }

    /// `after` is this state with the balance of `id` set to `new_amount`.
    pub open spec fn updated(&self, after: &Self, id: AccountId, new_amount: Amount) -> bool {
        let public_key = self.id_to_account_info@[id.0].public_key;
        &&& after.next_available_account == self.next_available_account
        &&& after.pub_key_to_id == self.pub_key_to_id
        &&& after.id_to_account_info@ == self.id_to_account_info@.insert(
            id.0,
            AccountInformation { public_key, balance: new_amount },
        )
        &&& after.account_merkle_tree.height == self.account_merkle_tree.height
        &&& after.account_merkle_tree.hasher == self.account_merkle_tree.hasher
        &&& after.account_merkle_tree.leaves() == self.account_merkle_tree.leaves().update(
            id.0 as int,
            self.digest_of(record_of(public_key, new_amount)).unwrap(),
        )
    }

    /// Sets the balance of `id` to `new_amount`, in the record and in the tree.
    /// Returns `None`, and changes nothing, when that cannot be done.
    pub fn update_balance(&mut self, id: AccountId, new_amount: Amount) -> (outcome: Option<()>)
        requires
            old(self).wf(),
        ensures
            final(self).wf(),
            outcome.is_some() <==> old(self).can_update(id, new_amount),
            outcome.is_some() ==> old(self).updated(final(self), id, new_amount),
            outcome.is_none() ==> *final(self) == *old(self),
    {
        let info = match self.id_to_account_info.get(&id.0) {
            None => {
                return None;
            },
            Some(info) => *info,
        };
        let updated = AccountInformation { public_key: info.public_key, balance: new_amount };
        let bytes = updated.to_bytes_le();
        let digest = match self.account_merkle_tree.hasher.hash_leaf(bytes.as_slice()) {
            None => {
                return None;
            },
            Some(digest) => digest,
        };
        self.account_merkle_tree.replace_leaf(id.0 as usize, digest);
        self.id_to_account_info.insert(id.0, updated);
        Some(())
    }

    /// The sender's record once `amount` has left the account.
    pub open spec fn debited(&self, sender: AccountId, amount: Amount) -> AccountInformation {
        let account = self.id_to_account_info@[sender.0];
        AccountInformation {
            public_key: account.public_key,
            balance: Amount((account.balance.0 - amount.0) as u64),
        }
    }

    /// The records once `amount` has left the sender's account.
    pub open spec fn after_debit(&self, sender: AccountId, amount: Amount) -> Map<
        u8,
        AccountInformation,
    > {
        self.id_to_account_info@.insert(sender.0, self.debited(sender, amount))
    }

    /// The recipient's record once `amount` has reached the account, the sender's
    /// having been debited first: an account that pays itself ends as it began.
    pub open spec fn credited(
        &self,
        sender: AccountId,
        recipient: AccountId,
        amount: Amount,
    ) -> AccountInformation {
        let account = self.after_debit(sender, amount)[recipient.0];
        AccountInformation {
            public_key: account.public_key,
            balance: Amount((account.balance.0 + amount.0) as u64),
        }
    }

    /// An amount can move when both accounts exist, the sender's balance covers
    /// it, the recipient's balance, once the sender has been debited, does not
    /// overflow, and the scheme can hash both new records.
    pub open spec fn can_transfer(
        &self,
        sender: AccountId,
        recipient: AccountId,
        amount: Amount,
    ) -> bool {
        let accounts = self.id_to_account_info@;
        &&& accounts.contains_key(sender.0)
        &&& accounts.contains_key(recipient.0)
        &&& amount.0 <= accounts[sender.0].balance.0
        &&& self.after_debit(sender, amount)[recipient.0].balance.0 + amount.0 <= u64::MAX
        &&& self.digest_of(self.debited(sender, amount).record()).is_some()
        &&& self.digest_of(self.credited(sender, recipient, amount).record()).is_some()
    }

    /// `after` is this state with `amount` moved: first the sender's record is
    /// replaced by the debited one, then the recipient's by the credited one.
    pub open spec fn transferred(
        &self,
        after: &Self,
        sender: AccountId,
        recipient: AccountId,
        amount: Amount,
    ) -> bool {
        &&& after.next_available_account == self.next_available_account
        &&& after.pub_key_to_id == self.pub_key_to_id
        &&& after.id_to_account_info@ == self.after_debit(sender, amount).insert(
            recipient.0,
            self.credited(sender, recipient, amount),
        )
        &&& after.account_merkle_tree.height == self.account_merkle_tree.height
        &&& after.account_merkle_tree.hasher == self.account_merkle_tree.hasher
        &&& after.account_merkle_tree.leaves() == self.account_merkle_tree.leaves().update(
            sender.0 as int,
            self.digest_of(self.debited(sender, amount).record()).unwrap(),
        ).update(
            recipient.0 as int,
            self.digest_of(self.credited(sender, recipient, amount).record()).unwrap(),
        )
    }

    /// Moves `amount` from `sender` to `recipient`, in the records and in the
    /// tree, both or neither: the sender is debited, then the recipient is
    /// credited. Returns `None` and changes nothing when the amount cannot move.
    pub fn transfer(&mut self, sender: AccountId, recipient: AccountId, amount: Amount) -> (outcome:
        Option<()>)
        requires
            old(self).wf(),
        ensures
            final(self).wf(),
            outcome.is_some() <==> old(self).can_transfer(sender, recipient, amount),
            outcome.is_some() ==> old(self).transferred(final(self), sender, recipient, amount),
            outcome.is_none() ==> *final(self) == *old(self),
    {
        let from = match self.id_to_account_info.get(&sender.0) {
            None => {
                return None;
            },
            Some(info) => *info,
        };
        let new_sender_bal = match from.balance.checked_sub(amount) {
            None => {
                return None;
            },
            Some(balance) => balance,
        };
        let debited = AccountInformation { public_key: from.public_key, balance: new_sender_bal };
        let to = if recipient.0 == sender.0 {
            debited
        } else {
            match self.id_to_account_info.get(&recipient.0) {
                None => {
                    return None;
                },
                Some(info) => *info,
            }
        };
        let new_receiver_bal = match to.balance.checked_add(amount) {
            None => {
                return None;
            },
            Some(balance) => balance,
        };
        let credited = AccountInformation { public_key: to.public_key, balance: new_receiver_bal };
        let debited_bytes = debited.to_bytes_le();
        let debited_digest = match self.account_merkle_tree.hasher.hash_leaf(
            debited_bytes.as_slice(),
        ) {
            None => {
                return None;
            },
            Some(digest) => digest,
        };
        let credited_bytes = credited.to_bytes_le();
        let credited_digest = match self.account_merkle_tree.hasher.hash_leaf(
            credited_bytes.as_slice(),
        ) {
            None => {
                return None;
            },
            Some(digest) => digest,
        };
        self.account_merkle_tree.replace_leaf(sender.0 as usize, debited_digest);
        self.id_to_account_info.insert(sender.0, debited);
        self.account_merkle_tree.replace_leaf(recipient.0 as usize, credited_digest);
        self.id_to_account_info.insert(recipient.0, credited);
        Some(())
    }

    /// A transaction is applied when it is valid in this state and its amount can
    /// move.
    pub open spec fn accepts(&self, pp: &Parameters<H>, tx: &Transaction) -> bool {
        &&& tx.valid_in(pp, self)
        &&& self.can_transfer(tx.sender, tx.recipient, tx.amount)
    }

    /// Applies `tx` if the state accepts it: debits the sender and credits the
    /// recipient, in the records and in the tree. Otherwise returns `None` and
    /// changes nothing.
    pub fn apply_transaction(&mut self, pp: &Parameters<H>, tx: &Transaction) -> (outcome: Option<
        (),
    >)
        requires
            old(self).wf(),
        ensures
            final(self).wf(),
            outcome.is_some() <==> old(self).accepts(pp, tx),
            outcome.is_some() ==> old(self).transferred(
                final(self),
                tx.sender,
                tx.recipient,
                tx.amount,
            ),
            outcome.is_none() ==> *final(self) == *old(self),
    {
        if tx.validate(pp, self) {
            self.transfer(tx.sender, tx.recipient, tx.amount)
        } else {
            None
        }
    }
}

} // verus!
