use crate::account::{AccountId, AccountInformation};
use crate::amount::Amount;
use crate::hash::HashScheme;
use crate::ledger::{latest, Parameters, State};
use crate::path::{verdict, TreeError};
use crate::signature::{public_key_encoding, public_key_of, signature_accepted, AccountSecretKey};
use crate::transaction::Transaction;
use crate::tree_laws::law_round_trip;
use vstd::prelude::*;

verus! {

/// The identifier found for a key is that of one of the registrations of the key.
proof fn lemma_latest_is_registered(entries: Seq<(Seq<u8>, AccountId)>, key: Seq<u8>) -> (k: int)
    requires
        latest(entries, key).is_some(),
    ensures
        0 <= k < entries.len(),
        entries[k].0 == key,
        latest(entries, key) == Some(entries[k].1),
    decreases entries.len(),
{
    if entries.last().0 == key {
        entries.len() - 1
    } else {
        lemma_latest_is_registered(entries.drop_last(), key)
    }
}

/// The key index is injective: no identifier is indexed under two different keys.
pub proof fn law_key_index_injective<H: HashScheme>(
    state: &State<H>,
    first: Seq<u8>,
    second: Seq<u8>,
)
    requires
        state.wf(),
        state.indexed(first).is_some(),
        state.indexed(first) == state.indexed(second),
    ensures
        first == second,
{
    let j = lemma_latest_is_registered(state.registrations(), first);
    let k = lemma_latest_is_registered(state.registrations(), second);
    assert(state.pub_key_to_id@[j].id == state.pub_key_to_id@[k].id);
    if j < k {
        assert(state.pub_key_to_id@[j].id.0 < state.pub_key_to_id@[k].id.0);
    } else if k < j {
        assert(state.pub_key_to_id@[k].id.0 < state.pub_key_to_id@[j].id.0);
    }
}

/// Every indexed identifier is that of an account whose key has the indexed
/// encoding.
pub proof fn law_indexed_account_has_the_key<H: HashScheme>(state: &State<H>, key: Seq<u8>)
    requires
        state.wf(),
        state.indexed(key).is_some(),
    ensures
        state.id_to_account_info@.contains_key(state.indexed(key).unwrap().0),
        public_key_encoding(state.id_to_account_info@[state.indexed(key).unwrap().0].public_key)
            == key,
{
    let k = lemma_latest_is_registered(state.registrations(), key);
    assert(state.id_to_account_info@.contains_key(state.pub_key_to_id@[k].id.0));
}

/// Every account is authenticated by the tree: the path generated for its slot
/// verifies its record against the ledger's root.
pub proof fn law_account_is_authenticated<H: HashScheme>(state: &State<H>, id: u8)
    requires
        state.wf(),
        state.id_to_account_info@.contains_key(id),
    ensures
        verdict(
            &state.account_merkle_tree.hasher,
            state.account_merkle_tree.path_steps(id as nat),
            state.account_merkle_tree.height as nat,
            state.account_merkle_tree.root_digest(),
            state.id_to_account_info@[id].record(),
        ) == Ok::<bool, TreeError>(true),
{
    law_round_trip(&state.account_merkle_tree, id as nat, state.id_to_account_info@[id].record());
}

/// The balance that a map of records holds for an identifier: nothing where it
/// holds no record.
pub open spec fn balance_in(accounts: Map<u8, AccountInformation>, id: u8) -> nat {
    if accounts.contains_key(id) {
        accounts[id].balance.0 as nat
    } else {
        0
    }
}

/// The sum of the balances of the identifiers below `n`.
pub open spec fn total_below(accounts: Map<u8, AccountInformation>, n: nat) -> nat
    decreases n,
{
    if n == 0 {
        0
    } else {
        total_below(accounts, (n - 1) as nat) + balance_in(accounts, (n - 1) as u8)
    }
}

/// The sum of all balances.
pub open spec fn total(accounts: Map<u8, AccountInformation>) -> nat {
    total_below(accounts, 256)
}

/// What a transfer takes from an account and what it gives to it.
pub open spec fn taken(id: u8, sender: AccountId, amount: Amount) -> int {
    if id == sender.0 {
        amount.0 as int
    } else {
        0
    }
}

/// Up to any identifier, the balances after a transfer sum to those before, less
/// what was taken and plus what was given below that identifier.
proof fn lemma_total_below_after_transfer<H: HashScheme>(
    before: &State<H>,
    after: &State<H>,
    sender: AccountId,
    recipient: AccountId,
    amount: Amount,
    n: nat,
)
    requires
        before.can_transfer(sender, recipient, amount),
        before.transferred(after, sender, recipient, amount),
        n <= 256,
    ensures
        total_below(after.id_to_account_info@, n) == total_below(before.id_to_account_info@, n) - (
        if sender.0 < n {
            amount.0 as int
        } else {
            0
        }) + (if recipient.0 < n {
            amount.0 as int
        } else {
            0
        }),
    decreases n,
{
    if n > 0 {
        lemma_total_below_after_transfer(before, after, sender, recipient, amount, (n - 1) as nat);
    }
}

/// A transfer moves the amount and nothing else: every account ends with what
/// it had, less the amount where it is the sender and plus the amount where it
/// is the recipient, so an account that pays itself ends as it began; no account
/// comes or goes, and the sum of all balances is what it was.
pub proof fn law_transfer_conserves<H: HashScheme>(
    before: &State<H>,
    after: &State<H>,
    sender: AccountId,
    recipient: AccountId,
    amount: Amount,
)
    requires
        before.can_transfer(sender, recipient, amount),
        before.transferred(after, sender, recipient, amount),
    ensures
        after.id_to_account_info@.dom() == before.id_to_account_info@.dom(),
        forall|id: u8| #[trigger]
            balance_in(after.id_to_account_info@, id) == balance_in(before.id_to_account_info@, id)
                - taken(id, sender, amount) + taken(id, recipient, amount),
        forall|id: u8|
            before.id_to_account_info@.contains_key(id) ==> (
            #[trigger] after.id_to_account_info@[id]).public_key
                == before.id_to_account_info@[id].public_key,
        total(after.id_to_account_info@) == total(before.id_to_account_info@),
{
    assert(after.id_to_account_info@.dom() =~= before.id_to_account_info@.dom());
    lemma_total_below_after_transfer(before, after, sender, recipient, amount, 256);
}

/// A transaction signed by the owner of the sending account is valid whenever it
/// is covered: if the account's key is the one that belongs to a secret key, and
/// the signature is accepted for the transaction's message under the key that
/// belongs to that secret key, as every signature that `Transaction::create`
/// makes with it is, then nothing but the accounts and the balance decides.
pub proof fn law_signed_by_the_owner_is_valid<H: HashScheme>(
    parameters: &Parameters<H>,
    state: &State<H>,
    tx: &Transaction,
    secret_key: AccountSecretKey,
)
    requires
        state.id_to_account_info@.contains_key(tx.sender.0),
        state.id_to_account_info@[tx.sender.0].public_key == public_key_of(
            parameters.sig_params,
            secret_key,
        ),
        signature_accepted(
            parameters.sig_params,
            public_key_of(parameters.sig_params, secret_key),
            Transaction::message_of(tx.sender, tx.recipient, tx.amount),
            tx.signature,
        ),
    ensures
        tx.valid_in(parameters, state) == tx.covered_in(state),
{
}

} // verus!
