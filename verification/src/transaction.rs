use crate::account::AccountId;
use crate::amount::Amount;
use crate::hash::HashScheme;
use crate::ledger::{Parameters, State};
use crate::signature::{
    public_key_of, schnorr_sign, schnorr_verify, signature_accepted, AccountPublicKey,
    AccountSecretKey, SignatureParameters, TransactionSignature,
};
use ark_std::rand::rngs::StdRng;
use vstd::bytes::spec_u64_to_le_bytes;
use vstd::prelude::*;

verus! {

broadcast use vstd::std_specs::hash::group_hash_axioms;

/// A transfer of `amount` from `sender` to `recipient`, signed by the sender.
pub struct Transaction {
    /// The account that pays.
    pub sender: AccountId,
    /// The account that is paid.
    pub recipient: AccountId,
    /// The amount that changes hands.
    pub amount: Amount,
    /// The sender's signature of the other three fields.
    pub signature: TransactionSignature,
}

impl Transaction {
    /// The bytes a sender signs: the sender's identifier, the recipient's
    /// identifier and the amount, least significant byte first.
    pub open spec fn message_of(sender: AccountId, recipient: AccountId, amount: Amount) -> Seq<
        u8,
    > {
        seq![sender.0] + seq![recipient.0] + spec_u64_to_le_bytes(amount.0)
    }

    /// The bytes a sender signs for a transfer.
    pub fn message(sender: AccountId, recipient: AccountId, amount: Amount) -> (bytes: Vec<u8>)
        ensures
            bytes@ == Self::message_of(sender, recipient, amount),
    {
        let mut bytes = sender.to_bytes_le();
        let mut to = recipient.to_bytes_le();
        let mut value = amount.to_bytes_le();
        bytes.append(&mut to);
        bytes.append(&mut value);
        bytes
    }

    /// A transfer signed with `sender_sk`: the signature is one of the transfer's
    /// message, made with the randomness the scheme drew, and is accepted under
    /// the public key that belongs to `sender_sk`.
    pub fn create<H: HashScheme>(
        parameters: &Parameters<H>,
        sender: AccountId,
        recipient: AccountId,
        amount: Amount,
        sender_sk: &AccountSecretKey,
        rng: &mut StdRng,
    ) -> (tx: Self)
        ensures
            tx.sender == sender,
            tx.recipient == recipient,
            tx.amount == amount,
            signature_accepted(
                parameters.sig_params,
                public_key_of(parameters.sig_params, *sender_sk),
                Self::message_of(sender, recipient, amount),
                tx.signature,
            ),
    {
        let message = Self::message(sender, recipient, amount);
        let signature = schnorr_sign(&parameters.sig_params, sender_sk, message.as_slice(), rng);
        Transaction { sender, recipient, amount, signature }
    }

    /// Whether the signature is one of this transfer's message under `pub_key`.
    pub fn verify_signature(&self, pp: &SignatureParameters, pub_key: &AccountPublicKey) -> (accepted:
        bool)
        ensures
            accepted == signature_accepted(
                *pp,
                *pub_key,
                Self::message_of(self.sender, self.recipient, self.amount),
                self.signature,
            ),
    {
        let message = Self::message(self.sender, self.recipient, self.amount);
        schnorr_verify(pp, pub_key, message.as_slice(), &self.signature)
    }

    /// Both accounts exist in the state and the sender's balance covers the
    /// amount.
    pub open spec fn covered_in<H: HashScheme>(&self, state: &State<H>) -> bool {
        let accounts = state.id_to_account_info@;
        &&& accounts.contains_key(self.sender.0)
        &&& accounts.contains_key(self.recipient.0)
        &&& self.amount.0 <= accounts[self.sender.0].balance.0
    }

    /// Checks the accounts and the balance, not the signature.
    pub fn is_covered<H: HashScheme>(&self, state: &State<H>) -> (covered: bool)
        ensures
            covered == self.covered_in(state),
    {
        match state.id_to_account_info.get(&self.sender.0) {
            None => false,
            Some(sender) => {
                let enough = self.amount.0 <= sender.balance.0;
                let known = state.id_to_account_info.get(&self.recipient.0).is_some();
                enough && known
            },
        }
    }

    /// A transfer is valid in a state when both accounts exist, the sender's
    /// balance covers the amount, and the signature is the sender's.
    pub open spec fn valid_in<H: HashScheme>(
        &self,
        parameters: &Parameters<H>,
        state: &State<H>,
    ) -> bool {
        &&& self.covered_in(state)
        &&& signature_accepted(
            parameters.sig_params,
            state.id_to_account_info@[self.sender.0].public_key,
            Self::message_of(self.sender, self.recipient, self.amount),
            self.signature,
        )
    }

    /// Checks the transfer against the state as it is now.
    pub fn validate<H: HashScheme>(&self, parameters: &Parameters<H>, state: &State<H>) -> (valid:
        bool)
        ensures
            valid == self.valid_in(parameters, state),
    {
        match state.id_to_account_info.get(&self.sender.0) {
            None => false,
            Some(sender) => {
                let signed = self.verify_signature(&parameters.sig_params, &sender.public_key);
                let covered = self.is_covered(state);
                signed && covered
            },
        }
    }
}

} // verus!
