use ark_crypto_primitives::signature::schnorr::{Parameters, Schnorr, SecretKey, Signature};
use ark_crypto_primitives::signature::SignatureScheme;
use ark_ed_on_bls12_381::{EdwardsAffine, EdwardsProjective};
use ark_serialize::CanonicalSerialize;
use ark_std::rand::rngs::StdRng;
use blake2::Blake2s256;
use vstd::prelude::*;

verus! {

/// The random number generator that keys, parameters and signatures are drawn
/// from: `rand`'s `StdRng`, of which nothing is known here.
#[verifier::external_type_specification]
#[verifier::external_body]
pub struct ExStdRng(StdRng);

/// The public key of an account: a point of the Jubjub curve. The curve's point
/// type is generic over a trait of its crate, which keeps it from being declared
/// as it is; the point is kept behind this struct and only handed to the scheme
/// and to its encoder.
#[verifier::external_body]
pub struct AccountPublicKey {
    inner: EdwardsAffine,
}

impl Clone for AccountPublicKey {
    /// `Clone::clone` of the curve point: the same key again.
    #[verifier::external_body]
    fn clone(&self) -> (copy: Self)
        ensures
            copy == *self,
    {
        AccountPublicKey { inner: self.inner.clone() }
    }
}

impl Copy for AccountPublicKey {

}

/// The secret key of an account. Like the public key, the scheme's own type
/// cannot be declared as it is, so the key is kept behind this struct and only
/// handed back to the scheme.
#[verifier::external_body]
pub struct AccountSecretKey {
    inner: SecretKey<EdwardsProjective>,
}

/// A Schnorr signature over the Jubjub curve. Like the public key, the scheme's
/// own type cannot be declared as it is, so the signature is kept behind this
/// struct and only handed back to the scheme.
#[verifier::external_body]
pub struct TransactionSignature {
    inner: Signature<EdwardsProjective>,
}

/// The parameters of the Schnorr scheme over Jubjub with Blake2s. The scheme's own
/// parameter type names a digest type that cannot be written outside its crate,
/// so the value is kept behind this struct and only handed back to the scheme.
#[verifier::external_body]
pub struct SignatureParameters {
    inner: Parameters<EdwardsProjective, Blake2s256>,
}

impl Clone for SignatureParameters {
    /// `Clone::clone` of the scheme's parameters: the same parameters again.
    #[verifier::external_body]
    fn clone(&self) -> (copy: Self)
        ensures
            copy == *self,
    {
        SignatureParameters { inner: self.inner.clone() }
    }
}

/// Whether the Schnorr scheme accepts `signature` for `message` under `public_key`.
pub uninterp spec fn signature_accepted(
    parameters: SignatureParameters,
    public_key: AccountPublicKey,
    message: Seq<u8>,
    signature: TransactionSignature,
) -> bool;

/// The public key that belongs to a secret key: the scheme's generator times the
/// secret scalar.
pub uninterp spec fn public_key_of(
    parameters: SignatureParameters,
    secret_key: AccountSecretKey,
) -> AccountPublicKey;

/// The uncompressed canonical encoding of a public key.
pub uninterp spec fn public_key_encoding(public_key: AccountPublicKey) -> Seq<u8>;

/// `Schnorr::setup`: fresh parameters drawn from `rng`. Nothing is claimed of them.
#[verifier::external_body]
pub(crate) fn schnorr_setup(rng: &mut StdRng) -> (parameters: SignatureParameters) {
    let inner = <Schnorr<EdwardsProjective, Blake2s256> as SignatureScheme>::setup(rng).unwrap();
    SignatureParameters { inner }
}

/// `Schnorr::keygen`: a fresh key pair drawn from `rng`. Which secret key is drawn
/// is not said; the public key is the one that belongs to it, the generator times
/// the secret scalar.
#[verifier::external_body]
pub(crate) fn schnorr_keygen(parameters: &SignatureParameters, rng: &mut StdRng) -> (keys: (
    AccountPublicKey,
    AccountSecretKey,
))
    ensures
        keys.0 == public_key_of(*parameters, keys.1),
{
    let (public_key, secret_key) = <Schnorr<
        EdwardsProjective,
        Blake2s256,
    > as SignatureScheme>::keygen(&parameters.inner, rng).unwrap();
    (AccountPublicKey { inner: public_key }, AccountSecretKey { inner: secret_key })
}

/// `Schnorr::sign`: a signature of `message` under `secret_key`, with randomness
/// drawn from `rng`. Which signature is made is not said; whichever it is, the
/// scheme accepts it for that message under the public key that belongs to the
/// secret key. The signature holds the challenge `e` hashed from the commitment
/// `k G` and the response `k - e x`; verifying recomputes
/// `(k - e x) G + e (x G) = k G`, the generator `G` being of the order of the
/// scalar field, and so hashes to the same challenge.
#[verifier::external_body]
pub(crate) fn schnorr_sign(
    parameters: &SignatureParameters,
    secret_key: &AccountSecretKey,
    message: &[u8],
    rng: &mut StdRng,
) -> (signature: TransactionSignature)
    ensures
        signature_accepted(
            *parameters,
            public_key_of(*parameters, *secret_key),
            message@,
            signature,
        ),
{
    let inner = <Schnorr<EdwardsProjective, Blake2s256> as SignatureScheme>::sign(
        &parameters.inner,
        &secret_key.inner,
        message,
        rng,
    ).unwrap();
    TransactionSignature { inner }
}

/// `Schnorr::verify`: the scheme's verdict on a signature, which depends on the
/// parameters, the key, the message and the signature alone.
#[verifier::external_body]
pub(crate) fn schnorr_verify(
    parameters: &SignatureParameters,
    public_key: &AccountPublicKey,
    message: &[u8],
    signature: &TransactionSignature,
) -> (accepted: bool)
    ensures
        accepted == signature_accepted(*parameters, *public_key, message@, *signature),
{
    <Schnorr<EdwardsProjective, Blake2s256> as SignatureScheme>::verify(
        &parameters.inner,
        &public_key.inner,
        message,
        &signature.inner,
    ).unwrap()
}

/// `CanonicalSerialize::serialize_uncompressed` on a public key: its encoding, which
/// depends on the key alone.
#[verifier::external_body]
pub(crate) fn public_key_bytes(public_key: &AccountPublicKey) -> (bytes: Vec<u8>)
    ensures
        bytes@ == public_key_encoding(*public_key),
{
    let mut bytes = Vec::new();
    public_key.inner.serialize_uncompressed(&mut bytes).unwrap();
    bytes
}

} // verus!
