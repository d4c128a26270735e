//! The public identity of a signing key pair.

use vstd::prelude::*;

verus! {

#[verifier::external_type_specification]
#[verifier::external_body]
pub struct ExKeyPair(nkeys::KeyPair);

/// The encoded public key of a key pair.
pub uninterp spec fn public_key_of(kp: nkeys::KeyPair) -> Seq<char>;

/// Relies on nkeys::KeyPair::public_key: the key pair's public key, encoded
/// as text, the same on every call.
#[verifier::external_body]
pub(crate) fn public_key(kp: &nkeys::KeyPair) -> (r: String)
    ensures
        r@ == public_key_of(*kp),
{
    kp.public_key()
}

} // verus!
