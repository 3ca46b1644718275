//! The signing capability: every signable variant renders its canonical
//! bytes and takes a produced signature back into its signature slot.

use vstd::prelude::*;

verus! {

/// A canonicalization failure. With a growable output buffer the encoders
/// never fail, and `sign_bytes` promises `Ok`; the type keeps the fallible
/// shape of the operation at the caller boundary.
#[derive(Clone, Copy, Debug, PartialEq, Eq, Structural)]
pub struct EncodeError;

/// The capability of a message variant to be signed: it canonicalizes to a
/// deterministic byte sequence that excludes its signature slot, and a
/// produced signature can be written back into that slot.
pub trait TendermintSignable: Sized {
    /// The canonical bytes to be signed: a pure function of the variant's
    /// fields, never including the signature slot.
    spec fn canonical_bytes(&self) -> Seq<u8>;

    /// The current contents of the signature slot (empty when the variant
    /// has no slot, as for the poison pill).
    spec fn signature_view(&self) -> Seq<u8>;

    /// The two variants agree on every field but the signature slot.
    spec fn signable_fields_eq(&self, other: &Self) -> bool;

    /// Whether this variant carries a signature slot at all.
    spec fn has_signature_slot() -> bool;

    /// The canonical bytes are a function of the fields outside the
    /// signature slot alone: two instances that agree on those fields
    /// canonicalize identically, whatever their slots hold.
    proof fn lemma_canonical_ignores_signature(&self, other: &Self)
        requires
            self.signable_fields_eq(other),
        ensures
            self.canonical_bytes() == other.canonical_bytes(),
    ;

    /// Appends the canonical bytes to `sign_bytes` and reports success.
    fn sign_bytes(&self, sign_bytes: &mut Vec<u8>) -> (r: Result<bool, EncodeError>)
        ensures
            r == Ok::<bool, EncodeError>(true),
            final(sign_bytes)@ == old(sign_bytes)@ + self.canonical_bytes(),
    ;

    /// Writes `sig` into the signature slot, overwriting any prior value,
    /// touching nothing else, and leaving the canonical bytes unchanged.
    fn set_signature(&mut self, sig: &Vec<u8>)
        ensures
            final(self).canonical_bytes() == old(self).canonical_bytes(),
            old(self).signable_fields_eq(final(self)),
            Self::has_signature_slot() ==> final(self).signature_view() == sig@,
            !Self::has_signature_slot() ==> *final(self) == *old(self),
    ;
}

/// The ed25519 signature type the external signer produces, re-exported by
/// signatory; opaque here, carried through to its byte serialization.
#[verifier::external_type_specification]
#[verifier::external_body]
pub struct ExEd25519Signature(signatory::ed25519::Signature);

/// Relies on `ed25519::Signature::to_bytes` (the type signatory re-exports):
/// the 64-byte serialization of the signature, `R` component then `s`.
#[verifier::external_body]
fn ed25519_signature_vec(sig: &signatory::ed25519::Signature) -> (r: Vec<u8>)
    ensures
        r@.len() == 64,
{
    sig.to_bytes().to_vec()
}

/// Writes an ed25519 signature produced by the external signer into the
/// variant's signature slot, leaving the canonical bytes unchanged; a
/// variant with a slot ends up holding 64 bytes of signature.
pub fn attach_ed25519<M: TendermintSignable>(msg: &mut M, sig: &signatory::ed25519::Signature)
    ensures
        final(msg).canonical_bytes() == old(msg).canonical_bytes(),
        old(msg).signable_fields_eq(final(msg)),
        M::has_signature_slot() ==> final(msg).signature_view().len() == 64,
{
    let bytes = ed25519_signature_vec(sig);
    msg.set_signature(&bytes);
}

} // verus!
