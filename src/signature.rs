//! Signatures that an upstream verifier has already authenticated.
use vstd::prelude::*;

use crate::member::MemberIdentifier;

verus! {

/// The algorithm family a signature was produced with.
#[derive(Debug, Clone, Copy, PartialEq, Eq, Structural)]
pub enum SignatureKind {
    Erc191,
    Erc1271,
    InstallationKey,
    LegacyDelegated,
    P256,
}

/// A signature whose signer has been recovered and checked upstream.
#[derive(Debug, Clone)]
pub struct VerifiedSignature {
    pub signer: MemberIdentifier,
    pub kind: SignatureKind,
    pub raw_bytes: Vec<u8>,
    pub chain_id: Option<u64>,
}

impl VerifiedSignature {
    pub fn new(
        signer: MemberIdentifier,
        kind: SignatureKind,
        raw_bytes: Vec<u8>,
        chain_id: Option<u64>,
    ) -> (r: VerifiedSignature)
        ensures
            r.signer == signer,
            r.kind == kind,
            r.raw_bytes == raw_bytes,
            r.chain_id == chain_id,
    {
        VerifiedSignature { signer, kind, raw_bytes, chain_id }
    }
}

} // verus!
