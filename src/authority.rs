use vstd::prelude::*;
use crate::address::Address;
use crate::derivation::{curve_point, derived, program_address_of, Derivation, DerivedAddress, ProgramConfig};
use crate::error::TransferError;

verus! {

/// How an account proves its authority.
#[derive(Clone, Copy, Debug, PartialEq, Eq, Structural)]
pub enum AccountClass {
    /// Proves it by a signature on the request.
    Signer,
    /// Proves nothing; it can only be credited.
    PlainHolder,
    /// Proves it by being the address derived from the expected seeds.
    DerivedAuthority,
}

/// An account as a request presents it: an address and the class it claims.
#[derive(Clone, Copy, Debug)]
pub struct AccountRef {
    pub address: Address,
    pub class: AccountClass,
}

/// The keys whose signatures on the current request were verified.
pub struct SignatureSet {
    signers: Vec<Address>,
}

impl View for SignatureSet {
    type V = Set<Seq<u8>>;

    closed spec fn view(&self) -> Set<Seq<u8>> {
        Set::new(|k: Seq<u8>| exists|i: int| 0 <= i < self.signers@.len() && self.signers@[i]@ == k)
    }
}

impl SignatureSet {
    /// Every key in the set is a curve point. A key with a signature has a
    /// private key, so a set that the runtime verified is of this kind.
    pub open spec fn wf(&self) -> bool {
        forall|k: Seq<u8>| #[trigger] self@.contains(k) ==> curve_point(k)
    }

    /// A set with no signatures.
    pub fn new() -> (r: SignatureSet)
        ensures
            r.wf(),
            r@ == Set::<Seq<u8>>::empty(),
    {
        let r = SignatureSet { signers: Vec::new() };
        assert(r@ =~= Set::<Seq<u8>>::empty());
        r
    }

    /// Records that the signature of `key` on this request was verified.
    pub fn record(&mut self, key: &Address)
        ensures
            final(self)@ == old(self)@.insert(key@),
            old(self).wf() && curve_point(key@) ==> final(self).wf(),
    {
        let ghost before = self.signers@;
        self.signers.push(*key);
        proof {
            assert(self.signers@[before.len() as int]@ == key@);
            assert forall|k: Seq<u8>| self@.contains(k) <==> old(self)@.insert(key@).contains(k) by {
                if old(self)@.contains(k) {
                    let j = choose|j: int| 0 <= j < before.len() && before[j]@ == k;
                    assert(self.signers@[j]@ == k);
                }
                if self@.contains(k) {
                    let j = choose|j: int| 0 <= j < self.signers@.len() && self.signers@[j]@ == k;
                    if j < before.len() {
                        assert(before[j]@ == k);
                    }
                }
            }
            assert(self@ =~= old(self)@.insert(key@));
        }
    }

    /// Whether `key` signed.
    pub fn contains(&self, key: &Address) -> (r: bool)
        ensures
            r == self@.contains(key@),
    {
        let mut i: usize = 0;
        while i < self.signers.len()
            invariant
                i <= self.signers@.len(),
                forall|j: int| 0 <= j < i ==> self.signers@[j]@ != key@,
            decreases self.signers@.len() - i,
        {
            if self.signers[i].same(key) {
                return true;
            }
            i = i + 1;
        }
        false
    }
}

/// The reference claims to be a signer and its key signed.
pub open spec fn signed(sigs: Set<Seq<u8>>, r: AccountRef) -> bool {
    r.class == AccountClass::Signer && sigs.contains(r.address@)
}

/// Why `r` is no derived authority for `seeds`, or none if it is one.
pub open spec fn derivation_failure(program: Seq<u8>, r: AccountRef, seeds: Seq<Seq<u8>>) -> Option<TransferError> {
    match program_address_of(seeds, program) {
        None => Some(TransferError::DerivationExhausted),
        Some((a, _)) => if r.class == AccountClass::DerivedAuthority && r.address@ == a {
            None
        } else {
            Some(TransferError::InvalidDerivation)
        },
    }
}

/// Checks that `r` is a signer whose signature is in `sigs`.
pub fn authorize_signer(sigs: &SignatureSet, r: &AccountRef) -> (res: Result<(), TransferError>)
    ensures
        res == if signed(sigs@, *r) {
            Ok::<(), TransferError>(())
        } else {
            Err(TransferError::MissingSignature)
        },
{
    if r.class == AccountClass::Signer && sigs.contains(&r.address) {
        Ok(())
    } else {
        Err(TransferError::MissingSignature)
    }
}

/// Checks that `r` is the derived authority of `derivation`, by deriving the
/// address again and comparing. No signature plays a part.
pub fn authorize_derived(config: &ProgramConfig, r: &AccountRef, derivation: &Derivation) -> (res: Result<DerivedAddress, TransferError>)
    ensures
        match res {
            Ok(d) => derivation_failure(config.program_id@, *r, derivation.all_seeds()).is_none()
                && derived(config.program_id@, *derivation) == Some((d.address@, d.bump))
                && d.address@ == r.address@
                && !curve_point(d.address@),
            Err(e) => derivation_failure(config.program_id@, *r, derivation.all_seeds()) == Some(e),
        },
{
    let d = crate::derivation::derive(config, derivation)?;
    if r.class == AccountClass::DerivedAuthority && r.address.same(&d.address) {
        Ok(d)
    } else {
        Err(TransferError::InvalidDerivation)
    }
}

/// Namespace separation: a signer's key lies on the curve, and every address
/// that derivation returns lies off it, so no derived address is ever among
/// the keys that signed.
pub proof fn lemma_namespace_separation(sigs: SignatureSet, a: Seq<u8>)
    requires
        sigs.wf(),
        !curve_point(a),
    ensures
        !sigs@.contains(a),
{
}

} // verus!
