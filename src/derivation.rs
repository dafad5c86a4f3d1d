use vstd::prelude::*;
use crate::address::Address;
use crate::error::TransferError;
use anchor_lang::solana_program::pubkey::Pubkey;

verus! {

/// What `Pubkey::try_find_program_address` returns for the given seeds and
/// program identity: the derived address with its bump, or nothing.
pub uninterp spec fn program_address_of(seeds: Seq<Seq<u8>>, program: Seq<u8>) -> Option<(Seq<u8>, u8)>;

/// Whether the bytes decode to a point of the ed25519 curve, that is whether a
/// private key can stand behind them (`bytes_are_curve_point`, the test that
/// `Pubkey::create_program_address` applies to each candidate).
pub uninterp spec fn curve_point(bytes: Seq<u8>) -> bool;

/// The byte contents of each seed.
pub open spec fn seeds_view(seeds: Seq<Vec<u8>>) -> Seq<Seq<u8>> {
    seeds.map_values(|s: Vec<u8>| s@)
}

/// Relies on `Pubkey::try_find_program_address`: the result depends on the seeds
/// and the program identity alone, and an address it returns passed
/// `create_program_address`, which refuses every hash that is a curve point.
#[verifier::external_body]
fn find_program_address(seeds: &Vec<Vec<u8>>, program: &Address) -> (r: Option<(Address, u8)>)
    ensures
        match r {
            Some((a, bump)) => program_address_of(seeds_view(seeds@), program@) == Some((a@, bump))
                && !curve_point(a@),
            None => program_address_of(seeds_view(seeds@), program@).is_none(),
        },
{
    let refs: Vec<&[u8]> = seeds.iter().map(|s| s.as_slice()).collect();
    match Pubkey::try_find_program_address(&refs, &Pubkey::new_from_array(program.bytes)) {
        Some((a, bump)) => Some((Address::new(a.to_bytes()), bump)),
        None => None,
    }
}

/// The program-wide identity that every derivation is made under. It is set
/// once and never changes.
#[derive(Clone, Copy, Debug)]
pub struct ProgramConfig {
    pub program_id: Address,
}

/// A derivation scheme: a namespace tag followed by seed values.
#[derive(Debug)]
pub struct Derivation {
    pub namespace: Vec<u8>,
    pub seeds: Vec<Vec<u8>>,
}

impl Derivation {
    /// The seeds handed to address derivation: the namespace, then each seed.
    pub open spec fn all_seeds(&self) -> Seq<Seq<u8>> {
        seq![self.namespace@] + seeds_view(self.seeds@)
    }
}

/// A derived address and the bump that placed it off the curve.
#[derive(Clone, Copy, Debug)]
pub struct DerivedAddress {
    pub address: Address,
    pub bump: u8,
}

/// The address and bump derived from `derivation` under `program`, if any.
pub open spec fn derived(program: Seq<u8>, derivation: Derivation) -> Option<(Seq<u8>, u8)> {
    program_address_of(derivation.all_seeds(), program)
}

/// Derives the address of `derivation` under the program's identity.
pub fn derive(config: &ProgramConfig, derivation: &Derivation) -> (r: Result<DerivedAddress, TransferError>)
    ensures
        match r {
            Ok(d) => derived(config.program_id@, *derivation) == Some((d.address@, d.bump))
                && !curve_point(d.address@),
            Err(e) => e == TransferError::DerivationExhausted
                && derived(config.program_id@, *derivation).is_none(),
        },
{
    let mut all: Vec<Vec<u8>> = Vec::new();
    let ns = derivation.namespace.clone();
    assert(ns@ =~= derivation.namespace@);
    all.push(ns);
    let mut i: usize = 0;
    while i < derivation.seeds.len()
        invariant
            i <= derivation.seeds@.len(),
            seeds_view(all@) =~= seq![derivation.namespace@] + seeds_view(derivation.seeds@.subrange(0, i as int)),
        decreases derivation.seeds@.len() - i,
    {
        let s = derivation.seeds[i].clone();
        assert(s@ =~= derivation.seeds@[i as int]@);
        let ghost before = all@;
        all.push(s);
        assert(seeds_view(all@) =~= seeds_view(before).push(derivation.seeds@[i as int]@));
        assert(derivation.seeds@.subrange(0, i + 1) =~= derivation.seeds@.subrange(0, i as int).push(derivation.seeds@[i as int]));
        i = i + 1;
        assert(seeds_view(all@) =~= seq![derivation.namespace@] + seeds_view(derivation.seeds@.subrange(0, i as int)));
    }
    assert(derivation.seeds@.subrange(0, i as int) =~= derivation.seeds@);
    match find_program_address(&all, &config.program_id) {
        Some((address, bump)) => Ok(DerivedAddress { address, bump }),
        None => Err(TransferError::DerivationExhausted),
    }
}

/// Derivation is deterministic: the same identity and the same seeds give the
/// same outcome, address and bump alike.
pub proof fn lemma_derive_deterministic(program: Seq<u8>, d1: Derivation, d2: Derivation)
    requires
        d1.namespace@ == d2.namespace@,
        seeds_view(d1.seeds@) == seeds_view(d2.seeds@),
    ensures
        derived(program, d1) == derived(program, d2),
{
    assert(d1.all_seeds() =~= d2.all_seeds());
}

} // verus!
