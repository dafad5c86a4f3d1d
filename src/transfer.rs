use vstd::prelude::*;
use crate::address::Address;
use crate::authority::{authorize_derived, authorize_signer, derivation_failure, signed, AccountClass, AccountRef, SignatureSet};
use crate::derivation::{curve_point, derived, program_address_of, Derivation, DerivedAddress, ProgramConfig};
use crate::error::TransferError;
use crate::ledger::{applied, AccountOwner, Ledger, LedgerView, NativeAccount};

verus! {

/// The namespace tag of the derived accounts that this program pays into and out of.
pub const PDA_NAMESPACE: [u8; 6] = [120, 121, 122, 112, 100, 97];

/// The seeds of the derived account that belongs to `owner`: the namespace
/// tag, then the owner's address.
pub open spec fn pda_seeds(owner: Seq<u8>) -> Seq<Seq<u8>> {
    seq![PDA_NAMESPACE@, owner]
}

/// The derivation of the derived account that belongs to `owner`: the
/// namespace tag, then the owner's address.
pub fn pda_derivation(owner: &Address) -> (r: Derivation)
    ensures
        r.namespace@ == PDA_NAMESPACE@,
        r.seeds@.len() == 1,
        r.seeds@[0]@ == owner@,
        r.all_seeds() == pda_seeds(owner@),
{
    let mut namespace: Vec<u8> = Vec::new();
    let mut i: usize = 0;
    while i < 6
        invariant
            i <= 6,
            namespace@ == PDA_NAMESPACE@.subrange(0, i as int),
        decreases 6 - i,
    {
        namespace.push(PDA_NAMESPACE[i]);
        i = i + 1;
        assert(namespace@ =~= PDA_NAMESPACE@.subrange(0, i as int));
    }
    assert(namespace@ =~= PDA_NAMESPACE@);
    let mut seeds: Vec<Vec<u8>> = Vec::new();
    seeds.push(owner.to_vec());
    let r = Derivation { namespace, seeds };
    assert(r.all_seeds() =~= pda_seeds(owner@));
    r
}

/// The accounts of a native transfer from a signer.
#[derive(Clone, Copy, Debug)]
pub struct TransferSol {
    pub payer: AccountRef,
    pub receiver: AccountRef,
}

/// The accounts of a token transfer.
#[derive(Clone, Copy, Debug)]
pub struct TransferTokens {
    pub signer: AccountRef,
    pub mint: Address,
    pub sender_token_account: Address,
    pub recipient_token_account: Address,
}

/// The accounts of a payment into the derived account of the sender.
#[derive(Clone, Copy, Debug)]
pub struct TransferSolToPDA {
    pub sender: AccountRef,
    pub recipient: AccountRef,
}

/// The accounts of a payment out of the derived account of the recipient.
#[derive(Clone, Copy, Debug)]
pub struct TransferSolFromPDA {
    pub pda: AccountRef,
    pub recipient: AccountRef,
}

/// A signer pays `amount` of the native asset to a holder.
pub open spec fn native_outcome(
    l: LedgerView,
    sigs: Set<Seq<u8>>,
    source: AccountRef,
    destination: AccountRef,
    amount: u64,
) -> Result<LedgerView, TransferError> {
    if !signed(sigs, source) {
        Err(TransferError::MissingSignature)
    } else {
        l.after_transfer(source.address@, destination.address@, amount)
    }
}

/// The ledger once account `a` exists, created at `payer`'s cost and owned by
/// `program` if it did not.
pub open spec fn with_account(l: LedgerView, a: Seq<u8>, payer: Seq<u8>, program: Address) -> Result<LedgerView, TransferError> {
    if l.native.contains_key(a) {
        Ok(l)
    } else {
        l.after_create(a, payer, program)
    }
}

/// The derived account of `derivation` is made to exist, `payer` paying.
pub open spec fn ensure_outcome(
    l: LedgerView,
    program: Address,
    sigs: Set<Seq<u8>>,
    derivation: Derivation,
    payer: AccountRef,
) -> Result<LedgerView, TransferError> {
    if !signed(sigs, payer) {
        Err(TransferError::MissingSignature)
    } else {
        match derived(program@, derivation) {
            None => Err(TransferError::DerivationExhausted),
            Some((a, _)) => with_account(l, a, payer.address@, program),
        }
    }
}

/// A signer pays `amount` into its own derived account, which is created
/// first if it does not exist. A derived address can never sign, so a
/// sender at the derived address itself is refused.
pub open spec fn to_derived_outcome(
    l: LedgerView,
    program: Address,
    sigs: Set<Seq<u8>>,
    source: AccountRef,
    destination: AccountRef,
    amount: u64,
) -> Result<LedgerView, TransferError> {
    if !signed(sigs, source) {
        Err(TransferError::MissingSignature)
    } else {
        match derivation_failure(program@, destination, pda_seeds(source.address@)) {
            Some(e) => Err(e),
            None => if source.address@ == destination.address@ {
                Err(TransferError::MissingSignature)
            } else {
                match with_account(l, destination.address@, source.address@, program) {
                    Err(e) => Err(e),
                    Ok(l2) => l2.after_transfer(source.address@, destination.address@, amount),
                }
            },
        }
    }
}

/// The derived account of the recipient pays `amount` to the recipient: its
/// balance is lowered, then the recipient's raised. No signature plays a part.
/// A derived account cannot be its own recipient.
pub open spec fn from_derived_outcome(
    l: LedgerView,
    program: Address,
    source: AccountRef,
    destination: AccountRef,
    amount: u64,
) -> Result<LedgerView, TransferError> {
    match derivation_failure(program@, source, pda_seeds(destination.address@)) {
        Some(e) => Err(e),
        None => if source.address@ == destination.address@ {
            Err(TransferError::InvalidDerivation)
        } else {
            match l.after_debit(source.address@, amount) {
                Err(e) => Err(e),
                Ok(l2) => l2.after_credit(destination.address@, amount),
            }
        },
    }
}

/// A signer moves `amount` base units of `mint` from token account `source`,
/// which it owns, to token account `destination`, with the mint's own decimals.
pub open spec fn fungible_outcome(
    l: LedgerView,
    sigs: Set<Seq<u8>>,
    signer: AccountRef,
    mint: Seq<u8>,
    source: Seq<u8>,
    destination: Seq<u8>,
    amount: u64,
) -> Result<LedgerView, TransferError> {
    if !signed(sigs, signer) {
        Err(TransferError::MissingSignature)
    } else if !l.mints.contains_key(mint) {
        Err(TransferError::MintMismatch)
    } else {
        l.after_checked_transfer(mint, l.mints[mint], source, destination, signer.address@, amount)
    }
}

/// Pays `amount` of the native asset from a signer to a holder.
pub fn transfer_sol(ledger: &mut Ledger, sigs: &SignatureSet, accounts: &TransferSol, amount: u64) -> (r: Result<(), TransferError>)
    requires
        old(ledger).wf(),
    ensures
        final(ledger).wf(),
        applied(r, old(ledger)@, final(ledger)@, native_outcome(old(ledger)@, sigs@, accounts.payer, accounts.receiver, amount)),
{
    authorize_signer(sigs, &accounts.payer)?;
    ledger.atomic_transfer(&accounts.payer.address, &accounts.receiver.address, amount)
}

/// Makes sure that the derived account of `derivation` exists: creates it,
/// owned by this program and with no storage, at `payer`'s cost if it does
/// not, and leaves it as it is if it does.
pub fn ensure_derived_account(
    ledger: &mut Ledger,
    config: &ProgramConfig,
    sigs: &SignatureSet,
    derivation: &Derivation,
    payer: &AccountRef,
) -> (r: Result<DerivedAddress, TransferError>)
    requires
        old(ledger).wf(),
    ensures
        final(ledger).wf(),
        applied(r, old(ledger)@, final(ledger)@, ensure_outcome(old(ledger)@, config.program_id, sigs@, *derivation, *payer)),
        r matches Ok(d) ==> derived(config.program_id@, *derivation) == Some((d.address@, d.bump))
            && !curve_point(d.address@),
{
    authorize_signer(sigs, payer)?;
    let d = crate::derivation::derive(config, derivation)?;
    if !ledger.has_account(&d.address) {
        ledger.create_account(&d.address, &payer.address, &config.program_id)?;
    }
    Ok(d)
}

/// Pays `amount` from a signer into its derived account, creating that
/// account first if needed. Either every step happens or none. Returns the
/// derived address with its bump.
pub fn transfer_sol_to_pda(
    ledger: &mut Ledger,
    config: &ProgramConfig,
    sigs: &SignatureSet,
    accounts: &TransferSolToPDA,
    amount: u64,
) -> (r: Result<DerivedAddress, TransferError>)
    requires
        old(ledger).wf(),
    ensures
        final(ledger).wf(),
        applied(
            r,
            old(ledger)@,
            final(ledger)@,
            to_derived_outcome(old(ledger)@, config.program_id, sigs@, accounts.sender, accounts.recipient, amount),
        ),
        r matches Ok(d) ==> d.address@ == accounts.recipient.address@
            && program_address_of(pda_seeds(accounts.sender.address@), config.program_id@) == Some((d.address@, d.bump))
            && !curve_point(accounts.recipient.address@),
{
    let source = &accounts.sender;
    let destination = &accounts.recipient;
    authorize_signer(sigs, source)?;
    let d = authorize_derived(config, destination, &pda_derivation(&source.address))?;
    if source.address.same(&destination.address) {
        return Err(TransferError::MissingSignature);
    }
    let mut work = ledger.duplicate();
    if !work.has_account(&destination.address) {
        work.create_account(&destination.address, &source.address, &config.program_id)?;
    }
    work.atomic_transfer(&source.address, &destination.address, amount)?;
    *ledger = work;
    Ok(d)
}

/// Pays `amount` from the derived account of the recipient to the recipient.
/// The derived account signs nothing: that it is derived from the
/// recipient's key is its proof.
pub fn transfer_sol_from_pda(
    ledger: &mut Ledger,
    config: &ProgramConfig,
    accounts: &TransferSolFromPDA,
    amount: u64,
) -> (r: Result<(), TransferError>)
    requires
        old(ledger).wf(),
    ensures
        final(ledger).wf(),
        applied(
            r,
            old(ledger)@,
            final(ledger)@,
            from_derived_outcome(old(ledger)@, config.program_id, accounts.pda, accounts.recipient, amount),
        ),
        r is Ok ==> !curve_point(accounts.pda.address@),
{
    let source = &accounts.pda;
    let destination = &accounts.recipient;
    authorize_derived(config, source, &pda_derivation(&destination.address))?;
    if source.address.same(&destination.address) {
        return Err(TransferError::InvalidDerivation);
    }
    let mut work = ledger.duplicate();
    work.debit(&source.address, amount)?;
    work.credit(&destination.address, amount)?;
    *ledger = work;
    Ok(())
}

/// Moves `amount` base units of `mint` between two token accounts on the
/// signer's authority, passing the decimals that the mint declares.
pub fn transfer_tokens(ledger: &mut Ledger, sigs: &SignatureSet, accounts: &TransferTokens, amount: u64) -> (r: Result<(), TransferError>)
    requires
        old(ledger).wf(),
    ensures
        final(ledger).wf(),
        applied(
            r,
            old(ledger)@,
            final(ledger)@,
            fungible_outcome(
                old(ledger)@,
                sigs@,
                accounts.signer,
                accounts.mint@,
                accounts.sender_token_account@,
                accounts.recipient_token_account@,
                amount,
            ),
        ),
{
    let signer = &accounts.signer;
    let mint = &accounts.mint;
    let source = &accounts.sender_token_account;
    let destination = &accounts.recipient_token_account;
    authorize_signer(sigs, signer)?;
    let decimals = match ledger.read_mint_decimals(mint) {
        Some(d) => d,
        None => return Err(TransferError::MintMismatch),
    };
    ledger.checked_transfer(mint, decimals, source, destination, &signer.address, amount)
}

/// A native transfer from a reference that claims to sign fails for want of
/// a signature exactly when its key is not among those that signed.
pub proof fn lemma_native_missing_signature(
    l: LedgerView,
    sigs: Set<Seq<u8>>,
    source: AccountRef,
    destination: AccountRef,
    amount: u64,
)
    requires
        source.class == AccountClass::Signer,
    ensures
        (native_outcome(l, sigs, source, destination, amount) == Err::<LedgerView, TransferError>(
            TransferError::MissingSignature,
        )) <==> !sigs.contains(source.address@),
{
}

/// An authorised native transfer fails for want of funds exactly when the
/// payer holds less than the amount.
pub proof fn lemma_native_insufficient_funds(
    l: LedgerView,
    sigs: Set<Seq<u8>>,
    source: AccountRef,
    destination: AccountRef,
    amount: u64,
)
    requires
        signed(sigs, source),
    ensures
        (native_outcome(l, sigs, source, destination, amount) == Err::<LedgerView, TransferError>(
            TransferError::InsufficientFunds,
        )) <==> l.balance(source.address@) < amount,
{
}

/// A native transfer between two distinct accounts that succeeds lowers the
/// payer's balance by exactly the amount, raises the receiver's by exactly
/// the amount, and leaves every other account as it was.
pub proof fn lemma_native_conservation(
    l: LedgerView,
    sigs: Set<Seq<u8>>,
    source: AccountRef,
    destination: AccountRef,
    amount: u64,
)
    requires
        source.address@ != destination.address@,
        native_outcome(l, sigs, source, destination, amount) is Ok,
    ensures
        ({
            let after = native_outcome(l, sigs, source, destination, amount)->Ok_0;
            &&& after.balance(source.address@) == l.balance(source.address@) - amount
            &&& after.balance(destination.address@) == l.balance(destination.address@) + amount
            &&& forall|a: Seq<u8>|
                a != source.address@ && a != destination.address@ ==> #[trigger] after.balance(a) == l.balance(a)
        }),
{
}

/// A payment out of a derived account whose presented address is not the
/// one derived from the expected seeds is refused as an invalid derivation,
/// whatever else the request holds.
pub proof fn lemma_forged_derivation(
    l: LedgerView,
    program: Address,
    source: AccountRef,
    destination: AccountRef,
    amount: u64,
)
    requires
        program_address_of(pda_seeds(destination.address@), program@) is Some,
        source.address@ != program_address_of(pda_seeds(destination.address@), program@)->Some_0.0,
    ensures
        from_derived_outcome(l, program, source, destination, amount) == Err::<LedgerView, TransferError>(
            TransferError::InvalidDerivation,
        ),
{
}

/// Making sure of a derived account twice is making sure of it once: the
/// second call succeeds and changes nothing.
pub proof fn lemma_ensure_idempotent(
    l: LedgerView,
    program: Address,
    sigs: Set<Seq<u8>>,
    derivation: Derivation,
    payer: AccountRef,
)
    requires
        ensure_outcome(l, program, sigs, derivation, payer) is Ok,
    ensures
        ({
            let once = ensure_outcome(l, program, sigs, derivation, payer)->Ok_0;
            ensure_outcome(once, program, sigs, derivation, payer) == Ok::<LedgerView, TransferError>(once)
        }),
{
}

/// A checked transfer that names the right mint but claims decimals other
/// than those the mint declares is refused, never carried out.
pub proof fn lemma_decimal_mismatch(
    l: LedgerView,
    mint: Seq<u8>,
    decimals: u8,
    source: Seq<u8>,
    destination: Seq<u8>,
    authority: Seq<u8>,
    amount: u64,
)
    requires
        l.mints.contains_key(mint),
        l.tokens.contains_key(source),
        l.tokens.contains_key(destination),
        l.tokens[source].mint@ == mint,
        l.tokens[destination].mint@ == mint,
        l.mints[mint] != decimals,
    ensures
        l.after_checked_transfer(mint, decimals, source, destination, authority, amount) == Err::<
            LedgerView,
            TransferError,
        >(TransferError::DecimalMismatch),
{
}

/// A token transfer in which either token account is not of the mint named
/// is refused as a mint mismatch.
pub proof fn lemma_mint_mismatch(
    l: LedgerView,
    sigs: Set<Seq<u8>>,
    signer: AccountRef,
    mint: Seq<u8>,
    source: Seq<u8>,
    destination: Seq<u8>,
    amount: u64,
)
    requires
        signed(sigs, signer),
        l.tokens.contains_key(source),
        l.tokens.contains_key(destination),
        l.tokens[source].mint@ != mint || l.tokens[destination].mint@ != mint,
    ensures
        fungible_outcome(l, sigs, signer, mint, source, destination, amount) == Err::<LedgerView, TransferError>(
            TransferError::MintMismatch,
        ),
{
}

/// A payment into a derived account that does not exist yet creates it,
/// owned by this program and without storage, charges the sender the
/// creation cost and the amount, and leaves every other account as it was.
pub proof fn lemma_to_pda_creates(
    l: LedgerView,
    program: Address,
    sigs: Set<Seq<u8>>,
    source: AccountRef,
    destination: AccountRef,
    amount: u64,
)
    requires
        signed(sigs, source),
        derivation_failure(program@, destination, pda_seeds(source.address@)).is_none(),
        source.address@ != destination.address@,
        !l.native.contains_key(destination.address@),
        l.balance(source.address@) >= l.creation_cost + amount,
        l.creation_cost + amount <= u64::MAX,
    ensures
        ({
            let r = to_derived_outcome(l, program, sigs, source, destination, amount);
            let s = source.address@;
            let d = destination.address@;
            &&& r is Ok
            &&& r->Ok_0.native.contains_key(d)
            &&& r->Ok_0.native[d] == (NativeAccount {
                lamports: (l.creation_cost + amount) as u64,
                space: 0,
                owner: AccountOwner::Program(program),
            })
            &&& r->Ok_0.balance(s) == l.balance(s) - l.creation_cost - amount
            &&& forall|a: Seq<u8>| a != s && a != d ==> #[trigger] r->Ok_0.balance(a) == l.balance(a)
        }),
{
}

/// A payment into a derived account that exists already creates nothing and
/// charges no creation cost: it is a plain transfer from the sender.
pub proof fn lemma_to_pda_existing(
    l: LedgerView,
    program: Address,
    sigs: Set<Seq<u8>>,
    source: AccountRef,
    destination: AccountRef,
    amount: u64,
)
    requires
        signed(sigs, source),
        derivation_failure(program@, destination, pda_seeds(source.address@)).is_none(),
        source.address@ != destination.address@,
        l.native.contains_key(destination.address@),
    ensures
        to_derived_outcome(l, program, sigs, source, destination, amount) == l.after_transfer(
            source.address@,
            destination.address@,
            amount,
        ),
{
}

/// Whether a payment into a derived account is accepted as going to the
/// sender's derived account depends on the sender's key, the recipient and
/// the program alone: not on balances, amounts or other signatures.
pub proof fn lemma_to_pda_acceptance_deterministic(
    l1: LedgerView,
    l2: LedgerView,
    program: Address,
    sigs1: Set<Seq<u8>>,
    sigs2: Set<Seq<u8>>,
    source: AccountRef,
    destination: AccountRef,
    amount1: u64,
    amount2: u64,
)
    requires
        signed(sigs1, source),
        signed(sigs2, source),
    ensures
        (to_derived_outcome(l1, program, sigs1, source, destination, amount1) == Err::<LedgerView, TransferError>(
            TransferError::InvalidDerivation,
        )) <==> (to_derived_outcome(l2, program, sigs2, source, destination, amount2) == Err::<
            LedgerView,
            TransferError,
        >(TransferError::InvalidDerivation)),
{
}

/// A payment out of a derived account to its recipient that succeeds lowers
/// the derived account's balance by exactly the amount and raises the
/// recipient's by exactly the amount.
pub proof fn lemma_from_pda_exact(
    l: LedgerView,
    program: Address,
    source: AccountRef,
    destination: AccountRef,
    amount: u64,
)
    requires
        from_derived_outcome(l, program, source, destination, amount) is Ok,
    ensures
        ({
            let after = from_derived_outcome(l, program, source, destination, amount)->Ok_0;
            &&& source.address@ != destination.address@
            &&& after.balance(source.address@) == l.balance(source.address@) - amount
            &&& after.balance(destination.address@) == l.balance(destination.address@) + amount
        }),
{
}
} // verus!
