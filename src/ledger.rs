use vstd::prelude::*;
use crate::address::Address;
use crate::error::TransferError;
use crate::table::AccountTable;

verus! {

/// A token-holding account: the asset it holds, the key that may move it, and
/// how many base units it holds.
#[derive(Clone, Copy, Debug)]
pub struct TokenAccount {
    pub mint: Address,
    pub owner: Address,
    pub amount: u64,
}

/// The program that owns a native account.
#[derive(Clone, Copy, Debug)]
pub enum AccountOwner {
    /// The ledger's own system program: a plain wallet.
    SystemProgram,
    /// The program with this identity.
    Program(Address),
}

/// A native account: its balance, its allocated storage and its owner.
#[derive(Clone, Copy, Debug)]
pub struct NativeAccount {
    pub lamports: u64,
    pub space: u64,
    pub owner: AccountOwner,
}

/// What the ledger holds, as maps from address.
pub struct LedgerView {
    /// Every native account that exists.
    pub native: Map<Seq<u8>, NativeAccount>,
    /// Every token account.
    pub tokens: Map<Seq<u8>, TokenAccount>,
    /// Declared decimals of every mint.
    pub mints: Map<Seq<u8>, u8>,
    /// What creating an account with no storage costs its payer.
    pub creation_cost: u64,
}

impl LedgerView {
    /// Native balance of `a`; an account that does not exist holds nothing.
    pub open spec fn balance(self, a: Seq<u8>) -> int {
        if self.native.contains_key(a) {
            self.native[a].lamports as int
        } else {
            0
        }
    }

    /// Base units held by token account `a`, nothing if there is none.
    pub open spec fn token_balance(self, a: Seq<u8>) -> int {
        if self.tokens.contains_key(a) {
            self.tokens[a].amount as int
        } else {
            0
        }
    }

    /// The same ledger with native balance `v` at `a`; an account that did
    /// not exist comes into existence as a plain wallet without storage.
    pub open spec fn with_balance(self, a: Seq<u8>, v: int) -> LedgerView {
        let acc = if self.native.contains_key(a) {
            NativeAccount { lamports: v as u64, space: self.native[a].space, owner: self.native[a].owner }
        } else {
            NativeAccount { lamports: v as u64, space: 0, owner: AccountOwner::SystemProgram }
        };
        LedgerView { native: self.native.insert(a, acc), ..self }
    }

    /// The same ledger with token account `a` holding `v` base units.
    pub open spec fn with_token_amount(self, a: Seq<u8>, v: int) -> LedgerView {
        LedgerView {
            tokens: self.tokens.insert(
                a,
                TokenAccount { mint: self.tokens[a].mint, owner: self.tokens[a].owner, amount: v as u64 },
            ),
            ..self
        }
    }

    /// Taking `amount` from `a`.
    pub open spec fn after_debit(self, a: Seq<u8>, amount: u64) -> Result<LedgerView, TransferError> {
        if self.balance(a) < amount {
            Err(TransferError::InsufficientFunds)
        } else if amount == 0 {
            Ok(self)
        } else {
            Ok(self.with_balance(a, self.balance(a) - amount))
        }
    }

    /// Adding `amount` to `a`, which comes into existence if it was not there.
    pub open spec fn after_credit(self, a: Seq<u8>, amount: u64) -> Result<LedgerView, TransferError> {
        if amount == 0 {
            Ok(self)
        } else if self.balance(a) + amount > u64::MAX {
            Err(TransferError::Overflow)
        } else {
            Ok(self.with_balance(a, self.balance(a) + amount))
        }
    }

    /// Moving `amount` from `source` to `destination` as one step.
    pub open spec fn after_transfer(self, source: Seq<u8>, destination: Seq<u8>, amount: u64) -> Result<LedgerView, TransferError> {
        if self.balance(source) < amount {
            Err(TransferError::InsufficientFunds)
        } else if amount == 0 || source == destination {
            Ok(self)
        } else if self.balance(destination) + amount > u64::MAX {
            Err(TransferError::Overflow)
        } else {
            Ok(self.with_balance(source, self.balance(source) - amount).with_balance(
                destination,
                self.balance(destination) + amount,
            ))
        }
    }

    /// Creating account `a`, owned by program `owner`, with no storage; its
    /// cost is paid by `payer` and held by the new account.
    pub open spec fn after_create(self, a: Seq<u8>, payer: Seq<u8>, owner: Address) -> Result<LedgerView, TransferError> {
        if self.native.contains_key(a) {
            Err(TransferError::AlreadyExists)
        } else if self.balance(payer) < self.creation_cost {
            Err(TransferError::InsufficientFunds)
        } else {
            let paid = if self.creation_cost == 0 {
                self
            } else {
                self.with_balance(payer, self.balance(payer) - self.creation_cost)
            };
            Ok(LedgerView {
                native: paid.native.insert(
                    a,
                    NativeAccount { lamports: self.creation_cost, space: 0, owner: AccountOwner::Program(owner) },
                ),
                ..paid
            })
        }
    }

    /// A transfer of `amount` base units of `mint` from token account `source`
    /// to `destination`, on the authority of `authority`, with the caller's
    /// claim that the mint has `decimals` decimals.
    pub open spec fn after_checked_transfer(
        self,
        mint: Seq<u8>,
        decimals: u8,
        source: Seq<u8>,
        destination: Seq<u8>,
        authority: Seq<u8>,
        amount: u64,
    ) -> Result<LedgerView, TransferError> {
        if !self.mints.contains_key(mint) || !self.tokens.contains_key(source) || !self.tokens.contains_key(destination)
            || self.tokens[source].mint@ != mint || self.tokens[destination].mint@ != mint {
            Err(TransferError::MintMismatch)
        } else if self.mints[mint] != decimals {
            Err(TransferError::DecimalMismatch)
        } else if self.tokens[source].owner@ != authority {
            Err(TransferError::MissingSignature)
        } else if self.token_balance(source) < amount {
            Err(TransferError::InsufficientFunds)
        } else if source == destination {
            Ok(self)
        } else if self.token_balance(destination) + amount > u64::MAX {
            Err(TransferError::Overflow)
        } else {
            Ok(self.with_token_amount(source, self.token_balance(source) - amount).with_token_amount(
                destination,
                self.token_balance(destination) + amount,
            ))
        }
    }
}

/// The ledger moved to `outcome` and `r` reports success, or `outcome` is an
/// error, `r` is that error and the ledger is as it was.
pub open spec fn applied<R>(r: Result<R, TransferError>, before: LedgerView, after: LedgerView, outcome: Result<LedgerView, TransferError>) -> bool {
    match outcome {
        Ok(v) => r is Ok && after == v,
        Err(e) => r == Err::<R, TransferError>(e) && after == before,
    }
}

/// Balances of native accounts, token accounts and mints.
pub struct Ledger {
    native: AccountTable<NativeAccount>,
    tokens: AccountTable<TokenAccount>,
    mints: AccountTable<u8>,
    creation_cost: u64,
}

impl View for Ledger {
    type V = LedgerView;

    closed spec fn view(&self) -> LedgerView {
        LedgerView { native: self.native@, tokens: self.tokens@, mints: self.mints@, creation_cost: self.creation_cost }
    }
}

impl Ledger {
    /// Well-formed: each table holds each address once.
    pub closed spec fn wf(&self) -> bool {
        self.native.wf() && self.tokens.wf() && self.mints.wf()
    }

    /// An empty ledger in which creating an account costs `creation_cost`.
    pub fn new(creation_cost: u64) -> (r: Ledger)
        ensures
            r.wf(),
            r@.native == Map::<Seq<u8>, NativeAccount>::empty(),
            r@.tokens == Map::<Seq<u8>, TokenAccount>::empty(),
            r@.mints == Map::<Seq<u8>, u8>::empty(),
            r@.creation_cost == creation_cost,
    {
        Ledger { native: AccountTable::new(), tokens: AccountTable::new(), mints: AccountTable::new(), creation_cost }
    }

    /// An independent copy of the ledger.
    pub fn duplicate(&self) -> (r: Ledger)
        requires
            self.wf(),
        ensures
            r.wf(),
            r@ == self@,
    {
        Ledger {
            native: self.native.duplicate(),
            tokens: self.tokens.duplicate(),
            mints: self.mints.duplicate(),
            creation_cost: self.creation_cost,
        }
    }

    /// Native balance of `a`.
    pub fn balance(&self, a: &Address) -> (r: u64)
        requires
            self.wf(),
        ensures
            r == self@.balance(a@),
    {
        match self.native.get(a) {
            Some(acc) => acc.lamports,
            None => 0,
        }
    }

    /// Whether account `a` exists.
    pub fn has_account(&self, a: &Address) -> (r: bool)
        requires
            self.wf(),
        ensures
            r == self@.native.contains_key(a@),
    {
        self.native.get(a).is_some()
    }

    /// Sets the native balance of `a`, creating the account if needed.
    pub fn set_balance(&mut self, a: &Address, lamports: u64)
        requires
            old(self).wf(),
        ensures
            final(self).wf(),
            final(self)@ == old(self)@.with_balance(a@, lamports as int),
    {
        match self.native.get(a) {
            Some(acc) => self.native.set(a, NativeAccount { lamports, space: acc.space, owner: acc.owner }),
            None => self.native.set(a, NativeAccount { lamports, space: 0, owner: AccountOwner::SystemProgram }),
        }
    }

    /// The native account at `a`, if it exists.
    pub fn account(&self, a: &Address) -> (r: Option<NativeAccount>)
        requires
            self.wf(),
        ensures
            match r {
                Some(acc) => self@.native.contains_key(a@) && acc == self@.native[a@],
                None => !self@.native.contains_key(a@),
            },
    {
        self.native.get(a)
    }

    /// Declares mint `mint` with `decimals` decimals.
    pub fn set_mint(&mut self, mint: &Address, decimals: u8)
        requires
            old(self).wf(),
        ensures
            final(self).wf(),
            final(self)@ == (LedgerView { mints: old(self)@.mints.insert(mint@, decimals), ..old(self)@ }),
    {
        self.mints.set(mint, decimals);
    }

    /// Sets token account `a` to hold `amount` of `mint` under `owner`.
    pub fn set_token_account(&mut self, a: &Address, mint: &Address, owner: &Address, amount: u64)
        requires
            old(self).wf(),
        ensures
            final(self).wf(),
            final(self)@ == (LedgerView {
                tokens: old(self)@.tokens.insert(a@, TokenAccount { mint: *mint, owner: *owner, amount }),
                ..old(self)@
            }),
    {
        self.tokens.set(a, TokenAccount { mint: *mint, owner: *owner, amount });
    }

    /// Base units held by token account `a`; nothing if there is no such account.
    pub fn token_balance(&self, a: &Address) -> (r: u64)
        requires
            self.wf(),
        ensures
            r == self@.token_balance(a@),
    {
        match self.tokens.get(a) {
            Some(t) => t.amount,
            None => 0,
        }
    }

    /// The decimals that `mint` declares, if the mint exists.
    pub fn read_mint_decimals(&self, mint: &Address) -> (r: Option<u8>)
        requires
            self.wf(),
        ensures
            match r {
                Some(d) => self@.mints.contains_key(mint@) && d == self@.mints[mint@],
                None => !self@.mints.contains_key(mint@),
            },
    {
        self.mints.get(mint)
    }

    /// Takes `amount` from `a`.
    pub fn debit(&mut self, a: &Address, amount: u64) -> (r: Result<(), TransferError>)
        requires
            old(self).wf(),
        ensures
            final(self).wf(),
            applied(r, old(self)@, final(self)@, old(self)@.after_debit(a@, amount)),
    {
        let b = self.balance(a);
        if b < amount {
            return Err(TransferError::InsufficientFunds);
        }
        if amount == 0 {
            return Ok(());
        }
        self.set_balance(a, b - amount);
        Ok(())
    }

    /// Adds `amount` to `a`.
    pub fn credit(&mut self, a: &Address, amount: u64) -> (r: Result<(), TransferError>)
        requires
            old(self).wf(),
        ensures
            final(self).wf(),
            applied(r, old(self)@, final(self)@, old(self)@.after_credit(a@, amount)),
    {
        if amount == 0 {
            return Ok(());
        }
        let b = self.balance(a);
        if b > u64::MAX - amount {
            return Err(TransferError::Overflow);
        }
        self.set_balance(a, b + amount);
        Ok(())
    }

    /// Moves `amount` from `source` to `destination`, wholly or not at all.
    pub fn atomic_transfer(&mut self, source: &Address, destination: &Address, amount: u64) -> (r: Result<(), TransferError>)
        requires
            old(self).wf(),
        ensures
            final(self).wf(),
            applied(r, old(self)@, final(self)@, old(self)@.after_transfer(source@, destination@, amount)),
    {
        let bs = self.balance(source);
        if bs < amount {
            return Err(TransferError::InsufficientFunds);
        }
        if amount == 0 || source.same(destination) {
            return Ok(());
        }
        let bd = self.balance(destination);
        if bd > u64::MAX - amount {
            return Err(TransferError::Overflow);
        }
        self.set_balance(source, bs - amount);
        self.set_balance(destination, bd + amount);
        Ok(())
    }

    /// Creates account `a`, owned by program `owner`, with no storage;
    /// `payer` pays the creation cost.
    pub fn create_account(&mut self, a: &Address, payer: &Address, owner: &Address) -> (r: Result<(), TransferError>)
        requires
            old(self).wf(),
        ensures
            final(self).wf(),
            applied(r, old(self)@, final(self)@, old(self)@.after_create(a@, payer@, *owner)),
    {
        if self.has_account(a) {
            return Err(TransferError::AlreadyExists);
        }
        let bp = self.balance(payer);
        if bp < self.creation_cost {
            return Err(TransferError::InsufficientFunds);
        }
        if self.creation_cost > 0 {
            self.set_balance(payer, bp - self.creation_cost);
        }
        self.native.set(a, NativeAccount { lamports: self.creation_cost, space: 0, owner: AccountOwner::Program(*owner) });
        Ok(())
    }

    /// Moves `amount` base units of `mint` between two token accounts after
    /// checking the mint of both, the decimals claimed and the authority.
    pub fn checked_transfer(
        &mut self,
        mint: &Address,
        decimals: u8,
        source: &Address,
        destination: &Address,
        authority: &Address,
        amount: u64,
    ) -> (r: Result<(), TransferError>)
        requires
            old(self).wf(),
        ensures
            final(self).wf(),
            applied(r, old(self)@, final(self)@, old(self)@.after_checked_transfer(mint@, decimals, source@, destination@, authority@, amount)),
    {
        let declared = match self.mints.get(mint) {
            Some(d) => d,
            None => return Err(TransferError::MintMismatch),
        };
        let src = match self.tokens.get(source) {
            Some(t) => t,
            None => return Err(TransferError::MintMismatch),
        };
        let dst = match self.tokens.get(destination) {
            Some(t) => t,
            None => return Err(TransferError::MintMismatch),
        };
        if !src.mint.same(mint) || !dst.mint.same(mint) {
            return Err(TransferError::MintMismatch);
        }
        if declared != decimals {
            return Err(TransferError::DecimalMismatch);
        }
        if !src.owner.same(authority) {
            return Err(TransferError::MissingSignature);
        }
        if src.amount < amount {
            return Err(TransferError::InsufficientFunds);
        }
        if source.same(destination) {
            return Ok(());
        }
        if dst.amount > u64::MAX - amount {
            return Err(TransferError::Overflow);
        }
        self.tokens.set(source, TokenAccount { mint: src.mint, owner: src.owner, amount: src.amount - amount });
        self.tokens.set(destination, TokenAccount { mint: dst.mint, owner: dst.owner, amount: dst.amount + amount });
        Ok(())
    }
}

} // verus!
