use vstd::prelude::*;

verus! {

/// Every way in which a request can be refused.
#[derive(Clone, Copy, Debug, PartialEq, Eq, Structural)]
pub enum TransferError {
    /// The account that must sign did not sign the request.
    MissingSignature,
    /// The presented address is not the one derived from the expected seeds.
    InvalidDerivation,
    /// The debited account holds less than the amount.
    InsufficientFunds,
    /// The credited balance would exceed the largest representable amount.
    Overflow,
    /// A token account, or the mint named, is not of the asset being moved.
    MintMismatch,
    /// The decimals given are not those that the mint declares.
    DecimalMismatch,
    /// The account to be created exists already.
    AlreadyExists,
    /// No bump places the derived address off the curve.
    DerivationExhausted,
}

} // verus!
