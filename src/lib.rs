//! Value transfers between ledger accounts, authorised either by a signature
//! of the owning key or by a program-derived address that only this program
//! can reproduce.
pub mod address;
pub mod derivation;
pub mod error;
pub mod table;
pub mod ledger;
pub mod authority;
pub mod transfer;
