use anchor_lang::solana_program::pubkey::Pubkey;
use solana_transfers::address::Address;
use solana_transfers::authority::{AccountClass, AccountRef, SignatureSet};
use solana_transfers::derivation::{Derivation, ProgramConfig};
use solana_transfers::error::TransferError;
use solana_transfers::ledger::{AccountOwner, Ledger};
use solana_transfers::transfer::{
    ensure_derived_account, pda_derivation, transfer_sol, transfer_sol_from_pda, transfer_sol_to_pda,
    transfer_tokens, TransferSol, TransferSolFromPDA, TransferSolToPDA, TransferTokens, PDA_NAMESPACE,
};
use std::str::FromStr;

const CREATION_COST: u64 = 890_880;

fn config() -> ProgramConfig {
    let id = Pubkey::from_str("4s2eUn3rBK2y6KSgPgMmkucsPPogxMPbK5HtUNhfV91y").unwrap();
    ProgramConfig { program_id: Address::new(id.to_bytes()) }
}

/// A key on the curve, so one that can sign; distinct tags give distinct keys.
fn signer_key(tag: u8) -> Address {
    let mut bytes = [0u8; 32];
    bytes[0] = tag;
    for b in 0..=255u8 {
        bytes[1] = b;
        if Pubkey::new_from_array(bytes).is_on_curve() {
            return Address::new(bytes);
        }
    }
    panic!("no curve point found");
}

fn plain(tag: u8) -> Address {
    let mut bytes = [0u8; 32];
    bytes[0] = tag;
    bytes[31] = 7;
    Address::new(bytes)
}

fn signer_ref(a: Address) -> AccountRef {
    AccountRef { address: a, class: AccountClass::Signer }
}

fn holder_ref(a: Address) -> AccountRef {
    AccountRef { address: a, class: AccountClass::PlainHolder }
}

fn derived_ref(a: Address) -> AccountRef {
    AccountRef { address: a, class: AccountClass::DerivedAuthority }
}

fn signed_by(keys: &[Address]) -> SignatureSet {
    let mut sigs = SignatureSet::new();
    for k in keys {
        sigs.record(k);
    }
    sigs
}

#[test]
fn native_transfer_moves_exact_amount() {
    let s = signer_key(1);
    let h = plain(2);
    let mut ledger = Ledger::new(CREATION_COST);
    ledger.set_balance(&s, 1000);
    let sigs = signed_by(&[s]);
    let accounts = TransferSol { payer: signer_ref(s), receiver: holder_ref(h) };
    assert_eq!(transfer_sol(&mut ledger, &sigs, &accounts, 400), Ok(()));
    assert_eq!(ledger.balance(&s), 600);
    assert_eq!(ledger.balance(&h), 400);
}

#[test]
fn native_transfer_without_signature_is_refused() {
    let s = signer_key(1);
    let other = signer_key(3);
    let h = plain(2);
    let mut ledger = Ledger::new(CREATION_COST);
    ledger.set_balance(&s, 1000);
    let sigs = signed_by(&[other]);
    let accounts = TransferSol { payer: signer_ref(s), receiver: holder_ref(h) };
    assert_eq!(transfer_sol(&mut ledger, &sigs, &accounts, 400), Err(TransferError::MissingSignature));
    assert_eq!(ledger.balance(&s), 1000);
    assert_eq!(ledger.balance(&h), 0);
    let sigs = signed_by(&[s]);
    let not_signer = TransferSol { payer: holder_ref(s), receiver: holder_ref(h) };
    assert_eq!(transfer_sol(&mut ledger, &sigs, &not_signer, 400), Err(TransferError::MissingSignature));
}

#[test]
fn native_transfer_needs_funds() {
    let s = signer_key(1);
    let h = plain(2);
    let mut ledger = Ledger::new(CREATION_COST);
    ledger.set_balance(&s, 100);
    let sigs = signed_by(&[s]);
    let accounts = TransferSol { payer: signer_ref(s), receiver: holder_ref(h) };
    assert_eq!(transfer_sol(&mut ledger, &sigs, &accounts, 101), Err(TransferError::InsufficientFunds));
    assert_eq!(ledger.balance(&s), 100);
    assert_eq!(transfer_sol(&mut ledger, &sigs, &accounts, 100), Ok(()));
    assert_eq!(ledger.balance(&s), 0);
    assert_eq!(ledger.balance(&h), 100);
}

#[test]
fn native_transfer_refuses_overflow() {
    let s = signer_key(1);
    let h = plain(2);
    let mut ledger = Ledger::new(CREATION_COST);
    ledger.set_balance(&s, 10);
    ledger.set_balance(&h, u64::MAX - 5);
    let sigs = signed_by(&[s]);
    let accounts = TransferSol { payer: signer_ref(s), receiver: holder_ref(h) };
    assert_eq!(transfer_sol(&mut ledger, &sigs, &accounts, 6), Err(TransferError::Overflow));
    assert_eq!(ledger.balance(&s), 10);
    assert_eq!(transfer_sol(&mut ledger, &sigs, &accounts, 5), Ok(()));
    assert_eq!(ledger.balance(&h), u64::MAX);
}

#[test]
fn zero_amount_and_self_transfer_change_nothing() {
    let s = signer_key(1);
    let mut ledger = Ledger::new(CREATION_COST);
    ledger.set_balance(&s, 50);
    let sigs = signed_by(&[s]);
    let accounts = TransferSol { payer: signer_ref(s), receiver: holder_ref(s) };
    assert_eq!(transfer_sol(&mut ledger, &sigs, &accounts, 50), Ok(()));
    assert_eq!(ledger.balance(&s), 50);
    let fresh = plain(8);
    let to_fresh = TransferSol { payer: signer_ref(s), receiver: holder_ref(fresh) };
    assert_eq!(transfer_sol(&mut ledger, &sigs, &to_fresh, 0), Ok(()));
    assert!(!ledger.has_account(&fresh));
    assert_eq!(ledger.balance(&s), 50);
}

#[test]
fn derivation_is_deterministic() {
    let cfg = config();
    let s = signer_key(1);
    let a = solana_transfers::derivation::derive(&cfg, &pda_derivation(&s)).unwrap();
    let b = solana_transfers::derivation::derive(&cfg, &pda_derivation(&s)).unwrap();
    assert_eq!(a.address.bytes, b.address.bytes);
    assert_eq!(a.bump, b.bump);
    assert_ne!(a.address.bytes, cfg.program_id.bytes);
    assert_ne!(a.address.bytes, s.bytes);
    let other = solana_transfers::derivation::derive(&cfg, &pda_derivation(&signer_key(2))).unwrap();
    assert_ne!(a.address.bytes, other.address.bytes);
}

#[test]
fn derivation_matches_the_ledger_runtime() {
    let cfg = config();
    let s = signer_key(1);
    let program = Pubkey::new_from_array(cfg.program_id.bytes);
    let owner = Pubkey::new_from_array(s.bytes);
    let (expected, bump) = Pubkey::find_program_address(&[b"xyzpda", owner.as_ref()], &program);
    let d = solana_transfers::derivation::derive(&cfg, &pda_derivation(&s)).unwrap();
    assert_eq!(d.address.bytes, expected.to_bytes());
    assert_eq!(d.bump, bump);
    assert_eq!(&PDA_NAMESPACE, b"xyzpda");
}

#[test]
fn too_many_seeds_exhaust_derivation() {
    let cfg = config();
    let mut seeds = Vec::new();
    for i in 0..16u8 {
        seeds.push(vec![i]);
    }
    let d = Derivation { namespace: b"xyzpda".to_vec(), seeds };
    assert_eq!(solana_transfers::derivation::derive(&cfg, &d).err(), Some(TransferError::DerivationExhausted));
}

#[test]
fn derived_address_is_off_the_curve() {
    let cfg = config();
    let s = signer_key(1);
    let d = solana_transfers::derivation::derive(&cfg, &pda_derivation(&s)).unwrap();
    assert!(!Pubkey::new_from_array(d.address.bytes).is_on_curve());
    assert!(Pubkey::new_from_array(s.bytes).is_on_curve());
    let sigs = signed_by(&[s, signer_key(4)]);
    assert!(!sigs.contains(&d.address));
    assert!(sigs.contains(&s));
}

#[test]
fn pda_created_funded_and_drained() {
    let cfg = config();
    let s = signer_key(1);
    let mut ledger = Ledger::new(CREATION_COST);
    ledger.set_balance(&s, 10_000_000);
    let sigs = signed_by(&[s]);
    let d = solana_transfers::derivation::derive(&cfg, &pda_derivation(&s)).unwrap();
    assert!(!ledger.has_account(&d.address));
    let into = TransferSolToPDA { sender: signer_ref(s), recipient: derived_ref(d.address) };
    let paid = transfer_sol_to_pda(&mut ledger, &cfg, &sigs, &into, 500).unwrap();
    assert_eq!(paid.address.bytes, d.address.bytes);
    assert_eq!(paid.bump, d.bump);
    assert_eq!(ledger.balance(&d.address), CREATION_COST + 500);
    assert_eq!(ledger.balance(&s), 10_000_000 - CREATION_COST - 500);
    let created = ledger.account(&d.address).unwrap();
    assert_eq!(created.space, 0);
    assert!(matches!(created.owner, AccountOwner::Program(p) if p.bytes == cfg.program_id.bytes));
    // A second payment finds the account in place and creates nothing.
    assert!(transfer_sol_to_pda(&mut ledger, &cfg, &sigs, &into, 100).is_ok());
    assert_eq!(ledger.balance(&d.address), CREATION_COST + 600);
    assert_eq!(ledger.balance(&s), 10_000_000 - CREATION_COST - 600);

    // The derived account pays out on its derivation alone: no signature of it.
    let out = TransferSolFromPDA { pda: derived_ref(d.address), recipient: holder_ref(s) };
    assert_eq!(transfer_sol_from_pda(&mut ledger, &cfg, &out, 500), Ok(()));
    assert_eq!(ledger.balance(&d.address), CREATION_COST + 100);
    assert_eq!(ledger.balance(&s), 10_000_000 - CREATION_COST - 100);

    let forged = solana_transfers::derivation::derive(&cfg, &pda_derivation(&signer_key(9))).unwrap().address;
    ledger.set_balance(&forged, 1000);
    let bad = TransferSolFromPDA { pda: derived_ref(forged), recipient: holder_ref(s) };
    assert_eq!(transfer_sol_from_pda(&mut ledger, &cfg, &bad, 500), Err(TransferError::InvalidDerivation));
    assert_eq!(ledger.balance(&forged), 1000);
    let other_holder = TransferSolFromPDA { pda: derived_ref(d.address), recipient: holder_ref(plain(2)) };
    assert_eq!(transfer_sol_from_pda(&mut ledger, &cfg, &other_holder, 1), Err(TransferError::InvalidDerivation));
}

#[test]
fn pda_payment_checks_recipient_and_funds() {
    let cfg = config();
    let s = signer_key(1);
    let mut ledger = Ledger::new(CREATION_COST);
    ledger.set_balance(&s, CREATION_COST + 10);
    let sigs = signed_by(&[s]);
    let d = solana_transfers::derivation::derive(&cfg, &pda_derivation(&s)).unwrap().address;
    let wrong = TransferSolToPDA { sender: signer_ref(s), recipient: derived_ref(plain(3)) };
    assert_eq!(transfer_sol_to_pda(&mut ledger, &cfg, &sigs, &wrong, 5).err(), Some(TransferError::InvalidDerivation));
    let other = solana_transfers::derivation::derive(&cfg, &pda_derivation(&signer_key(2))).unwrap().address;
    let not_own = TransferSolToPDA { sender: signer_ref(s), recipient: derived_ref(other) };
    assert_eq!(transfer_sol_to_pda(&mut ledger, &cfg, &sigs, &not_own, 5).err(), Some(TransferError::InvalidDerivation));
    let into = TransferSolToPDA { sender: signer_ref(s), recipient: derived_ref(d) };
    // Creation succeeds but the payment does not: nothing at all happens.
    assert_eq!(transfer_sol_to_pda(&mut ledger, &cfg, &sigs, &into, 11).err(), Some(TransferError::InsufficientFunds));
    assert!(!ledger.has_account(&d));
    assert_eq!(ledger.balance(&s), CREATION_COST + 10);
    let unsigned = SignatureSet::new();
    assert_eq!(transfer_sol_to_pda(&mut ledger, &cfg, &unsigned, &into, 1).err(), Some(TransferError::MissingSignature));
}

#[test]
fn pda_payout_needs_funds() {
    let cfg = config();
    let s = signer_key(1);
    let h = plain(2);
    let mut ledger = Ledger::new(CREATION_COST);
    let d = solana_transfers::derivation::derive(&cfg, &pda_derivation(&h)).unwrap().address;
    ledger.set_balance(&d, 10);
    let out = TransferSolFromPDA { pda: derived_ref(d), recipient: holder_ref(h) };
    assert_eq!(transfer_sol_from_pda(&mut ledger, &cfg, &out, 11), Err(TransferError::InsufficientFunds));
    ledger.set_balance(&h, u64::MAX);
    assert_eq!(transfer_sol_from_pda(&mut ledger, &cfg, &out, 10), Err(TransferError::Overflow));
    assert_eq!(ledger.balance(&d), 10);
}

#[test]
fn ensure_derived_account_is_idempotent() {
    let cfg = config();
    let s = signer_key(1);
    let mut ledger = Ledger::new(CREATION_COST);
    ledger.set_balance(&s, 2 * CREATION_COST);
    let sigs = signed_by(&[s]);
    let first = ensure_derived_account(&mut ledger, &cfg, &sigs, &pda_derivation(&s), &signer_ref(s)).unwrap();
    assert_eq!(ledger.balance(&s), CREATION_COST);
    assert_eq!(ledger.balance(&first.address), CREATION_COST);
    let second = ensure_derived_account(&mut ledger, &cfg, &sigs, &pda_derivation(&s), &signer_ref(s)).unwrap();
    assert_eq!(first.address.bytes, second.address.bytes);
    assert_eq!(first.bump, second.bump);
    assert_eq!(ledger.balance(&s), CREATION_COST);
    assert_eq!(ledger.balance(&first.address), CREATION_COST);
}

#[test]
fn create_account_reports_existing_and_unfunded() {
    let s = signer_key(1);
    let a = plain(5);
    let mut ledger = Ledger::new(CREATION_COST);
    ledger.set_balance(&s, CREATION_COST - 1);
    let owner = plain(6);
    assert_eq!(ledger.create_account(&a, &s, &owner), Err(TransferError::InsufficientFunds));
    ledger.set_balance(&s, CREATION_COST);
    assert_eq!(ledger.create_account(&a, &s, &owner), Ok(()));
    assert_eq!(ledger.create_account(&a, &s, &owner), Err(TransferError::AlreadyExists));
    assert_eq!(ledger.balance(&s), 0);
    assert_eq!(ledger.balance(&a), CREATION_COST);
    assert!(matches!(ledger.account(&s).unwrap().owner, AccountOwner::SystemProgram));
}

fn token_ledger(decimals: u8) -> (Ledger, Address, Address, Address, Address) {
    let signer = signer_key(1);
    let mint = plain(10);
    let from = plain(11);
    let to = plain(12);
    let mut ledger = Ledger::new(CREATION_COST);
    ledger.set_mint(&mint, decimals);
    ledger.set_token_account(&from, &mint, &signer, 5_000_000);
    ledger.set_token_account(&to, &mint, &plain(13), 0);
    (ledger, signer, mint, from, to)
}

#[test]
fn token_transfer_moves_exact_amount() {
    let (mut ledger, signer, mint, from, to) = token_ledger(6);
    let sigs = signed_by(&[signer]);
    let accounts =
        TransferTokens { signer: signer_ref(signer), mint, sender_token_account: from, recipient_token_account: to };
    assert_eq!(transfer_tokens(&mut ledger, &sigs, &accounts, 1_000_000), Ok(()));
    assert_eq!(ledger.token_balance(&from), 4_000_000);
    assert_eq!(ledger.token_balance(&to), 1_000_000);
    assert_eq!(ledger.read_mint_decimals(&mint), Some(6));
}

#[test]
fn checked_transfer_refuses_wrong_decimals() {
    let (mut ledger, signer, mint, from, to) = token_ledger(9);
    assert_eq!(
        ledger.checked_transfer(&mint, 2, &from, &to, &signer, 100),
        Err(TransferError::DecimalMismatch)
    );
    assert_eq!(ledger.token_balance(&from), 5_000_000);
    assert_eq!(ledger.checked_transfer(&mint, 9, &from, &to, &signer, 100), Ok(()));
    assert_eq!(ledger.token_balance(&to), 100);
}

#[test]
fn token_transfer_refuses_wrong_mint() {
    let (mut ledger, signer, _mint, from, to) = token_ledger(6);
    let other_mint = plain(20);
    ledger.set_mint(&other_mint, 6);
    let sigs = signed_by(&[signer]);
    let accounts = TransferTokens {
        signer: signer_ref(signer),
        mint: other_mint,
        sender_token_account: from,
        recipient_token_account: to,
    };
    assert_eq!(transfer_tokens(&mut ledger, &sigs, &accounts, 1), Err(TransferError::MintMismatch));
    let unknown = TransferTokens { signer: signer_ref(signer), mint: plain(21), sender_token_account: from, recipient_token_account: to };
    assert_eq!(transfer_tokens(&mut ledger, &sigs, &unknown, 1), Err(TransferError::MintMismatch));
    assert_eq!(ledger.token_balance(&from), 5_000_000);
}

#[test]
fn token_transfer_checks_authority_and_funds() {
    let (mut ledger, signer, mint, from, to) = token_ledger(6);
    let stranger = signer_key(2);
    let sigs = signed_by(&[signer, stranger]);
    let by_stranger =
        TransferTokens { signer: signer_ref(stranger), mint, sender_token_account: from, recipient_token_account: to };
    assert_eq!(transfer_tokens(&mut ledger, &sigs, &by_stranger, 1), Err(TransferError::MissingSignature));
    let unsigned = SignatureSet::new();
    let accounts =
        TransferTokens { signer: signer_ref(signer), mint, sender_token_account: from, recipient_token_account: to };
    assert_eq!(transfer_tokens(&mut ledger, &unsigned, &accounts, 1), Err(TransferError::MissingSignature));
    assert_eq!(transfer_tokens(&mut ledger, &sigs, &accounts, 5_000_001), Err(TransferError::InsufficientFunds));
    ledger.set_token_account(&to, &mint, &plain(13), u64::MAX);
    assert_eq!(transfer_tokens(&mut ledger, &sigs, &accounts, 1), Err(TransferError::Overflow));
    assert_eq!(ledger.token_balance(&from), 5_000_000);
}

#[test]
fn ledger_copy_is_independent() {
    let s = signer_key(1);
    let mut ledger = Ledger::new(CREATION_COST);
    ledger.set_balance(&s, 7);
    let copy = ledger.duplicate();
    assert_eq!(ledger.debit(&s, 3), Ok(()));
    assert_eq!(ledger.credit(&plain(2), 3), Ok(()));
    assert_eq!(ledger.balance(&s), 4);
    assert_eq!(copy.balance(&s), 7);
    assert_eq!(ledger.debit(&s, 5), Err(TransferError::InsufficientFunds));
    assert_eq!(ledger.credit(&s, u64::MAX), Err(TransferError::Overflow));
    assert!(Address::new([3u8; 32]).same(&Address::new([3u8; 32])));
    assert_eq!(Address::new([3u8; 32]).to_vec(), vec![3u8; 32]);
}
