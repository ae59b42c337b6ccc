//! End-to-end scenarios for the escrow state machine: opening an escrow,
//! completing the swap, cancelling it, and every way each call can fail.

use escrow::machine::EscrowState;
use escrow::states::{authority_bump, Escrow, EscrowError, RecordAddress};

const MAKER: u64 = 1;
const TAKER: u64 = 2;
const STRANGER: u64 = 3;
const ASSET_A: u64 = 10;
const ASSET_B: u64 = 20;

fn open_escrow(maker_funds: u64, seed: u64, receive: u64, deposit: u64) -> EscrowState {
    let mut s = EscrowState::new();
    assert_eq!(s.fund(MAKER, ASSET_A, maker_funds), Ok(()));
    assert_eq!(
        s.make(MAKER, seed, ASSET_A, ASSET_B, receive, deposit),
        Ok(RecordAddress { maker: MAKER, seed })
    );
    s
}

#[test]
fn make_creates_record_and_moves_deposit() {
    let s = open_escrow(100, 7, 50, 100);
    assert_eq!(s.balance_of(MAKER, ASSET_A), 0);
    assert_eq!(s.vault_of(MAKER, 7), 100);
    assert_eq!(
        s.record_of(MAKER, 7),
        Some(Escrow {
            seed: 7,
            maker: MAKER,
            mint_a: ASSET_A,
            mint_b: ASSET_B,
            receive_amount: 50,
            bump: authority_bump(MAKER, 7),
        })
    );
}

#[test]
fn make_leaves_unrelated_balances_alone() {
    let mut s = EscrowState::new();
    assert_eq!(s.fund(MAKER, ASSET_A, 100), Ok(()));
    assert_eq!(s.fund(MAKER, ASSET_B, 11), Ok(()));
    assert_eq!(s.fund(TAKER, ASSET_A, 22), Ok(()));
    assert_eq!(s.make(MAKER, 7, ASSET_A, ASSET_B, 50, 60), Ok(RecordAddress { maker: MAKER, seed: 7 }));
    assert_eq!(s.balance_of(MAKER, ASSET_A), 40);
    assert_eq!(s.balance_of(MAKER, ASSET_B), 11);
    assert_eq!(s.balance_of(TAKER, ASSET_A), 22);
}

#[test]
fn second_make_with_same_pair_fails() {
    let mut s = open_escrow(200, 7, 50, 100);
    assert_eq!(
        s.make(MAKER, 7, ASSET_A, ASSET_B, 1, 1),
        Err(EscrowError::RecordAlreadyExists)
    );
    // The failed call changed nothing.
    assert_eq!(s.balance_of(MAKER, ASSET_A), 100);
    assert_eq!(s.vault_of(MAKER, 7), 100);
}

#[test]
fn make_with_identical_assets_is_rejected() {
    let mut s = EscrowState::new();
    assert_eq!(s.fund(MAKER, ASSET_A, 100), Ok(()));
    assert_eq!(
        s.make(MAKER, 7, ASSET_A, ASSET_A, 50, 100),
        Err(EscrowError::InvalidParameters)
    );
    assert_eq!(s.record_of(MAKER, 7), None);
    assert_eq!(s.balance_of(MAKER, ASSET_A), 100);
}

#[test]
fn make_overdraw_is_rejected() {
    let mut s = EscrowState::new();
    assert_eq!(s.fund(MAKER, ASSET_A, 99), Ok(()));
    assert_eq!(
        s.make(MAKER, 7, ASSET_A, ASSET_B, 50, 100),
        Err(EscrowError::InsufficientFunds)
    );
    assert_eq!(s.record_of(MAKER, 7), None);
    assert_eq!(s.balance_of(MAKER, ASSET_A), 99);
}

#[test]
fn full_swap_example() {
    // Maker M deposits 100 units of asset A, requests 50 units of asset B,
    // seed 7; taker T holds 50 B and takes the offer.
    let mut s = open_escrow(100, 7, 50, 100);
    assert_eq!(s.fund(TAKER, ASSET_B, 50), Ok(()));
    assert_eq!(s.vault_of(MAKER, 7), 100);
    assert_eq!(s.take(TAKER, MAKER, 7), Ok(()));
    assert_eq!(s.balance_of(MAKER, ASSET_B), 50);
    assert_eq!(s.balance_of(TAKER, ASSET_A), 100);
    assert_eq!(s.balance_of(TAKER, ASSET_B), 0);
    assert_eq!(s.record_of(MAKER, 7), None);
    assert_eq!(s.vault_of(MAKER, 7), 0);
    // The record was consumed: any further take or refund fails.
    assert_eq!(s.take(TAKER, MAKER, 7), Err(EscrowError::RecordNotFound));
    assert_eq!(s.refund(MAKER, MAKER, 7), Err(EscrowError::RecordNotFound));
    assert_eq!(s.balance_of(MAKER, ASSET_B), 50);
    assert_eq!(s.balance_of(TAKER, ASSET_A), 100);
}

#[test]
fn take_without_funds_is_rejected() {
    let mut s = open_escrow(100, 7, 50, 100);
    assert_eq!(s.fund(TAKER, ASSET_B, 49), Ok(()));
    assert_eq!(s.take(TAKER, MAKER, 7), Err(EscrowError::InsufficientFunds));
    // The failed call changed nothing.
    assert_eq!(s.balance_of(TAKER, ASSET_B), 49);
    assert_eq!(s.vault_of(MAKER, 7), 100);
    assert!(s.record_of(MAKER, 7).is_some());
}

#[test]
fn take_on_missing_record_is_rejected() {
    let mut s = EscrowState::new();
    assert_eq!(s.take(TAKER, MAKER, 7), Err(EscrowError::RecordNotFound));
}

#[test]
fn take_overflowing_the_maker_is_rejected() {
    let mut s = open_escrow(100, 7, 50, 100);
    assert_eq!(s.fund(MAKER, ASSET_B, u64::MAX), Ok(()));
    assert_eq!(s.fund(TAKER, ASSET_B, 50), Ok(()));
    assert_eq!(s.take(TAKER, MAKER, 7), Err(EscrowError::TransferRejected));
    // The failed call changed nothing.
    assert_eq!(s.balance_of(MAKER, ASSET_B), u64::MAX);
    assert_eq!(s.balance_of(TAKER, ASSET_B), 50);
    assert_eq!(s.vault_of(MAKER, 7), 100);
}

#[test]
fn maker_may_take_their_own_offer() {
    let mut s = open_escrow(100, 7, 50, 100);
    assert_eq!(s.fund(MAKER, ASSET_B, 50), Ok(()));
    assert_eq!(s.take(MAKER, MAKER, 7), Ok(()));
    // Paying the receive amount to oneself leaves asset B alone; the vault
    // comes back as asset A.
    assert_eq!(s.balance_of(MAKER, ASSET_B), 50);
    assert_eq!(s.balance_of(MAKER, ASSET_A), 100);
    assert_eq!(s.record_of(MAKER, 7), None);
}

#[test]
fn give_away_escrow_with_zero_receive_amount() {
    let mut s = open_escrow(100, 7, 0, 100);
    assert_eq!(s.take(TAKER, MAKER, 7), Ok(()));
    assert_eq!(s.balance_of(TAKER, ASSET_A), 100);
    assert_eq!(s.balance_of(MAKER, ASSET_B), 0);
    assert_eq!(s.record_of(MAKER, 7), None);
}

#[test]
fn empty_deposit_escrow() {
    let mut s = open_escrow(100, 7, 50, 0);
    assert_eq!(s.balance_of(MAKER, ASSET_A), 100);
    assert_eq!(s.vault_of(MAKER, 7), 0);
    assert_eq!(s.fund(TAKER, ASSET_B, 50), Ok(()));
    assert_eq!(s.take(TAKER, MAKER, 7), Ok(()));
    assert_eq!(s.balance_of(TAKER, ASSET_A), 0);
    assert_eq!(s.balance_of(MAKER, ASSET_B), 50);
}

#[test]
fn refund_restores_the_maker() {
    let mut s = open_escrow(100, 7, 50, 100);
    assert_eq!(s.balance_of(MAKER, ASSET_A), 0);
    assert_eq!(s.refund(MAKER, MAKER, 7), Ok(()));
    assert_eq!(s.balance_of(MAKER, ASSET_A), 100);
    assert_eq!(s.record_of(MAKER, 7), None);
    assert_eq!(s.vault_of(MAKER, 7), 0);
}

#[test]
fn refund_by_stranger_is_rejected() {
    let mut s = open_escrow(100, 7, 50, 100);
    assert_eq!(s.refund(STRANGER, MAKER, 7), Err(EscrowError::Unauthorized));
    // The failed call changed nothing.
    assert!(s.record_of(MAKER, 7).is_some());
    assert_eq!(s.vault_of(MAKER, 7), 100);
    assert_eq!(s.balance_of(MAKER, ASSET_A), 0);
    assert_eq!(s.balance_of(STRANGER, ASSET_A), 0);
}

#[test]
fn second_refund_is_rejected() {
    let mut s = open_escrow(100, 7, 50, 100);
    assert_eq!(s.refund(MAKER, MAKER, 7), Ok(()));
    assert_eq!(s.refund(MAKER, MAKER, 7), Err(EscrowError::RecordNotFound));
    assert_eq!(s.balance_of(MAKER, ASSET_A), 100);
}

#[test]
fn refund_on_missing_record_is_rejected() {
    let mut s = EscrowState::new();
    assert_eq!(s.refund(MAKER, MAKER, 7), Err(EscrowError::RecordNotFound));
}

#[test]
fn funding_cannot_overflow_an_account() {
    let mut s = EscrowState::new();
    assert_eq!(s.fund(MAKER, ASSET_A, u64::MAX), Ok(()));
    assert_eq!(s.fund(MAKER, ASSET_A, 1), Err(EscrowError::TransferRejected));
    assert_eq!(s.balance_of(MAKER, ASSET_A), u64::MAX);
}

#[test]
fn one_maker_can_keep_several_escrows_open() {
    let mut s = EscrowState::new();
    assert_eq!(s.fund(MAKER, ASSET_A, 30), Ok(()));
    assert_eq!(
        s.make(MAKER, 1, ASSET_A, ASSET_B, 5, 10),
        Ok(RecordAddress { maker: MAKER, seed: 1 })
    );
    assert_eq!(
        s.make(MAKER, 2, ASSET_A, ASSET_B, 6, 20),
        Ok(RecordAddress { maker: MAKER, seed: 2 })
    );
    assert_eq!(s.vault_of(MAKER, 1), 10);
    assert_eq!(s.vault_of(MAKER, 2), 20);
    assert_eq!(s.balance_of(MAKER, ASSET_A), 0);
    // Closing one escrow leaves the other open.
    assert_eq!(s.refund(MAKER, MAKER, 1), Ok(()));
    assert_eq!(s.balance_of(MAKER, ASSET_A), 10);
    assert_eq!(s.vault_of(MAKER, 2), 20);
    assert!(s.record_of(MAKER, 2).is_some());
}
