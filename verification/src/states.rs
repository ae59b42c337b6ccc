//! The data carried by an open escrow: the persistent record, the vault
//! that holds the maker's deposit, and the errors the state machine can
//! signal.

use vstd::prelude::*;

verus! {

/// The persistent escrow record.  It is created by `make`, never mutated,
/// and destroyed by exactly one of `take` or `refund`.
#[derive(Clone, Copy, PartialEq, Eq, Structural, Debug)]
pub struct Escrow {
    /// Maker-chosen nonce; it lets one maker keep several escrows open at
    /// once, since the record's address is derived from (maker, seed).
    pub seed: u64,
    /// Identity of the party who created the escrow and may cancel it.
    pub maker: u64,
    /// Asset type deposited by the maker and held in the vault.
    pub mint_a: u64,
    /// Asset type the maker wants in return.
    pub mint_b: u64,
    /// Quantity of `mint_b` a taker must pay to unlock the vault.
    pub receive_amount: u64,
    /// Derivation parameter that lets the record itself act as the signing
    /// authority over its vault.
    pub bump: u8,
}

/// The deterministic address of an escrow record: a pure function of the
/// maker's identity and the maker-chosen seed.
#[derive(Clone, Copy, PartialEq, Eq, Structural, Debug)]
pub struct RecordAddress {
    pub maker: u64,
    pub seed: u64,
}

/// A live escrow: the immutable record together with the balance of the
/// vault it controls.  The two are created together by `make` and
/// destroyed together by `take` or `refund`; neither outlives the other.
#[derive(Clone, Copy, PartialEq, Eq, Structural, Debug)]
pub struct OpenEscrow {
    pub record: Escrow,
    /// Units of `record.mint_a` held in the vault for the record's
    /// entire lifetime.
    pub vault: u64,
}

/// Every way an escrow operation can fail.  Each failure aborts the whole
/// call with no state change.
#[derive(Clone, Copy, PartialEq, Eq, Structural, Debug)]
pub enum EscrowError {
    /// A record already lives at the address derived from (maker, seed).
    RecordAlreadyExists,
    /// No record lives at the given address (never created, or already
    /// closed by `take` or `refund`).
    RecordNotFound,
    /// The caller lacks the required authority, e.g. a refund requested
    /// by someone other than the maker.
    Unauthorized,
    /// A ledger transfer would overdraw the payer's balance.
    InsufficientFunds,
    /// The ledger rejected a transfer for any other reason, e.g. the
    /// recipient's balance would overflow.
    TransferRejected,
    /// Malformed request parameters, e.g. identical asset types for the
    /// two sides of the swap.
    InvalidParameters,
}

/// The derivation parameter stored in a record so that the record itself,
/// not the maker, is the authority over its vault.  A pure function of the
/// same inputs as the record's address.
pub open spec fn spec_authority_bump(maker: u64, seed: u64) -> u8 {
    ((maker ^ seed) % 256) as u8
}

/// Computes the vault-authority derivation parameter for a record at
/// address (maker, seed).
pub fn authority_bump(maker: u64, seed: u64) -> (bump: u8)
    ensures
        bump == spec_authority_bump(maker, seed),
{
    ((maker ^ seed) % 256) as u8
}

} // verus!
