//! The escrow state machine: `make` opens an escrow by moving the maker's
//! deposit into a record-controlled vault, `take` completes the swap, and
//! `refund` cancels it.  Each executable transition is specified exactly
//! against `EscrowModel`, a mathematical view of the asset ledger and the
//! record store, and every call either performs its whole transition or
//! fails with the documented error and no state change.

use crate::states::{spec_authority_bump, authority_bump, Escrow, EscrowError, OpenEscrow,
    RecordAddress};
use crate::store::Table;
use vstd::prelude::*;

verus! {

/// The balance a partial balance map assigns to (owner, asset): the stored
/// amount, or zero for an account the map has never seen.
pub open spec fn bal_in(b: Map<(u64, u64), u64>, owner: u64, asset: u64) -> u64 {
    if b.contains_key((owner, asset)) {
        b[(owner, asset)]
    } else {
        0
    }
}

/// The mathematical state of the escrow system: every (owner, asset)
/// balance on the ledger, and every open escrow keyed by the address pair
/// (maker, seed) it was derived from.
pub struct EscrowModel {
    pub balances: Map<(u64, u64), u64>,
    pub records: Map<(u64, u64), OpenEscrow>,
}

impl EscrowModel {
    /// The balance of `owner` in `asset`; zero for an untouched account.
    pub open spec fn balance_of(self, owner: u64, asset: u64) -> u64 {
        bal_in(self.balances, owner, asset)
    }

    /// Whether a record lives at the address derived from (maker, seed).
    pub open spec fn has_record(self, maker: u64, seed: u64) -> bool {
        self.records.contains_key((maker, seed))
    }

    /// The open escrow at (maker, seed); meaningful only when `has_record`.
    pub open spec fn open_escrow_of(self, maker: u64, seed: u64) -> OpenEscrow {
        self.records[(maker, seed)]
    }

    /// The record stored at (maker, seed), if one exists.
    pub open spec fn record_of(self, maker: u64, seed: u64) -> Option<Escrow> {
        if self.has_record(maker, seed) {
            Some(self.open_escrow_of(maker, seed).record)
        } else {
            None
        }
    }

    /// The balance of the vault owned by the record at (maker, seed); zero
    /// when no record exists there.
    pub open spec fn vault_of(self, maker: u64, seed: u64) -> u64 {
        if self.has_record(maker, seed) {
            self.open_escrow_of(maker, seed).vault
        } else {
            0
        }
    }

    /// Every stored record is internally consistent: it sits at the address
    /// derived from its own maker and seed, its two asset types differ, and
    /// its vault-authority parameter is the derived one.
    pub open spec fn wf(self) -> bool {
        forall|k: (u64, u64)| #[trigger] self.records.contains_key(k) ==> {
            let r = self.records[k].record;
            r.maker == k.0 && r.seed == k.1 && r.mint_a != r.mint_b && r.bump
                == spec_authority_bump(k.0, k.1)
        }
    }

    /// The error an external credit of `amount` to (owner, asset) signals,
    /// if any: the ledger rejects a credit that would overflow the account.
    pub open spec fn fund_check(self, owner: u64, asset: u64, amount: u64) -> Option<
        EscrowError,
    > {
        if self.balance_of(owner, asset) + amount > u64::MAX {
            Some(EscrowError::TransferRejected)
        } else {
            None
        }
    }

    /// The state after an external credit of `amount` to (owner, asset).
    pub open spec fn fund_model(self, owner: u64, asset: u64, amount: u64) -> EscrowModel {
        if self.fund_check(owner, asset, amount) is Some {
            self
        } else {
            EscrowModel {
                balances: self.balances.insert(
                    (owner, asset),
                    (self.balance_of(owner, asset) + amount) as u64,
                ),
                records: self.records,
            }
        }
    }

    /// What an external credit returns.
    pub open spec fn fund_result(self, owner: u64, asset: u64, amount: u64) -> Result<
        (),
        EscrowError,
    > {
        match self.fund_check(owner, asset, amount) {
            Some(e) => Err(e),
            None => Ok(()),
        }
    }

    /// The error `make` signals, if any, in the order the checks run:
    /// identical asset types, an occupied address, then an overdraw.
    pub open spec fn make_check(
        self,
        maker: u64,
        seed: u64,
        mint_a: u64,
        mint_b: u64,
        deposit_amount: u64,
    ) -> Option<EscrowError> {
        if mint_a == mint_b {
            Some(EscrowError::InvalidParameters)
        } else if self.has_record(maker, seed) {
            Some(EscrowError::RecordAlreadyExists)
        } else if self.balance_of(maker, mint_a) < deposit_amount {
            Some(EscrowError::InsufficientFunds)
        } else {
            None
        }
    }

    /// The state after `make`: on success the record and its vault exist
    /// together, the vault holds exactly the deposit, and the deposit has
    /// left the maker's account; on failure nothing changed.
    pub open spec fn make_model(
        self,
        maker: u64,
        seed: u64,
        mint_a: u64,
        mint_b: u64,
        receive_amount: u64,
        deposit_amount: u64,
    ) -> EscrowModel {
        if self.make_check(maker, seed, mint_a, mint_b, deposit_amount) is Some {
            self
        } else {
            let record = Escrow {
                seed,
                maker,
                mint_a,
                mint_b,
                receive_amount,
                bump: spec_authority_bump(maker, seed),
            };
            EscrowModel {
                balances: self.balances.insert(
                    (maker, mint_a),
                    (self.balance_of(maker, mint_a) - deposit_amount) as u64,
                ),
                records: self.records.insert(
                    (maker, seed),
                    OpenEscrow { record, vault: deposit_amount },
                ),
            }
        }
    }

    /// What `make` returns: the created record's address, or the error.
    pub open spec fn make_result(
        self,
        maker: u64,
        seed: u64,
        mint_a: u64,
        mint_b: u64,
        deposit_amount: u64,
    ) -> Result<RecordAddress, EscrowError> {
        match self.make_check(maker, seed, mint_a, mint_b, deposit_amount) {
            Some(e) => Err(e),
            None => Ok(RecordAddress { maker, seed }),
        }
    }

    /// The error `take` signals, if any, in the order the checks run: a
    /// missing record, the taker short of the receive amount, then either
    /// receiving account overflowing.
    pub open spec fn take_check(self, taker: u64, maker: u64, seed: u64) -> Option<
        EscrowError,
    > {
        if !self.has_record(maker, seed) {
            Some(EscrowError::RecordNotFound)
        } else {
            let oe = self.open_escrow_of(maker, seed);
            let r = oe.record;
            if self.balance_of(taker, r.mint_b) < r.receive_amount {
                Some(EscrowError::InsufficientFunds)
            } else if taker != r.maker && self.balance_of(r.maker, r.mint_b) + r.receive_amount
                > u64::MAX {
                Some(EscrowError::TransferRejected)
            } else if self.balance_of(taker, r.mint_a) + oe.vault > u64::MAX {
                Some(EscrowError::TransferRejected)
            } else {
                None
            }
        }
    }

    /// The state after `take`: on success the taker has paid the receive
    /// amount to the maker, the whole vault has gone to the taker, and the
    /// record and vault are destroyed together; on failure nothing changed.
    pub open spec fn take_model(self, taker: u64, maker: u64, seed: u64) -> EscrowModel {
        if self.take_check(taker, maker, seed) is Some {
            self
        } else {
            let oe = self.open_escrow_of(maker, seed);
            let r = oe.record;
            let b0 = self.balances;
            let b1 = if taker == r.maker {
                b0
            } else {
                b0.insert(
                    (taker, r.mint_b),
                    (bal_in(b0, taker, r.mint_b) - r.receive_amount) as u64,
                ).insert(
                    (r.maker, r.mint_b),
                    (bal_in(b0, r.maker, r.mint_b) + r.receive_amount) as u64,
                )
            };
            let b2 = b1.insert((taker, r.mint_a), (bal_in(b1, taker, r.mint_a) + oe.vault) as u64);
            EscrowModel { balances: b2, records: self.records.remove((maker, seed)) }
        }
    }

    /// What `take` returns.
    pub open spec fn take_result(self, taker: u64, maker: u64, seed: u64) -> Result<
        (),
        EscrowError,
    > {
        match self.take_check(taker, maker, seed) {
            Some(e) => Err(e),
            None => Ok(()),
        }
    }

    /// The error `refund` signals, if any, in the order the checks run: a
    /// missing record, a caller other than the maker, then the maker's
    /// account overflowing.
    pub open spec fn refund_check(self, caller: u64, maker: u64, seed: u64) -> Option<
        EscrowError,
    > {
        if !self.has_record(maker, seed) {
            Some(EscrowError::RecordNotFound)
        } else {
            let oe = self.open_escrow_of(maker, seed);
            let r = oe.record;
            if caller != r.maker {
                Some(EscrowError::Unauthorized)
            } else if self.balance_of(r.maker, r.mint_a) + oe.vault > u64::MAX {
                Some(EscrowError::TransferRejected)
            } else {
                None
            }
        }
    }

    /// The state after `refund`: on success the whole vault has returned to
    /// the maker and the record and vault are destroyed together; on
    /// failure nothing changed.
    pub open spec fn refund_model(self, caller: u64, maker: u64, seed: u64) -> EscrowModel {
        if self.refund_check(caller, maker, seed) is Some {
            self
        } else {
            let oe = self.open_escrow_of(maker, seed);
            let r = oe.record;
            EscrowModel {
                balances: self.balances.insert(
                    (r.maker, r.mint_a),
                    (bal_in(self.balances, r.maker, r.mint_a) + oe.vault) as u64,
                ),
                records: self.records.remove((maker, seed)),
            }
        }
    }

    /// What `refund` returns.
    pub open spec fn refund_result(self, caller: u64, maker: u64, seed: u64) -> Result<
        (),
        EscrowError,
    > {
        match self.refund_check(caller, maker, seed) {
            Some(e) => Err(e),
            None => Ok(()),
        }
    }
}

/// The executable escrow system: the asset ledger and the record store,
/// viewed in specifications as an `EscrowModel`.
pub struct EscrowState {
    pub ledger: Table<u64>,
    pub records: Table<OpenEscrow>,
}

impl View for EscrowState {
    type V = EscrowModel;

    open spec fn view(&self) -> EscrowModel {
        EscrowModel { balances: self.ledger@, records: self.records@ }
    }
}

impl EscrowState {
    /// The representation invariant: both tables are well formed and every
    /// stored record is internally consistent.
    pub open spec fn wf(self) -> bool {
        self.ledger.wf() && self.records.wf() && self@.wf()
    }

    /// A fresh system: no balances, no records.
    pub fn new() -> (s: EscrowState)
        ensures
            s.wf(),
            s@.balances == Map::<(u64, u64), u64>::empty(),
            s@.records == Map::<(u64, u64), OpenEscrow>::empty(),
    {
        let s = EscrowState { ledger: Table::new(), records: Table::new() };
        proof {
            assert(forall|k: (u64, u64)| !s@.records.contains_key(k));
        }
        s
    }

    /// The balance of `owner` in `asset`.
    pub fn balance_of(&self, owner: u64, asset: u64) -> (r: u64)
        requires
            self.wf(),
        ensures
            r == self@.balance_of(owner, asset),
    {
        match self.ledger.get(owner, asset) {
            Some(v) => v,
            None => 0,
        }
    }

    /// The record stored at the address derived from (maker, seed), if any.
    pub fn record_of(&self, maker: u64, seed: u64) -> (r: Option<Escrow>)
        requires
            self.wf(),
        ensures
            r == self@.record_of(maker, seed),
    {
        match self.records.get(maker, seed) {
            Some(oe) => Some(oe.record),
            None => None,
        }
    }

    /// The balance of the vault owned by the record at (maker, seed); zero
    /// when no record exists there.
    pub fn vault_of(&self, maker: u64, seed: u64) -> (r: u64)
        requires
            self.wf(),
        ensures
            r == self@.vault_of(maker, seed),
    {
        match self.records.get(maker, seed) {
            Some(oe) => oe.vault,
            None => 0,
        }
    }

    /// An external credit to (owner, asset): the ledger collaborator's own
    /// deposit operation, by which accounts are funded from outside the
    /// escrow system.
    pub fn fund(&mut self, owner: u64, asset: u64, amount: u64) -> (r: Result<(), EscrowError>)
        requires
            old(self).wf(),
        ensures
            final(self).wf(),
            final(self)@ == old(self)@.fund_model(owner, asset, amount),
            r == old(self)@.fund_result(owner, asset, amount),
    {
        let b = self.balance_of(owner, asset);
        if amount > u64::MAX - b {
            return Err(EscrowError::TransferRejected);
        }
        self.ledger.upsert(owner, asset, b + amount);
        proof {
            assert forall|k: (u64, u64)| #[trigger] self@.records.contains_key(k) implies {
                let r = self@.records[k].record;
                r.maker == k.0 && r.seed == k.1 && r.mint_a != r.mint_b && r.bump
                    == spec_authority_bump(k.0, k.1)
            } by {
                assert(old(self)@.records.contains_key(k));
            }
        }
        Ok(())
    }

    /// Allocates and initializes the escrow record at the address derived
    /// from (maker, seed), with an empty vault; the record, not the maker,
    /// is the authority over that vault.
    fn init_escrow(&mut self, maker: u64, seed: u64, mint_a: u64, mint_b: u64, receive_amount: u64)
        requires
            old(self).wf(),
            !old(self)@.has_record(maker, seed),
            mint_a != mint_b,
        ensures
            final(self).wf(),
            final(self)@.balances == old(self)@.balances,
            final(self)@.records == old(self)@.records.insert(
                (maker, seed),
                OpenEscrow {
                    record: Escrow {
                        seed,
                        maker,
                        mint_a,
                        mint_b,
                        receive_amount,
                        bump: spec_authority_bump(maker, seed),
                    },
                    vault: 0,
                },
            ),
    {
        let bump = authority_bump(maker, seed);
        let record = Escrow { seed, maker, mint_a, mint_b, receive_amount, bump };
        self.records.upsert(maker, seed, OpenEscrow { record, vault: 0 });
    }

    /// Moves the maker's deposit from their asset account into the vault of
    /// the record at (maker, seed), which must still be empty.
    fn deposit(&mut self, maker: u64, seed: u64, amount: u64)
        requires
            old(self).wf(),
            old(self)@.has_record(maker, seed),
            old(self)@.open_escrow_of(maker, seed).vault == 0,
            old(self)@.balance_of(maker, old(self)@.open_escrow_of(maker, seed).record.mint_a)
                >= amount,
        ensures
            final(self).wf(),
            final(self)@.records == old(self)@.records.insert(
                (maker, seed),
                OpenEscrow { record: old(self)@.open_escrow_of(maker, seed).record, vault: amount },
            ),
            final(self)@.balances == old(self)@.balances.insert(
                (maker, old(self)@.open_escrow_of(maker, seed).record.mint_a),
                (old(self)@.balance_of(maker, old(self)@.open_escrow_of(maker, seed).record.mint_a)
                    - amount) as u64,
            ),
    {
        let oe = self.records.get(maker, seed).unwrap();
        let b = self.balance_of(maker, oe.record.mint_a);
        self.records.upsert(maker, seed, OpenEscrow { record: oe.record, vault: amount });
        self.ledger.upsert(maker, oe.record.mint_a, b - amount);
    }

    /// Opens an escrow: derives the record's address from (maker, seed),
    /// creates the record and its vault together, and moves the maker's
    /// deposit of `mint_a` into the vault.  All of it happens, or none: on
    /// any failure no state changes.  Returns the created record's address.
    pub fn make(
        &mut self,
        maker: u64,
        seed: u64,
        mint_a: u64,
        mint_b: u64,
        receive_amount: u64,
        deposit_amount: u64,
    ) -> (r: Result<RecordAddress, EscrowError>)
        requires
            old(self).wf(),
        ensures
            final(self).wf(),
            final(self)@ == old(self)@.make_model(
                maker,
                seed,
                mint_a,
                mint_b,
                receive_amount,
                deposit_amount,
            ),
            r == old(self)@.make_result(maker, seed, mint_a, mint_b, deposit_amount),
    {
        if mint_a == mint_b {
            return Err(EscrowError::InvalidParameters);
        }
        if self.record_of(maker, seed).is_some() {
            return Err(EscrowError::RecordAlreadyExists);
        }
        let b = self.balance_of(maker, mint_a);
        if b < deposit_amount {
            return Err(EscrowError::InsufficientFunds);
        }
        self.init_escrow(maker, seed, mint_a, mint_b, receive_amount);
        self.deposit(maker, seed, deposit_amount);
        proof {
            let k = (maker, seed);
            let record = Escrow {
                seed,
                maker,
                mint_a,
                mint_b,
                receive_amount,
                bump: spec_authority_bump(maker, seed),
            };
            assert(self@.records =~= old(self)@.records.insert(
                k,
                OpenEscrow { record, vault: deposit_amount },
            ));
        }
        Ok(RecordAddress { maker, seed })
    }

    /// Completes the swap: the taker pays the recorded receive amount of
    /// `mint_b` to the maker, the vault's whole `mint_a` balance goes to
    /// the taker, and the record and vault are destroyed together.  All of
    /// it happens, or none: on any failure no state changes.
    pub fn take(&mut self, taker: u64, maker: u64, seed: u64) -> (r: Result<(), EscrowError>)
        requires
            old(self).wf(),
        ensures
            final(self).wf(),
            final(self)@ == old(self)@.take_model(taker, maker, seed),
            r == old(self)@.take_result(taker, maker, seed),
    {
        let oe = match self.records.get(maker, seed) {
            None => {
                return Err(EscrowError::RecordNotFound);
            },
            Some(oe) => oe,
        };
        let rec = oe.record;
        proof {
            assert(self@.records.contains_key((maker, seed)));
            assert(rec.maker == maker && rec.seed == seed && rec.mint_a != rec.mint_b);
        }
        let taker_b = self.balance_of(taker, rec.mint_b);
        if taker_b < rec.receive_amount {
            return Err(EscrowError::InsufficientFunds);
        }
        if taker != rec.maker {
            let maker_b = self.balance_of(rec.maker, rec.mint_b);
            if rec.receive_amount > u64::MAX - maker_b {
                return Err(EscrowError::TransferRejected);
            }
        }
        let taker_a = self.balance_of(taker, rec.mint_a);
        if oe.vault > u64::MAX - taker_a {
            return Err(EscrowError::TransferRejected);
        }
        if taker != rec.maker {
            self.ledger.upsert(taker, rec.mint_b, taker_b - rec.receive_amount);
            let mb = self.balance_of(rec.maker, rec.mint_b);
            proof {
                assert(mb == bal_in(old(self)@.balances, rec.maker, rec.mint_b));
            }
            self.ledger.upsert(rec.maker, rec.mint_b, mb + rec.receive_amount);
        }
        let ta = self.balance_of(taker, rec.mint_a);
        proof {
            assert(ta == taker_a);
        }
        self.ledger.upsert(taker, rec.mint_a, ta + oe.vault);
        self.records.remove(maker, seed);
        Ok(())
    }

    /// Cancels the escrow: the vault's whole balance returns to the maker's
    /// `mint_a` account and the record and vault are destroyed together.
    /// Only the maker may cancel.  All of it happens, or none: on any
    /// failure no state changes.
    pub fn refund(&mut self, caller: u64, maker: u64, seed: u64) -> (r: Result<(), EscrowError>)
        requires
            old(self).wf(),
        ensures
            final(self).wf(),
            final(self)@ == old(self)@.refund_model(caller, maker, seed),
            r == old(self)@.refund_result(caller, maker, seed),
    {
        let oe = match self.records.get(maker, seed) {
            None => {
                return Err(EscrowError::RecordNotFound);
            },
            Some(oe) => oe,
        };
        let rec = oe.record;
        proof {
            assert(self@.records.contains_key((maker, seed)));
            assert(rec.maker == maker && rec.seed == seed);
        }
        if caller != rec.maker {
            return Err(EscrowError::Unauthorized);
        }
        let maker_a = self.balance_of(rec.maker, rec.mint_a);
        if oe.vault > u64::MAX - maker_a {
            return Err(EscrowError::TransferRejected);
        }
        self.ledger.upsert(rec.maker, rec.mint_a, maker_a + oe.vault);
        self.records.remove(maker, seed);
        Ok(())
    }
}

} // verus!
