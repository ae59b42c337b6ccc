//! The general escrow laws, proved once and for all over the mathematical
//! model.  Each lemma's conclusion is stated purely in terms of the spec
//! transitions that the executable `make`, `take` and `refund` are proved
//! to implement, so these laws carry over to every execution.

use crate::states::{spec_authority_bump, Escrow, EscrowError, RecordAddress};
use crate::machine::EscrowModel;
use vstd::prelude::*;

verus! {

/// A first `make` on a free (maker, seed) pair with valid parameters and a
/// sufficient balance succeeds with the address derived from that pair,
/// and a second `make` with the identical pair — whatever its other
/// parameters, as long as they are themselves valid — fails with
/// `RecordAlreadyExists`.
pub proof fn lemma_first_make_wins(
    m: EscrowModel,
    maker: u64,
    seed: u64,
    mint_a: u64,
    mint_b: u64,
    receive_amount: u64,
    deposit_amount: u64,
    mint_a2: u64,
    mint_b2: u64,
    deposit_amount2: u64,
)
    requires
        mint_a != mint_b,
        !m.has_record(maker, seed),
        m.balance_of(maker, mint_a) >= deposit_amount,
        mint_a2 != mint_b2,
    ensures
        m.make_result(maker, seed, mint_a, mint_b, deposit_amount) == Ok::<
            RecordAddress,
            EscrowError,
        >(RecordAddress { maker, seed }),
        m.make_model(maker, seed, mint_a, mint_b, receive_amount, deposit_amount).make_result(
            maker,
            seed,
            mint_a2,
            mint_b2,
            deposit_amount2,
        ) == Err::<RecordAddress, EscrowError>(EscrowError::RecordAlreadyExists),
{
}

/// After a successful `make`, the new vault holds exactly the deposit, the
/// maker's asset-A balance has decreased by exactly the deposit, the
/// record is stored with the requested terms, and no other balance moved.
pub proof fn lemma_make_moves_deposit(
    m: EscrowModel,
    maker: u64,
    seed: u64,
    mint_a: u64,
    mint_b: u64,
    receive_amount: u64,
    deposit_amount: u64,
)
    requires
        m.make_check(maker, seed, mint_a, mint_b, deposit_amount) is None,
    ensures
        m.make_model(maker, seed, mint_a, mint_b, receive_amount, deposit_amount).vault_of(
            maker,
            seed,
        ) == deposit_amount,
        m.make_model(maker, seed, mint_a, mint_b, receive_amount, deposit_amount).balance_of(
            maker,
            mint_a,
        ) == m.balance_of(maker, mint_a) - deposit_amount,
        m.make_model(maker, seed, mint_a, mint_b, receive_amount, deposit_amount).record_of(
            maker,
            seed,
        ) == Some(
            Escrow {
                seed,
                maker,
                mint_a,
                mint_b,
                receive_amount,
                bump: spec_authority_bump(maker, seed),
            },
        ),
        forall|o: u64, a: u64|
            !(o == maker && a == mint_a) ==> m.make_model(
                maker,
                seed,
                mint_a,
                mint_b,
                receive_amount,
                deposit_amount,
            ).balance_of(o, a) == m.balance_of(o, a),
{
}

/// `take` on an open record by a taker who holds at least the receive
/// amount of asset B (and whose accounts do not overflow) succeeds;
/// afterward the maker's asset-B balance has increased by exactly the
/// receive amount, the taker's asset-A balance has increased by exactly
/// the vault's prior balance, and the record no longer exists.
pub proof fn lemma_take_completes_swap(m: EscrowModel, taker: u64, maker: u64, seed: u64)
    requires
        m.wf(),
        m.has_record(maker, seed),
        taker != maker,
        m.balance_of(taker, m.open_escrow_of(maker, seed).record.mint_b) >= m.open_escrow_of(
            maker,
            seed,
        ).record.receive_amount,
        m.balance_of(maker, m.open_escrow_of(maker, seed).record.mint_b) + m.open_escrow_of(
            maker,
            seed,
        ).record.receive_amount <= u64::MAX,
        m.balance_of(taker, m.open_escrow_of(maker, seed).record.mint_a) + m.open_escrow_of(
            maker,
            seed,
        ).vault <= u64::MAX,
    ensures
        m.take_result(taker, maker, seed) == Ok::<(), EscrowError>(()),
        m.take_model(taker, maker, seed).balance_of(
            maker,
            m.open_escrow_of(maker, seed).record.mint_b,
        ) == m.balance_of(maker, m.open_escrow_of(maker, seed).record.mint_b) + m.open_escrow_of(
            maker,
            seed,
        ).record.receive_amount,
        m.take_model(taker, maker, seed).balance_of(
            taker,
            m.open_escrow_of(maker, seed).record.mint_a,
        ) == m.balance_of(taker, m.open_escrow_of(maker, seed).record.mint_a) + m.open_escrow_of(
            maker,
            seed,
        ).vault,
        !m.take_model(taker, maker, seed).has_record(maker, seed),
{
    assert(m.records.contains_key((maker, seed)));
}

/// `refund` by the maker right after a successful `make` succeeds and
/// restores the maker's asset-A balance to exactly its level before the
/// `make`; afterward the record no longer exists.
pub proof fn lemma_make_then_refund_restores(
    m: EscrowModel,
    maker: u64,
    seed: u64,
    mint_a: u64,
    mint_b: u64,
    receive_amount: u64,
    deposit_amount: u64,
)
    requires
        m.make_check(maker, seed, mint_a, mint_b, deposit_amount) is None,
    ensures
        m.make_model(maker, seed, mint_a, mint_b, receive_amount, deposit_amount).refund_result(
            maker,
            maker,
            seed,
        ) == Ok::<(), EscrowError>(()),
        m.make_model(maker, seed, mint_a, mint_b, receive_amount, deposit_amount).refund_model(
            maker,
            maker,
            seed,
        ).balance_of(maker, mint_a) == m.balance_of(maker, mint_a),
        !m.make_model(maker, seed, mint_a, mint_b, receive_amount, deposit_amount).refund_model(
            maker,
            maker,
            seed,
        ).has_record(maker, seed),
{
}

/// `refund` requested by anyone other than the maker fails with
/// `Unauthorized` and changes nothing.
pub proof fn lemma_refund_unauthorized(m: EscrowModel, caller: u64, maker: u64, seed: u64)
    requires
        m.wf(),
        m.has_record(maker, seed),
        caller != maker,
    ensures
        m.refund_result(caller, maker, seed) == Err::<(), EscrowError>(EscrowError::Unauthorized),
        m.refund_model(caller, maker, seed) == m,
{
    assert(m.records.contains_key((maker, seed)));
}

/// `take` or `refund` on an address where no record lives — never created,
/// or already consumed — fails with `RecordNotFound` and changes nothing.
pub proof fn lemma_missing_record_rejected(m: EscrowModel, party: u64, maker: u64, seed: u64)
    requires
        !m.has_record(maker, seed),
    ensures
        m.take_result(party, maker, seed) == Err::<(), EscrowError>(EscrowError::RecordNotFound),
        m.take_model(party, maker, seed) == m,
        m.refund_result(party, maker, seed) == Err::<(), EscrowError>(EscrowError::RecordNotFound),
        m.refund_model(party, maker, seed) == m,
{
}

/// A successful `take` is terminal: the record is gone, and a second
/// `take` or `refund` on the same record — by anyone — fails with
/// `RecordNotFound` and produces no change at all.
pub proof fn lemma_take_is_terminal(m: EscrowModel, taker: u64, maker: u64, seed: u64, party: u64)
    requires
        m.take_check(taker, maker, seed) is None,
    ensures
        !m.take_model(taker, maker, seed).has_record(maker, seed),
        m.take_model(taker, maker, seed).take_result(party, maker, seed) == Err::<
            (),
            EscrowError,
        >(EscrowError::RecordNotFound),
        m.take_model(taker, maker, seed).take_model(party, maker, seed) == m.take_model(
            taker,
            maker,
            seed,
        ),
        m.take_model(taker, maker, seed).refund_result(party, maker, seed) == Err::<
            (),
            EscrowError,
        >(EscrowError::RecordNotFound),
        m.take_model(taker, maker, seed).refund_model(party, maker, seed) == m.take_model(
            taker,
            maker,
            seed,
        ),
{
    lemma_missing_record_rejected(m.take_model(taker, maker, seed), party, maker, seed);
}

/// A successful `refund` is terminal: the record is gone, and a second
/// `take` or `refund` on the same record — by anyone — fails with
/// `RecordNotFound` and produces no change at all.
pub proof fn lemma_refund_is_terminal(
    m: EscrowModel,
    caller: u64,
    maker: u64,
    seed: u64,
    party: u64,
)
    requires
        m.refund_check(caller, maker, seed) is None,
    ensures
        !m.refund_model(caller, maker, seed).has_record(maker, seed),
        m.refund_model(caller, maker, seed).take_result(party, maker, seed) == Err::<
            (),
            EscrowError,
        >(EscrowError::RecordNotFound),
        m.refund_model(caller, maker, seed).take_model(party, maker, seed) == m.refund_model(
            caller,
            maker,
            seed,
        ),
        m.refund_model(caller, maker, seed).refund_result(party, maker, seed) == Err::<
            (),
            EscrowError,
        >(EscrowError::RecordNotFound),
        m.refund_model(caller, maker, seed).refund_model(party, maker, seed) == m.refund_model(
            caller,
            maker,
            seed,
        ),
{
    lemma_missing_record_rejected(m.refund_model(caller, maker, seed), party, maker, seed);
}

} // verus!
