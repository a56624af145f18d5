use crate::errors::ErrorCode;
use crate::events::{EarningsClaimed, PaymentRecorded, RevenueDistributed};
use crate::model::{
    lemma_claim_slot, lemma_pool_slot, lemma_share_slot, lemma_share_within_total,
    lemma_with_claimed, lemma_with_revenue, StoreModel,
};
use crate::principal::Principal;
use crate::store::AccountStore;
use crate::transfer::{transfer_failure, Account, Authority, TransferError, TransferOrder};
use vstd::prelude::*;

verus! {

/// The income received on behalf of one pool, and how much of it has been
/// marked as claimable.
#[derive(Clone, Copy, Debug, PartialEq, Eq)]
pub struct RevenueAccount {
    pub pool_id: u64,
    pub total_revenue: u64,
    pub distributed: u64,
}

/// What one investor has been paid, in all, of one pool's revenue.
#[derive(Clone, Copy, Debug, PartialEq, Eq)]
pub struct ClaimRecord {
    pub investor: Principal,
    pub pool_id: u64,
    pub claimed_total: u64,
}

/// Whether a payment of `amount` can be booked as revenue of the pool.
pub open spec fn record_payment_check(m: StoreModel, pool_id: u64, amount: u64) -> Result<
    (),
    ErrorCode,
> {
    if amount == 0 {
        Err(ErrorCode::InvalidPayment)
    } else if !m.has_pool(pool_id) {
        Err(ErrorCode::NotFound)
    } else if m.revenue(pool_id).total_revenue + amount > u64::MAX {
        Err(ErrorCode::Overflow)
    } else {
        Ok(())
    }
}

/// The transfer behind a payment: from the payer, who signs for it, into the
/// pool's revenue vault.
pub open spec fn record_payment_order(pool_id: u64, payer: Principal, amount: u64) -> TransferOrder {
    TransferOrder {
        from: Account::Holder(payer),
        to: Account::RevenueVault(pool_id),
        amount,
        authority: Authority::Signer(payer),
    }
}

/// The ledger after a payment was booked: the pool's total revenue has grown
/// by `amount`.
pub open spec fn record_payment_post(m: StoreModel, pool_id: u64, amount: u64) -> StoreModel {
    m.with_revenue(
        pool_id,
        RevenueAccount {
            total_revenue: (m.revenue(pool_id).total_revenue + amount) as u64,
            ..m.revenue(pool_id)
        },
    )
}

/// What `record_payment` answers, given the ledger and how the transfer ended.
pub open spec fn record_payment_result(
    m: StoreModel,
    pool_id: u64,
    payer: Principal,
    amount: u64,
    transfer: Result<(), TransferError>,
) -> Result<PaymentRecorded, ErrorCode> {
    match record_payment_check(m, pool_id, amount) {
        Err(e) => Err(e),
        Ok(()) => match transfer {
            Err(t) => Err(transfer_failure(t)),
            Ok(()) => Ok(PaymentRecorded { payer, pool_id, amount }),
        },
    }
}

/// Finds the pool's revenue record and checks that it can take the amount.
fn admit_payment(store: &AccountStore, pool_id: u64, amount: u64) -> (slot: Result<usize, ErrorCode>)
    requires
        store@.wf(),
    ensures
        match slot {
            Err(e) => record_payment_check(store@, pool_id, amount) == Err::<(), ErrorCode>(e),
            Ok(i) => record_payment_check(store@, pool_id, amount) is Ok && i
                == store@.pool_index(pool_id) && i < store@.pools.len(),
        },
{
    if amount == 0 {
        return Err(ErrorCode::InvalidPayment);
    }
    let slot = match store.find_pool(pool_id) {
        Some(i) => i,
        None => { return Err(ErrorCode::NotFound); },
    };
    proof {
        lemma_pool_slot(store@, slot as int);
    }
    if amount > u64::MAX - store.revenue_at(slot).total_revenue {
        return Err(ErrorCode::Overflow);
    }
    Ok(slot)
}

/// Validates a payment and names the transfer that must precede its booking.
/// Nothing is written.
pub fn plan_record_payment(store: &AccountStore, pool_id: u64, payer: Principal, amount: u64) -> (order:
    Result<TransferOrder, ErrorCode>)
    requires
        store@.wf(),
    ensures
        order == match record_payment_check(store@, pool_id, amount) {
            Err(e) => Err::<TransferOrder, ErrorCode>(e),
            Ok(()) => Ok(record_payment_order(pool_id, payer, amount)),
        },
{
    match admit_payment(store, pool_id, amount) {
        Err(e) => Err(e),
        Ok(_) => Ok(
            TransferOrder {
                from: Account::Holder(payer),
                to: Account::RevenueVault(pool_id),
                amount,
                authority: Authority::Signer(payer),
            },
        ),
    }
}

/// Books a payment whose transfer was attempted after `plan_record_payment`
/// admitted it. The ledger changes only if the payment is (still) admissible
/// and the transfer went through: then the pool's total revenue grows by
/// `amount`.
pub fn record_payment(
    store: &mut AccountStore,
    pool_id: u64,
    payer: Principal,
    amount: u64,
    transfer: Result<(), TransferError>,
) -> (result: Result<PaymentRecorded, ErrorCode>)
    requires
        old(store)@.wf(),
    ensures
        final(store)@.wf(),
        result == record_payment_result(old(store)@, pool_id, payer, amount, transfer),
        final(store)@ == if result is Ok {
            record_payment_post(old(store)@, pool_id, amount)
        } else {
            old(store)@
        },
{
    let slot = match admit_payment(store, pool_id, amount) {
        Err(e) => { return Err(e); },
        Ok(i) => i,
    };
    if let Err(t) = transfer {
        return Err(t.to_error_code());
    }
    let revenue = store.revenue_at(slot);
    let booked = RevenueAccount { total_revenue: revenue.total_revenue + amount, ..revenue };
    proof {
        assert(store@.pool_sound(slot as int));
        lemma_with_revenue(store@, pool_id, booked);
    }
    store.put_revenue(slot, booked);
    Ok(PaymentRecorded { payer, pool_id, amount })
}

/// The part of the pool's revenue that was received and not yet marked as
/// claimable.
pub open spec fn undistributed(m: StoreModel, pool_id: u64) -> int {
    m.revenue(pool_id).total_revenue - m.revenue(pool_id).distributed
}

/// Whether the pool has revenue to mark as claimable.
pub open spec fn distribute_revenue_check(m: StoreModel, pool_id: u64) -> Result<(), ErrorCode> {
    if !m.has_pool(pool_id) {
        Err(ErrorCode::NotFound)
    } else if undistributed(m, pool_id) == 0 {
        Err(ErrorCode::NoEarningsToClaim)
    } else {
        Ok(())
    }
}

/// The ledger after a distribution: all revenue received is claimable.
pub open spec fn distribute_revenue_post(m: StoreModel, pool_id: u64) -> StoreModel {
    m.with_revenue(
        pool_id,
        RevenueAccount { distributed: m.revenue(pool_id).total_revenue, ..m.revenue(pool_id) },
    )
}

/// Marks all revenue that the pool has received so far as claimable, and
/// reports how much was newly marked. No funds move.
pub fn distribute_revenue(store: &mut AccountStore, pool_id: u64) -> (result: Result<
    RevenueDistributed,
    ErrorCode,
>)
    requires
        old(store)@.wf(),
    ensures
        final(store)@.wf(),
        match distribute_revenue_check(old(store)@, pool_id) {
            Err(e) => result == Err::<RevenueDistributed, ErrorCode>(e) && final(store)@ == old(store)@,
            Ok(()) => result == Ok::<RevenueDistributed, ErrorCode>(
                RevenueDistributed {
                    pool_id,
                    total_distributed: undistributed(old(store)@, pool_id) as u64,
                },
            ) && final(store)@ == distribute_revenue_post(old(store)@, pool_id),
        },
{
    let slot = match store.find_pool(pool_id) {
        Some(i) => i,
        None => { return Err(ErrorCode::NotFound); },
    };
    proof {
        lemma_pool_slot(store@, slot as int);
        assert(store@.pool_sound(slot as int));
    }
    let revenue = store.revenue_at(slot);
    let fresh = revenue.total_revenue - revenue.distributed;
    if fresh == 0 {
        return Err(ErrorCode::NoEarningsToClaim);
    }
    let marked = RevenueAccount { distributed: revenue.total_revenue, ..revenue };
    proof {
        lemma_with_revenue(store@, pool_id, marked);
    }
    store.put_revenue(slot, marked);
    Ok(RevenueDistributed { pool_id, total_distributed: fresh })
}

/// The part of `distributed` that falls to a share of `share_amount` in a
/// pool that holds `pool_amount`, rounded down; nothing in an empty pool.
pub open spec fn entitlement_of(share_amount: nat, distributed: nat, pool_amount: nat) -> nat {
    if pool_amount == 0 {
        0
    } else {
        (share_amount * distributed) / pool_amount
    }
}

/// A share that is no larger than its pool is entitled to no more than was
/// distributed.
pub proof fn lemma_entitlement_bounded(share_amount: nat, distributed: nat, pool_amount: nat)
    requires
        share_amount <= pool_amount,
    ensures
        entitlement_of(share_amount, distributed, pool_amount) <= distributed,
{
    if pool_amount > 0 {
        assert(share_amount * distributed <= pool_amount * distributed) by (nonlinear_arith)
            requires
                share_amount <= pool_amount,
        ;
        assert((share_amount * distributed) / pool_amount <= distributed) by (nonlinear_arith)
            requires
                share_amount * distributed <= pool_amount * distributed,
                pool_amount > 0,
        ;
    }
}

/// The entitlement never shrinks when more is distributed.
pub proof fn lemma_entitlement_grows(share_amount: nat, before: nat, after: nat, pool_amount: nat)
    requires
        before <= after,
    ensures
        entitlement_of(share_amount, before, pool_amount) <= entitlement_of(
            share_amount,
            after,
            pool_amount,
        ),
{
    if pool_amount > 0 {
        assert(share_amount * before <= share_amount * after) by (nonlinear_arith)
            requires
                before <= after,
        ;
        assert((share_amount * before) / pool_amount <= (share_amount * after) / pool_amount)
            by (nonlinear_arith)
            requires
                share_amount * before <= share_amount * after,
                pool_amount > 0,
        ;
    }
}

/// Adding the same amount to a share and to its pool never shrinks the
/// share's entitlement.
pub proof fn lemma_entitlement_grows_with_stake(
    share_amount: nat,
    added: nat,
    distributed: nat,
    pool_amount: nat,
)
    requires
        share_amount <= pool_amount,
    ensures
        entitlement_of(share_amount, distributed, pool_amount) <= entitlement_of(
            share_amount + added,
            distributed,
            pool_amount + added,
        ),
{
    if pool_amount > 0 {
        let before = entitlement_of(share_amount, distributed, pool_amount) as int;
        let grown = pool_amount + added;
        lemma_entitlement_bounded(share_amount, distributed, pool_amount);
        vstd::arithmetic::div_mod::lemma_remainder_lower(
            (share_amount * distributed) as int,
            pool_amount as int,
        );
        assert(before * grown <= (share_amount + added) * distributed) by (nonlinear_arith)
            requires
                before * pool_amount <= share_amount * distributed,
                0 <= before <= distributed,
                grown == pool_amount + added,
        ;
        vstd::arithmetic::div_mod::lemma_div_is_ordered(
            before * grown,
            ((share_amount + added) * distributed) as int,
            grown as int,
        );
        vstd::arithmetic::div_mod::lemma_div_multiples_vanish(before, grown as int);
        assert(grown * before == before * grown) by (nonlinear_arith);
    }
}

/// A share's entitlement never shrinks when its pool shrinks around it.
pub proof fn lemma_entitlement_grows_as_pool_shrinks(
    share_amount: nat,
    distributed: nat,
    pool_amount: nat,
    removed: nat,
)
    requires
        share_amount + removed <= pool_amount,
    ensures
        entitlement_of(share_amount, distributed, pool_amount) <= entitlement_of(
            share_amount,
            distributed,
            (pool_amount - removed) as nat,
        ),
{
    if pool_amount > removed {
        vstd::arithmetic::div_mod::lemma_div_is_ordered_by_denominator(
            (share_amount * distributed) as int,
            pool_amount - removed,
            pool_amount as int,
        );
    } else if pool_amount > 0 {
        assert(share_amount == 0);
        assert(share_amount * distributed == 0) by (nonlinear_arith)
            requires
                share_amount == 0,
        ;
    }
}

/// Computes the entitlement of a share, with the product taken in 128 bits.
/// The answer is `Overflow` exactly where the entitlement exceeds 64 bits,
/// which takes a share larger than its pool.
pub fn entitlement(share_amount: u64, distributed: u64, pool_amount: u64) -> (result: Result<
    u64,
    ErrorCode,
>)
    ensures
        result == if entitlement_of(share_amount as nat, distributed as nat, pool_amount as nat)
            <= u64::MAX {
            Ok::<u64, ErrorCode>(
                entitlement_of(share_amount as nat, distributed as nat, pool_amount as nat) as u64,
            )
        } else {
            Err(ErrorCode::Overflow)
        },
{
    if pool_amount == 0 {
        return Ok(0);
    }
    assert(share_amount * distributed <= 0xffff_ffff_ffff_ffff * 0xffff_ffff_ffff_ffff)
        by (nonlinear_arith)
        requires
            share_amount <= 0xffff_ffff_ffff_ffff,
            distributed <= 0xffff_ffff_ffff_ffff,
    ;
    let product: u128 = (share_amount as u128) * (distributed as u128);
    let quotient: u128 = product / (pool_amount as u128);
    if quotient > u64::MAX as u128 {
        Err(ErrorCode::Overflow)
    } else {
        Ok(quotient as u64)
    }
}

/// What the investor is entitled to of the pool's distributed revenue, as the
/// ledger stands.
pub open spec fn claim_entitlement(m: StoreModel, pool_id: u64, investor: Principal) -> nat {
    entitlement_of(
        m.share_amount(investor, pool_id) as nat,
        m.revenue(pool_id).distributed as nat,
        m.pool(pool_id).current_amount as nat,
    )
}

/// Whether the investor has earnings to claim from the pool.
pub open spec fn claim_earnings_check(m: StoreModel, pool_id: u64, investor: Principal) -> Result<
    (),
    ErrorCode,
> {
    if !m.has_pool(pool_id) || !m.has_share(investor, pool_id) {
        Err(ErrorCode::NotFound)
    } else if claim_entitlement(m, pool_id, investor) < m.claimed_total(investor, pool_id) {
        Err(ErrorCode::InvalidPoolState)
    } else if claim_entitlement(m, pool_id, investor) == m.claimed_total(investor, pool_id) {
        Err(ErrorCode::NoEarningsToClaim)
    } else {
        Ok(())
    }
}

/// What a claim pays: the entitlement less what was paid before.
pub open spec fn claim_payable(m: StoreModel, pool_id: u64, investor: Principal) -> int {
    claim_entitlement(m, pool_id, investor) - m.claimed_total(investor, pool_id)
}

/// The transfer behind a claim: out of the pool's revenue vault to the
/// investor, under the authority derived from the pool's revenue record.
pub open spec fn claim_earnings_order(m: StoreModel, pool_id: u64, investor: Principal) -> TransferOrder {
    TransferOrder {
        from: Account::RevenueVault(pool_id),
        to: Account::Holder(investor),
        amount: claim_payable(m, pool_id, investor) as u64,
        authority: Authority::RevenueAuthority(pool_id),
    }
}

/// The ledger after a claim was paid: the investor's claim record stands at
/// the entitlement.
pub open spec fn claim_earnings_post(m: StoreModel, pool_id: u64, investor: Principal) -> StoreModel {
    m.with_claimed(investor, pool_id, claim_entitlement(m, pool_id, investor) as u64)
}

/// What `claim_earnings` answers, given the ledger and how the transfer ended.
pub open spec fn claim_earnings_result(
    m: StoreModel,
    pool_id: u64,
    investor: Principal,
    transfer: Result<(), TransferError>,
) -> Result<EarningsClaimed, ErrorCode> {
    match claim_earnings_check(m, pool_id, investor) {
        Err(e) => Err(e),
        Ok(()) => match transfer {
            Err(t) => Err(transfer_failure(t)),
            Ok(()) => Ok(
                EarningsClaimed {
                    claimer: investor,
                    pool_id,
                    amount: claim_payable(m, pool_id, investor) as u64,
                },
            ),
        },
    }
}

/// In a sound ledger an investor's entitlement is at most what was
/// distributed, so it fits in 64 bits.
pub proof fn lemma_claim_entitlement_bounded(m: StoreModel, pool_id: u64, investor: Principal)
    requires
        m.wf(),
        m.has_pool(pool_id),
    ensures
        claim_entitlement(m, pool_id, investor) <= m.revenue(pool_id).distributed,
{
    assert(m.pool_sound(m.pool_index(pool_id)));
    if m.has_share(investor, pool_id) {
        lemma_share_within_total(m.shares, m.share_index(investor, pool_id));
    }
    lemma_entitlement_bounded(
        m.share_amount(investor, pool_id) as nat,
        m.revenue(pool_id).distributed as nat,
        m.pool(pool_id).current_amount as nat,
    );
}

/// The slots and amounts that a claim reads, once it is found admissible.
struct ClaimReading {
    claim_slot: Option<usize>,
    entitled: u64,
    already: u64,
}

/// Reads and validates everything a claim depends on.
fn read_claim(store: &AccountStore, pool_id: u64, investor: &Principal) -> (reading: Result<
    ClaimReading,
    ErrorCode,
>)
    requires
        store@.wf(),
    ensures
        match reading {
            Err(e) => claim_earnings_check(store@, pool_id, *investor) == Err::<(), ErrorCode>(e),
            Ok(r) => {
                &&& claim_earnings_check(store@, pool_id, *investor) is Ok
                &&& r.entitled == claim_entitlement(store@, pool_id, *investor)
                &&& r.already == store@.claimed_total(*investor, pool_id)
                &&& match r.claim_slot {
                    Some(k) => store@.has_claim(*investor, pool_id) && k == store@.claim_index(
                        *investor,
                        pool_id,
                    ) && k < store@.claims.len(),
                    None => !store@.has_claim(*investor, pool_id),
                }
            },
        },
{
    let slot = match store.find_pool(pool_id) {
        Some(i) => i,
        None => { return Err(ErrorCode::NotFound); },
    };
    let held = match store.find_share(investor, pool_id) {
        Some(j) => j,
        None => { return Err(ErrorCode::NotFound); },
    };
    proof {
        lemma_pool_slot(store@, slot as int);
        lemma_share_slot(store@, held as int);
        lemma_claim_entitlement_bounded(store@, pool_id, *investor);
    }
    let share = store.share_at(held);
    let pool = store.pool_at(slot);
    let revenue = store.revenue_at(slot);
    let entitled = match entitlement(share.amount, revenue.distributed, pool.current_amount) {
        Ok(e) => e,
        Err(e) => { return Err(e); },
    };
    let claim_slot = store.find_claim(investor, pool_id);
    let already = match claim_slot {
        Some(k) => {
            proof {
                lemma_claim_slot(store@, k as int);
            }
            store.claim_at(k).claimed_total
        },
        None => 0,
    };
    if entitled < already {
        return Err(ErrorCode::InvalidPoolState);
    }
    if entitled == already {
        return Err(ErrorCode::NoEarningsToClaim);
    }
    Ok(ClaimReading { claim_slot, entitled, already })
}

/// Validates a claim and names the transfer that pays it. Nothing is written.
pub fn plan_claim_earnings(store: &AccountStore, pool_id: u64, investor: Principal) -> (order:
    Result<TransferOrder, ErrorCode>)
    requires
        store@.wf(),
    ensures
        order == match claim_earnings_check(store@, pool_id, investor) {
            Err(e) => Err::<TransferOrder, ErrorCode>(e),
            Ok(()) => Ok(claim_earnings_order(store@, pool_id, investor)),
        },
{
    match read_claim(store, pool_id, &investor) {
        Err(e) => Err(e),
        Ok(r) => Ok(
            TransferOrder {
                from: Account::RevenueVault(pool_id),
                to: Account::Holder(investor),
                amount: r.entitled - r.already,
                authority: Authority::RevenueAuthority(pool_id),
            },
        ),
    }
}

/// Records a claim whose transfer was attempted after `plan_claim_earnings`
/// admitted it. The ledger changes only if the claim is (still) admissible and
/// the transfer went through: then the investor's claim record is set to the
/// entitlement, so that the same earnings cannot be claimed again, and the
/// amount paid is reported.
pub fn claim_earnings(
    store: &mut AccountStore,
    pool_id: u64,
    investor: Principal,
    transfer: Result<(), TransferError>,
) -> (result: Result<EarningsClaimed, ErrorCode>)
    requires
        old(store)@.wf(),
    ensures
        final(store)@.wf(),
        result == claim_earnings_result(old(store)@, pool_id, investor, transfer),
        final(store)@ == if result is Ok {
            claim_earnings_post(old(store)@, pool_id, investor)
        } else {
            old(store)@
        },
{
    let reading = match read_claim(store, pool_id, &investor) {
        Err(e) => { return Err(e); },
        Ok(r) => r,
    };
    if let Err(t) = transfer {
        return Err(t.to_error_code());
    }
    proof {
        lemma_with_claimed(store@, investor, pool_id, reading.entitled);
    }
    let settled = ClaimRecord { investor, pool_id, claimed_total: reading.entitled };
    match reading.claim_slot {
        Some(k) => store.put_claim(k, settled),
        None => store.add_claim(settled),
    }
    Ok(EarningsClaimed { claimer: investor, pool_id, amount: reading.entitled - reading.already })
}

} // verus!
