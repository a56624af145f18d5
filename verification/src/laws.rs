use crate::errors::ErrorCode;
use crate::investment_pool::{
    create_pool_check, create_pool_post, fresh_pool, invest_check, invest_post, invest_result,
    lemma_invest_wf, lemma_withdraw_wf, withdraw_check, withdraw_post, withdraw_result,
};
use crate::model::{
    lemma_pool_added, lemma_rebalanced_other_pool, lemma_rebalanced_other_share,
    lemma_rebalanced_reads, lemma_share_slot, lemma_share_within_total,
    lemma_two_shares_within_total, lemma_with_claimed, lemma_with_claimed_elsewhere,
    lemma_with_revenue, StoreModel,
};
use crate::principal::Principal;
use crate::revenue_sharing::{
    claim_earnings_check, claim_earnings_post, claim_entitlement, distribute_revenue_check,
    distribute_revenue_post, lemma_claim_entitlement_bounded, lemma_entitlement_grows,
    lemma_entitlement_grows_as_pool_shrinks, lemma_entitlement_grows_with_stake,
    record_payment_check, record_payment_post, record_payment_result, RevenueAccount,
};
use crate::transfer::TransferError;
use vstd::prelude::*;

verus! {

/// Conservation of principal: the shares recorded for a pool add up to what
/// the pool holds.
pub proof fn law_shares_add_up(m: StoreModel, pool_id: u64)
    requires
        m.wf(),
        m.has_pool(pool_id),
    ensures
        m.invested_total(pool_id) == m.pool(pool_id).current_amount,
{
    assert(m.pool_sound(m.pool_index(pool_id)));
}

/// A pool never holds more than its target.
pub proof fn law_pool_within_target(m: StoreModel, pool_id: u64)
    requires
        m.wf(),
        m.has_pool(pool_id),
    ensures
        0 <= m.pool(pool_id).current_amount <= m.pool(pool_id).target_amount,
{
    assert(m.pool_sound(m.pool_index(pool_id)));
}

/// No more of a pool's revenue is marked distributed than was received.
pub proof fn law_distributed_within_revenue(m: StoreModel, pool_id: u64)
    requires
        m.wf(),
        m.has_pool(pool_id),
    ensures
        m.revenue(pool_id).pool_id == pool_id,
        0 <= m.revenue(pool_id).distributed <= m.revenue(pool_id).total_revenue,
{
    assert(m.pool_sound(m.pool_index(pool_id)));
}

/// What the investor has been paid of the pool's revenue does not exceed
/// what their share entitles them to, as the ledger stands.
pub open spec fn claim_covered(m: StoreModel, pool_id: u64, investor: Principal) -> bool {
    m.claimed_total(investor, pool_id) <= claim_entitlement(m, pool_id, investor)
}

/// A paid claim leaves the investor's record exactly at their entitlement,
/// so an immediate second claim finds nothing to pay.
pub proof fn law_claim_settles_at_entitlement(m: StoreModel, pool_id: u64, investor: Principal)
    requires
        m.wf(),
        claim_earnings_check(m, pool_id, investor) is Ok,
    ensures
        ({
            let post = claim_earnings_post(m, pool_id, investor);
            &&& post.wf()
            &&& post.claimed_total(investor, pool_id) == claim_entitlement(post, pool_id, investor)
            &&& claim_covered(post, pool_id, investor)
            &&& claim_earnings_check(post, pool_id, investor) == Err::<(), ErrorCode>(
                ErrorCode::NoEarningsToClaim,
            )
        }),
{
    lemma_claim_entitlement_bounded(m, pool_id, investor);
    lemma_with_claimed(m, investor, pool_id, claim_entitlement(m, pool_id, investor) as u64);
}

/// Marking revenue as distributed never puts a covered claim out of cover, in
/// that pool or in any other.
pub proof fn law_distribution_keeps_claims_covered(
    m: StoreModel,
    pool_id: u64,
    claimed_pool: u64,
    investor: Principal,
)
    requires
        m.wf(),
        distribute_revenue_check(m, pool_id) is Ok,
        m.has_pool(claimed_pool),
        claim_covered(m, claimed_pool, investor),
    ensures
        claim_covered(distribute_revenue_post(m, pool_id), claimed_pool, investor),
{
    let post = distribute_revenue_post(m, pool_id);
    let i = m.pool_index(pool_id);
    let k = m.pool_index(claimed_pool);
    assert(m.pool_sound(i));
    assert(post.pool_index(claimed_pool) == k);
    assert(post.revenue(claimed_pool).distributed >= m.revenue(claimed_pool).distributed) by {
        if k == i {
            assert(post.revenues[k].distributed == m.revenues[i].total_revenue);
        } else {
            assert(post.revenues[k] == m.revenues[k]);
        }
    }
    lemma_entitlement_grows(
        m.share_amount(investor, claimed_pool) as nat,
        m.revenue(claimed_pool).distributed as nat,
        post.revenue(claimed_pool).distributed as nat,
        m.pool(claimed_pool).current_amount as nat,
    );
}

/// Booking a payment changes no entitlement and no claim.
pub proof fn law_payment_keeps_claims_covered(
    m: StoreModel,
    pool_id: u64,
    amount: u64,
    claimed_pool: u64,
    investor: Principal,
)
    requires
        m.wf(),
        record_payment_check(m, pool_id, amount) is Ok,
        m.has_pool(claimed_pool),
        claim_covered(m, claimed_pool, investor),
    ensures
        claim_covered(record_payment_post(m, pool_id, amount), claimed_pool, investor),
{
    let post = record_payment_post(m, pool_id, amount);
    let k = m.pool_index(claimed_pool);
    assert(post.pool_index(claimed_pool) == k);
    assert(post.revenues[k].distributed == m.revenues[k].distributed);
}

/// A paid claim changes no other investor's cover, nor the claimer's cover
/// in another pool.
pub proof fn law_claim_keeps_other_claims_covered(
    m: StoreModel,
    pool_id: u64,
    investor: Principal,
    claimed_pool: u64,
    other: Principal,
)
    requires
        m.wf(),
        claim_earnings_check(m, pool_id, investor) is Ok,
        !(other == investor && claimed_pool == pool_id),
        claim_covered(m, claimed_pool, other),
    ensures
        claim_covered(claim_earnings_post(m, pool_id, investor), claimed_pool, other),
{
    lemma_claim_entitlement_bounded(m, pool_id, investor);
    lemma_with_claimed_elsewhere(
        m,
        investor,
        pool_id,
        claim_entitlement(m, pool_id, investor) as u64,
        other,
        claimed_pool,
    );
}

/// Investing in one pool, or withdrawing from it, changes no cover in any
/// other pool.
pub proof fn law_rebalance_keeps_claims_covered_elsewhere(
    m: StoreModel,
    pool_id: u64,
    investor: Principal,
    amount: u64,
    claimed_pool: u64,
    other: Principal,
)
    requires
        m.wf(),
        m.has_pool(claimed_pool),
        claimed_pool != pool_id,
        claim_covered(m, claimed_pool, other),
    ensures
        invest_check(m, pool_id, amount) is Ok ==> claim_covered(
            invest_post(m, pool_id, investor, amount),
            claimed_pool,
            other,
        ),
        withdraw_check(m, pool_id, investor, amount) is Ok ==> claim_covered(
            withdraw_post(m, pool_id, investor, amount),
            claimed_pool,
            other,
        ),
{
    if invest_check(m, pool_id, amount) is Ok {
        let pool_amount = (m.pool(pool_id).current_amount + amount) as u64;
        let share_amount = (m.share_amount(investor, pool_id) + amount) as u64;
        lemma_rebalanced_other_pool(m, pool_id, investor, pool_amount, share_amount, claimed_pool);
        lemma_rebalanced_other_share(
            m,
            pool_id,
            investor,
            pool_amount,
            share_amount,
            other,
            claimed_pool,
        );
    }
    if withdraw_check(m, pool_id, investor, amount) is Ok {
        let pool_amount = (m.pool(pool_id).current_amount - amount) as u64;
        let share_amount = (m.share_amount(investor, pool_id) - amount) as u64;
        lemma_rebalanced_other_pool(m, pool_id, investor, pool_amount, share_amount, claimed_pool);
        lemma_rebalanced_other_share(
            m,
            pool_id,
            investor,
            pool_amount,
            share_amount,
            other,
            claimed_pool,
        );
    }
}

/// An investment keeps the investor's own claim on that pool covered: their
/// part of the pool does not shrink. It may put other investors' claims on
/// the pool out of cover, since their parts do.
pub proof fn law_invest_keeps_own_claim_covered(
    m: StoreModel,
    pool_id: u64,
    investor: Principal,
    amount: u64,
)
    requires
        m.wf(),
        invest_check(m, pool_id, amount) is Ok,
        claim_covered(m, pool_id, investor),
    ensures
        claim_covered(invest_post(m, pool_id, investor, amount), pool_id, investor),
{
    let pool_amount = (m.pool(pool_id).current_amount + amount) as u64;
    let share_amount = (m.share_amount(investor, pool_id) + amount) as u64;
    lemma_invest_wf(m, pool_id, investor, amount);
    lemma_rebalanced_reads(m, pool_id, investor, pool_amount, share_amount);
    lemma_entitlement_grows_with_stake(
        m.share_amount(investor, pool_id) as nat,
        amount as nat,
        m.revenue(pool_id).distributed as nat,
        m.pool(pool_id).current_amount as nat,
    );
}

/// A withdrawal keeps every other investor's claim on that pool covered:
/// their parts of the pool do not shrink. It may put the withdrawing
/// investor's own claim out of cover.
pub proof fn law_withdraw_keeps_other_claims_covered(
    m: StoreModel,
    pool_id: u64,
    investor: Principal,
    amount: u64,
    other: Principal,
)
    requires
        m.wf(),
        withdraw_check(m, pool_id, investor, amount) is Ok,
        other != investor,
        claim_covered(m, pool_id, other),
    ensures
        claim_covered(withdraw_post(m, pool_id, investor, amount), pool_id, other),
{
    let pool_amount = (m.pool(pool_id).current_amount - amount) as u64;
    let share_amount = (m.share_amount(investor, pool_id) - amount) as u64;
    lemma_withdraw_wf(m, pool_id, investor, amount);
    lemma_rebalanced_reads(m, pool_id, investor, pool_amount, share_amount);
    lemma_rebalanced_other_share(m, pool_id, investor, pool_amount, share_amount, other, pool_id);
    assert(m.pool_sound(m.pool_index(pool_id)));
    let own = m.share_index(investor, pool_id);
    if m.has_share(other, pool_id) {
        let theirs = m.share_index(other, pool_id);
        if theirs < own {
            lemma_two_shares_within_total(m.shares, theirs, own);
        } else {
            lemma_two_shares_within_total(m.shares, own, theirs);
        }
    } else {
        lemma_share_within_total(m.shares, own);
    }
    lemma_entitlement_grows_as_pool_shrinks(
        m.share_amount(other, pool_id) as nat,
        m.revenue(pool_id).distributed as nat,
        m.pool(pool_id).current_amount as nat,
        amount as nat,
    );
}

/// Opening a pool changes no cover in the pools that were there.
pub proof fn law_create_pool_keeps_claims_covered(
    m: StoreModel,
    pool_id: u64,
    target_amount: u64,
    linked_asset_id: u64,
    creator: Principal,
    claimed_pool: u64,
    investor: Principal,
)
    requires
        m.wf(),
        create_pool_check(m, pool_id, target_amount) is Ok,
        m.has_pool(claimed_pool),
        claim_covered(m, claimed_pool, investor),
    ensures
        claim_covered(
            create_pool_post(m, pool_id, target_amount, linked_asset_id, creator),
            claimed_pool,
            investor,
        ),
{
    lemma_pool_added(
        m,
        fresh_pool(pool_id, target_amount, linked_asset_id, creator),
        RevenueAccount { pool_id, total_revenue: 0, distributed: 0 },
        claimed_pool,
    );
}

/// Investing an amount and withdrawing it again is admissible and puts the
/// pool and the investor's share back to where they stood. Nothing else in
/// the ledger has changed either; a share record that the investment created
/// stays on record, at zero.
pub proof fn law_invest_then_withdraw_restores(
    m: StoreModel,
    pool_id: u64,
    investor: Principal,
    amount: u64,
)
    requires
        m.wf(),
        invest_check(m, pool_id, amount) is Ok,
    ensures
        ({
            let invested = invest_post(m, pool_id, investor, amount);
            let restored = withdraw_post(invested, pool_id, investor, amount);
            &&& withdraw_check(invested, pool_id, investor, amount) is Ok
            &&& restored.wf()
            &&& restored.pool(pool_id) == m.pool(pool_id)
            &&& restored.share_amount(investor, pool_id) == m.share_amount(investor, pool_id)
            &&& restored.pools == m.pools
            &&& restored.revenues == m.revenues
            &&& restored.claims == m.claims
            &&& m.has_share(investor, pool_id) ==> restored == m
        }),
{
    let invested = invest_post(m, pool_id, investor, amount);
    let restored = withdraw_post(invested, pool_id, investor, amount);
    lemma_invest_wf(m, pool_id, investor, amount);
    lemma_rebalanced_reads(
        m,
        pool_id,
        investor,
        (m.pool(pool_id).current_amount + amount) as u64,
        (m.share_amount(investor, pool_id) + amount) as u64,
    );
    lemma_withdraw_wf(invested, pool_id, investor, amount);
    lemma_rebalanced_reads(
        invested,
        pool_id,
        investor,
        (invested.pool(pool_id).current_amount - amount) as u64,
        (invested.share_amount(investor, pool_id) - amount) as u64,
    );
    assert(restored.pools =~= m.pools);
    if m.has_share(investor, pool_id) {
        lemma_share_slot(invested, m.share_index(investor, pool_id));
        assert(restored.shares =~= m.shares);
    }
}

/// A second distribution with no payment in between finds nothing to
/// distribute.
pub proof fn law_second_distribution_refused(m: StoreModel, pool_id: u64)
    requires
        m.wf(),
        distribute_revenue_check(m, pool_id) is Ok,
    ensures
        distribute_revenue_check(distribute_revenue_post(m, pool_id), pool_id) == Err::<
            (),
            ErrorCode,
        >(ErrorCode::NoEarningsToClaim),
{
    assert(m.pool_sound(m.pool_index(pool_id)));
    lemma_with_revenue(
        m,
        pool_id,
        RevenueAccount {
            distributed: m.revenue(pool_id).total_revenue,
            ..m.revenue(pool_id)
        },
    );
}

/// An amount of zero is refused as an invalid payment, whatever the ledger
/// holds and however the transfer ended.
pub proof fn law_zero_amount_refused(
    m: StoreModel,
    pool_id: u64,
    principal: Principal,
    transfer: Result<(), TransferError>,
)
    ensures
        invest_result(m, pool_id, principal, 0, transfer) == Err::<
            crate::events::Invested,
            ErrorCode,
        >(ErrorCode::InvalidPayment),
        withdraw_result(m, pool_id, principal, 0, transfer) == Err::<
            crate::events::Withdrawn,
            ErrorCode,
        >(ErrorCode::InvalidPayment),
        record_payment_result(m, pool_id, principal, 0, transfer) == Err::<
            crate::events::PaymentRecorded,
            ErrorCode,
        >(ErrorCode::InvalidPayment),
{
}

} // verus!
