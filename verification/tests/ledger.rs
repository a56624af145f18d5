use chain_move::errors::ErrorCode;
use chain_move::events::{
    EarningsClaimed, Invested, PaymentRecorded, PoolCreated, RevenueDistributed, Withdrawn,
};
use chain_move::investment_pool::{
    create_pool, invest, plan_invest, plan_withdraw, withdraw, InvestorShare, PoolAccount,
};
use chain_move::principal::Principal;
use chain_move::revenue_sharing::{
    claim_earnings, distribute_revenue, entitlement, plan_claim_earnings, plan_record_payment,
    record_payment, ClaimRecord, RevenueAccount,
};
use chain_move::store::AccountStore;
use chain_move::transfer::{Account, Authority, TransferError, TransferOrder};

fn who(tag: u8) -> Principal {
    let mut key = [0u8; 32];
    key[0] = tag;
    key[31] = tag;
    Principal::new(key)
}

fn store_with_pool(pool_id: u64, target: u64) -> AccountStore {
    let mut store = AccountStore::new();
    create_pool(&mut store, pool_id, target, 77, who(9)).unwrap();
    store
}

/// A pool of 1000 in which A holds 400 and B holds 600.
fn funded_store() -> AccountStore {
    let mut store = store_with_pool(1, 1000);
    invest(&mut store, 1, who(1), 400, Ok(())).unwrap();
    invest(&mut store, 1, who(2), 600, Ok(())).unwrap();
    store
}

#[test]
fn new_store_is_empty() {
    let store = AccountStore::new();
    assert_eq!(store.pool(1), None);
    assert_eq!(store.revenue(1), None);
    assert_eq!(store.share(&who(1), 1), None);
    assert_eq!(store.claim(&who(1), 1), None);
}

#[test]
fn create_pool_starts_empty_and_active() {
    let mut store = AccountStore::new();
    let pool = create_pool(&mut store, 5, 1000, 42, who(3)).unwrap();
    let expected = PoolAccount {
        id: 5,
        creator: who(3),
        target_amount: 1000,
        current_amount: 0,
        active: true,
        linked_asset_id: 42,
    };
    assert_eq!(pool, expected);
    assert_eq!(store.pool(5), Some(expected));
    assert_eq!(
        store.revenue(5),
        Some(RevenueAccount { pool_id: 5, total_revenue: 0, distributed: 0 })
    );
    assert_eq!(
        pool.created(),
        PoolCreated { creator: who(3), pool_id: 5, target_amount: 1000 }
    );
}

#[test]
fn create_pool_twice_already_exists() {
    let mut store = store_with_pool(5, 1000);
    assert_eq!(create_pool(&mut store, 5, 2000, 1, who(4)), Err(ErrorCode::AlreadyExists));
    assert_eq!(create_pool(&mut store, 5, 0, 1, who(4)), Err(ErrorCode::AlreadyExists));
    assert_eq!(store.pool(5).unwrap().target_amount, 1000);
}

#[test]
fn create_pool_zero_target_invalid_payment() {
    let mut store = AccountStore::new();
    assert_eq!(create_pool(&mut store, 5, 0, 1, who(4)), Err(ErrorCode::InvalidPayment));
    assert_eq!(store.pool(5), None);
}

#[test]
fn invest_within_target_then_beyond() {
    let mut store = store_with_pool(1, 1000);
    assert_eq!(
        invest(&mut store, 1, who(1), 400, Ok(())),
        Ok(Invested { investor: who(1), pool_id: 1, amount: 400 })
    );
    assert_eq!(store.pool(1).unwrap().current_amount, 400);
    assert_eq!(invest(&mut store, 1, who(2), 700, Ok(())), Err(ErrorCode::InvalidPoolState));
    assert_eq!(plan_invest(&store, 1, who(2), 700), Err(ErrorCode::InvalidPoolState));
    assert_eq!(store.pool(1).unwrap().current_amount, 400);
    assert_eq!(store.share(&who(2), 1), None);
}

#[test]
fn invest_up_to_target_exactly() {
    let mut store = store_with_pool(1, 1000);
    invest(&mut store, 1, who(1), 400, Ok(())).unwrap();
    assert!(invest(&mut store, 1, who(2), 600, Ok(())).is_ok());
    assert_eq!(store.pool(1).unwrap().current_amount, 1000);
    assert_eq!(invest(&mut store, 1, who(2), 1, Ok(())), Err(ErrorCode::InvalidPoolState));
}

#[test]
fn invest_accumulates_in_one_share() {
    let mut store = store_with_pool(1, 1000);
    invest(&mut store, 1, who(1), 100, Ok(())).unwrap();
    invest(&mut store, 1, who(1), 250, Ok(())).unwrap();
    assert_eq!(
        store.share(&who(1), 1),
        Some(InvestorShare { investor: who(1), pool_id: 1, amount: 350 })
    );
    assert_eq!(store.pool(1).unwrap().current_amount, 350);
}

#[test]
fn invest_unknown_pool_not_found() {
    let mut store = store_with_pool(1, 1000);
    assert_eq!(invest(&mut store, 2, who(1), 10, Ok(())), Err(ErrorCode::NotFound));
    assert_eq!(plan_invest(&store, 2, who(1), 10), Err(ErrorCode::NotFound));
}

#[test]
fn plan_invest_names_the_transfer() {
    let store = store_with_pool(1, 1000);
    assert_eq!(
        plan_invest(&store, 1, who(1), 400),
        Ok(TransferOrder {
            from: Account::Holder(who(1)),
            to: Account::PoolVault(1),
            amount: 400,
            authority: Authority::Signer(who(1)),
        })
    );
}

#[test]
fn failed_transfer_changes_nothing() {
    let mut store = store_with_pool(1, 1000);
    assert_eq!(
        invest(&mut store, 1, who(1), 400, Err(TransferError::InsufficientFunds)),
        Err(ErrorCode::InsufficientFunds)
    );
    assert_eq!(
        invest(&mut store, 1, who(1), 400, Err(TransferError::Unauthorized)),
        Err(ErrorCode::Unauthorized)
    );
    assert_eq!(store.pool(1).unwrap().current_amount, 0);
    assert_eq!(store.share(&who(1), 1), None);

    assert_eq!(
        record_payment(&mut store, 1, who(3), 10, Err(TransferError::Unauthorized)),
        Err(ErrorCode::Unauthorized)
    );
    assert_eq!(store.revenue(1).unwrap().total_revenue, 0);

    invest(&mut store, 1, who(1), 400, Ok(())).unwrap();
    assert_eq!(
        withdraw(&mut store, 1, who(1), 100, Err(TransferError::InsufficientFunds)),
        Err(ErrorCode::InsufficientFunds)
    );
    assert_eq!(store.share(&who(1), 1).unwrap().amount, 400);
    assert_eq!(store.pool(1).unwrap().current_amount, 400);
}

#[test]
fn validation_comes_before_the_transfer_outcome() {
    let mut store = store_with_pool(1, 1000);
    assert_eq!(
        invest(&mut store, 1, who(1), 0, Err(TransferError::Unauthorized)),
        Err(ErrorCode::InvalidPayment)
    );
    assert_eq!(
        invest(&mut store, 9, who(1), 5, Err(TransferError::Unauthorized)),
        Err(ErrorCode::NotFound)
    );
}

#[test]
fn invest_then_withdraw_restores() {
    let mut store = funded_store();
    withdraw(&mut store, 1, who(2), 300, Ok(())).unwrap();
    let pool_before = store.pool(1).unwrap();
    let share_before = store.share(&who(1), 1).unwrap();
    invest(&mut store, 1, who(1), 100, Ok(())).unwrap();
    assert_eq!(store.pool(1).unwrap().current_amount, pool_before.current_amount + 100);
    assert_eq!(
        withdraw(&mut store, 1, who(1), 100, Ok(())),
        Ok(Withdrawn { investor: who(1), pool_id: 1, amount: 100 })
    );
    assert_eq!(store.pool(1), Some(pool_before));
    assert_eq!(store.share(&who(1), 1), Some(share_before));
}

#[test]
fn first_invest_then_withdraw_leaves_share_at_zero() {
    let mut store = store_with_pool(1, 1000);
    invest(&mut store, 1, who(1), 100, Ok(())).unwrap();
    withdraw(&mut store, 1, who(1), 100, Ok(())).unwrap();
    assert_eq!(store.pool(1).unwrap().current_amount, 0);
    assert_eq!(
        store.share(&who(1), 1),
        Some(InvestorShare { investor: who(1), pool_id: 1, amount: 0 })
    );
}

#[test]
fn withdraw_more_than_share_insufficient_funds() {
    let mut store = funded_store();
    assert_eq!(withdraw(&mut store, 1, who(1), 401, Ok(())), Err(ErrorCode::InsufficientFunds));
    assert_eq!(plan_withdraw(&store, 1, who(1), 401), Err(ErrorCode::InsufficientFunds));
    assert_eq!(store.share(&who(1), 1).unwrap().amount, 400);
}

#[test]
fn withdraw_without_pool_or_share_not_found() {
    let mut store = funded_store();
    assert_eq!(withdraw(&mut store, 2, who(1), 10, Ok(())), Err(ErrorCode::NotFound));
    assert_eq!(withdraw(&mut store, 1, who(5), 10, Ok(())), Err(ErrorCode::NotFound));
    assert_eq!(plan_withdraw(&store, 1, who(5), 10), Err(ErrorCode::NotFound));
}

#[test]
fn plan_withdraw_uses_the_pool_authority() {
    let store = funded_store();
    assert_eq!(
        plan_withdraw(&store, 1, who(1), 150),
        Ok(TransferOrder {
            from: Account::PoolVault(1),
            to: Account::Holder(who(1)),
            amount: 150,
            authority: Authority::PoolAuthority(1),
        })
    );
}

#[test]
fn zero_amount_is_invalid_payment() {
    let mut store = funded_store();
    assert_eq!(invest(&mut store, 1, who(1), 0, Ok(())), Err(ErrorCode::InvalidPayment));
    assert_eq!(withdraw(&mut store, 1, who(1), 0, Ok(())), Err(ErrorCode::InvalidPayment));
    assert_eq!(record_payment(&mut store, 1, who(1), 0, Ok(())), Err(ErrorCode::InvalidPayment));
    assert_eq!(plan_invest(&store, 1, who(1), 0), Err(ErrorCode::InvalidPayment));
    assert_eq!(plan_withdraw(&store, 1, who(1), 0), Err(ErrorCode::InvalidPayment));
    assert_eq!(plan_record_payment(&store, 1, who(1), 0), Err(ErrorCode::InvalidPayment));
    // also where the pool does not exist
    assert_eq!(invest(&mut store, 8, who(1), 0, Ok(())), Err(ErrorCode::InvalidPayment));
    assert_eq!(withdraw(&mut store, 8, who(1), 0, Ok(())), Err(ErrorCode::InvalidPayment));
    assert_eq!(record_payment(&mut store, 8, who(1), 0, Ok(())), Err(ErrorCode::InvalidPayment));
}

#[test]
fn shares_add_up_to_pool_amount() {
    let mut store = store_with_pool(1, 1000);
    create_pool(&mut store, 2, 500, 78, who(9)).unwrap();
    invest(&mut store, 1, who(1), 400, Ok(())).unwrap();
    invest(&mut store, 2, who(1), 50, Ok(())).unwrap();
    invest(&mut store, 1, who(2), 300, Ok(())).unwrap();
    invest(&mut store, 1, who(3), 200, Ok(())).unwrap();
    withdraw(&mut store, 1, who(2), 120, Ok(())).unwrap();
    let mut sum = 0u64;
    for tag in 1u8..=3 {
        sum += store.share(&who(tag), 1).map(|s| s.amount).unwrap_or(0);
    }
    let pool = store.pool(1).unwrap();
    assert_eq!(sum, 780);
    assert_eq!(pool.current_amount, 780);
    assert!(pool.current_amount <= pool.target_amount);
    assert_eq!(store.pool(2).unwrap().current_amount, 50);
    assert_eq!(store.share(&who(1), 2).unwrap().amount, 50);
}

#[test]
fn record_payment_grows_total_revenue() {
    let mut store = store_with_pool(1, 1000);
    assert_eq!(
        plan_record_payment(&store, 1, who(7), 500),
        Ok(TransferOrder {
            from: Account::Holder(who(7)),
            to: Account::RevenueVault(1),
            amount: 500,
            authority: Authority::Signer(who(7)),
        })
    );
    assert_eq!(
        record_payment(&mut store, 1, who(7), 500, Ok(())),
        Ok(PaymentRecorded { payer: who(7), pool_id: 1, amount: 500 })
    );
    record_payment(&mut store, 1, who(7), 25, Ok(())).unwrap();
    assert_eq!(
        store.revenue(1),
        Some(RevenueAccount { pool_id: 1, total_revenue: 525, distributed: 0 })
    );
}

#[test]
fn record_payment_unknown_pool_not_found() {
    let mut store = store_with_pool(1, 1000);
    assert_eq!(record_payment(&mut store, 3, who(7), 500, Ok(())), Err(ErrorCode::NotFound));
}

#[test]
fn record_payment_beyond_64_bits_overflows() {
    let mut store = store_with_pool(1, 1000);
    record_payment(&mut store, 1, who(7), u64::MAX - 5, Ok(())).unwrap();
    assert_eq!(record_payment(&mut store, 1, who(7), 6, Ok(())), Err(ErrorCode::Overflow));
    assert_eq!(plan_record_payment(&store, 1, who(7), 6), Err(ErrorCode::Overflow));
    assert!(record_payment(&mut store, 1, who(7), 5, Ok(())).is_ok());
    assert_eq!(store.revenue(1).unwrap().total_revenue, u64::MAX);
}

#[test]
fn distribute_marks_everything_received() {
    let mut store = store_with_pool(1, 1000);
    record_payment(&mut store, 1, who(7), 500, Ok(())).unwrap();
    assert_eq!(
        distribute_revenue(&mut store, 1),
        Ok(RevenueDistributed { pool_id: 1, total_distributed: 500 })
    );
    assert_eq!(
        store.revenue(1),
        Some(RevenueAccount { pool_id: 1, total_revenue: 500, distributed: 500 })
    );
    record_payment(&mut store, 1, who(7), 70, Ok(())).unwrap();
    assert_eq!(
        distribute_revenue(&mut store, 1),
        Ok(RevenueDistributed { pool_id: 1, total_distributed: 70 })
    );
    let revenue = store.revenue(1).unwrap();
    assert_eq!(revenue.distributed, 570);
    assert!(revenue.distributed <= revenue.total_revenue);
}

#[test]
fn distribute_twice_finds_nothing() {
    let mut store = store_with_pool(1, 1000);
    record_payment(&mut store, 1, who(7), 500, Ok(())).unwrap();
    distribute_revenue(&mut store, 1).unwrap();
    assert_eq!(distribute_revenue(&mut store, 1), Err(ErrorCode::NoEarningsToClaim));
    assert_eq!(store.revenue(1).unwrap().distributed, 500);
}

#[test]
fn distribute_without_revenue_or_pool() {
    let mut store = store_with_pool(1, 1000);
    assert_eq!(distribute_revenue(&mut store, 1), Err(ErrorCode::NoEarningsToClaim));
    assert_eq!(distribute_revenue(&mut store, 2), Err(ErrorCode::NotFound));
}

#[test]
fn claim_pays_proportional_share_once() {
    let mut store = funded_store();
    record_payment(&mut store, 1, who(7), 500, Ok(())).unwrap();
    distribute_revenue(&mut store, 1).unwrap();
    assert_eq!(store.revenue(1).unwrap().distributed, 500);
    assert_eq!(
        plan_claim_earnings(&store, 1, who(1)),
        Ok(TransferOrder {
            from: Account::RevenueVault(1),
            to: Account::Holder(who(1)),
            amount: 200,
            authority: Authority::RevenueAuthority(1),
        })
    );
    assert_eq!(
        claim_earnings(&mut store, 1, who(1), Ok(())),
        Ok(EarningsClaimed { claimer: who(1), pool_id: 1, amount: 200 })
    );
    assert_eq!(
        store.claim(&who(1), 1),
        Some(ClaimRecord { investor: who(1), pool_id: 1, claimed_total: 200 })
    );
    assert_eq!(claim_earnings(&mut store, 1, who(1), Ok(())), Err(ErrorCode::NoEarningsToClaim));
    assert_eq!(plan_claim_earnings(&store, 1, who(1)), Err(ErrorCode::NoEarningsToClaim));
    assert_eq!(store.claim(&who(1), 1).unwrap().claimed_total, 200);
}

#[test]
fn later_claim_pays_only_the_difference() {
    let mut store = funded_store();
    record_payment(&mut store, 1, who(7), 500, Ok(())).unwrap();
    distribute_revenue(&mut store, 1).unwrap();
    claim_earnings(&mut store, 1, who(1), Ok(())).unwrap();
    record_payment(&mut store, 1, who(7), 251, Ok(())).unwrap();
    distribute_revenue(&mut store, 1).unwrap();
    // floor(400 * 751 / 1000) = 300, of which 200 were paid
    assert_eq!(
        claim_earnings(&mut store, 1, who(1), Ok(())),
        Ok(EarningsClaimed { claimer: who(1), pool_id: 1, amount: 100 })
    );
    assert_eq!(store.claim(&who(1), 1).unwrap().claimed_total, 300);
    // floor(600 * 751 / 1000) = 450
    assert_eq!(
        claim_earnings(&mut store, 1, who(2), Ok(())),
        Ok(EarningsClaimed { claimer: who(2), pool_id: 1, amount: 450 })
    );
    let paid = store.claim(&who(1), 1).unwrap().claimed_total
        + store.claim(&who(2), 1).unwrap().claimed_total;
    assert!(paid <= store.revenue(1).unwrap().distributed);
}

#[test]
fn claim_record_stays_within_entitlement() {
    let mut store = funded_store();
    record_payment(&mut store, 1, who(7), 333, Ok(())).unwrap();
    distribute_revenue(&mut store, 1).unwrap();
    claim_earnings(&mut store, 1, who(1), Ok(())).unwrap();
    let share = store.share(&who(1), 1).unwrap().amount;
    let distributed = store.revenue(1).unwrap().distributed;
    let held = store.pool(1).unwrap().current_amount;
    let entitled = entitlement(share, distributed, held).unwrap();
    assert_eq!(entitled, 133);
    assert!(store.claim(&who(1), 1).unwrap().claimed_total <= entitled);
    record_payment(&mut store, 1, who(7), 1, Ok(())).unwrap();
    distribute_revenue(&mut store, 1).unwrap();
    let entitled = entitlement(share, store.revenue(1).unwrap().distributed, held).unwrap();
    assert!(store.claim(&who(1), 1).unwrap().claimed_total <= entitled);
}

#[test]
fn failed_claim_transfer_leaves_claim_open() {
    let mut store = funded_store();
    record_payment(&mut store, 1, who(7), 500, Ok(())).unwrap();
    distribute_revenue(&mut store, 1).unwrap();
    assert_eq!(
        claim_earnings(&mut store, 1, who(1), Err(TransferError::InsufficientFunds)),
        Err(ErrorCode::InsufficientFunds)
    );
    assert_eq!(store.claim(&who(1), 1), None);
    assert_eq!(
        claim_earnings(&mut store, 1, who(1), Ok(())),
        Ok(EarningsClaimed { claimer: who(1), pool_id: 1, amount: 200 })
    );
}

#[test]
fn claim_without_pool_or_share_not_found() {
    let mut store = funded_store();
    assert_eq!(claim_earnings(&mut store, 2, who(1), Ok(())), Err(ErrorCode::NotFound));
    assert_eq!(claim_earnings(&mut store, 1, who(5), Ok(())), Err(ErrorCode::NotFound));
    assert_eq!(plan_claim_earnings(&store, 1, who(5)), Err(ErrorCode::NotFound));
}

#[test]
fn claim_with_nothing_distributed() {
    let mut store = funded_store();
    assert_eq!(claim_earnings(&mut store, 1, who(1), Ok(())), Err(ErrorCode::NoEarningsToClaim));
    record_payment(&mut store, 1, who(7), 500, Ok(())).unwrap();
    assert_eq!(claim_earnings(&mut store, 1, who(1), Ok(())), Err(ErrorCode::NoEarningsToClaim));
}

#[test]
fn claim_after_entitlement_shrank_is_invalid_state() {
    let mut store = funded_store();
    record_payment(&mut store, 1, who(7), 500, Ok(())).unwrap();
    distribute_revenue(&mut store, 1).unwrap();
    claim_earnings(&mut store, 1, who(1), Ok(())).unwrap();
    withdraw(&mut store, 1, who(1), 200, Ok(())).unwrap();
    // floor(200 * 500 / 800) = 125, below the 200 already paid
    assert_eq!(claim_earnings(&mut store, 1, who(1), Ok(())), Err(ErrorCode::InvalidPoolState));
    assert_eq!(store.claim(&who(1), 1).unwrap().claimed_total, 200);
}

#[test]
fn claim_in_emptied_pool_has_no_entitlement() {
    let mut store = store_with_pool(1, 1000);
    invest(&mut store, 1, who(1), 100, Ok(())).unwrap();
    record_payment(&mut store, 1, who(7), 500, Ok(())).unwrap();
    distribute_revenue(&mut store, 1).unwrap();
    withdraw(&mut store, 1, who(1), 100, Ok(())).unwrap();
    assert_eq!(claim_earnings(&mut store, 1, who(1), Ok(())), Err(ErrorCode::NoEarningsToClaim));
}

#[test]
fn entitlement_is_floor_of_proportion() {
    assert_eq!(entitlement(400, 500, 1000), Ok(200));
    assert_eq!(entitlement(1, 1, 3), Ok(0));
    assert_eq!(entitlement(2, 5, 3), Ok(3));
    assert_eq!(entitlement(7, 0, 3), Ok(0));
    assert_eq!(entitlement(7, 9, 0), Ok(0));
    assert_eq!(entitlement(u64::MAX, u64::MAX, u64::MAX), Ok(u64::MAX));
    assert_eq!(entitlement(u64::MAX / 2, u64::MAX, u64::MAX), Ok(u64::MAX / 2));
}

#[test]
fn entitlement_beyond_64_bits_overflows() {
    assert_eq!(entitlement(u64::MAX, u64::MAX, 1), Err(ErrorCode::Overflow));
    assert_eq!(entitlement(1 << 32, 1 << 32, 1), Err(ErrorCode::Overflow));
    assert_eq!(entitlement(1 << 32, (1 << 32) - 1, 1), Ok(((1u64 << 32) - 1) << 32));
}

#[test]
fn principals_compare_by_key() {
    let a = who(1);
    let mut key = a.key;
    assert!(a.same_as(&Principal::new(key)));
    key[17] = 1;
    assert!(!a.same_as(&Principal::new(key)));
    assert!(!who(1).same_as(&who(2)));
}

#[test]
fn same_pool_id_different_investors_are_distinct_shares() {
    let mut store = store_with_pool(1, 1000);
    create_pool(&mut store, 2, 1000, 1, who(9)).unwrap();
    invest(&mut store, 1, who(1), 10, Ok(())).unwrap();
    invest(&mut store, 2, who(1), 20, Ok(())).unwrap();
    invest(&mut store, 1, who(2), 30, Ok(())).unwrap();
    assert_eq!(store.share(&who(1), 1).unwrap().amount, 10);
    assert_eq!(store.share(&who(1), 2).unwrap().amount, 20);
    assert_eq!(store.share(&who(2), 1).unwrap().amount, 30);
    assert_eq!(store.share(&who(2), 2), None);
}

#[test]
fn transfer_errors_map_to_error_codes() {
    assert_eq!(TransferError::InsufficientFunds.to_error_code(), ErrorCode::InsufficientFunds);
    assert_eq!(TransferError::Unauthorized.to_error_code(), ErrorCode::Unauthorized);
}

#[test]
fn error_messages() {
    assert_eq!(ErrorCode::InvalidPayment.message(), "Payment amount must be positive");
    assert_eq!(
        ErrorCode::InsufficientFunds.message(),
        "Insufficient funds for investment or withdrawal"
    );
    assert_eq!(ErrorCode::InvalidPoolState.message(), "Pool is not active or has reached target");
    assert_eq!(ErrorCode::NoEarningsToClaim.message(), "No claimable earnings available");
    assert_ne!(ErrorCode::NotFound.message(), ErrorCode::AlreadyExists.message());
    assert_ne!(ErrorCode::Unauthorized.message(), ErrorCode::Overflow.message());
}

#[test]
fn investment_by_another_shrinks_a_paid_out_entitlement() {
    let mut store = store_with_pool(1, 2000);
    invest(&mut store, 1, who(1), 400, Ok(())).unwrap();
    invest(&mut store, 1, who(2), 600, Ok(())).unwrap();
    record_payment(&mut store, 1, who(7), 500, Ok(())).unwrap();
    distribute_revenue(&mut store, 1).unwrap();
    assert_eq!(claim_earnings(&mut store, 1, who(1), Ok(())).unwrap().amount, 200);
    invest(&mut store, 1, who(2), 1000, Ok(())).unwrap();
    // floor(400 * 500 / 2000) = 100, below the 200 already paid
    assert_eq!(entitlement(400, 500, 2000), Ok(100));
    assert_eq!(claim_earnings(&mut store, 1, who(1), Ok(())), Err(ErrorCode::InvalidPoolState));
    // the investor who added to the pool is entitled to floor(1600 * 500 / 2000)
    assert_eq!(claim_earnings(&mut store, 1, who(2), Ok(())).unwrap().amount, 400);
}

#[test]
fn own_investment_keeps_own_claim_within_entitlement() {
    let mut store = store_with_pool(1, 2000);
    invest(&mut store, 1, who(1), 400, Ok(())).unwrap();
    invest(&mut store, 1, who(2), 600, Ok(())).unwrap();
    record_payment(&mut store, 1, who(7), 500, Ok(())).unwrap();
    distribute_revenue(&mut store, 1).unwrap();
    claim_earnings(&mut store, 1, who(1), Ok(())).unwrap();
    invest(&mut store, 1, who(1), 1000, Ok(())).unwrap();
    // floor(1400 * 500 / 2000) = 350, of which 200 were paid
    assert_eq!(claim_earnings(&mut store, 1, who(1), Ok(())).unwrap().amount, 150);
    assert_eq!(store.claim(&who(1), 1).unwrap().claimed_total, 350);
}
