use chain_move::errors::ErrorCode;
use chain_move::investment_pool::{create_pool, invest, withdraw, InvestorShare, PoolAccount};
use chain_move::principal::Principal;
use chain_move::revenue_sharing::{
    claim_earnings, distribute_revenue, record_payment, ClaimRecord, RevenueAccount,
};
use chain_move::store::AccountStore;

fn id(tag: u8) -> Principal {
    Principal::new([tag; 32])
}

fn pool(pool_id: u64, target: u64, current: u64) -> PoolAccount {
    PoolAccount {
        id: pool_id,
        creator: id(9),
        target_amount: target,
        current_amount: current,
        active: true,
        linked_asset_id: 3,
    }
}

fn share(tag: u8, pool_id: u64, amount: u64) -> InvestorShare {
    InvestorShare { investor: id(tag), pool_id, amount }
}

fn revenue(pool_id: u64, total: u64, distributed: u64) -> RevenueAccount {
    RevenueAccount { pool_id, total_revenue: total, distributed }
}

#[test]
fn restore_round_trips_a_live_ledger() {
    let mut store = AccountStore::new();
    create_pool(&mut store, 1, 1000, 3, id(9)).unwrap();
    create_pool(&mut store, 2, 50, 4, id(9)).unwrap();
    invest(&mut store, 1, id(1), 400, Ok(())).unwrap();
    invest(&mut store, 2, id(1), 50, Ok(())).unwrap();
    invest(&mut store, 1, id(2), 600, Ok(())).unwrap();
    record_payment(&mut store, 1, id(7), 500, Ok(())).unwrap();
    distribute_revenue(&mut store, 1).unwrap();
    claim_earnings(&mut store, 1, id(1), Ok(())).unwrap();
    withdraw(&mut store, 1, id(2), 100, Ok(())).unwrap();

    let restored =
        AccountStore::restore(store.pools(), store.shares(), store.revenues(), store.claims())
            .expect("a ledger written by the operations is sound");
    assert_eq!(restored.pools(), store.pools());
    assert_eq!(restored.shares(), store.shares());
    assert_eq!(restored.revenues(), store.revenues());
    assert_eq!(restored.claims(), store.claims());
    assert_eq!(restored.pool(1).unwrap().current_amount, 900);
    assert_eq!(restored.share(&id(2), 1).unwrap().amount, 500);
    assert_eq!(
        restored.claim(&id(1), 1),
        Some(ClaimRecord { investor: id(1), pool_id: 1, claimed_total: 200 })
    );
}

#[test]
fn restore_accepts_sound_records() {
    let restored = AccountStore::restore(
        vec![pool(1, 1000, 700), pool(2, 10, 0)],
        vec![share(1, 1, 300), share(2, 1, 400), share(1, 2, 0)],
        vec![revenue(1, 50, 20), revenue(2, 0, 0)],
        vec![ClaimRecord { investor: id(1), pool_id: 1, claimed_total: 5 }],
    );
    let mut store = restored.expect("sound");
    assert_eq!(store.pool(1), Some(pool(1, 1000, 700)));
    assert_eq!(store.revenue(2), Some(revenue(2, 0, 0)));
    assert_eq!(invest(&mut store, 1, id(1), 301, Ok(())), Err(ErrorCode::InvalidPoolState));
    assert!(invest(&mut store, 1, id(1), 300, Ok(())).is_ok());
    assert_eq!(store.share(&id(1), 1).unwrap().amount, 600);
}

#[test]
fn restore_accepts_the_empty_ledger() {
    assert!(AccountStore::restore(vec![], vec![], vec![], vec![]).is_some());
}

#[test]
fn restore_refuses_shares_that_do_not_add_up() {
    let too_little = AccountStore::restore(
        vec![pool(1, 1000, 700)],
        vec![share(1, 1, 300), share(2, 1, 399)],
        vec![revenue(1, 0, 0)],
        vec![],
    );
    assert!(too_little.is_none());
    let too_much = AccountStore::restore(
        vec![pool(1, 1000, 700)],
        vec![share(1, 1, 300), share(2, 1, 401)],
        vec![revenue(1, 0, 0)],
        vec![],
    );
    assert!(too_much.is_none());
    let far_too_much = AccountStore::restore(
        vec![pool(1, u64::MAX, 700)],
        vec![share(1, 1, u64::MAX), share(2, 1, u64::MAX), share(3, 1, 702)],
        vec![revenue(1, 0, 0)],
        vec![],
    );
    assert!(far_too_much.is_none());
}

#[test]
fn restore_refuses_pool_above_target() {
    let restored = AccountStore::restore(
        vec![pool(1, 100, 101)],
        vec![share(1, 1, 101)],
        vec![revenue(1, 0, 0)],
        vec![],
    );
    assert!(restored.is_none());
}

#[test]
fn restore_refuses_more_distributed_than_received() {
    let restored =
        AccountStore::restore(vec![pool(1, 100, 0)], vec![], vec![revenue(1, 5, 6)], vec![]);
    assert!(restored.is_none());
    let exact =
        AccountStore::restore(vec![pool(1, 100, 0)], vec![], vec![revenue(1, 6, 6)], vec![]);
    assert!(exact.is_some());
}

#[test]
fn restore_refuses_misplaced_or_missing_revenue() {
    assert!(AccountStore::restore(vec![pool(1, 100, 0)], vec![], vec![], vec![]).is_none());
    assert!(
        AccountStore::restore(vec![pool(1, 100, 0)], vec![], vec![revenue(2, 0, 0)], vec![])
            .is_none()
    );
    assert!(AccountStore::restore(
        vec![pool(1, 100, 0), pool(2, 100, 0)],
        vec![],
        vec![revenue(2, 0, 0), revenue(1, 0, 0)],
        vec![]
    )
    .is_none());
}

#[test]
fn restore_refuses_duplicate_keys() {
    assert!(AccountStore::restore(
        vec![pool(1, 100, 0), pool(1, 200, 0)],
        vec![],
        vec![revenue(1, 0, 0), revenue(1, 0, 0)],
        vec![]
    )
    .is_none());
    assert!(AccountStore::restore(
        vec![pool(1, 100, 30)],
        vec![share(1, 1, 10), share(1, 1, 20)],
        vec![revenue(1, 0, 0)],
        vec![]
    )
    .is_none());
    let twice = ClaimRecord { investor: id(1), pool_id: 1, claimed_total: 0 };
    assert!(AccountStore::restore(
        vec![pool(1, 100, 0)],
        vec![],
        vec![revenue(1, 0, 0)],
        vec![twice, twice]
    )
    .is_none());
}

#[test]
fn restore_refuses_share_in_unknown_pool() {
    assert!(AccountStore::restore(
        vec![pool(1, 100, 0)],
        vec![share(1, 2, 0)],
        vec![revenue(1, 0, 0)],
        vec![]
    )
    .is_none());
}

#[test]
fn inactive_pool_takes_no_investment_and_pays_no_withdrawal() {
    let closed = PoolAccount { active: false, ..pool(1, 1000, 300) };
    let mut store = AccountStore::restore(
        vec![closed],
        vec![share(1, 1, 300)],
        vec![revenue(1, 0, 0)],
        vec![],
    )
    .expect("sound");
    assert_eq!(invest(&mut store, 1, id(1), 10, Ok(())), Err(ErrorCode::InvalidPoolState));
    assert_eq!(withdraw(&mut store, 1, id(1), 10, Ok(())), Err(ErrorCode::InvalidPoolState));
    // the balance is looked at before the pool's state
    assert_eq!(withdraw(&mut store, 1, id(1), 301, Ok(())), Err(ErrorCode::InsufficientFunds));
    assert_eq!(store.pool(1), Some(closed));
    assert_eq!(store.share(&id(1), 1), Some(share(1, 1, 300)));
    // revenue is still booked and claimed
    assert!(record_payment(&mut store, 1, id(7), 30, Ok(())).is_ok());
    assert!(distribute_revenue(&mut store, 1).is_ok());
    assert_eq!(claim_earnings(&mut store, 1, id(1), Ok(())).unwrap().amount, 30);
}
