use crate::errors::ErrorCode;
use crate::events::{Invested, PoolCreated, Withdrawn};
use crate::model::{
    lemma_pool_slot, lemma_rebalanced_wf, lemma_share_slot, lemma_share_total_absent,
    lemma_share_within_total, StoreModel,
};
use crate::principal::Principal;
use crate::revenue_sharing::RevenueAccount;
use crate::store::AccountStore;
use crate::transfer::{transfer_failure, Account, Authority, TransferError, TransferOrder};
use vstd::prelude::*;

verus! {

/// An investment vehicle that collects up to `target_amount` for one asset.
#[derive(Clone, Copy, Debug, PartialEq, Eq)]
pub struct PoolAccount {
    pub id: u64,
    pub creator: Principal,
    pub target_amount: u64,
    pub current_amount: u64,
    pub active: bool,
    pub linked_asset_id: u64,
}

/// What one investor has put into one pool.
#[derive(Clone, Copy, Debug, PartialEq, Eq)]
pub struct InvestorShare {
    pub investor: Principal,
    pub pool_id: u64,
    pub amount: u64,
}

impl PoolAccount {
    /// The event that announces this pool.
    pub fn created(&self) -> (event: PoolCreated)
        ensures
            event == (PoolCreated {
                creator: self.creator,
                pool_id: self.id,
                target_amount: self.target_amount,
            }),
    {
        PoolCreated { creator: self.creator, pool_id: self.id, target_amount: self.target_amount }
    }
}

/// Whether a pool may be opened under this identifier.
pub open spec fn create_pool_check(m: StoreModel, pool_id: u64, target_amount: u64) -> Result<
    (),
    ErrorCode,
> {
    if m.has_pool(pool_id) {
        Err(ErrorCode::AlreadyExists)
    } else if target_amount == 0 {
        Err(ErrorCode::InvalidPayment)
    } else {
        Ok(())
    }
}

/// A pool as it is opened: empty and active.
pub open spec fn fresh_pool(
    pool_id: u64,
    target_amount: u64,
    linked_asset_id: u64,
    creator: Principal,
) -> PoolAccount {
    PoolAccount {
        id: pool_id,
        creator,
        target_amount,
        current_amount: 0,
        active: true,
        linked_asset_id,
    }
}

/// The ledger after a pool was opened: the pool and its revenue record, both
/// at zero, come last.
pub open spec fn create_pool_post(
    m: StoreModel,
    pool_id: u64,
    target_amount: u64,
    linked_asset_id: u64,
    creator: Principal,
) -> StoreModel {
    StoreModel {
        pools: m.pools.push(fresh_pool(pool_id, target_amount, linked_asset_id, creator)),
        revenues: m.revenues.push(RevenueAccount { pool_id, total_revenue: 0, distributed: 0 }),
        ..m
    }
}

/// Opening a pool keeps the ledger's invariant.
pub proof fn lemma_create_pool_wf(
    m: StoreModel,
    pool_id: u64,
    target_amount: u64,
    linked_asset_id: u64,
    creator: Principal,
)
    requires
        m.wf(),
        !m.has_pool(pool_id),
    ensures
        create_pool_post(m, pool_id, target_amount, linked_asset_id, creator).wf(),
{
    let post = create_pool_post(m, pool_id, target_amount, linked_asset_id, creator);
    let n = m.pools.len() as int;
    assert forall|i: int| 0 <= i < m.shares.len() implies (#[trigger] m.shares[i]).pool_id
        != pool_id by {
        assert(m.has_pool(m.shares[i].pool_id));
    }
    lemma_share_total_absent(m.shares, pool_id);
    assert forall|i: int| 0 <= i < post.pools.len() implies #[trigger] post.pool_sound(i) by {
        if i < n {
            assert(m.pool_sound(i));
        }
    }
    assert forall|i: int, j: int| 0 <= i < j < post.pools.len() implies (#[trigger] post.pools[i]).id
        != (#[trigger] post.pools[j]).id by {
        if j < n {
            assert(m.pools[i].id != m.pools[j].id);
        } else {
            assert(m.pools[i].id != pool_id);
        }
    }
    assert forall|i: int| 0 <= i < post.shares.len() implies post.has_pool(
        (#[trigger] post.shares[i]).pool_id,
    ) by {
        let id = m.shares[i].pool_id;
        assert(m.has_pool(id));
        let k = m.pool_index(id);
        assert(post.pools[k].id == id);
    }
}

/// Opens a pool. It starts empty and active, with a revenue record at zero.
pub fn create_pool(
    store: &mut AccountStore,
    pool_id: u64,
    target_amount: u64,
    linked_asset_id: u64,
    creator: Principal,
) -> (result: Result<PoolAccount, ErrorCode>)
    requires
        old(store)@.wf(),
    ensures
        final(store)@.wf(),
        match create_pool_check(old(store)@, pool_id, target_amount) {
            Err(e) => result == Err::<PoolAccount, ErrorCode>(e) && final(store)@ == old(store)@,
            Ok(()) => result == Ok::<PoolAccount, ErrorCode>(
                fresh_pool(pool_id, target_amount, linked_asset_id, creator),
            ) && final(store)@ == create_pool_post(
                old(store)@,
                pool_id,
                target_amount,
                linked_asset_id,
                creator,
            ),
        },
{
    if let Some(taken) = store.find_pool(pool_id) {
        proof {
            lemma_pool_slot(store@, taken as int);
        }
        return Err(ErrorCode::AlreadyExists);
    }
    if target_amount == 0 {
        return Err(ErrorCode::InvalidPayment);
    }
    let pool = PoolAccount {
        id: pool_id,
        creator,
        target_amount,
        current_amount: 0,
        active: true,
        linked_asset_id,
    };
    proof {
        lemma_create_pool_wf(store@, pool_id, target_amount, linked_asset_id, creator);
    }
    store.add_pool(pool, RevenueAccount { pool_id, total_revenue: 0, distributed: 0 });
    Ok(pool)
}

/// Whether an investment of `amount` into the pool is admissible.
pub open spec fn invest_check(m: StoreModel, pool_id: u64, amount: u64) -> Result<(), ErrorCode> {
    if amount == 0 {
        Err(ErrorCode::InvalidPayment)
    } else if !m.has_pool(pool_id) {
        Err(ErrorCode::NotFound)
    } else if !m.pool(pool_id).active || m.pool(pool_id).current_amount + amount > m.pool(
        pool_id,
    ).target_amount {
        Err(ErrorCode::InvalidPoolState)
    } else {
        Ok(())
    }
}

/// The transfer behind an investment: from the investor, who signs for it,
/// into the pool's vault.
pub open spec fn invest_order(pool_id: u64, investor: Principal, amount: u64) -> TransferOrder {
    TransferOrder {
        from: Account::Holder(investor),
        to: Account::PoolVault(pool_id),
        amount,
        authority: Authority::Signer(investor),
    }
}

/// The ledger after an admissible investment whose transfer went through.
pub open spec fn invest_post(
    m: StoreModel,
    pool_id: u64,
    investor: Principal,
    amount: u64,
) -> StoreModel {
    m.rebalanced(
        pool_id,
        investor,
        (m.pool(pool_id).current_amount + amount) as u64,
        (m.share_amount(investor, pool_id) + amount) as u64,
    )
}

/// What `invest` answers, given the ledger and how the transfer ended.
pub open spec fn invest_result(
    m: StoreModel,
    pool_id: u64,
    investor: Principal,
    amount: u64,
    transfer: Result<(), TransferError>,
) -> Result<Invested, ErrorCode> {
    match invest_check(m, pool_id, amount) {
        Err(e) => Err(e),
        Ok(()) => match transfer {
            Err(t) => Err(transfer_failure(t)),
            Ok(()) => Ok(Invested { investor, pool_id, amount }),
        },
    }
}

/// An admissible investment keeps every share within 64 bits and the
/// ledger's invariant.
pub proof fn lemma_invest_wf(m: StoreModel, pool_id: u64, investor: Principal, amount: u64)
    requires
        m.wf(),
        invest_check(m, pool_id, amount) is Ok,
    ensures
        m.share_amount(investor, pool_id) + amount <= m.pool(pool_id).current_amount + amount
            <= m.pool(pool_id).target_amount,
        invest_post(m, pool_id, investor, amount).wf(),
{
    let i = m.pool_index(pool_id);
    assert(m.pool_sound(i));
    if m.has_share(investor, pool_id) {
        lemma_share_within_total(m.shares, m.share_index(investor, pool_id));
    }
    lemma_rebalanced_wf(
        m,
        pool_id,
        investor,
        (m.pool(pool_id).current_amount + amount) as u64,
        (m.share_amount(investor, pool_id) + amount) as u64,
    );
}

/// Finds the pool and checks that it can take the amount.
fn admit_investment(store: &AccountStore, pool_id: u64, amount: u64) -> (slot: Result<
    usize,
    ErrorCode,
>)
    requires
        store@.wf(),
    ensures
        match slot {
            Err(e) => invest_check(store@, pool_id, amount) == Err::<(), ErrorCode>(e),
            Ok(i) => invest_check(store@, pool_id, amount) is Ok && i == store@.pool_index(
                pool_id,
            ) && i < store@.pools.len(),
        },
{
    if amount == 0 {
        return Err(ErrorCode::InvalidPayment);
    }
    let slot = match store.find_pool(pool_id) {
        Some(i) => i,
        None => { return Err(ErrorCode::NotFound); },
    };
    proof {
        lemma_pool_slot(store@, slot as int);
        assert(store@.pool_sound(slot as int));
    }
    let pool = store.pool_at(slot);
    if !pool.active || amount > pool.target_amount - pool.current_amount {
        return Err(ErrorCode::InvalidPoolState);
    }
    Ok(slot)
}

/// Validates an investment and names the transfer that must precede it.
/// Nothing is written.
pub fn plan_invest(store: &AccountStore, pool_id: u64, investor: Principal, amount: u64) -> (order:
    Result<TransferOrder, ErrorCode>)
    requires
        store@.wf(),
    ensures
        order == match invest_check(store@, pool_id, amount) {
            Err(e) => Err::<TransferOrder, ErrorCode>(e),
            Ok(()) => Ok(invest_order(pool_id, investor, amount)),
        },
{
    match admit_investment(store, pool_id, amount) {
        Err(e) => Err(e),
        Ok(_) => Ok(
            TransferOrder {
                from: Account::Holder(investor),
                to: Account::PoolVault(pool_id),
                amount,
                authority: Authority::Signer(investor),
            },
        ),
    }
}

/// Records an investment whose transfer was attempted after `plan_invest`
/// admitted it. The ledger changes only if the request is (still) admissible
/// and the transfer went through: then the pool and the investor's share both
/// grow by `amount`, the share record being created if there was none.
pub fn invest(
    store: &mut AccountStore,
    pool_id: u64,
    investor: Principal,
    amount: u64,
    transfer: Result<(), TransferError>,
) -> (result: Result<Invested, ErrorCode>)
    requires
        old(store)@.wf(),
    ensures
        final(store)@.wf(),
        result == invest_result(old(store)@, pool_id, investor, amount, transfer),
        final(store)@ == if result is Ok {
            invest_post(old(store)@, pool_id, investor, amount)
        } else {
            old(store)@
        },
{
    let slot = match admit_investment(store, pool_id, amount) {
        Err(e) => { return Err(e); },
        Ok(i) => i,
    };
    if let Err(t) = transfer {
        return Err(t.to_error_code());
    }
    proof {
        lemma_invest_wf(store@, pool_id, investor, amount);
    }
    let pool = store.pool_at(slot);
    let found = store.find_share(&investor, pool_id);
    store.put_pool(slot, PoolAccount { current_amount: pool.current_amount + amount, ..pool });
    match found {
        Some(j) => {
            proof {
                lemma_share_slot(old(store)@, j as int);
            }
            let share = store.share_at(j);
            store.put_share(j, InvestorShare { amount: share.amount + amount, ..share });
        },
        None => {
            store.add_share(InvestorShare { investor, pool_id, amount });
        },
    }
    Ok(Invested { investor, pool_id, amount })
}

/// Whether the investor may take `amount` back out of the pool.
pub open spec fn withdraw_check(
    m: StoreModel,
    pool_id: u64,
    investor: Principal,
    amount: u64,
) -> Result<(), ErrorCode> {
    if amount == 0 {
        Err(ErrorCode::InvalidPayment)
    } else if !m.has_pool(pool_id) || !m.has_share(investor, pool_id) {
        Err(ErrorCode::NotFound)
    } else if m.share_amount(investor, pool_id) < amount {
        Err(ErrorCode::InsufficientFunds)
    } else if !m.pool(pool_id).active {
        Err(ErrorCode::InvalidPoolState)
    } else {
        Ok(())
    }
}

/// The transfer behind a withdrawal: out of the pool's vault to the investor,
/// under the authority derived from the pool.
pub open spec fn withdraw_order(pool_id: u64, investor: Principal, amount: u64) -> TransferOrder {
    TransferOrder {
        from: Account::PoolVault(pool_id),
        to: Account::Holder(investor),
        amount,
        authority: Authority::PoolAuthority(pool_id),
    }
}

/// The ledger after an admissible withdrawal whose transfer went through.
pub open spec fn withdraw_post(
    m: StoreModel,
    pool_id: u64,
    investor: Principal,
    amount: u64,
) -> StoreModel {
    m.rebalanced(
        pool_id,
        investor,
        (m.pool(pool_id).current_amount - amount) as u64,
        (m.share_amount(investor, pool_id) - amount) as u64,
    )
}

/// What `withdraw` answers, given the ledger and how the transfer ended.
pub open spec fn withdraw_result(
    m: StoreModel,
    pool_id: u64,
    investor: Principal,
    amount: u64,
    transfer: Result<(), TransferError>,
) -> Result<Withdrawn, ErrorCode> {
    match withdraw_check(m, pool_id, investor, amount) {
        Err(e) => Err(e),
        Ok(()) => match transfer {
            Err(t) => Err(transfer_failure(t)),
            Ok(()) => Ok(Withdrawn { investor, pool_id, amount }),
        },
    }
}

/// An admissible withdrawal leaves neither the pool nor the share below zero
/// and keeps the ledger's invariant.
pub proof fn lemma_withdraw_wf(m: StoreModel, pool_id: u64, investor: Principal, amount: u64)
    requires
        m.wf(),
        withdraw_check(m, pool_id, investor, amount) is Ok,
    ensures
        amount <= m.share_amount(investor, pool_id) <= m.pool(pool_id).current_amount,
        withdraw_post(m, pool_id, investor, amount).wf(),
{
    let i = m.pool_index(pool_id);
    assert(m.pool_sound(i));
    lemma_share_within_total(m.shares, m.share_index(investor, pool_id));
    lemma_rebalanced_wf(
        m,
        pool_id,
        investor,
        (m.pool(pool_id).current_amount - amount) as u64,
        (m.share_amount(investor, pool_id) - amount) as u64,
    );
}

/// Finds the pool and the investor's share in it, and checks that the
/// amount can be taken out.
fn admit_withdrawal(store: &AccountStore, pool_id: u64, investor: &Principal, amount: u64) -> (slots:
    Result<(usize, usize), ErrorCode>)
    requires
        store@.wf(),
    ensures
        match slots {
            Err(e) => withdraw_check(store@, pool_id, *investor, amount) == Err::<(), ErrorCode>(e),
            Ok((i, j)) => {
                &&& withdraw_check(store@, pool_id, *investor, amount) is Ok
                &&& i == store@.pool_index(pool_id)
                &&& i < store@.pools.len()
                &&& j == store@.share_index(*investor, pool_id)
                &&& j < store@.shares.len()
            },
        },
{
    if amount == 0 {
        return Err(ErrorCode::InvalidPayment);
    }
    let slot = match store.find_pool(pool_id) {
        Some(i) => i,
        None => { return Err(ErrorCode::NotFound); },
    };
    let held = match store.find_share(investor, pool_id) {
        Some(j) => j,
        None => { return Err(ErrorCode::NotFound); },
    };
    proof {
        lemma_pool_slot(store@, slot as int);
        lemma_share_slot(store@, held as int);
    }
    if store.share_at(held).amount < amount {
        return Err(ErrorCode::InsufficientFunds);
    }
    if !store.pool_at(slot).active {
        return Err(ErrorCode::InvalidPoolState);
    }
    Ok((slot, held))
}

/// Validates a withdrawal and names the transfer that must precede it.
/// Nothing is written.
pub fn plan_withdraw(store: &AccountStore, pool_id: u64, investor: Principal, amount: u64) -> (order:
    Result<TransferOrder, ErrorCode>)
    requires
        store@.wf(),
    ensures
        order == match withdraw_check(store@, pool_id, investor, amount) {
            Err(e) => Err::<TransferOrder, ErrorCode>(e),
            Ok(()) => Ok(withdraw_order(pool_id, investor, amount)),
        },
{
    match admit_withdrawal(store, pool_id, &investor, amount) {
        Err(e) => Err(e),
        Ok(_) => Ok(
            TransferOrder {
                from: Account::PoolVault(pool_id),
                to: Account::Holder(investor),
                amount,
                authority: Authority::PoolAuthority(pool_id),
            },
        ),
    }
}

/// Records a withdrawal whose transfer was attempted after `plan_withdraw`
/// admitted it. The ledger changes only if the request is (still) admissible
/// and the transfer went through: then the pool and the investor's share both
/// shrink by `amount`. A share that reaches zero stays on record.
pub fn withdraw(
    store: &mut AccountStore,
    pool_id: u64,
    investor: Principal,
    amount: u64,
    transfer: Result<(), TransferError>,
) -> (result: Result<Withdrawn, ErrorCode>)
    requires
        old(store)@.wf(),
    ensures
        final(store)@.wf(),
        result == withdraw_result(old(store)@, pool_id, investor, amount, transfer),
        final(store)@ == if result is Ok {
            withdraw_post(old(store)@, pool_id, investor, amount)
        } else {
            old(store)@
        },
{
    let (slot, held) = match admit_withdrawal(store, pool_id, &investor, amount) {
        Err(e) => { return Err(e); },
        Ok(slots) => slots,
    };
    if let Err(t) = transfer {
        return Err(t.to_error_code());
    }
    proof {
        lemma_withdraw_wf(store@, pool_id, investor, amount);
        lemma_share_slot(store@, held as int);
    }
    let pool = store.pool_at(slot);
    let share = store.share_at(held);
    store.put_pool(slot, PoolAccount { current_amount: pool.current_amount - amount, ..pool });
    store.put_share(held, InvestorShare { amount: share.amount - amount, ..share });
    Ok(Withdrawn { investor, pool_id, amount })
}

} // verus!
