use crate::investment_pool::{InvestorShare, PoolAccount};
use crate::model::{
    claim_keys_unique, lemma_claim_slot, lemma_pool_slot, lemma_share_slot,
    lemma_share_total_prefix, lemma_share_total_push, pool_ids_unique, share_keys_unique,
    share_total, StoreModel,
};
use crate::principal::Principal;
use crate::revenue_sharing::{ClaimRecord, RevenueAccount};
use vstd::prelude::*;

verus! {

/// The store that holds the ledger's entities. It starts empty and changes
/// only through the operations of this library, each of which keeps `wf`.
pub struct AccountStore {
    pools: Vec<PoolAccount>,
    shares: Vec<InvestorShare>,
    revenues: Vec<RevenueAccount>,
    claims: Vec<ClaimRecord>,
}

impl View for AccountStore {
    type V = StoreModel;

    closed spec fn view(&self) -> StoreModel {
        StoreModel {
            pools: self.pools@,
            shares: self.shares@,
            revenues: self.revenues@,
            claims: self.claims@,
        }
    }
}

impl AccountStore {
    /// A ledger without pools.
    pub fn new() -> (store: AccountStore)
        ensures
            store@ == StoreModel::empty(),
            store@.wf(),
    {
        AccountStore { pools: Vec::new(), shares: Vec::new(), revenues: Vec::new(), claims: Vec::new() }
    }

    /// Takes a ledger back in from where it was kept. The records are
    /// accepted as they are, in their order, exactly if together they meet
    /// the ledger's invariant.
    pub fn restore(
        pools: Vec<PoolAccount>,
        shares: Vec<InvestorShare>,
        revenues: Vec<RevenueAccount>,
        claims: Vec<ClaimRecord>,
    ) -> (restored: Option<AccountStore>)
        ensures
            match restored {
                Some(store) => store@.wf() && store@ == (StoreModel {
                    pools: pools@,
                    shares: shares@,
                    revenues: revenues@,
                    claims: claims@,
                }),
                None => !(StoreModel {
                    pools: pools@,
                    shares: shares@,
                    revenues: revenues@,
                    claims: claims@,
                }).wf(),
            },
    {
        let store = AccountStore { pools, shares, revenues, claims };
        if store.revenues.len() == store.pools.len() && store.pool_ids_distinct()
            && store.share_keys_distinct() && store.claim_keys_distinct()
            && store.pools_balanced() && store.shares_placed() {
            Some(store)
        } else {
            None
        }
    }

    /// The pools, in the order in which they were opened.
    pub fn pools(&self) -> (records: Vec<PoolAccount>)
        ensures
            records@ == self@.pools,
    {
        self.pools.clone()
    }

    /// The share records, in the order in which they were first written.
    pub fn shares(&self) -> (records: Vec<InvestorShare>)
        ensures
            records@ == self@.shares,
    {
        self.shares.clone()
    }

    /// The revenue records, each in the place of its pool.
    pub fn revenues(&self) -> (records: Vec<RevenueAccount>)
        ensures
            records@ == self@.revenues,
    {
        self.revenues.clone()
    }

    /// The claim records, in the order in which they were first written.
    pub fn claims(&self) -> (records: Vec<ClaimRecord>)
        ensures
            records@ == self@.claims,
    {
        self.claims.clone()
    }

    fn pool_ids_distinct(&self) -> (ok: bool)
        ensures
            ok == pool_ids_unique(self@.pools),
    {
        let mut j: usize = 0;
        while j < self.pools.len()
            invariant
                j <= self.pools.len(),
                forall|a: int, b: int|
                    0 <= a < b < j ==> (#[trigger] self.pools@[a]).id != (
                    #[trigger] self.pools@[b]).id,
            decreases self.pools.len() - j,
        {
            let mut i: usize = 0;
            while i < j
                invariant
                    i <= j < self.pools.len(),
                    forall|a: int| 0 <= a < i ==> (#[trigger] self.pools@[a]).id != self.pools@[j as int].id,
                decreases j - i,
            {
                if self.pools[i].id == self.pools[j].id {
                    return false;
                }
                i += 1;
            }
            j += 1;
        }
        true
    }

    fn share_keys_distinct(&self) -> (ok: bool)
        ensures
            ok == share_keys_unique(self@.shares),
    {
        let mut j: usize = 0;
        while j < self.shares.len()
            invariant
                j <= self.shares.len(),
                forall|a: int, b: int|
                    0 <= a < b < j ==> !((#[trigger] self.shares@[a]).investor == (
                    #[trigger] self.shares@[b]).investor && self.shares@[a].pool_id
                        == self.shares@[b].pool_id),
            decreases self.shares.len() - j,
        {
            let mut i: usize = 0;
            while i < j
                invariant
                    i <= j < self.shares.len(),
                    forall|a: int|
                        0 <= a < i ==> !((#[trigger] self.shares@[a]).investor
                            == self.shares@[j as int].investor && self.shares@[a].pool_id
                            == self.shares@[j as int].pool_id),
                decreases j - i,
            {
                if self.shares[i].pool_id == self.shares[j].pool_id && self.shares[i].investor.same_as(
                    &self.shares[j].investor,
                ) {
                    return false;
                }
                i += 1;
            }
            j += 1;
        }
        true
    }

    fn claim_keys_distinct(&self) -> (ok: bool)
        ensures
            ok == claim_keys_unique(self@.claims),
    {
        let mut j: usize = 0;
        while j < self.claims.len()
            invariant
                j <= self.claims.len(),
                forall|a: int, b: int|
                    0 <= a < b < j ==> !((#[trigger] self.claims@[a]).investor == (
                    #[trigger] self.claims@[b]).investor && self.claims@[a].pool_id
                        == self.claims@[b].pool_id),
            decreases self.claims.len() - j,
        {
            let mut i: usize = 0;
            while i < j
                invariant
                    i <= j < self.claims.len(),
                    forall|a: int|
                        0 <= a < i ==> !((#[trigger] self.claims@[a]).investor
                            == self.claims@[j as int].investor && self.claims@[a].pool_id
                            == self.claims@[j as int].pool_id),
                decreases j - i,
            {
                if self.claims[i].pool_id == self.claims[j].pool_id && self.claims[i].investor.same_as(
                    &self.claims[j].investor,
                ) {
                    return false;
                }
                i += 1;
            }
            j += 1;
        }
        true
    }

    /// Whether the shares recorded for a pool add up to `expected`.
    fn invested_total_is(&self, pool_id: u64, expected: u64) -> (ok: bool)
        ensures
            ok == (share_total(self@.shares, pool_id) == expected),
    {
        let mut sum: u64 = 0;
        let mut k: usize = 0;
        while k < self.shares.len()
            invariant
                k <= self.shares.len(),
                sum == share_total(self.shares@.take(k as int), pool_id),
                sum <= expected,
            decreases self.shares.len() - k,
        {
            proof {
                assert(self.shares@.take(k + 1) =~= self.shares@.take(k as int).push(
                    self.shares@[k as int],
                ));
                lemma_share_total_push(
                    self.shares@.take(k as int),
                    self.shares@[k as int],
                    pool_id,
                );
                lemma_share_total_prefix(self.shares@, k + 1, pool_id);
            }
            if self.shares[k].pool_id == pool_id {
                if self.shares[k].amount > expected - sum {
                    return false;
                }
                sum += self.shares[k].amount;
            }
            k += 1;
        }
        assert(self.shares@.take(k as int) =~= self.shares@);
        sum == expected
    }

    fn pools_balanced(&self) -> (ok: bool)
        requires
            self@.revenues.len() == self@.pools.len(),
        ensures
            ok == (forall|i: int| 0 <= i < self@.pools.len() ==> #[trigger] self@.pool_sound(i)),
    {
        let mut i: usize = 0;
        while i < self.pools.len()
            invariant
                i <= self.pools.len(),
                self.revenues.len() == self.pools.len(),
                forall|a: int| 0 <= a < i ==> #[trigger] self@.pool_sound(a),
            decreases self.pools.len() - i,
        {
            let pool = self.pools[i];
            let revenue = self.revenues[i];
            if pool.current_amount > pool.target_amount || revenue.pool_id != pool.id
                || revenue.distributed > revenue.total_revenue || !self.invested_total_is(
                pool.id,
                pool.current_amount,
            ) {
                assert(!self@.pool_sound(i as int));
                return false;
            }
            assert(self@.pool_sound(i as int));
            i += 1;
        }
        true
    }

    fn shares_placed(&self) -> (ok: bool)
        ensures
            ok == self@.shares_name_pools(),
    {
        let mut i: usize = 0;
        while i < self.shares.len()
            invariant
                i <= self.shares.len(),
                forall|a: int|
                    0 <= a < i ==> self@.has_pool((#[trigger] self.shares@[a]).pool_id),
            decreases self.shares.len() - i,
        {
            if self.find_pool(self.shares[i].pool_id).is_none() {
                assert(!self@.has_pool(self@.shares[i as int].pool_id));
                return false;
            }
            i += 1;
        }
        true
    }

    pub(crate) fn find_pool(&self, id: u64) -> (slot: Option<usize>)
        ensures
            match slot {
                Some(i) => i < self@.pools.len() && self@.pools[i as int].id == id,
                None => !self@.has_pool(id),
            },
    {
        let mut i: usize = 0;
        while i < self.pools.len()
            invariant
                i <= self.pools.len(),
                forall|k: int| 0 <= k < i ==> (#[trigger] self.pools@[k]).id != id,
            decreases self.pools.len() - i,
        {
            if self.pools[i].id == id {
                return Some(i);
            }
            i += 1;
        }
        None
    }

    pub(crate) fn find_share(&self, investor: &Principal, pool_id: u64) -> (slot: Option<usize>)
        ensures
            match slot {
                Some(i) => i < self@.shares.len() && self@.shares[i as int].investor == *investor
                    && self@.shares[i as int].pool_id == pool_id,
                None => !self@.has_share(*investor, pool_id),
            },
    {
        let mut i: usize = 0;
        while i < self.shares.len()
            invariant
                i <= self.shares.len(),
                forall|k: int|
                    0 <= k < i ==> !((#[trigger] self.shares@[k]).investor == *investor
                        && self.shares@[k].pool_id == pool_id),
            decreases self.shares.len() - i,
        {
            if self.shares[i].pool_id == pool_id && self.shares[i].investor.same_as(investor) {
                return Some(i);
            }
            i += 1;
        }
        None
    }

    pub(crate) fn find_claim(&self, investor: &Principal, pool_id: u64) -> (slot: Option<usize>)
        ensures
            match slot {
                Some(i) => i < self@.claims.len() && self@.claims[i as int].investor == *investor
                    && self@.claims[i as int].pool_id == pool_id,
                None => !self@.has_claim(*investor, pool_id),
            },
    {
        let mut i: usize = 0;
        while i < self.claims.len()
            invariant
                i <= self.claims.len(),
                forall|k: int|
                    0 <= k < i ==> !((#[trigger] self.claims@[k]).investor == *investor
                        && self.claims@[k].pool_id == pool_id),
            decreases self.claims.len() - i,
        {
            if self.claims[i].pool_id == pool_id && self.claims[i].investor.same_as(investor) {
                return Some(i);
            }
            i += 1;
        }
        None
    }

    pub(crate) fn pool_at(&self, i: usize) -> (pool: PoolAccount)
        requires
            i < self@.pools.len(),
        ensures
            pool == self@.pools[i as int],
    {
        self.pools[i]
    }

    pub(crate) fn share_at(&self, i: usize) -> (share: InvestorShare)
        requires
            i < self@.shares.len(),
        ensures
            share == self@.shares[i as int],
    {
        self.shares[i]
    }

    pub(crate) fn revenue_at(&self, i: usize) -> (revenue: RevenueAccount)
        requires
            i < self@.revenues.len(),
        ensures
            revenue == self@.revenues[i as int],
    {
        self.revenues[i]
    }

    pub(crate) fn claim_at(&self, i: usize) -> (claim: ClaimRecord)
        requires
            i < self@.claims.len(),
        ensures
            claim == self@.claims[i as int],
    {
        self.claims[i]
    }

    pub(crate) fn put_pool(&mut self, i: usize, pool: PoolAccount)
        requires
            i < old(self)@.pools.len(),
        ensures
            final(self)@ == (StoreModel {
                pools: old(self)@.pools.update(i as int, pool),
                ..old(self)@
            }),
    {
        self.pools[i] = pool;
    }

    pub(crate) fn put_share(&mut self, i: usize, share: InvestorShare)
        requires
            i < old(self)@.shares.len(),
        ensures
            final(self)@ == (StoreModel {
                shares: old(self)@.shares.update(i as int, share),
                ..old(self)@
            }),
    {
        self.shares[i] = share;
    }

    pub(crate) fn put_revenue(&mut self, i: usize, revenue: RevenueAccount)
        requires
            i < old(self)@.revenues.len(),
        ensures
            final(self)@ == (StoreModel {
                revenues: old(self)@.revenues.update(i as int, revenue),
                ..old(self)@
            }),
    {
        self.revenues[i] = revenue;
    }

    pub(crate) fn put_claim(&mut self, i: usize, claim: ClaimRecord)
        requires
            i < old(self)@.claims.len(),
        ensures
            final(self)@ == (StoreModel {
                claims: old(self)@.claims.update(i as int, claim),
                ..old(self)@
            }),
    {
        self.claims[i] = claim;
    }

    pub(crate) fn add_pool(&mut self, pool: PoolAccount, revenue: RevenueAccount)
        ensures
            final(self)@ == (StoreModel {
                pools: old(self)@.pools.push(pool),
                revenues: old(self)@.revenues.push(revenue),
                ..old(self)@
            }),
    {
        self.pools.push(pool);
        self.revenues.push(revenue);
    }

    pub(crate) fn add_share(&mut self, share: InvestorShare)
        ensures
            final(self)@ == (StoreModel { shares: old(self)@.shares.push(share), ..old(self)@ }),
    {
        self.shares.push(share);
    }

    pub(crate) fn add_claim(&mut self, claim: ClaimRecord)
        ensures
            final(self)@ == (StoreModel { claims: old(self)@.claims.push(claim), ..old(self)@ }),
    {
        self.claims.push(claim);
    }

    /// The pool with this identifier, if the ledger has one.
    pub fn pool(&self, id: u64) -> (found: Option<PoolAccount>)
        requires
            self@.wf(),
        ensures
            found == if self@.has_pool(id) {
                Some(self@.pool(id))
            } else {
                None
            },
    {
        match self.find_pool(id) {
            Some(i) => {
                proof {
                    lemma_pool_slot(self@, i as int);
                }
                Some(self.pools[i])
            },
            None => None,
        }
    }

    /// The revenue record of this pool, if the ledger has the pool.
    pub fn revenue(&self, pool_id: u64) -> (found: Option<RevenueAccount>)
        requires
            self@.wf(),
        ensures
            found == if self@.has_pool(pool_id) {
                Some(self@.revenue(pool_id))
            } else {
                None
            },
    {
        match self.find_pool(pool_id) {
            Some(i) => {
                proof {
                    lemma_pool_slot(self@, i as int);
                }
                Some(self.revenues[i])
            },
            None => None,
        }
    }

    /// The share of this investor in this pool, if one was ever recorded.
    pub fn share(&self, investor: &Principal, pool_id: u64) -> (found: Option<InvestorShare>)
        requires
            self@.wf(),
        ensures
            found == if self@.has_share(*investor, pool_id) {
                Some(self@.shares[self@.share_index(*investor, pool_id)])
            } else {
                None
            },
    {
        match self.find_share(investor, pool_id) {
            Some(i) => {
                proof {
                    lemma_share_slot(self@, i as int);
                }
                Some(self.shares[i])
            },
            None => None,
        }
    }

    /// The claim record of this investor for this pool, if they ever claimed.
    pub fn claim(&self, investor: &Principal, pool_id: u64) -> (found: Option<ClaimRecord>)
        requires
            self@.wf(),
        ensures
            found == if self@.has_claim(*investor, pool_id) {
                Some(self@.claims[self@.claim_index(*investor, pool_id)])
            } else {
                None
            },
    {
        match self.find_claim(investor, pool_id) {
            Some(i) => {
                proof {
                    lemma_claim_slot(self@, i as int);
                }
                Some(self.claims[i])
            },
            None => None,
        }
    }
}

} // verus!
