use crate::investment_pool::{InvestorShare, PoolAccount};
use crate::principal::Principal;
use crate::revenue_sharing::{ClaimRecord, RevenueAccount};
use vstd::prelude::*;

verus! {

/// What the investors of one pool have put in, added up over the share
/// records.
pub open spec fn share_total(shares: Seq<InvestorShare>, pool_id: u64) -> nat
    decreases shares.len(),
{
    if shares.len() == 0 {
        0
    } else {
        let last = shares.last();
        share_total(shares.drop_last(), pool_id) + if last.pool_id == pool_id {
            last.amount as nat
        } else {
            0
        }
    }
}

/// Whether some pool carries this identifier.
pub open spec fn pool_known(pools: Seq<PoolAccount>, id: u64) -> bool {
    exists|i: int| 0 <= i < pools.len() && (#[trigger] pools[i]).id == id
}

/// A slot that holds a pool with this identifier, where one is known.
pub open spec fn pool_slot(pools: Seq<PoolAccount>, id: u64) -> int {
    choose|i: int| 0 <= i < pools.len() && (#[trigger] pools[i]).id == id
}

/// Whether a share of this investor in this pool is on record.
pub open spec fn share_known(shares: Seq<InvestorShare>, investor: Principal, pool_id: u64) -> bool {
    exists|i: int|
        0 <= i < shares.len() && (#[trigger] shares[i]).investor == investor && shares[i].pool_id
            == pool_id
}

/// A slot that holds the share of this investor in this pool, where one is
/// on record.
pub open spec fn share_slot(shares: Seq<InvestorShare>, investor: Principal, pool_id: u64) -> int {
    choose|i: int|
        0 <= i < shares.len() && (#[trigger] shares[i]).investor == investor && shares[i].pool_id
            == pool_id
}

/// Whether a claim of this investor on this pool is on record.
pub open spec fn claim_known(claims: Seq<ClaimRecord>, investor: Principal, pool_id: u64) -> bool {
    exists|i: int|
        0 <= i < claims.len() && (#[trigger] claims[i]).investor == investor && claims[i].pool_id
            == pool_id
}

/// A slot that holds the claim record of this investor for this pool, where
/// one is on record.
pub open spec fn claim_slot(claims: Seq<ClaimRecord>, investor: Principal, pool_id: u64) -> int {
    choose|i: int|
        0 <= i < claims.len() && (#[trigger] claims[i]).investor == investor && claims[i].pool_id
            == pool_id
}

/// No two pools carry the same identifier.
pub open spec fn pool_ids_unique(pools: Seq<PoolAccount>) -> bool {
    forall|i: int, j: int|
        0 <= i < j < pools.len() ==> (#[trigger] pools[i]).id != (#[trigger] pools[j]).id
}

/// No two shares are of the same investor in the same pool.
pub open spec fn share_keys_unique(shares: Seq<InvestorShare>) -> bool {
    forall|i: int, j: int|
        0 <= i < j < shares.len() ==> !((#[trigger] shares[i]).investor == (
        #[trigger] shares[j]).investor && shares[i].pool_id == shares[j].pool_id)
}

/// No two claim records are of the same investor for the same pool.
pub open spec fn claim_keys_unique(claims: Seq<ClaimRecord>) -> bool {
    forall|i: int, j: int|
        0 <= i < j < claims.len() ==> !((#[trigger] claims[i]).investor == (
        #[trigger] claims[j]).investor && claims[i].pool_id == claims[j].pool_id)
}

/// The ledger as a mathematical value: every entity it holds, in the order in
/// which each was first written. `revenues[i]` is the revenue record of
/// `pools[i]`.
pub struct StoreModel {
    pub pools: Seq<PoolAccount>,
    pub shares: Seq<InvestorShare>,
    pub revenues: Seq<RevenueAccount>,
    pub claims: Seq<ClaimRecord>,
}

impl StoreModel {
    /// The ledger that holds nothing.
    pub open spec fn empty() -> StoreModel {
        StoreModel { pools: Seq::empty(), shares: Seq::empty(), revenues: Seq::empty(), claims: Seq::empty() }
    }

    /// Whether the ledger has a pool with this identifier.
    pub open spec fn has_pool(self, id: u64) -> bool {
        pool_known(self.pools, id)
    }

    /// The slot of the pool with this identifier, where the ledger has one.
    pub open spec fn pool_index(self, id: u64) -> int {
        pool_slot(self.pools, id)
    }

    /// The pool with this identifier; meaningful where `has_pool` holds.
    pub open spec fn pool(self, id: u64) -> PoolAccount {
        self.pools[self.pool_index(id)]
    }

    /// The revenue record of this pool; meaningful where `has_pool` holds.
    pub open spec fn revenue(self, id: u64) -> RevenueAccount {
        self.revenues[self.pool_index(id)]
    }

    /// Whether a share of this investor in this pool is on record.
    pub open spec fn has_share(self, investor: Principal, pool_id: u64) -> bool {
        share_known(self.shares, investor, pool_id)
    }

    /// The slot of this investor's share in this pool, where one is on record.
    pub open spec fn share_index(self, investor: Principal, pool_id: u64) -> int {
        share_slot(self.shares, investor, pool_id)
    }

    /// What this investor has in this pool: zero where no share record exists.
    pub open spec fn share_amount(self, investor: Principal, pool_id: u64) -> u64 {
        if self.has_share(investor, pool_id) {
            self.shares[self.share_index(investor, pool_id)].amount
        } else {
            0
        }
    }

    /// Whether this investor has a claim record for this pool.
    pub open spec fn has_claim(self, investor: Principal, pool_id: u64) -> bool {
        claim_known(self.claims, investor, pool_id)
    }

    /// The slot of this investor's claim record for this pool, where there is
    /// one.
    pub open spec fn claim_index(self, investor: Principal, pool_id: u64) -> int {
        claim_slot(self.claims, investor, pool_id)
    }

    /// What this investor has been paid of this pool's revenue so far: zero
    /// where no claim record exists.
    pub open spec fn claimed_total(self, investor: Principal, pool_id: u64) -> u64 {
        if self.has_claim(investor, pool_id) {
            self.claims[self.claim_index(investor, pool_id)].claimed_total
        } else {
            0
        }
    }

    /// The sum of all shares recorded for a pool.
    pub open spec fn invested_total(self, pool_id: u64) -> nat {
        share_total(self.shares, pool_id)
    }

    /// This ledger with the pool holding `pool_amount` and the investor's
    /// share in it standing at `share_amount`; the share record is appended
    /// where there was none.
    pub open spec fn rebalanced(
        self,
        pool_id: u64,
        investor: Principal,
        pool_amount: u64,
        share_amount: u64,
    ) -> StoreModel {
        StoreModel {
            pools: self.pools.update(
                self.pool_index(pool_id),
                PoolAccount { current_amount: pool_amount, ..self.pool(pool_id) },
            ),
            shares: if self.has_share(investor, pool_id) {
                self.shares.update(
                    self.share_index(investor, pool_id),
                    InvestorShare {
                        amount: share_amount,
                        ..self.shares[self.share_index(investor, pool_id)]
                    },
                )
            } else {
                self.shares.push(InvestorShare { investor, pool_id, amount: share_amount })
            },
            ..self
        }
    }

    /// This ledger with the pool's revenue record replaced.
    pub open spec fn with_revenue(self, pool_id: u64, revenue: RevenueAccount) -> StoreModel {
        StoreModel { revenues: self.revenues.update(self.pool_index(pool_id), revenue), ..self }
    }

    /// This ledger with the investor's claim record for the pool standing at
    /// `claimed_total`; the record is appended where there was none.
    pub open spec fn with_claimed(
        self,
        investor: Principal,
        pool_id: u64,
        claimed_total: u64,
    ) -> StoreModel {
        StoreModel {
            claims: if self.has_claim(investor, pool_id) {
                self.claims.update(
                    self.claim_index(investor, pool_id),
                    ClaimRecord { investor, pool_id, claimed_total },
                )
            } else {
                self.claims.push(ClaimRecord { investor, pool_id, claimed_total })
            },
            ..self
        }
    }

    /// Every pool identifier, and every (investor, pool) pair among the shares
    /// and among the claims, names one record only.
    pub open spec fn keys_unique(self) -> bool {
        &&& pool_ids_unique(self.pools)
        &&& share_keys_unique(self.shares)
        &&& claim_keys_unique(self.claims)
    }

    /// The bookkeeping of the pool in slot `i` is sound: it holds no more
    /// than its target, its shares add up to what it holds, and no more of its
    /// revenue is marked distributed than was received.
    pub open spec fn pool_sound(self, i: int) -> bool {
        &&& self.pools[i].current_amount <= self.pools[i].target_amount
        &&& share_total(self.shares, self.pools[i].id) == self.pools[i].current_amount
        &&& self.revenues[i].pool_id == self.pools[i].id
        &&& self.revenues[i].distributed <= self.revenues[i].total_revenue
    }

    /// The invariant of the ledger. Every operation of this library keeps it.
    pub open spec fn wf(self) -> bool {
        &&& self.revenues.len() == self.pools.len()
        &&& self.keys_unique()
        &&& forall|i: int| 0 <= i < self.pools.len() ==> #[trigger] self.pool_sound(i)
        &&& self.shares_name_pools()
    }

    /// Every share is a share in a pool of this ledger.
    pub open spec fn shares_name_pools(self) -> bool {
        forall|i: int|
            0 <= i < self.shares.len() ==> self.has_pool((#[trigger] self.shares[i]).pool_id)
    }
}

/// Appending a share adds its amount to the total of its own pool only.
pub proof fn lemma_share_total_push(shares: Seq<InvestorShare>, s: InvestorShare, pool_id: u64)
    ensures
        share_total(shares.push(s), pool_id) == share_total(shares, pool_id) + if s.pool_id
            == pool_id {
            s.amount as nat
        } else {
            0
        },
{
    assert(shares.push(s).drop_last() =~= shares);
}

/// Replacing the amount of one share moves the total of its pool by the
/// difference, and no other total.
pub proof fn lemma_share_total_update(
    shares: Seq<InvestorShare>,
    j: int,
    s: InvestorShare,
    pool_id: u64,
)
    requires
        0 <= j < shares.len(),
        s.pool_id == shares[j].pool_id,
    ensures
        share_total(shares.update(j, s), pool_id) + (if s.pool_id == pool_id {
            shares[j].amount as nat
        } else {
            0
        }) == share_total(shares, pool_id) + (if s.pool_id == pool_id {
            s.amount as nat
        } else {
            0
        }),
    decreases shares.len(),
{
    let updated = shares.update(j, s);
    if j == shares.len() - 1 {
        assert(updated.drop_last() =~= shares.drop_last());
    } else {
        assert(updated.drop_last() =~= shares.drop_last().update(j, s));
        lemma_share_total_update(shares.drop_last(), j, s, pool_id);
    }
}

/// A pool that no share names has a total of zero.
pub proof fn lemma_share_total_absent(shares: Seq<InvestorShare>, pool_id: u64)
    requires
        forall|i: int| 0 <= i < shares.len() ==> (#[trigger] shares[i]).pool_id != pool_id,
    ensures
        share_total(shares, pool_id) == 0,
    decreases shares.len(),
{
    if shares.len() > 0 {
        lemma_share_total_absent(shares.drop_last(), pool_id);
    }
}

/// No single share exceeds the total of its pool.
pub proof fn lemma_share_within_total(shares: Seq<InvestorShare>, j: int)
    requires
        0 <= j < shares.len(),
    ensures
        shares[j].amount <= share_total(shares, shares[j].pool_id),
    decreases shares.len(),
{
    if j < shares.len() - 1 {
        lemma_share_within_total(shares.drop_last(), j);
    }
}

/// In a ledger with unique keys, the slot found for a pool identifier is the
/// slot of that pool.
pub proof fn lemma_pool_slot(m: StoreModel, i: int)
    requires
        m.keys_unique(),
        0 <= i < m.pools.len(),
    ensures
        m.has_pool(m.pools[i].id),
        m.pool_index(m.pools[i].id) == i,
{
    let id = m.pools[i].id;
    assert(m.has_pool(id));
    let k = m.pool_index(id);
    if k < i {
        assert(m.pools[k].id != m.pools[i].id);
    } else if i < k {
        assert(m.pools[i].id != m.pools[k].id);
    }
}

/// In a ledger with unique keys, the slot found for an (investor, pool) pair
/// is the slot of that share.
pub proof fn lemma_share_slot(m: StoreModel, i: int)
    requires
        m.keys_unique(),
        0 <= i < m.shares.len(),
    ensures
        m.has_share(m.shares[i].investor, m.shares[i].pool_id),
        m.share_index(m.shares[i].investor, m.shares[i].pool_id) == i,
        m.share_amount(m.shares[i].investor, m.shares[i].pool_id) == m.shares[i].amount,
{
    let s = m.shares[i];
    assert(m.has_share(s.investor, s.pool_id));
    let k = m.share_index(s.investor, s.pool_id);
    if k < i {
        assert(!(m.shares[k].investor == m.shares[i].investor && m.shares[k].pool_id
            == m.shares[i].pool_id));
    } else if i < k {
        assert(!(m.shares[i].investor == m.shares[k].investor && m.shares[i].pool_id
            == m.shares[k].pool_id));
    }
}

/// In a ledger with unique keys, the slot found for an (investor, pool) pair
/// is the slot of that claim record.
pub proof fn lemma_claim_slot(m: StoreModel, i: int)
    requires
        m.keys_unique(),
        0 <= i < m.claims.len(),
    ensures
        m.has_claim(m.claims[i].investor, m.claims[i].pool_id),
        m.claim_index(m.claims[i].investor, m.claims[i].pool_id) == i,
        m.claimed_total(m.claims[i].investor, m.claims[i].pool_id) == m.claims[i].claimed_total,
{
    let c = m.claims[i];
    assert(m.has_claim(c.investor, c.pool_id));
    let k = m.claim_index(c.investor, c.pool_id);
    if k < i {
        assert(!(m.claims[k].investor == m.claims[i].investor && m.claims[k].pool_id
            == m.claims[i].pool_id));
    } else if i < k {
        assert(!(m.claims[i].investor == m.claims[k].investor && m.claims[i].pool_id
            == m.claims[k].pool_id));
    }
}

/// A ledger whose pools carry the same identifiers, slot by slot, knows the
/// same pools under the same slots.
pub proof fn lemma_same_pool_ids(m: StoreModel, post: StoreModel)
    requires
        m.keys_unique(),
        post.pools.len() == m.pools.len(),
        forall|i: int| 0 <= i < m.pools.len() ==> (#[trigger] post.pools[i]).id == m.pools[i].id,
    ensures
        forall|id: u64| m.has_pool(id) == post.has_pool(id),
        forall|id: u64| m.has_pool(id) ==> m.pool_index(id) == post.pool_index(id),
{
    assert forall|id: u64| m.has_pool(id) == post.has_pool(id) by {
        if m.has_pool(id) {
            let k = m.pool_index(id);
            assert(post.pools[k].id == id);
        }
        if post.has_pool(id) {
            let k = post.pool_index(id);
            assert(m.pools[k].id == id);
        }
    }
    assert forall|id: u64| m.has_pool(id) implies m.pool_index(id) == post.pool_index(id) by {
        let k = post.pool_index(id);
        assert(m.pools[k].id == id);
        lemma_pool_slot(m, k);
    }
}

/// Setting a pool's amount and a share in it introduces no second record
/// under any key.
pub proof fn lemma_rebalanced_keys(
    m: StoreModel,
    pool_id: u64,
    investor: Principal,
    pool_amount: u64,
    share_amount: u64,
)
    requires
        m.wf(),
        m.has_pool(pool_id),
    ensures
        m.rebalanced(pool_id, investor, pool_amount, share_amount).keys_unique(),
{
    let post = m.rebalanced(pool_id, investor, pool_amount, share_amount);
    assert forall|a: int, b: int| 0 <= a < b < post.pools.len() implies (
    #[trigger] post.pools[a]).id != (#[trigger] post.pools[b]).id by {
        assert(m.pools[a].id != m.pools[b].id);
    }
    assert forall|a: int, b: int| 0 <= a < b < post.shares.len() implies !((
    #[trigger] post.shares[a]).investor == (#[trigger] post.shares[b]).investor
        && post.shares[a].pool_id == post.shares[b].pool_id) by {
        if b < m.shares.len() {
            assert(!(m.shares[a].investor == m.shares[b].investor && m.shares[a].pool_id
                == m.shares[b].pool_id));
        } else {
            assert(!(m.shares[a].investor == investor && m.shares[a].pool_id == pool_id));
        }
    }
}

/// Moving a pool's amount and one investor's share in it by the same
/// difference, without passing the target, keeps the ledger's invariant.
pub proof fn lemma_rebalanced_wf(
    m: StoreModel,
    pool_id: u64,
    investor: Principal,
    pool_amount: u64,
    share_amount: u64,
)
    requires
        m.wf(),
        m.has_pool(pool_id),
        pool_amount <= m.pool(pool_id).target_amount,
        pool_amount - m.pool(pool_id).current_amount == share_amount - m.share_amount(
            investor,
            pool_id,
        ),
    ensures
        m.rebalanced(pool_id, investor, pool_amount, share_amount).wf(),
{
    let post = m.rebalanced(pool_id, investor, pool_amount, share_amount);
    let i = m.pool_index(pool_id);
    lemma_same_pool_ids(m, post);
    lemma_rebalanced_keys(m, pool_id, investor, pool_amount, share_amount);
    assert forall|k: int| 0 <= k < post.pools.len() implies #[trigger] post.pool_sound(k) by {
        assert(m.pool_sound(k));
        let id = m.pools[k].id;
        if m.has_share(investor, pool_id) {
            let j = m.share_index(investor, pool_id);
            lemma_share_total_update(m.shares, j, post.shares[j], id);
        } else {
            lemma_share_total_push(m.shares, post.shares.last(), id);
        }
        if k != i {
            assert(m.pools[k].id != m.pools[i].id);
        }
    }
    assert forall|k: int| 0 <= k < post.shares.len() implies post.has_pool(
        (#[trigger] post.shares[k]).pool_id,
    ) by {
        if k < m.shares.len() {
            assert(m.has_pool(m.shares[k].pool_id));
        }
    }
}

/// What a rebalanced ledger answers for the pool and the share that moved.
pub proof fn lemma_rebalanced_reads(
    m: StoreModel,
    pool_id: u64,
    investor: Principal,
    pool_amount: u64,
    share_amount: u64,
)
    requires
        m.wf(),
        m.has_pool(pool_id),
    ensures
        ({
            let post = m.rebalanced(pool_id, investor, pool_amount, share_amount);
            &&& post.has_pool(pool_id)
            &&& post.pool_index(pool_id) == m.pool_index(pool_id)
            &&& post.pool(pool_id) == (PoolAccount {
                current_amount: pool_amount,
                ..m.pool(pool_id)
            })
            &&& post.revenue(pool_id) == m.revenue(pool_id)
            &&& post.has_share(investor, pool_id)
            &&& post.share_amount(investor, pool_id) == share_amount
        }),
{
    let post = m.rebalanced(pool_id, investor, pool_amount, share_amount);
    lemma_same_pool_ids(m, post);
    let j = if m.has_share(investor, pool_id) {
        m.share_index(investor, pool_id)
    } else {
        m.shares.len() as int
    };
    assert(post.shares[j].investor == investor && post.shares[j].pool_id == pool_id);
    lemma_rebalanced_keys(m, pool_id, investor, pool_amount, share_amount);
    lemma_share_slot(post, j);
}

/// Replacing a pool's revenue record by one that is sound in itself keeps the
/// ledger's invariant, and the ledger then answers with that record.
pub proof fn lemma_with_revenue(m: StoreModel, pool_id: u64, revenue: RevenueAccount)
    requires
        m.wf(),
        m.has_pool(pool_id),
        revenue.pool_id == pool_id,
        revenue.distributed <= revenue.total_revenue,
    ensures
        m.with_revenue(pool_id, revenue).wf(),
        m.with_revenue(pool_id, revenue).revenue(pool_id) == revenue,
{
    let post = m.with_revenue(pool_id, revenue);
    assert forall|k: int| 0 <= k < post.pools.len() implies #[trigger] post.pool_sound(k) by {
        assert(m.pool_sound(k));
    }
}

/// Setting an investor's claim record keeps the ledger's invariant, and the
/// ledger then answers with the amount set.
pub proof fn lemma_with_claimed(
    m: StoreModel,
    investor: Principal,
    pool_id: u64,
    claimed_total: u64,
)
    requires
        m.wf(),
    ensures
        m.with_claimed(investor, pool_id, claimed_total).wf(),
        m.with_claimed(investor, pool_id, claimed_total).has_claim(investor, pool_id),
        m.with_claimed(investor, pool_id, claimed_total).claimed_total(investor, pool_id)
            == claimed_total,
{
    let post = m.with_claimed(investor, pool_id, claimed_total);
    let j = if m.has_claim(investor, pool_id) {
        m.claim_index(investor, pool_id)
    } else {
        m.claims.len() as int
    };
    assert(post.claims[j].investor == investor && post.claims[j].pool_id == pool_id);
    assert forall|a: int, b: int| 0 <= a < b < post.claims.len() implies !((
    #[trigger] post.claims[a]).investor == (#[trigger] post.claims[b]).investor
        && post.claims[a].pool_id == post.claims[b].pool_id) by {
        if b < m.claims.len() {
            assert(!(m.claims[a].investor == m.claims[b].investor && m.claims[a].pool_id
                == m.claims[b].pool_id));
        } else {
            assert(!(m.claims[a].investor == investor && m.claims[a].pool_id == pool_id));
        }
    }
    assert forall|k: int| 0 <= k < post.pools.len() implies #[trigger] post.pool_sound(k) by {
        assert(m.pool_sound(k));
    }
    lemma_claim_slot(post, j);
}

/// Setting one investor's claim record for one pool leaves what the ledger
/// answers for every other (investor, pool) pair as it was.
pub proof fn lemma_with_claimed_elsewhere(
    m: StoreModel,
    investor: Principal,
    pool_id: u64,
    claimed_total: u64,
    other: Principal,
    other_pool: u64,
)
    requires
        m.wf(),
        !(other == investor && other_pool == pool_id),
    ensures
        m.with_claimed(investor, pool_id, claimed_total).claimed_total(other, other_pool)
            == m.claimed_total(other, other_pool),
{
    let post = m.with_claimed(investor, pool_id, claimed_total);
    lemma_with_claimed(m, investor, pool_id, claimed_total);
    if m.has_claim(other, other_pool) {
        let k = m.claim_index(other, other_pool);
        assert(post.claims[k] == m.claims[k]);
        lemma_claim_slot(post, k);
    } else if post.has_claim(other, other_pool) {
        let k = post.claim_index(other, other_pool);
        if k < m.claims.len() {
            assert(m.claims[k].investor == other && m.claims[k].pool_id == other_pool);
        }
    }
}

/// Moving one pool's amount and a share in it leaves every other pool and
/// its revenue record as they were.
pub proof fn lemma_rebalanced_other_pool(
    m: StoreModel,
    pool_id: u64,
    investor: Principal,
    pool_amount: u64,
    share_amount: u64,
    other_pool: u64,
)
    requires
        m.wf(),
        m.has_pool(pool_id),
        m.has_pool(other_pool),
        other_pool != pool_id,
    ensures
        ({
            let post = m.rebalanced(pool_id, investor, pool_amount, share_amount);
            &&& post.has_pool(other_pool)
            &&& post.pool(other_pool) == m.pool(other_pool)
            &&& post.revenue(other_pool) == m.revenue(other_pool)
        }),
{
    let post = m.rebalanced(pool_id, investor, pool_amount, share_amount);
    lemma_same_pool_ids(m, post);
    let k = m.pool_index(other_pool);
    assert(post.pools[k] == m.pools[k]);
}

/// Moving one pool's amount and one investor's share in it leaves every
/// other share, and every claim record, as they were.
pub proof fn lemma_rebalanced_other_share(
    m: StoreModel,
    pool_id: u64,
    investor: Principal,
    pool_amount: u64,
    share_amount: u64,
    other: Principal,
    other_pool: u64,
)
    requires
        m.wf(),
        m.has_pool(pool_id),
        !(other == investor && other_pool == pool_id),
    ensures
        ({
            let post = m.rebalanced(pool_id, investor, pool_amount, share_amount);
            &&& post.share_amount(other, other_pool) == m.share_amount(other, other_pool)
            &&& post.claimed_total(other, other_pool) == m.claimed_total(other, other_pool)
            &&& post.claimed_total(investor, pool_id) == m.claimed_total(investor, pool_id)
        }),
{
    let post = m.rebalanced(pool_id, investor, pool_amount, share_amount);
    lemma_rebalanced_keys(m, pool_id, investor, pool_amount, share_amount);
    if m.has_share(other, other_pool) {
        let j = m.share_index(other, other_pool);
        assert(post.shares[j] == m.shares[j]);
        lemma_share_slot(post, j);
    } else if post.has_share(other, other_pool) {
        let j = post.share_index(other, other_pool);
        if j < m.shares.len() {
            assert(m.shares[j].investor == other && m.shares[j].pool_id == other_pool);
        }
    }
}

/// Two different shares of one pool together do not exceed its total.
pub proof fn lemma_two_shares_within_total(shares: Seq<InvestorShare>, i: int, j: int)
    requires
        0 <= i < j < shares.len(),
        shares[i].pool_id == shares[j].pool_id,
    ensures
        shares[i].amount + shares[j].amount <= share_total(shares, shares[i].pool_id),
    decreases shares.len(),
{
    if j < shares.len() - 1 {
        lemma_two_shares_within_total(shares.drop_last(), i, j);
    } else {
        lemma_share_within_total(shares.drop_last(), i);
    }
}

/// Opening a pool leaves every pool that was there, its revenue record, and
/// every share and claim as they were.
pub proof fn lemma_pool_added(m: StoreModel, pool: PoolAccount, revenue: RevenueAccount, id: u64)
    requires
        m.wf(),
        m.has_pool(id),
        !m.has_pool(pool.id),
    ensures
        ({
            let post = StoreModel {
                pools: m.pools.push(pool),
                revenues: m.revenues.push(revenue),
                ..m
            };
            &&& post.has_pool(id)
            &&& post.pool(id) == m.pool(id)
            &&& post.revenue(id) == m.revenue(id)
        }),
{
    let post = StoreModel { pools: m.pools.push(pool), revenues: m.revenues.push(revenue), ..m };
    let k = m.pool_index(id);
    assert(post.pools[k] == m.pools[k]);
    let found = post.pool_index(id);
    assert(post.pools[k].id == id);
    if found < m.pools.len() {
        assert(m.pools[found].id == id);
        lemma_pool_slot(m, found);
    }
}

/// The shares of a pool among the first `k` records add up to no more than
/// its shares among all of them.
pub proof fn lemma_share_total_prefix(shares: Seq<InvestorShare>, k: int, pool_id: u64)
    requires
        0 <= k <= shares.len(),
    ensures
        share_total(shares.take(k), pool_id) <= share_total(shares, pool_id),
    decreases shares.len(),
{
    if k == shares.len() {
        assert(shares.take(k) =~= shares);
    } else {
        assert(shares.drop_last().take(k) =~= shares.take(k));
        lemma_share_total_prefix(shares.drop_last(), k, pool_id);
    }
}

} // verus!
