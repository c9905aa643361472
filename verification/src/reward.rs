//! How the wagers held for a game are paid out.

use vstd::prelude::*;
use vstd::arithmetic::div_mod::{lemma_fundamental_div_mod, lemma_fundamental_div_mod_converse};
use vstd::arithmetic::div_mod::lemma_mod_pos_bound;
use crate::identity::Identity;
use crate::roster::Roster;

verus! {

/// How a pool is split among the winners.
#[derive(Clone, Copy, Debug, PartialEq, Eq, Structural)]
pub enum SplitStrategy {
    /// Every winner counts alike; the number given with a winner is not read.
    Equal,
    /// Every winner counts as often as the number given with it says. Where
    /// the numbers add up to zero, or to more than 64 bits hold, the split
    /// is equal.
    Weighted,
}

impl Default for SplitStrategy {
    fn default() -> (s: SplitStrategy)
        ensures
            s == SplitStrategy::Equal,
    {
        SplitStrategy::Equal
    }
}

/// An amount that is owed to an identity.
#[derive(Clone, Copy, Debug, PartialEq, Eq)]
pub struct Payout {
    pub to: Identity,
    pub amount: u128,
}

/// How often a winner counts.
pub open spec fn weight_of(strategy: SplitStrategy, share: u64) -> nat {
    match strategy {
        SplitStrategy::Equal => 1,
        SplitStrategy::Weighted => share as nat,
    }
}

/// How often all the winners count together.
pub open spec fn total_weight(strategy: SplitStrategy, winners: Seq<(Identity, u64)>) -> nat
    decreases winners.len(),
{
    if winners.len() == 0 {
        0
    } else {
        total_weight(strategy, winners.drop_last()) + weight_of(strategy, winners.last().1)
    }
}

/// The strategy that is applied: the equal one in place of the weighted one
/// where the weights add up to zero or to more than 64 bits hold.
pub open spec fn effective(
    strategy: SplitStrategy,
    winners: Seq<(Identity, u64)>,
) -> SplitStrategy {
    if 0 < total_weight(strategy, winners) <= u64::MAX {
        strategy
    } else {
        SplitStrategy::Equal
    }
}

/// The share of the winner at position `i`: the pool times the winner's
/// weight, divided by the total weight and rounded down.
pub open spec fn share_of(
    applied: SplitStrategy,
    pool: u128,
    winners: Seq<(Identity, u64)>,
    i: int,
) -> nat {
    (pool as nat * weight_of(applied, winners[i].1)) / total_weight(applied, winners)
}

/// The shares of the first `k` winners together.
pub open spec fn shares_sum(
    applied: SplitStrategy,
    pool: u128,
    winners: Seq<(Identity, u64)>,
    k: int,
) -> nat
    decreases k,
{
    if k <= 0 {
        0
    } else {
        shares_sum(applied, pool, winners, k - 1) + share_of(applied, pool, winners, k - 1)
    }
}

/// What the winner at position `i` gets of `pool`: its share, and for the
/// first winner also what the rounding of all the shares has left over.
pub open spec fn reward_of(
    strategy: SplitStrategy,
    pool: u128,
    winners: Seq<(Identity, u64)>,
    i: int,
) -> nat {
    let applied = effective(strategy, winners);
    let rest = if i == 0 {
        (pool - shares_sum(applied, pool, winners, winners.len() as int)) as nat
    } else {
        0
    };
    share_of(applied, pool, winners, i) + rest
}

/// What the winners get of `pool`, in their order.
pub open spec fn rewards(
    strategy: SplitStrategy,
    pool: u128,
    winners: Seq<(Identity, u64)>,
) -> Seq<Payout> {
    Seq::new(
        winners.len(),
        |i: int| Payout { to: winners[i].0, amount: reward_of(strategy, pool, winners, i) as u128 },
    )
}

/// One wager back to each player, in their order.
pub open spec fn refunds(wager: u128, players: Seq<Identity>) -> Seq<Payout> {
    Seq::new(players.len(), |i: int| Payout { to: players[i], amount: wager })
}

/// The sum of the amounts.
pub open spec fn total_paid(payouts: Seq<Payout>) -> nat
    decreases payouts.len(),
{
    if payouts.len() == 0 {
        0
    } else {
        total_paid(payouts.drop_last()) + payouts.last().amount as nat
    }
}

proof fn lemma_equal_weight(winners: Seq<(Identity, u64)>)
    ensures
        total_weight(SplitStrategy::Equal, winners) == winners.len(),
    decreases winners.len(),
{
    if winners.len() > 0 {
        lemma_equal_weight(winners.drop_last());
    }
}

/// The weight of the first `k` winners.
proof fn lemma_weight_of_take(strategy: SplitStrategy, winners: Seq<(Identity, u64)>, k: int)
    requires
        0 <= k <= winners.len(),
    ensures
        total_weight(strategy, winners.take(k)) <= total_weight(strategy, winners),
        total_weight(strategy, winners.take(k)) <= k * u64::MAX,
        k > 0 ==> total_weight(strategy, winners.take(k)) == total_weight(
            strategy,
            winners.take(k - 1),
        ) + weight_of(strategy, winners[k - 1].1),
    decreases winners.len() - k,
{
    if k < winners.len() {
        lemma_weight_of_take(strategy, winners, k + 1);
        assert(winners.take(k + 1).drop_last() =~= winners.take(k));
    } else {
        assert(winners.take(k) =~= winners);
        lemma_weight_upper(strategy, winners);
    }
    if k > 0 {
        assert(winners.take(k).drop_last() =~= winners.take(k - 1));
        assert(winners.take(k).last() == winners[k - 1]);
        lemma_weight_upper(strategy, winners.take(k));
    } else {
        assert(winners.take(0).len() == 0);
    }
}

proof fn lemma_weight_upper(strategy: SplitStrategy, winners: Seq<(Identity, u64)>)
    ensures
        total_weight(strategy, winners) <= winners.len() * u64::MAX,
    decreases winners.len(),
{
    let n = winners.len() as int;
    if n > 0 {
        lemma_weight_upper(strategy, winners.drop_last());
        assert((n - 1) * u64::MAX + u64::MAX == n * u64::MAX) by (nonlinear_arith);
    } else {
        assert(0 * u64::MAX == 0) by (nonlinear_arith);
    }
}

/// No winner weighs more than all of them together.
proof fn lemma_weight_within_total(
    strategy: SplitStrategy,
    winners: Seq<(Identity, u64)>,
    i: int,
)
    requires
        0 <= i < winners.len(),
    ensures
        weight_of(strategy, winners[i].1) <= total_weight(strategy, winners),
{
    lemma_weight_of_take(strategy, winners, i + 1);
}

/// The strategy applied gives the winners a weight together that is above
/// zero and, where the winners are no more than 64 bits count, within 64 bits.
pub proof fn lemma_effective_weight(strategy: SplitStrategy, winners: Seq<(Identity, u64)>)
    requires
        winners.len() > 0,
    ensures
        total_weight(effective(strategy, winners), winners) > 0,
        winners.len() <= u64::MAX ==> total_weight(effective(strategy, winners), winners)
            <= u64::MAX,
{
    lemma_equal_weight(winners);
}

/// How a share is worked out in 128 bits: from the quotient and the
/// remainder of the pool by the total weight.
proof fn lemma_share(pool: nat, weight: nat, total: nat)
    requires
        total > 0,
    ensures
        (pool * weight) / total == (pool / total) * weight + ((pool % total) * weight) / total,
        ((pool * weight) / total) * total <= pool * weight,
        weight <= total ==> (pool * weight) / total <= pool,
        weight <= total ==> (pool / total) * weight <= pool,
        (pool % total) * weight <= total * weight,
{
    let q = pool as int / total as int;
    let r = pool as int % total as int;
    let w = weight as int;
    let t = total as int;
    let x = pool as int * w;
    lemma_fundamental_div_mod(pool as int, t);
    lemma_mod_pos_bound(pool as int, t);
    assert(q >= 0) by (nonlinear_arith)
        requires
            pool as int == t * q + r,
            0 <= r < t,
            pool >= 0,
    ;
    let rw = r * w;
    assert(rw >= 0) by (nonlinear_arith)
        requires
            rw == r * w,
            r >= 0,
            w >= 0,
    ;
    assert(rw <= t * w) by (nonlinear_arith)
        requires
            rw == r * w,
            r < t,
            w >= 0,
    ;
    lemma_fundamental_div_mod(rw, t);
    lemma_mod_pos_bound(rw, t);
    let inner = rw / t;
    let left = rw % t;
    assert(x == (q * w + inner) * t + left) by (nonlinear_arith)
        requires
            x == pool as int * w,
            pool as int == t * q + r,
            rw == r * w,
            rw == t * inner + left,
    ;
    lemma_fundamental_div_mod_converse(x, t, q * w + inner, left);
    assert(x / t == q * w + inner);
    assert((x / t) * t <= x);
    assert(inner >= 0) by (nonlinear_arith)
        requires
            rw == t * inner + left,
            0 <= left < t,
            rw >= 0,
    ;
    assert(q * w >= 0) by (nonlinear_arith)
        requires
            q >= 0,
            w >= 0,
    ;
    if weight <= total {
        assert(x / t <= pool as int) by (nonlinear_arith)
            requires
                (x / t) * t <= x,
                x == pool as int * w,
                w <= t,
                t > 0,
                pool >= 0,
        ;
    }
}

/// The first `k` shares are worth no more than the pool's part that goes
/// with the weight of the first `k` winners.
proof fn lemma_shares_sum(
    applied: SplitStrategy,
    pool: u128,
    winners: Seq<(Identity, u64)>,
    k: int,
)
    requires
        0 <= k <= winners.len(),
        total_weight(applied, winners) > 0,
    ensures
        shares_sum(applied, pool, winners, k) * total_weight(applied, winners) <= pool
            * total_weight(applied, winners.take(k)),
        shares_sum(applied, pool, winners, k) <= pool,
        shares_sum(applied, pool, winners, k) <= shares_sum(
            applied,
            pool,
            winners,
            winners.len() as int,
        ),
        k > 0 ==> share_of(applied, pool, winners, k - 1) <= shares_sum(applied, pool, winners, k),
    decreases winners.len() - k,
{
    let total = total_weight(applied, winners) as int;
    let n = winners.len() as int;
    lemma_shares_prefix(applied, pool, winners, k);
    lemma_weight_of_take(applied, winners, k);
    let sum = shares_sum(applied, pool, winners, k) as int;
    let part = total_weight(applied, winners.take(k)) as int;
    assert(sum <= pool) by (nonlinear_arith)
        requires
            sum * total <= pool * part,
            part <= total,
            total > 0,
            pool >= 0,
            sum >= 0,
    ;
    if k < n {
        lemma_shares_sum(applied, pool, winners, k + 1);
    }
}

proof fn lemma_shares_prefix(
    applied: SplitStrategy,
    pool: u128,
    winners: Seq<(Identity, u64)>,
    k: int,
)
    requires
        0 <= k <= winners.len(),
        total_weight(applied, winners) > 0,
    ensures
        shares_sum(applied, pool, winners, k) * total_weight(applied, winners) <= pool
            * total_weight(applied, winners.take(k)),
    decreases k,
{
    let total = total_weight(applied, winners) as int;
    if k > 0 {
        lemma_shares_prefix(applied, pool, winners, k - 1);
        lemma_weight_of_take(applied, winners, k);
        let w = weight_of(applied, winners[k - 1].1) as int;
        lemma_share(pool as nat, w as nat, total as nat);
        let before = shares_sum(applied, pool, winners, k - 1) as int;
        let share = share_of(applied, pool, winners, k - 1) as int;
        let part_before = total_weight(applied, winners.take(k - 1)) as int;
        assert((before + share) * total <= pool * (part_before + w)) by (nonlinear_arith)
            requires
                before * total <= pool * part_before,
                share * total <= pool * w,
        ;
    } else {
        assert(winners.take(0).len() == 0);
        assert(0 * total == 0 && pool * 0 == 0) by (nonlinear_arith);
    }
}

/// The sum of the first `k` rewards.
proof fn lemma_rewards_prefix(
    strategy: SplitStrategy,
    pool: u128,
    winners: Seq<(Identity, u64)>,
    k: int,
)
    requires
        0 <= k <= winners.len(),
        winners.len() > 0,
    ensures
        ({
            let applied = effective(strategy, winners);
            let rest = if k > 0 {
                pool - shares_sum(applied, pool, winners, winners.len() as int)
            } else {
                0
            };
            total_paid(rewards(strategy, pool, winners).take(k)) == shares_sum(
                applied,
                pool,
                winners,
                k,
            ) + rest
        }),
        k > 0 ==> reward_of(strategy, pool, winners, k - 1) <= pool,
    decreases k,
{
    let applied = effective(strategy, winners);
    let all = rewards(strategy, pool, winners);
    let n = winners.len() as int;
    lemma_effective_weight(strategy, winners);
    lemma_shares_sum(applied, pool, winners, n);
    if k > 0 {
        lemma_rewards_prefix(strategy, pool, winners, k - 1);
        lemma_shares_sum(applied, pool, winners, k);
        assert(all.take(k).drop_last() =~= all.take(k - 1));
        let reward = reward_of(strategy, pool, winners, k - 1);
        assert(reward <= pool);
        assert(all.take(k).last() == all[k - 1]);
        assert(all[k - 1].amount == reward);
    } else {
        assert(all.take(0).len() == 0);
    }
}

/// The rewards use up the pool to the last unit, and none is above the pool.
pub proof fn lemma_rewards_exhaust_pool(
    strategy: SplitStrategy,
    pool: u128,
    winners: Seq<(Identity, u64)>,
)
    requires
        winners.len() > 0,
    ensures
        total_paid(rewards(strategy, pool, winners)) == pool,
        forall|i: int|
            0 <= i < winners.len() ==> #[trigger] reward_of(strategy, pool, winners, i) <= pool,
{
    let applied = effective(strategy, winners);
    let n = winners.len() as int;
    lemma_effective_weight(strategy, winners);
    lemma_shares_sum(applied, pool, winners, n);
    lemma_rewards_prefix(strategy, pool, winners, n);
    assert(rewards(strategy, pool, winners).take(n) =~= rewards(strategy, pool, winners));
    assert forall|i: int| 0 <= i < n implies #[trigger] reward_of(strategy, pool, winners, i)
        <= pool by {
        lemma_rewards_prefix(strategy, pool, winners, i + 1);
    }
}

/// The refunds add up to one wager per player.
pub proof fn lemma_refunds_total(wager: u128, players: Seq<Identity>)
    ensures
        total_paid(refunds(wager, players)) == wager * players.len(),
    decreases players.len(),
{
    let n = players.len() as int;
    if n > 0 {
        lemma_refunds_total(wager, players.drop_last());
        assert(refunds(wager, players).drop_last() =~= refunds(wager, players.drop_last()));
        assert(wager * (n - 1) + wager == wager * n) by (nonlinear_arith);
    } else {
        assert(wager * 0 == 0) by (nonlinear_arith);
    }
}

/// The weight that the winners have together under `strategy`.
fn sum_weights(strategy: SplitStrategy, winners: &Vec<(Identity, u64)>) -> (total: u128)
    ensures
        total == total_weight(strategy, winners@),
{
    let mut total: u128 = 0;
    let mut i: usize = 0;
    while i < winners.len()
        invariant
            i <= winners.len(),
            total == total_weight(strategy, winners@.take(i as int)),
        decreases winners.len() - i,
    {
        let w: u128 = weight(strategy, winners[i].1);
        proof {
            lemma_weight_of_take(strategy, winners@, i as int);
            lemma_weight_of_take(strategy, winners@, i + 1);
            assert((i + 1) * u64::MAX <= u64::MAX * u64::MAX) by (nonlinear_arith)
                requires
                    i + 1 <= u64::MAX,
            ;
        }
        total = total + w;
        i += 1;
    }
    assert(winners@.take(i as int) =~= winners@);
    total
}

/// How often a winner counts.
fn weight(strategy: SplitStrategy, share: u64) -> (w: u128)
    ensures
        w == weight_of(strategy, share),
{
    match strategy {
        SplitStrategy::Equal => 1,
        SplitStrategy::Weighted => share as u128,
    }
}

/// The pool times `weight` by `total`, rounded down.
fn share(pool: u128, weight: u128, total: u128) -> (s: u128)
    requires
        0 < total <= u64::MAX,
        weight <= total,
    ensures
        s == (pool as nat * weight as nat) / total as nat,
{
    proof {
        lemma_share(pool as nat, weight as nat, total as nat);
        assert(total * weight <= u64::MAX * u64::MAX) by (nonlinear_arith)
            requires
                0 <= weight <= total <= u64::MAX,
        ;
    }
    let whole: u128 = (pool / total) * weight;
    let part: u128 = ((pool % total) * weight) / total;
    whole + part
}

/// Splits `pool` among the winners.
pub fn split(strategy: SplitStrategy, pool: u128, winners: &Vec<(Identity, u64)>) -> (payouts:
    Vec<Payout>)
    requires
        winners@.len() > 0,
    ensures
        payouts@ == rewards(strategy, pool, winners@),
        total_paid(payouts@) == pool,
{
    let mut applied = strategy;
    let mut total: u128 = sum_weights(strategy, winners);
    if total == 0 || total > u64::MAX as u128 {
        applied = SplitStrategy::Equal;
        total = sum_weights(applied, winners);
    }
    proof {
        assert(winners@.len() == winners.len());
        lemma_effective_weight(strategy, winners@);
        lemma_rewards_exhaust_pool(strategy, pool, winners@);
    }
    let mut payouts: Vec<Payout> = Vec::new();
    let mut paid: u128 = 0;
    let mut i: usize = 0;
    while i < winners.len()
        invariant
            i <= winners.len(),
            0 < total <= u64::MAX,
            applied == effective(strategy, winners@),
            total == total_weight(applied, winners@),
            payouts@.len() == i,
            paid == shares_sum(applied, pool, winners@, i as int),
            forall|j: int|
                0 <= j < i ==> (#[trigger] payouts@[j]).to == winners@[j].0 && payouts@[j].amount
                    == share_of(applied, pool, winners@, j),
        decreases winners.len() - i,
    {
        let w: u128 = weight(applied, winners[i].1);
        proof {
            lemma_weight_within_total(applied, winners@, i as int);
            lemma_shares_sum(applied, pool, winners@, i + 1);
        }
        let amount: u128 = share(pool, w, total);
        paid = paid + amount;
        payouts.push(Payout { to: winners[i].0, amount });
        i += 1;
    }
    proof {
        lemma_shares_sum(applied, pool, winners@, i as int);
        assert(reward_of(strategy, pool, winners@, 0) <= pool);
    }
    let rest: u128 = pool - paid;
    let first: Payout = payouts[0];
    payouts.set(0, Payout { to: first.to, amount: first.amount + rest });
    assert(payouts@ =~= rewards(strategy, pool, winners@));
    payouts
}

/// One wager back to each player.
pub fn refund_all(wager: u128, players: &Roster) -> (payouts: Vec<Payout>)
    ensures
        payouts@ == refunds(wager, players@),
{
    let mut payouts: Vec<Payout> = Vec::new();
    let mut i: usize = 0;
    while i < players.len()
        invariant
            i <= players@.len(),
            payouts@.len() == i,
            forall|j: int| 0 <= j < i ==> payouts@[j] == refunds(wager, players@)[j],
        decreases players@.len() - i,
    {
        payouts.push(Payout { to: players.get(i), amount: wager });
        i += 1;
    }
    assert(payouts@ =~= refunds(wager, players@));
    payouts
}

} // verus!
