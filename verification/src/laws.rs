use crate::item::{grow, GrowthRule, Item};
use crate::money::Money;
use crate::state::{
    buy_building_post, buy_upgrade_post, cumulative_cost, grown_cost, spec_purchase, State,
    UpgradeChoice,
};
use crate::upgrade::{upgrade_value, Upgrade, UpgradeKind};
use vstd::arithmetic::power::{lemma_pow0, lemma_pow1, pow};
use vstd::prelude::*;

verus! {

/// True of growth rules that can never lower a cost: the geometric rule
/// always grows, and the power rule grows whenever its base is at least 1
/// (with base 0 one application drops any cost to zero).
pub open spec fn growth_never_shrinks(g: GrowthRule) -> bool {
    match g {
        GrowthRule::Geometric => true,
        GrowthRule::PowerStep { base } => base >= 1,
    }
}

/// One application of a never-shrinking growth rule never lowers the cost.
pub proof fn lemma_grow_ge(g: GrowthRule, cost: nat)
    requires
        growth_never_shrinks(g),
    ensures
        grow(g, cost) >= cost,
{
    match g {
        GrowthRule::Geometric => {},
        GrowthRule::PowerStep { base } => {
            assert(cost * base * 2 >= cost) by (nonlinear_arith)
                requires
                    base >= 1,
            ;
        },
    }
}

/// Monotonicity law: over any purchase, however many units it asks for, the
/// entity's level never decreases, its cost never decreases (for growth
/// rules that never shrink), and the balance never increases. Levels and
/// costs change through purchases alone, so the same holds over any sequence
/// of purchase events.
pub proof fn lemma_purchase_monotone(balance: nat, cost: nat, level: nat, g: GrowthRule, n: nat)
    requires
        growth_never_shrinks(g),
    ensures
        ({
            let (b2, c2, l2) = spec_purchase(balance, cost, level, g, n);
            &&& l2 >= level
            &&& c2 >= cost
            &&& b2 <= balance
        }),
    decreases n,
{
    if n == 0 || balance < cost {
    } else {
        lemma_grow_ge(g, cost);
        lemma_purchase_monotone(
            (balance - cost) as nat,
            grow(g, cost),
            level + 1,
            g,
            (n - 1) as nat,
        );
    }
}

/// Affordability law: the balance left by a purchase is never negative. The
/// balance is a natural number throughout, and each unit is paid for only
/// after an affordability comparison; the other events only add to the
/// balance or reset it to zero.
pub proof fn lemma_balance_never_negative(
    balance: nat,
    cost: nat,
    level: nat,
    g: GrowthRule,
    n: nat,
)
    ensures
        spec_purchase(balance, cost, level, g, n).0 >= 0,
{
}

/// Partial-fill law: a purchase of up to `n` units buys exactly `k <= n`
/// units, where `k` is the greatest count whose cumulative cost (under
/// repeated growth) the balance covers: the buyer pays exactly that
/// cumulative cost, the cost ends `k` times grown, and either the whole
/// request was filled or the cumulative cost of one more unit would have
/// exceeded the balance at call time.
pub proof fn lemma_partial_fill(balance: nat, cost: nat, level: nat, g: GrowthRule, n: nat)
    ensures
        ({
            let (b2, c2, l2) = spec_purchase(balance, cost, level, g, n);
            let k = (l2 - level) as nat;
            &&& level <= l2 && l2 <= level + n
            &&& c2 == grown_cost(cost, g, k)
            &&& cumulative_cost(cost, g, k) <= balance
            &&& b2 + cumulative_cost(cost, g, k) == balance
            &&& (k < n ==> balance < cumulative_cost(cost, g, (k + 1) as nat))
        }),
    decreases n,
{
    if n == 0 || balance < cost {
        if 0 < n {
            assert(cumulative_cost(cost, g, 1) == cost + cumulative_cost(grow(g, cost), g, 0));
        }
    } else {
        lemma_partial_fill((balance - cost) as nat, grow(g, cost), level + 1, g, (n - 1) as nat);
        let (b2, c2, l2) = spec_purchase(balance, cost, level, g, n);
        let k = (l2 - level) as nat;
        assert(k >= 1);
        assert(cumulative_cost(cost, g, k) == cost + cumulative_cost(
            grow(g, cost),
            g,
            (k - 1) as nat,
        ));
        assert(grown_cost(cost, g, k) == grown_cost(grow(g, cost), g, (k - 1) as nat));
        if k < n {
            assert(cumulative_cost(cost, g, (k + 1) as nat) == cost + cumulative_cost(
                grow(g, cost),
                g,
                k,
            ));
        }
    }
}

/// Monotonicity of a building purchase event: no building's level or cost
/// decreases, and the balance does not increase. Since ticks, clicks and
/// save requests leave levels and costs alone, any sequence of purchase
/// events keeps every level and cost non-decreasing.
pub proof fn lemma_buy_building_monotone(pre: State, post: State, index: usize, n: nat)
    requires
        buy_building_post(pre, post, index, n),
    ensures
        post.shekel_count.val() <= pre.shekel_count.val(),
        post.building_types@.len() == pre.building_types@.len(),
        forall|j: int|
            0 <= j < pre.building_types@.len() ==> #[trigger] post.building_types@[j].level.val()
                >= pre.building_types@[j].level.val() && post.building_types@[j].cost.val()
                >= pre.building_types@[j].cost.val(),
{
    if index < pre.building_types@.len() {
        let b = pre.building_types@[index as int];
        lemma_purchase_monotone(
            pre.shekel_count.val(),
            b.cost.val(),
            b.level.val(),
            GrowthRule::Geometric,
            n,
        );
    }
}

/// Monotonicity of an upgrade purchase event: neither upgrade's level or
/// cost decreases, and the balance does not increase. The requirement on the
/// growth rules excludes only a power upgrade whose base is zero, whose
/// growth rule drops any cost to zero.
pub proof fn lemma_buy_upgrade_monotone(pre: State, post: State, which: UpgradeChoice, n: nat)
    requires
        buy_upgrade_post(pre, post, which, n),
        growth_never_shrinks(pre.taxation_upgrade.growth()),
        growth_never_shrinks(pre.thievery_upgrade.growth()),
    ensures
        post.shekel_count.val() <= pre.shekel_count.val(),
        post.taxation_upgrade.level.val() >= pre.taxation_upgrade.level.val(),
        post.taxation_upgrade.cost.val() >= pre.taxation_upgrade.cost.val(),
        post.thievery_upgrade.level.val() >= pre.thievery_upgrade.level.val(),
        post.thievery_upgrade.cost.val() >= pre.thievery_upgrade.cost.val(),
{
    match which {
        UpgradeChoice::Taxation => {
            lemma_purchase_monotone(
                pre.shekel_count.val(),
                pre.taxation_upgrade.cost.val(),
                pre.taxation_upgrade.level.val(),
                pre.taxation_upgrade.growth(),
                n,
            );
        },
        UpgradeChoice::Thievery => {
            lemma_purchase_monotone(
                pre.shekel_count.val(),
                pre.thievery_upgrade.cost.val(),
                pre.thievery_upgrade.level.val(),
                pre.thievery_upgrade.growth(),
                n,
            );
        },
    }
}

/// Power-upgrade identity: at level 0 the value is 1 (the multiplicative
/// identity, so that click income defaults to the base click value before
/// any purchase), at level 1 it is the base, at level 2 the base squared.
pub proof fn lemma_power_upgrade_identity(u: &Upgrade, base: Money)
    requires
        u.kind == UpgradeKind::Power(base),
    ensures
        u.level.val() == 0 ==> upgrade_value(u) == 1,
        u.level.val() == 1 ==> upgrade_value(u) == base.val(),
        u.level.val() == 2 ==> upgrade_value(u) == base.val() * base.val(),
{
    lemma_pow0(base.val() as int);
    lemma_pow1(base.val() as int);
    if u.level.val() == 2 {
        reveal(pow);
        assert(pow(base.val() as int, 2) == base.val() * pow(base.val() as int, 1));
    }
}

/// Multiplier-upgrade identity: at level 0 the value is 0; at any level
/// `n > 0` it is `factor * n`.
pub proof fn lemma_multiplier_upgrade_identity(u: &Upgrade, factor: Money)
    requires
        u.kind == UpgradeKind::Multiplier(factor),
    ensures
        u.level.val() == 0 ==> upgrade_value(u) == 0,
        u.level.val() > 0 ==> upgrade_value(u) == factor.val() * u.level.val(),
{
}

} // verus!
