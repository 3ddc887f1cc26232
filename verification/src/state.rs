use crate::building::Building;
use crate::item::{grow, GrowthRule, Item};
use crate::money::Money;
use crate::upgrade::{upgrade_value, Upgrade, UpgradeKind};
use vstd::prelude::*;

verus! {

/// The state a sequence of purchases leads to: starting from `balance`, with
/// an entity whose next unit costs `cost` and whose level is `level`, buy up
/// to `n` units one at a time, each unit costing the current cost and growing
/// it by `g`, and stop early as soon as the balance no longer covers the
/// current cost. Yields (balance, cost, level) afterwards.
pub open spec fn spec_purchase(balance: nat, cost: nat, level: nat, g: GrowthRule, n: nat) -> (
    nat,
    nat,
    nat,
)
    decreases n,
{
    if n == 0 || balance < cost {
        (balance, cost, level)
    } else {
        spec_purchase((balance - cost) as nat, grow(g, cost), level + 1, g, (n - 1) as nat)
    }
}

/// The cost after `k` applications of the growth rule `g`.
pub open spec fn grown_cost(cost: nat, g: GrowthRule, k: nat) -> nat
    decreases k,
{
    if k == 0 {
        cost
    } else {
        grown_cost(grow(g, cost), g, (k - 1) as nat)
    }
}

/// The total price of the next `k` units of an entity whose next unit costs
/// `cost` and whose cost grows by `g` after each unit.
pub open spec fn cumulative_cost(cost: nat, g: GrowthRule, k: nat) -> nat
    decreases k,
{
    if k == 0 {
        0
    } else {
        cost + cumulative_cost(grow(g, cost), g, (k - 1) as nat)
    }
}

/// True of kinds of an upgrade whose factor parameter is the given value.
pub open spec fn kind_multiplier_factor_is(k: UpgradeKind, factor: nat) -> bool {
    match k {
        UpgradeKind::Multiplier(f) => f.val() == factor,
        UpgradeKind::Power(_) => false,
    }
}

/// True of kinds of an upgrade whose base parameter is the given value.
pub open spec fn kind_power_base_is(k: UpgradeKind, base: nat) -> bool {
    match k {
        UpgradeKind::Power(b) => b.val() == base,
        UpgradeKind::Multiplier(_) => false,
    }
}

pub open spec fn is_starter_building(b: Building, name: Seq<char>, rate: nat, cost: nat) -> bool {
    &&& b.name@ == name
    &&& b.shekels_per_second.val() == rate
    &&& b.cost.val() == cost
    &&& b.level.val() == 0
}

/// The freshly constructed starter state: zero balance, the fixed starter
/// roster, zero-level upgrades at their starter costs.
pub open spec fn is_initial(s: &State) -> bool {
    &&& s.shekel_count.val() == 0
    &&& s.taxation_upgrade.name@ == "Taxation"@
    &&& s.taxation_upgrade.description@ == "Get more shekels from buildings"@
    &&& s.taxation_upgrade.cost.val() == 100
    &&& s.taxation_upgrade.level.val() == 0
    &&& kind_multiplier_factor_is(s.taxation_upgrade.kind, 10)
    &&& s.thievery_upgrade.name@ == "Thievery"@
    &&& s.thievery_upgrade.description@ == "Get more shekels from clicking"@
    &&& s.thievery_upgrade.cost.val() == 100
    &&& s.thievery_upgrade.level.val() == 0
    &&& kind_power_base_is(s.thievery_upgrade.kind, 2)
    &&& s.building_types@.len() == 5
    &&& is_starter_building(s.building_types@[0], "Yewish House"@, 1, 100)
    &&& is_starter_building(s.building_types@[1], "Yewish Commune"@, 10, 800)
    &&& is_starter_building(s.building_types@[2], "Yewish Village"@, 100, 16000)
    &&& is_starter_building(s.building_types@[3], "Yewish Town"@, 1000, 100000)
    &&& is_starter_building(s.building_types@[4], "Yewish City"@, 10000, 8000000)
}

/// Raw income plus the taxation percentage bonus: `raw + raw * tax / 100`.
pub open spec fn taxed_income(raw: nat, tax_value: nat) -> nat {
    raw + raw * tax_value / 100
}

/// One building's taxed per-tick contribution.
pub open spec fn building_income(b: Building, tax_value: nat) -> nat {
    taxed_income(b.shekels_per_second.val() * b.level.val(), tax_value)
}

/// The taxed per-tick contribution of a whole roster of buildings.
pub open spec fn total_income(bs: Seq<Building>, tax_value: nat) -> nat
    decreases bs.len(),
{
    if bs.len() == 0 {
        0
    } else {
        building_income(bs[0], tax_value) + total_income(bs.skip(1), tax_value)
    }
}

/// Which upgrade a purchase event addresses.
pub enum UpgradeChoice {
    Taxation,
    Thievery,
}

/// The inbound events the presentation layer can deliver. A save request
/// leaves the state untouched: persistence itself belongs to the driver,
/// which serializes the state after handing the event in.
pub enum Event {
    Click,
    Tick,
    BuyBuilding(usize, Money),
    BuyUpgrade(UpgradeChoice, Money),
    Reset,
    RequestSave,
}

/// The aggregate save state: the currency balance, the two fixed-role
/// upgrades, and the ordered roster of buildings.
pub struct State {
    pub shekel_count: Money,
    pub taxation_upgrade: Upgrade,
    pub thievery_upgrade: Upgrade,
    pub building_types: Vec<Building>,
}

/// Everything but the balance is as it was.
pub open spec fn only_balance_changed(pre: State, post: State) -> bool {
    &&& post.taxation_upgrade == pre.taxation_upgrade
    &&& post.thievery_upgrade == pre.thievery_upgrade
    &&& post.building_types == pre.building_types
}

/// What a click does: the thievery value is added to the balance.
pub open spec fn click_post(pre: State, post: State) -> bool {
    &&& post.shekel_count.val() == pre.shekel_count.val() + upgrade_value(&pre.thievery_upgrade)
    &&& only_balance_changed(pre, post)
}

/// What a tick does: every building's taxed contribution is added to the
/// balance.
pub open spec fn tick_post(pre: State, post: State) -> bool {
    &&& post.shekel_count.val() == pre.shekel_count.val() + total_income(
        pre.building_types@,
        upgrade_value(&pre.taxation_upgrade),
    )
    &&& only_balance_changed(pre, post)
}

/// What buying an upgrade does to the upgrade and the balance.
pub open spec fn upgrade_purchase_post(pre_balance: Money, pre: Upgrade, post_balance: Money, post: Upgrade, n: nat) -> bool {
    let (b2, c2, l2) = spec_purchase(
        pre_balance.val(),
        pre.cost.val(),
        pre.level.val(),
        pre.growth(),
        n,
    );
    &&& post_balance.val() == b2
    &&& post.cost.val() == c2
    &&& post.level.val() == l2
    &&& post.shape() == pre.shape()
}

/// What `buy_upgrade` does.
pub open spec fn buy_upgrade_post(pre: State, post: State, which: UpgradeChoice, n: nat) -> bool {
    &&& post.building_types == pre.building_types
    &&& match which {
        UpgradeChoice::Taxation => {
            &&& upgrade_purchase_post(
                pre.shekel_count,
                pre.taxation_upgrade,
                post.shekel_count,
                post.taxation_upgrade,
                n,
            )
            &&& post.thievery_upgrade == pre.thievery_upgrade
        },
        UpgradeChoice::Thievery => {
            &&& upgrade_purchase_post(
                pre.shekel_count,
                pre.thievery_upgrade,
                post.shekel_count,
                post.thievery_upgrade,
                n,
            )
            &&& post.taxation_upgrade == pre.taxation_upgrade
        },
    }
}

/// What `buy_building` does: a no-op on an out-of-range index, otherwise a
/// purchase on the addressed building alone.
pub open spec fn buy_building_post(pre: State, post: State, index: usize, n: nat) -> bool {
    &&& post.taxation_upgrade == pre.taxation_upgrade
    &&& post.thievery_upgrade == pre.thievery_upgrade
    &&& if index < pre.building_types@.len() {
        let b_pre = pre.building_types@[index as int];
        let b_post = post.building_types@[index as int];
        let (b2, c2, l2) = spec_purchase(
            pre.shekel_count.val(),
            b_pre.cost.val(),
            b_pre.level.val(),
            GrowthRule::Geometric,
            n,
        );
        &&& post.building_types@.len() == pre.building_types@.len()
        &&& forall|j: int|
            0 <= j < pre.building_types@.len() && j != index ==> post.building_types@[j]
                == pre.building_types@[j]
        &&& post.shekel_count.val() == b2
        &&& b_post.cost.val() == c2
        &&& b_post.level.val() == l2
        &&& b_post.shape() == b_pre.shape()
    } else {
        post == pre
    }
}

impl State {
    /// The fresh starter state.
    pub fn new() -> (r: State)
        ensures
            is_initial(&r),
    {
        let mut building_types: Vec<Building> = Vec::new();
        building_types.push(
            Building::new("Yewish House", Money::from_u32(1), Money::from_u32(100)),
        );
        building_types.push(
            Building::new("Yewish Commune", Money::from_u32(10), Money::from_u32(800)),
        );
        building_types.push(
            Building::new("Yewish Village", Money::from_u32(100), Money::from_u32(16000)),
        );
        building_types.push(
            Building::new("Yewish Town", Money::from_u32(1000), Money::from_u32(100000)),
        );
        building_types.push(
            Building::new("Yewish City", Money::from_u32(10000), Money::from_u32(8000000)),
        );
        State {
            shekel_count: Money::zero(),
            taxation_upgrade: Upgrade::new(
                "Taxation",
                "Get more shekels from buildings",
                Money::from_u32(100),
                UpgradeKind::Multiplier(Money::from_u32(10)),
            ),
            thievery_upgrade: Upgrade::new(
                "Thievery",
                "Get more shekels from clicking",
                Money::from_u32(100),
                UpgradeKind::Power(Money::from_u32(2)),
            ),
            building_types,
        }
    }

    /// Buys up to `count.val()` units of `item`, one at a time, paying the
    /// current cost out of `balance` and growing the cost after each unit;
    /// stops early the moment the balance no longer covers the current cost.
    fn purchase_units<I: Item>(balance: &mut Money, item: &mut I, count: &Money)
        ensures
            ({
                let (b2, c2, l2) = spec_purchase(
                    old(balance).val(),
                    old(item).cost_val(),
                    old(item).level_val(),
                    old(item).growth(),
                    count.val(),
                );
                &&& final (balance).val() == b2
                &&& final (item).cost_val() == c2
                &&& final (item).level_val() == l2
            }),
            final (item).shape() == old(item).shape(),
            final (item).growth() == old(item).growth(),
    {
        let ghost b0 = balance.val();
        let ghost c0 = item.cost_val();
        let ghost l0 = item.level_val();
        let ghost g0 = item.growth();
        let ghost n0 = count.val();
        let one = Money::from_u32(1);
        let mut i = Money::zero();
        loop
            invariant
                one.val() == 1,
                i.val() <= n0,
                n0 == count.val(),
                item.shape() == old(item).shape(),
                item.growth() == g0,
                g0 == old(item).growth(),
                spec_purchase(b0, c0, l0, g0, n0) == spec_purchase(
                    balance.val(),
                    item.cost_val(),
                    item.level_val(),
                    g0,
                    (n0 - i.val()) as nat,
                ),
            ensures
                spec_purchase(b0, c0, l0, g0, n0) == (
                    balance.val(),
                    item.cost_val(),
                    item.level_val(),
                ),
                item.shape() == old(item).shape(),
                item.growth() == g0,
            decreases n0 - i.val(),
        {
            if !i.lt(count) {
                proof {
                    assert(n0 - i.val() == 0);
                    assert(spec_purchase(balance.val(), item.cost_val(), item.level_val(), g0, 0)
                        == (balance.val(), item.cost_val(), item.level_val()));
                }
                break ;
            }
            if balance.lt(item.cost()) {
                proof {
                    assert(spec_purchase(
                        balance.val(),
                        item.cost_val(),
                        item.level_val(),
                        g0,
                        (n0 - i.val()) as nat,
                    ) == (balance.val(), item.cost_val(), item.level_val()));
                }
                break ;
            }
            let ghost pre_b = balance.val();
            let ghost pre_c = item.cost_val();
            let ghost pre_l = item.level_val();
            let ghost rem = (n0 - i.val()) as nat;
            let next_balance = balance.minus(item.cost());
            *balance = next_balance;
            item.increase_level();
            item.adjust_cost();
            i = i.plus(&one);
            proof {
                assert(spec_purchase(pre_b, pre_c, pre_l, g0, rem) == spec_purchase(
                    (pre_b - pre_c) as nat,
                    grow(g0, pre_c),
                    pre_l + 1,
                    g0,
                    (rem - 1) as nat,
                ));
                assert(balance.val() == pre_b - pre_c);
                assert(item.cost_val() == grow(g0, pre_c));
                assert(item.level_val() == pre_l + 1);
                assert((rem - 1) as nat == (n0 - i.val()) as nat);
            }
        }
    }

    /// Buys up to `count.val()` units of an entity, paying out of this
    /// state's balance. Partial fill: stops early, with no error, the moment
    /// the balance no longer covers the entity's current cost.
    pub fn purchase<I: Item>(&mut self, item: &mut I, count: Money)
        ensures
            ({
                let (b2, c2, l2) = spec_purchase(
                    old(self).shekel_count.val(),
                    old(item).cost_val(),
                    old(item).level_val(),
                    old(item).growth(),
                    count.val(),
                );
                &&& final (self).shekel_count.val() == b2
                &&& final (item).cost_val() == c2
                &&& final (item).level_val() == l2
            }),
            final (item).shape() == old(item).shape(),
            final (item).growth() == old(item).growth(),
            only_balance_changed(*old(self), *final (self)),
    {
        Self::purchase_units(&mut self.shekel_count, item, &count);
    }

    /// Buys up to `count.val()` units of the building at `index`; a no-op on
    /// an out-of-range index.
    pub fn buy_building(&mut self, index: usize, count: Money)
        ensures
            buy_building_post(*old(self), *final (self), index, count.val()),
    {
        if index < self.building_types.len() {
            let mut building = self.building_types.remove(index);
            Self::purchase_units(&mut self.shekel_count, &mut building, &count);
            self.building_types.insert(index, building);
            proof {
                assert(self.building_types@.len() == old(self).building_types@.len());
                assert forall|j: int|
                    0 <= j < old(self).building_types@.len() && j != index implies self
                    .building_types@[j] == old(self).building_types@[j] by {
                    if j < index {
                        assert(self.building_types@[j] == old(self).building_types@.remove(
                            index as int,
                        )[j]);
                    } else {
                        assert(self.building_types@[j] == old(self).building_types@.remove(
                            index as int,
                        )[j - 1]);
                    }
                }
            }
        }
    }

    /// Buys up to `count.val()` units of the chosen fixed-role upgrade.
    pub fn buy_upgrade(&mut self, which: UpgradeChoice, count: Money)
        ensures
            buy_upgrade_post(*old(self), *final (self), which, count.val()),
    {
        match which {
            UpgradeChoice::Taxation => {
                Self::purchase_units(&mut self.shekel_count, &mut self.taxation_upgrade, &count);
            },
            UpgradeChoice::Thievery => {
                Self::purchase_units(&mut self.shekel_count, &mut self.thievery_upgrade, &count);
            },
        }
    }

    /// One building's taxed per-tick contribution under the current taxation
    /// upgrade: raw income plus `raw * tax / 100`.
    pub fn calculate_building_income(&self, building: &Building) -> (r: Money)
        ensures
            r.val() == building_income(*building, upgrade_value(&self.taxation_upgrade)),
    {
        let income = building.calculate_income();
        let tax = self.taxation_upgrade.get_value();
        let bonus = income.times(&tax).div_u32(100);
        income.plus(&bonus)
    }

    /// The current click income: the thievery upgrade's value.
    pub fn calculate_shekels_per_click(&self) -> (r: Money)
        ensures
            r.val() == upgrade_value(&self.thievery_upgrade),
    {
        self.thievery_upgrade.get_value()
    }

    /// The total taxed per-tick income of the whole roster.
    pub fn calculate_total_income(&self) -> (r: Money)
        ensures
            r.val() == total_income(self.building_types@, upgrade_value(&self.taxation_upgrade)),
    {
        let ghost taxv = upgrade_value(&self.taxation_upgrade);
        let ghost all = self.building_types@;
        let mut income = Money::zero();
        let mut idx: usize = 0;
        proof {
            assert(all.skip(0) =~= all);
        }
        while idx < self.building_types.len()
            invariant
                idx <= self.building_types@.len(),
                all == self.building_types@,
                taxv == upgrade_value(&self.taxation_upgrade),
                income.val() + total_income(all.skip(idx as int), taxv) == total_income(all, taxv),
            decreases self.building_types@.len() - idx,
        {
            let contribution = self.calculate_building_income(&self.building_types[idx]);
            income = income.plus(&contribution);
            idx = idx + 1;
            proof {
                assert(all.skip(idx - 1).skip(1) =~= all.skip(idx as int));
                assert(all.skip(idx - 1)[0] == all[idx - 1]);
                assert(total_income(all.skip(idx - 1), taxv) == building_income(all[idx - 1], taxv)
                    + total_income(all.skip(idx as int), taxv));
            }
        }
        proof {
            assert(all.skip(idx as int).len() == 0);
            assert(total_income(all.skip(idx as int), taxv) == 0);
        }
        income
    }

    /// Tick accrual: adds every building's taxed contribution to the balance.
    pub fn tick(&mut self)
        ensures
            tick_post(*old(self), *final (self)),
    {
        let ghost taxv = upgrade_value(&old(self).taxation_upgrade);
        let ghost all = old(self).building_types@;
        let ghost b0 = old(self).shekel_count.val();
        let mut idx: usize = 0;
        proof {
            assert(all.skip(0) =~= all);
        }
        while idx < self.building_types.len()
            invariant
                idx <= self.building_types@.len(),
                self.taxation_upgrade == old(self).taxation_upgrade,
                self.thievery_upgrade == old(self).thievery_upgrade,
                self.building_types == old(self).building_types,
                all == self.building_types@,
                taxv == upgrade_value(&self.taxation_upgrade),
                self.shekel_count.val() + total_income(all.skip(idx as int), taxv) == b0
                    + total_income(all, taxv),
            decreases self.building_types@.len() - idx,
        {
            let contribution = self.calculate_building_income(&self.building_types[idx]);
            let next_balance = self.shekel_count.plus(&contribution);
            self.shekel_count = next_balance;
            idx = idx + 1;
            proof {
                assert(all.skip(idx - 1).skip(1) =~= all.skip(idx as int));
                assert(all.skip(idx - 1)[0] == all[idx - 1]);
                assert(total_income(all.skip(idx - 1), taxv) == building_income(all[idx - 1], taxv)
                    + total_income(all.skip(idx as int), taxv));
            }
        }
        proof {
            assert(all.skip(idx as int).len() == 0);
            assert(total_income(all.skip(idx as int), taxv) == 0);
        }
    }

    /// Click: adds the thievery value to the balance. No cost, no cooldown.
    pub fn click(&mut self)
        ensures
            click_post(*old(self), *final (self)),
    {
        let value = self.thievery_upgrade.get_value();
        let next_balance = self.shekel_count.plus(&value);
        self.shekel_count = next_balance;
    }

    /// Reset: replaces the whole state with the fresh starter state,
    /// regardless of what it was.
    pub fn reset(&mut self)
        ensures
            is_initial(final (self)),
    {
        *self = State::new();
    }

    /// Processes one inbound event.
    pub fn handle(&mut self, event: Event)
        ensures
            match event {
                Event::Click => click_post(*old(self), *final (self)),
                Event::Tick => tick_post(*old(self), *final (self)),
                Event::BuyBuilding(index, count) => buy_building_post(
                    *old(self),
                    *final (self),
                    index,
                    count.val(),
                ),
                Event::BuyUpgrade(which, count) => buy_upgrade_post(
                    *old(self),
                    *final (self),
                    which,
                    count.val(),
                ),
                Event::Reset => is_initial(final (self)),
                Event::RequestSave => *final (self) == *old(self),
            },
    {
        match event {
            Event::Click => self.click(),
            Event::Tick => self.tick(),
            Event::BuyBuilding(index, count) => self.buy_building(index, count),
            Event::BuyUpgrade(which, count) => self.buy_upgrade(which, count),
            Event::Reset => self.reset(),
            Event::RequestSave => {},
        }
    }
}

} // verus!
