use crate::item::{grow, GrowthRule, Item};
use crate::money::Money;
use vstd::arithmetic::power::pow;
use vstd::prelude::*;

verus! {

/// The two behavior variants of an upgrade.
pub enum UpgradeKind {
    /// Exponential bonus on click income: the upgrade's value is
    /// `base ^ level`. Cost-growth rule: `cost <- cost * base * 2`.
    Power(Money),
    /// Percentage bonus on building income: the upgrade's value is `0` at
    /// level 0 and `factor * level` otherwise. Cost-growth rule:
    /// `cost <- cost + floor(cost / 2)`.
    Multiplier(Money),
}

/// The kind of an upgrade with its parameter's limb representation.
pub enum KindView {
    Power(Seq<u32>),
    Multiplier(Seq<u32>),
}

pub open spec fn kind_view(k: &UpgradeKind) -> KindView {
    match k {
        UpgradeKind::Power(base) => KindView::Power(base.rep()),
        UpgradeKind::Multiplier(factor) => KindView::Multiplier(factor.rep()),
    }
}

/// The effective value of an upgrade at its current level. A `Power`
/// upgrade's value is `base ^ level` (so `1` at level 0, the multiplicative
/// identity). A `Multiplier` upgrade's value is a percentage: `0` at level 0,
/// `factor * level` otherwise.
pub open spec fn upgrade_value(u: &Upgrade) -> nat {
    match u.kind {
        UpgradeKind::Power(base) => pow(base.val() as int, u.level.val()) as nat,
        UpgradeKind::Multiplier(factor) => if u.level.val() == 0 {
            0
        } else {
            factor.val() * u.level.val()
        },
    }
}

/// A purchasable entity that modifies an income formula rather than
/// producing income directly.
pub struct Upgrade {
    pub name: String,
    pub description: String,
    pub kind: UpgradeKind,
    pub cost: Money,
    pub level: Money,
}

impl Upgrade {
    pub fn new(name: &str, description: &str, cost: Money, kind: UpgradeKind) -> (r: Upgrade)
        ensures
            r.name@ == name@,
            r.description@ == description@,
            r.cost == cost,
            r.kind == kind,
            r.level.val() == 0,
            r.level.rep() == Seq::<u32>::empty(),
    {
        Upgrade {
            name: name.to_owned(),
            description: description.to_owned(),
            kind,
            cost,
            level: Money::zero(),
        }
    }

    /// The upgrade's effective value at its current level.
    pub fn get_value(&self) -> (r: Money)
        ensures
            r.val() == upgrade_value(self),
    {
        match &self.kind {
            UpgradeKind::Power(base) => base.pow(&self.level),
            UpgradeKind::Multiplier(factor) => {
                if self.level.is_zero() {
                    Money::zero()
                } else {
                    factor.times(&self.level)
                }
            },
        }
    }
}

impl Item for Upgrade {
    type Shape = (Seq<char>, Seq<char>, KindView);

    open spec fn shape(&self) -> (Seq<char>, Seq<char>, KindView) {
        (self.name@, self.description@, kind_view(&self.kind))
    }

    open spec fn cost_val(&self) -> nat {
        self.cost.val()
    }

    open spec fn level_val(&self) -> nat {
        self.level.val()
    }

    open spec fn growth(&self) -> GrowthRule {
        match self.kind {
            UpgradeKind::Power(base) => GrowthRule::PowerStep { base: base.val() },
            UpgradeKind::Multiplier(_) => GrowthRule::Geometric,
        }
    }

    fn cost(&self) -> (r: &Money) {
        &self.cost
    }

    fn level(&self) -> (r: &Money) {
        &self.level
    }

    fn increase_level(&mut self) {
        let one = Money::from_u32(1);
        let next = self.level.plus(&one);
        self.level = next;
    }

    fn adjust_cost(&mut self) {
        match &self.kind {
            UpgradeKind::Power(base) => {
                let two = Money::from_u32(2);
                let next = self.cost.times(base).times(&two);
                self.cost = next;
            },
            UpgradeKind::Multiplier(_) => {
                let half = self.cost.div_u32(2);
                let next = self.cost.plus(&half);
                self.cost = next;
            },
        }
    }
}

} // verus!
