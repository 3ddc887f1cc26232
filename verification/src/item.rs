use crate::money::Money;
use vstd::prelude::*;

verus! {

/// How a purchasable entity's cost changes after each unit bought.
pub enum GrowthRule {
    /// `cost <- cost + floor(cost / 2)`: 50% geometric growth.
    Geometric,
    /// `cost <- cost * base * 2`: the much steeper rule of power upgrades.
    PowerStep { base: nat },
}

/// One application of a cost-growth rule.
pub open spec fn grow(g: GrowthRule, cost: nat) -> nat {
    match g {
        GrowthRule::Geometric => cost + cost / 2,
        GrowthRule::PowerStep { base } => cost * base * 2,
    }
}

/// A purchasable entity: something with a cost and a level that can be
/// leveled up and whose cost grows by a kind-specific rule. `increase_level`
/// and `adjust_cost` are always invoked as a pair, in that order, once per
/// unit purchased, so that the cost always reflects the next unit's price.
pub trait Item: Sized {
    /// Everything about the entity other than its cost and its level; a
    /// purchase changes nothing but cost and level.
    type Shape;

    /// The part of the entity a purchase leaves untouched.
    spec fn shape(&self) -> Self::Shape;

    /// The price of the next unit.
    spec fn cost_val(&self) -> nat;

    /// How many units have been bought.
    spec fn level_val(&self) -> nat;

    /// This entity's cost-growth rule.
    spec fn growth(&self) -> GrowthRule;

    /// The price of the next unit.
    fn cost(&self) -> (r: &Money)
        ensures
            r.val() == self.cost_val(),
    ;

    /// How many units have been bought.
    fn level(&self) -> (r: &Money)
        ensures
            r.val() == self.level_val(),
    ;

    /// Records one more unit bought. No effect on the cost.
    fn increase_level(&mut self)
        ensures
            final (self).level_val() == old(self).level_val() + 1,
            final (self).cost_val() == old(self).cost_val(),
            final (self).growth() == old(self).growth(),
            final (self).shape() == old(self).shape(),
    ;

    /// Applies this entity's cost-growth rule once. No effect on the level.
    fn adjust_cost(&mut self)
        ensures
            final (self).cost_val() == grow(old(self).growth(), old(self).cost_val()),
            final (self).level_val() == old(self).level_val(),
            final (self).growth() == old(self).growth(),
            final (self).shape() == old(self).shape(),
    ;
}

} // verus!
