use crate::item::{grow, GrowthRule, Item};
use crate::money::Money;
use vstd::prelude::*;

verus! {

/// A passive income source: each tick it contributes
/// `shekels_per_second * level` (before the taxation bonus).
pub struct Building {
    pub name: String,
    pub shekels_per_second: Money,
    pub cost: Money,
    pub level: Money,
}

impl Building {
    pub fn new(name: &str, shekels_per_second: Money, cost: Money) -> (r: Building)
        ensures
            r.name@ == name@,
            r.shekels_per_second == shekels_per_second,
            r.cost == cost,
            r.level.val() == 0,
            r.level.rep() == Seq::<u32>::empty(),
    {
        Building { name: name.to_owned(), shekels_per_second, cost, level: Money::zero() }
    }

    /// The raw (untaxed) income this building produces per tick.
    pub fn calculate_income(&self) -> (r: Money)
        ensures
            r.val() == self.shekels_per_second.val() * self.level.val(),
    {
        self.shekels_per_second.times(&self.level)
    }
}

impl Item for Building {
    type Shape = (Seq<char>, Seq<u32>);

    open spec fn shape(&self) -> (Seq<char>, Seq<u32>) {
        (self.name@, self.shekels_per_second.rep())
    }

    open spec fn cost_val(&self) -> nat {
        self.cost.val()
    }

    open spec fn level_val(&self) -> nat {
        self.level.val()
    }

    open spec fn growth(&self) -> GrowthRule {
        GrowthRule::Geometric
    }

    fn cost(&self) -> (r: &Money) {
        &self.cost
    }

    fn level(&self) -> (r: &Money) {
        &self.level
    }

    fn increase_level(&mut self) {
        let one = Money::from_u32(1);
        let next = self.level.plus(&one);
        self.level = next;
    }

    fn adjust_cost(&mut self) {
        let half = self.cost.div_u32(2);
        let next = self.cost.plus(&half);
        self.cost = next;
    }
}

} // verus!
