use shekels::{Building, Event, Money, State, Upgrade, UpgradeChoice, UpgradeKind};

fn u(n: u32) -> Money {
    Money::from_u32(n)
}

fn assert_money_eq(actual: &Money, expected: u32) {
    assert!(actual.eq_val(&Money::from_u32(expected)));
}

#[test]
fn money_small_values() {
    assert!(Money::zero().is_zero());
    assert!(u(0).is_zero());
    assert!(!u(7).is_zero());
    assert!(u(3).eq_val(&u(3)));
    assert!(!u(3).eq_val(&u(4)));
    assert!(u(3).le(&u(3)));
    assert!(u(3).le(&u(4)));
    assert!(!u(4).le(&u(3)));
}

#[test]
fn money_pow_small() {
    assert_money_eq(&u(2).pow(&u(10)), 1024);
    assert_money_eq(&u(3).pow(&u(4)), 81);
}

#[test]
fn money_pow_zero_exponent() {
    assert_money_eq(&u(5).pow(&u(0)), 1);
    assert_money_eq(&u(0).pow(&u(0)), 1);
    assert_money_eq(&u(0).pow(&u(3)), 0);
}

#[test]
fn money_from_limbs_is_little_endian() {
    // 2^32 is [0, 1] in little-endian base-2^32 limbs.
    let big = Money::from_limbs(vec![0, 1]);
    assert!(!big.le(&u(u32::MAX)));
    assert_eq!(big.limbs().as_slice(), &[0, 1]);
}

#[test]
fn power_upgrade_value_identity() {
    let mut up = Upgrade::new("t", "d", u(100), UpgradeKind::Power(u(2)));
    assert_money_eq(&up.get_value(), 1);
    up.level = u(1);
    assert_money_eq(&up.get_value(), 2);
    up.level = u(2);
    assert_money_eq(&up.get_value(), 4);
    let mut up3 = Upgrade::new("t", "d", u(100), UpgradeKind::Power(u(3)));
    up3.level = u(2);
    assert_money_eq(&up3.get_value(), 9);
}

#[test]
fn multiplier_upgrade_value_identity() {
    let mut up = Upgrade::new("t", "d", u(100), UpgradeKind::Multiplier(u(10)));
    assert_money_eq(&up.get_value(), 0);
    up.level = u(1);
    assert_money_eq(&up.get_value(), 10);
    up.level = u(3);
    assert_money_eq(&up.get_value(), 30);
}

#[test]
fn building_cost_growth_example() {
    let mut st = State::new();
    st.shekel_count = u(1000);
    let mut b = Building::new("hut", u(1), u(100));
    st.purchase(&mut b, u(1));
    assert_money_eq(&b.cost, 150);
    assert_money_eq(&b.level, 1);
    assert_money_eq(&st.shekel_count, 900);
}

#[test]
fn power_upgrade_cost_growth_example() {
    let mut st = State::new();
    st.shekel_count = u(1000);
    let mut up = Upgrade::new("t", "d", u(100), UpgradeKind::Power(u(2)));
    st.purchase(&mut up, u(1));
    assert_money_eq(&up.cost, 400);
    assert_money_eq(&up.level, 1);
    assert_money_eq(&st.shekel_count, 900);
}

#[test]
fn tick_accrual_example() {
    // One building with rate 10 at level 3, taxation value 20 percent:
    // one tick adds 30 + 30 * 20 / 100 = 36.
    let mut building = Building::new("hut", u(10), u(100));
    building.level = u(3);
    let mut taxation = Upgrade::new("Taxation", "d", u(100), UpgradeKind::Multiplier(u(10)));
    taxation.level = u(2);
    let thievery = Upgrade::new("Thievery", "d", u(100), UpgradeKind::Power(u(2)));
    let mut st = State {
        shekel_count: Money::zero(),
        taxation_upgrade: taxation,
        thievery_upgrade: thievery,
        building_types: vec![building],
    };
    assert_money_eq(&st.calculate_total_income(), 36);
    st.tick();
    assert_money_eq(&st.shekel_count, 36);
    st.tick();
    assert_money_eq(&st.shekel_count, 72);
}

#[test]
fn untaxed_tick_has_no_bonus() {
    // Taxation at level 0 is worth 0 percent, so income is the raw rate.
    let mut st = State::new();
    st.building_types[0].level = u(2);
    st.tick();
    assert_money_eq(&st.shekel_count, 2);
}

#[test]
fn partial_fill_buys_exactly_the_affordable_count() {
    // Costs run 100, 150, 225: with 250 exactly two units fit.
    let mut st = State::new();
    st.shekel_count = u(250);
    st.buy_building(0, u(500));
    assert_money_eq(&st.building_types[0].level, 2);
    assert_money_eq(&st.building_types[0].cost, 225);
    assert_money_eq(&st.shekel_count, 0);
}

#[test]
fn partial_fill_is_not_all_or_nothing() {
    let mut st = State::new();
    st.shekel_count = u(100);
    st.buy_building(0, u(10));
    assert_money_eq(&st.building_types[0].level, 1);
    assert_money_eq(&st.shekel_count, 0);
}

#[test]
fn purchase_of_zero_units_is_a_noop() {
    let mut st = State::new();
    st.shekel_count = u(1000);
    st.buy_building(0, u(0));
    assert_money_eq(&st.building_types[0].level, 0);
    assert_money_eq(&st.building_types[0].cost, 100);
    assert_money_eq(&st.shekel_count, 1000);
}

#[test]
fn unaffordable_purchase_is_a_noop() {
    let mut st = State::new();
    st.shekel_count = u(99);
    st.buy_building(0, u(1));
    assert_money_eq(&st.building_types[0].level, 0);
    assert_money_eq(&st.shekel_count, 99);
}

#[test]
fn buy_building_out_of_range_is_a_noop() {
    let mut st = State::new();
    st.shekel_count = u(1000);
    st.buy_building(17, u(1));
    assert_money_eq(&st.shekel_count, 1000);
    for b in &st.building_types {
        assert!(b.level.is_zero());
    }
}

#[test]
fn buy_upgrade_levels_the_chosen_upgrade() {
    let mut st = State::new();
    st.shekel_count = u(100);
    st.buy_upgrade(UpgradeChoice::Taxation, u(1));
    assert_money_eq(&st.taxation_upgrade.level, 1);
    assert_money_eq(&st.taxation_upgrade.cost, 150);
    assert_money_eq(&st.thievery_upgrade.level, 0);
    assert_money_eq(&st.shekel_count, 0);
}

#[test]
fn click_adds_the_thievery_value() {
    let mut st = State::new();
    st.click();
    // At thievery level 0 the click value is 2^0 = 1.
    assert_money_eq(&st.shekel_count, 1);
    st.thievery_upgrade.level = u(3);
    st.click();
    assert_money_eq(&st.shekel_count, 9);
}

#[test]
fn total_income_sums_all_buildings() {
    let mut st = State::new();
    st.building_types[0].level = u(1);  // rate 1
    st.building_types[1].level = u(2);  // rate 10
    assert_money_eq(&st.calculate_total_income(), 21);
    assert_money_eq(&st.calculate_shekels_per_click(), 1);
}

#[test]
fn reset_restores_the_starter_state() {
    let mut st = State::new();
    st.shekel_count = u(123456);
    st.buy_building(0, u(3));
    st.buy_upgrade(UpgradeChoice::Thievery, u(1));
    st.tick();
    st.reset();
    assert!(st.shekel_count.is_zero());
    let expected = [
        ("Yewish House", 1u32, 100u32),
        ("Yewish Commune", 10, 800),
        ("Yewish Village", 100, 16000),
        ("Yewish Town", 1000, 100000),
        ("Yewish City", 10000, 8000000),
    ];
    assert_eq!(st.building_types.len(), 5);
    for (b, (name, rate, cost)) in st.building_types.iter().zip(expected.iter()) {
        assert_eq!(b.name.as_str(), *name);
        assert_money_eq(&b.shekels_per_second, *rate);
        assert_money_eq(&b.cost, *cost);
        assert!(b.level.is_zero());
    }
    assert_money_eq(&st.taxation_upgrade.cost, 100);
    assert!(st.taxation_upgrade.level.is_zero());
    assert_money_eq(&st.thievery_upgrade.cost, 100);
    assert!(st.thievery_upgrade.level.is_zero());
}

#[test]
fn handle_dispatches_events() {
    let mut st = State::new();
    st.handle(Event::Click);
    assert_money_eq(&st.shekel_count, 1);
    st.shekel_count = u(250);
    st.handle(Event::BuyBuilding(0, u(2)));
    assert_money_eq(&st.building_types[0].level, 2);
    assert_money_eq(&st.shekel_count, 0);
    st.handle(Event::Tick);
    assert_money_eq(&st.shekel_count, 2);
    st.shekel_count = u(100);
    st.handle(Event::BuyUpgrade(UpgradeChoice::Taxation, u(1)));
    assert_money_eq(&st.taxation_upgrade.level, 1);
    st.handle(Event::RequestSave);
    assert_money_eq(&st.taxation_upgrade.level, 1);
    assert_money_eq(&st.shekel_count, 0);
    st.handle(Event::Reset);
    assert!(st.shekel_count.is_zero());
}

#[test]
fn purchase_with_multi_limb_balance() {
    // Balance 2^32, building cost 2^32: one unit is bought, and the grown
    // cost is 1.5 * 2^32, that is [2^31, 1] in limbs.
    let mut st = State::new();
    st.shekel_count = Money::from_limbs(vec![0, 1]);
    let mut b = Building::new("estate", u(1), Money::from_limbs(vec![0, 1]));
    st.purchase(&mut b, u(5));
    assert!(st.shekel_count.is_zero());
    assert_money_eq(&b.level, 1);
    assert!(b.cost.eq_val(&Money::from_limbs(vec![0x8000_0000, 1])));
}
