use shekels::{decode_state, encode_state, Money, State, Upgrade, UpgradeChoice, UpgradeKind};

fn assert_same_money(a: &Money, b: &Money) {
    assert_eq!(a.limbs().as_slice(), b.limbs().as_slice());
}

fn assert_same_upgrade(a: &Upgrade, b: &Upgrade) {
    assert_eq!(a.name, b.name);
    assert_eq!(a.description, b.description);
    assert_same_money(&a.cost, &b.cost);
    assert_same_money(&a.level, &b.level);
    match (&a.kind, &b.kind) {
        (UpgradeKind::Power(x), UpgradeKind::Power(y)) => assert_same_money(x, y),
        (UpgradeKind::Multiplier(x), UpgradeKind::Multiplier(y)) => assert_same_money(x, y),
        _ => panic!("upgrade kinds differ"),
    }
}

fn assert_same_state(a: &State, b: &State) {
    assert_same_money(&a.shekel_count, &b.shekel_count);
    assert_same_upgrade(&a.taxation_upgrade, &b.taxation_upgrade);
    assert_same_upgrade(&a.thievery_upgrade, &b.thievery_upgrade);
    assert_eq!(a.building_types.len(), b.building_types.len());
    for (x, y) in a.building_types.iter().zip(b.building_types.iter()) {
        assert_eq!(x.name, y.name);
        assert_same_money(&x.shekels_per_second, &y.shekels_per_second);
        assert_same_money(&x.cost, &y.cost);
        assert_same_money(&x.level, &y.level);
    }
}

#[test]
fn round_trip_of_the_fresh_state() {
    let st = State::new();
    let tokens = encode_state(&st);
    let back = decode_state(&tokens).expect("a fresh save decodes");
    assert_same_state(&st, &back);
}

#[test]
fn round_trip_after_play() {
    let mut st = State::new();
    st.shekel_count = Money::from_u32(100000);
    st.buy_building(0, Money::from_u32(5));
    st.buy_building(2, Money::from_u32(2));
    st.buy_upgrade(UpgradeChoice::Taxation, Money::from_u32(2));
    st.buy_upgrade(UpgradeChoice::Thievery, Money::from_u32(1));
    st.tick();
    st.click();
    let tokens = encode_state(&st);
    let back = decode_state(&tokens).expect("a played save decodes");
    assert_same_state(&st, &back);
}

#[test]
fn round_trip_keeps_values_wider_than_64_bits() {
    let mut st = State::new();
    // A balance of five limbs is far wider than any 64-bit integer.
    st.shekel_count = Money::from_limbs(vec![1, 2, 3, 4, 5]);
    st.building_types[1].level = Money::from_limbs(vec![0, 0, 7]);
    st.building_types[1].cost = Money::from_limbs(vec![u32::MAX, u32::MAX, u32::MAX]);
    let tokens = encode_state(&st);
    let back = decode_state(&tokens).expect("a wide save decodes");
    assert_same_state(&st, &back);
    assert_eq!(back.shekel_count.limbs().as_slice(), &[1, 2, 3, 4, 5]);
}

#[test]
fn decode_rejects_an_empty_stream() {
    let tokens: Vec<u64> = Vec::new();
    assert!(decode_state(&tokens).is_none());
}

#[test]
fn decode_rejects_a_truncated_stream() {
    let st = State::new();
    let mut tokens = encode_state(&st);
    tokens.pop();
    assert!(decode_state(&tokens).is_none());
}

#[test]
fn decode_rejects_a_bad_character_token() {
    let st = State::new();
    let mut tokens = encode_state(&st);
    // The token after the first length prefix of a name is a character; a
    // surrogate code point is not a valid character. The first name starts
    // right after the balance block.
    let name_len_index = 1 + st.shekel_count.limbs().len();
    tokens[name_len_index + 1] = 0xD800;
    assert!(decode_state(&tokens).is_none());
}
