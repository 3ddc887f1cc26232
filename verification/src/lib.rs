//! Engine of an incremental ("clicker") game: a currency balance grows by
//! clicks and by passive building income, and is spent on buildings and
//! upgrades whose costs grow with each unit bought. All quantities are
//! unbounded non-negative integers.
mod building;
mod codec;
mod item;
mod laws;
mod money;
mod state;
mod upgrade;

pub use building::Building;
pub use codec::{
    buildings_views, building_view, dec_building, dec_buildings, dec_chars, dec_kind, dec_limbs,
    dec_state, dec_upgrade, decode_state, enc_building, enc_buildings, enc_chars, enc_kind,
    enc_limbs, enc_state, enc_upgrade, encode_state, is_char_code, lemma_dec_enc_building,
    lemma_dec_enc_buildings, lemma_dec_enc_chars, lemma_dec_enc_kind, lemma_dec_enc_limbs,
    lemma_dec_enc_state, lemma_dec_enc_upgrade, lemma_enc_buildings_snoc, state_view, upgrade_view,
    wf_building_view, wf_kind_view, wf_state_view, wf_upgrade_view, BuildingView, StateView,
    UpgradeView,
};
pub use item::{grow, GrowthRule, Item};
pub use laws::{
    growth_never_shrinks, lemma_balance_never_negative, lemma_buy_building_monotone,
    lemma_buy_upgrade_monotone, lemma_grow_ge, lemma_multiplier_upgrade_identity,
    lemma_partial_fill, lemma_power_upgrade_identity, lemma_purchase_monotone,
};
pub use money::Money;
pub use state::{
    building_income, buy_building_post, buy_upgrade_post, click_post, cumulative_cost, grown_cost,
    is_initial, is_starter_building, kind_multiplier_factor_is, kind_power_base_is,
    only_balance_changed, spec_purchase, taxed_income, tick_post, total_income,
    upgrade_purchase_post, Event, State, UpgradeChoice,
};
pub use upgrade::{kind_view, upgrade_value, KindView, Upgrade, UpgradeKind};
