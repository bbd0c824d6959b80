use gto_trainer::betting::{bet_size, effective_stack, fold_probability, postflop_options, preflop_options};
use gto_trainer::game::{HeroAction, HeroActionKind, Street};
use gto_trainer::rival::{RivalProfile, RivalStyle};

#[test]
fn effective_stack_is_the_smaller_remainder() {
    assert_eq!(effective_stack(1000, 2500), 97_500);
    assert_eq!(effective_stack(9000, 2500), 91_000);
    assert_eq!(effective_stack(100_000, 0), 0);
    assert_eq!(effective_stack(120_000, 0), 0);
}

#[test]
fn bet_sizes_per_street() {
    assert_eq!(bet_size(5000, Street::Flop, 97_500), 2500);
    assert_eq!(bet_size(5000, Street::Turn, 97_500), 3000);
    assert_eq!(bet_size(5000, Street::River, 97_500), 3750);
    // at least half a big blind
    assert_eq!(bet_size(600, Street::Flop, 97_500), 500);
    // never more than the effective stack
    assert_eq!(bet_size(100_000, Street::River, 20_000), 20_000);
    assert_eq!(bet_size(600, Street::Flop, 300), 300);
}

#[test]
fn postflop_fold_probability_values() {
    let balanced = RivalProfile::resolve(RivalStyle::Balanced);
    // 4000 + (5000 - 6200) * 0.3 + (5000 - 5000) * 0.35 = 3640
    assert_eq!(fold_probability(&balanced, 5000, Street::Flop), 3640);
    // 3000 + (5000 - 3300) * 0.3 + (5000 - 10000) * 0.35 = 1760
    assert_eq!(fold_probability(&balanced, 10000, Street::River), 1760);
    // 3500 + (5000 - 5200) * 0.3 + 5000 * 0.35 = 5190
    assert_eq!(fold_probability(&balanced, 0, Street::Turn), 5190);
    let passive = RivalProfile::resolve(RivalStyle::Passive);
    // 3000 + 2900 * 0.3 + 1750 = 5620
    assert_eq!(fold_probability(&passive, 0, Street::River), 5620);
    let aggressive = RivalProfile::resolve(RivalStyle::Aggressive);
    // 4000 - 2100 * 0.3 - 1750 = 1620
    assert_eq!(fold_probability(&aggressive, 10000, Street::Flop), 1620);
}

#[test]
fn preflop_menu_values() {
    // open 2.5bb, hero has the 1bb blind in, pot 3.5bb, 3-bet to 9bb,
    // fold chance 50%, equity 60%.
    let menu = preflop_options(2500, 1000, 3500, 9000, 5000, 6000);
    assert_eq!(menu.len(), 3);
    assert_eq!(menu[0].action, HeroAction { kind: HeroActionKind::Fold, size_mbb: None });
    assert_eq!(menu[0].ev_delta_mbb, -1000);
    assert_eq!(menu[1].action, HeroAction { kind: HeroActionKind::Call, size_mbb: Some(2500) });
    // 0.6 * 5000 - 0.4 * 1500 = 2400
    assert_eq!(menu[1].ev_delta_mbb, 2400);
    assert_eq!(menu[1].description, "Flat call 2.5bb open (equity 60.0%)");
    assert_eq!(menu[2].action, HeroAction { kind: HeroActionKind::Raise, size_mbb: Some(9000) });
    // 0.5 * 3500 + 0.5 * (0.6 * 18000 - 0.4 * 8000) = 1750 + 3800 = 5550
    assert_eq!(menu[2].ev_delta_mbb, 5550);
    assert_eq!(menu[2].description, "3-bet to 9.0bb (fold equity 50%)");
}

#[test]
fn postflop_menu_values() {
    // flop pot 5bb, equity 25%, fold chance 40%
    let menu = postflop_options(Street::Flop, 5000, 97_500, 4000, 2500);
    assert_eq!(menu.len(), 2);
    assert_eq!(menu[0].action, HeroAction { kind: HeroActionKind::Check, size_mbb: None });
    // (2 * 0.25 - 1) * 5000 = -2500
    assert_eq!(menu[0].ev_delta_mbb, -2500);
    assert_eq!(menu[0].description, "Check and realise equity (25.0% share)");
    assert_eq!(menu[1].action, HeroAction { kind: HeroActionKind::Bet, size_mbb: Some(2500) });
    // 0.4 * 5000 + 0.6 * (0.25 * 10000 - 0.75 * 2500) = 2000 + 375 = 2375
    assert_eq!(menu[1].ev_delta_mbb, 2375);
    assert_eq!(menu[1].description, "Bet 2.5bb (40% fold equity)");
    // a losing value rounds down
    let menu = postflop_options(Street::River, 3333, 50_000, 500, 4999);
    assert_eq!(menu[0].ev_delta_mbb, -1);
    assert_eq!(menu[1].action.size_mbb, Some(2499));
}

#[test]
fn descriptions_round_half_up() {
    let menu = postflop_options(Street::Turn, 4321, 97_500, 4050, 2449);
    assert_eq!(menu[0].description, "Check and realise equity (24.5% share)");
    // 60% of 4.321bb is 2.5926bb, shown as 2.6bb; 40.5% shown as 41%
    assert_eq!(menu[1].action.size_mbb, Some(2592));
    assert_eq!(menu[1].description, "Bet 2.6bb (41% fold equity)");
    let menu = preflop_options(3000, 1000, 4000, 9000, 3049, 5555);
    assert_eq!(menu[1].description, "Flat call 3.0bb open (equity 55.6%)");
    assert_eq!(menu[2].description, "3-bet to 9.0bb (fold equity 30%)");
}
