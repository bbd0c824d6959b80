use gto_trainer::cards::{Card, Rank, Suit};
use rand::rngs::StdRng;
use rand::SeedableRng;
use gto_trainer::rival::{RivalProfile, RivalStyle};

#[test]
fn rival_profile_probabilities_are_clamped() {
    let profile = RivalProfile::resolve(RivalStyle::Aggressive);
    let hero_cards = [
        Card::new(Rank::Two, Suit::Clubs),
        Card::new(Rank::Seven, Suit::Hearts),
    ];
    let strength = profile.hand_strength_hint(&hero_cards);
    assert!((0..=10000).contains(&strength));

    let fold = profile.fold_to_three_bet(0);
    assert!((500..=8500).contains(&fold));

    let bluff = profile.bluff_tendency();
    assert!(bluff > 0);
}

#[test]
fn rival_style_values_differ() {
    let aggressive = RivalProfile::resolve(RivalStyle::Aggressive);
    let passive = RivalProfile::resolve(RivalStyle::Passive);

    assert!(aggressive.turn_barrel_frequency > passive.turn_barrel_frequency);
    assert!(aggressive.preflop_fold_to_three_bet < passive.preflop_fold_to_three_bet);
}

#[test]
fn presets_and_fold_to_raise_values() {
    let balanced = RivalProfile::resolve(RivalStyle::Balanced);
    assert_eq!(balanced.describe(), "balanced");
    assert_eq!(balanced.continuation_bet_flop(), 6200);
    assert_eq!(balanced.barrel_turn(), 5200);
    assert_eq!(balanced.probe_river(), 3300);
    // 4800 + (5000 - 0) * 0.35 = 6550
    assert_eq!(balanced.fold_to_three_bet(0), 6550);
    // 4800 + (5000 - 10000) * 0.35 = 3050
    assert_eq!(balanced.fold_to_three_bet(10000), 3050);
    let aggressive = RivalProfile::resolve(RivalStyle::Aggressive);
    assert_eq!(aggressive.fold_to_three_bet(10000), 2050);
    let passive = RivalProfile::resolve(RivalStyle::Passive);
    assert_eq!(passive.fold_to_three_bet(0), 7450);
    assert_eq!(RivalStyle::default(), RivalStyle::Balanced);
}

#[test]
fn strength_hint_values() {
    let profile = RivalProfile::resolve(RivalStyle::Balanced);
    let aces = [Card::new(Rank::Ace, Suit::Clubs), Card::new(Rank::Ace, Suit::Hearts)];
    assert_eq!(profile.hand_strength_hint(&aces), 10000);
    // (2 + 7) / 28 = 3214
    let trash = [Card::new(Rank::Two, Suit::Clubs), Card::new(Rank::Seven, Suit::Hearts)];
    assert_eq!(profile.hand_strength_hint(&trash), 3214);
    // (9 + 8) / 28 = 6071, connected +800, suited +500
    let suited_connectors = [Card::new(Rank::Nine, Suit::Spades), Card::new(Rank::Eight, Suit::Spades)];
    assert_eq!(profile.hand_strength_hint(&suited_connectors), 7371);
    // (7 + 9) / 28 = 5714, one gap apart +800
    let gapped = [Card::new(Rank::Seven, Suit::Clubs), Card::new(Rank::Nine, Suit::Hearts)];
    assert_eq!(profile.hand_strength_hint(&gapped), 6514);
    // (6 + 9) / 28 = 5357, two gaps: no bonus
    let wide = [Card::new(Rank::Six, Suit::Clubs), Card::new(Rank::Nine, Suit::Hearts)];
    assert_eq!(profile.hand_strength_hint(&wide), 5357);
    // (2 + 2) / 28 = 1428, pair +2500
    let deuces = [Card::new(Rank::Two, Suit::Spades), Card::new(Rank::Two, Suit::Hearts)];
    assert_eq!(profile.hand_strength_hint(&deuces), 3928);
}

#[test]
fn random_fold_at_the_extremes() {
    let profile = RivalProfile::resolve(RivalStyle::Passive);
    let mut rng = StdRng::seed_from_u64(3);
    for _ in 0..100 {
        assert!(!profile.random_fold(&mut rng, 0));
        assert!(profile.random_fold(&mut rng, 10000));
        assert!(!profile.random_decision(&mut rng, 0));
    }
    let folds = (0..1000).filter(|_| profile.random_fold(&mut rng, 5000)).count();
    assert!(folds > 350 && folds < 650);
}
