use rand::rngs::StdRng;
use rand::SeedableRng;

use gto_trainer::cards::{Card, Rank, Suit};
use gto_trainer::equity::{monte_carlo_equity, showdown_points};

#[test]
fn monte_carlo_equity_matches_expected_range() {
    let hero = [
        Card::new(Rank::Ace, Suit::Spades),
        Card::new(Rank::Ace, Suit::Hearts),
    ];
    let villain = [
        Card::new(Rank::King, Suit::Spades),
        Card::new(Rank::King, Suit::Hearts),
    ];

    let board: Vec<Card> = Vec::new();
    let mut rng = StdRng::seed_from_u64(99);
    let equity = monte_carlo_equity(&hero, Some(&villain[..]), &board, 10_000, &mut rng);

    // AA vs KK preflop equity is ~82%; equity is in basis points.
    assert!(equity > 7900 && equity < 8500, "equity={equity}");
}

#[test]
fn monte_carlo_respects_known_board() {
    let hero = [
        Card::new(Rank::Ace, Suit::Spades),
        Card::new(Rank::King, Suit::Spades),
    ];
    let villain = [
        Card::new(Rank::Queen, Suit::Clubs),
        Card::new(Rank::Jack, Suit::Clubs),
    ];
    let board = vec![
        Card::new(Rank::Ten, Suit::Spades),
        Card::new(Rank::Queen, Suit::Spades),
        Card::new(Rank::Jack, Suit::Spades),
    ];
    let mut rng = StdRng::seed_from_u64(7);
    let equity = monte_carlo_equity(&hero, Some(&villain[..]), &board, 5_000, &mut rng);
    assert!(equity > 9700, "equity={equity}");
}

#[test]
fn swapping_players_complements_equity() {
    let a = [Card::new(Rank::Seven, Suit::Clubs), Card::new(Rank::Two, Suit::Diamonds)];
    let b = [Card::new(Rank::Queen, Suit::Hearts), Card::new(Rank::Jack, Suit::Hearts)];
    let board = vec![Card::new(Rank::Two, Suit::Hearts), Card::new(Rank::Nine, Suit::Spades), Card::new(Rank::Ten, Suit::Clubs)];
    let mut r1 = StdRng::seed_from_u64(31);
    let mut r2 = StdRng::seed_from_u64(31);
    let ea = monte_carlo_equity(&a, Some(&b[..]), &board, 2_000, &mut r1);
    let eb = monte_carlo_equity(&b, Some(&a[..]), &board, 2_000, &mut r2);
    assert!(ea + eb == 10000 || ea + eb == 9999, "{ea} + {eb}");
}

#[test]
fn zero_samples_draws_one() {
    let hero = [Card::new(Rank::Ace, Suit::Spades), Card::new(Rank::Ace, Suit::Hearts)];
    let board = vec![
        Card::new(Rank::Ace, Suit::Clubs),
        Card::new(Rank::Ace, Suit::Diamonds),
        Card::new(Rank::King, Suit::Spades),
        Card::new(Rank::Two, Suit::Clubs),
        Card::new(Rank::Three, Suit::Diamonds),
    ];
    let mut rng = StdRng::seed_from_u64(1);
    // Hero holds four aces with a king kicker on a complete board: only a tie or a win is possible.
    let e = monte_carlo_equity(&hero, None, &board, 0, &mut rng);
    assert!(e == 10000 || e == 5000);
}

#[test]
fn showdown_points_deal_from_the_end_of_the_deck() {
    let hero = [Card::new(Rank::Ace, Suit::Spades), Card::new(Rank::Ace, Suit::Hearts)];
    let board: Vec<Card> = Vec::new();
    // The last two cards go to the villain, the five before them to the board.
    let deck = vec![
        Card::new(Rank::Four, Suit::Clubs),
        Card::new(Rank::Nine, Suit::Diamonds),
        Card::new(Rank::Eight, Suit::Diamonds),
        Card::new(Rank::Seven, Suit::Clubs),
        Card::new(Rank::Three, Suit::Hearts),
        Card::new(Rank::Two, Suit::Spades),
        Card::new(Rank::King, Suit::Clubs),
        Card::new(Rank::King, Suit::Diamonds),
    ];
    assert_eq!(showdown_points(&hero, None, &board, &deck), 2);
    // With the villain fixed, the board is the last five cards: K K 2 3 7.
    let villain = [Card::new(Rank::King, Suit::Hearts), Card::new(Rank::King, Suit::Spades)];
    assert_eq!(showdown_points(&hero, Some(&villain[..]), &board, &deck), 0);
    let same = [Card::new(Rank::Ace, Suit::Diamonds), Card::new(Rank::Ace, Suit::Clubs)];
    assert_eq!(showdown_points(&hero, Some(&same[..]), &board, &deck), 1);
}
