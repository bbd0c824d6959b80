use gto_trainer::cards::{deal_unique_cards, shuffle_deck, standard_deck, Card, Rank, Suit};
use rand::rngs::StdRng;
use rand::SeedableRng;

#[test]
fn card_notation_joins_label_and_symbol() {
    assert_eq!(Card::new(Rank::Ten, Suit::Spades).notation(), "T♠");
    assert_eq!(Card::new(Rank::Two, Suit::Clubs).notation(), "2♣");
    assert_eq!(Card::new(Rank::Ace, Suit::Hearts).notation(), "A♥");
    assert_eq!(Rank::Queen.short_label(), "Q");
    assert_eq!(Suit::Diamonds.symbol(), "♦");
    assert_eq!(Card::new(Rank::King, Suit::Clubs).rank_value(), 13);
}

#[test]
fn rank_and_suit_parsing() {
    assert_eq!(Rank::parse("10"), Ok(Rank::Ten));
    assert_eq!(Rank::parse("t"), Ok(Rank::Ten));
    assert_eq!(Rank::parse("a"), Ok(Rank::Ace));
    assert_eq!("K".parse::<Rank>(), Ok(Rank::King));
    assert_eq!(Rank::parse("1"), Err("Invalid rank '1'".to_string()));
    assert_eq!(Rank::parse("11"), Err("Invalid rank '11'".to_string()));
    assert_eq!(Suit::parse("S"), Ok(Suit::Spades));
    assert_eq!(Suit::parse("♥"), Ok(Suit::Hearts));
    assert_eq!("d".parse::<Suit>(), Ok(Suit::Diamonds));
    assert_eq!(Suit::parse("x"), Err("Invalid suit 'x'".to_string()));
    assert_eq!(Suit::parse(""), Err("Invalid suit ''".to_string()));
}

#[test]
fn standard_deck_has_52_distinct_cards_in_order() {
    let deck = standard_deck();
    assert_eq!(deck.len(), 52);
    assert_eq!(deck[0], Card::new(Rank::Two, Suit::Clubs));
    assert_eq!(deck[12], Card::new(Rank::Ace, Suit::Clubs));
    assert_eq!(deck[13], Card::new(Rank::Two, Suit::Diamonds));
    assert_eq!(deck[51], Card::new(Rank::Ace, Suit::Spades));
    for i in 0..52 {
        for j in i + 1..52 {
            assert_ne!(deck[i], deck[j]);
        }
    }
}

#[test]
fn shuffling_keeps_the_cards_and_moves_them() {
    let mut rng = StdRng::seed_from_u64(5);
    let mut deck = standard_deck();
    shuffle_deck(&mut rng, &mut deck);
    assert_eq!(deck.len(), 52);
    assert_ne!(deck, standard_deck());
    let fresh = standard_deck();
    for card in &fresh {
        assert_eq!(deck.iter().filter(|c| *c == card).count(), 1);
    }
}

#[test]
fn dealing_gives_distinct_cards() {
    let mut rng = StdRng::seed_from_u64(9);
    let cards = deal_unique_cards(&mut rng, 9);
    assert_eq!(cards.len(), 9);
    for i in 0..9 {
        for j in i + 1..9 {
            assert_ne!(cards[i], cards[j]);
        }
    }
    assert_eq!(deal_unique_cards(&mut rng, 60).len(), 52);
    assert_eq!(deal_unique_cards(&mut rng, 0).len(), 0);
}
