use std::cmp::Ordering;

use rand::rngs::StdRng;
use rand::SeedableRng;

use gto_trainer::cards::{deal_unique_cards, Card, Rank, Suit};
use gto_trainer::evaluator::{best_five_card_hand, compare_strength, evaluate_five, HandCategory};

fn c(rank: Rank, suit: Suit) -> Card {
    Card::new(rank, suit)
}

#[test]
fn straight_flush_beats_four_kind() {
    let sf = [
        c(Rank::Ten, Suit::Hearts),
        c(Rank::Jack, Suit::Hearts),
        c(Rank::Queen, Suit::Hearts),
        c(Rank::King, Suit::Hearts),
        c(Rank::Ace, Suit::Hearts),
    ];
    let four = [
        c(Rank::Nine, Suit::Clubs),
        c(Rank::Nine, Suit::Diamonds),
        c(Rank::Nine, Suit::Hearts),
        c(Rank::Nine, Suit::Spades),
        c(Rank::Ace, Suit::Clubs),
    ];

    assert!(evaluate_five(&sf) > evaluate_five(&four));
}

#[test]
fn wheel_straight_detected() {
    let hand = [
        c(Rank::Ace, Suit::Clubs),
        c(Rank::Two, Suit::Diamonds),
        c(Rank::Three, Suit::Hearts),
        c(Rank::Four, Suit::Spades),
        c(Rank::Five, Suit::Clubs),
    ];
    let strength = evaluate_five(&hand);
    assert_eq!(strength.category, HandCategory::Straight);
    assert_eq!(strength.ranks[0], 5);
}

#[test]
fn quads_outrank_full_house() {
    let cards = vec![
        c(Rank::Nine, Suit::Clubs),
        c(Rank::Nine, Suit::Diamonds),
        c(Rank::Nine, Suit::Hearts),
        c(Rank::Nine, Suit::Spades),
        c(Rank::Ace, Suit::Clubs),
        c(Rank::Ace, Suit::Hearts),
        c(Rank::Five, Suit::Clubs),
    ];

    let strength = best_five_card_hand(&cards);
    assert_eq!(strength.category, HandCategory::FourOfAKind);
    assert_eq!(strength.ranks[0], Rank::Nine.value());
}

#[test]
fn wheel_is_below_six_high_straight() {
    let wheel = [
        c(Rank::Ace, Suit::Clubs),
        c(Rank::Two, Suit::Diamonds),
        c(Rank::Three, Suit::Hearts),
        c(Rank::Four, Suit::Spades),
        c(Rank::Five, Suit::Clubs),
    ];
    let six = [
        c(Rank::Six, Suit::Clubs),
        c(Rank::Two, Suit::Diamonds),
        c(Rank::Three, Suit::Hearts),
        c(Rank::Four, Suit::Spades),
        c(Rank::Five, Suit::Clubs),
    ];
    let w = evaluate_five(&wheel);
    let s = evaluate_five(&six);
    assert_eq!(w.ranks, [5, 4, 3, 2, 1]);
    assert_eq!(s.category, HandCategory::Straight);
    assert_eq!(s.ranks, [6, 5, 4, 3, 2]);
    assert_eq!(compare_strength(w, s), Ordering::Less);
    assert!(w < s);
}

#[test]
fn every_category_in_order() {
    let hands = [
        // high card
        [c(Rank::Two, Suit::Clubs), c(Rank::Seven, Suit::Diamonds), c(Rank::Nine, Suit::Hearts), c(Rank::Jack, Suit::Spades), c(Rank::King, Suit::Clubs)],
        // one pair
        [c(Rank::Two, Suit::Clubs), c(Rank::Two, Suit::Diamonds), c(Rank::Nine, Suit::Hearts), c(Rank::Jack, Suit::Spades), c(Rank::King, Suit::Clubs)],
        // two pair
        [c(Rank::Two, Suit::Clubs), c(Rank::Two, Suit::Diamonds), c(Rank::Nine, Suit::Hearts), c(Rank::Nine, Suit::Spades), c(Rank::King, Suit::Clubs)],
        // trips
        [c(Rank::Two, Suit::Clubs), c(Rank::Two, Suit::Diamonds), c(Rank::Two, Suit::Hearts), c(Rank::Nine, Suit::Spades), c(Rank::King, Suit::Clubs)],
        // straight
        [c(Rank::Five, Suit::Clubs), c(Rank::Six, Suit::Diamonds), c(Rank::Seven, Suit::Hearts), c(Rank::Eight, Suit::Spades), c(Rank::Nine, Suit::Clubs)],
        // flush
        [c(Rank::Two, Suit::Clubs), c(Rank::Seven, Suit::Clubs), c(Rank::Nine, Suit::Clubs), c(Rank::Jack, Suit::Clubs), c(Rank::King, Suit::Clubs)],
        // full house
        [c(Rank::Two, Suit::Clubs), c(Rank::Two, Suit::Diamonds), c(Rank::Two, Suit::Hearts), c(Rank::King, Suit::Spades), c(Rank::King, Suit::Clubs)],
        // quads
        [c(Rank::Two, Suit::Clubs), c(Rank::Two, Suit::Diamonds), c(Rank::Two, Suit::Hearts), c(Rank::Two, Suit::Spades), c(Rank::King, Suit::Clubs)],
        // straight flush
        [c(Rank::Five, Suit::Spades), c(Rank::Six, Suit::Spades), c(Rank::Seven, Suit::Spades), c(Rank::Eight, Suit::Spades), c(Rank::Nine, Suit::Spades)],
    ];
    let expected = [
        (HandCategory::HighCard, [13, 11, 9, 7, 2]),
        (HandCategory::OnePair, [2, 13, 11, 9, 0]),
        (HandCategory::TwoPair, [9, 2, 13, 0, 0]),
        (HandCategory::ThreeOfAKind, [2, 13, 9, 0, 0]),
        (HandCategory::Straight, [9, 8, 7, 6, 5]),
        (HandCategory::Flush, [13, 11, 9, 7, 2]),
        (HandCategory::FullHouse, [2, 13, 0, 0, 0]),
        (HandCategory::FourOfAKind, [2, 13, 0, 0, 0]),
        (HandCategory::StraightFlush, [9, 8, 7, 6, 5]),
    ];
    for (hand, (category, ranks)) in hands.iter().zip(expected.iter()) {
        let s = evaluate_five(hand);
        assert_eq!(s.category, *category);
        assert_eq!(s.ranks, *ranks);
    }
    for i in 0..hands.len() {
        for j in 0..hands.len() {
            let a = evaluate_five(&hands[i]);
            let b = evaluate_five(&hands[j]);
            assert_eq!(compare_strength(a, b), i.cmp(&j));
        }
    }
}

#[test]
fn kickers_break_ties_within_a_category() {
    let pair_king_kicker = [c(Rank::Ace, Suit::Clubs), c(Rank::Ace, Suit::Diamonds), c(Rank::King, Suit::Hearts), c(Rank::Four, Suit::Spades), c(Rank::Three, Suit::Clubs)];
    let pair_queen_kicker = [c(Rank::Ace, Suit::Hearts), c(Rank::Ace, Suit::Spades), c(Rank::Queen, Suit::Hearts), c(Rank::Four, Suit::Clubs), c(Rank::Three, Suit::Diamonds)];
    let a = evaluate_five(&pair_king_kicker);
    let b = evaluate_five(&pair_queen_kicker);
    assert_eq!(compare_strength(a, b), Ordering::Greater);
    assert_eq!(compare_strength(a, a), Ordering::Equal);
}

#[test]
fn best_of_seven_matches_brute_force() {
    let cards = vec![
        c(Rank::Ace, Suit::Spades),
        c(Rank::King, Suit::Spades),
        c(Rank::Ten, Suit::Spades),
        c(Rank::Queen, Suit::Spades),
        c(Rank::Jack, Suit::Hearts),
        c(Rank::Two, Suit::Spades),
        c(Rank::Jack, Suit::Clubs),
    ];
    let best = best_five_card_hand(&cards);
    let mut brute = None;
    for a in 0..7 {
        for b in a + 1..7 {
            for cc in b + 1..7 {
                for d in cc + 1..7 {
                    for e in d + 1..7 {
                        let s = evaluate_five(&[cards[a], cards[b], cards[cc], cards[d], cards[e]]);
                        brute = match brute {
                            None => Some(s),
                            Some(m) if s > m => Some(s),
                            keep => keep,
                        };
                    }
                }
            }
        }
    }
    assert_eq!(Some(best), brute);
    assert_eq!(best.category, HandCategory::Flush);
    assert_eq!(best.ranks, [14, 13, 12, 10, 2]);
}

#[test]
fn best_of_exactly_five_is_that_hand() {
    let cards = vec![
        c(Rank::Three, Suit::Spades),
        c(Rank::Three, Suit::Hearts),
        c(Rank::Eight, Suit::Spades),
        c(Rank::Eight, Suit::Clubs),
        c(Rank::Eight, Suit::Diamonds),
    ];
    let best = best_five_card_hand(&cards);
    assert_eq!(best.category, HandCategory::FullHouse);
    assert_eq!(best.ranks, [8, 3, 0, 0, 0]);
}

#[test]
fn category_order_and_best_of_seven_on_random_deals() {
    let mut rng = StdRng::seed_from_u64(2024);
    for _ in 0..200 {
        let a = deal_unique_cards(&mut rng, 7);
        let b = deal_unique_cards(&mut rng, 5);
        let sa = evaluate_five(&[a[0], a[1], a[2], a[3], a[4]]);
        let sb = evaluate_five(&[b[0], b[1], b[2], b[3], b[4]]);
        if sa.category > sb.category {
            assert_eq!(compare_strength(sa, sb), Ordering::Greater);
        }
        if sa.category < sb.category {
            assert_eq!(compare_strength(sa, sb), Ordering::Less);
        }
        let best = best_five_card_hand(&a);
        let mut top = None;
        for i in 0..7 {
            for j in i + 1..7 {
                let rest: Vec<Card> = (0..7).filter(|k| *k != i && *k != j).map(|k| a[k]).collect();
                let s = evaluate_five(&[rest[0], rest[1], rest[2], rest[3], rest[4]]);
                top = match top {
                    None => Some(s),
                    Some(m) if s > m => Some(s),
                    keep => keep,
                };
            }
        }
        assert_eq!(Some(best), top);
    }
}
