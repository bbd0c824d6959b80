//! Ranks, suits, cards and the standard 52-card deck.
use vstd::prelude::*;

use rand::rngs::StdRng;

use crate::chance::shuffle_cards;

verus! {

/// One of the four suits; suits have no order.
#[derive(Debug, Clone, Copy, PartialEq, Eq, Hash, Structural)]
pub enum Suit {
    Clubs,
    Diamonds,
    Hearts,
    Spades,
}

/// The display symbol of a suit.
pub open spec fn suit_symbol(s: Suit) -> char {
    match s {
        Suit::Clubs => '♣',
        Suit::Diamonds => '♦',
        Suit::Hearts => '♥',
        Suit::Spades => '♠',
    }
}

/// Suits in deck order: clubs, diamonds, hearts, spades.
pub open spec fn suit_at(i: int) -> Suit {
    if i == 0 {
        Suit::Clubs
    } else if i == 1 {
        Suit::Diamonds
    } else if i == 2 {
        Suit::Hearts
    } else {
        Suit::Spades
    }
}

impl Suit {
    pub fn symbol(self) -> (r: &'static str)
        ensures
            r@ == seq![suit_symbol(self)],
    {
        match self {
            Suit::Clubs => {
                proof {
                    reveal_strlit("♣");
                }
                "♣"
            },
            Suit::Diamonds => {
                proof {
                    reveal_strlit("♦");
                }
                "♦"
            },
            Suit::Hearts => {
                proof {
                    reveal_strlit("♥");
                }
                "♥"
            },
            Suit::Spades => {
                proof {
                    reveal_strlit("♠");
                }
                "♠"
            },
        }
    }

    /// The suit at position `i` of the deck order.
    pub fn from_index(i: usize) -> (r: Suit)
        requires
            i < 4,
        ensures
            r == suit_at(i as int),
    {
        if i == 0 {
            Suit::Clubs
        } else if i == 1 {
            Suit::Diamonds
        } else if i == 2 {
            Suit::Hearts
        } else {
            Suit::Spades
        }
    }

    /// Parses a suit letter (`c`, `d`, `h`, `s`, either case) or a suit symbol.
    pub fn parse(s: &str) -> (r: Result<Suit, String>)
        ensures
            r is Ok <==> suit_code(s@) is Some,
            r is Ok ==> r->Ok_0 == suit_code(s@)->Some_0,
            r is Err ==> r->Err_0@ == invalid_text("Invalid suit '"@, s@),
    {
        let n = s.unicode_len();
        if n == 1 {
            let c = s.get_char(0);
            if c == 'c' || c == 'C' || c == '♣' {
                return Ok(Suit::Clubs);
            } else if c == 'd' || c == 'D' || c == '♦' {
                return Ok(Suit::Diamonds);
            } else if c == 'h' || c == 'H' || c == '♥' {
                return Ok(Suit::Hearts);
            } else if c == 's' || c == 'S' || c == '♠' {
                return Ok(Suit::Spades);
            }
        }
        Err(invalid_message("Invalid suit '", s))
    }
}

/// What a suit token denotes, if anything.
pub open spec fn suit_code(s: Seq<char>) -> Option<Suit> {
    if s.len() != 1 {
        None
    } else {
        let c = s[0];
        if c == 'c' || c == 'C' || c == '♣' {
            Some(Suit::Clubs)
        } else if c == 'd' || c == 'D' || c == '♦' {
            Some(Suit::Diamonds)
        } else if c == 'h' || c == 'H' || c == '♥' {
            Some(Suit::Hearts)
        } else if c == 's' || c == 'S' || c == '♠' {
            Some(Suit::Spades)
        } else {
            None
        }
    }
}

/// The message for a token that could not be read: the prefix, the token, a closing quote.
pub open spec fn invalid_text(prefix: Seq<char>, token: Seq<char>) -> Seq<char> {
    prefix + token + seq!['\'']
}

fn invalid_message(prefix: &str, token: &str) -> (r: String)
    ensures
        r@ == invalid_text(prefix@, token@),
{
    let mut r = String::from_str(prefix);
    r.append(token);
    proof {
        reveal_strlit("'");
    }
    r.append("'");
    r
}

/// The ranks from two to ace; the value of a rank runs from 2 to 14.
#[derive(Debug, Clone, Copy, PartialEq, Eq, Hash, PartialOrd, Ord, Structural)]
pub enum Rank {
    Two,
    Three,
    Four,
    Five,
    Six,
    Seven,
    Eight,
    Nine,
    Ten,
    Jack,
    Queen,
    King,
    Ace,
}

/// The numeric value of a rank: 2 for a two up to 14 for an ace.
pub open spec fn rank_value(r: Rank) -> u8 {
    match r {
        Rank::Two => 2,
        Rank::Three => 3,
        Rank::Four => 4,
        Rank::Five => 5,
        Rank::Six => 6,
        Rank::Seven => 7,
        Rank::Eight => 8,
        Rank::Nine => 9,
        Rank::Ten => 10,
        Rank::Jack => 11,
        Rank::Queen => 12,
        Rank::King => 13,
        Rank::Ace => 14,
    }
}

/// The rank of value `v` (2 to 14).
pub open spec fn rank_of_value(v: int) -> Rank {
    if v <= 2 {
        Rank::Two
    } else if v == 3 {
        Rank::Three
    } else if v == 4 {
        Rank::Four
    } else if v == 5 {
        Rank::Five
    } else if v == 6 {
        Rank::Six
    } else if v == 7 {
        Rank::Seven
    } else if v == 8 {
        Rank::Eight
    } else if v == 9 {
        Rank::Nine
    } else if v == 10 {
        Rank::Ten
    } else if v == 11 {
        Rank::Jack
    } else if v == 12 {
        Rank::Queen
    } else if v == 13 {
        Rank::King
    } else {
        Rank::Ace
    }
}

/// The one-character label of a rank: its digit, or T, J, Q, K, A.
pub open spec fn rank_label(r: Rank) -> char {
    match r {
        Rank::Two => '2',
        Rank::Three => '3',
        Rank::Four => '4',
        Rank::Five => '5',
        Rank::Six => '6',
        Rank::Seven => '7',
        Rank::Eight => '8',
        Rank::Nine => '9',
        Rank::Ten => 'T',
        Rank::Jack => 'J',
        Rank::Queen => 'Q',
        Rank::King => 'K',
        Rank::Ace => 'A',
    }
}

/// The rank that a single character denotes, ignoring case.
pub open spec fn rank_char(c: char) -> Option<Rank> {
    if c == '2' {
        Some(Rank::Two)
    } else if c == '3' {
        Some(Rank::Three)
    } else if c == '4' {
        Some(Rank::Four)
    } else if c == '5' {
        Some(Rank::Five)
    } else if c == '6' {
        Some(Rank::Six)
    } else if c == '7' {
        Some(Rank::Seven)
    } else if c == '8' {
        Some(Rank::Eight)
    } else if c == '9' {
        Some(Rank::Nine)
    } else if c == 't' || c == 'T' {
        Some(Rank::Ten)
    } else if c == 'j' || c == 'J' {
        Some(Rank::Jack)
    } else if c == 'q' || c == 'Q' {
        Some(Rank::Queen)
    } else if c == 'k' || c == 'K' {
        Some(Rank::King)
    } else if c == 'a' || c == 'A' {
        Some(Rank::Ace)
    } else {
        None
    }
}

/// What a rank token denotes: one rank character, or `10` for a ten.
pub open spec fn rank_code(s: Seq<char>) -> Option<Rank> {
    if s.len() == 1 {
        rank_char(s[0])
    } else if s.len() == 2 && s[0] == '1' && s[1] == '0' {
        Some(Rank::Ten)
    } else {
        None
    }
}

impl Rank {
    pub fn value(self) -> (r: u8)
        ensures
            r == rank_value(self),
    {
        match self {
            Rank::Two => 2,
            Rank::Three => 3,
            Rank::Four => 4,
            Rank::Five => 5,
            Rank::Six => 6,
            Rank::Seven => 7,
            Rank::Eight => 8,
            Rank::Nine => 9,
            Rank::Ten => 10,
            Rank::Jack => 11,
            Rank::Queen => 12,
            Rank::King => 13,
            Rank::Ace => 14,
        }
    }

    pub fn short_label(self) -> (r: &'static str)
        ensures
            r@ == seq![rank_label(self)],
    {
        match self {
            Rank::Two => {
                proof {
                    reveal_strlit("2");
                }
                "2"
            },
            Rank::Three => {
                proof {
                    reveal_strlit("3");
                }
                "3"
            },
            Rank::Four => {
                proof {
                    reveal_strlit("4");
                }
                "4"
            },
            Rank::Five => {
                proof {
                    reveal_strlit("5");
                }
                "5"
            },
            Rank::Six => {
                proof {
                    reveal_strlit("6");
                }
                "6"
            },
            Rank::Seven => {
                proof {
                    reveal_strlit("7");
                }
                "7"
            },
            Rank::Eight => {
                proof {
                    reveal_strlit("8");
                }
                "8"
            },
            Rank::Nine => {
                proof {
                    reveal_strlit("9");
                }
                "9"
            },
            Rank::Ten => {
                proof {
                    reveal_strlit("T");
                }
                "T"
            },
            Rank::Jack => {
                proof {
                    reveal_strlit("J");
                }
                "J"
            },
            Rank::Queen => {
                proof {
                    reveal_strlit("Q");
                }
                "Q"
            },
            Rank::King => {
                proof {
                    reveal_strlit("K");
                }
                "K"
            },
            Rank::Ace => {
                proof {
                    reveal_strlit("A");
                }
                "A"
            },
        }
    }

    /// The rank of value `v`, for `2 <= v <= 14`.
    pub fn from_value(v: u8) -> (r: Rank)
        requires
            2 <= v <= 14,
        ensures
            r == rank_of_value(v as int),
            rank_value(r) == v,
    {
        if v == 2 {
            Rank::Two
        } else if v == 3 {
            Rank::Three
        } else if v == 4 {
            Rank::Four
        } else if v == 5 {
            Rank::Five
        } else if v == 6 {
            Rank::Six
        } else if v == 7 {
            Rank::Seven
        } else if v == 8 {
            Rank::Eight
        } else if v == 9 {
            Rank::Nine
        } else if v == 10 {
            Rank::Ten
        } else if v == 11 {
            Rank::Jack
        } else if v == 12 {
            Rank::Queen
        } else if v == 13 {
            Rank::King
        } else {
            Rank::Ace
        }
    }

    /// Parses a rank code, ignoring case: `2`..`9`, `T` or `10`, `J`, `Q`, `K`, `A`.
    pub fn parse(s: &str) -> (r: Result<Rank, String>)
        ensures
            r is Ok <==> rank_code(s@) is Some,
            r is Ok ==> r->Ok_0 == rank_code(s@)->Some_0,
            r is Err ==> r->Err_0@ == invalid_text("Invalid rank '"@, s@),
    {
        let n = s.unicode_len();
        if n == 1 {
            let c = s.get_char(0);
            if c == '2' {
                return Ok(Rank::Two);
            } else if c == '3' {
                return Ok(Rank::Three);
            } else if c == '4' {
                return Ok(Rank::Four);
            } else if c == '5' {
                return Ok(Rank::Five);
            } else if c == '6' {
                return Ok(Rank::Six);
            } else if c == '7' {
                return Ok(Rank::Seven);
            } else if c == '8' {
                return Ok(Rank::Eight);
            } else if c == '9' {
                return Ok(Rank::Nine);
            } else if c == 't' || c == 'T' {
                return Ok(Rank::Ten);
            } else if c == 'j' || c == 'J' {
                return Ok(Rank::Jack);
            } else if c == 'q' || c == 'Q' {
                return Ok(Rank::Queen);
            } else if c == 'k' || c == 'K' {
                return Ok(Rank::King);
            } else if c == 'a' || c == 'A' {
                return Ok(Rank::Ace);
            }
        } else if n == 2 {
            if s.get_char(0) == '1' && s.get_char(1) == '0' {
                return Ok(Rank::Ten);
            }
        }
        Err(invalid_message("Invalid rank '", s))
    }
}

impl std::str::FromStr for Rank {
    type Err = String;

    fn from_str(s: &str) -> (r: Result<Rank, String>)
        ensures
            r is Ok <==> rank_code(s@) is Some,
            r is Ok ==> r->Ok_0 == rank_code(s@)->Some_0,
            r is Err ==> r->Err_0@ == invalid_text("Invalid rank '"@, s@),
    {
        Rank::parse(s)
    }
}

impl std::str::FromStr for Suit {
    type Err = String;

    fn from_str(s: &str) -> (r: Result<Suit, String>)
        ensures
            r is Ok <==> suit_code(s@) is Some,
            r is Ok ==> r->Ok_0 == suit_code(s@)->Some_0,
            r is Err ==> r->Err_0@ == invalid_text("Invalid suit '"@, s@),
    {
        Suit::parse(s)
    }
}

/// A playing card: a rank and a suit.
#[derive(Debug, Clone, Copy, PartialEq, Eq, Hash, Structural)]
pub struct Card {
    pub rank: Rank,
    pub suit: Suit,
}

/// The notation of a card: its rank label followed by its suit symbol (`T♠`).
pub open spec fn card_notation(c: Card) -> Seq<char> {
    seq![rank_label(c.rank), suit_symbol(c.suit)]
}

/// The card at position `i` of a fresh deck: suits in deck order, ranks from two to ace.
pub open spec fn deck_card(i: int) -> Card {
    Card { rank: rank_of_value(i % 13 + 2), suit: suit_at(i / 13) }
}

/// The 52 cards of a fresh deck, in order.
pub open spec fn deck_spec() -> Seq<Card> {
    Seq::new(52, |i: int| deck_card(i))
}

impl Card {
    pub fn new(rank: Rank, suit: Suit) -> (r: Card)
        ensures
            r == (Card { rank, suit }),
    {
        Card { rank, suit }
    }

    pub fn rank_value(&self) -> (r: u8)
        ensures
            r == rank_value(self.rank),
    {
        self.rank.value()
    }

    pub fn notation(&self) -> (r: String)
        ensures
            r@ == card_notation(*self),
    {
        let mut r = String::from_str(self.rank.short_label());
        r.append(self.suit.symbol());
        r
    }
}

pub fn standard_deck() -> (r: Vec<Card>)
    ensures
        r@ == deck_spec(),
{
    let mut cards: Vec<Card> = Vec::with_capacity(52);
    let mut s: usize = 0;
    while s < 4
        invariant
            s <= 4,
            cards@.len() == 13 * s,
            forall|i: int| 0 <= i < cards@.len() ==> cards@[i] == deck_card(i),
        decreases 4 - s,
    {
        let suit = Suit::from_index(s);
        let mut v: u8 = 2;
        while v <= 14
            invariant
                s < 4,
                2 <= v <= 15,
                suit == suit_at(s as int),
                cards@.len() == 13 * s + (v - 2),
                forall|i: int| 0 <= i < cards@.len() ==> cards@[i] == deck_card(i),
            decreases 15 - v,
        {
            let ghost at = cards@.len() as int;
            cards.push(Card::new(Rank::from_value(v), suit));
            assert(at % 13 + 2 == v && at / 13 == s) by (nonlinear_arith)
                requires
                    at == 13 * s + (v - 2),
                    2 <= v <= 14,
            ;
            v = v + 1;
        }
        s = s + 1;
    }
    assert(cards@ =~= deck_spec());
    cards
}

/// Deals `count` distinct cards from a freshly shuffled deck.
pub fn deal_unique_cards(rng: &mut StdRng, count: usize) -> (r: Vec<Card>)
    ensures
        r@.len() == if count <= 52 { count as int } else { 52 },
        r@.to_multiset().subset_of(deck_spec().to_multiset()),
{
    let mut deck = standard_deck();
    shuffle_cards(rng, &mut deck);
    proof {
        deck@.to_multiset_ensures();
        deck_spec().to_multiset_ensures();
    }
    let mut r: Vec<Card> = Vec::new();
    let mut i: usize = 0;
    while i < count && i < deck.len()
        invariant
            deck@.len() == 52,
            deck@.to_multiset() == deck_spec().to_multiset(),
            i <= 52,
            i <= count,
            r@ == deck@.subrange(0, i as int),
        decreases 52 - i,
    {
        r.push(deck[i]);
        i = i + 1;
        assert(r@ =~= deck@.subrange(0, i as int));
    }
    proof {
        lemma_prefix_sub_multiset(deck@, i as int);
    }
    r
}

/// Shuffles `deck` in place.
pub fn shuffle_deck(rng: &mut StdRng, deck: &mut Vec<Card>)
    ensures
        final(deck)@.to_multiset() == old(deck)@.to_multiset(),
{
    shuffle_cards(rng, deck);
}

/// The 52 cards of a fresh deck are distinct.
pub proof fn lemma_deck_distinct()
    ensures
        deck_spec().no_duplicates(),
{
    assert forall|i: int, j: int| 0 <= i < 52 && 0 <= j < 52 && i != j implies deck_spec()[i]
        != deck_spec()[j] by {
        let ci = deck_card(i);
        let cj = deck_card(j);
        assert(rank_value(rank_of_value(i % 13 + 2)) == i % 13 + 2);
        assert(rank_value(rank_of_value(j % 13 + 2)) == j % 13 + 2);
        assert(0 <= i / 13 < 4 && 0 <= j / 13 < 4);
        if ci == cj {
            assert(i % 13 == j % 13);
            assert(i / 13 == j / 13);
            assert(i == 13 * (i / 13) + i % 13);
            assert(j == 13 * (j / 13) + j % 13);
        }
    }
}

/// A prefix of a sequence holds no more of any card than the whole.
pub proof fn lemma_prefix_sub_multiset(s: Seq<Card>, n: int)
    requires
        0 <= n <= s.len(),
    ensures
        s.subrange(0, n).to_multiset().subset_of(s.to_multiset()),
    decreases s.len() - n,
{
    if n < s.len() {
        lemma_prefix_sub_multiset(s, n + 1);
        let p = s.subrange(0, n + 1);
        let q = s.subrange(0, n);
        assert(p =~= q.push(s[n]));
        q.to_multiset_ensures();
        assert(p.to_multiset() =~= q.to_multiset().insert(s[n]));
    } else {
        assert(s.subrange(0, n) =~= s);
    }
}

} // verus!
