//! Monte Carlo equity: complete the unknown cards at random, many times, and
//! score each showdown.
use vstd::prelude::*;

use std::cmp::Ordering;

use rand::rngs::StdRng;

use crate::cards::{deck_spec, lemma_deck_distinct, standard_deck, Card};
use crate::chance::shuffle_cards;
use crate::evaluator::{
    best_five_card_hand, compare_strength, eval_key, five_positions, is_best_of, pick5,
    strength_key, HandStrength,
};

verus! {

/// `k` is the key of the strongest five-card hand within `s`.
pub open spec fn is_best_key(s: Seq<Card>, k: int) -> bool {
    &&& exists|a: int, b: int, c: int, d: int, e: int|
        five_positions(s.len() as int, a, b, c, d, e) && eval_key(#[trigger] pick5(s, a, b, c, d, e))
            == k
    &&& forall|a: int, b: int, c: int, d: int, e: int|
        five_positions(s.len() as int, a, b, c, d, e) ==> eval_key(#[trigger] pick5(s, a, b, c, d, e))
            <= k
}

/// The key of the strongest five-card hand within `s`.
pub open spec fn best_key(s: Seq<Card>) -> int {
    choose|k: int| is_best_key(s, k)
}

/// Showdown points for hero: 2 for a win, 1 for a tie, 0 for a loss.
pub open spec fn points_of(hero_key: int, villain_key: int) -> nat {
    if hero_key > villain_key {
        2
    } else if hero_key == villain_key {
        1
    } else {
        0
    }
}

/// `n` cards dealt from the end of `d`, after skipping `skip` of them.
pub open spec fn drawn(d: Seq<Card>, skip: int, n: int) -> Seq<Card> {
    Seq::new(n as nat, |i: int| d[d.len() - 1 - skip - i])
}

pub open spec fn hole_view(villain: Option<&[Card]>) -> Option<Seq<Card>> {
    match villain {
        Some(v) => Some(v@),
        None => None,
    }
}

/// The villain's hole cards: the fixed ones, or the first two dealt from the deck.
pub open spec fn villain_hole(villain: Option<Seq<Card>>, d: Seq<Card>) -> Seq<Card> {
    match villain {
        Some(v) => v,
        None => drawn(d, 0, 2),
    }
}

/// The known board completed to five cards from the deck, after the villain's cards.
pub open spec fn full_board(villain: Option<Seq<Card>>, board: Seq<Card>, d: Seq<Card>) -> Seq<
    Card,
> {
    board + drawn(
        d,
        if villain is Some {
            0
        } else {
            2
        },
        5 - board.len(),
    )
}

/// Hero's showdown points when the unknown cards come from the shuffled deck `d`.
pub open spec fn sample_points(
    hero: Seq<Card>,
    villain: Option<Seq<Card>>,
    board: Seq<Card>,
    d: Seq<Card>,
) -> nat {
    let b = full_board(villain, board, d);
    points_of(best_key(hero + b), best_key(villain_hole(villain, d) + b))
}

/// Hero's points summed over a sequence of shuffled decks.
pub open spec fn total_points(
    hero: Seq<Card>,
    villain: Option<Seq<Card>>,
    board: Seq<Card>,
    decks: Seq<Seq<Card>>,
) -> nat
    decreases decks.len(),
{
    if decks.len() == 0 {
        0
    } else {
        total_points(hero, villain, board, decks.drop_last()) + sample_points(
            hero,
            villain,
            board,
            decks.last(),
        )
    }
}

/// Equity in basis points (10000 is certain victory) from the points of `n` samples.
pub open spec fn equity_bp(points: nat, n: nat) -> nat {
    points * 10000 / (2 * n)
}

/// The number of samples actually drawn: at least one.
pub open spec fn sample_count(samples: u32) -> nat {
    if samples < 1 {
        1
    } else {
        samples as nat
    }
}

/// The cards of `d` that are not in `ex`, in their order.
pub open spec fn without(d: Seq<Card>, ex: Seq<Card>) -> Seq<Card>
    decreases d.len(),
{
    if d.len() == 0 {
        seq![]
    } else if ex.contains(d.last()) {
        without(d.drop_last(), ex)
    } else {
        without(d.drop_last(), ex).push(d.last())
    }
}

/// The cards already placed: hero's, the villain's if known, and the board's.
pub open spec fn placed(hero: Seq<Card>, villain: Option<Seq<Card>>, board: Seq<Card>) -> Seq<Card> {
    hero + match villain {
        Some(v) => v,
        None => seq![],
    } + board
}

/// The deck left once the placed cards are taken out, in deck order.
pub open spec fn remaining_deck(hero: Seq<Card>, villain: Option<Seq<Card>>, board: Seq<Card>) -> Seq<
    Card,
> {
    without(deck_spec(), placed(hero, villain, board))
}

/// The best key of a set of cards is the key of any best hand among them.
pub proof fn lemma_best_key(s: Seq<Card>, r: HandStrength)
    requires
        is_best_of(s, r),
    ensures
        best_key(s) == strength_key(r),
{
    let k = strength_key(r);
    assert(is_best_key(s, k));
    let b = best_key(s);
    assert(is_best_key(s, b));
    let (a1, b1, c1, d1, e1) = choose|a: int, b: int, c: int, d: int, e: int|
        five_positions(s.len() as int, a, b, c, d, e) && eval_key(#[trigger] pick5(s, a, b, c, d, e))
            == k;
    let (a2, b2, c2, d2, e2) = choose|a: int, bb: int, c: int, d: int, e: int|
        five_positions(s.len() as int, a, bb, c, d, e) && eval_key(
            #[trigger] pick5(s, a, bb, c, d, e),
        ) == b;
    assert(eval_key(pick5(s, a1, b1, c1, d1, e1)) <= b);
    assert(eval_key(pick5(s, a2, b2, c2, d2, e2)) <= k);
}

fn contains_card(cards: &[Card], c: Card) -> (r: bool)
    ensures
        r == cards@.contains(c),
{
    let mut i: usize = 0;
    while i < cards.len()
        invariant
            i <= cards@.len(),
            forall|k: int| 0 <= k < i ==> cards@[k] != c,
        decreases cards@.len() - i,
    {
        if cards[i] == c {
            return true;
        }
        i = i + 1;
    }
    false
}

proof fn lemma_without_len(d: Seq<Card>, ex: Seq<Card>)
    requires
        d.no_duplicates(),
    ensures
        without(d, ex).len() + d.to_set().intersect(ex.to_set()).len() == d.len(),
        d.to_set().intersect(ex.to_set()).len() <= ex.len(),
    decreases d.len(),
{
    broadcast use vstd::seq_lib::seq_to_set_is_finite;

    if d.len() == 0 {
        assert(d.to_set().intersect(ex.to_set()) =~= Set::empty());
    } else {
        let p = d.drop_last();
        let x = d.last();
        assert(p.no_duplicates());
        lemma_without_len(p, ex);
        assert(d =~= p.push(x));
        p.lemma_push_to_set_commute(x);
        assert(!p.contains(x)) by {
            if p.contains(x) {
                let k = choose|k: int| 0 <= k < p.len() && p[k] == x;
                assert(d[k] == d[d.len() - 1]);
            }
        }
        if ex.contains(x) {
            assert(d.to_set().intersect(ex.to_set()) =~= p.to_set().intersect(ex.to_set()).insert(x));
        } else {
            assert(d.to_set().intersect(ex.to_set()) =~= p.to_set().intersect(ex.to_set()));
        }
    }
    ex.lemma_cardinality_of_set();
    vstd::set_lib::lemma_len_intersect(ex.to_set(), d.to_set());
    assert(ex.to_set().intersect(d.to_set()) =~= d.to_set().intersect(ex.to_set()));
}

/// The deck without the placed cards, in deck order.
fn remaining_cards(hero: &[Card], villain: Option<&[Card]>, board: &[Card]) -> (r: Vec<Card>)
    requires
        hero@.len() == 2,
        villain is Some ==> villain->Some_0@.len() == 2,
        board@.len() <= 5,
    ensures
        r@ == remaining_deck(hero@, hole_view(villain), board@),
        r@.len() >= 43,
{
    let ghost ex = placed(hero@, hole_view(villain), board@);
    let deck = standard_deck();
    let mut r: Vec<Card> = Vec::new();
    let mut i: usize = 0;
    while i < deck.len()
        invariant
            deck@ == deck_spec(),
            i <= 52,
            r@ == without(deck@.subrange(0, i as int), ex),
            ex == placed(hero@, hole_view(villain), board@),
            hero@.len() == 2,
            villain is Some ==> villain->Some_0@.len() == 2,
            board@.len() <= 5,
        decreases 52 - i,
    {
        let c = deck[i];
        let taken = contains_card(hero, c) || match villain {
            Some(v) => contains_card(v, c),
            None => false,
        } || contains_card(board, c);
        assert(deck@.subrange(0, i as int + 1).drop_last() =~= deck@.subrange(0, i as int));
        assert(taken == ex.contains(c)) by {
            if ex.contains(c) {
                let k = choose|k: int| 0 <= k < ex.len() && ex[k] == c;
                if k < 2 {
                    assert(hero@[k] == c);
                } else if villain is Some && k < 4 {
                    assert(villain->Some_0@[k - 2] == c);
                } else if villain is Some {
                    assert(board@[k - 4] == c);
                } else {
                    assert(board@[k - 2] == c);
                }
            }
            if hero@.contains(c) {
                let k = choose|k: int| 0 <= k < 2 && hero@[k] == c;
                assert(ex[k] == c);
            }
            if villain is Some && villain->Some_0@.contains(c) {
                let k = choose|k: int| 0 <= k < 2 && villain->Some_0@[k] == c;
                assert(ex[k + 2] == c);
            }
            if board@.contains(c) {
                let k = choose|k: int| 0 <= k < board@.len() && board@[k] == c;
                if villain is Some {
                    assert(ex[k + 4] == c);
                } else {
                    assert(ex[k + 2] == c);
                }
            }
        }
        if !taken {
            r.push(c);
        }
        i = i + 1;
    }
    assert(deck@.subrange(0, 52) =~= deck@);
    proof {
        lemma_deck_distinct();
        lemma_without_len(deck_spec(), ex);
    }
    r
}

/// Scores one sample: the villain's cards (unless fixed) and the rest of the
/// board are dealt from the end of the shuffled `deck`; hero gets 2 points for
/// a win, 1 for a tie and 0 for a loss.
pub fn showdown_points(hero: &[Card], villain: Option<&[Card]>, board: &[Card], deck: &Vec<Card>) -> (r: u8)
    requires
        hero@.len() == 2,
        villain is Some ==> villain->Some_0@.len() == 2,
        board@.len() <= 5,
        deck@.len() >= 7,
    ensures
        r == sample_points(hero@, hole_view(villain), board@, deck@),
{
    let n = deck.len();
    let ghost vh = villain_hole(hole_view(villain), deck@);
    let (first, second, used): (Card, Card, usize) = match villain {
        Some(v) => (v[0], v[1], 0),
        None => (deck[n - 1], deck[n - 2], 2),
    };
    assert(vh =~= seq![first, second]);
    let mut full: Vec<Card> = Vec::new();
    let mut i: usize = 0;
    while i < board.len()
        invariant
            i <= board@.len(),
            full@ == board@.subrange(0, i as int),
        decreases board@.len() - i,
    {
        full.push(board[i]);
        i = i + 1;
        assert(full@ =~= board@.subrange(0, i as int));
    }
    let need = 5 - board.len();
    let mut k: usize = 0;
    while k < need
        invariant
            board@.len() <= 5,
            need == 5 - board@.len(),
            n == deck@.len(),
            n >= 7,
            used <= 2,
            used == if villain is Some {
                0usize
            } else {
                2usize
            },
            k <= need,
            full@ == board@ + drawn(deck@, used as int, k as int),
        decreases need - k,
    {
        full.push(deck[n - 1 - used - k]);
        k = k + 1;
        assert(full@ =~= board@ + drawn(deck@, used as int, k as int));
    }
    let ghost fb = full@;
    assert(fb == full_board(hole_view(villain), board@, deck@));
    let mut hero_cards: Vec<Card> = vec![hero[0], hero[1]];
    let mut villain_cards: Vec<Card> = vec![first, second];
    let mut j: usize = 0;
    while j < 5
        invariant
            fb.len() == 5,
            full@ == fb,
            j <= 5,
            hero_cards@ == hero@ + fb.subrange(0, j as int),
            villain_cards@ == vh + fb.subrange(0, j as int),
            hero@.len() == 2,
            vh.len() == 2,
        decreases 5 - j,
    {
        hero_cards.push(full[j]);
        villain_cards.push(full[j]);
        j = j + 1;
        assert(hero_cards@ =~= hero@ + fb.subrange(0, j as int));
        assert(villain_cards@ =~= vh + fb.subrange(0, j as int));
    }
    assert(fb.subrange(0, 5) =~= fb);
    let hs = best_five_card_hand(hero_cards.as_slice());
    let vs = best_five_card_hand(villain_cards.as_slice());
    proof {
        lemma_best_key(hero_cards@, hs);
        lemma_best_key(villain_cards@, vs);
    }
    match compare_strength(hs, vs) {
        Ordering::Greater => 2,
        Ordering::Equal => 1,
        Ordering::Less => 0,
    }
}

/// `e` is an equity that the estimate can give: for some shuffles of the
/// remaining deck, one per sample, the showdown points come to `e`.
pub open spec fn possible_equity(
    hero: Seq<Card>,
    villain: Option<Seq<Card>>,
    board: Seq<Card>,
    samples: u32,
    e: u64,
) -> bool {
    exists|decks: Seq<Seq<Card>>|
        {
            &&& decks.len() == sample_count(samples)
            &&& forall|i: int|
                0 <= i < decks.len() ==> (#[trigger] decks[i]).to_multiset() == remaining_deck(
                    hero,
                    villain,
                    board,
                ).to_multiset()
            &&& e == equity_bp(total_points(hero, villain, board, decks), sample_count(samples))
        }
}

/// Estimates hero's equity in basis points (0 to 10000) over `samples`
/// random completions (at least one): each sample shuffles the remaining
/// deck, deals the unknown cards from it and scores the showdown, a tie
/// counting half.
pub fn monte_carlo_equity(
    hero: &[Card],
    villain: Option<&[Card]>,
    board_known: &[Card],
    samples: u32,
    rng: &mut StdRng,
) -> (r: u64)
    requires
        hero@.len() == 2,
        villain is Some ==> villain->Some_0@.len() == 2,
        board_known@.len() <= 5,
    ensures
        r <= 10000,
        possible_equity(hero@, hole_view(villain), board_known@, samples, r),
{
    let n: u32 = if samples < 1 {
        1
    } else {
        samples
    };
    let ghost rest = remaining_deck(hero@, hole_view(villain), board_known@);
    let ghost mut decks: Seq<Seq<Card>> = seq![];
    let mut points: u64 = 0;
    let mut i: u32 = 0;
    while i < n
        invariant
            hero@.len() == 2,
            villain is Some ==> villain->Some_0@.len() == 2,
            board_known@.len() <= 5,
            rest == remaining_deck(hero@, hole_view(villain), board_known@),
            i <= n,
            decks.len() == i,
            forall|k: int| 0 <= k < decks.len() ==> (#[trigger] decks[k]).to_multiset() == rest.to_multiset(),
            points == total_points(hero@, hole_view(villain), board_known@, decks),
            points <= 2 * i,
        decreases n - i,
    {
        let mut deck = remaining_cards(hero, villain, board_known);
        shuffle_cards(rng, &mut deck);
        proof {
            deck@.to_multiset_ensures();
            rest.to_multiset_ensures();
        }
        let p = showdown_points(hero, villain, board_known, &deck);
        proof {
            let next = decks.push(deck@);
            assert(next.drop_last() =~= decks);
            decks = next;
        }
        points = points + p as u64;
        i = i + 1;
    }
    let r = points * 10000 / (2 * n as u64);
    assert(r <= 10000) by (nonlinear_arith)
        requires
            r == points * 10000 / (2 * n as u64),
            points <= 2 * n,
            n >= 1,
    {
        vstd::arithmetic::div_mod::lemma_div_is_ordered(points * 10000, 2 * n * 10000, 2 * n as int);
        vstd::arithmetic::div_mod::lemma_div_by_multiple(10000, 2 * n as int);
    }
    r
}

proof fn lemma_contains_concat(a: Seq<Card>, b: Seq<Card>, x: Card)
    ensures
        (a + b).contains(x) <==> a.contains(x) || b.contains(x),
{
    if (a + b).contains(x) {
        let k = choose|k: int| 0 <= k < (a + b).len() && (a + b)[k] == x;
        if k < a.len() {
            assert(a[k] == x);
        } else {
            assert(b[k - a.len()] == x);
        }
    }
    if a.contains(x) {
        let k = choose|k: int| 0 <= k < a.len() && a[k] == x;
        assert((a + b)[k] == x);
    }
    if b.contains(x) {
        let k = choose|k: int| 0 <= k < b.len() && b[k] == x;
        assert((a + b)[k + a.len()] == x);
    }
}

proof fn lemma_without_same_members(d: Seq<Card>, e1: Seq<Card>, e2: Seq<Card>)
    requires
        forall|x: Card| e1.contains(x) <==> e2.contains(x),
    ensures
        without(d, e1) == without(d, e2),
    decreases d.len(),
{
    if d.len() > 0 {
        lemma_without_same_members(d.drop_last(), e1, e2);
    }
}

proof fn lemma_points_swap(hero: Seq<Card>, villain: Seq<Card>, board: Seq<Card>, decks: Seq<Seq<Card>>)
    ensures
        total_points(hero, Some(villain), board, decks) + total_points(
            villain,
            Some(hero),
            board,
            decks,
        ) == 2 * decks.len(),
    decreases decks.len(),
{
    if decks.len() > 0 {
        lemma_points_swap(hero, villain, board, decks.drop_last());
    }
}

/// Swapping hero and villain complements the equity. Both estimates deal from
/// the same remaining deck; over the same shuffled decks the two players'
/// points add up to two per sample; so the two equities add up to 10000
/// basis points, or to 9999 where both are rounded down.
pub proof fn lemma_equity_swap(
    hero: Seq<Card>,
    villain: Seq<Card>,
    board: Seq<Card>,
    decks: Seq<Seq<Card>>,
)
    requires
        decks.len() >= 1,
    ensures
        remaining_deck(hero, Some(villain), board) == remaining_deck(villain, Some(hero), board),
        total_points(hero, Some(villain), board, decks) + total_points(
            villain,
            Some(hero),
            board,
            decks,
        ) == 2 * decks.len(),
        9999 <= equity_bp(total_points(hero, Some(villain), board, decks), decks.len())
            + equity_bp(total_points(villain, Some(hero), board, decks), decks.len()) <= 10000,
{
    let e1 = placed(hero, Some(villain), board);
    let e2 = placed(villain, Some(hero), board);
    assert forall|x: Card| e1.contains(x) <==> e2.contains(x) by {
        lemma_contains_concat(hero + villain, board, x);
        lemma_contains_concat(villain + hero, board, x);
        lemma_contains_concat(hero, villain, x);
        lemma_contains_concat(villain, hero, x);
    }
    lemma_without_same_members(deck_spec(), e1, e2);
    lemma_points_swap(hero, villain, board, decks);
    let a = total_points(hero, Some(villain), board, decks) as int;
    let b = total_points(villain, Some(hero), board, decks) as int;
    let d = 2 * decks.len() as int;
    vstd::arithmetic::div_mod::lemma_fundamental_div_mod(a * 10000, d);
    vstd::arithmetic::div_mod::lemma_fundamental_div_mod(b * 10000, d);
    let q1 = (a * 10000) / d;
    let q2 = (b * 10000) / d;
    let r1 = (a * 10000) % d;
    let r2 = (b * 10000) % d;
    assert(9999 <= q1 + q2 <= 10000) by (nonlinear_arith)
        requires
            a * 10000 == d * q1 + r1,
            b * 10000 == d * q2 + r2,
            0 <= r1 < d,
            0 <= r2 < d,
            a + b == d,
            d > 0,
    ;
}

} // verus!
