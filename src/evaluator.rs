//! Hand evaluation: the category and tie-break ranks of five cards, and the
//! best five-card hand among more.
use vstd::prelude::*;

use std::cmp::Ordering;

use itertools::Itertools;

use crate::cards::{rank_value, Card, Suit};

verus! {

/// Poker hand categories, weakest first.
#[derive(Debug, Clone, Copy, PartialEq, Eq, PartialOrd, Ord, Structural)]
pub enum HandCategory {
    HighCard,
    OnePair,
    TwoPair,
    ThreeOfAKind,
    Straight,
    Flush,
    FullHouse,
    FourOfAKind,
    StraightFlush,
}

/// The position of a category in the order, 0 for high card up to 8 for a straight flush.
pub open spec fn category_index(c: HandCategory) -> int {
    match c {
        HandCategory::HighCard => 0,
        HandCategory::OnePair => 1,
        HandCategory::TwoPair => 2,
        HandCategory::ThreeOfAKind => 3,
        HandCategory::Straight => 4,
        HandCategory::Flush => 5,
        HandCategory::FullHouse => 6,
        HandCategory::FourOfAKind => 7,
        HandCategory::StraightFlush => 8,
    }
}

impl HandCategory {
    /// The position of the category in the order.
    pub fn index(self) -> (r: u8)
        ensures
            r == category_index(self),
    {
        match self {
            HandCategory::HighCard => 0,
            HandCategory::OnePair => 1,
            HandCategory::TwoPair => 2,
            HandCategory::ThreeOfAKind => 3,
            HandCategory::Straight => 4,
            HandCategory::Flush => 5,
            HandCategory::FullHouse => 6,
            HandCategory::FourOfAKind => 7,
            HandCategory::StraightFlush => 8,
        }
    }
}

/// A hand's strength: its category, then up to five ranks, most significant
/// first and padded with zeros. Strengths compare by category, then by the
/// ranks in turn.
#[derive(Debug, Clone, Copy, PartialEq, Eq, PartialOrd, Ord)]
pub struct HandStrength {
    pub category: HandCategory,
    pub ranks: [u8; 5],
}

/// A strength as one number whose base-256 digits are the category index and
/// the five ranks; comparing these numbers compares category first, then the
/// ranks in turn.
pub open spec fn key_of(category: HandCategory, ranks: Seq<u8>) -> int {
    category_index(category) * 0x100_0000_0000 + ranks[0] * 0x1_0000_0000 + ranks[1] * 0x100_0000
        + ranks[2] * 0x1_0000 + ranks[3] * 0x100 + ranks[4]
}

pub open spec fn strength_key(h: HandStrength) -> int {
    key_of(h.category, h.ranks@)
}

// ---------------------------------------------------------------------------
// The evaluation of five cards, stated over the rank tally.
/// How many of the cards have rank value `v`.
pub open spec fn rank_count(s: Seq<Card>, v: int) -> nat
    decreases s.len(),
{
    if s.len() == 0 {
        0
    } else {
        rank_count(s.drop_last(), v) + if rank_value(s.last().rank) == v {
            1nat
        } else {
            0nat
        }
    }
}

/// The rank tally: entry `v` counts the cards of value `v` (entries 0 and 1 stay 0).
pub open spec fn tally(s: Seq<Card>) -> Seq<u8> {
    Seq::new(15, |v: int| rank_count(s, v) as u8)
}

/// All cards share one suit.
pub open spec fn is_flush(s: Seq<Card>) -> bool {
    forall|i: int| 0 <= i < s.len() ==> (#[trigger] s[i]).suit == s[0].suit
}

/// A card of value `v` is present; value 1 stands for the ace played low.
pub open spec fn present(t: Seq<u8>, v: int) -> bool {
    if v == 1 {
        t[14] > 0
    } else {
        t[v] > 0
    }
}

/// Five consecutive values from `h` down to `h - 4` are present.
pub open spec fn straight_from(t: Seq<u8>, h: int) -> bool {
    present(t, h) && present(t, h - 1) && present(t, h - 2) && present(t, h - 3) && present(
        t,
        h - 4,
    )
}

/// The highest straight whose top is at most `h` (and at least 5).
pub open spec fn top_straight(t: Seq<u8>, h: int) -> Option<u8>
    decreases h,
{
    if h < 5 {
        None
    } else if straight_from(t, h) {
        Some(h as u8)
    } else {
        top_straight(t, h - 1)
    }
}

/// The values in `lo..=14` that occur exactly `c` times, highest first.
pub open spec fn ranks_desc(t: Seq<u8>, c: u8, lo: int) -> Seq<u8>
    decreases 15 - lo,
{
    if lo > 14 || lo < 0 {
        seq![]
    } else if t[lo] == c {
        ranks_desc(t, c, lo + 1).push(lo as u8)
    } else {
        ranks_desc(t, c, lo + 1)
    }
}

/// The groups `(count, value)` of count `c` among values `lo..=14`, highest value first.
pub open spec fn group_run(t: Seq<u8>, c: u8, lo: int) -> Seq<(u8, u8)>
    decreases 15 - lo,
{
    if lo > 14 || lo < 0 {
        seq![]
    } else if t[lo] == c {
        group_run(t, c, lo + 1).push((c, lo as u8))
    } else {
        group_run(t, c, lo + 1)
    }
}

/// The groups of counts `c..=5`, ordered by count then value, both descending.
pub open spec fn groups_desc(t: Seq<u8>, c: int) -> Seq<(u8, u8)>
    decreases 6 - c,
{
    if c > 5 || c < 1 {
        seq![]
    } else {
        groups_desc(t, c + 1) + group_run(t, c as u8, 2)
    }
}

/// The values of the cards among `lo..=14`, each as often as it occurs, highest first.
pub open spec fn sorted_desc(t: Seq<u8>, lo: int) -> Seq<u8>
    decreases 15 - lo,
{
    if lo > 14 || lo < 0 {
        seq![]
    } else {
        sorted_desc(t, lo + 1) + Seq::new(t[lo] as nat, |i: int| lo as u8)
    }
}

/// Five tie-break slots: the leading values, zeros after them.
pub open spec fn pad5(v: Seq<u8>) -> Seq<u8> {
    Seq::new(5, |i: int| if i < v.len() { v[i] } else { 0u8 })
}

/// The five values of a straight topped by `h`; the wheel ends in 1.
pub open spec fn run_of(h: u8) -> Seq<u8> {
    seq![h, (h - 1) as u8, (h - 2) as u8, (h - 3) as u8, (h - 4) as u8]
}

/// The category and tie-break values of a hand with tally `t`.
pub open spec fn classify(t: Seq<u8>, flush: bool) -> (HandCategory, Seq<u8>) {
    let g = groups_desc(t, 1);
    let singles = ranks_desc(t, 1, 2);
    let kicker: u8 = if singles.len() > 0 {
        singles[0]
    } else {
        0
    };
    let st = top_straight(t, 14);
    let lead: u8 = if g.len() > 0 {
        g[0].0
    } else {
        0
    };
    let second: u8 = if g.len() > 1 {
        g[1].0
    } else {
        0
    };
    if flush && st is Some {
        (HandCategory::StraightFlush, run_of(st->Some_0))
    } else if lead == 4 {
        (HandCategory::FourOfAKind, seq![g[0].1, kicker])
    } else if lead == 3 && second == 2 {
        (HandCategory::FullHouse, seq![g[0].1, g[1].1])
    } else if flush {
        (HandCategory::Flush, sorted_desc(t, 2))
    } else if st is Some {
        (HandCategory::Straight, run_of(st->Some_0))
    } else if lead == 3 {
        (HandCategory::ThreeOfAKind, seq![g[0].1] + singles)
    } else if lead == 2 && second == 2 {
        (HandCategory::TwoPair, seq![g[0].1, g[1].1, kicker])
    } else if lead == 2 {
        (HandCategory::OnePair, seq![g[0].1] + singles)
    } else {
        (HandCategory::HighCard, sorted_desc(t, 2))
    }
}

/// The strength of five cards: its category and its five tie-break slots.
pub open spec fn evaluation(s: Seq<Card>) -> (HandCategory, Seq<u8>) {
    let c = classify(tally(s), is_flush(s));
    (c.0, pad5(c.1))
}

/// `r` is the evaluation of the cards `s`.
pub open spec fn evaluates_to(s: Seq<Card>, r: HandStrength) -> bool {
    r.category == evaluation(s).0 && r.ranks@ == evaluation(s).1
}

pub open spec fn eval_key(s: Seq<Card>) -> int {
    key_of(evaluation(s).0, evaluation(s).1)
}

// ---------------------------------------------------------------------------
// Five-card subsets.
/// The cards at five positions of `s`.
pub open spec fn pick5(s: Seq<Card>, a: int, b: int, c: int, d: int, e: int) -> Seq<Card> {
    seq![s[a], s[b], s[c], s[d], s[e]]
}

/// Five strictly increasing positions below `n`.
pub open spec fn five_positions(n: int, a: int, b: int, c: int, d: int, e: int) -> bool {
    0 <= a < b < c < d < e < n
}

/// `x` is the cards of `s` at five increasing positions.
pub open spec fn is_five_subset(s: Seq<Card>, x: Seq<Card>) -> bool {
    exists|a: int, b: int, c: int, d: int, e: int|
        five_positions(s.len() as int, a, b, c, d, e) && x == #[trigger] pick5(s, a, b, c, d, e)
}

/// `r` is the strongest evaluation among all five-card subsets of `s`.
pub open spec fn is_best_of(s: Seq<Card>, r: HandStrength) -> bool {
    &&& exists|a: int, b: int, c: int, d: int, e: int|
        five_positions(s.len() as int, a, b, c, d, e) && evaluates_to(
            #[trigger] pick5(s, a, b, c, d, e),
            r,
        )
    &&& forall|a: int, b: int, c: int, d: int, e: int|
        five_positions(s.len() as int, a, b, c, d, e) ==> eval_key(#[trigger] pick5(s, a, b, c, d, e))
            <= strength_key(r)
}

/// `x` is one of the lists in `r`.
pub open spec fn listed(r: Seq<Vec<Card>>, x: Seq<Card>) -> bool {
    exists|j: int| 0 <= j < r.len() && r[j]@ == x
}

/// Relies on `Itertools::combinations(5)`: every 5-element combination of the
/// cards, by position, each one a `Vec` in position order.
#[verifier::external_body]
fn five_card_subsets(cards: &[Card]) -> (r: Vec<Vec<Card>>)
    ensures
        forall|j: int| 0 <= j < r@.len() ==> is_five_subset(cards@, #[trigger] r@[j]@),
        forall|a: int, b: int, c: int, d: int, e: int|
            five_positions(cards@.len() as int, a, b, c, d, e) ==> listed(
                r@,
                #[trigger] pick5(cards@, a, b, c, d, e),
            ),
{
    cards.iter().copied().combinations(5).collect()
}

// ---------------------------------------------------------------------------
// Executable evaluation.
proof fn lemma_rank_count_step(s: Seq<Card>, i: int, v: int)
    requires
        0 <= i < s.len(),
    ensures
        rank_count(s.subrange(0, i + 1), v) == rank_count(s.subrange(0, i), v) + if rank_value(
            s[i].rank,
        ) == v {
            1nat
        } else {
            0nat
        },
        rank_count(s.subrange(0, i), v) <= i,
    decreases i,
{
    assert(s.subrange(0, i + 1).drop_last() =~= s.subrange(0, i));
    if i > 0 {
        lemma_rank_count_step(s, i - 1, v);
    } else {
        assert(s.subrange(0, 0).len() == 0);
    }
}

/// The rank tally of five cards.
fn tally_of(cards: &[Card; 5]) -> (t: Vec<u8>)
    ensures
        t@ == tally(cards@),
        forall|v: int| 0 <= v < 15 ==> t@[v] <= 5,
{
    let mut t: Vec<u8> = vec![0u8; 15];
    let mut i: usize = 0;
    while i < 5
        invariant
            i <= 5,
            t@.len() == 15,
            forall|v: int|
                0 <= v < 15 ==> t@[v] == rank_count(cards@.subrange(0, i as int), v) && t@[v] <= i,
        decreases 5 - i,
    {
        let v = cards[i].rank_value() as usize;
        proof {
            assert forall|w: int| 0 <= w < 15 implies rank_count(
                cards@.subrange(0, i as int + 1),
                w,
            ) == rank_count(cards@.subrange(0, i as int), w) + if rank_value(cards@[i as int].rank)
                == w {
                1nat
            } else {
                0nat
            } by {
                lemma_rank_count_step(cards@, i as int, w);
            }
        }
        let old_count = t[v];
        t.set(v, old_count + 1);
        i = i + 1;
    }
    assert(cards@.subrange(0, 5) =~= cards@);
    assert(t@ =~= tally(cards@));
    t
}

fn flush_of(cards: &[Card; 5]) -> (r: bool)
    ensures
        r == is_flush(cards@),
{
    let first: Suit = cards[0].suit;
    let mut i: usize = 1;
    while i < 5
        invariant
            1 <= i <= 5,
            first == cards@[0].suit,
            forall|k: int| 0 <= k < i ==> cards@[k].suit == first,
        decreases 5 - i,
    {
        if cards[i].suit != first {
            return false;
        }
        i = i + 1;
    }
    true
}

fn is_present(t: &Vec<u8>, v: u8) -> (r: bool)
    requires
        t@.len() == 15,
        1 <= v <= 14,
    ensures
        r == present(t@, v as int),
{
    if v == 1 {
        t[14] > 0
    } else {
        t[v as usize] > 0
    }
}

fn straight_high_of(t: &Vec<u8>) -> (r: Option<u8>)
    requires
        t@.len() == 15,
    ensures
        r == top_straight(t@, 14),
{
    let mut high: u8 = 14;
    while high >= 5
        invariant
            t@.len() == 15,
            4 <= high <= 14,
            top_straight(t@, 14) == top_straight(t@, high as int),
        decreases high,
    {
        if is_present(t, high) && is_present(t, high - 1) && is_present(t, high - 2) && is_present(
            t,
            high - 3,
        ) && is_present(t, high - 4) {
            return Some(high);
        }
        high = high - 1;
    }
    None
}

fn ranks_with_count(t: &Vec<u8>, c: u8) -> (r: Vec<u8>)
    requires
        t@.len() == 15,
    ensures
        r@ == ranks_desc(t@, c, 2),
{
    let mut r: Vec<u8> = Vec::new();
    let mut v: usize = 15;
    while v > 2
        invariant
            t@.len() == 15,
            2 <= v <= 15,
            r@ == ranks_desc(t@, c, v as int),
        decreases v,
    {
        v = v - 1;
        if t[v] == c {
            r.push(v as u8);
        }
    }
    r
}

fn rank_groups(t: &Vec<u8>) -> (g: Vec<(u8, u8)>)
    requires
        t@.len() == 15,
    ensures
        g@ == groups_desc(t@, 1),
{
    let mut g: Vec<(u8, u8)> = Vec::new();
    let mut c: u8 = 5;
    assert(groups_desc(t@, 6) == Seq::<(u8, u8)>::empty());
    while c >= 1
        invariant
            t@.len() == 15,
            0 <= c <= 5,
            g@ == groups_desc(t@, c as int + 1),
        decreases c,
    {
        let ghost before = g@;
        let mut v: usize = 15;
        while v > 2
            invariant
                t@.len() == 15,
                2 <= v <= 15,
                1 <= c <= 5,
                g@ == before + group_run(t@, c, v as int),
            decreases v,
        {
            v = v - 1;
            if t[v] == c {
                g.push((c, v as u8));
                assert(g@ =~= before + group_run(t@, c, v as int));
            }
        }
        c = c - 1;
    }
    g
}

fn sorted_ranks(t: &Vec<u8>) -> (r: Vec<u8>)
    requires
        t@.len() == 15,
    ensures
        r@ == sorted_desc(t@, 2),
{
    let mut r: Vec<u8> = Vec::new();
    let mut v: usize = 15;
    while v > 2
        invariant
            t@.len() == 15,
            2 <= v <= 15,
            r@ == sorted_desc(t@, v as int),
        decreases v,
    {
        v = v - 1;
        let ghost before = r@;
        let n = t[v];
        let mut k: u8 = 0;
        while k < n
            invariant
                2 <= v < 15,
                t@.len() == 15,
                k <= n,
                n == t@[v as int],
                r@ == before + Seq::new(k as nat, |i: int| v as u8),
            decreases n - k,
        {
            r.push(v as u8);
            k = k + 1;
            assert(r@ =~= before + Seq::new(k as nat, |i: int| v as u8));
        }
    }
    r
}

fn fill(v: &Vec<u8>) -> (r: [u8; 5])
    ensures
        r@ == pad5(v@),
{
    let mut r: [u8; 5] = [0u8; 5];
    let mut i: usize = 0;
    while i < 5 && i < v.len()
        invariant
            i <= 5,
            i <= v@.len(),
            r@.len() == 5,
            forall|k: int| 0 <= k < 5 ==> r@[k] == if k < i { v@[k] } else { 0u8 },
        decreases 5 - i,
    {
        r[i] = v[i];
        i = i + 1;
    }
    assert(r@ =~= pad5(v@));
    r
}

fn straight_run(h: u8) -> (r: Vec<u8>)
    requires
        5 <= h <= 14,
    ensures
        r@ == run_of(h),
{
    let r = vec![h, h - 1, h - 2, h - 3, h - 4];
    assert(r@ =~= run_of(h));
    r
}

/// Evaluates exactly five cards.
pub fn evaluate_five(cards: &[Card; 5]) -> (r: HandStrength)
    ensures
        evaluates_to(cards@, r),
{
    let t = tally_of(cards);
    let flush = flush_of(cards);
    let straight = straight_high_of(&t);
    let groups = rank_groups(&t);
    let singles = ranks_with_count(&t, 1);
    let kicker: u8 = if singles.len() > 0 {
        singles[0]
    } else {
        0
    };
    let lead: u8 = if groups.len() > 0 {
        groups[0].0
    } else {
        0
    };
    let second: u8 = if groups.len() > 1 {
        groups[1].0
    } else {
        0
    };
    let ghost spec_t = t@;
    proof {
        assert(top_straight(spec_t, 14) is Some ==> 5 <= top_straight(spec_t, 14)->Some_0 <= 14)
            by {
            lemma_top_straight_range(spec_t, 14);
        }
    }
    let (category, values): (HandCategory, Vec<u8>) = if flush && straight.is_some() {
        (HandCategory::StraightFlush, straight_run(straight.unwrap()))
    } else if lead == 4 {
        let v = vec![groups[0].1, kicker];
        assert(v@ =~= seq![groups@[0].1, kicker]);
        (HandCategory::FourOfAKind, v)
    } else if lead == 3 && second == 2 {
        let v = vec![groups[0].1, groups[1].1];
        assert(v@ =~= seq![groups@[0].1, groups@[1].1]);
        (HandCategory::FullHouse, v)
    } else if flush {
        (HandCategory::Flush, sorted_ranks(&t))
    } else if straight.is_some() {
        (HandCategory::Straight, straight_run(straight.unwrap()))
    } else if lead == 3 {
        let mut v = vec![groups[0].1];
        let mut k: usize = 0;
        while k < singles.len()
            invariant
                k <= singles@.len(),
                v@ == seq![groups@[0].1] + singles@.subrange(0, k as int),
            decreases singles@.len() - k,
        {
            v.push(singles[k]);
            k = k + 1;
            assert(v@ =~= seq![groups@[0].1] + singles@.subrange(0, k as int));
        }
        assert(singles@.subrange(0, singles@.len() as int) =~= singles@);
        (HandCategory::ThreeOfAKind, v)
    } else if lead == 2 && second == 2 {
        let v = vec![groups[0].1, groups[1].1, kicker];
        assert(v@ =~= seq![groups@[0].1, groups@[1].1, kicker]);
        (HandCategory::TwoPair, v)
    } else if lead == 2 {
        let mut v = vec![groups[0].1];
        let mut k: usize = 0;
        while k < singles.len()
            invariant
                k <= singles@.len(),
                v@ == seq![groups@[0].1] + singles@.subrange(0, k as int),
            decreases singles@.len() - k,
        {
            v.push(singles[k]);
            k = k + 1;
            assert(v@ =~= seq![groups@[0].1] + singles@.subrange(0, k as int));
        }
        assert(singles@.subrange(0, singles@.len() as int) =~= singles@);
        (HandCategory::OnePair, v)
    } else {
        (HandCategory::HighCard, sorted_ranks(&t))
    };
    HandStrength { category, ranks: fill(&values) }
}

proof fn lemma_top_straight_range(t: Seq<u8>, h: int)
    requires
        h <= 14,
    ensures
        top_straight(t, h) is Some ==> 5 <= top_straight(t, h)->Some_0 <= h,
    decreases h,
{
    if h >= 5 && !straight_from(t, h) {
        lemma_top_straight_range(t, h - 1);
    }
}

fn key(h: &HandStrength) -> (r: u64)
    ensures
        r == strength_key(*h),
{
    let c = h.category.index() as u64;
    c * 0x100_0000_0000 + (h.ranks[0] as u64) * 0x1_0000_0000 + (h.ranks[1] as u64) * 0x100_0000
        + (h.ranks[2] as u64) * 0x1_0000 + (h.ranks[3] as u64) * 0x100 + (h.ranks[4] as u64)
}

/// Orders two strengths: category first, then the tie-break ranks in turn.
pub fn compare_strength(a: HandStrength, b: HandStrength) -> (r: Ordering)
    ensures
        r == Ordering::Less <==> strength_key(a) < strength_key(b),
        r == Ordering::Equal <==> strength_key(a) == strength_key(b),
        r == Ordering::Greater <==> strength_key(a) > strength_key(b),
{
    let ka = key(&a);
    let kb = key(&b);
    if ka < kb {
        Ordering::Less
    } else if ka == kb {
        Ordering::Equal
    } else {
        Ordering::Greater
    }
}

/// The strongest five-card hand that can be made from `cards` (five or more).
pub fn best_five_card_hand(cards: &[Card]) -> (r: HandStrength)
    requires
        cards@.len() >= 5,
    ensures
        is_best_of(cards@, r),
{
    let subsets = five_card_subsets(cards);
    assert(five_positions(cards@.len() as int, 0, 1, 2, 3, 4));
    assert(listed(subsets@, pick5(cards@, 0, 1, 2, 3, 4)));
    let mut best: Option<HandStrength> = None;
    let mut j: usize = 0;
    while j < subsets.len()
        invariant
            j <= subsets@.len(),
            forall|k: int| 0 <= k < subsets@.len() ==> is_five_subset(cards@, #[trigger] subsets@[k]@),
            j == 0 <==> best is None,
            best is Some ==> exists|a: int, b: int, c: int, d: int, e: int|
                five_positions(cards@.len() as int, a, b, c, d, e) && evaluates_to(
                    #[trigger] pick5(cards@, a, b, c, d, e),
                    best->Some_0,
                ),
            forall|k: int|
                0 <= k < j ==> eval_key(#[trigger] subsets@[k]@) <= strength_key(best->Some_0),
        decreases subsets@.len() - j,
    {
        let combo = &subsets[j];
        assert(is_five_subset(cards@, subsets@[j as int]@));
        let five: [Card; 5] = [combo[0], combo[1], combo[2], combo[3], combo[4]];
        assert(five@ =~= combo@);
        let s = evaluate_five(&five);
        let replace = match best {
            None => true,
            Some(b) => matches!(compare_strength(s, b), Ordering::Greater),
        };
        if replace {
            best = Some(s);
        }
        j = j + 1;
    }
    let r = best.unwrap();
    assert forall|a: int, b: int, c: int, d: int, e: int|
        five_positions(cards@.len() as int, a, b, c, d, e) implies eval_key(
        #[trigger] pick5(cards@, a, b, c, d, e),
    ) <= strength_key(r) by {
        let j = choose|j: int| 0 <= j < subsets@.len() && subsets@[j]@ == pick5(cards@, a, b, c, d, e);
        assert(eval_key(subsets@[j]@) <= strength_key(r));
    }
    r
}

/// Categories decide first: a five-card hand of a higher category is
/// strictly stronger than one of a lower category, whatever the ranks.
pub proof fn lemma_category_decides(a: Seq<Card>, b: Seq<Card>)
    ensures
        category_index(evaluation(a).0) > category_index(evaluation(b).0) ==> eval_key(a) > eval_key(
            b,
        ),
{
    let ra = evaluation(a).1;
    let rb = evaluation(b).1;
    assert(ra.len() == 5 && rb.len() == 5);
    assert(ra[0] <= 255 && ra[1] <= 255 && ra[2] <= 255 && ra[3] <= 255 && ra[4] <= 255);
    assert(rb[0] <= 255 && rb[1] <= 255 && rb[2] <= 255 && rb[3] <= 255 && rb[4] <= 255);
}

proof fn lemma_group_run_counts(t: Seq<u8>, c: u8, lo: int)
    ensures
        forall|i: int| 0 <= i < group_run(t, c, lo).len() ==> (#[trigger] group_run(t, c, lo)[i]).0 == c,
    decreases 15 - lo,
{
    if 0 <= lo <= 14 {
        lemma_group_run_counts(t, c, lo + 1);
        let r = group_run(t, c, lo + 1);
        if t[lo] == c {
            let p = r.push((c, lo as u8));
            assert forall|i: int| 0 <= i < p.len() implies (#[trigger] p[i]).0 == c by {
                if i < r.len() {
                    assert(p[i] == r[i]);
                }
            }
        }
    }
}

proof fn lemma_group_run_empty(t: Seq<u8>, c: u8, lo: int)
    requires
        forall|v: int| lo <= v <= 14 ==> t[v] != c,
    ensures
        group_run(t, c, lo).len() == 0,
    decreases 15 - lo,
{
    if 0 <= lo <= 14 {
        lemma_group_run_empty(t, c, lo + 1);
    }
}

/// With no value occurring twice, every group is a single card.
proof fn lemma_groups_of_distinct(t: Seq<u8>)
    requires
        forall|v: int| 2 <= v <= 14 ==> t[v] <= 1,
    ensures
        forall|i: int| 0 <= i < groups_desc(t, 1).len() ==> (#[trigger] groups_desc(t, 1)[i]).0 == 1,
{
    lemma_group_run_empty(t, 5, 2);
    lemma_group_run_empty(t, 4, 2);
    lemma_group_run_empty(t, 3, 2);
    lemma_group_run_empty(t, 2, 2);
    lemma_group_run_counts(t, 1, 2);
    assert(groups_desc(t, 6).len() == 0);
    assert(groups_desc(t, 5).len() == 0);
    assert(groups_desc(t, 4).len() == 0);
    assert(groups_desc(t, 3).len() == 0);
    assert(groups_desc(t, 2).len() == 0);
    assert(groups_desc(t, 1) =~= group_run(t, 1, 2));
}

/// A hand holding one card each of the values `lo..=lo + 4` (value 1 being
/// the ace), not all of one suit, is the straight topped by `lo + 4`.
proof fn lemma_plain_straight(s: Seq<Card>, top: int)
    requires
        top == 5 || top == 6,
        !is_flush(s),
        forall|v: int|
            rank_count(s, v) == if (top - 4 <= v <= top && v >= 2) || (top == 5 && v == 14) {
                1nat
            } else {
                0nat
            },
    ensures
        evaluation(s).0 == HandCategory::Straight,
        evaluation(s).1 == run_of(top as u8),
{
    let t = tally(s);
    assert forall|v: int| 2 <= v <= 14 implies t[v] <= 1 by {}
    lemma_groups_of_distinct(t);
    reveal_with_fuel(top_straight, 11);
    assert(top_straight(t, 14) == Some(top as u8));
    let g = groups_desc(t, 1);
    if g.len() > 0 {
        assert(g[0].0 == 1);
    }
    if g.len() > 1 {
        assert(g[1].0 == 1);
    }
    assert(pad5(run_of(top as u8)) =~= run_of(top as u8));
}

/// The wheel: ace, two, three, four and five, not all of one suit, make a
/// straight topped by the five (the ace plays low), weaker than a straight
/// from two to six.
pub proof fn lemma_wheel(wheel: Seq<Card>, six_high: Seq<Card>)
    requires
        !is_flush(wheel),
        !is_flush(six_high),
        forall|v: int|
            rank_count(wheel, v) == if (2 <= v <= 5) || v == 14 {
                1nat
            } else {
                0nat
            },
        forall|v: int|
            rank_count(six_high, v) == if 2 <= v <= 6 {
                1nat
            } else {
                0nat
            },
    ensures
        evaluation(wheel).0 == HandCategory::Straight,
        evaluation(wheel).1 == seq![5u8, 4, 3, 2, 1],
        evaluation(six_high).0 == HandCategory::Straight,
        evaluation(six_high).1 == seq![6u8, 5, 4, 3, 2],
        eval_key(wheel) < eval_key(six_high),
{
    lemma_plain_straight(wheel, 5);
    lemma_plain_straight(six_high, 6);
    assert(run_of(5) =~= seq![5u8, 4, 3, 2, 1]);
    assert(run_of(6) =~= seq![6u8, 5, 4, 3, 2]);
}

} // verus!
