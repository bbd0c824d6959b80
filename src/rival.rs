//! The opponent model: style presets and the fold probabilities drawn from them.
//! Probabilities are in basis points: 10000 is certainty.
use vstd::prelude::*;

use rand::rngs::StdRng;

use crate::cards::{rank_value, Card};
use crate::chance::draw_below;

verus! {

/// Certainty, in basis points.
pub const CERTAIN_BP: u64 = 10000;

/// An opponent style preset.
#[derive(Debug, Clone, Copy, PartialEq, Eq, Structural)]
pub enum RivalStyle {
    Balanced,
    Aggressive,
    Passive,
}

impl Default for RivalStyle {
    fn default() -> (r: RivalStyle)
        ensures
            r == RivalStyle::Balanced,
    {
        RivalStyle::Balanced
    }
}

/// An opponent's tendencies, each in basis points.
#[derive(Debug, Clone, Copy)]
pub struct RivalProfile {
    pub name: &'static str,
    pub preflop_fold_to_three_bet: u64,
    pub flop_continuation_bet: u64,
    pub turn_barrel_frequency: u64,
    pub river_probe_frequency: u64,
    pub aggression: u64,
}

/// The five tendencies of a style: fold to a 3-bet, flop continuation bet,
/// turn barrel, river probe, aggression.
pub open spec fn style_numbers(style: RivalStyle) -> (u64, u64, u64, u64, u64) {
    match style {
        RivalStyle::Balanced => (4800, 6200, 5200, 3300, 5000),
        RivalStyle::Aggressive => (3800, 7100, 6400, 4700, 6800),
        RivalStyle::Passive => (5700, 4400, 3600, 2100, 3200),
    }
}

/// `x` held to the range `lo..=hi`.
pub open spec fn clamp(x: int, lo: int, hi: int) -> int {
    if x < lo {
        lo
    } else if x > hi {
        hi
    } else {
        x
    }
}

/// The chance of folding to a raise: the baseline moved by
/// `(5000 - hint) * 0.35`, held to 500..=8500.
pub open spec fn fold_to_raise_bp(base: int, hint: int) -> int {
    clamp((100 * base + 35 * (5000 - hint)) / 100, 500, 8500)
}

/// The opponent's read of two hole cards: the rank sum over 28, plus 2500
/// for a pair or else 800 for ranks at most one gap apart, plus 500 when
/// suited, at most 10000.
pub open spec fn strength_hint_bp(a: Card, b: Card) -> int {
    let ra = rank_value(a.rank) as int;
    let rb = rank_value(b.rank) as int;
    let base = (ra + rb) * 10000 / 28;
    let pair_or_connected = if a.rank == b.rank {
        2500int
    } else if ra - rb <= 2 && rb - ra <= 2 {
        800int
    } else {
        0int
    };
    let suited = if a.suit == b.suit {
        500int
    } else {
        0int
    };
    clamp(base + pair_or_connected + suited, 0, 10000)
}

impl RivalProfile {
    /// Every tendency is a probability.
    pub open spec fn wf(&self) -> bool {
        &&& self.preflop_fold_to_three_bet <= CERTAIN_BP
        &&& self.flop_continuation_bet <= CERTAIN_BP
        &&& self.turn_barrel_frequency <= CERTAIN_BP
        &&& self.river_probe_frequency <= CERTAIN_BP
        &&& self.aggression <= CERTAIN_BP
    }

    /// The profile has the tendencies of `style`.
    pub open spec fn is_preset(&self, style: RivalStyle) -> bool {
        let n = style_numbers(style);
        &&& self.preflop_fold_to_three_bet == n.0
        &&& self.flop_continuation_bet == n.1
        &&& self.turn_barrel_frequency == n.2
        &&& self.river_probe_frequency == n.3
        &&& self.aggression == n.4
    }

    pub fn resolve(style: RivalStyle) -> (r: RivalProfile)
        ensures
            r.is_preset(style),
            r.wf(),
    {
        match style {
            RivalStyle::Balanced => RivalProfile {
                name: "balanced",
                preflop_fold_to_three_bet: 4800,
                flop_continuation_bet: 6200,
                turn_barrel_frequency: 5200,
                river_probe_frequency: 3300,
                aggression: 5000,
            },
            RivalStyle::Aggressive => RivalProfile {
                name: "aggressive",
                preflop_fold_to_three_bet: 3800,
                flop_continuation_bet: 7100,
                turn_barrel_frequency: 6400,
                river_probe_frequency: 4700,
                aggression: 6800,
            },
            RivalStyle::Passive => RivalProfile {
                name: "passive",
                preflop_fold_to_three_bet: 5700,
                flop_continuation_bet: 4400,
                turn_barrel_frequency: 3600,
                river_probe_frequency: 2100,
                aggression: 3200,
            },
        }
    }

    /// The chance that the opponent folds to a 3-bet, given hero's strength hint.
    pub fn fold_to_three_bet(&self, hero_strength: u64) -> (r: u64)
        requires
            self.wf(),
            hero_strength <= CERTAIN_BP,
        ensures
            r == fold_to_raise_bp(self.preflop_fold_to_three_bet as int, hero_strength as int),
    {
        let up: u64 = 100 * self.preflop_fold_to_three_bet + 35 * 5000;
        let down: u64 = 35 * hero_strength;
        if up < down + 50000 {
            500
        } else {
            let raw = (up - down) / 100;
            if raw > 8500 {
                8500
            } else {
                raw
            }
        }
    }

    pub fn continuation_bet_flop(&self) -> (r: u64)
        ensures
            r == self.flop_continuation_bet,
    {
        self.flop_continuation_bet
    }

    pub fn barrel_turn(&self) -> (r: u64)
        ensures
            r == self.turn_barrel_frequency,
    {
        self.turn_barrel_frequency
    }

    pub fn probe_river(&self) -> (r: u64)
        ensures
            r == self.river_probe_frequency,
    {
        self.river_probe_frequency
    }

    pub fn bluff_tendency(&self) -> (r: u64)
        ensures
            r == self.aggression,
    {
        self.aggression
    }

    /// One uniform draw below 10000, compared with `probability`: true means
    /// the opponent folds. A probability of 0 never folds; 10000 always does.
    pub fn random_fold(&self, rng: &mut StdRng, probability: u64) -> (r: bool)
        ensures
            probability == 0 ==> !r,
            probability >= CERTAIN_BP ==> r,
    {
        draw_below(rng, CERTAIN_BP) < probability
    }

    /// One uniform draw below 10000, compared with `probability`.
    pub fn random_decision(&self, rng: &mut StdRng, probability: u64) -> (r: bool)
        ensures
            probability == 0 ==> !r,
            probability >= CERTAIN_BP ==> r,
    {
        draw_below(rng, CERTAIN_BP) < probability
    }

    pub fn describe(&self) -> (r: &'static str)
        ensures
            r == self.name,
    {
        self.name
    }

    /// A cheap read of hero's hole cards, in basis points.
    pub fn hand_strength_hint(&self, hero_cards: &[Card; 2]) -> (r: u64)
        ensures
            r == strength_hint_bp(hero_cards@[0], hero_cards@[1]),
            r <= CERTAIN_BP,
    {
        let ra = hero_cards[0].rank_value() as u64;
        let rb = hero_cards[1].rank_value() as u64;
        let connectors = ra <= rb + 2 && rb <= ra + 2;
        let pair = hero_cards[0].rank == hero_cards[1].rank;
        let suited = hero_cards[0].suit == hero_cards[1].suit;
        let mut strength: u64 = (ra + rb) * 10000 / 28;
        if pair {
            strength = strength + 2500;
        } else if connectors {
            strength = strength + 800;
        }
        if suited {
            strength = strength + 500;
        }
        if strength > CERTAIN_BP {
            CERTAIN_BP
        } else {
            strength
        }
    }
}

} // verus!
