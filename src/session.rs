//! The hand state machine and the session that plays hands one after another.
use vstd::prelude::*;

use std::cmp::Ordering;

use rand::rngs::StdRng;
use uuid::Uuid;

use crate::betting::{
    action, bet_size_spec, effective_stack, effective_stack_spec, evs_bounded, fold_probability,
    lemma_floor_negative, min, postflop_fold_bp,
    postflop_menu, postflop_options, preflop_menu, preflop_options, EV_LIMIT, MAX_STACK_MBB,
    MIN_BET_MBB,
};
use crate::cards::{card_notation, lemma_deck_distinct, standard_deck, Card};
use crate::chance::{choose_value, fresh_id, random_seed, seeded_rng, shuffle_cards};
use crate::equity::{best_key, lemma_best_key, monte_carlo_equity, possible_equity};
use crate::evaluator::{best_five_card_hand, compare_strength};
use crate::game::{
    copy_options, menu_view, ActionOption, HeroAction, HeroActionKind, NodeSnapshot, OptionView,
    Street,
};
use crate::rival::{fold_to_raise_bp, strength_hint_bp, RivalProfile, RivalStyle, CERTAIN_BP};

verus! {

/// Hero's forced blind.
pub const BIG_BLIND_MBB: u64 = 1000;

/// The size of hero's 3-bet.
pub const DEFAULT_THREE_BET_MBB: u64 = 9000;

/// The open used when no size could be drawn.
pub const DEFAULT_OPEN_MBB: u64 = 2500;

/// The most that a hand can cost in expected value.
pub const HAND_LOSS_LIMIT: u64 = 8_000_000;

/// Configuration for a training session.
#[derive(Debug, Clone)]
pub struct SessionConfig {
    pub hands: u32,
    pub mc_samples: u32,
    pub rival_style: RivalStyle,
    pub seed: Option<u64>,
}

impl Default for SessionConfig {
    fn default() -> (r: SessionConfig)
        ensures
            r.hands == 1,
            r.mc_samples == 200,
            r.rival_style == RivalStyle::Balanced,
            r.seed is None,
    {
        SessionConfig { hands: 1, mc_samples: 200, rival_style: RivalStyle::Balanced, seed: None }
    }
}

#[derive(Debug, Clone, Copy, PartialEq, Eq, Structural)]
pub enum SessionStatus {
    AwaitingInput,
    Completed,
}

/// Totals over the hands played so far.
#[derive(Debug, Clone, Copy, PartialEq, Eq, Structural)]
pub struct SessionSummary {
    pub hands_played: u32,
    pub total_ev_loss_mbb: u64,
    pub total_profit_mbb: i64,
}

impl Default for SessionSummary {
    fn default() -> (r: SessionSummary)
        ensures
            r.hands_played == 0,
            r.total_ev_loss_mbb == 0,
            r.total_profit_mbb == 0,
    {
        SessionSummary { hands_played: 0, total_ev_loss_mbb: 0, total_profit_mbb: 0 }
    }
}

/// What the presentation layer is shown of a session.
#[derive(Debug, PartialEq, Eq)]
pub struct SessionState {
    pub session_id: Uuid,
    pub hand_index: u32,
    pub node: NodeSnapshot,
    pub status: SessionStatus,
    pub summary: SessionSummary,
}

/// A training session: hands dealt one after another from one random stream.
pub struct Session {
    id: Uuid,
    rng: StdRng,
    config: SessionConfig,
    profile: RivalProfile,
    current_hand: Option<Hand>,
    summary: SessionSummary,
}

struct Hand {
    hero: [Card; 2],
    villain: [Card; 2],
    board: [Card; 5],
    open_size: u64,
    raise_size: u64,
    state: StreetState,
    options: Vec<ActionOption>,
    current_best_ev: i64,
    total_best_ev: i64,
    total_chosen_ev: i64,
    completed: bool,
}

#[derive(Clone, Copy)]
struct StreetState {
    street: Street,
    pot_mbb: u64,
    hero_invested_mbb: u64,
    villain_invested_mbb: u64,
    board_revealed: usize,
    effective_stack_mbb: u64,
}

struct HandResult {
    profit_mbb: i64,
    ev_loss_mbb: u64,
}

enum HandProgress {
    Unchanged,
    InProgress,
    Completed(HandResult),
}

/// How many board cards are face up on a street.
pub open spec fn revealed_for(street: Street) -> usize {
    match street {
        Street::Preflop => 0,
        Street::Flop => 3,
        Street::Turn => 4,
        _ => 5,
    }
}

/// The number of decisions made before a street.
pub open spec fn street_index(street: Street) -> int {
    match street {
        Street::Preflop => 0,
        Street::Flop => 1,
        Street::Turn => 2,
        Street::River => 3,
        _ => 4,
    }
}

/// A street on which hero still decides.
pub open spec fn is_live(street: Street) -> bool {
    street == Street::Preflop || street == Street::Flop || street == Street::Turn || street
        == Street::River
}

/// The street after a flop or turn decision.
pub open spec fn next_street(street: Street) -> Street {
    match street {
        Street::Flop => Street::Turn,
        _ => Street::River,
    }
}

/// What hero wins at showdown: the opponent's investment on a win, hero's
/// own investment lost on a loss, half the difference (rounded down) on a tie.
pub open spec fn showdown_profit(hero_key: int, villain_key: int, hero_in: int, villain_in: int) -> int {
    if hero_key > villain_key {
        villain_in
    } else if hero_key < villain_key {
        -hero_in
    } else {
        (villain_in - hero_in) / 2
    }
}

/// The characters of each string.
pub open spec fn texts(v: Seq<String>) -> Seq<Seq<char>> {
    v.map_values(|s: String| s@)
}

/// The notation of each card.
pub open spec fn notations(cards: Seq<Card>) -> Seq<Seq<char>> {
    cards.map_values(|c: Card| card_notation(c))
}

impl StreetState {
    /// Investments within the stack, the pot their sum, the effective stack
    /// the smaller remainder.
    spec fn balanced(&self) -> bool {
        &&& self.hero_invested_mbb <= MAX_STACK_MBB
        &&& self.villain_invested_mbb <= MAX_STACK_MBB
        &&& self.pot_mbb == self.hero_invested_mbb + self.villain_invested_mbb
        &&& self.effective_stack_mbb == effective_stack_spec(
            self.hero_invested_mbb as int,
            self.villain_invested_mbb as int,
        )
    }

    spec fn consistent(&self) -> bool {
        &&& self.hero_invested_mbb <= MAX_STACK_MBB
        &&& self.villain_invested_mbb <= MAX_STACK_MBB
        &&& self.pot_mbb == self.hero_invested_mbb + self.villain_invested_mbb
        &&& self.effective_stack_mbb == effective_stack_spec(
            self.hero_invested_mbb as int,
            self.villain_invested_mbb as int,
        )
        &&& self.board_revealed == revealed_for(self.street)
    }
}

impl Hand {
    /// The hand is in play, and `d` decisions' worth of expected value has been booked.
    spec fn in_play(&self, d: int) -> bool {
        &&& self.state.consistent()
        &&& (self.open_size == 2000 || self.open_size == 2500 || self.open_size == 3000)
        &&& self.raise_size == DEFAULT_THREE_BET_MBB
        &&& -EV_LIMIT * d <= self.total_chosen_ev <= self.total_best_ev <= EV_LIMIT * d
        &&& !self.completed
        &&& is_live(self.state.street)
        &&& self.state.street == Street::Preflop ==> self.state.hero_invested_mbb == BIG_BLIND_MBB
            && self.state.villain_invested_mbb == self.open_size
    }

    /// What holds of the hand after a decision is carried out from `pre`:
    /// the cards and sizes stay, investments only grow and stay balanced, the
    /// hand ends exactly when it reaches the terminal street, and a finished
    /// hand books the expected value given up over all its decisions.
    spec fn moved_on(&self, pre: Hand, p: HandProgress) -> bool {
        &&& self.hero == pre.hero
        &&& self.villain == pre.villain
        &&& self.board == pre.board
        &&& self.open_size == pre.open_size
        &&& self.raise_size == pre.raise_size
        &&& self.total_best_ev == pre.total_best_ev
        &&& self.total_chosen_ev == pre.total_chosen_ev
        &&& self.state.balanced()
        &&& self.state.hero_invested_mbb >= pre.state.hero_invested_mbb
        &&& self.state.villain_invested_mbb >= pre.state.villain_invested_mbb
        &&& (p is Completed <==> self.state.street == Street::Terminal)
        &&& p matches HandProgress::Completed(res) ==> self.completed && res.ev_loss_mbb
            == pre.total_best_ev - pre.total_chosen_ev
    }

    /// The nine cards dealt to the hand: hero's, the opponent's, the board.
    spec fn dealt(&self) -> Seq<Card> {
        self.hero@ + self.villain@ + self.board@
    }

    /// What hero would win at showdown with the given investments.
    spec fn showdown_payoff_with(&self, hero_in: int, villain_in: int) -> int {
        showdown_profit(
            best_key(self.hero@ + self.board@),
            best_key(self.villain@ + self.board@),
            hero_in,
            villain_in,
        )
    }

    /// What hero would win if the hand were settled at showdown now.
    spec fn showdown_payoff(&self) -> int {
        self.showdown_payoff_with(
            self.state.hero_invested_mbb as int,
            self.state.villain_invested_mbb as int,
        )
    }

    /// The bet offered on the current street.
    spec fn street_bet(&self) -> int {
        bet_size_spec(
            self.state.pot_mbb as int,
            self.state.street,
            self.state.effective_stack_mbb as int,
        )
    }

    /// The opponent's call of a bet `b`, as far as its stack allows.
    spec fn call_of(&self, b: int) -> int {
        min(b, MAX_STACK_MBB - self.state.villain_invested_mbb)
    }

    spec fn menu(&self) -> Seq<OptionView> {
        menu_view(self.options@)
    }

    /// The menu has the shape of the street's menu and its best value is recorded.
    spec fn menu_fits(&self) -> bool {
        let m = self.menu();
        &&& evs_bounded(m)
        &&& -EV_LIMIT <= self.current_best_ev <= EV_LIMIT
        &&& forall|i: int| 0 <= i < m.len() ==> (#[trigger] m[i]).ev <= self.current_best_ev
        &&& if self.state.street == Street::Preflop {
            &&& m.len() == 3
            &&& m[0].action == (HeroAction { kind: HeroActionKind::Fold, size_mbb: None })
            &&& m[1].action == (HeroAction {
                kind: HeroActionKind::Call,
                size_mbb: Some(self.open_size),
            })
            &&& m[2].action == (HeroAction {
                kind: HeroActionKind::Raise,
                size_mbb: Some(self.raise_size),
            })
        } else {
            &&& m.len() == 2
            &&& m[0].action == (HeroAction { kind: HeroActionKind::Check, size_mbb: None })
            &&& m[1].action.kind == HeroActionKind::Bet
            &&& m[1].action.size_mbb == Some(
                bet_size_spec(
                    self.state.pot_mbb as int,
                    self.state.street,
                    self.state.effective_stack_mbb as int,
                ) as u64,
            )
        }
    }

    /// `m` is the preflop menu for an `equity` that the estimate over
    /// `samples` can give for hero's cards; the fold chance comes from the
    /// profile and the opponent's read of hero's cards.
    spec fn is_preflop_menu(
        &self,
        m: Seq<OptionView>,
        profile: RivalProfile,
        samples: u32,
        equity: u64,
    ) -> bool {
        &&& equity <= CERTAIN_BP
        &&& possible_equity(self.hero@, None, seq![], samples, equity)
        &&& m == preflop_menu(
            self.open_size,
            self.state.hero_invested_mbb,
            self.state.pot_mbb,
            self.raise_size,
            fold_to_raise_bp(
                profile.preflop_fold_to_three_bet as int,
                strength_hint_bp(self.hero@[0], self.hero@[1]),
            ) as u64,
            equity,
        )
    }

    /// `m` is the postflop menu of the current street for an `equity` that the
    /// estimate over `samples` can give for hero's cards and the visible board.
    spec fn is_postflop_menu(
        &self,
        m: Seq<OptionView>,
        profile: RivalProfile,
        samples: u32,
        equity: u64,
    ) -> bool {
        &&& equity <= CERTAIN_BP
        &&& possible_equity(
            self.hero@,
            None,
            self.board@.subrange(0, self.state.board_revealed as int),
            samples,
            equity,
        )
        &&& m == postflop_menu(
            self.state.street,
            self.state.pot_mbb,
            self.state.effective_stack_mbb,
            postflop_fold_bp(profile, equity as int, self.state.street) as u64,
            equity,
        )
    }

    /// The menu is the street's menu for some estimated equity, and the
    /// recorded best value is the largest value on it.
    spec fn menu_estimated(&self, profile: RivalProfile, samples: u32) -> bool {
        &&& exists|i: int| 0 <= i < self.menu().len() && #[trigger] self.menu()[i].ev
            == self.current_best_ev
        &&& if self.state.street == Street::Preflop {
            exists|equity: u64| self.is_preflop_menu(self.menu(), profile, samples, equity)
        } else {
            exists|equity: u64| self.is_postflop_menu(self.menu(), profile, samples, equity)
        }
    }

    spec fn live(&self) -> bool {
        self.in_play(street_index(self.state.street)) && self.menu_fits()
    }

    spec fn offers(&self, a: HeroAction) -> bool {
        exists|i: int| 0 <= i < self.menu().len() && (#[trigger] self.menu()[i]).action == a
    }

    fn new(rng: &mut StdRng) -> (h: Hand)
        ensures
            h.in_play(0),
            h.state.street == Street::Preflop,
            h.options@.len() == 0,
            h.current_best_ev == 0,
            h.total_best_ev == 0,
            h.total_chosen_ev == 0,
            h.dealt().no_duplicates(),
    {
        let mut deck = standard_deck();
        shuffle_cards(rng, &mut deck);
        proof {
            deck@.to_multiset_ensures();
            crate::cards::deck_spec().to_multiset_ensures();
            lemma_deck_distinct();
            crate::cards::deck_spec().lemma_multiset_has_no_duplicates();
            deck@.lemma_multiset_has_no_duplicates_conv();
        }
        assert(deck@.len() == 52);
        let ghost d = deck@;
        let h0 = deck.pop().unwrap();
        let h1 = deck.pop().unwrap();
        let v0 = deck.pop().unwrap();
        let v1 = deck.pop().unwrap();
        let b0 = deck.pop().unwrap();
        let b1 = deck.pop().unwrap();
        let b2 = deck.pop().unwrap();
        let b3 = deck.pop().unwrap();
        let b4 = deck.pop().unwrap();
        let ghost cards = seq![h0, h1, v0, v1, b0, b1, b2, b3, b4];
        assert(cards =~= Seq::new(9, |i: int| d[51 - i]));
        let sizes: Vec<u64> = vec![2000, 2500, 3000];
        let open_size = match choose_value(rng, sizes.as_slice()) {
            Some(v) => v,
            None => DEFAULT_OPEN_MBB,
        };
        assert(open_size == 2000 || open_size == 2500 || open_size == 3000);
        let state = StreetState {
            street: Street::Preflop,
            pot_mbb: open_size + BIG_BLIND_MBB,
            hero_invested_mbb: BIG_BLIND_MBB,
            villain_invested_mbb: open_size,
            board_revealed: 0,
            effective_stack_mbb: effective_stack(BIG_BLIND_MBB, open_size),
        };
        let hand = Hand {
            hero: [h0, h1],
            villain: [v0, v1],
            board: [b0, b1, b2, b3, b4],
            open_size,
            raise_size: DEFAULT_THREE_BET_MBB,
            state,
            options: Vec::new(),
            current_best_ev: 0,
            total_best_ev: 0,
            total_chosen_ev: 0,
            completed: false,
        };
        assert(hand.dealt() =~= cards);
        hand
    }

    /// Builds the menu for the current street and records its best value.
    fn compute_options(&mut self, rng: &mut StdRng, profile: RivalProfile, samples: u32)
        requires
            old(self).in_play(street_index(old(self).state.street)),
            profile.wf(),
        ensures
            final(self).live(),
            final(self).menu_estimated(profile, samples),
            final(self).state == old(self).state,
            final(self).hero == old(self).hero,
            final(self).villain == old(self).villain,
            final(self).board == old(self).board,
            final(self).open_size == old(self).open_size,
            final(self).total_best_ev == old(self).total_best_ev,
            final(self).total_chosen_ev == old(self).total_chosen_ev,
    {
        let options = match self.state.street {
            Street::Preflop => self.compute_preflop_options(rng, profile, samples),
            _ => self.compute_postflop_options(rng, profile, samples),
        };
        let ghost m = menu_view(options@);
        let mut best: i64 = options[0].ev_delta_mbb;
        assert(m[0].ev == best);
        let mut i: usize = 1;
        while i < options.len()
            invariant
                1 <= i <= options@.len(),
                m == menu_view(options@),
                evs_bounded(m),
                -EV_LIMIT <= best <= EV_LIMIT,
                forall|k: int| 0 <= k < i ==> (#[trigger] m[k]).ev <= best,
                exists|k: int| 0 <= k < i && (#[trigger] m[k]).ev == best,
            decreases options@.len() - i,
        {
            assert(m[i as int].ev == options@[i as int].ev_delta_mbb);
            if options[i].ev_delta_mbb > best {
                best = options[i].ev_delta_mbb;
            }
            i = i + 1;
        }
        let ghost before = *self;
        self.current_best_ev = best;
        self.options = options;
        proof {
            if self.state.street == Street::Preflop {
                let e = choose|e: u64| before.is_preflop_menu(m, profile, samples, e);
                assert(self.is_preflop_menu(self.menu(), profile, samples, e));
            } else {
                let e = choose|e: u64| before.is_postflop_menu(m, profile, samples, e);
                assert(self.is_postflop_menu(self.menu(), profile, samples, e));
            }
        }
    }

    fn compute_preflop_options(&self, rng: &mut StdRng, profile: RivalProfile, samples: u32) -> (r:
        Vec<ActionOption>)
        requires
            self.in_play(0),
            self.state.street == Street::Preflop,
            profile.wf(),
        ensures
            evs_bounded(menu_view(r@)),
            r@.len() == 3,
            exists|equity: u64| self.is_preflop_menu(menu_view(r@), profile, samples, equity),
    {
        let hero_strength = profile.hand_strength_hint(&self.hero);
        let no_board: Vec<Card> = Vec::new();
        let hero = self.hero.as_slice();
        assert(hero@ == self.hero@);
        let equity = monte_carlo_equity(hero, None, no_board.as_slice(), samples, rng);
        let fold_prob = profile.fold_to_three_bet(hero_strength);
        let r = preflop_options(
            self.open_size,
            self.state.hero_invested_mbb,
            self.state.pot_mbb,
            self.raise_size,
            fold_prob,
            equity,
        );
        assert(no_board@ =~= Seq::<Card>::empty());
        assert(self.is_preflop_menu(menu_view(r@), profile, samples, equity));
        r
    }

    fn compute_postflop_options(&self, rng: &mut StdRng, profile: RivalProfile, samples: u32) -> (r:
        Vec<ActionOption>)
        requires
            self.state.consistent(),
            is_live(self.state.street),
            self.state.street != Street::Preflop,
            profile.wf(),
        ensures
            evs_bounded(menu_view(r@)),
            r@.len() == 2,
            exists|equity: u64| self.is_postflop_menu(menu_view(r@), profile, samples, equity),
    {
        let board = self.visible_board();
        let hero = self.hero.as_slice();
        assert(hero@ == self.hero@);
        let equity = monte_carlo_equity(hero, None, board.as_slice(), samples, rng);
        let fold_prob = fold_probability(&profile, equity, self.state.street);
        let r = postflop_options(
            self.state.street,
            self.state.pot_mbb,
            self.state.effective_stack_mbb,
            fold_prob,
            equity,
        );
        assert(self.is_postflop_menu(menu_view(r@), profile, samples, equity));
        r
    }

    /// Applies the chosen action if the menu offers it.
    fn apply_action(
        &mut self,
        action: &HeroAction,
        rng: &mut StdRng,
        profile: RivalProfile,
        samples: u32,
    ) -> (p: HandProgress)
        requires
            old(self).live(),
            old(self).menu_estimated(profile, samples),
            profile.wf(),
        ensures
            final(self).hero == old(self).hero,
            final(self).villain == old(self).villain,
            final(self).board == old(self).board,
            !old(self).offers(*action) ==> p is Unchanged && *final(self) == *old(self) && *final(rng)
                == *old(rng),
            old(self).offers(*action) ==> !(p is Unchanged),
            p is InProgress ==> final(self).in_play(street_index(final(self).state.street))
                && street_index(final(self).state.street) == street_index(old(self).state.street)
                + 1,
            p matches HandProgress::Completed(res) ==> -(MAX_STACK_MBB as int) <= res.profit_mbb
                <= MAX_STACK_MBB && res.ev_loss_mbb <= HAND_LOSS_LIMIT,
            old(self).offers(*action) && old(self).state.street == Street::Preflop && action.kind
                == HeroActionKind::Fold ==> (p matches HandProgress::Completed(res)
                && res.profit_mbb == -BIG_BLIND_MBB && res.ev_loss_mbb == old(self).current_best_ev
                + BIG_BLIND_MBB),
            old(self).offers(*action) ==> final(self).state.balanced()
                && final(self).state.hero_invested_mbb >= old(self).state.hero_invested_mbb
                && final(self).state.villain_invested_mbb >= old(self).state.villain_invested_mbb
                && (p is Completed <==> final(self).state.street == Street::Terminal),
            old(self).offers(*action) ==> (p matches HandProgress::Completed(res) ==> (
            final(self).completed && exists|i: int|
                0 <= i < old(self).menu().len() && (#[trigger] old(self).menu()[i]).action
                    == *action && res.ev_loss_mbb == old(self).total_best_ev
                    + old(self).current_best_ev - old(self).total_chosen_ev - old(
                    self,
                ).menu()[i].ev)),
            old(self).offers(*action) && old(self).state.street == Street::Preflop && action.kind
                == HeroActionKind::Call ==> p is InProgress && final(self).state.street
                == Street::Flop && final(self).state.hero_invested_mbb == old(self).open_size
                && final(self).state.villain_invested_mbb == old(self).open_size,
            old(self).offers(*action) && old(self).state.street == Street::Preflop && action.kind
                == HeroActionKind::Raise ==> (p matches HandProgress::Completed(res)
                && res.profit_mbb == old(self).open_size) || (p is InProgress
                && final(self).state.street == Street::Flop && final(self).state.hero_invested_mbb
                == DEFAULT_THREE_BET_MBB && final(self).state.villain_invested_mbb
                == DEFAULT_THREE_BET_MBB),
            old(self).offers(*action) && (old(self).state.street == Street::Flop
                || old(self).state.street == Street::Turn) && action.kind == HeroActionKind::Check
                ==> p is InProgress && final(self).state.street == next_street(
                old(self).state.street,
            ) && final(self).state.hero_invested_mbb == old(self).state.hero_invested_mbb
                && final(self).state.villain_invested_mbb == old(self).state.villain_invested_mbb,
            old(self).offers(*action) && old(self).state.street == Street::River
                ==> final(self).state.board_revealed == 5,
            p is InProgress ==> final(self).total_best_ev == old(self).total_best_ev + old(
                self,
            ).current_best_ev && exists|i: int|
                0 <= i < old(self).menu().len() && (#[trigger] old(self).menu()[i]).action
                    == *action && final(self).total_chosen_ev == old(self).total_chosen_ev + old(
                    self,
                ).menu()[i].ev,
            old(self).offers(*action) && (old(self).state.street == Street::Flop
                || old(self).state.street == Street::Turn) && action.kind == HeroActionKind::Bet
                ==> p is Completed || (p is InProgress && final(self).state.street == next_street(
                old(self).state.street,
            )),
            old(self).offers(*action) && (old(self).state.street == Street::Flop
                || old(self).state.street == Street::Turn) && action.kind == HeroActionKind::Bet
                ==> (p matches HandProgress::Completed(res) && res.profit_mbb == old(
                self,
            ).state.villain_invested_mbb) || (p is InProgress && final(self).state.hero_invested_mbb
                == old(self).state.hero_invested_mbb + old(self).street_bet()
                && final(self).state.villain_invested_mbb == old(self).state.villain_invested_mbb
                + old(self).call_of(old(self).street_bet())),
            old(self).offers(*action) && old(self).state.street == Street::River && action.kind
                == HeroActionKind::Bet ==> (p matches HandProgress::Completed(res) && (
            res.profit_mbb == old(self).state.villain_invested_mbb || res.profit_mbb == old(
                self,
            ).showdown_payoff_with(
                old(self).state.hero_invested_mbb + old(self).street_bet(),
                old(self).state.villain_invested_mbb + old(self).call_of(old(self).street_bet()),
            ))),
            old(self).offers(*action) && old(self).state.street == Street::River ==> p is Completed,
            old(self).offers(*action) && old(self).state.street == Street::River && action.kind
                == HeroActionKind::Check ==> (p matches HandProgress::Completed(res)
                && res.profit_mbb == old(self).showdown_payoff()),
    {
        let ghost m = self.menu();
        let mut found: Option<usize> = None;
        let mut i: usize = 0;
        while i < self.options.len() && found.is_none()
            invariant
                i <= self.options@.len(),
                m == menu_view(self.options@),
                found is None ==> forall|k: int| 0 <= k < i ==> (#[trigger] m[k]).action != *action,
                found matches Some(j) ==> j < self.options@.len() && m[j as int].action == *action,
            decreases self.options@.len() - i + if found is None {
                1int
            } else {
                0int
            },
        {
            if self.options[i].action == *action {
                found = Some(i);
            } else {
                i = i + 1;
            }
        }
        let j = match found {
            None => {
                return HandProgress::Unchanged;
            },
            Some(j) => j,
        };
        let chosen_ev = self.options[j].ev_delta_mbb;
        let chosen_size = self.options[j].action.size_mbb;
        let kind = self.options[j].action.kind;
        assert(m[j as int].ev == chosen_ev);
        proof {
            if self.state.street == Street::Preflop && kind == HeroActionKind::Fold {
                let e = choose|e: u64| self.is_preflop_menu(m, profile, samples, e);
                assert(m[0].ev == -BIG_BLIND_MBB);
                assert(j == 0);
            }
        }
        let ghost d = street_index(self.state.street);
        self.total_best_ev = self.total_best_ev + self.current_best_ev;
        self.total_chosen_ev = self.total_chosen_ev + chosen_ev;
        assert(EV_LIMIT * d + EV_LIMIT == EV_LIMIT * (d + 1)) by (nonlinear_arith);
        match self.state.street {
            Street::Preflop => self.apply_preflop(kind, chosen_size, rng, profile),
            Street::Flop | Street::Turn => self.apply_postflop(kind, chosen_size, rng, profile, samples),
            _ => self.apply_river(kind, chosen_size, rng, profile, samples),
        }
    }

    fn apply_preflop(
        &mut self,
        kind: HeroActionKind,
        size: Option<u64>,
        rng: &mut StdRng,
        profile: RivalProfile,
    ) -> (p: HandProgress)
        requires
            old(self).in_play(1),
            old(self).state.street == Street::Preflop,
            kind == HeroActionKind::Fold || kind == HeroActionKind::Call || kind
                == HeroActionKind::Raise,
            kind == HeroActionKind::Raise ==> size == Some(old(self).raise_size),
            profile.wf(),
        ensures
            final(self).hero == old(self).hero,
            final(self).villain == old(self).villain,
            final(self).board == old(self).board,
            p is InProgress ==> final(self).in_play(1) && final(self).state.street == Street::Flop,
            p matches HandProgress::Completed(res) ==> -(MAX_STACK_MBB as int) <= res.profit_mbb
                <= MAX_STACK_MBB && res.ev_loss_mbb <= HAND_LOSS_LIMIT,
            !(p is Unchanged),
            kind == HeroActionKind::Fold ==> (p matches HandProgress::Completed(res)
                && res.profit_mbb == -BIG_BLIND_MBB && res.ev_loss_mbb == old(self).total_best_ev
                - old(self).total_chosen_ev),
            final(self).moved_on(*old(self), p),
            kind == HeroActionKind::Call ==> p is InProgress && final(self).state.hero_invested_mbb
                == old(self).open_size && final(self).state.villain_invested_mbb
                == old(self).open_size,
            kind == HeroActionKind::Raise ==> final(self).state.hero_invested_mbb == old(
                self,
            ).raise_size && ((p matches HandProgress::Completed(res) && res.profit_mbb == old(
                self,
            ).open_size && final(self).state.villain_invested_mbb == old(self).open_size) || (
            p is InProgress && final(self).state.villain_invested_mbb == old(self).raise_size)),
    {
        match kind {
            HeroActionKind::Fold => {
                let lost = self.state.hero_invested_mbb as i64;
                self.finish(-lost)
            },
            HeroActionKind::Call => {
                let call_cost = if self.open_size > self.state.hero_invested_mbb {
                    self.open_size - self.state.hero_invested_mbb
                } else {
                    0
                };
                self.state.hero_invested_mbb = self.state.hero_invested_mbb + call_cost;
                self.refresh_state();
                self.advance_street(Street::Flop);
                HandProgress::InProgress
            },
            _ => {
                let raise_to = match size {
                    Some(s) => s,
                    None => self.raise_size,
                };
                let raise_cost = if raise_to > self.state.hero_invested_mbb {
                    raise_to - self.state.hero_invested_mbb
                } else {
                    0
                };
                self.state.hero_invested_mbb = self.state.hero_invested_mbb + raise_cost;
                self.refresh_state();
                let hero_strength = profile.hand_strength_hint(&self.hero);
                let fold_prob = profile.fold_to_three_bet(hero_strength);
                if profile.random_fold(rng, fold_prob) {
                    let won = self.state.villain_invested_mbb as i64;
                    self.finish(won)
                } else {
                    let call_cost = if raise_to > self.open_size {
                        raise_to - self.open_size
                    } else {
                        0
                    };
                    self.state.villain_invested_mbb = self.state.villain_invested_mbb + call_cost;
                    self.refresh_state();
                    self.advance_street(Street::Flop);
                    HandProgress::InProgress
                }
            },
        }
    }

    /// Hero's bet, held to the effective stack; a missing or zero size bets
    /// the street's default share of the pot.
    fn hero_bet(&mut self, size: Option<u64>, default_percent: u64) -> (bet: u64)
        requires
            old(self).state.consistent(),
            default_percent <= 100,
        ensures
            final(self).hero == old(self).hero,
            final(self).villain == old(self).villain,
            final(self).board == old(self).board,
            final(self).state.consistent(),
            final(self).state.street == old(self).state.street,
            final(self).state.villain_invested_mbb == old(self).state.villain_invested_mbb,
            final(self).state.hero_invested_mbb == old(self).state.hero_invested_mbb + bet,
            bet <= old(self).state.effective_stack_mbb,
            size is Some && size->Some_0 <= old(self).state.effective_stack_mbb && (size->Some_0
                == 0 ==> old(self).state.effective_stack_mbb == 0) ==> bet == size->Some_0,
            final(self).open_size == old(self).open_size,
            final(self).raise_size == old(self).raise_size,
            final(self).total_best_ev == old(self).total_best_ev,
            final(self).total_chosen_ev == old(self).total_chosen_ev,
            final(self).completed == old(self).completed,
    {
        let mut bet_size = match size {
            Some(s) => s,
            None => 0,
        };
        if bet_size == 0 {
            assert(self.state.pot_mbb * default_percent <= 200000 * 100) by (nonlinear_arith)
                requires
                    self.state.pot_mbb <= 200000,
                    default_percent <= 100,
            ;
            let share = self.state.pot_mbb * default_percent / 100;
            bet_size = if share < MIN_BET_MBB {
                MIN_BET_MBB
            } else {
                share
            };
        }
        if bet_size > self.state.effective_stack_mbb {
            bet_size = self.state.effective_stack_mbb;
        }
        self.state.hero_invested_mbb = self.state.hero_invested_mbb + bet_size;
        self.refresh_state();
        bet_size
    }

    /// The opponent calls hero's bet, as far as its stack allows.
    fn villain_calls(&mut self, bet: u64)
        requires
            old(self).state.consistent(),
        ensures
            final(self).hero == old(self).hero,
            final(self).villain == old(self).villain,
            final(self).board == old(self).board,
            final(self).state.consistent(),
            final(self).state.street == old(self).state.street,
            final(self).state.hero_invested_mbb == old(self).state.hero_invested_mbb,
            final(self).state.villain_invested_mbb == old(self).state.villain_invested_mbb + min(
                bet as int,
                MAX_STACK_MBB - old(self).state.villain_invested_mbb,
            ),
            final(self).open_size == old(self).open_size,
            final(self).raise_size == old(self).raise_size,
            final(self).total_best_ev == old(self).total_best_ev,
            final(self).total_chosen_ev == old(self).total_chosen_ev,
            final(self).completed == old(self).completed,
    {
        let room = MAX_STACK_MBB - self.state.villain_invested_mbb;
        let call_size = if bet < room {
            bet
        } else {
            room
        };
        self.state.villain_invested_mbb = self.state.villain_invested_mbb + call_size;
        self.refresh_state();
    }

    fn apply_postflop(
        &mut self,
        kind: HeroActionKind,
        size: Option<u64>,
        rng: &mut StdRng,
        profile: RivalProfile,
        samples: u32,
    ) -> (p: HandProgress)
        requires
            old(self).in_play(street_index(old(self).state.street) + 1),
            old(self).state.street == Street::Flop || old(self).state.street == Street::Turn,
            kind == HeroActionKind::Check || kind == HeroActionKind::Bet,
            kind == HeroActionKind::Bet ==> size == Some(old(self).street_bet() as u64),
            profile.wf(),
        ensures
            kind == HeroActionKind::Bet ==> final(self).state.hero_invested_mbb == old(
                self,
            ).state.hero_invested_mbb + old(self).street_bet() && ((p matches HandProgress::Completed(
                res,
            ) && res.profit_mbb == old(self).state.villain_invested_mbb
                && final(self).state.villain_invested_mbb == old(self).state.villain_invested_mbb)
                || (p is InProgress && final(self).state.villain_invested_mbb == old(
                self,
            ).state.villain_invested_mbb + old(self).call_of(old(self).street_bet()))),
            final(self).hero == old(self).hero,
            final(self).villain == old(self).villain,
            final(self).board == old(self).board,
            p is InProgress ==> final(self).in_play(street_index(final(self).state.street))
                && final(self).state.street == next_street(old(self).state.street),
            p matches HandProgress::Completed(res) ==> -(MAX_STACK_MBB as int) <= res.profit_mbb
                <= MAX_STACK_MBB && res.ev_loss_mbb <= HAND_LOSS_LIMIT,
            !(p is Unchanged),
            final(self).moved_on(*old(self), p),
            kind == HeroActionKind::Check ==> p is InProgress && final(self).state.hero_invested_mbb
                == old(self).state.hero_invested_mbb && final(self).state.villain_invested_mbb
                == old(self).state.villain_invested_mbb,
    {
        let next = match self.state.street {
            Street::Flop => Street::Turn,
            _ => Street::River,
        };
        match kind {
            HeroActionKind::Check => {
                self.advance_street(next);
                HandProgress::InProgress
            },
            _ => {
                let bet_size = self.hero_bet(size, 50);
                let board = self.visible_board();
                let equity = monte_carlo_equity(
                    self.hero.as_slice(),
                    None,
                    board.as_slice(),
                    samples,
                    rng,
                );
                let fold_prob = fold_probability(&profile, equity, self.state.street);
                if profile.random_fold(rng, fold_prob) {
                    let won = self.state.villain_invested_mbb as i64;
                    self.finish(won)
                } else {
                    self.villain_calls(bet_size);
                    self.advance_street(next);
                    HandProgress::InProgress
                }
            },
        }
    }

    fn apply_river(
        &mut self,
        kind: HeroActionKind,
        size: Option<u64>,
        rng: &mut StdRng,
        profile: RivalProfile,
        samples: u32,
    ) -> (p: HandProgress)
        requires
            old(self).in_play(4),
            old(self).state.street == Street::River,
            kind == HeroActionKind::Check || kind == HeroActionKind::Bet,
            kind == HeroActionKind::Bet ==> size == Some(old(self).street_bet() as u64),
            profile.wf(),
        ensures
            kind == HeroActionKind::Bet ==> final(self).state.hero_invested_mbb == old(
                self,
            ).state.hero_invested_mbb + old(self).street_bet() && (p matches HandProgress::Completed(
                res,
            ) && ((res.profit_mbb == old(self).state.villain_invested_mbb
                && final(self).state.villain_invested_mbb == old(self).state.villain_invested_mbb)
                || (res.profit_mbb == old(self).showdown_payoff_with(
                old(self).state.hero_invested_mbb + old(self).street_bet(),
                old(self).state.villain_invested_mbb + old(self).call_of(old(self).street_bet()),
            ) && final(self).state.villain_invested_mbb == old(self).state.villain_invested_mbb
                + old(self).call_of(old(self).street_bet())))),
            kind == HeroActionKind::Check ==> final(self).state.hero_invested_mbb == old(
                self,
            ).state.hero_invested_mbb && final(self).state.villain_invested_mbb == old(
                self,
            ).state.villain_invested_mbb,
            final(self).hero == old(self).hero,
            final(self).villain == old(self).villain,
            final(self).board == old(self).board,
            p matches HandProgress::Completed(res) ==> -(MAX_STACK_MBB as int) <= res.profit_mbb
                <= MAX_STACK_MBB && res.ev_loss_mbb <= HAND_LOSS_LIMIT,
            p is Completed,
            kind == HeroActionKind::Check ==> (p matches HandProgress::Completed(res)
                && res.profit_mbb == old(self).showdown_payoff()),
            final(self).moved_on(*old(self), p),
            final(self).state.board_revealed == 5,
    {
        match kind {
            HeroActionKind::Check => self.resolve_showdown(),
            _ => {
                let bet_size = self.hero_bet(size, 75);
                let board = self.visible_board();
                let equity = monte_carlo_equity(
                    self.hero.as_slice(),
                    None,
                    board.as_slice(),
                    samples,
                    rng,
                );
                let fold_prob = fold_probability(&profile, equity, Street::River);
                if profile.random_fold(rng, fold_prob) {
                    let won = self.state.villain_invested_mbb as i64;
                    self.finish(won)
                } else {
                    self.villain_calls(bet_size);
                    self.resolve_showdown()
                }
            },
        }
    }

    /// Reveals the board, compares the best hands and settles the pot.
    fn resolve_showdown(&mut self) -> (p: HandProgress)
        requires
            old(self).state.consistent(),
            -EV_LIMIT * 4 <= old(self).total_chosen_ev <= old(self).total_best_ev <= EV_LIMIT * 4,
        ensures
            final(self).hero == old(self).hero,
            final(self).villain == old(self).villain,
            final(self).board == old(self).board,
            p matches HandProgress::Completed(res) ==> -(MAX_STACK_MBB as int) <= res.profit_mbb
                <= MAX_STACK_MBB && res.ev_loss_mbb <= HAND_LOSS_LIMIT,
            p matches HandProgress::Completed(res) && res.profit_mbb == old(self).showdown_payoff()
                && res.ev_loss_mbb == old(self).total_best_ev - old(self).total_chosen_ev,
            final(self).completed,
            final(self).state.street == Street::Terminal,
            final(self).state.board_revealed == 5,
            final(self).state.hero_invested_mbb == old(self).state.hero_invested_mbb,
            final(self).state.villain_invested_mbb == old(self).state.villain_invested_mbb,
            final(self).state.pot_mbb == old(self).state.pot_mbb,
            final(self).state.effective_stack_mbb == old(self).state.effective_stack_mbb,
            final(self).open_size == old(self).open_size,
            final(self).raise_size == old(self).raise_size,
            final(self).total_best_ev == old(self).total_best_ev,
            final(self).total_chosen_ev == old(self).total_chosen_ev,
    {
        self.state.board_revealed = 5;
        self.state.street = Street::Showdown;
        let mut hero_cards: Vec<Card> = vec![self.hero[0], self.hero[1]];
        let mut villain_cards: Vec<Card> = vec![self.villain[0], self.villain[1]];
        assert(hero_cards@ =~= self.hero@);
        assert(villain_cards@ =~= self.villain@);
        let mut i: usize = 0;
        while i < 5
            invariant
                i <= 5,
                hero_cards@ == self.hero@ + self.board@.subrange(0, i as int),
                villain_cards@ == self.villain@ + self.board@.subrange(0, i as int),
            decreases 5 - i,
        {
            hero_cards.push(self.board[i]);
            villain_cards.push(self.board[i]);
            i = i + 1;
            assert(hero_cards@ =~= self.hero@ + self.board@.subrange(0, i as int));
            assert(villain_cards@ =~= self.villain@ + self.board@.subrange(0, i as int));
        }
        assert(self.board@.subrange(0, 5) =~= self.board@);
        let hero_strength = best_five_card_hand(hero_cards.as_slice());
        let villain_strength = best_five_card_hand(villain_cards.as_slice());
        proof {
            lemma_best_key(hero_cards@, hero_strength);
            lemma_best_key(villain_cards@, villain_strength);
        }
        let hero_in = self.state.hero_invested_mbb as i64;
        let villain_in = self.state.villain_invested_mbb as i64;
        let profit: i64 = match compare_strength(hero_strength, villain_strength) {
            Ordering::Greater => villain_in,
            Ordering::Less => -hero_in,
            Ordering::Equal => {
                if villain_in >= hero_in {
                    (villain_in - hero_in) / 2
                } else {
                    proof {
                        lemma_floor_negative((hero_in - villain_in) as int, 2);
                    }
                    -((hero_in - villain_in + 1) / 2)
                }
            },
        };
        self.finish(profit)
    }

    fn node_snapshot(&self) -> (r: NodeSnapshot)
        requires
            self.state.board_revealed <= 5,
        ensures
            r.street == self.state.street,
            r.pot_mbb == self.state.pot_mbb,
            r.effective_stack_mbb == self.state.effective_stack_mbb,
            r.board@.len() == self.state.board_revealed,
            texts(r.board@) == notations(self.board@.subrange(0, self.state.board_revealed as int)),
            r.hero_cards@.len() == 2,
            texts(r.hero_cards@) == notations(self.hero@),
            r.rival_cards_known == self.completed,
            menu_view(r.action_options@) == self.menu(),
    {
        let mut board: Vec<String> = Vec::new();
        let mut i: usize = 0;
        while i < self.state.board_revealed
            invariant
                i <= self.state.board_revealed <= 5,
                board@.len() == i,
                forall|k: int| 0 <= k < i ==> (#[trigger] board@[k])@ == card_notation(self.board@[k]),
            decreases self.state.board_revealed - i,
        {
            board.push(self.board[i].notation());
            i = i + 1;
        }
        assert(texts(board@) =~= notations(self.board@.subrange(0, self.state.board_revealed as int)));
        let hero_cards = vec![self.hero[0].notation(), self.hero[1].notation()];
        assert(texts(hero_cards@) =~= notations(self.hero@));
        NodeSnapshot {
            street: self.state.street,
            pot_mbb: self.state.pot_mbb,
            effective_stack_mbb: self.state.effective_stack_mbb,
            board,
            hero_cards,
            rival_cards_known: self.completed,
            action_options: copy_options(&self.options),
        }
    }

    fn visible_board(&self) -> (r: Vec<Card>)
        requires
            self.state.board_revealed <= 5,
        ensures
            r@ == self.board@.subrange(0, self.state.board_revealed as int),
    {
        let mut r: Vec<Card> = Vec::new();
        let mut i: usize = 0;
        while i < self.state.board_revealed
            invariant
                i <= self.state.board_revealed <= 5,
                r@ == self.board@.subrange(0, i as int),
            decreases self.state.board_revealed - i,
        {
            r.push(self.board[i]);
            i = i + 1;
            assert(r@ =~= self.board@.subrange(0, i as int));
        }
        r
    }

    fn advance_street(&mut self, target: Street)
        requires
            old(self).state.hero_invested_mbb <= MAX_STACK_MBB,
            old(self).state.villain_invested_mbb <= MAX_STACK_MBB,
        ensures
            final(self).hero == old(self).hero,
            final(self).villain == old(self).villain,
            final(self).board == old(self).board,
            final(self).state.consistent(),
            final(self).state.street == target,
            final(self).state.hero_invested_mbb == old(self).state.hero_invested_mbb,
            final(self).state.villain_invested_mbb == old(self).state.villain_invested_mbb,
            final(self).open_size == old(self).open_size,
            final(self).raise_size == old(self).raise_size,
            final(self).total_best_ev == old(self).total_best_ev,
            final(self).total_chosen_ev == old(self).total_chosen_ev,
            final(self).completed == old(self).completed,
    {
        self.state.street = target;
        self.state.board_revealed = match target {
            Street::Preflop => 0,
            Street::Flop => 3,
            Street::Turn => 4,
            _ => 5,
        };
        self.refresh_state();
    }

    fn refresh_state(&mut self)
        requires
            old(self).state.hero_invested_mbb <= MAX_STACK_MBB,
            old(self).state.villain_invested_mbb <= MAX_STACK_MBB,
        ensures
            final(self).hero == old(self).hero,
            final(self).villain == old(self).villain,
            final(self).board == old(self).board,
            final(self).state.pot_mbb == final(self).state.hero_invested_mbb
                + final(self).state.villain_invested_mbb,
            final(self).state.effective_stack_mbb == effective_stack_spec(
                final(self).state.hero_invested_mbb as int,
                final(self).state.villain_invested_mbb as int,
            ),
            final(self).state.street == old(self).state.street,
            final(self).state.board_revealed == old(self).state.board_revealed,
            final(self).state.hero_invested_mbb == old(self).state.hero_invested_mbb,
            final(self).state.villain_invested_mbb == old(self).state.villain_invested_mbb,
            final(self).open_size == old(self).open_size,
            final(self).raise_size == old(self).raise_size,
            final(self).total_best_ev == old(self).total_best_ev,
            final(self).total_chosen_ev == old(self).total_chosen_ev,
            final(self).completed == old(self).completed,
    {
        self.state.pot_mbb = self.state.hero_invested_mbb + self.state.villain_invested_mbb;
        self.state.effective_stack_mbb = effective_stack(
            self.state.hero_invested_mbb,
            self.state.villain_invested_mbb,
        );
    }

    /// The expected value given up so far against the best choices, never negative.
    fn current_ev_loss(&self) -> (r: u64)
        requires
            -EV_LIMIT * 4 <= self.total_chosen_ev <= self.total_best_ev <= EV_LIMIT * 4,
        ensures
            r == self.total_best_ev - self.total_chosen_ev,
            r <= HAND_LOSS_LIMIT,
    {
        (self.total_best_ev - self.total_chosen_ev) as u64
    }

    fn finish(&mut self, profit_mbb: i64) -> (p: HandProgress)
        requires
            -EV_LIMIT * 4 <= old(self).total_chosen_ev <= old(self).total_best_ev <= EV_LIMIT * 4,
            -(MAX_STACK_MBB as int) <= profit_mbb <= MAX_STACK_MBB,
        ensures
            final(self).hero == old(self).hero,
            final(self).villain == old(self).villain,
            final(self).board == old(self).board,
            p matches HandProgress::Completed(res) ==> res.profit_mbb == profit_mbb
                && res.ev_loss_mbb <= HAND_LOSS_LIMIT && res.ev_loss_mbb == old(self).total_best_ev
                - old(self).total_chosen_ev,
            p is Completed,
            final(self).completed,
            final(self).state.street == Street::Terminal,
            final(self).state.hero_invested_mbb == old(self).state.hero_invested_mbb,
            final(self).state.villain_invested_mbb == old(self).state.villain_invested_mbb,
            final(self).state.pot_mbb == old(self).state.pot_mbb,
            final(self).state.effective_stack_mbb == old(self).state.effective_stack_mbb,
            final(self).state.board_revealed == old(self).state.board_revealed,
            final(self).open_size == old(self).open_size,
            final(self).raise_size == old(self).raise_size,
            final(self).total_best_ev == old(self).total_best_ev,
            final(self).total_chosen_ev == old(self).total_chosen_ev,
    {
        self.completed = true;
        self.state.street = Street::Terminal;
        HandProgress::Completed(HandResult { profit_mbb, ev_loss_mbb: self.current_ev_loss() })
    }
}

impl Session {
    /// The session's invariant. A hand in play is within the hand count,
    /// holds nine distinct cards, and is live: its pot is the sum of both
    /// players' investments, its effective stack the smaller remainder, its
    /// board shows the street's cards, and its menu is the street's menu for
    /// some estimated equity, with the largest value recorded. The totals stay
    /// within what the hands played can reach.
    pub closed spec fn wf(&self) -> bool {
        &&& self.profile.wf()
        &&& self.current_hand matches Some(h) ==> h.live() && h.menu_estimated(self.profile, self.config.mc_samples)
            && h.dealt().no_duplicates() && (self.summary.hands_played as int) < self.hands_limit()
        &&& self.summary.hands_played <= self.hands_limit()
        &&& self.current_hand is None ==> self.summary.hands_played == self.hands_limit()
        &&& self.summary.total_ev_loss_mbb <= self.summary.hands_played * HAND_LOSS_LIMIT
        &&& -(self.summary.hands_played * MAX_STACK_MBB) <= self.summary.total_profit_mbb
            <= self.summary.hands_played * MAX_STACK_MBB
    }

    /// The number of hands the session plays: the configured count, at least one.
    pub closed spec fn hands_limit(&self) -> int {
        if self.config.hands < 1 {
            1
        } else {
            self.config.hands as int
        }
    }

    pub closed spec fn hands_played(&self) -> int {
        self.summary.hands_played as int
    }

    pub closed spec fn summary_view(&self) -> SessionSummary {
        self.summary
    }

    pub closed spec fn id_view(&self) -> Uuid {
        self.id
    }

    /// No hand is left to play.
    pub closed spec fn is_finished(&self) -> bool {
        self.current_hand is None
    }

    /// The street of the hand in play; `Terminal` once the session is over.
    pub closed spec fn street(&self) -> Street {
        match self.current_hand {
            Some(h) => h.state.street,
            None => Street::Terminal,
        }
    }

    pub closed spec fn pot(&self) -> u64 {
        match self.current_hand {
            Some(h) => h.state.pot_mbb,
            None => 0,
        }
    }

    pub closed spec fn effective(&self) -> u64 {
        match self.current_hand {
            Some(h) => h.state.effective_stack_mbb,
            None => 0,
        }
    }

    /// The face-up board cards of the hand in play.
    pub closed spec fn board_cards(&self) -> Seq<Card> {
        match self.current_hand {
            Some(h) => h.board@.subrange(0, h.state.board_revealed as int),
            None => seq![],
        }
    }

    pub closed spec fn hero_cards(&self) -> Seq<Card> {
        match self.current_hand {
            Some(h) => h.hero@,
            None => seq![],
        }
    }

    /// The action menu of the hand in play.
    pub closed spec fn menu(&self) -> Seq<OptionView> {
        match self.current_hand {
            Some(h) => h.menu(),
            None => seq![],
        }
    }

    /// The largest value on the current menu.
    pub closed spec fn best_value(&self) -> int {
        match self.current_hand {
            Some(h) => h.current_best_ev as int,
            None => 0,
        }
    }

    /// What each player has put into the hand in play.
    pub closed spec fn hero_invested(&self) -> int {
        match self.current_hand {
            Some(h) => h.state.hero_invested_mbb as int,
            None => 0,
        }
    }

    pub closed spec fn villain_invested(&self) -> int {
        match self.current_hand {
            Some(h) => h.state.villain_invested_mbb as int,
            None => 0,
        }
    }

    /// The bet offered on the current street.
    pub closed spec fn street_bet(&self) -> int {
        match self.current_hand {
            Some(h) => h.street_bet(),
            None => 0,
        }
    }

    /// The opponent's call of the street's bet, as far as its stack allows.
    pub closed spec fn bet_call(&self) -> int {
        match self.current_hand {
            Some(h) => h.call_of(h.street_bet()),
            None => 0,
        }
    }

    /// What hero would win at showdown once the street's bet is made and called.
    pub closed spec fn payoff_after_called_bet(&self) -> int {
        match self.current_hand {
            Some(h) => h.showdown_payoff_with(
                h.state.hero_invested_mbb + h.street_bet(),
                h.state.villain_invested_mbb + h.call_of(h.street_bet()),
            ),
            None => 0,
        }
    }

    /// What hero would win if the hand in play were settled at showdown now.
    pub closed spec fn showdown_payoff(&self) -> int {
        match self.current_hand {
            Some(h) => h.showdown_payoff(),
            None => 0,
        }
    }

    /// The menu holds `a`.
    pub open spec fn offers(&self, a: HeroAction) -> bool {
        exists|i: int| 0 <= i < self.menu().len() && (#[trigger] self.menu()[i]).action == a
    }

    /// An upper bound on the decisions left in the session.
    pub closed spec fn steps_left(&self) -> nat {
        match self.current_hand {
            Some(h) => ((self.hands_limit() - self.summary.hands_played) * 5 - street_index(
                h.state.street,
            )) as nat,
            None => 0,
        }
    }

    /// The number of samples each equity estimate draws.
    pub closed spec fn samples(&self) -> u32 {
        self.config.mc_samples
    }

    /// The opponent the session plays against.
    pub closed spec fn profile_view(&self) -> RivalProfile {
        self.profile
    }

    /// The best values booked over the decisions already made in the hand in play.
    pub closed spec fn booked_best(&self) -> int {
        match self.current_hand {
            Some(h) => h.total_best_ev as int,
            None => 0,
        }
    }

    /// The chosen values booked over the decisions already made in the hand in play.
    pub closed spec fn booked_chosen(&self) -> int {
        match self.current_hand {
            Some(h) => h.total_chosen_ev as int,
            None => 0,
        }
    }

    /// The preflop menu: fold, call the open (the pot less hero's blind), or
    /// 3-bet to 9bb, valued for an equity the estimate can give for hero's
    /// cards, with the opponent's fold chance read from hero's cards.
    pub open spec fn shows_preflop_menu(&self) -> bool {
        let open = (self.pot() - BIG_BLIND_MBB) as u64;
        &&& self.menu().len() == 3
        &&& self.menu()[0].action == action(HeroActionKind::Fold, None)
        &&& self.menu()[1].action == action(HeroActionKind::Call, Some(open))
        &&& self.menu()[2].action == action(HeroActionKind::Raise, Some(DEFAULT_THREE_BET_MBB))
        &&& exists|e: u64|
            {
                &&& e <= CERTAIN_BP
                &&& possible_equity(self.hero_cards(), None, seq![], self.samples(), e)
                &&& self.menu() == preflop_menu(
                    open,
                    BIG_BLIND_MBB,
                    self.pot(),
                    DEFAULT_THREE_BET_MBB,
                    fold_to_raise_bp(
                        self.profile_view().preflop_fold_to_three_bet as int,
                        strength_hint_bp(self.hero_cards()[0], self.hero_cards()[1]),
                    ) as u64,
                    e,
                )
            }
    }

    /// The postflop menu: check, or bet the street's size, valued for an
    /// equity the estimate can give for hero's cards and the visible board.
    pub open spec fn shows_postflop_menu(&self) -> bool {
        &&& self.menu().len() == 2
        &&& self.menu()[0].action == action(HeroActionKind::Check, None)
        &&& self.menu()[1].action == action(HeroActionKind::Bet, Some(self.street_bet() as u64))
        &&& exists|e: u64|
            {
                &&& e <= CERTAIN_BP
                &&& possible_equity(self.hero_cards(), None, self.board_cards(), self.samples(), e)
                &&& self.menu() == postflop_menu(
                    self.street(),
                    self.pot(),
                    self.effective(),
                    postflop_fold_bp(self.profile_view(), e as int, self.street()) as u64,
                    e,
                )
            }
    }

    /// What every session shows of itself: the hand count, the street and its
    /// board, the pot as the sum of both investments, the effective stack as
    /// the smaller remainder, the street's menu, and the best value on it.
    pub open spec fn observable(&self) -> bool {
        &&& self.hands_limit() >= 1
        &&& 0 <= self.hands_played() <= self.hands_limit()
        &&& self.is_finished() <==> self.hands_played() == self.hands_limit()
        &&& self.is_finished() ==> self.street() == Street::Terminal && self.menu().len() == 0
            && self.booked_best() == 0 && self.booked_chosen() == 0
        &&& !self.is_finished() ==> {
            &&& is_live(self.street())
            &&& self.board_cards().len() == revealed_for(self.street())
            &&& self.hero_cards().len() == 2
            &&& 0 <= self.hero_invested() <= MAX_STACK_MBB
            &&& 0 <= self.villain_invested() <= MAX_STACK_MBB
            &&& self.pot() == self.hero_invested() + self.villain_invested()
            &&& self.effective() == effective_stack_spec(
                self.hero_invested(),
                self.villain_invested(),
            )
            &&& forall|i: int|
                0 <= i < self.menu().len() ==> (#[trigger] self.menu()[i]).ev <= self.best_value()
            &&& exists|i: int|
                0 <= i < self.menu().len() && (#[trigger] self.menu()[i]).ev == self.best_value()
            &&& self.street() == Street::Preflop ==> self.hero_invested() == BIG_BLIND_MBB
                && self.shows_preflop_menu()
            &&& self.street() != Street::Preflop ==> self.shows_postflop_menu()
        }
    }

    /// The session's invariant shows itself.
    pub proof fn lemma_observable_wf(&self)
        requires
            self.wf(),
        ensures
            self.observable(),
    {
        self.lemma_observable();
    }

    proof fn lemma_observable(&self)
        requires
            self.wf(),
        ensures
            self.observable(),
    {
        if let Some(h) = self.current_hand {
            let m = h.menu();
            if h.state.street == Street::Preflop {
                let e = choose|e: u64| h.is_preflop_menu(m, self.profile, self.config.mc_samples, e);
                let open = (self.pot() - BIG_BLIND_MBB) as u64;
                assert(open == h.open_size);
                assert(self.menu() == m);
                assert(self.hero_cards() == h.hero@);
                assert(self.samples() == self.config.mc_samples);
                assert(self.profile_view() == self.profile);
                assert(m == preflop_menu(
                    open,
                    BIG_BLIND_MBB,
                    self.pot(),
                    DEFAULT_THREE_BET_MBB,
                    fold_to_raise_bp(
                        self.profile_view().preflop_fold_to_three_bet as int,
                        strength_hint_bp(self.hero_cards()[0], self.hero_cards()[1]),
                    ) as u64,
                    e,
                ));
                assert(self.shows_preflop_menu());
            } else {
                let e = choose|e: u64| h.is_postflop_menu(m, self.profile, self.config.mc_samples, e);
                assert(self.menu() == m);
                assert(self.hero_cards() == h.hero@);
                assert(self.board_cards() == h.board@.subrange(0, h.state.board_revealed as int));
                assert(self.samples() == self.config.mc_samples);
                assert(self.profile_view() == self.profile);
                assert(self.street_bet() == h.street_bet());
                assert(self.shows_postflop_menu());
            }
        }
    }

    /// What `snapshot` returns for the session `s`.
    pub open spec fn shows(s: Session, r: SessionState) -> bool {
        &&& r.session_id == s.id_view()
        &&& r.summary == s.summary_view()
        &&& r.summary.hands_played == s.hands_played()
        &&& s.is_finished() ==> {
            &&& r.status == SessionStatus::Completed
            &&& r.hand_index == s.hands_played()
            &&& r.node.street == Street::Terminal
            &&& r.node.pot_mbb == 0
            &&& r.node.effective_stack_mbb == 0
            &&& r.node.board@.len() == 0
            &&& r.node.hero_cards@.len() == 0
            &&& r.node.rival_cards_known
            &&& r.node.action_options@.len() == 0
        }
        &&& !s.is_finished() ==> {
            &&& r.status == SessionStatus::AwaitingInput
            &&& r.hand_index == s.hands_played() + 1
            &&& r.node.street == s.street()
            &&& r.node.pot_mbb == s.pot()
            &&& r.node.effective_stack_mbb == s.effective()
            &&& r.node.board@.len() == s.board_cards().len()
            &&& texts(r.node.board@) == notations(s.board_cards())
            &&& r.node.hero_cards@.len() == s.hero_cards().len()
            &&& texts(r.node.hero_cards@) == notations(s.hero_cards())
            &&& !r.node.rival_cards_known
            &&& menu_view(r.node.action_options@) == s.menu()
            &&& s.menu().len() > 0
        }
    }

    /// What applying `a` to the session `pre` leads to, in `post`.
    pub open spec fn action_effect(pre: Session, post: Session, a: HeroAction) -> bool {
        &&& post.hands_limit() == pre.hands_limit()
        &&& post.samples() == pre.samples()
        &&& post.profile_view() == pre.profile_view()
        &&& !pre.offers(a) ==> post == pre
        &&& pre.offers(a) ==> post.steps_left() < pre.steps_left()
        &&& post.hands_played() == pre.hands_played() || post.hands_played() == pre.hands_played()
            + 1
        // The hand goes on: the summary stays, the cards stay, investments only grow.
        &&& post.hands_played() == pre.hands_played() ==> {
            &&& post.summary_view() == pre.summary_view()
            &&& post.is_finished() == pre.is_finished()
            &&& post.hero_cards() == pre.hero_cards()
            &&& post.hero_invested() >= pre.hero_invested()
            &&& post.villain_invested() >= pre.villain_invested()
            &&& post.board_cards().len() >= pre.board_cards().len()
            &&& post.board_cards().subrange(0, pre.board_cards().len() as int) == pre.board_cards()
        }
        // A decision in a hand that goes on is booked: the best value and the chosen one.
        &&& pre.offers(a) && post.hands_played() == pre.hands_played() ==> {
            &&& post.booked_best() == pre.booked_best() + pre.best_value()
            &&& exists|i: int|
                0 <= i < pre.menu().len() && (#[trigger] pre.menu()[i]).action == a
                    && post.booked_chosen() == pre.booked_chosen() + pre.menu()[i].ev
        }
        // A new hand starts with nothing booked.
        &&& post.hands_played() == pre.hands_played() + 1 && !post.is_finished() ==> {
            &&& post.booked_best() == 0
            &&& post.booked_chosen() == 0
        }
        // The hand ends: it books its best values less its chosen values, this decision included.
        &&& post.hands_played() == pre.hands_played() + 1 ==> {
            &&& !post.is_finished() ==> post.street() == Street::Preflop
            &&& exists|i: int|
                0 <= i < pre.menu().len() && (#[trigger] pre.menu()[i]).action == a
                    && post.summary_view().total_ev_loss_mbb == pre.summary_view().total_ev_loss_mbb
                    + pre.booked_best() + pre.best_value() - pre.booked_chosen() - pre.menu()[i].ev
            &&& post.summary_view().total_ev_loss_mbb >= pre.summary_view().total_ev_loss_mbb
        }
        &&& pre.offers(a) && pre.street() == Street::Preflop && a.kind == HeroActionKind::Fold
            ==> {
            &&& post.hands_played() == pre.hands_played() + 1
            &&& post.summary_view().total_profit_mbb == pre.summary_view().total_profit_mbb
                - BIG_BLIND_MBB
            &&& post.summary_view().total_ev_loss_mbb == pre.summary_view().total_ev_loss_mbb
                + pre.best_value() + BIG_BLIND_MBB
        }
        &&& pre.offers(a) && pre.street() == Street::Preflop && a.kind == HeroActionKind::Call
            ==> {
            &&& post.street() == Street::Flop
            &&& post.board_cards().len() == 3
            &&& post.hero_invested() == pre.pot() - BIG_BLIND_MBB
            &&& post.villain_invested() == pre.pot() - BIG_BLIND_MBB
            &&& post.pot() == 2 * (pre.pot() - BIG_BLIND_MBB)
            &&& post.hands_played() == pre.hands_played()
            &&& !post.is_finished()
        }
        &&& pre.offers(a) && pre.street() == Street::Preflop && a.kind == HeroActionKind::Raise
            ==> {
            ||| {
                &&& post.street() == Street::Flop
                &&& post.hero_invested() == DEFAULT_THREE_BET_MBB
                &&& post.villain_invested() == DEFAULT_THREE_BET_MBB
                &&& post.pot() == 2 * DEFAULT_THREE_BET_MBB
                &&& post.hands_played() == pre.hands_played()
            }
            ||| {
                &&& post.hands_played() == pre.hands_played() + 1
                &&& post.summary_view().total_profit_mbb == pre.summary_view().total_profit_mbb
                    + pre.pot() - BIG_BLIND_MBB
            }
        }
        &&& pre.offers(a) && (pre.street() == Street::Flop || pre.street() == Street::Turn)
            && a.kind == HeroActionKind::Check ==> {
            &&& post.street() == next_street(pre.street())
            &&& post.board_cards().len() == revealed_for(next_street(pre.street()))
            &&& post.hero_invested() == pre.hero_invested()
            &&& post.villain_invested() == pre.villain_invested()
            &&& post.pot() == pre.pot()
            &&& post.hands_played() == pre.hands_played()
        }
        &&& pre.offers(a) && (pre.street() == Street::Flop || pre.street() == Street::Turn)
            && a.kind == HeroActionKind::Bet ==> {
            ||| {
                &&& post.hands_played() == pre.hands_played() + 1
                &&& post.summary_view().total_profit_mbb == pre.summary_view().total_profit_mbb
                    + pre.villain_invested()
            }
            ||| {
                &&& post.street() == next_street(pre.street())
                &&& post.hands_played() == pre.hands_played()
                &&& post.hero_invested() == pre.hero_invested() + pre.street_bet()
                &&& post.villain_invested() == pre.villain_invested() + pre.bet_call()
            }
        }
        &&& pre.offers(a) && pre.street() == Street::River ==> post.hands_played()
            == pre.hands_played() + 1
        &&& pre.offers(a) && pre.street() == Street::River && a.kind == HeroActionKind::Bet ==> {
            ||| post.summary_view().total_profit_mbb == pre.summary_view().total_profit_mbb
                + pre.villain_invested()
            ||| post.summary_view().total_profit_mbb == pre.summary_view().total_profit_mbb
                + pre.payoff_after_called_bet()
        }
        &&& pre.offers(a) && pre.street() == Street::River && a.kind == HeroActionKind::Check
            ==> post.summary_view().total_profit_mbb == pre.summary_view().total_profit_mbb
            + pre.showdown_payoff()
    }

    /// Starts a session and deals its first hand.
    pub fn new(config: SessionConfig) -> (s: Session)
        ensures
            s.wf(),
            s.observable(),
            s.samples() == config.mc_samples,
            s.profile_view().is_preset(config.rival_style),
            s.booked_best() == 0,
            s.booked_chosen() == 0,
            s.hands_played() == 0,
            s.hands_limit() == if config.hands < 1 {
                1
            } else {
                config.hands as int
            },
            !s.is_finished(),
            s.street() == Street::Preflop,
            s.board_cards().len() == 0,
            s.pot() == 3000 || s.pot() == 3500 || s.pot() == 4000,
            s.effective() == MAX_STACK_MBB + BIG_BLIND_MBB - s.pot(),
            s.menu().len() == 3,
            s.summary_view() == (SessionSummary {
                hands_played: 0,
                total_ev_loss_mbb: 0,
                total_profit_mbb: 0,
            }),
    {
        let seed = match config.seed {
            Some(seed) => seed,
            None => random_seed(),
        };
        let mut rng = seeded_rng(seed);
        let profile = RivalProfile::resolve(config.rival_style);
        let mut hand = Hand::new(&mut rng);
        hand.compute_options(&mut rng, profile, config.mc_samples);
        let s = Session {
            id: fresh_id(),
            rng,
            config,
            profile,
            current_hand: Some(hand),
            summary: SessionSummary::default(),
        };
        proof {
            s.lemma_observable();
        }
        s
    }

    pub fn id(&self) -> (r: Uuid)
        ensures
            r == self.id_view(),
    {
        self.id
    }

    /// What the presentation layer shows; the session itself is left as it is.
    pub fn snapshot(&mut self) -> (r: SessionState)
        requires
            old(self).wf(),
        ensures
            *final(self) == *old(self),
            old(self).observable(),
            Session::shows(*old(self), r),
    {
        proof {
            self.lemma_observable();
        }
        match &self.current_hand {
            Some(hand) => {
                SessionState {
                    session_id: self.id,
                    hand_index: self.summary.hands_played + 1,
                    node: hand.node_snapshot(),
                    status: SessionStatus::AwaitingInput,
                    summary: self.summary,
                }
            },
            None => {
                SessionState {
                    session_id: self.id,
                    hand_index: self.summary.hands_played,
                    node: NodeSnapshot {
                        street: Street::Terminal,
                        pot_mbb: 0,
                        effective_stack_mbb: 0,
                        board: Vec::new(),
                        hero_cards: Vec::new(),
                        rival_cards_known: true,
                        action_options: Vec::new(),
                    },
                    status: SessionStatus::Completed,
                    summary: self.summary,
                }
            },
        }
    }

    /// Applies an action from the current menu; an action the menu does not
    /// hold changes nothing. A finished hand is booked in the summary and the
    /// next one is dealt while hands remain.
    pub fn apply_action(&mut self, action: &HeroAction)
        requires
            old(self).wf(),
        ensures
            final(self).wf(),
            final(self).observable(),
            Session::action_effect(*old(self), *final(self), *action),
    {
        let mut hand = match self.current_hand.take() {
            Some(hand) => hand,
            None => {
                proof {
                    self.lemma_observable();
                    assert(self.board_cards().subrange(0, self.board_cards().len() as int)
                        =~= self.board_cards());
                }
                return;
            },
        };
        let progress = hand.apply_action(action, &mut self.rng, self.profile, self.config.mc_samples);
        match progress {
            HandProgress::Unchanged => {
                self.current_hand = Some(hand);
            },
            HandProgress::InProgress => {
                hand.compute_options(&mut self.rng, self.profile, self.config.mc_samples);
                self.current_hand = Some(hand);
            },
            HandProgress::Completed(result) => {
                assert(self.summary.hands_played * HAND_LOSS_LIMIT + HAND_LOSS_LIMIT == (
                self.summary.hands_played + 1) * HAND_LOSS_LIMIT) by (nonlinear_arith);
                assert(self.summary.hands_played * MAX_STACK_MBB + MAX_STACK_MBB == (
                self.summary.hands_played + 1) * MAX_STACK_MBB) by (nonlinear_arith);
                assert((self.summary.hands_played + 1) * HAND_LOSS_LIMIT <= 0x1_0000_0000
                    * HAND_LOSS_LIMIT) by (nonlinear_arith)
                    requires
                        self.summary.hands_played < 0xffff_ffff,
                ;
                assert((self.summary.hands_played + 1) * MAX_STACK_MBB <= 0x1_0000_0000
                    * MAX_STACK_MBB) by (nonlinear_arith)
                    requires
                        self.summary.hands_played < 0xffff_ffff,
                ;
                self.summary.hands_played = self.summary.hands_played + 1;
                self.summary.total_ev_loss_mbb = self.summary.total_ev_loss_mbb
                    + result.ev_loss_mbb;
                self.summary.total_profit_mbb = self.summary.total_profit_mbb + result.profit_mbb;
                if self.summary.hands_played < self.config.hands {
                    let mut next_hand = Hand::new(&mut self.rng);
                    next_hand.compute_options(&mut self.rng, self.profile, self.config.mc_samples);
                    self.current_hand = Some(next_hand);
                }
            },
        }
        proof {
            self.lemma_observable();
            let pb = old(self).board_cards();
            let qb = self.board_cards();
            if self.hands_played() == old(self).hands_played() {
                assert(pb.len() <= qb.len());
                assert(qb.subrange(0, pb.len() as int) =~= pb);
            }
        }
    }
}

} // verus!
