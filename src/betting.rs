//! The betting arithmetic: stacks, bet sizes, fold probabilities, the expected
//! value of each action and the menus built from them. Amounts are in mbb
//! (a thousandth of a big blind); equities and probabilities in basis points.
use vstd::prelude::*;

use crate::game::{menu_view, ActionOption, HeroAction, HeroActionKind, OptionView, Street};
use crate::rival::{clamp, RivalProfile, CERTAIN_BP};
use crate::text::{decimal_text, fixed1, push_decimal, push_fixed1, rounded};

verus! {

/// The starting stack of each player: 100 big blinds.
pub const MAX_STACK_MBB: u64 = 100_000;

/// The smallest postflop bet: half a big blind.
pub const MIN_BET_MBB: u64 = 500;

/// No menu entry's expected value is larger than this in size.
pub const EV_LIMIT: i64 = 1_000_000;

pub open spec fn min(a: int, b: int) -> int {
    if a <= b {
        a
    } else {
        b
    }
}

pub open spec fn max(a: int, b: int) -> int {
    if a >= b {
        a
    } else {
        b
    }
}

/// The smaller of what each player has left behind, never below zero.
pub open spec fn effective_stack_spec(hero_invested: int, villain_invested: int) -> int {
    min(max(MAX_STACK_MBB - hero_invested, 0), max(MAX_STACK_MBB - villain_invested, 0))
}

/// Expected value of calling the open: win the doubled open with the equity,
/// lose the call cost otherwise.
pub open spec fn call_ev(equity: int, open: int, hero_invested: int) -> int {
    let cost = max(open - hero_invested, 0);
    (equity * (2 * open) - (CERTAIN_BP - equity) * cost) / 10000
}

/// Expected value of a 3-bet: the pot when the opponent folds, otherwise the
/// showdown value of the raised pot against the raise cost.
pub open spec fn raise_ev(equity: int, fold: int, pot: int, raise_to: int, hero_invested: int) -> int {
    let cost = max(raise_to - hero_invested, 0);
    (fold * pot * 10000 + (CERTAIN_BP - fold) * (equity * (2 * raise_to) - (CERTAIN_BP - equity)
        * cost)) / 100_000_000
}

/// Expected value of checking: the share of the pot that the equity is worth,
/// `(2 * equity - 1) * pot`.
pub open spec fn check_ev(equity: int, pot: int) -> int {
    ((2 * equity - 10000) * pot) / 10000
}

/// Expected value of a bet: the pot when the opponent folds, otherwise the
/// showdown value of the pot plus both bets against the bet.
pub open spec fn bet_ev(equity: int, fold: int, pot: int, bet: int) -> int {
    (fold * pot * 10000 + (CERTAIN_BP - fold) * (equity * (pot + 2 * bet) - (CERTAIN_BP - equity)
        * bet)) / 100_000_000
}

/// The bet size as a percentage of the pot on each street.
pub open spec fn bet_percent(street: Street) -> int {
    match street {
        Street::Turn => 60,
        Street::River => 75,
        _ => 50,
    }
}

/// The bet: the street's share of the pot, at least half a big blind, at most
/// the effective stack.
pub open spec fn bet_size_spec(pot: int, street: Street, effective: int) -> int {
    min(max(pot * bet_percent(street) / 100, MIN_BET_MBB as int), effective)
}

/// The opponent's fold baseline on a street, and the tendency that moves it.
pub open spec fn street_baseline(profile: RivalProfile, street: Street) -> (int, int) {
    match street {
        Street::Flop => (4000, profile.flop_continuation_bet as int),
        Street::Turn => (3500, profile.turn_barrel_frequency as int),
        Street::River => (3000, profile.river_probe_frequency as int),
        _ => (4500, 5000),
    }
}

/// The chance that the opponent folds to a postflop bet: the street baseline
/// moved by `(5000 - tendency) * 0.3` and `(5000 - equity) * 0.35`, held to 500..=9000.
pub open spec fn postflop_fold_bp(profile: RivalProfile, equity: int, street: Street) -> int {
    let (base, metric) = street_baseline(profile, street);
    clamp((100 * base + 30 * (5000 - metric) + 35 * (5000 - equity)) / 100, 500, 9000)
}

pub open spec fn call_text(open: int, equity: int) -> Seq<char> {
    "Flat call "@ + fixed1(open as nat, 1000) + "bb open (equity "@ + fixed1(equity as nat, 100)
        + "%)"@
}

pub open spec fn raise_text(raise_to: int, fold: int) -> Seq<char> {
    "3-bet to "@ + fixed1(raise_to as nat, 1000) + "bb (fold equity "@ + decimal_text(
        rounded(fold as nat, 100),
    ) + "%)"@
}

pub open spec fn check_text(equity: int) -> Seq<char> {
    "Check and realise equity ("@ + fixed1(equity as nat, 100) + "% share)"@
}

pub open spec fn bet_text(bet: int, fold: int) -> Seq<char> {
    "Bet "@ + fixed1(bet as nat, 1000) + "bb ("@ + decimal_text(rounded(fold as nat, 100))
        + "% fold equity)"@
}

pub open spec fn action(kind: HeroActionKind, size: Option<u64>) -> HeroAction {
    HeroAction { kind, size_mbb: size }
}

/// The preflop menu: fold, call the open, or 3-bet.
pub open spec fn preflop_menu(
    open: u64,
    hero_invested: u64,
    pot: u64,
    raise_to: u64,
    fold: u64,
    equity: u64,
) -> Seq<OptionView> {
    seq![
        OptionView {
            action: action(HeroActionKind::Fold, None),
            ev: -hero_invested,
            text: "Fold and surrender the blind"@,
        },
        OptionView {
            action: action(HeroActionKind::Call, Some(open)),
            ev: call_ev(equity as int, open as int, hero_invested as int),
            text: call_text(open as int, equity as int),
        },
        OptionView {
            action: action(HeroActionKind::Raise, Some(raise_to)),
            ev: raise_ev(equity as int, fold as int, pot as int, raise_to as int, hero_invested as int),
            text: raise_text(raise_to as int, fold as int),
        },
    ]
}

/// The postflop menu: check, or bet the street's size.
pub open spec fn postflop_menu(street: Street, pot: u64, effective: u64, fold: u64, equity: u64) -> Seq<
    OptionView,
> {
    let bet = bet_size_spec(pot as int, street, effective as int);
    seq![
        OptionView {
            action: action(HeroActionKind::Check, None),
            ev: check_ev(equity as int, pot as int),
            text: check_text(equity as int),
        },
        OptionView {
            action: action(HeroActionKind::Bet, Some(bet as u64)),
            ev: bet_ev(equity as int, fold as int, pot as int, bet),
            text: bet_text(bet, fold as int),
        },
    ]
}

/// Every entry's expected value lies within the limit.
pub open spec fn evs_bounded(menu: Seq<OptionView>) -> bool {
    forall|i: int| 0 <= i < menu.len() ==> -EV_LIMIT <= (#[trigger] menu[i]).ev <= EV_LIMIT
}

pub(crate) proof fn lemma_floor_negative(m: int, d: int)
    requires
        m >= 0,
        d > 0,
    ensures
        (-m) / d == -((m + d - 1) / d),
{
    let q = (m + d - 1) / d;
    let r = (m + d - 1) % d;
    vstd::arithmetic::div_mod::lemma_fundamental_div_mod(m + d - 1, d);
    assert(m + d - 1 == d * q + r);
    assert(0 <= r < d);
    assert(-m == (-q) * d + (d - 1 - r)) by (nonlinear_arith)
        requires
            m + d - 1 == d * q + r,
    ;
    vstd::arithmetic::div_mod::lemma_fundamental_div_mod_converse(-m, d, -q, d - 1 - r);
}

proof fn lemma_div_within(n: int, d: int, k: int)
    requires
        d > 0,
        k >= 0,
        -k * d <= n <= k * d,
    ensures
        -k <= n / d <= k,
{
    vstd::arithmetic::div_mod::lemma_div_is_ordered(n, k * d, d);
    vstd::arithmetic::div_mod::lemma_div_is_ordered(-k * d, n, d);
    vstd::arithmetic::div_mod::lemma_div_by_multiple(k, d);
    assert(-k * d == (-k) * d + 0) by (nonlinear_arith);
    vstd::arithmetic::div_mod::lemma_fundamental_div_mod_converse(-k * d, d, -k, 0);
}

/// `num / den`, rounded down.
fn floor_div(num: i64, den: i64) -> (r: i64)
    requires
        den > 0,
        -0x4000_0000_0000_0000 <= num <= 0x4000_0000_0000_0000,
    ensures
        r == num as int / den as int,
{
    if num >= 0 {
        ((num as u64) / (den as u64)) as i64
    } else {
        let m: u64 = (-num) as u64;
        let q: u64 = (m + (den as u64) - 1) / (den as u64);
        proof {
            lemma_floor_negative(m as int, den as int);
            vstd::arithmetic::div_mod::lemma_fundamental_div_mod((m + den - 1) as int, den as int);
            let qq = (m + den - 1) as int / den as int;
            let rr = (m + den - 1) as int % den as int;
            assert(qq <= m) by (nonlinear_arith)
                requires
                    m + den - 1 == den * qq + rr,
                    0 <= rr,
                    den >= 1,
                    m >= 1,
                    qq >= 0,
            ;
        }
        -(q as i64)
    }
}

/// What each player can still put in: the smaller remaining stack.
pub fn effective_stack(hero_invested: u64, villain_invested: u64) -> (r: u64)
    ensures
        r == effective_stack_spec(hero_invested as int, villain_invested as int),
{
    let hero_remaining = if hero_invested < MAX_STACK_MBB {
        MAX_STACK_MBB - hero_invested
    } else {
        0
    };
    let villain_remaining = if villain_invested < MAX_STACK_MBB {
        MAX_STACK_MBB - villain_invested
    } else {
        0
    };
    if hero_remaining <= villain_remaining {
        hero_remaining
    } else {
        villain_remaining
    }
}

/// The chance that the opponent folds to a bet on `street`.
pub fn fold_probability(profile: &RivalProfile, equity: u64, street: Street) -> (r: u64)
    requires
        profile.wf(),
        equity <= CERTAIN_BP,
    ensures
        r == postflop_fold_bp(*profile, equity as int, street),
        500 <= r <= 9000,
{
    let (base, metric): (u64, u64) = match street {
        Street::Flop => (4000, profile.continuation_bet_flop()),
        Street::Turn => (3500, profile.barrel_turn()),
        Street::River => (3000, profile.probe_river()),
        _ => (4500, 5000),
    };
    let up: u64 = 100 * base + 30 * 5000 + 35 * 5000;
    let down: u64 = 30 * metric + 35 * equity;
    if up < down + 50000 {
        500
    } else {
        let raw = (up - down) / 100;
        if raw > 9000 {
            9000
        } else {
            raw
        }
    }
}

/// The bet offered on `street`.
pub fn bet_size(pot: u64, street: Street, effective: u64) -> (r: u64)
    requires
        pot <= 2 * MAX_STACK_MBB,
    ensures
        r == bet_size_spec(pot as int, street, effective as int),
        r <= effective,
{
    let percent: u64 = match street {
        Street::Turn => 60,
        Street::River => 75,
        _ => 50,
    };
    let share = pot * percent / 100;
    let floored = if share < MIN_BET_MBB {
        MIN_BET_MBB
    } else {
        share
    };
    if floored <= effective {
        floored
    } else {
        effective
    }
}

fn call_value(equity: u64, open: u64, hero_invested: u64) -> (r: i64)
    requires
        equity <= CERTAIN_BP,
        open <= MAX_STACK_MBB,
    ensures
        r == call_ev(equity as int, open as int, hero_invested as int),
        -EV_LIMIT <= r <= EV_LIMIT,
{
    let cost: u64 = if open > hero_invested {
        open - hero_invested
    } else {
        0
    };
    assert(equity * (2 * open) <= 10000 * 200000) by (nonlinear_arith)
        requires
            equity <= 10000,
            open <= 100000,
    ;
    assert((10000 - equity) * cost <= 10000 * 100000) by (nonlinear_arith)
        requires
            equity <= 10000,
            cost <= 100000,
    ;
    let num: i64 = (equity * (2 * open)) as i64 - ((CERTAIN_BP - equity) * cost) as i64;
    proof {
        lemma_div_within(num as int, 10000, EV_LIMIT as int);
    }
    floor_div(num, 10000)
}

fn raise_value(equity: u64, fold: u64, pot: u64, raise_to: u64, hero_invested: u64) -> (r: i64)
    requires
        equity <= CERTAIN_BP,
        fold <= CERTAIN_BP,
        pot <= 2 * MAX_STACK_MBB,
        raise_to <= MAX_STACK_MBB,
    ensures
        r == raise_ev(equity as int, fold as int, pot as int, raise_to as int, hero_invested as int),
        -EV_LIMIT <= r <= EV_LIMIT,
{
    let cost: u64 = if raise_to > hero_invested {
        raise_to - hero_invested
    } else {
        0
    };
    assert(equity * (2 * raise_to) <= 10000 * 200000) by (nonlinear_arith)
        requires
            equity <= 10000,
            raise_to <= 100000,
    ;
    assert((10000 - equity) * cost <= 10000 * 100000) by (nonlinear_arith)
        requires
            equity <= 10000,
            cost <= 100000,
    ;
    let inner: i64 = (equity * (2 * raise_to)) as i64 - ((CERTAIN_BP - equity) * cost) as i64;
    assert(fold * pot * 10000 <= 10000 * 200000 * 10000) by (nonlinear_arith)
        requires
            fold <= 10000,
            pot <= 200000,
    ;
    assert(-(10000 * 1_000_000_000) <= (10000 - fold) * inner <= 10000 * 2_000_000_000)
        by (nonlinear_arith)
        requires
            fold <= 10000,
            -1_000_000_000 <= inner <= 2_000_000_000,
    ;
    let num: i64 = (fold * pot * 10000) as i64 + ((CERTAIN_BP - fold) as i64) * inner;
    proof {
        lemma_div_within(num as int, 100_000_000, EV_LIMIT as int);
    }
    floor_div(num, 100_000_000)
}

fn check_value(equity: u64, pot: u64) -> (r: i64)
    requires
        equity <= CERTAIN_BP,
        pot <= 2 * MAX_STACK_MBB,
    ensures
        r == check_ev(equity as int, pot as int),
        -EV_LIMIT <= r <= EV_LIMIT,
{
    let share: i64 = 2 * (equity as i64) - 10000;
    assert(-(10000 * 200000) <= share * pot <= 10000 * 200000) by (nonlinear_arith)
        requires
            -10000 <= share <= 10000,
            0 <= pot <= 200000,
    ;
    let num: i64 = share * (pot as i64);
    proof {
        lemma_div_within(num as int, 10000, EV_LIMIT as int);
    }
    floor_div(num, 10000)
}

fn bet_value(equity: u64, fold: u64, pot: u64, bet: u64) -> (r: i64)
    requires
        equity <= CERTAIN_BP,
        fold <= CERTAIN_BP,
        pot <= 2 * MAX_STACK_MBB,
        bet <= MAX_STACK_MBB,
    ensures
        r == bet_ev(equity as int, fold as int, pot as int, bet as int),
        -EV_LIMIT <= r <= EV_LIMIT,
{
    assert(equity * (pot + 2 * bet) <= 10000 * 400000) by (nonlinear_arith)
        requires
            equity <= 10000,
            pot + 2 * bet <= 400000,
    ;
    assert((10000 - equity) * bet <= 10000 * 100000) by (nonlinear_arith)
        requires
            equity <= 10000,
            bet <= 100000,
    ;
    let inner: i64 = (equity * (pot + 2 * bet)) as i64 - ((CERTAIN_BP - equity) * bet) as i64;
    assert(fold * pot * 10000 <= 10000 * 200000 * 10000) by (nonlinear_arith)
        requires
            fold <= 10000,
            pot <= 200000,
    ;
    assert(-(10000 * 1_000_000_000) <= (10000 - fold) * inner <= 10000 * 4_000_000_000)
        by (nonlinear_arith)
        requires
            fold <= 10000,
            -1_000_000_000 <= inner <= 4_000_000_000,
    ;
    let num: i64 = (fold * pot * 10000) as i64 + ((CERTAIN_BP - fold) as i64) * inner;
    proof {
        lemma_div_within(num as int, 100_000_000, EV_LIMIT as int);
    }
    floor_div(num, 100_000_000)
}

/// The preflop menu for the given equity and fold chance.
pub fn preflop_options(
    open_mbb: u64,
    hero_invested_mbb: u64,
    pot_mbb: u64,
    raise_to_mbb: u64,
    fold_bp: u64,
    equity_bp: u64,
) -> (r: Vec<ActionOption>)
    requires
        open_mbb <= MAX_STACK_MBB,
        hero_invested_mbb <= MAX_STACK_MBB,
        pot_mbb <= 2 * MAX_STACK_MBB,
        raise_to_mbb <= MAX_STACK_MBB,
        fold_bp <= CERTAIN_BP,
        equity_bp <= CERTAIN_BP,
    ensures
        menu_view(r@) == preflop_menu(
            open_mbb,
            hero_invested_mbb,
            pot_mbb,
            raise_to_mbb,
            fold_bp,
            equity_bp,
        ),
        evs_bounded(menu_view(r@)),
        r@.len() == 3,
{
    let fold = ActionOption {
        action: HeroAction { kind: HeroActionKind::Fold, size_mbb: None },
        ev_delta_mbb: -(hero_invested_mbb as i64),
        description: String::from_str("Fold and surrender the blind"),
    };
    let mut call_text = String::from_str("Flat call ");
    push_fixed1(&mut call_text, open_mbb, 1000);
    call_text.append("bb open (equity ");
    push_fixed1(&mut call_text, equity_bp, 100);
    call_text.append("%)");
    let call = ActionOption {
        action: HeroAction { kind: HeroActionKind::Call, size_mbb: Some(open_mbb) },
        ev_delta_mbb: call_value(equity_bp, open_mbb, hero_invested_mbb),
        description: call_text,
    };
    let mut raise_text = String::from_str("3-bet to ");
    push_fixed1(&mut raise_text, raise_to_mbb, 1000);
    raise_text.append("bb (fold equity ");
    push_decimal(&mut raise_text, (fold_bp + 50) / 100);
    raise_text.append("%)");
    let raise = ActionOption {
        action: HeroAction { kind: HeroActionKind::Raise, size_mbb: Some(raise_to_mbb) },
        ev_delta_mbb: raise_value(equity_bp, fold_bp, pot_mbb, raise_to_mbb, hero_invested_mbb),
        description: raise_text,
    };
    let r = vec![fold, call, raise];
    assert(menu_view(r@) =~= preflop_menu(
        open_mbb,
        hero_invested_mbb,
        pot_mbb,
        raise_to_mbb,
        fold_bp,
        equity_bp,
    ));
    r
}

/// The postflop menu on `street` for the given equity and fold chance.
pub fn postflop_options(
    street: Street,
    pot_mbb: u64,
    effective_stack_mbb: u64,
    fold_bp: u64,
    equity_bp: u64,
) -> (r: Vec<ActionOption>)
    requires
        pot_mbb <= 2 * MAX_STACK_MBB,
        effective_stack_mbb <= MAX_STACK_MBB,
        fold_bp <= CERTAIN_BP,
        equity_bp <= CERTAIN_BP,
    ensures
        menu_view(r@) == postflop_menu(street, pot_mbb, effective_stack_mbb, fold_bp, equity_bp),
        evs_bounded(menu_view(r@)),
        r@.len() == 2,
{
    let mut check_text = String::from_str("Check and realise equity (");
    push_fixed1(&mut check_text, equity_bp, 100);
    check_text.append("% share)");
    let check = ActionOption {
        action: HeroAction { kind: HeroActionKind::Check, size_mbb: None },
        ev_delta_mbb: check_value(equity_bp, pot_mbb),
        description: check_text,
    };
    let bet = bet_size(pot_mbb, street, effective_stack_mbb);
    let mut bet_text = String::from_str("Bet ");
    push_fixed1(&mut bet_text, bet, 1000);
    bet_text.append("bb (");
    push_decimal(&mut bet_text, (fold_bp + 50) / 100);
    bet_text.append("% fold equity)");
    let bet_option = ActionOption {
        action: HeroAction { kind: HeroActionKind::Bet, size_mbb: Some(bet) },
        ev_delta_mbb: bet_value(equity_bp, fold_bp, pot_mbb, bet),
        description: bet_text,
    };
    let r = vec![check, bet_option];
    assert(menu_view(r@) =~= postflop_menu(
        street,
        pot_mbb,
        effective_stack_mbb,
        fold_bp,
        equity_bp,
    ));
    r
}

} // verus!
