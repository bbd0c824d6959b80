use gto_trainer::game::{HeroAction, HeroActionKind, Street};
use gto_trainer::rival::RivalStyle;
use gto_trainer::session::{Session, SessionConfig, SessionStatus};

fn find(session: &mut Session, kind: HeroActionKind) -> HeroAction {
    session
        .snapshot()
        .node
        .action_options
        .iter()
        .find(|opt| opt.action.kind == kind)
        .expect("option")
        .action
}

#[test]
fn folding_ends_session_and_records_summary() {
    let config = SessionConfig {
        hands: 1,
        mc_samples: 100,
        rival_style: RivalStyle::Balanced,
        seed: Some(42),
    };

    let mut session = Session::new(config);
    let initial = session.snapshot();
    assert_eq!(initial.status, SessionStatus::AwaitingInput);
    assert_eq!(initial.hand_index, 1);
    assert!(!initial.node.action_options.is_empty());

    let fold_action = initial
        .node
        .action_options
        .iter()
        .find(|opt| opt.action.kind == HeroActionKind::Fold)
        .expect("fold option available")
        .action
        .clone();

    session.apply_action(&fold_action);
    let after = session.snapshot();
    assert_eq!(after.status, SessionStatus::Completed);
    assert_eq!(after.summary.hands_played, 1);
    assert!(after.summary.total_ev_loss_mbb as i64 >= 0);
}

#[test]
fn calling_preflop_advances_to_flop() {
    let mut session = Session::new(SessionConfig {
        hands: 1,
        mc_samples: 200,
        rival_style: RivalStyle::Balanced,
        seed: Some(2025),
    });

    let pre = session.snapshot();
    assert_eq!(pre.status, SessionStatus::AwaitingInput);
    assert_eq!(pre.node.street, Street::Preflop);

    let call = pre
        .node
        .action_options
        .iter()
        .find(|opt| opt.action.kind == HeroActionKind::Call)
        .expect("call option")
        .action
        .clone();

    session.apply_action(&call);
    let flop = session.snapshot();

    assert_eq!(flop.status, SessionStatus::AwaitingInput);
    assert_eq!(flop.node.street, Street::Flop);
    assert_eq!(flop.node.board.len(), 3);
    assert_eq!(flop.summary.hands_played, 0);
}

#[test]
fn session_rolls_into_next_hand_after_completion() {
    let mut session = Session::new(SessionConfig {
        hands: 2,
        mc_samples: 150,
        rival_style: RivalStyle::Passive,
        seed: Some(11),
    });

    let first = session.snapshot();
    let fold = first
        .node
        .action_options
        .iter()
        .find(|opt| opt.action.kind == HeroActionKind::Fold)
        .expect("fold option")
        .action
        .clone();

    session.apply_action(&fold);
    let second = session.snapshot();

    assert_eq!(second.status, SessionStatus::AwaitingInput);
    assert_eq!(second.summary.hands_played, 1);
    assert_eq!(second.hand_index, 2);
}

#[test]
fn preflop_node_shape() {
    let mut session = Session::new(SessionConfig {
        hands: 1,
        mc_samples: 50,
        rival_style: RivalStyle::Aggressive,
        seed: Some(77),
    });
    let s = session.snapshot();
    assert_eq!(s.node.board.len(), 0);
    assert_eq!(s.node.hero_cards.len(), 2);
    assert!(!s.node.rival_cards_known);
    // hero's blind plus an open of 2, 2.5 or 3 big blinds
    assert!([3000, 3500, 4000].contains(&s.node.pot_mbb));
    let open = s.node.pot_mbb - 1000;
    assert_eq!(s.node.effective_stack_mbb, 100_000 - open);
    let kinds: Vec<HeroActionKind> = s.node.action_options.iter().map(|o| o.action.kind).collect();
    assert_eq!(kinds, vec![HeroActionKind::Fold, HeroActionKind::Call, HeroActionKind::Raise]);
    assert_eq!(s.node.action_options[0].ev_delta_mbb, -1000);
    assert_eq!(s.node.action_options[0].description, "Fold and surrender the blind");
    assert_eq!(s.node.action_options[1].action.size_mbb, Some(open));
    assert_eq!(s.node.action_options[2].action.size_mbb, Some(9000));
}

#[test]
fn absent_action_changes_nothing() {
    let mut session = Session::new(SessionConfig {
        hands: 1,
        mc_samples: 60,
        rival_style: RivalStyle::Balanced,
        seed: Some(4),
    });
    let before = session.snapshot();
    session.apply_action(&HeroAction { kind: HeroActionKind::Bet, size_mbb: Some(1234) });
    session.apply_action(&HeroAction { kind: HeroActionKind::Call, size_mbb: Some(1) });
    let after = session.snapshot();
    assert_eq!(before, after);
}

#[test]
fn checking_through_reaches_showdown_and_completes() {
    let mut session = Session::new(SessionConfig {
        hands: 1,
        mc_samples: 40,
        rival_style: RivalStyle::Passive,
        seed: Some(8),
    });
    let call = find(&mut session, HeroActionKind::Call);
    session.apply_action(&call);
    let flop_pot = session.snapshot().node.pot_mbb;
    assert!([4000, 5000, 6000].contains(&flop_pot));
    for (street, board) in [(Street::Flop, 3), (Street::Turn, 4), (Street::River, 5)] {
        let s = session.snapshot();
        assert_eq!(s.node.street, street);
        assert_eq!(s.node.board.len(), board);
        assert_eq!(s.node.pot_mbb, flop_pot);
        let check = find(&mut session, HeroActionKind::Check);
        session.apply_action(&check);
    }
    let done = session.snapshot();
    assert_eq!(done.status, SessionStatus::Completed);
    assert_eq!(done.summary.hands_played, 1);
    assert_eq!(done.node.street, Street::Terminal);
    assert!(done.node.action_options.is_empty());
    // a check-down risks only the called open
    assert!(done.summary.total_profit_mbb.abs() <= 3000);
}

#[test]
fn zero_hands_still_plays_one() {
    let mut session = Session::new(SessionConfig {
        hands: 0,
        mc_samples: 20,
        rival_style: RivalStyle::Balanced,
        seed: Some(1),
    });
    let fold = find(&mut session, HeroActionKind::Fold);
    session.apply_action(&fold);
    let s = session.snapshot();
    assert_eq!(s.status, SessionStatus::Completed);
    assert_eq!(s.summary.hands_played, 1);
    assert_eq!(s.summary.total_profit_mbb, -1000);
    assert_eq!(s.hand_index, 1);
}

#[test]
fn calling_sets_both_investments_and_a_check_bet_menu() {
    let mut session = Session::new(SessionConfig {
        hands: 1,
        mc_samples: 30,
        rival_style: RivalStyle::Balanced,
        seed: Some(12),
    });
    let pre = session.snapshot();
    let open = pre.node.pot_mbb - 1000;
    let hero_cards = pre.node.hero_cards.clone();
    let call = find(&mut session, HeroActionKind::Call);
    assert_eq!(call.size_mbb, Some(open));
    session.apply_action(&call);
    let flop = session.snapshot();
    assert_eq!(flop.node.pot_mbb, 2 * open);
    assert_eq!(flop.node.effective_stack_mbb, 100_000 - open);
    assert_eq!(flop.node.hero_cards, hero_cards);
    assert_eq!(flop.summary, pre.summary);
    let kinds: Vec<HeroActionKind> = flop.node.action_options.iter().map(|o| o.action.kind).collect();
    assert_eq!(kinds, vec![HeroActionKind::Check, HeroActionKind::Bet]);
}
