use gto_trainer::game::HeroActionKind;
use gto_trainer::rival::RivalStyle;
use gto_trainer::session::SessionStatus;
use gto_trainer::trainer::{read_choice, Choice, Trainer, TrainerConfig};

#[test]
fn autoplay_completes_requested_hands() {
    let config = TrainerConfig {
        hands: 2,
        mc_samples: 100,
        seed: Some(1234),
        rival_style: RivalStyle::Aggressive,
        no_color: true,
    };

    let mut trainer = Trainer::new(config);
    let summary = trainer.autoplay_best().expect("autoplay succeeds");

    assert_eq!(summary.hands_played, 2);
    assert!(summary.total_ev_loss_mbb as i64 >= 0);
}

#[test]
fn best_play_loses_no_expected_value() {
    let mut trainer = Trainer::new(TrainerConfig {
        hands: 3,
        mc_samples: 30,
        seed: Some(5),
        rival_style: RivalStyle::Balanced,
        no_color: true,
    });
    let summary = trainer.autoplay_best().expect("autoplay succeeds");
    assert_eq!(summary.hands_played, 3);
    assert_eq!(summary.total_ev_loss_mbb, 0);
    assert_eq!(trainer.summary(), summary);
    assert_eq!(trainer.session_state().status, SessionStatus::Completed);
}

#[test]
fn folding_costs_the_blind_and_books_the_ev_gap() {
    let mut trainer = Trainer::new(TrainerConfig {
        hands: 1,
        mc_samples: 50,
        seed: Some(21),
        rival_style: RivalStyle::Passive,
        no_color: false,
    });
    assert!(!trainer.no_color());
    let state = trainer.session_state();
    let best = state.node.action_options.iter().map(|o| o.ev_delta_mbb).max().unwrap();
    let fold = state.node.action_options[0].clone();
    assert_eq!(fold.action.kind, HeroActionKind::Fold);
    trainer.apply_action(fold.action);
    let summary = trainer.summary();
    assert_eq!(summary.hands_played, 1);
    assert_eq!(summary.total_profit_mbb, -1000);
    assert_eq!(summary.total_ev_loss_mbb as i64, best - fold.ev_delta_mbb);
    assert_eq!(TrainerConfig::default().mc_samples, 200);
}

#[test]
fn prompt_lines_are_read() {
    assert_eq!(read_choice("q", 3), Choice::Quit);
    assert_eq!(read_choice("h", 3), Choice::Help);
    assert_eq!(read_choice("1", 3), Choice::Pick(1));
    assert_eq!(read_choice("3", 3), Choice::Pick(3));
    assert_eq!(read_choice("+2", 3), Choice::Pick(2));
    assert_eq!(read_choice("002", 3), Choice::Pick(2));
    assert_eq!(read_choice("4", 3), Choice::Invalid);
    assert_eq!(read_choice("0", 3), Choice::Invalid);
    assert_eq!(read_choice("", 3), Choice::Invalid);
    assert_eq!(read_choice("+", 3), Choice::Invalid);
    assert_eq!(read_choice("1a", 3), Choice::Invalid);
    assert_eq!(read_choice("quit", 3), Choice::Invalid);
    assert_eq!(read_choice("99999999999999999999999", 3), Choice::Invalid);
    assert_eq!(read_choice("12", 12), Choice::Pick(12));
}
