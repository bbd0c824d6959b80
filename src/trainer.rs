//! The trainer: a session together with the presentation settings, and an
//! autoplayer that always takes the best-valued action.
use vstd::prelude::*;

use crate::chance::random_seed;
use crate::game::{menu_view, HeroAction};
use crate::rival::RivalStyle;
use crate::session::{Session, SessionConfig, SessionState, SessionStatus, SessionSummary};

verus! {

#[derive(Debug, Clone)]
pub struct TrainerConfig {
    pub hands: u32,
    pub mc_samples: u32,
    pub seed: Option<u64>,
    pub rival_style: RivalStyle,
    pub no_color: bool,
}

impl Default for TrainerConfig {
    fn default() -> (r: TrainerConfig)
        ensures
            r.hands == 1,
            r.mc_samples == 200,
            r.seed is None,
            r.rival_style == RivalStyle::Balanced,
            !r.no_color,
    {
        TrainerConfig {
            hands: 1,
            mc_samples: 200,
            seed: None,
            rival_style: RivalStyle::Balanced,
            no_color: false,
        }
    }
}

/// What a line typed at the prompt asks for.
#[derive(Debug, Clone, Copy, PartialEq, Eq, Structural)]
pub enum Choice {
    Quit,
    Help,
    /// The option at this 1-based position of the menu.
    Pick(usize),
    Invalid,
}

pub open spec fn is_digit(c: char) -> bool {
    '0' <= c <= '9'
}

pub open spec fn digit_value(c: char) -> nat {
    (c as u32 - '0' as u32) as nat
}

/// The number written by a run of decimal digits.
pub open spec fn number_of(s: Seq<char>) -> nat
    decreases s.len(),
{
    if s.len() == 0 {
        0
    } else {
        number_of(s.drop_last()) * 10 + digit_value(s.last())
    }
}

/// A number: one or more decimal digits, after an optional `+`.
pub open spec fn number_digits(s: Seq<char>) -> Seq<char> {
    if s.len() > 0 && s[0] == '+' {
        s.drop_first()
    } else {
        s
    }
}

pub open spec fn is_number(s: Seq<char>) -> bool {
    let d = number_digits(s);
    d.len() > 0 && forall|i: int| 0 <= i < d.len() ==> is_digit(#[trigger] d[i])
}

/// The meaning of a prompt line (already trimmed and lower-cased) with
/// `count` options on the menu.
pub open spec fn choice_of(s: Seq<char>, count: nat) -> Choice {
    if s == seq!['q'] {
        Choice::Quit
    } else if s == seq!['h'] {
        Choice::Help
    } else if is_number(s) && 1 <= number_of(number_digits(s)) <= count {
        Choice::Pick(number_of(number_digits(s)) as usize)
    } else {
        Choice::Invalid
    }
}

proof fn lemma_number_grows(s: Seq<char>, k: int)
    requires
        0 <= k <= s.len(),
        forall|i: int| 0 <= i < s.len() ==> is_digit(#[trigger] s[i]),
    ensures
        number_of(s.subrange(0, k)) <= number_of(s),
    decreases s.len() - k,
{
    if k < s.len() {
        lemma_number_grows(s, k + 1);
        assert(s.subrange(0, k + 1).drop_last() =~= s.subrange(0, k));
    } else {
        assert(s.subrange(0, k) =~= s);
    }
}

/// Reads a prompt line (already trimmed and lower-cased): `q` quits, `h`
/// asks for help, a number from 1 to `count` picks that option.
pub fn read_choice(line: &str, count: usize) -> (r: Choice)
    ensures
        r == choice_of(line@, count as nat),
{
    let n = line.unicode_len();
    if n == 1 && line.get_char(0) == 'q' {
        assert(line@ =~= seq!['q']);
        return Choice::Quit;
    }
    if n == 1 && line.get_char(0) == 'h' {
        assert(line@ =~= seq!['h']);
        return Choice::Help;
    }
    assert(line@ != seq!['q'] && line@ != seq!['h']) by {
        if line@ == seq!['q'] || line@ == seq!['h'] {
            assert(seq!['q'].len() == 1 && seq!['q'][0] == 'q');
            assert(seq!['h'].len() == 1 && seq!['h'][0] == 'h');
        }
    }
    let start: usize = if n > 0 && line.get_char(0) == '+' {
        1
    } else {
        0
    };
    let ghost d = number_digits(line@);
    assert(d =~= line@.subrange(start as int, n as int));
    if start >= n {
        return Choice::Invalid;
    }
    let mut value: usize = 0;
    let mut i: usize = start;
    while i < n
        invariant
            start <= i <= n,
            n == line@.len(),
            d == line@.subrange(start as int, n as int),
            d == number_digits(line@),
            line@ != seq!['q'] && line@ != seq!['h'],
            forall|k: int| 0 <= k < i - start ==> is_digit(#[trigger] d[k]),
            value == number_of(d.subrange(0, i - start)),
            value <= count,
        decreases n - i,
    {
        let c = line.get_char(i);
        if !('0' <= c && c <= '9') {
            assert(d[i - start] == c);
            assert(!is_digit(d[i - start]));
            assert(!is_number(line@));
            return Choice::Invalid;
        }
        let digit = (c as u32 - '0' as u32) as usize;
        assert(d.subrange(0, i - start + 1).drop_last() =~= d.subrange(0, i - start));
        if value > count / 10 || count - value * 10 < digit {
            proof {
                assert(value * 10 + digit > count) by (nonlinear_arith)
                    requires
                        value > count / 10 || (value <= count / 10 && count - value * 10 < digit),
                        digit <= 9,
                ;
                if is_number(line@) {
                    assert(forall|k: int| 0 <= k < d.len() ==> is_digit(#[trigger] d[k]));
                    lemma_number_grows(d, i - start + 1);
                }
            }
            return Choice::Invalid;
        }
        assert(value * 10 <= count) by (nonlinear_arith)
            requires
                value <= count / 10,
        ;
        value = value * 10 + digit;
        i = i + 1;
    }
    assert(d.subrange(0, n - start) =~= d);
    if value == 0 {
        Choice::Invalid
    } else {
        Choice::Pick(value)
    }
}

/// An action together with the expected value it was credited with.
#[derive(Debug, Clone, Copy)]
pub struct ActionChoice {
    pub action: HeroAction,
    pub chosen_ev_mbb: i64,
}

pub struct Trainer {
    config: TrainerConfig,
    session: Session,
}

impl Trainer {
    pub closed spec fn wf(&self) -> bool {
        self.session.wf()
    }

    /// The session being played.
    pub closed spec fn session_view(&self) -> Session {
        self.session
    }

    pub closed spec fn config_view(&self) -> TrainerConfig {
        self.config
    }

    pub fn new(config: TrainerConfig) -> (t: Trainer)
        ensures
            t.wf(),
            t.session_view().hands_played() == 0,
            t.session_view().hands_limit() == if config.hands < 1 {
                1
            } else {
                config.hands as int
            },
            !t.session_view().is_finished(),
            t.session_view().observable(),
            t.session_view().samples() == config.mc_samples,
            t.session_view().booked_best() == 0,
            t.session_view().booked_chosen() == 0,
            t.session_view().summary_view().total_ev_loss_mbb == 0,
            t.config_view() == config,
    {
        let seed = match config.seed {
            Some(seed) => seed,
            None => random_seed(),
        };
        let session_config = SessionConfig {
            hands: config.hands,
            mc_samples: config.mc_samples,
            rival_style: config.rival_style,
            seed: Some(seed),
        };
        let session = Session::new(session_config);
        Trainer { config, session }
    }

    /// Whether output is shown without colours.
    pub fn no_color(&self) -> (r: bool)
        ensures
            r == self.config_view().no_color,
    {
        self.config.no_color
    }

    pub fn session_state(&mut self) -> (r: SessionState)
        requires
            old(self).wf(),
        ensures
            *final(self) == *old(self),
            old(self).session_view().observable(),
            Session::shows(old(self).session_view(), r),
    {
        self.session.snapshot()
    }

    pub fn apply_action(&mut self, action: HeroAction)
        requires
            old(self).wf(),
        ensures
            final(self).wf(),
            final(self).session_view().observable(),
            Session::action_effect(old(self).session_view(), final(self).session_view(), action),
            !old(self).session_view().offers(action) ==> *final(self) == *old(self),
            final(self).config_view() == old(self).config_view(),
    {
        self.session.apply_action(&action);
    }

    pub fn summary(&mut self) -> (r: SessionSummary)
        requires
            old(self).wf(),
        ensures
            *final(self) == *old(self),
            r == old(self).session_view().summary_view(),
    {
        self.session.snapshot().summary
    }

    /// Plays the session to its end, always taking the action with the
    /// highest expected value (the last of equals), and returns the summary.
    pub fn autoplay_best(&mut self) -> (r: Result<SessionSummary, String>)
        requires
            old(self).wf(),
        ensures
            final(self).wf(),
            final(self).session_view().is_finished(),
            r is Ok,
            r matches Ok(s) ==> s == final(self).session_view().summary_view(),
            r matches Ok(s) ==> s.hands_played == old(self).session_view().hands_limit(),
            r matches Ok(s) ==> s.total_ev_loss_mbb == old(
                self,
            ).session_view().summary_view().total_ev_loss_mbb + old(self).session_view().booked_best()
                - old(self).session_view().booked_chosen(),
    {
        let ghost limit = self.session.hands_limit();
        let ghost start = old(self).session_view().summary_view().total_ev_loss_mbb + old(
            self,
        ).session_view().booked_best() - old(self).session_view().booked_chosen();
        proof {
            self.session.lemma_observable_wf();
        }
        loop
            invariant
                self.wf(),
                self.session.observable(),
                self.session.hands_limit() == limit,
                limit == old(self).session_view().hands_limit(),
                self.session.summary_view().total_ev_loss_mbb + self.session.booked_best()
                    - self.session.booked_chosen() == start,
                start == old(self).session_view().summary_view().total_ev_loss_mbb + old(
                    self,
                ).session_view().booked_best() - old(self).session_view().booked_chosen(),
            decreases self.session.steps_left(),
        {
            let snapshot = self.session.snapshot();
            if matches!(snapshot.status, SessionStatus::Completed) {
                return Ok(snapshot.summary);
            }
            let options = &snapshot.node.action_options;
            let ghost m = menu_view(options@);
            let mut best: usize = 0;
            let mut i: usize = 1;
            while i < options.len()
                invariant
                    1 <= i <= options@.len(),
                    options@.len() > 0,
                    best < options@.len(),
                    m == menu_view(options@),
                    forall|k: int| 0 <= k < i ==> (#[trigger] m[k]).ev <= m[best as int].ev,
                decreases options@.len() - i,
            {
                if options[i].ev_delta_mbb >= options[best].ev_delta_mbb {
                    best = i;
                }
                i = i + 1;
            }
            let action = options[best].action;
            assert(m[best as int].action == action);
            assert(m[best as int].ev == self.session.best_value());
            self.session.apply_action(&action);
        }
    }
}

} // verus!
