//! Streets, hero actions and the menu entries shown at a decision point.
//! Amounts are in thousandths of a big blind (mbb).
use vstd::prelude::*;

verus! {

/// A betting round, then the two absorbing ends of a hand.
#[derive(Debug, Clone, Copy, PartialEq, Eq, Structural)]
pub enum Street {
    Preflop,
    Flop,
    Turn,
    River,
    Showdown,
    Terminal,
}

#[derive(Debug, Clone, Copy, PartialEq, Eq, Structural)]
pub enum HeroActionKind {
    Fold,
    Call,
    Check,
    Bet,
    Raise,
}

/// An action and its size, if it has one; equal when kind and size are.
#[derive(Debug, Clone, Copy, PartialEq, Eq, Structural)]
pub struct HeroAction {
    pub kind: HeroActionKind,
    pub size_mbb: Option<u64>,
}

/// One entry of the action menu: the action, its expected value and a description.
#[derive(Debug, Clone, PartialEq, Eq)]
pub struct ActionOption {
    pub action: HeroAction,
    pub ev_delta_mbb: i64,
    pub description: String,
}

/// What the presentation layer is shown of a decision point.
#[derive(Debug, Clone, PartialEq, Eq)]
pub struct NodeSnapshot {
    pub street: Street,
    pub pot_mbb: u64,
    pub effective_stack_mbb: u64,
    pub board: Vec<String>,
    pub hero_cards: Vec<String>,
    pub rival_cards_known: bool,
    pub action_options: Vec<ActionOption>,
}

/// A menu entry as plain values: action, expected value, description.
pub struct OptionView {
    pub action: HeroAction,
    pub ev: int,
    pub text: Seq<char>,
}

pub open spec fn option_view(o: ActionOption) -> OptionView {
    OptionView { action: o.action, ev: o.ev_delta_mbb as int, text: o.description@ }
}

/// The plain values of a menu.
pub open spec fn menu_view(options: Seq<ActionOption>) -> Seq<OptionView> {
    options.map_values(|o: ActionOption| option_view(o))
}

/// A copy of a menu entry.
pub fn copy_option(o: &ActionOption) -> (r: ActionOption)
    ensures
        option_view(r) == option_view(*o),
{
    ActionOption { action: o.action, ev_delta_mbb: o.ev_delta_mbb, description: o.description.clone() }
}

/// A copy of a menu.
pub fn copy_options(options: &Vec<ActionOption>) -> (r: Vec<ActionOption>)
    ensures
        menu_view(r@) == menu_view(options@),
{
    let mut r: Vec<ActionOption> = Vec::new();
    let mut i: usize = 0;
    while i < options.len()
        invariant
            i <= options@.len(),
            r@.len() == i,
            forall|k: int| 0 <= k < i ==> option_view(#[trigger] r@[k]) == option_view(options@[k]),
        decreases options@.len() - i,
    {
        r.push(copy_option(&options[i]));
        i = i + 1;
    }
    assert(menu_view(r@) =~= menu_view(options@));
    r
}

} // verus!
