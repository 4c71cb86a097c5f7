//! What the player reads and presses: the lines that show score and bet, and
//! the buttons with what a press on each of them asks for.

use crate::command::{Command, Prop, Widget};
use crate::gamba::{Bet, BetChange, BetChangeMessage, BetMessage, Score, Side};
use crate::state::GameState;
use crate::text::{decimal, decimal_string};
use vstd::prelude::*;

verus! {

/// What a button asks for when it is pressed.
#[derive(Clone, Copy, Debug, PartialEq, Eq, Structural)]
pub enum ButtonAction {
    Cake,
    Gamba,
    IncreaseBet,
    DecreaseBet,
    BetLeft,
    BetRight,
}

/// What the presses of one frame ask for: the scene to go to, if any, and
/// the wishes to change the bet and to bet, each in the order of the presses.
#[derive(Clone, Debug, PartialEq, Eq)]
pub struct Pressed {
    pub next_state: Option<GameState>,
    pub bet_changes: Vec<BetChangeMessage>,
    pub bets: Vec<BetMessage>,
}

impl Widget {
    /// The buttons that the widget holds, in reading order.
    pub open spec fn actions(self) -> Seq<ButtonAction> {
        match self {
            Widget::GambaButton => seq![ButtonAction::Gamba],
            Widget::BetPanel => seq![ButtonAction::DecreaseBet, ButtonAction::IncreaseBet],
            Widget::SidePanel => seq![ButtonAction::BetLeft, ButtonAction::BetRight],
            Widget::CakeButton => seq![ButtonAction::Cake],
            _ => seq![],
        }
    }

    /// The buttons that the widget holds, in reading order.
    pub fn buttons(&self) -> (buttons: Vec<ButtonAction>)
        ensures
            buttons@ == self.actions(),
    {
        let mut buttons: Vec<ButtonAction> = Vec::new();
        match self {
            Widget::GambaButton => {
                buttons.push(ButtonAction::Gamba);
            },
            Widget::BetPanel => {
                buttons.push(ButtonAction::DecreaseBet);
                buttons.push(ButtonAction::IncreaseBet);
            },
            Widget::SidePanel => {
                buttons.push(ButtonAction::BetLeft);
                buttons.push(ButtonAction::BetRight);
            },
            Widget::CakeButton => {
                buttons.push(ButtonAction::Cake);
            },
            _ => {},
        }
        assert(buttons@ =~= self.actions());
        buttons
    }
}

/// The interface of the loading screen.
pub open spec fn asset_loading_widgets() -> Seq<Command> {
    seq![Command::Spawn(Prop::Widget(Widget::LoadingNotice))]
}

/// The interface of the cake scene.
pub open spec fn cake_widgets() -> Seq<Command> {
    seq![
        Command::Spawn(Prop::Widget(Widget::Greeting)),
        Command::Spawn(Prop::Widget(Widget::GambaButton)),
    ]
}

/// The interface of the betting game.
pub open spec fn gamba_widgets() -> Seq<Command> {
    seq![
        Command::Spawn(Prop::Widget(Widget::ScorePanel)),
        Command::Spawn(Prop::Widget(Widget::BetPanel)),
        Command::Spawn(Prop::Widget(Widget::SidePanel)),
        Command::Spawn(Prop::Widget(Widget::CakeButton)),
    ]
}

/// Asks for the interface of the loading screen.
pub fn setup_asset_loading() -> (commands: Vec<Command>)
    ensures
        commands@ == asset_loading_widgets(),
{
    let mut commands: Vec<Command> = Vec::new();
    commands.push(Command::Spawn(Prop::Widget(Widget::LoadingNotice)));
    assert(commands@ =~= asset_loading_widgets());
    commands
}

/// Asks for the interface of the cake scene.
pub fn setup_cake() -> (commands: Vec<Command>)
    ensures
        commands@ == cake_widgets(),
{
    let mut commands: Vec<Command> = Vec::new();
    commands.push(Command::Spawn(Prop::Widget(Widget::Greeting)));
    commands.push(Command::Spawn(Prop::Widget(Widget::GambaButton)));
    assert(commands@ =~= cake_widgets());
    commands
}

/// Asks for the interface of the betting game.
pub fn setup_gamba() -> (commands: Vec<Command>)
    ensures
        commands@ == gamba_widgets(),
{
    let mut commands: Vec<Command> = Vec::new();
    commands.push(Command::Spawn(Prop::Widget(Widget::ScorePanel)));
    commands.push(Command::Spawn(Prop::Widget(Widget::BetPanel)));
    commands.push(Command::Spawn(Prop::Widget(Widget::SidePanel)));
    commands.push(Command::Spawn(Prop::Widget(Widget::CakeButton)));
    assert(commands@ =~= gamba_widgets());
    commands
}

/// The line that shows the score: the number, and a remark on one of them.
pub open spec fn score_text(score: u64) -> Seq<char> {
    if score == 69 {
        decimal(score as nat) + ", nice"@
    } else {
        decimal(score as nat)
    }
}

/// The lines that show the score and the bet.
pub fn update_displays(score: &Score, bet: &Bet) -> (lines: (String, String))
    ensures
        lines.0@ == score_text(score.0),
        lines.1@ == decimal(bet.0 as nat),
{
    let mut score_line = decimal_string(score.0);
    if score.0 == 69 {
        score_line.append(", nice");
    }
    (score_line, decimal_string(bet.0))
}

/// The scene that the buttons ask for, if any: that of the last button for a
/// scene that is pressed.
pub open spec fn state_wanted(buttons: Seq<(bool, ButtonAction)>) -> Option<GameState>
    decreases buttons.len(),
{
    if buttons.len() == 0 {
        None
    } else if buttons.last().0 && buttons.last().1 == ButtonAction::Cake {
        Some(GameState::Cake)
    } else if buttons.last().0 && buttons.last().1 == ButtonAction::Gamba {
        Some(GameState::Gamba)
    } else {
        state_wanted(buttons.drop_last())
    }
}

/// The wishes to change the bet that the buttons ask for, one for each
/// button for it that is pressed.
pub open spec fn bet_changes_wanted(buttons: Seq<(bool, ButtonAction)>) -> Seq<BetChangeMessage>
    decreases buttons.len(),
{
    if buttons.len() == 0 {
        seq![]
    } else {
        bet_changes_wanted(buttons.drop_last()) + (if buttons.last().0 && buttons.last().1
            == ButtonAction::IncreaseBet {
            seq![BetChangeMessage(BetChange::Increase)]
        } else if buttons.last().0 && buttons.last().1 == ButtonAction::DecreaseBet {
            seq![BetChangeMessage(BetChange::Decrease)]
        } else {
            seq![]
        })
    }
}

/// The bets that the buttons ask for, one for each button for it that is
/// pressed.
pub open spec fn bets_wanted(buttons: Seq<(bool, ButtonAction)>) -> Seq<BetMessage>
    decreases buttons.len(),
{
    if buttons.len() == 0 {
        seq![]
    } else {
        bets_wanted(buttons.drop_last()) + (if buttons.last().0 && buttons.last().1
            == ButtonAction::BetLeft {
            seq![BetMessage(Side::Left)]
        } else if buttons.last().0 && buttons.last().1 == ButtonAction::BetRight {
            seq![BetMessage(Side::Right)]
        } else {
            seq![]
        })
    }
}

/// Reads the buttons whose state has changed since the last frame. Each is
/// given by whether it is now pressed and by what it asks for. A press counts
/// once, in the frame in which it begins.
pub fn handle_buttons(buttons: &Vec<(bool, ButtonAction)>) -> (pressed: Pressed)
    ensures
        pressed.next_state == state_wanted(buttons@),
        pressed.bet_changes@ == bet_changes_wanted(buttons@),
        pressed.bets@ == bets_wanted(buttons@),
{
    let mut next_state: Option<GameState> = None;
    let mut bet_changes: Vec<BetChangeMessage> = Vec::new();
    let mut bets: Vec<BetMessage> = Vec::new();
    for i in 0..buttons.len()
        invariant
            next_state == state_wanted(buttons@.take(i as int)),
            bet_changes@ == bet_changes_wanted(buttons@.take(i as int)),
            bets@ == bets_wanted(buttons@.take(i as int)),
    {
        assert(buttons@.take(i + 1).drop_last() == buttons@.take(i as int));
        if buttons[i].0 {
            match buttons[i].1 {
                ButtonAction::Cake => {
                    next_state = Some(GameState::Cake);
                },
                ButtonAction::Gamba => {
                    next_state = Some(GameState::Gamba);
                },
                ButtonAction::IncreaseBet => {
                    bet_changes.push(BetChangeMessage(BetChange::Increase));
                },
                ButtonAction::DecreaseBet => {
                    bet_changes.push(BetChangeMessage(BetChange::Decrease));
                },
                ButtonAction::BetLeft => {
                    bets.push(BetMessage(Side::Left));
                },
                ButtonAction::BetRight => {
                    bets.push(BetMessage(Side::Right));
                },
            }
        }
    }
    assert(buttons@.take(buttons.len() as int) == buttons@);
    Pressed { next_state, bet_changes, bets }
}

/// Buttons that are not pressed ask for nothing.
pub proof fn lemma_idle_buttons(buttons: Seq<(bool, ButtonAction)>)
    requires
        forall|i: int| 0 <= i < buttons.len() ==> !(#[trigger] buttons[i]).0,
    ensures
        state_wanted(buttons) is None,
        bet_changes_wanted(buttons) == Seq::<BetChangeMessage>::empty(),
        bets_wanted(buttons) == Seq::<BetMessage>::empty(),
    decreases buttons.len(),
{
    if buttons.len() > 0 {
        assert(!buttons[buttons.len() - 1].0);
        let head = buttons.drop_last();
        assert forall|i: int| 0 <= i < head.len() implies !(#[trigger] head[i]).0 by {
            assert(head[i] == buttons[i]);
        }
        lemma_idle_buttons(head);
    }
}

/// The scene changes only on a press: if the buttons ask for a scene, the
/// button for that scene is among them and is pressed.
pub proof fn lemma_scene_needs_press(buttons: Seq<(bool, ButtonAction)>)
    ensures
        state_wanted(buttons) == Some(GameState::Cake) ==> buttons.contains(
            (true, ButtonAction::Cake),
        ),
        state_wanted(buttons) == Some(GameState::Gamba) ==> buttons.contains(
            (true, ButtonAction::Gamba),
        ),
        state_wanted(buttons) != Some(GameState::AssetLoading),
    decreases buttons.len(),
{
    if buttons.len() > 0 {
        let last = buttons.len() - 1;
        let head = buttons.drop_last();
        let cake = (true, ButtonAction::Cake);
        let gamba = (true, ButtonAction::Gamba);
        lemma_scene_needs_press(head);
        if buttons[last] != cake && buttons[last] != gamba {
            if state_wanted(head) == Some(GameState::Cake) {
                let i = choose|i: int| 0 <= i < head.len() && head[i] == cake;
                assert(buttons[i] == cake);
            }
            if state_wanted(head) == Some(GameState::Gamba) {
                let i = choose|i: int| 0 <= i < head.len() && head[i] == gamba;
                assert(buttons[i] == gamba);
            }
        }
    }
}

} // verus!
