use birthday_card::command::{Command, Prop, Widget};
use birthday_card::gamba::{Bet, BetChange, BetChangeMessage, BetMessage, Score, Side};
use birthday_card::state::GameState;
use birthday_card::text::decimal_string;
use birthday_card::ui::{
    handle_buttons, setup_asset_loading, setup_cake, setup_gamba, update_displays, ButtonAction,
    Pressed,
};

#[test]
fn sixty_nine_is_nice() {
    assert_eq!(update_displays(&Score(69), &Bet(1)).0, "69, nice");
}

#[test]
fn sixty_eight_is_just_a_number() {
    assert_eq!(update_displays(&Score(68), &Bet(1)).0, "68");
}

#[test]
fn displays_show_score_and_bet() {
    assert_eq!(update_displays(&Score(1), &Bet(1)), ("1".to_string(), "1".to_string()));
    assert_eq!(update_displays(&Score(120), &Bet(69)), ("120".to_string(), "69".to_string()));
    assert_eq!(update_displays(&Score(690), &Bet(7)), ("690".to_string(), "7".to_string()));
    assert_eq!(update_displays(&Score(0), &Bet(0)), ("0".to_string(), "0".to_string()));
}

#[test]
fn numbers_in_decimal() {
    assert_eq!(decimal_string(0), "0");
    assert_eq!(decimal_string(9), "9");
    assert_eq!(decimal_string(10), "10");
    assert_eq!(decimal_string(1234567890), "1234567890");
    assert_eq!(decimal_string(u64::MAX), "18446744073709551615");
    for n in 0..2000u64 {
        assert_eq!(decimal_string(n), n.to_string());
    }
}

#[test]
fn each_button_asks_for_its_own() {
    let press = |action| handle_buttons(&vec![(true, action)]);
    let nothing = Pressed { next_state: None, bet_changes: vec![], bets: vec![] };
    assert_eq!(
        press(ButtonAction::Cake),
        Pressed { next_state: Some(GameState::Cake), ..nothing.clone() }
    );
    assert_eq!(
        press(ButtonAction::Gamba),
        Pressed { next_state: Some(GameState::Gamba), ..nothing.clone() }
    );
    assert_eq!(
        press(ButtonAction::IncreaseBet),
        Pressed { bet_changes: vec![BetChangeMessage(BetChange::Increase)], ..nothing.clone() }
    );
    assert_eq!(
        press(ButtonAction::DecreaseBet),
        Pressed { bet_changes: vec![BetChangeMessage(BetChange::Decrease)], ..nothing.clone() }
    );
    assert_eq!(
        press(ButtonAction::BetLeft),
        Pressed { bets: vec![BetMessage(Side::Left)], ..nothing.clone() }
    );
    assert_eq!(
        press(ButtonAction::BetRight),
        Pressed { bets: vec![BetMessage(Side::Right)], ..nothing.clone() }
    );
}

#[test]
fn buttons_that_are_not_pressed_ask_for_nothing() {
    let all = vec![
        (false, ButtonAction::Cake),
        (false, ButtonAction::Gamba),
        (false, ButtonAction::IncreaseBet),
        (false, ButtonAction::DecreaseBet),
        (false, ButtonAction::BetLeft),
        (false, ButtonAction::BetRight),
    ];
    let nothing = Pressed { next_state: None, bet_changes: vec![], bets: vec![] };
    assert_eq!(handle_buttons(&all), nothing);
    assert_eq!(handle_buttons(&vec![]), nothing);
}

#[test]
fn presses_are_read_in_order() {
    let pressed = handle_buttons(&vec![
        (true, ButtonAction::BetRight),
        (true, ButtonAction::Gamba),
        (true, ButtonAction::DecreaseBet),
        (false, ButtonAction::BetLeft),
        (true, ButtonAction::Cake),
        (true, ButtonAction::IncreaseBet),
        (false, ButtonAction::Gamba),
        (true, ButtonAction::BetLeft),
    ]);
    assert_eq!(pressed.next_state, Some(GameState::Cake));
    assert_eq!(
        pressed.bet_changes,
        vec![BetChangeMessage(BetChange::Decrease), BetChangeMessage(BetChange::Increase)]
    );
    assert_eq!(pressed.bets, vec![BetMessage(Side::Right), BetMessage(Side::Left)]);
}

#[test]
fn each_scene_has_its_interface() {
    assert_eq!(setup_asset_loading(), vec![Command::Spawn(Prop::Widget(Widget::LoadingNotice))]);
    assert_eq!(
        setup_cake(),
        vec![
            Command::Spawn(Prop::Widget(Widget::Greeting)),
            Command::Spawn(Prop::Widget(Widget::GambaButton)),
        ]
    );
    assert_eq!(
        setup_gamba(),
        vec![
            Command::Spawn(Prop::Widget(Widget::ScorePanel)),
            Command::Spawn(Prop::Widget(Widget::BetPanel)),
            Command::Spawn(Prop::Widget(Widget::SidePanel)),
            Command::Spawn(Prop::Widget(Widget::CakeButton)),
        ]
    );
}

#[test]
fn widgets_hold_the_six_buttons() {
    assert_eq!(Widget::LoadingNotice.buttons(), vec![]);
    assert_eq!(Widget::Greeting.buttons(), vec![]);
    assert_eq!(Widget::ScorePanel.buttons(), vec![]);
    assert_eq!(Widget::GambaButton.buttons(), vec![ButtonAction::Gamba]);
    assert_eq!(Widget::CakeButton.buttons(), vec![ButtonAction::Cake]);
    assert_eq!(
        Widget::BetPanel.buttons(),
        vec![ButtonAction::DecreaseBet, ButtonAction::IncreaseBet]
    );
    assert_eq!(Widget::SidePanel.buttons(), vec![ButtonAction::BetLeft, ButtonAction::BetRight]);
}
