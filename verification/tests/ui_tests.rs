use boba_go::cards::CardKind;
use boba_go::counts::CardCounts;
use boba_go::ui::{
    calculate_max_selections, handle_card_selection, handle_down_navigation,
    handle_drink_tray_activation, handle_enter_key, handle_undo_drink_tray, handle_up_navigation,
    GameUIState, GameView, InputAction,
};

fn counts_of(pairs: &[(CardKind, u64)]) -> CardCounts {
    let mut c = CardCounts::new();
    for (kind, n) in pairs {
        c.add(*kind, *n);
    }
    c
}

#[test]
fn fresh_session_defaults() {
    let mut ui = GameUIState::new();
    assert_eq!(ui.current_view, GameView::Hand);
    assert_eq!(ui.hand_selection_index, 0);
    ui.hand_selection_index = 4;
    ui.my_cards_selection_index = 2;
    ui.reset_for_new_turn();
    assert_eq!(ui.hand_selection_index, 0);
    assert_eq!(ui.my_cards_selection_index, 0);
    ui.clear_selections();
    assert!(ui.player_selections.is_empty());
}

#[test]
fn max_selections_doubles_after_activation() {
    let mut ui = GameUIState::new();
    assert_eq!(calculate_max_selections(&ui, 0), 1);
    ui.drink_tray_activated = vec![true];
    assert_eq!(calculate_max_selections(&ui, 0), 2);
    assert_eq!(calculate_max_selections(&ui, 1), 1);
}

#[test]
fn hand_navigation_wraps() {
    let mut ui = GameUIState::new();
    let hand = counts_of(&[(CardKind::ThaiTea, 1), (CardKind::MangoTea, 2)]);
    let none = CardCounts::new();
    // Two held kinds: down moves 0 -> 1 -> 0; up from 0 wraps to 1.
    handle_down_navigation(&mut ui, 2, &hand, &none, &none);
    assert_eq!(ui.hand_selection_index, 1);
    handle_down_navigation(&mut ui, 2, &hand, &none, &none);
    assert_eq!(ui.hand_selection_index, 0);
    handle_up_navigation(&mut ui, 2, &hand, &none, &none);
    assert_eq!(ui.hand_selection_index, 1);
}

#[test]
fn player_list_navigation_wraps() {
    let mut ui = GameUIState::new();
    ui.current_view = GameView::PlayerCards;
    let none = CardCounts::new();
    handle_up_navigation(&mut ui, 3, &none, &none, &none);
    assert_eq!(ui.player_list_index, 2);
    assert_eq!(ui.viewing_player_id, 2);
    handle_down_navigation(&mut ui, 3, &none, &none, &none);
    assert_eq!(ui.player_list_index, 0);
}

#[test]
fn card_selection_selects_and_toggles_off() {
    let mut ui = GameUIState::new();
    let hand = counts_of(&[(CardKind::ThaiTea, 3)]);
    // One selection allowed: marking the highlighted kind selects one unit.
    handle_card_selection(&mut ui, 0, &hand, 1);
    assert_eq!(ui.player_selections[0].get(CardKind::ThaiTea), 1);
    // Marking again cannot top up (the allowance is spent): it deselects.
    handle_card_selection(&mut ui, 0, &hand, 1);
    assert_eq!(ui.player_selections[0].get(CardKind::ThaiTea), 0);
}

#[test]
fn card_selection_tops_up_with_larger_allowance() {
    let mut ui = GameUIState::new();
    let hand = counts_of(&[(CardKind::LycheeTea, 5)]);
    handle_card_selection(&mut ui, 0, &hand, 2);
    // With an allowance of two and five held, both units come at once.
    assert_eq!(ui.player_selections[0].get(CardKind::LycheeTea), 2);
}

#[test]
fn drink_tray_activation_and_undo() {
    let mut ui = GameUIState::new();
    ui.current_view = GameView::MyCards;
    let public = counts_of(&[(CardKind::DrinkTray, 1)]);
    let boosted = CardCounts::new();
    handle_drink_tray_activation(&mut ui, 0, &public, &boosted);
    assert!(ui.drink_tray_activated[0]);
    assert_eq!(ui.current_view, GameView::Hand);
    assert_eq!(ui.view_history.last(), Some(&GameView::MyCards));
    handle_undo_drink_tray(&mut ui, 0);
    assert!(!ui.drink_tray_activated[0]);
    assert_eq!(ui.current_view, GameView::MyCards);
}

#[test]
fn drink_tray_activation_needs_the_tray_highlighted() {
    let mut ui = GameUIState::new();
    ui.current_view = GameView::MyCards;
    let public = counts_of(&[(CardKind::ThaiTea, 2)]);
    let boosted = CardCounts::new();
    handle_drink_tray_activation(&mut ui, 0, &public, &boosted);
    assert!(ui.drink_tray_activated.is_empty());
    assert_eq!(ui.current_view, GameView::MyCards);
}

#[test]
fn enter_builds_a_submission_when_the_selection_is_full() {
    let mut ui = GameUIState::new();
    let hand = counts_of(&[(CardKind::ThaiTea, 2), (CardKind::MangoTea, 1)]);
    let none = CardCounts::new();
    // Nothing selected yet: enter does not submit.
    let (action, sub) = handle_enter_key(&mut ui, 0, &hand, &none, &none, 1);
    assert_eq!(action, InputAction::Continue);
    assert!(sub.is_none());
    handle_card_selection(&mut ui, 0, &hand, 1);
    let (action, sub) = handle_enter_key(&mut ui, 0, &hand, &none, &none, 1);
    assert_eq!(action, InputAction::SubmitTurn);
    let (selected, remaining) = sub.unwrap();
    assert_eq!(selected.get(CardKind::ThaiTea), 1);
    assert_eq!(remaining.get(CardKind::ThaiTea), 1);
    assert_eq!(remaining.get(CardKind::MangoTea), 1);
    assert_eq!(selected.total() + remaining.total(), hand.total());
}
