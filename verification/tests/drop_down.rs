use makepad_core::drop_down::{DropDown, DropDownEffect, Hit, HoverState, PopupMenuAction};
use makepad_core::events::KeyCode;

fn drop_down(items: usize, selected_item: usize, is_open: bool) -> DropDown {
    DropDown {
        items: (0..items).map(|i| format!("item {}", i)).collect(),
        has_popup_menu: true,
        is_open,
        selected_item,
    }
}

#[test]
fn arrows_move_the_selection_within_the_items() {
    let mut d = drop_down(3, 1, false);
    let none = Vec::new();
    assert_eq!(d.handle_event(&none, false, Hit::KeyDown(KeyCode::ArrowUp)), vec![DropDownEffect::Redraw]);
    assert_eq!(d.selected_item, 0);
    assert_eq!(d.handle_event(&none, false, Hit::KeyDown(KeyCode::ArrowUp)), vec![]);
    assert_eq!(d.selected_item, 0);
    d.handle_event(&none, false, Hit::KeyDown(KeyCode::ArrowDown));
    assert_eq!(d.handle_event(&none, false, Hit::KeyDown(KeyCode::ArrowDown)), vec![DropDownEffect::Redraw]);
    assert_eq!(d.selected_item, 2);
    assert_eq!(d.handle_event(&none, false, Hit::KeyDown(KeyCode::ArrowDown)), vec![]);
    assert_eq!(d.selected_item, 2);
    assert_eq!(d.handle_event(&none, false, Hit::KeyDown(KeyCode::KeyA)), vec![]);
    let mut empty = drop_down(0, 0, false);
    assert_eq!(empty.handle_event(&none, false, Hit::KeyDown(KeyCode::ArrowDown)), vec![]);
    assert_eq!(empty.selected_item, 0);
}

#[test]
fn finger_down_opens_and_asks_for_focus() {
    let mut d = drop_down(3, 2, false);
    let effects = d.handle_event(&Vec::new(), false, Hit::FingerDown);
    assert!(d.is_open);
    assert_eq!(
        effects,
        vec![
            DropDownEffect::SetKeyFocus,
            DropDownEffect::Redraw,
            DropDownEffect::InitSelectItem(2),
            DropDownEffect::AnimateHover(HoverState::Pressed),
        ]
    );
}

#[test]
fn selection_in_the_menu_closes_it() {
    let mut d = drop_down(5, 0, true);
    let actions = vec![
        PopupMenuAction::WasSweeped(1),
        PopupMenuAction::WasSelected(4),
        PopupMenuAction::Nothing,
    ];
    let effects = d.handle_event(&actions, false, Hit::Nothing);
    assert_eq!(d.selected_item, 4);
    assert!(!d.is_open);
    assert_eq!(effects, vec![DropDownEffect::Redraw, DropDownEffect::Redraw]);
}

#[test]
fn finger_outside_the_menu_closes_it() {
    let mut d = drop_down(5, 1, true);
    let effects = d.handle_event(&Vec::new(), true, Hit::FingerHoverOut);
    assert!(!d.is_open);
    assert_eq!(effects, vec![DropDownEffect::Redraw, DropDownEffect::AnimateHover(HoverState::Off)]);
    // a closed drop-down does not ask its menu
    let actions = vec![PopupMenuAction::WasSelected(3)];
    let effects = d.handle_event(&actions, true, Hit::Nothing);
    assert_eq!(d.selected_item, 1);
    assert_eq!(effects, vec![]);
}

#[test]
fn focus_and_hover() {
    let mut d = drop_down(2, 0, true);
    let none = Vec::new();
    assert_eq!(
        d.handle_event(&none, false, Hit::KeyFocusLost),
        vec![DropDownEffect::AnimateFocus(false), DropDownEffect::Redraw, DropDownEffect::Redraw]
    );
    assert!(!d.is_open);
    assert_eq!(d.handle_event(&none, false, Hit::KeyFocus), vec![DropDownEffect::AnimateFocus(true)]);
    assert_eq!(
        d.handle_event(&none, false, Hit::FingerHoverIn),
        vec![DropDownEffect::SetCursorHand, DropDownEffect::AnimateHover(HoverState::On)]
    );
    assert_eq!(
        d.handle_event(&none, false, Hit::FingerUp { is_over: true, has_hovers: true }),
        vec![DropDownEffect::AnimateHover(HoverState::On)]
    );
    assert_eq!(d.handle_event(&none, false, Hit::FingerUp { is_over: true, has_hovers: false }), vec![]);
    assert_eq!(
        d.handle_event(&none, false, Hit::FingerUp { is_over: false, has_hovers: true }),
        vec![DropDownEffect::AnimateHover(HoverState::Off)]
    );
}

#[test]
fn open_and_close() {
    let mut d = drop_down(2, 1, false);
    let mut effects = Vec::new();
    d.set_open(&mut effects);
    assert!(d.is_open);
    d.set_closed(&mut effects);
    assert!(!d.is_open);
    assert_eq!(
        effects,
        vec![DropDownEffect::Redraw, DropDownEffect::InitSelectItem(1), DropDownEffect::Redraw]
    );
}

#[test]
fn label_of_the_selected_item() {
    let d = drop_down(3, 2, false);
    assert_eq!(d.selected_label().map(|s| s.as_str()), Some("item 2"));
    let d = drop_down(3, 3, false);
    assert_eq!(d.selected_label(), None);
    let d = drop_down(0, 0, true);
    assert_eq!(d.selected_label(), None);
}
