//! The decisions of a drop-down: what it becomes, and what it asks of its
//! surroundings, for each thing that happens to it.

use crate::events::KeyCode;
use vstd::prelude::*;

verus! {

/// What the popup menu of an open drop-down reports.
#[derive(Clone, Copy, Debug, PartialEq, Eq, Structural)]
pub enum PopupMenuAction {
    WasSweeped(usize),
    WasSelected(usize),
    Nothing,
}

/// What an event is to the drop-down itself.
#[derive(Clone, Copy, Debug, PartialEq, Eq, Structural)]
pub enum Hit {
    KeyFocusLost,
    KeyFocus,
    KeyDown(KeyCode),
    FingerDown,
    FingerHoverIn,
    FingerHoverOut,
    FingerUp { is_over: bool, has_hovers: bool },
    Nothing,
}

/// The states of the hover animation.
#[derive(Clone, Copy, Debug, PartialEq, Eq, Structural)]
pub enum HoverState {
    Off,
    On,
    Pressed,
}

/// What the drop-down asks of its surroundings.
#[derive(Clone, Copy, Debug, PartialEq, Eq, Structural)]
pub enum DropDownEffect {
    Redraw,
    /// Ask for the keyboard focus.
    SetKeyFocus,
    /// Let the popup menu start with this item selected.
    InitSelectItem(usize),
    SetCursorHand,
    AnimateFocus(bool),
    AnimateHover(HoverState),
}

/// A drop-down: a list of items of which one is selected, and a popup menu
/// that is open or closed.
#[derive(Debug)]
pub struct DropDown {
    pub items: Vec<String>,
    pub has_popup_menu: bool,
    pub is_open: bool,
    pub selected_item: usize,
}

/// What the decisions read of a drop-down.
pub struct DropDownState {
    pub items_len: nat,
    pub has_popup_menu: bool,
    pub is_open: bool,
    pub selected_item: usize,
}

impl View for DropDown {
    type V = DropDownState;

    open spec fn view(&self) -> DropDownState {
        DropDownState {
            items_len: self.items@.len(),
            has_popup_menu: self.has_popup_menu,
            is_open: self.is_open,
            selected_item: self.selected_item,
        }
    }
}

impl DropDownState {
    /// The drop-down after one report of its popup menu: a selection is
    /// taken over.
    pub open spec fn menu_action_taken(self, action: PopupMenuAction) -> DropDownState {
        match action {
            PopupMenuAction::WasSelected(item) => DropDownState { selected_item: item, ..self },
            _ => self,
        }
    }

    /// The drop-down after the first `n` of `actions`.
    pub open spec fn menu_actions_taken(self, actions: Seq<PopupMenuAction>, n: nat) -> DropDownState
        decreases n,
    {
        if n == 0 {
            self
        } else {
            self.menu_actions_taken(actions, (n - 1) as nat).menu_action_taken(actions[n - 1])
        }
    }

    /// The number of selections among the first `n` of `actions`.
    pub open spec fn selections(actions: Seq<PopupMenuAction>, n: nat) -> nat
        decreases n,
    {
        if n == 0 {
            0
        } else {
            Self::selections(actions, (n - 1) as nat) + if actions[n - 1] is WasSelected {
                1nat
            } else {
                0nat
            }
        }
    }

    /// The drop-down after its popup menu has handled an event. The menu is
    /// asked only while the drop-down is open and has one; a selection
    /// closes it, and so does a pointer that goes down or up outside.
    pub open spec fn menu_handled(self, actions: Seq<PopupMenuAction>, finger_outside: bool) -> DropDownState {
        if self.is_open && self.has_popup_menu {
            let taken = self.menu_actions_taken(actions, actions.len());
            DropDownState {
                is_open: !(Self::selections(actions, actions.len()) > 0 || finger_outside),
                ..taken
            }
        } else {
            self
        }
    }

    /// The number of redraws that the popup menu causes: one for each
    /// selection, one for closing after a selection, and one for closing
    /// because of a pointer outside.
    pub open spec fn menu_redraws(self, actions: Seq<PopupMenuAction>, finger_outside: bool) -> nat {
        if self.is_open && self.has_popup_menu {
            let selected = Self::selections(actions, actions.len());
            selected + if selected > 0 {
                1nat
            } else {
                0nat
            } + if finger_outside {
                1nat
            } else {
                0nat
            }
        } else {
            0
        }
    }

    /// The drop-down after `hit`.
    pub open spec fn hit_handled(self, hit: Hit) -> DropDownState {
        match hit {
            Hit::KeyFocusLost => DropDownState { is_open: false, ..self },
            Hit::KeyDown(KeyCode::ArrowUp) => if self.selected_item > 0 {
                DropDownState { selected_item: (self.selected_item - 1) as usize, ..self }
            } else {
                self
            },
            Hit::KeyDown(KeyCode::ArrowDown) => if self.items_len > 0 && self.selected_item
                < self.items_len - 1 {
                DropDownState { selected_item: (self.selected_item + 1) as usize, ..self }
            } else {
                self
            },
            Hit::FingerDown => DropDownState { is_open: true, ..self },
            _ => self,
        }
    }

    /// What the drop-down asks for because of `hit`.
    pub open spec fn hit_effects(self, hit: Hit) -> Seq<DropDownEffect> {
        match hit {
            Hit::KeyFocusLost => seq![
                DropDownEffect::AnimateFocus(false),
                DropDownEffect::Redraw,
                DropDownEffect::Redraw,
            ],
            Hit::KeyFocus => seq![DropDownEffect::AnimateFocus(true)],
            Hit::KeyDown(key_code) => if self.hit_handled(hit).selected_item != self.selected_item {
                seq![DropDownEffect::Redraw]
            } else {
                Seq::empty()
            },
            Hit::FingerDown => seq![
                DropDownEffect::SetKeyFocus,
                DropDownEffect::Redraw,
                DropDownEffect::InitSelectItem(self.selected_item),
                DropDownEffect::AnimateHover(HoverState::Pressed),
            ],
            Hit::FingerHoverIn => seq![
                DropDownEffect::SetCursorHand,
                DropDownEffect::AnimateHover(HoverState::On),
            ],
            Hit::FingerHoverOut => seq![DropDownEffect::AnimateHover(HoverState::Off)],
            Hit::FingerUp { is_over, has_hovers } => if is_over {
                if has_hovers {
                    seq![DropDownEffect::AnimateHover(HoverState::On)]
                } else {
                    Seq::empty()
                }
            } else {
                seq![DropDownEffect::AnimateHover(HoverState::Off)]
            },
            Hit::Nothing => Seq::empty(),
        }
    }

    /// `n` redraws.
    pub open spec fn redraws(n: nat) -> Seq<DropDownEffect> {
        Seq::new(n, |i: int| DropDownEffect::Redraw)
    }
}

impl DropDown {
    /// The label that the closed drop-down shows: the selected item, if
    /// there is such an item.
    pub fn selected_label(&self) -> (label: Option<&String>)
        ensures
            label is Some <==> self.selected_item < self.items@.len(),
            label is Some ==> *label.unwrap() == self.items@[self.selected_item as int],
    {
        if self.selected_item < self.items.len() {
            Some(&self.items[self.selected_item])
        } else {
            None
        }
    }

    /// Opens the popup menu on the selected item.
    pub fn set_open(&mut self, effects: &mut Vec<DropDownEffect>)
        requires
            old(self).has_popup_menu,
        ensures
            final(self)@ == (DropDownState { is_open: true, ..old(self)@ }),
            final(self).items == old(self).items,
            final(effects)@ == old(effects)@ + seq![
                DropDownEffect::Redraw,
                DropDownEffect::InitSelectItem(old(self).selected_item),
            ],
    {
        self.is_open = true;
        effects.push(DropDownEffect::Redraw);
        effects.push(DropDownEffect::InitSelectItem(self.selected_item));
        assert(effects@ =~= old(effects)@ + seq![
            DropDownEffect::Redraw,
            DropDownEffect::InitSelectItem(old(self).selected_item),
        ]);
    }

    /// Closes the popup menu.
    pub fn set_closed(&mut self, effects: &mut Vec<DropDownEffect>)
        ensures
            final(self)@ == (DropDownState { is_open: false, ..old(self)@ }),
            final(self).items == old(self).items,
            final(effects)@ == old(effects)@.push(DropDownEffect::Redraw),
    {
        self.is_open = false;
        effects.push(DropDownEffect::Redraw);
    }

    /// Handles an event: first what the popup menu made of it, `actions`
    /// and whether a pointer went down or up outside the menu, then what
    /// the event is to the drop-down itself, `hit`. Returns what the
    /// drop-down asks for, in order.
    pub fn handle_event(
        &mut self,
        actions: &Vec<PopupMenuAction>,
        finger_outside: bool,
        hit: Hit,
    ) -> (effects: Vec<DropDownEffect>)
        requires
            hit is FingerDown ==> old(self).has_popup_menu,
        ensures
            final(self)@ == old(self)@.menu_handled(actions@, finger_outside).hit_handled(hit),
            final(self).items == old(self).items,
            effects@ == DropDownState::redraws(old(self)@.menu_redraws(actions@, finger_outside))
                + old(self)@.menu_handled(actions@, finger_outside).hit_effects(hit),
    {
        let mut effects: Vec<DropDownEffect> = Vec::new();
        if self.is_open && self.has_popup_menu {
            let mut close = false;
            let mut i: usize = 0;
            while i < actions.len()
                invariant
                    i <= actions.len(),
                    self.items == old(self).items,
                    self.has_popup_menu == old(self).has_popup_menu,
                    self.is_open == old(self).is_open,
                    self@ == old(self)@.menu_actions_taken(actions@, i as nat),
                    close == (DropDownState::selections(actions@, i as nat) > 0),
                    effects@ == DropDownState::redraws(DropDownState::selections(actions@, i as nat)),
                decreases actions.len() - i,
            {
                match actions[i] {
                    PopupMenuAction::WasSelected(node_id) => {
                        self.selected_item = node_id;
                        effects.push(DropDownEffect::Redraw);
                        close = true;
                    },
                    _ => (),
                }
                i += 1;
                assert(effects@ =~= DropDownState::redraws(
                    DropDownState::selections(actions@, i as nat),
                ));
            }
            if close {
                self.set_closed(&mut effects);
            }
            if finger_outside {
                self.set_closed(&mut effects);
            }
            assert(effects@ =~= DropDownState::redraws(
                old(self)@.menu_redraws(actions@, finger_outside),
            ));
        } else {
            assert(effects@ =~= DropDownState::redraws(0));
        }
        let ghost before_hit = self@;
        let ghost menu_effects = effects@;
        assert(before_hit == old(self)@.menu_handled(actions@, finger_outside));
        match hit {
            Hit::KeyFocusLost => {
                effects.push(DropDownEffect::AnimateFocus(false));
                self.set_closed(&mut effects);
                effects.push(DropDownEffect::Redraw);
            },
            Hit::KeyFocus => {
                effects.push(DropDownEffect::AnimateFocus(true));
            },
            Hit::KeyDown(key_code) => match key_code {
                KeyCode::ArrowUp => {
                    if self.selected_item > 0 {
                        self.selected_item -= 1;
                        effects.push(DropDownEffect::Redraw);
                    }
                },
                KeyCode::ArrowDown => {
                    if self.items.len() > 0 && self.selected_item < self.items.len() - 1 {
                        self.selected_item += 1;
                        effects.push(DropDownEffect::Redraw);
                    }
                },
                _ => (),
            },
            Hit::FingerDown => {
                effects.push(DropDownEffect::SetKeyFocus);
                self.set_open(&mut effects);
                effects.push(DropDownEffect::AnimateHover(HoverState::Pressed));
            },
            Hit::FingerHoverIn => {
                effects.push(DropDownEffect::SetCursorHand);
                effects.push(DropDownEffect::AnimateHover(HoverState::On));
            },
            Hit::FingerHoverOut => {
                effects.push(DropDownEffect::AnimateHover(HoverState::Off));
            },
            Hit::FingerUp { is_over, has_hovers } => {
                if is_over {
                    if has_hovers {
                        effects.push(DropDownEffect::AnimateHover(HoverState::On));
                    }
                } else {
                    effects.push(DropDownEffect::AnimateHover(HoverState::Off));
                }
            },
            Hit::Nothing => (),
        }
        assert(effects@ =~= menu_effects + before_hit.hit_effects(hit));
        effects
    }
}

} // verus!
