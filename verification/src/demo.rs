//! State of the three demonstration windows and what each interaction does
//! to it.

use vstd::prelude::*;
use crate::geometry::Point;
use crate::piemenu::MenuOutcome;

verus! {

/// Number of pictures in the picture popup.
pub const IMAGE_COUNT: usize = 9;

/// Number of entries in the combo boxes of the basic window.
pub const ITEM_COUNT: usize = 3;

/// Number of entries in the combo box of the grid window.
pub const GRID_ITEM_COUNT: usize = 4;

/// State of the basic window.
#[derive(Clone, Copy, Debug, PartialEq, Eq, Structural)]
pub struct BasicState {
    pub image_active: bool,
    pub check0: bool,
    pub check1: bool,
    pub prog: usize,
    pub selected_item: usize,
    pub selected_image: usize,
    pub selected_icon: usize,
    pub piemenu_active: bool,
    pub piemenu_pos: Point,
}

/// An interaction with the basic window.
#[derive(Clone, Copy, Debug, PartialEq, Eq)]
pub enum BasicEvent {
    /// The button that opens and closes the picture popup was pressed.
    ImagesPressed,
    /// A picture in the popup was pressed.
    ImagePicked(usize),
    /// An entry of the text combo box was pressed.
    ItemPicked(usize),
    /// An entry of the icon combo box was pressed.
    IconPicked(usize),
    /// The secondary button went down inside the window with the pointer at
    /// this position.
    MenuInvoked(Point),
    /// The radial menu ran for a frame and reported this.
    MenuReported(MenuOutcome),
}

/// What the caller has to do after an interaction with the basic window.
#[derive(Clone, Copy, Debug, PartialEq, Eq)]
pub enum BasicAction {
    Nothing,
    /// Close the picture popup.
    ClosePopup,
    /// Announce what the radial menu returned.
    Announce(i32),
}

/// The number that stands for `outcome`: -1 while the menu is open, -2 when
/// it failed to open or was dismissed, else the selected sector (the largest
/// number that fits where the sector does not).
pub open spec fn outcome_code(outcome: MenuOutcome) -> int {
    match outcome {
        MenuOutcome::StillOpen => -1,
        MenuOutcome::FailedToOpen => -2,
        MenuOutcome::Dismissed => -2,
        MenuOutcome::Selected(s) => if s <= i32::MAX { s as int } else { i32::MAX as int },
    }
}

/// The number that stands for `outcome`.
pub fn menu_code(outcome: MenuOutcome) -> (code: i32)
    ensures
        code == outcome_code(outcome),
{
    match outcome {
        MenuOutcome::StillOpen => -1,
        MenuOutcome::FailedToOpen => -2,
        MenuOutcome::Dismissed => -2,
        MenuOutcome::Selected(s) => if s <= i32::MAX as usize { s as i32 } else { i32::MAX },
    }
}

impl BasicState {
    /// The state that the window starts in.
    pub open spec fn initial() -> BasicState {
        BasicState {
            image_active: false,
            check0: true,
            check1: false,
            prog: 80,
            selected_item: 0,
            selected_image: 3,
            selected_icon: 0,
            piemenu_active: false,
            piemenu_pos: Point { x: 0, y: 0 },
        }
    }

    /// The state after `event`. A pick outside the list it picks from, a
    /// picture picked while the popup is closed and a report of a menu that
    /// is not open change nothing. Any report but `StillOpen` closes the
    /// menu.
    pub open spec fn after(self, event: BasicEvent) -> BasicState {
        match event {
            BasicEvent::ImagesPressed => BasicState { image_active: !self.image_active, ..self },
            BasicEvent::ImagePicked(i) => if self.image_active && i < IMAGE_COUNT {
                BasicState { selected_image: i, image_active: false, ..self }
            } else {
                self
            },
            BasicEvent::ItemPicked(i) => if i < ITEM_COUNT {
                BasicState { selected_item: i, ..self }
            } else {
                self
            },
            BasicEvent::IconPicked(i) => if i < ITEM_COUNT {
                BasicState { selected_icon: i, ..self }
            } else {
                self
            },
            BasicEvent::MenuInvoked(pos) => BasicState {
                piemenu_pos: pos,
                piemenu_active: true,
                ..self
            },
            BasicEvent::MenuReported(outcome) => if self.piemenu_active && outcome
                != MenuOutcome::StillOpen {
                BasicState { piemenu_active: false, ..self }
            } else {
                self
            },
        }
    }

    /// What the caller has to do after `event` arrived in this state.
    pub open spec fn action(self, event: BasicEvent) -> BasicAction {
        match event {
            BasicEvent::ImagePicked(i) => if self.image_active && i < IMAGE_COUNT {
                BasicAction::ClosePopup
            } else {
                BasicAction::Nothing
            },
            BasicEvent::MenuReported(outcome) => if self.piemenu_active && outcome
                != MenuOutcome::StillOpen {
                BasicAction::Announce(outcome_code(outcome) as i32)
            } else {
                BasicAction::Nothing
            },
            _ => BasicAction::Nothing,
        }
    }

    /// The state that the window starts in.
    pub fn new() -> (state: BasicState)
        ensures
            state == BasicState::initial(),
    {
        BasicState {
            image_active: false,
            check0: true,
            check1: false,
            prog: 80,
            selected_item: 0,
            selected_image: 3,
            selected_icon: 0,
            piemenu_active: false,
            piemenu_pos: Point { x: 0, y: 0 },
        }
    }

    /// Applies `event` and says what the caller has to do.
    pub fn apply(&mut self, event: BasicEvent) -> (action: BasicAction)
        ensures
            *final(self) == old(self).after(event),
            action == old(self).action(event),
    {
        match event {
            BasicEvent::ImagesPressed => {
                self.image_active = !self.image_active;
                BasicAction::Nothing
            },
            BasicEvent::ImagePicked(i) => {
                if self.image_active && i < IMAGE_COUNT {
                    self.selected_image = i;
                    self.image_active = false;
                    BasicAction::ClosePopup
                } else {
                    BasicAction::Nothing
                }
            },
            BasicEvent::ItemPicked(i) => {
                if i < ITEM_COUNT {
                    self.selected_item = i;
                }
                BasicAction::Nothing
            },
            BasicEvent::IconPicked(i) => {
                if i < ITEM_COUNT {
                    self.selected_icon = i;
                }
                BasicAction::Nothing
            },
            BasicEvent::MenuInvoked(pos) => {
                self.piemenu_pos = pos;
                self.piemenu_active = true;
                BasicAction::Nothing
            },
            BasicEvent::MenuReported(outcome) => {
                let open = match outcome {
                    MenuOutcome::StillOpen => true,
                    _ => false,
                };
                if self.piemenu_active && !open {
                    self.piemenu_active = false;
                    BasicAction::Announce(menu_code(outcome))
                } else {
                    BasicAction::Nothing
                }
            },
        }
    }
}

/// State of the button window.
#[derive(Clone, Copy, Debug, PartialEq, Eq, Structural)]
pub struct ButtonState {
    pub option: i32,
    pub toggle0: bool,
    pub toggle1: bool,
    pub toggle2: bool,
}

/// A press of a button in the button window.
#[derive(Clone, Copy, Debug, PartialEq, Eq, Structural)]
pub enum ButtonEvent {
    PushPressed,
    StyledPressed,
    RepeaterPressed,
    /// One of the three toggle buttons, counted from zero.
    TogglePressed(usize),
    /// One of the three radio buttons, counted from zero.
    OptionPressed(i32),
    ClonePressed,
    DeletePressed,
    ConvertPressed,
    EditPressed,
}

/// The picture on a toggle button.
#[derive(Clone, Copy, Debug, PartialEq, Eq, Structural)]
pub enum CheckIcon {
    Checked,
    Unchecked,
}

/// The symbol on a radio button.
#[derive(Clone, Copy, Debug, PartialEq, Eq, Structural)]
pub enum RadioSymbol {
    CircleOutline,
    CircleSolid,
}

impl ButtonState {
    /// The state that the window starts in.
    pub open spec fn initial() -> ButtonState {
        ButtonState { option: 1, toggle0: true, toggle1: false, toggle2: true }
    }

    /// The state after `event`: a toggle button flips its toggle, a radio
    /// button becomes the option, and nothing else changes anything.
    pub open spec fn after(self, event: ButtonEvent) -> ButtonState {
        match event {
            ButtonEvent::TogglePressed(i) => if i == 0 {
                ButtonState { toggle0: !self.toggle0, ..self }
            } else if i == 1 {
                ButtonState { toggle1: !self.toggle1, ..self }
            } else if i == 2 {
                ButtonState { toggle2: !self.toggle2, ..self }
            } else {
                self
            },
            ButtonEvent::OptionPressed(i) => if 0 <= i <= 2 {
                ButtonState { option: i, ..self }
            } else {
                self
            },
            _ => self,
        }
    }

    /// Whether toggle `i` is on; a toggle that does not exist is off.
    pub open spec fn toggled(self, i: int) -> bool {
        if i == 0 {
            self.toggle0
        } else if i == 1 {
            self.toggle1
        } else if i == 2 {
            self.toggle2
        } else {
            false
        }
    }

    /// The state that the window starts in.
    pub fn new() -> (state: ButtonState)
        ensures
            state == ButtonState::initial(),
    {
        ButtonState { option: 1, toggle0: true, toggle1: false, toggle2: true }
    }

    /// Applies `event` and returns the line to print for it, if any.
    pub fn apply(&mut self, event: ButtonEvent) -> (message: Option<&'static str>)
        ensures
            *final(self) == old(self).after(event),
            message.is_some() == button_message(event).is_some(),
            message matches Some(text) ==> text@ == button_message(event).unwrap(),
    {
        match event {
            ButtonEvent::PushPressed => Some("pushed!"),
            ButtonEvent::StyledPressed => Some("rocket!"),
            ButtonEvent::RepeaterPressed => Some("pressed!"),
            ButtonEvent::TogglePressed(i) => {
                if i == 0 {
                    self.toggle0 = !self.toggle0;
                } else if i == 1 {
                    self.toggle1 = !self.toggle1;
                } else if i == 2 {
                    self.toggle2 = !self.toggle2;
                }
                None
            },
            ButtonEvent::OptionPressed(i) => {
                if 0 <= i && i <= 2 {
                    self.option = i;
                }
                None
            },
            ButtonEvent::ClonePressed => Some("pressed clone!"),
            ButtonEvent::DeletePressed => Some("pressed delete!"),
            ButtonEvent::ConvertPressed => Some("pressed convert!"),
            ButtonEvent::EditPressed => Some("pressed edit!"),
        }
    }

    /// The picture on toggle button `i`.
    pub fn toggle_icon(&self, i: usize) -> (icon: CheckIcon)
        ensures
            icon == if self.toggled(i as int) {
                CheckIcon::Checked
            } else {
                CheckIcon::Unchecked
            },
    {
        let on = if i == 0 {
            self.toggle0
        } else if i == 1 {
            self.toggle1
        } else if i == 2 {
            self.toggle2
        } else {
            false
        };
        if on {
            CheckIcon::Checked
        } else {
            CheckIcon::Unchecked
        }
    }

    /// The symbol on radio button `i`: an outline on the chosen one, a solid
    /// circle on the others.
    pub fn radio_symbol(&self, i: i32) -> (symbol: RadioSymbol)
        ensures
            symbol == if self.option == i {
                RadioSymbol::CircleOutline
            } else {
                RadioSymbol::CircleSolid
            },
    {
        if self.option == i {
            RadioSymbol::CircleOutline
        } else {
            RadioSymbol::CircleSolid
        }
    }
}

/// The line that a press prints, if it prints one.
pub open spec fn button_message(event: ButtonEvent) -> Option<Seq<char>> {
    match event {
        ButtonEvent::PushPressed => Some("pushed!"@),
        ButtonEvent::StyledPressed => Some("rocket!"@),
        ButtonEvent::RepeaterPressed => Some("pressed!"@),
        ButtonEvent::ClonePressed => Some("pressed clone!"@),
        ButtonEvent::DeletePressed => Some("pressed delete!"@),
        ButtonEvent::ConvertPressed => Some("pressed convert!"@),
        ButtonEvent::EditPressed => Some("pressed edit!"@),
        _ => None,
    }
}

/// State of the grid window.
#[derive(Clone, Copy, Debug, PartialEq, Eq, Structural)]
pub struct GridState {
    pub selected_item: usize,
    pub check: bool,
}

impl GridState {
    /// The state that the window starts in.
    pub fn new() -> (state: GridState)
        ensures
            state == (GridState { selected_item: 2, check: true }),
    {
        GridState { selected_item: 2, check: true }
    }

    /// Makes entry `i` of the combo box the selected one; an entry that does
    /// not exist changes nothing.
    pub fn pick(&mut self, i: usize)
        ensures
            *final(self) == if i < GRID_ITEM_COUNT {
                GridState { selected_item: i, ..*old(self) }
            } else {
                *old(self)
            },
    {
        if i < GRID_ITEM_COUNT {
            self.selected_item = i;
        }
    }
}

/// The filter of the free-text field: whether `c` may be typed into it. It
/// lets through every character after the digit zero.
pub fn free_type(c: char) -> (accepted: bool)
    ensures
        accepted == (c as u32 > 0x30),
{
    c > '\u{0030}'
}

} // verus!
