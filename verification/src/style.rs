//! The ambient window style and the scope that overrides it for the duration
//! of a widget.

use vstd::prelude::*;
use crate::canvas::Color;
use crate::geometry::Point;

verus! {

/// The part of the ambient style that windows and popups are laid out and
/// painted with. `B` is whatever the host paints a background with.
#[derive(Clone, Debug, PartialEq, Eq)]
pub struct WindowStyle<B> {
    /// What windows paint behind their content; with `None` they paint
    /// nothing.
    pub fixed_background: Option<B>,
    pub border_color: Color,
    pub spacing: Point,
    pub padding: Point,
}

/// The style that the radial menu's popup is opened with: no background, an
/// invisible border, and neither spacing nor padding.
pub open spec fn menu_style<B>() -> WindowStyle<B> {
    WindowStyle {
        fixed_background: None,
        border_color: Color { r: 0, g: 0, b: 0, a: 0 },
        spacing: Point { x: 0, y: 0 },
        padding: Point { x: 0, y: 0 },
    }
}

/// A window style set aside while a widget overrides it. Whoever holds the
/// scope owes the style a call of `leave`.
#[must_use]
pub struct StyleScope<B> {
    saved: WindowStyle<B>,
}

impl<B> StyleScope<B> {
    /// The style as it was when the scope was entered.
    pub closed spec fn saved(self) -> WindowStyle<B> {
        self.saved
    }

    /// Sets the style aside and replaces it by the menu's.
    pub fn enter(style: &mut WindowStyle<B>) -> (scope: StyleScope<B>)
        ensures
            scope.saved() == *old(style),
            *final(style) == menu_style::<B>(),
    {
        let background = style.fixed_background.take();
        let saved = WindowStyle {
            fixed_background: background,
            border_color: style.border_color,
            spacing: style.spacing,
            padding: style.padding,
        };
        style.border_color = Color { r: 0, g: 0, b: 0, a: 0 };
        style.spacing = Point { x: 0, y: 0 };
        style.padding = Point { x: 0, y: 0 };
        StyleScope { saved }
    }

    /// Puts the style back as it was when the scope was entered, whatever
    /// happened to it since.
    pub fn leave(self, style: &mut WindowStyle<B>)
        ensures
            *final(style) == self.saved(),
    {
        *style = self.saved;
    }
}

} // verus!
