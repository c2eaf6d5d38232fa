//! The looks a button of the picker can have, and which one a button gets.

use vstd::prelude::*;
use crate::text::same_text;

verus! {

/// How a button is drawn.
#[derive(Clone, Copy, Debug, PartialEq, Eq, Structural)]
pub enum ButtonStyle {
    /// The button of the category that is shown.
    Category,
    /// A symbol that has variants to choose from.
    Emoji,
    /// Any other button.
    Plain,
    /// The button that clears the search text.
    ClearSearch,
}

/// The value of the desktop's colour scheme setting that asks for dark
/// windows.
pub open spec fn dark_scheme_name() -> Seq<char> {
    "prefer-dark"@
}

/// Whether the desktop's colour scheme setting asks for dark windows; any
/// other value, and no value, asks for light ones.
pub fn prefers_dark(color_scheme: &str) -> (r: bool)
    ensures
        r == (color_scheme@ == dark_scheme_name()),
{
    same_text(color_scheme, "prefer-dark")
}

impl Default for ButtonStyle {
    fn default() -> (r: Self)
        ensures
            r == ButtonStyle::Plain,
    {
        ButtonStyle::Plain
    }
}

impl ButtonStyle {
    /// The look of a symbol's button: marked where the symbol has variants.
    pub fn for_symbol(has_variants: bool) -> (r: ButtonStyle)
        ensures
            r == if has_variants {
                ButtonStyle::Emoji
            } else {
                ButtonStyle::Plain
            },
    {
        if has_variants {
            ButtonStyle::Emoji
        } else {
            ButtonStyle::Plain
        }
    }

    /// The look of a category's button: marked where the category is shown.
    pub fn for_category(shown: bool) -> (r: ButtonStyle)
        ensures
            r == if shown {
                ButtonStyle::Category
            } else {
                ButtonStyle::Plain
            },
    {
        if shown {
            ButtonStyle::Category
        } else {
            ButtonStyle::Plain
        }
    }

    /// Whether the button has a filled background while nothing touches it.
    pub open spec fn is_filled(self) -> bool {
        self != ButtonStyle::Plain
    }

    /// Whether the button has a filled background while nothing touches it.
    pub fn filled(&self) -> (r: bool)
        ensures
            r == self.is_filled(),
    {
        match self {
            ButtonStyle::Plain => false,
            _ => true,
        }
    }

    /// Whether the button answers to the pointer: only the button that
    /// clears the search changes its look when hovered, pressed or disabled.
    pub fn reacts(&self) -> (r: bool)
        ensures
            r == (*self == ButtonStyle::ClearSearch),
    {
        match self {
            ButtonStyle::ClearSearch => true,
            _ => false,
        }
    }
}

} // verus!
