//! A clickable button: a label and a latched click flag. The rendering
//! layer draws it and latches the flag on a click; the rest of the program
//! reads and resets the flag.

use vstd::prelude::*;

verus! {

/// A button with a text label that remembers whether it was clicked.
#[derive(Debug)]
pub struct CustomButton {
    text: String,
    is_clicked: bool,
}

impl CustomButton {
    /// The button's label.
    pub closed spec fn text_spec(&self) -> Seq<char> {
        self.text@
    }

    /// Whether a click is latched.
    pub closed spec fn clicked_spec(&self) -> bool {
        self.is_clicked
    }

    /// A button labelled `text`, not clicked.
    pub fn new(text: String) -> (r: CustomButton)
        ensures
            r.text_spec() == text@,
            !r.clicked_spec(),
    {
        CustomButton { text, is_clicked: false }
    }

    /// The button's label.
    pub fn text(&self) -> (r: &String)
        ensures
            r@ == self.text_spec(),
    {
        &self.text
    }

    /// Whether a click is latched.
    pub fn is_clicked(&self) -> (r: bool)
        ensures
            r == self.clicked_spec(),
    {
        self.is_clicked
    }

    /// Latches a click; the rendering layer calls this when the button is
    /// pressed.
    pub fn mark_clicked(&mut self)
        ensures
            final(self).clicked_spec(),
            final(self).text_spec() == old(self).text_spec(),
    {
        self.is_clicked = true;
    }

    /// Clears the latched click.
    pub fn reset_clicked(&mut self)
        ensures
            !final(self).clicked_spec(),
            final(self).text_spec() == old(self).text_spec(),
    {
        self.is_clicked = false;
    }
}

} // verus!
