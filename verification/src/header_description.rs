//! The line above the tables that says what is converted into what.

use crate::DEFAULT_WIDTH;
use vstd::prelude::*;

verus! {

/// The two names of the heading: the currency converted from, and the one
/// converted to.
pub struct HeaderDescription<'a> {
    header_description: [&'a str; 2],
}

impl<'a> HeaderDescription<'a> {
    /// The name on the left of the heading.
    pub closed spec fn left(&self) -> &'a str {
        self.header_description@[0]
    }

    /// The name on the right of the heading.
    pub closed spec fn right(&self) -> &'a str {
        self.header_description@[1]
    }

    /// The bytes that the heading takes without its padding: the two names,
    /// the word between them and the blanks around it.
    pub open spec fn text_len(&self) -> nat {
        (self.left().len() + self.right().len() + 4) as nat
    }

    /// The heading from the euro to every currency.
    pub fn new() -> (r: Self)
        ensures
            r.left() == "EUR",
            r.right() == "ALL",
    {
        Self { header_description: ["EUR", "ALL"] }
    }

    /// Turns the heading round.
    pub fn invert(&mut self)
        ensures
            final(self).left() == old(self).right(),
            final(self).right() == old(self).left(),
    {
        let left = self.header_description[0];
        self.header_description[0] = self.header_description[1];
        self.header_description[1] = left;
    }

    /// Puts `currency` in the place of the name on the left.
    pub fn replace_eur(&mut self, currency: &'a str)
        ensures
            final(self).left() == currency,
            final(self).right() == old(self).right(),
    {
        self.header_description[0] = currency;
    }

    /// The two names, left and right.
    pub fn names(&self) -> (r: (&'a str, &'a str))
        ensures
            r.0 == self.left(),
            r.1 == self.right(),
    {
        (self.header_description[0], self.header_description[1])
    }

    /// The blanks to the left and to the right of the heading's text that
    /// centre it in the frame, the odd blank going to the right; nothing
    /// where the text is wider than the frame.
    pub fn padding(&self) -> (r: Option<(usize, usize)>)
        ensures
            r == if self.text_len() <= DEFAULT_WIDTH - 2 {
                Some(
                    (
                        ((DEFAULT_WIDTH - 2 - self.text_len()) / 2) as usize,
                        (DEFAULT_WIDTH - 2 - self.text_len() - (DEFAULT_WIDTH - 2
                            - self.text_len()) / 2) as usize,
                    ),
                )
            } else {
                None
            },
    {
        let width: usize = DEFAULT_WIDTH - 2;
        let left_len: usize = self.header_description[0].len();
        let right_len: usize = self.header_description[1].len();
        if left_len > width || right_len > width - left_len || width - left_len - right_len < 4 {
            return None;
        }
        let unformatted_len: usize = left_len + right_len + 4;
        let left_padding: usize = (width - unformatted_len) / 2;
        Some((left_padding, width - left_padding - unformatted_len))
    }
}

} // verus!
