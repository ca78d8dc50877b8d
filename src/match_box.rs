//! The colouring rule of a match box, the widget that shows one answer.

use vstd::prelude::*;

verus! {

/// How a match box is drawn.
#[derive(Clone, Copy, Debug, PartialEq, Eq, Structural)]
pub enum MatchBoxStyle {
    Normal,
    Reveal,
    Highlight,
}

impl MatchBoxStyle {
    /// The colour pair to draw with: none for `Normal`, else the pair of
    /// the style.
    pub fn color_pair(self, reveal_pair: i32, hl_pair: i32) -> (r: Option<i32>)
        ensures
            r == match self {
                MatchBoxStyle::Normal => None,
                MatchBoxStyle::Reveal => Some(reveal_pair),
                MatchBoxStyle::Highlight => Some(hl_pair),
            },
    {
        match self {
            MatchBoxStyle::Normal => None,
            MatchBoxStyle::Reveal => Some(reveal_pair),
            MatchBoxStyle::Highlight => Some(hl_pair),
        }
    }
}

} // verus!
