//! A two-row view: a label row that takes the space left over, above a
//! content row sized to the entry widget.

use vstd::prelude::*;
use crate::element::{wrap, ElemRef, Element, UiTree};
use crate::grid::{Grid, GridLength};

verus! {

/// A view over a grid with the match box in its first row and the word
/// box in its second; after a render the cursor goes to the word box.
#[derive(Clone, Copy, Debug, PartialEq, Eq, Structural)]
pub struct TestView {
    pub grid: ElemRef,
    pub word_box: ElemRef,
}

/// The grid that a view lays out: the match box in the first row, which
/// takes the space left over, and the word box in the second, sized to its
/// content; one column that takes all the width.
pub open spec fn view_grid_ok(g: Grid, word_box: ElemRef, match_box: ElemRef) -> bool {
    &&& g.children@ == seq![word_box, match_box]
    &&& g.cells@ == seq![(1usize, 0usize), (0usize, 0usize)]
    &&& g.rows@ == seq![GridLength::Dynamic(1), GridLength::Content]
    &&& g.cols@ == seq![GridLength::Dynamic(1)]
}

impl TestView {
    /// Adds the grid of a new view over `word_box` and `match_box` to
    /// `tree`, and returns the view.
    pub fn new(tree: &mut UiTree, word_box: ElemRef, match_box: ElemRef) -> (r: TestView)
        requires
            old(tree).wf(),
            word_box.index < old(tree).elements().len(),
            match_box.index < old(tree).elements().len(),
            old(tree).elements().len() < usize::MAX,
        ensures
            final(tree).wf(),
            final(tree).elements().len() == old(tree).elements().len() + 1,
            final(tree).elements().drop_last() == old(tree).elements(),
            r.grid.index == old(tree).elements().len(),
            r.word_box == word_box,
            final(tree).elements().last() matches Element::Grid(g) && view_grid_ok(g, word_box, match_box),
    {
        let g = Grid::new(
            vec![(word_box, (1, 0)), (match_box, (0, 0))],
            vec![GridLength::Dynamic(1), GridLength::Content],
            vec![GridLength::Dynamic(1)],
        );
        assert(g.children@ =~= seq![word_box, match_box]);
        assert(g.cells@ =~= seq![(1usize, 0usize), (0usize, 0usize)]);
        assert(g.rows@ =~= seq![GridLength::Dynamic(1), GridLength::Content]);
        assert(g.cols@ =~= seq![GridLength::Dynamic(1)]);
        let ghost g0 = g;
        let grid = wrap(tree, Element::Grid(g));
        assert(final(tree).elements().drop_last() =~= old(tree).elements()) by {
            assert(tree.elements() == old(tree).elements().push(Element::Grid(g0)));
        }
        TestView { grid, word_box }
    }
}

} // verus!
