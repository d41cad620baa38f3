use vstd::prelude::*;
use crate::geom::{Loc, Block};
use crate::grid::{Grid, char_at};
use crate::element::Element;
use crate::focus::{
    cell_elems_spec, cell_elements, can_be_strong_spec, can_be_strong, is_text_char_spec,
    used_as_drawing_spec, used_as_drawing, used_as_text_spec, used_as_text, xy_ok,
};
use crate::passes::{circle_match_at, enhance_match_at, circle_match_spec, enhance_match_spec};
use crate::properties::{Fragment, is_strong_block_spec, is_strong_block};
use crate::reducer::{elems_view, all_wf};

verus! {

/// A cursor over one cell of a grid: the focus character and, through the
/// grid, its eight neighbours.
pub struct FocusChar<'g> {
    pub loc: Loc,
    pub ch: char,
    pub grid: &'g Grid,
}

impl<'g> FocusChar<'g> {
    /// Validity: the cached character is the grid's character at `loc`,
    /// and `loc` is in the range the cell logic may look at.
    pub open spec fn wf(&self) -> bool {
        &&& self.grid.wf()
        &&& self.ch == char_at(self.grid@, self.loc.x as int, self.loc.y as int)
        &&& xy_ok(self.loc.x as int, self.loc.y as int)
    }

    /// The focus at `loc` of `grid`; its character is the first character
    /// of the cell there, or NUL.
    pub fn new(loc: &Loc, grid: &'g Grid) -> (r: Self)
        requires
            grid.wf(),
            xy_ok(loc.x as int, loc.y as int),
        ensures
            r.wf(),
            r.loc == *loc,
            r.grid@ == grid@,
    {
        let ch = grid.char_at_xy(loc.x, loc.y);
        FocusChar { loc: *loc, ch, grid }
    }

    /// Whether the focus character is `arg`.
    pub fn is(&self, arg: char) -> (r: bool)
        requires
            self.wf(),
        ensures
            r == (char_at(self.grid@, self.loc.x as int, self.loc.y as int) == arg),
    {
        self.ch == arg
    }

    /// Whether the focus character occurs in `s`.
    pub fn any(&self, s: &str) -> (r: bool)
        requires
            self.wf(),
        ensures
            r == s@.contains(char_at(self.grid@, self.loc.x as int, self.loc.y as int)),
    {
        let n = s.unicode_len();
        let mut i: usize = 0;
        while i < n
            invariant
                0 <= i <= n,
                n == s@.len(),
                self.wf(),
                forall|j: int| 0 <= j < i ==> s@[j] != self.ch,
            decreases n - i,
        {
            if s.get_char(i) == self.ch {
                return true;
            }
            i = i + 1;
        }
        false
    }

    /// Whether the focus is outside the grid or an empty continuation
    /// cell.
    pub fn is_null(&self) -> (r: bool)
        requires
            self.wf(),
        ensures
            r == (char_at(self.grid@, self.loc.x as int, self.loc.y as int) == '\0'),
    {
        self.is('\0')
    }

    /// Whether the focus is null or a space.
    pub fn is_blank(&self) -> (r: bool)
        requires
            self.wf(),
        ensures
            r == crate::focus::is_blank_spec(
                char_at(self.grid@, self.loc.x as int, self.loc.y as int),
            ),
    {
        self.is_null() || self.is(' ')
    }

    /// Whether the focus character declares the block at strong signal.
    pub fn can_strongly_connect(&self, block: &Block) -> (r: bool)
        requires
            self.wf(),
        ensures
            r == is_strong_block_spec(
                char_at(self.grid@, self.loc.x as int, self.loc.y as int),
                *block,
            ),
    {
        is_strong_block(self.ch, *block)
    }

    /// Whether every listed block can be made strong here, by declaration
    /// or intensification.
    pub fn can_be_strong_all_blocks(&self, blocks: Vec<Block>) -> (r: bool)
        requires
            self.wf(),
        ensures
            r == forall|i: int|
                0 <= i < blocks@.len() ==> can_be_strong_spec(
                    self.grid@,
                    self.loc.x as int,
                    self.loc.y as int,
                    #[trigger] blocks@[i],
                ),
    {
        let n = blocks.len();
        let mut i: usize = 0;
        while i < n
            invariant
                0 <= i <= n,
                n == blocks@.len(),
                self.wf(),
                forall|j: int|
                    0 <= j < i ==> can_be_strong_spec(
                        self.grid@,
                        self.loc.x as int,
                        self.loc.y as int,
                        #[trigger] blocks@[j],
                    ),
            decreases n - i,
        {
            if !can_be_strong(self.grid, self.loc.x, self.loc.y, blocks[i]) {
                return false;
            }
            i = i + 1;
        }
        true
    }

    /// Whether the focus cell is used as part of the drawing.
    pub fn used_as_drawing(&self) -> (r: bool)
        requires
            self.wf(),
        ensures
            r == used_as_drawing_spec(self.grid@, self.loc.x as int, self.loc.y as int),
    {
        used_as_drawing(self.grid, self.loc.x, self.loc.y)
    }

    /// Whether the focus cell is used as ordinary text.
    pub fn used_as_text(&self) -> (r: bool)
        requires
            self.wf(),
        ensures
            r == used_as_text_spec(self.grid@, self.loc.x as int, self.loc.y as int),
    {
        used_as_text(self.grid, self.loc.x, self.loc.y)
    }

    /// The elements the per-cell pass emits at this focus.
    pub fn get_elements(&self) -> (r: Vec<Element>)
        requires
            self.wf(),
        ensures
            elems_view(r@) == cell_elems_spec(self.grid@, self.loc.x as int, self.loc.y as int),
            all_wf(elems_view(r@)),
    {
        cell_elements(self.grid, self.loc.x, self.loc.y)
    }

    /// The elements and consumed locations of the circle pass at this
    /// focus; empty when no circle template matches here.
    pub fn get_enhance_circle_elements(&self) -> (r: (Vec<Element>, Vec<Loc>))
        requires
            self.wf(),
            0 <= self.loc.x && 0 <= self.loc.y,
            self.loc.x <= 0x4000_0000 && self.loc.y <= 0x4000_0000,
        ensures
            circle_match_spec(self.grid@, self.loc.x as int, self.loc.y as int) matches Some(
                (frags, locs),
            ) ==> elems_view(r.0@) == frags.map_values(
                |f: Fragment| crate::focus::frag_elem_spec(
                    self.loc.x as int,
                    self.loc.y as int,
                    crate::focus::FragV::G(f),
                ),
            ) && r.1@ == locs,
            circle_match_spec(self.grid@, self.loc.x as int, self.loc.y as int) is None ==> r.0@
                =~= Seq::<Element>::empty() && r.1@ =~= Seq::<Loc>::empty(),
    {
        match circle_match_at(self.grid, self.loc.x, self.loc.y) {
            Some(p) => p,
            None => (Vec::new(), Vec::new()),
        }
    }

    /// The elements and consumed locations of the enhancement pass at this
    /// focus; empty when no pattern matches here.
    pub fn get_enhance_elements(&self) -> (r: (Vec<Element>, Vec<Loc>))
        requires
            self.wf(),
            0 <= self.loc.x && 0 <= self.loc.y,
            self.loc.x <= 0x4000_0000 && self.loc.y <= 0x4000_0000,
        ensures
            enhance_match_spec(self.grid@, self.loc.x as int, self.loc.y as int) matches Some(
                (frags, locs),
            ) ==> elems_view(r.0@) == frags.map_values(
                |f: Fragment| crate::focus::frag_elem_spec(
                    self.loc.x as int,
                    self.loc.y as int,
                    crate::focus::FragV::G(f),
                ),
            ) && r.1@ == locs,
            enhance_match_spec(self.grid@, self.loc.x as int, self.loc.y as int) is None ==> r.0@
                =~= Seq::<Element>::empty() && r.1@ =~= Seq::<Loc>::empty(),
    {
        match enhance_match_at(self.grid, self.loc.x, self.loc.y) {
            Some(p) => p,
            None => (Vec::new(), Vec::new()),
        }
    }

    /// The focus one cell up.
    pub fn top(&self) -> (r: Self)
        requires
            self.wf(),
            xy_ok(self.loc.x as int, self.loc.y - 1),
        ensures
            r.wf() && r.grid@ == self.grid@ && r.loc.x == self.loc.x && r.loc.y == self.loc.y - 1,
    {
        Self::new(&self.loc.top(), self.grid)
    }

    /// The focus one cell down.
    pub fn bottom(&self) -> (r: Self)
        requires
            self.wf(),
            xy_ok(self.loc.x as int, self.loc.y + 1),
        ensures
            r.wf() && r.grid@ == self.grid@ && r.loc.x == self.loc.x && r.loc.y == self.loc.y + 1,
    {
        Self::new(&self.loc.bottom(), self.grid)
    }

    /// The focus one cell to the left.
    pub fn left(&self) -> (r: Self)
        requires
            self.wf(),
            xy_ok(self.loc.x - 1, self.loc.y as int),
        ensures
            r.wf() && r.grid@ == self.grid@ && r.loc.x == self.loc.x - 1 && r.loc.y == self.loc.y,
    {
        Self::new(&self.loc.left(), self.grid)
    }

    /// The focus one cell to the right.
    pub fn right(&self) -> (r: Self)
        requires
            self.wf(),
            xy_ok(self.loc.x + 1, self.loc.y as int),
        ensures
            r.wf() && r.grid@ == self.grid@ && r.loc.x == self.loc.x + 1 && r.loc.y == self.loc.y,
    {
        Self::new(&self.loc.right(), self.grid)
    }

    /// The focus `n` cells to the left.
    pub fn in_left(&self, n: i32) -> (r: Self)
        requires
            self.wf(),
            0 <= n,
            xy_ok(self.loc.x - n, self.loc.y as int),
        ensures
            r.wf() && r.grid@ == self.grid@ && r.loc.x == self.loc.x - n && r.loc.y == self.loc.y,
    {
        Self::new(&self.loc.in_left(n), self.grid)
    }

    /// The focus `n` cells to the right.
    pub fn in_right(&self, n: i32) -> (r: Self)
        requires
            self.wf(),
            0 <= n,
            xy_ok(self.loc.x + n, self.loc.y as int),
        ensures
            r.wf() && r.grid@ == self.grid@ && r.loc.x == self.loc.x + n && r.loc.y == self.loc.y,
    {
        Self::new(&self.loc.in_right(n), self.grid)
    }

    /// The focus `n` cells up.
    pub fn in_top(&self, n: i32) -> (r: Self)
        requires
            self.wf(),
            0 <= n,
            xy_ok(self.loc.x as int, self.loc.y - n),
        ensures
            r.wf() && r.grid@ == self.grid@ && r.loc.x == self.loc.x && r.loc.y == self.loc.y - n,
    {
        Self::new(&self.loc.in_top(n), self.grid)
    }

    /// The focus `n` cells down.
    pub fn in_bottom(&self, n: i32) -> (r: Self)
        requires
            self.wf(),
            0 <= n,
            xy_ok(self.loc.x as int, self.loc.y + n),
        ensures
            r.wf() && r.grid@ == self.grid@ && r.loc.x == self.loc.x && r.loc.y == self.loc.y + n,
    {
        Self::new(&self.loc.in_bottom(n), self.grid)
    }

    /// The focus one cell up and to the left.
    pub fn top_left(&self) -> (r: Self)
        requires
            self.wf(),
            xy_ok(self.loc.x - 1, self.loc.y - 1),
        ensures
            r.wf() && r.grid@ == self.grid@ && r.loc.x == self.loc.x - 1 && r.loc.y == self.loc.y
                - 1,
    {
        Self::new(&self.loc.top_left(), self.grid)
    }

    /// The focus one cell up and to the right.
    pub fn top_right(&self) -> (r: Self)
        requires
            self.wf(),
            xy_ok(self.loc.x + 1, self.loc.y - 1),
        ensures
            r.wf() && r.grid@ == self.grid@ && r.loc.x == self.loc.x + 1 && r.loc.y == self.loc.y
                - 1,
    {
        Self::new(&self.loc.top_right(), self.grid)
    }

    /// The focus one cell down and to the left.
    pub fn bottom_left(&self) -> (r: Self)
        requires
            self.wf(),
            xy_ok(self.loc.x - 1, self.loc.y + 1),
        ensures
            r.wf() && r.grid@ == self.grid@ && r.loc.x == self.loc.x - 1 && r.loc.y == self.loc.y
                + 1,
    {
        Self::new(&self.loc.bottom_left(), self.grid)
    }

    /// The focus one cell down and to the right.
    pub fn bottom_right(&self) -> (r: Self)
        requires
            self.wf(),
            xy_ok(self.loc.x + 1, self.loc.y + 1),
        ensures
            r.wf() && r.grid@ == self.grid@ && r.loc.x == self.loc.x + 1 && r.loc.y == self.loc.y
                + 1,
    {
        Self::new(&self.loc.bottom_right(), self.grid)
    }
}

} // verus!
