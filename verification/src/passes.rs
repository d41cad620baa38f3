use vstd::prelude::*;
use crate::geom::{Loc, Block, PointBlock, resolve};
use crate::grid::{Grid, GridV, char_at};
use crate::element::{Element, ElemV, open_circle, clear_arrow_line, arrow_line, dashed_line};
use crate::properties::Fragment;
use crate::focus::{FragV, frag_elem_spec, cell_elems_spec, cell_elements, used_as_text_spec, used_as_text};
use crate::reducer::{elems_view, all_wf};

verus! {

/// The length of row `y`, zero outside the grid.
pub open spec fn row_len(g: GridV, y: int) -> int {
    if 0 <= y < g.len() {
        g[y].len() as int
    } else {
        0
    }
}

/// What the circle pass recognizes at a focus cell, largest template
/// first: a three-by-three composition of corners, dashes and parentheses,
/// or a pair of parentheses up to three cells apart, becomes one open
/// circle centred between them; the matched cells are consumed. A focus
/// used as text never anchors a template.
pub open spec fn circle_match_spec(g: GridV, x: int, y: int) -> Option<(Seq<Fragment>, Seq<Loc>)> {
    let c = char_at(g, x, y);
    if used_as_text_spec(g, x, y) {
        None
    } else if c == '(' && char_at(g, x, y - 1) == '.' && char_at(g, x + 1, y - 1) == '-' && char_at(
        g,
        x + 2,
        y - 1,
    ) == '.' && char_at(g, x + 1, y) == ' ' && char_at(g, x + 2, y) == ')' && char_at(
        g,
        x,
        y + 1,
    ) == '\'' && char_at(g, x + 1, y + 1) == '-' && char_at(g, x + 2, y + 1) == '\'' {
        Some(
            (
                seq![Fragment::OpenCircle((PointBlock { dx: 1, dy: 0, block: Block::M }), 6)],
                seq![
                    (Loc { x: x as i32, y: (y - 1) as i32 }),
                    (Loc { x: (x + 1) as i32, y: (y - 1) as i32 }),
                    (Loc { x: (x + 2) as i32, y: (y - 1) as i32 }),
                    (Loc { x: x as i32, y: y as i32 }),
                    (Loc { x: (x + 1) as i32, y: y as i32 }),
                    (Loc { x: (x + 2) as i32, y: y as i32 }),
                    (Loc { x: x as i32, y: (y + 1) as i32 }),
                    (Loc { x: (x + 1) as i32, y: (y + 1) as i32 }),
                    (Loc { x: (x + 2) as i32, y: (y + 1) as i32 }),
                ],
            ),
        )
    } else if c == '(' && char_at(g, x + 1, y) == ' ' && char_at(g, x + 2, y) == ' ' && char_at(
        g,
        x + 3,
        y,
    ) == ' ' && char_at(g, x + 4, y) == ')' {
        Some(
            (
                seq![Fragment::OpenCircle((PointBlock { dx: 2, dy: 0, block: Block::M }), 8)],
                seq![
                    (Loc { x: x as i32, y: y as i32 }),
                    (Loc { x: (x + 1) as i32, y: y as i32 }),
                    (Loc { x: (x + 2) as i32, y: y as i32 }),
                    (Loc { x: (x + 3) as i32, y: y as i32 }),
                    (Loc { x: (x + 4) as i32, y: y as i32 }),
                ],
            ),
        )
    } else if c == '(' && char_at(g, x + 1, y) == ' ' && char_at(g, x + 2, y) == ' ' && char_at(
        g,
        x + 3,
        y,
    ) == ')' {
        Some(
            (
                seq![Fragment::OpenCircle((PointBlock { dx: 1, dy: 0, block: Block::O }), 6)],
                seq![
                    (Loc { x: x as i32, y: y as i32 }),
                    (Loc { x: (x + 1) as i32, y: y as i32 }),
                    (Loc { x: (x + 2) as i32, y: y as i32 }),
                    (Loc { x: (x + 3) as i32, y: y as i32 }),
                ],
            ),
        )
    } else if c == '(' && char_at(g, x + 1, y) == ' ' && char_at(g, x + 2, y) == ')' {
        Some(
            (
                seq![Fragment::OpenCircle((PointBlock { dx: 1, dy: 0, block: Block::M }), 4)],
                seq![
                    (Loc { x: x as i32, y: y as i32 }),
                    (Loc { x: (x + 1) as i32, y: y as i32 }),
                    (Loc { x: (x + 2) as i32, y: y as i32 }),
                ],
            ),
        )
    } else if c == '(' && char_at(g, x + 1, y) == ')' {
        Some(
            (
                seq![Fragment::OpenCircle((PointBlock { dx: 0, dy: 0, block: Block::O }), 2)],
                seq![(Loc { x: x as i32, y: y as i32 }), (Loc { x: (x + 1) as i32, y: y as i32 })],
            ),
        )
    } else {
        None
    }
}

/// What the general enhancement pass recognizes at a focus cell, in
/// declaration order: a chevron at a diagonal bend becomes the arrowed tip
/// of that diagonal; a doubled chevron becomes a line ending in a clear
/// arrowhead across both cells; a dash, a gap and a dash become a dashed
/// span, a trailing dash after a gap continues it; a dot beside an
/// underscore closes the baseline into a quarter arc. A focus used as text
/// never anchors a pattern.
pub open spec fn enhance_match_spec(g: GridV, x: int, y: int) -> Option<(Seq<Fragment>, Seq<Loc>)> {
    let c = char_at(g, x, y);
    if used_as_text_spec(g, x, y) {
        None
    } else if c == '^' && char_at(g, x + 1, y + 1) == '\\' {
        Some(
            (
                seq![
                    Fragment::ArrowLine(
                        (PointBlock { dx: 0, dy: 0, block: Block::Y }),
                        (PointBlock { dx: 0, dy: 0, block: Block::M }),
                    ),
                ],
                seq![(Loc { x: x as i32, y: y as i32 })],
            ),
        )
    } else if c == '^' && char_at(g, x - 1, y + 1) == '/' {
        Some(
            (
                seq![
                    Fragment::ArrowLine(
                        (PointBlock { dx: 0, dy: 0, block: Block::U }),
                        (PointBlock { dx: 0, dy: 0, block: Block::M }),
                    ),
                ],
                seq![(Loc { x: x as i32, y: y as i32 })],
            ),
        )
    } else if c == '>' && char_at(g, x - 1, y) == '>' {
        Some(
            (
                seq![
                    Fragment::ClearArrowLine(
                        (PointBlock { dx: -1i32, dy: 0, block: Block::K }),
                        (PointBlock { dx: 0, dy: 0, block: Block::O }),
                    ),
                ],
                seq![(Loc { x: (x - 1) as i32, y: y as i32 }), (Loc { x: x as i32, y: y as i32 })],
            ),
        )
    } else if c == '<' && char_at(g, x + 1, y) == '<' {
        Some(
            (
                seq![
                    Fragment::ClearArrowLine(
                        (PointBlock { dx: 1, dy: 0, block: Block::O }),
                        (PointBlock { dx: 0, dy: 0, block: Block::K }),
                    ),
                ],
                seq![(Loc { x: x as i32, y: y as i32 }), (Loc { x: (x + 1) as i32, y: y as i32 })],
            ),
        )
    } else if c == '-' && char_at(g, x + 1, y) == ' ' && char_at(g, x + 2, y) == '-'
        && !used_as_text_spec(g, x + 2, y) {
        Some(
            (
                seq![
                    Fragment::DashedLine(
                        (PointBlock { dx: 0, dy: 0, block: Block::K }),
                        (PointBlock { dx: 1, dy: 0, block: Block::O }),
                    ),
                ],
                seq![(Loc { x: x as i32, y: y as i32 }), (Loc { x: (x + 1) as i32, y: y as i32 })],
            ),
        )
    } else if c == '-' && char_at(g, x - 1, y) == ' ' && char_at(g, x - 2, y) == '-' {
        Some(
            (
                seq![
                    Fragment::DashedLine(
                        (PointBlock { dx: 0, dy: 0, block: Block::K }),
                        (PointBlock { dx: 0, dy: 0, block: Block::O }),
                    ),
                ],
                seq![(Loc { x: x as i32, y: y as i32 })],
            ),
        )
    } else if c == '.' && char_at(g, x - 1, y) == '_' {
        Some(
            (
                seq![
                    Fragment::Arc(
                        (PointBlock { dx: 0, dy: 0, block: Block::O }),
                        (PointBlock { dx: 0, dy: 0, block: Block::U }),
                        2,
                    ),
                ],
                seq![(Loc { x: x as i32, y: y as i32 })],
            ),
        )
    } else if c == '.' && char_at(g, x + 1, y) == '_' {
        Some(
            (
                seq![
                    Fragment::Arc(
                        (PointBlock { dx: 0, dy: 0, block: Block::Y }),
                        (PointBlock { dx: 0, dy: 0, block: Block::K }),
                        2,
                    ),
                ],
                seq![(Loc { x: x as i32, y: y as i32 })],
            ),
        )
    } else {
        None
    }
}

/// One step of an enhancement pass at `(x, y)`: skip a consumed focus cell,
/// skip a non-match, skip a match that would re-consume a cell, otherwise
/// add the match's elements and consume its cells.
pub open spec fn pass_step(
    g: GridV,
    x: int,
    y: int,
    m: Option<(Seq<Fragment>, Seq<Loc>)>,
    state: (Seq<ElemV>, Seq<Loc>),
) -> (Seq<ElemV>, Seq<Loc>) {
    let (es, cons) = state;
    if cons.contains((Loc { x: x as i32, y: y as i32 })) {
        state
    } else {
        match m {
            None => state,
            Some((frags, locs)) => if exists|i: int| 0 <= i < locs.len() && cons.contains(locs[i]) {
                state
            } else {
                (es + frags.map_values(|f: Fragment| frag_elem_spec(x, y, FragV::G(f))), cons + locs)
            },
        }
    }
}

/// The circle pass state after the cells before `(x, y)` in row-major
/// order.
pub open spec fn circle_upto(g: GridV, y: int, x: int) -> (Seq<ElemV>, Seq<Loc>)
    decreases y, x,
{
    if y <= 0 && x <= 0 {
        (Seq::empty(), Seq::empty())
    } else if x <= 0 {
        circle_upto(g, y - 1, row_len(g, y - 1))
    } else {
        pass_step(g, x - 1, y, circle_match_spec(g, x - 1, y), circle_upto(g, y, x - 1))
    }
}

/// The circle pass over the whole grid.
pub open spec fn circle_pass_spec(g: GridV) -> (Seq<ElemV>, Seq<Loc>) {
    circle_upto(g, g.len() as int, 0)
}

/// The enhancement pass state, starting from already consumed cells.
pub open spec fn enhance_upto(g: GridV, init: Seq<Loc>, y: int, x: int) -> (Seq<ElemV>, Seq<Loc>)
    decreases y, x,
{
    if y <= 0 && x <= 0 {
        (Seq::empty(), init)
    } else if x <= 0 {
        enhance_upto(g, init, y - 1, row_len(g, y - 1))
    } else {
        pass_step(g, x - 1, y, enhance_match_spec(g, x - 1, y), enhance_upto(g, init, y, x - 1))
    }
}

/// The enhancement pass over the whole grid.
pub open spec fn enhance_pass_spec(g: GridV, init: Seq<Loc>) -> (Seq<ElemV>, Seq<Loc>) {
    enhance_upto(g, init, g.len() as int, 0)
}

/// What one cell contributes in the per-cell pass: nothing when the cell
/// was consumed by an enhancement pass, its per-cell elements otherwise.
pub open spec fn percell_contribution(g: GridV, cons: Seq<Loc>, x: int, y: int) -> Seq<ElemV> {
    if cons.contains((Loc { x: x as i32, y: y as i32 })) {
        Seq::empty()
    } else {
        cell_elems_spec(g, x, y)
    }
}

/// The per-cell pass over the cells before `(x, y)`, skipping consumed
/// cells.
pub open spec fn percell_upto(g: GridV, cons: Seq<Loc>, y: int, x: int) -> Seq<ElemV>
    decreases y, x,
{
    if y <= 0 && x <= 0 {
        Seq::empty()
    } else if x <= 0 {
        percell_upto(g, cons, y - 1, row_len(g, y - 1))
    } else {
        percell_upto(g, cons, y, x - 1) + percell_contribution(g, cons, x - 1, y)
    }
}

/// The per-cell pass over the whole grid.
pub open spec fn percell_pass_spec(g: GridV, cons: Seq<Loc>) -> Seq<ElemV> {
    percell_upto(g, cons, g.len() as int, 0)
}

/// Every element the grid's three passes emit, in pass order: circles,
/// then enhancements, then per-cell fragments of unconsumed cells.
pub open spec fn all_elements_spec(g: GridV) -> Seq<ElemV> {
    let (e1, c1) = circle_pass_spec(g);
    let (e2, c2) = enhance_pass_spec(g, c1);
    e1 + e2 + percell_pass_spec(g, c2)
}

/// Whether the vector holds the location.
pub fn loc_in(v: &Vec<Loc>, l: &Loc) -> (r: bool)
    ensures
        r == v@.contains(*l),
{
    let n = v.len();
    let mut i: usize = 0;
    while i < n
        invariant
            0 <= i <= n,
            n == v@.len(),
            forall|j: int| 0 <= j < i ==> v@[j] != *l,
        decreases n - i,
    {
        if v[i].x == l.x && v[i].y == l.y {
            return true;
        }
        i = i + 1;
    }
    false
}

/// The circle match at a focus cell, lowered to elements and absolute
/// locations.
#[verifier::rlimit(100)]
#[verifier::spinoff_prover]
pub fn circle_match_at(grid: &Grid, x: i32, y: i32) -> (r: Option<(Vec<Element>, Vec<Loc>)>)
    requires
        grid.wf(),
        0 <= x as int <= 0x4000_0000 && 0 <= y as int <= 0x4000_0000,
    ensures
        r is Some <==> circle_match_spec(grid@, x as int, y as int) is Some,
        r matches Some((es, ls)) ==> circle_match_spec(grid@, x as int, y as int) matches Some(
            (frags, locs),
        ) && elems_view(es@) == frags.map_values(
            |f: Fragment| frag_elem_spec(x as int, y as int, FragV::G(f)),
        ) && ls@ == locs && all_wf(elems_view(es@)),
{
    let c = grid.char_at_xy(x, y);
    let loc = Loc { x, y };
    if used_as_text(grid, x, y) {
        None
    } else if c == '(' && grid.char_at_xy(x, y - 1) == '.' && grid.char_at_xy(x + 1, y - 1) == '-'
        && grid.char_at_xy(x + 2, y - 1) == '.' && grid.char_at_xy(x + 1, y) == ' '
        && grid.char_at_xy(x + 2, y) == ')' && grid.char_at_xy(x, y + 1) == '\''
        && grid.char_at_xy(x + 1, y + 1) == '-' && grid.char_at_xy(x + 2, y + 1) == '\'' {
        let el = open_circle(&resolve(&loc, &PointBlock { dx: 1, dy: 0, block: Block::M }), 12);
        let mut es: Vec<Element> = Vec::new();
        es.push(el);
        let mut ls: Vec<Loc> = Vec::new();
        ls.push(Loc { x, y: y - 1 });
        ls.push(Loc { x: x + 1, y: y - 1 });
        ls.push(Loc { x: x + 2, y: y - 1 });
        ls.push(Loc { x, y });
        ls.push(Loc { x: x + 1, y });
        ls.push(Loc { x: x + 2, y });
        ls.push(Loc { x, y: y + 1 });
        ls.push(Loc { x: x + 1, y: y + 1 });
        ls.push(Loc { x: x + 2, y: y + 1 });
        proof {
            let (frags, locs) = circle_match_spec(grid@, x as int, y as int).unwrap();
            assert(elems_view(es@) =~= frags.map_values(
                |f: Fragment| frag_elem_spec(x as int, y as int, FragV::G(f)),
            ));
            assert(ls@ =~= locs);
        }
        Some((es, ls))
    } else if c == '(' && grid.char_at_xy(x + 1, y) == ' ' && grid.char_at_xy(x + 2, y) == ' '
        && grid.char_at_xy(x + 3, y) == ' ' && grid.char_at_xy(x + 4, y) == ')' {
        let el = open_circle(&resolve(&loc, &PointBlock { dx: 2, dy: 0, block: Block::M }), 16);
        let mut es: Vec<Element> = Vec::new();
        es.push(el);
        let mut ls: Vec<Loc> = Vec::new();
        ls.push(Loc { x, y });
        ls.push(Loc { x: x + 1, y });
        ls.push(Loc { x: x + 2, y });
        ls.push(Loc { x: x + 3, y });
        ls.push(Loc { x: x + 4, y });
        proof {
            let (frags, locs) = circle_match_spec(grid@, x as int, y as int).unwrap();
            assert(elems_view(es@) =~= frags.map_values(
                |f: Fragment| frag_elem_spec(x as int, y as int, FragV::G(f)),
            ));
            assert(ls@ =~= locs);
        }
        Some((es, ls))
    } else if c == '(' && grid.char_at_xy(x + 1, y) == ' ' && grid.char_at_xy(x + 2, y) == ' '
        && grid.char_at_xy(x + 3, y) == ')' {
        let el = open_circle(&resolve(&loc, &PointBlock { dx: 1, dy: 0, block: Block::O }), 12);
        let mut es: Vec<Element> = Vec::new();
        es.push(el);
        let mut ls: Vec<Loc> = Vec::new();
        ls.push(Loc { x, y });
        ls.push(Loc { x: x + 1, y });
        ls.push(Loc { x: x + 2, y });
        ls.push(Loc { x: x + 3, y });
        proof {
            let (frags, locs) = circle_match_spec(grid@, x as int, y as int).unwrap();
            assert(elems_view(es@) =~= frags.map_values(
                |f: Fragment| frag_elem_spec(x as int, y as int, FragV::G(f)),
            ));
            assert(ls@ =~= locs);
        }
        Some((es, ls))
    } else if c == '(' && grid.char_at_xy(x + 1, y) == ' ' && grid.char_at_xy(x + 2, y) == ')' {
        let el = open_circle(&resolve(&loc, &PointBlock { dx: 1, dy: 0, block: Block::M }), 8);
        let mut es: Vec<Element> = Vec::new();
        es.push(el);
        let mut ls: Vec<Loc> = Vec::new();
        ls.push(Loc { x, y });
        ls.push(Loc { x: x + 1, y });
        ls.push(Loc { x: x + 2, y });
        proof {
            let (frags, locs) = circle_match_spec(grid@, x as int, y as int).unwrap();
            assert(elems_view(es@) =~= frags.map_values(
                |f: Fragment| frag_elem_spec(x as int, y as int, FragV::G(f)),
            ));
            assert(ls@ =~= locs);
        }
        Some((es, ls))
    } else if c == '(' && grid.char_at_xy(x + 1, y) == ')' {
        let el = open_circle(&resolve(&loc, &PointBlock { dx: 0, dy: 0, block: Block::O }), 4);
        let mut es: Vec<Element> = Vec::new();
        es.push(el);
        let mut ls: Vec<Loc> = Vec::new();
        ls.push(Loc { x, y });
        ls.push(Loc { x: x + 1, y });
        proof {
            let (frags, locs) = circle_match_spec(grid@, x as int, y as int).unwrap();
            assert(elems_view(es@) =~= frags.map_values(
                |f: Fragment| frag_elem_spec(x as int, y as int, FragV::G(f)),
            ));
            assert(ls@ =~= locs);
        }
        Some((es, ls))
    } else {
        None
    }
}

/// The enhancement match at a focus cell, lowered to elements and absolute
/// locations.
#[verifier::rlimit(100)]
#[verifier::spinoff_prover]
pub fn enhance_match_at(grid: &Grid, x: i32, y: i32) -> (r: Option<(Vec<Element>, Vec<Loc>)>)
    requires
        grid.wf(),
        0 <= x as int <= 0x4000_0000 && 0 <= y as int <= 0x4000_0000,
    ensures
        r is Some <==> enhance_match_spec(grid@, x as int, y as int) is Some,
        r matches Some((es, ls)) ==> enhance_match_spec(grid@, x as int, y as int) matches Some(
            (frags, locs),
        ) && elems_view(es@) == frags.map_values(
            |f: Fragment| frag_elem_spec(x as int, y as int, FragV::G(f)),
        ) && ls@ == locs && all_wf(elems_view(es@)),
{
    let c = grid.char_at_xy(x, y);
    let loc = Loc { x, y };
    if used_as_text(grid, x, y) {
        None
    } else if c == '^' && grid.char_at_xy(x + 1, y + 1) == '\\' {
        let el = arrow_line(
            &resolve(&loc, &PointBlock { dx: 0, dy: 0, block: Block::Y }),
            &resolve(&loc, &PointBlock { dx: 0, dy: 0, block: Block::M }),
        );
        let mut es: Vec<Element> = Vec::new();
        es.push(el);
        let mut ls: Vec<Loc> = Vec::new();
        ls.push(Loc { x, y });
        proof {
            let (frags, locs) = enhance_match_spec(grid@, x as int, y as int).unwrap();
            assert(elems_view(es@) =~= frags.map_values(
                |f: Fragment| frag_elem_spec(x as int, y as int, FragV::G(f)),
            ));
            assert(ls@ =~= locs);
        }
        Some((es, ls))
    } else if c == '^' && grid.char_at_xy(x - 1, y + 1) == '/' {
        let el = arrow_line(
            &resolve(&loc, &PointBlock { dx: 0, dy: 0, block: Block::U }),
            &resolve(&loc, &PointBlock { dx: 0, dy: 0, block: Block::M }),
        );
        let mut es: Vec<Element> = Vec::new();
        es.push(el);
        let mut ls: Vec<Loc> = Vec::new();
        ls.push(Loc { x, y });
        proof {
            let (frags, locs) = enhance_match_spec(grid@, x as int, y as int).unwrap();
            assert(elems_view(es@) =~= frags.map_values(
                |f: Fragment| frag_elem_spec(x as int, y as int, FragV::G(f)),
            ));
            assert(ls@ =~= locs);
        }
        Some((es, ls))
    } else if c == '>' && grid.char_at_xy(x - 1, y) == '>' {
        let el = clear_arrow_line(
            &resolve(&loc, &PointBlock { dx: -1i32, dy: 0, block: Block::K }),
            &resolve(&loc, &PointBlock { dx: 0, dy: 0, block: Block::O }),
        );
        let mut es: Vec<Element> = Vec::new();
        es.push(el);
        let mut ls: Vec<Loc> = Vec::new();
        ls.push(Loc { x: x - 1, y });
        ls.push(Loc { x, y });
        proof {
            let (frags, locs) = enhance_match_spec(grid@, x as int, y as int).unwrap();
            assert(elems_view(es@) =~= frags.map_values(
                |f: Fragment| frag_elem_spec(x as int, y as int, FragV::G(f)),
            ));
            assert(ls@ =~= locs);
        }
        Some((es, ls))
    } else if c == '<' && grid.char_at_xy(x + 1, y) == '<' {
        let el = clear_arrow_line(
            &resolve(&loc, &PointBlock { dx: 1, dy: 0, block: Block::O }),
            &resolve(&loc, &PointBlock { dx: 0, dy: 0, block: Block::K }),
        );
        let mut es: Vec<Element> = Vec::new();
        es.push(el);
        let mut ls: Vec<Loc> = Vec::new();
        ls.push(Loc { x, y });
        ls.push(Loc { x: x + 1, y });
        proof {
            let (frags, locs) = enhance_match_spec(grid@, x as int, y as int).unwrap();
            assert(elems_view(es@) =~= frags.map_values(
                |f: Fragment| frag_elem_spec(x as int, y as int, FragV::G(f)),
            ));
            assert(ls@ =~= locs);
        }
        Some((es, ls))
    } else if c == '-' && grid.char_at_xy(x + 1, y) == ' ' && grid.char_at_xy(x + 2, y) == '-'
        && !used_as_text(grid, x + 2, y) {
        let el = dashed_line(
            &resolve(&loc, &PointBlock { dx: 0, dy: 0, block: Block::K }),
            &resolve(&loc, &PointBlock { dx: 1, dy: 0, block: Block::O }),
        );
        let mut es: Vec<Element> = Vec::new();
        es.push(el);
        let mut ls: Vec<Loc> = Vec::new();
        ls.push(Loc { x, y });
        ls.push(Loc { x: x + 1, y });
        proof {
            let (frags, locs) = enhance_match_spec(grid@, x as int, y as int).unwrap();
            assert(elems_view(es@) =~= frags.map_values(
                |f: Fragment| frag_elem_spec(x as int, y as int, FragV::G(f)),
            ));
            assert(ls@ =~= locs);
        }
        Some((es, ls))
    } else if c == '-' && grid.char_at_xy(x - 1, y) == ' ' && grid.char_at_xy(x - 2, y) == '-' {
        let el = dashed_line(
            &resolve(&loc, &PointBlock { dx: 0, dy: 0, block: Block::K }),
            &resolve(&loc, &PointBlock { dx: 0, dy: 0, block: Block::O }),
        );
        let mut es: Vec<Element> = Vec::new();
        es.push(el);
        let mut ls: Vec<Loc> = Vec::new();
        ls.push(Loc { x, y });
        proof {
            let (frags, locs) = enhance_match_spec(grid@, x as int, y as int).unwrap();
            assert(elems_view(es@) =~= frags.map_values(
                |f: Fragment| frag_elem_spec(x as int, y as int, FragV::G(f)),
            ));
            assert(ls@ =~= locs);
        }
        Some((es, ls))
    } else if c == '.' && grid.char_at_xy(x - 1, y) == '_' {
        let el = crate::element::arc(
            &resolve(&loc, &PointBlock { dx: 0, dy: 0, block: Block::O }),
            &resolve(&loc, &PointBlock { dx: 0, dy: 0, block: Block::U }),
            4,
        );
        let mut es: Vec<Element> = Vec::new();
        es.push(el);
        let mut ls: Vec<Loc> = Vec::new();
        ls.push(Loc { x, y });
        proof {
            let (frags, locs) = enhance_match_spec(grid@, x as int, y as int).unwrap();
            assert(elems_view(es@) =~= frags.map_values(
                |f: Fragment| frag_elem_spec(x as int, y as int, FragV::G(f)),
            ));
            assert(ls@ =~= locs);
        }
        Some((es, ls))
    } else if c == '.' && grid.char_at_xy(x + 1, y) == '_' {
        let el = crate::element::arc(
            &resolve(&loc, &PointBlock { dx: 0, dy: 0, block: Block::Y }),
            &resolve(&loc, &PointBlock { dx: 0, dy: 0, block: Block::K }),
            4,
        );
        let mut es: Vec<Element> = Vec::new();
        es.push(el);
        let mut ls: Vec<Loc> = Vec::new();
        ls.push(Loc { x, y });
        proof {
            let (frags, locs) = enhance_match_spec(grid@, x as int, y as int).unwrap();
            assert(elems_view(es@) =~= frags.map_values(
                |f: Fragment| frag_elem_spec(x as int, y as int, FragV::G(f)),
            ));
            assert(ls@ =~= locs);
        }
        Some((es, ls))
    } else {
        None
    }
}

/// Append clones of all elements of `src`.
fn push_all_elems(dst: &mut Vec<Element>, src: &Vec<Element>)
    ensures
        final(dst)@.len() == old(dst)@.len() + src@.len(),
        elems_view(final(dst)@) == elems_view(old(dst)@) + elems_view(src@),
{
    let n = src.len();
    let mut i: usize = 0;
    while i < n
        invariant
            0 <= i <= n,
            n == src@.len(),
            dst@.len() == old(dst)@.len() + i,
            forall|j: int| 0 <= j < old(dst)@.len() ==> (#[trigger] dst@[j])@ == old(dst)@[j]@,
            forall|j: int| 0 <= j < i ==> (#[trigger] dst@[old(dst)@.len() + j])@ == src@[j]@,
        decreases n - i,
    {
        dst.push(src[i].clone());
        i = i + 1;
    }
    proof {
        let whole = elems_view(old(dst)@) + elems_view(src@);
        assert forall|j: int| 0 <= j < dst@.len() implies elems_view(dst@)[j] == whole[j] by {
            assert(elems_view(dst@)[j] == dst@[j]@);
            if j < old(dst)@.len() {
                assert(whole[j] == elems_view(old(dst)@)[j]);
                assert(elems_view(old(dst)@)[j] == old(dst)@[j]@);
            } else {
                let jj = j - old(dst)@.len();
                assert(whole[j] == elems_view(src@)[jj]);
                assert(elems_view(src@)[jj] == src@[jj]@);
                assert(dst@[old(dst)@.len() + jj]@ == src@[jj]@);
                assert(dst@[j]@ == src@[jj]@);
            }
        }
        assert(elems_view(dst@) =~= whole);
    }
}

/// Append all locations of `src`.
fn push_all_locs(dst: &mut Vec<Loc>, src: &Vec<Loc>)
    ensures
        final(dst)@ == old(dst)@ + src@,
{
    let n = src.len();
    let mut i: usize = 0;
    while i < n
        invariant
            0 <= i <= n,
            n == src@.len(),
            dst@ == old(dst)@ + src@.subrange(0, i as int),
        decreases n - i,
    {
        dst.push(src[i]);
        proof {
            assert(dst@ =~= old(dst)@ + src@.subrange(0, i + 1 as int));
        }
        i = i + 1;
    }
    proof {
        assert(src@.subrange(0, n as int) =~= src@);
    }
}

/// Whether a matched location set overlaps what is already consumed.
fn any_consumed(cons: &Vec<Loc>, ls: &Vec<Loc>) -> (r: bool)
    ensures
        r == exists|i: int| 0 <= i < ls@.len() && cons@.contains(ls@[i]),
{
    let n = ls.len();
    let mut i: usize = 0;
    while i < n
        invariant
            0 <= i <= n,
            n == ls@.len(),
            forall|j: int| 0 <= j < i ==> !cons@.contains(ls@[j]),
        decreases n - i,
    {
        if loc_in(cons, &ls[i]) {
            return true;
        }
        i = i + 1;
    }
    false
}

/// Run the circle pass over the whole grid: the first matching template at
/// each unconsumed focus cell, in row-major order.
pub fn run_circle_pass(grid: &Grid) -> (r: (Vec<Element>, Vec<Loc>))
    requires
        grid.wf(),
    ensures
        elems_view(r.0@) == circle_pass_spec(grid@).0,
        r.1@ == circle_pass_spec(grid@).1,
        all_wf(elems_view(r.0@)),
{
    let ghost g = grid@;
    let mut es: Vec<Element> = Vec::new();
    let mut cons: Vec<Loc> = Vec::new();
    let rows = grid.row_count();
    let mut y: usize = 0;
    while y < rows
        invariant
            0 <= y <= rows,
            rows == g.len(),
            g == grid@,
            grid.wf(),
            (elems_view(es@), cons@) == circle_upto(g, y as int, 0),
            all_wf(elems_view(es@)),
        decreases rows - y,
    {
        let ncols = grid.col_count(y);
        let mut x: usize = 0;
        while x < ncols
            invariant
                0 <= x <= ncols,
                0 <= y < rows,
                rows == g.len(),
                ncols == row_len(g, y as int),
                g == grid@,
                grid.wf(),
                (elems_view(es@), cons@) == circle_upto(g, y as int, x as int),
                all_wf(elems_view(es@)),
            decreases ncols - x,
        {
            let ghost prev = (elems_view(es@), cons@);
            let xi = x as i32;
            let yi = y as i32;
            let l = Loc { x: xi, y: yi };
            if !loc_in(&cons, &l) {
                match circle_match_at(grid, xi, yi) {
                    None => {},
                    Some((mes, mls)) => {
                        if !any_consumed(&cons, &mls) {
                            push_all_elems(&mut es, &mes);
                            push_all_locs(&mut cons, &mls);
                        }
                    },
                }
            }
            proof {
                assert((elems_view(es@), cons@) == pass_step(
                    g,
                    x as int,
                    y as int,
                    circle_match_spec(g, x as int, y as int),
                    prev,
                ));
                assert(circle_upto(g, y as int, x + 1 as int) == pass_step(
                    g,
                    x as int,
                    y as int,
                    circle_match_spec(g, x as int, y as int),
                    circle_upto(g, y as int, x as int),
                ));
            }
            x = x + 1;
        }
        proof {
            assert(circle_upto(g, y + 1 as int, 0) == circle_upto(g, y as int, row_len(
                g,
                y as int,
            )));
        }
        y = y + 1;
    }
    (es, cons)
}

/// Run the enhancement pass over the whole grid, starting from the cells
/// the circle pass consumed.
pub fn run_enhance_pass(grid: &Grid, consumed: &Vec<Loc>) -> (r: (Vec<Element>, Vec<Loc>))
    requires
        grid.wf(),
    ensures
        elems_view(r.0@) == enhance_pass_spec(grid@, consumed@).0,
        r.1@ == enhance_pass_spec(grid@, consumed@).1,
        all_wf(elems_view(r.0@)),
{
    let ghost g = grid@;
    let ghost init = consumed@;
    let mut es: Vec<Element> = Vec::new();
    let mut cons: Vec<Loc> = Vec::new();
    push_all_locs(&mut cons, consumed);
    proof {
        assert(cons@ =~= init);
    }
    let rows = grid.row_count();
    let mut y: usize = 0;
    while y < rows
        invariant
            0 <= y <= rows,
            rows == g.len(),
            g == grid@,
            grid.wf(),
            init == consumed@,
            (elems_view(es@), cons@) == enhance_upto(g, init, y as int, 0),
            all_wf(elems_view(es@)),
        decreases rows - y,
    {
        let ncols = grid.col_count(y);
        let mut x: usize = 0;
        while x < ncols
            invariant
                0 <= x <= ncols,
                0 <= y < rows,
                rows == g.len(),
                ncols == row_len(g, y as int),
                g == grid@,
                grid.wf(),
                init == consumed@,
                (elems_view(es@), cons@) == enhance_upto(g, init, y as int, x as int),
                all_wf(elems_view(es@)),
            decreases ncols - x,
        {
            let ghost prev = (elems_view(es@), cons@);
            let xi = x as i32;
            let yi = y as i32;
            let l = Loc { x: xi, y: yi };
            if !loc_in(&cons, &l) {
                match enhance_match_at(grid, xi, yi) {
                    None => {},
                    Some((mes, mls)) => {
                        if !any_consumed(&cons, &mls) {
                            push_all_elems(&mut es, &mes);
                            push_all_locs(&mut cons, &mls);
                        }
                    },
                }
            }
            proof {
                assert((elems_view(es@), cons@) == pass_step(
                    g,
                    x as int,
                    y as int,
                    enhance_match_spec(g, x as int, y as int),
                    prev,
                ));
                assert(enhance_upto(g, init, y as int, x + 1 as int) == pass_step(
                    g,
                    x as int,
                    y as int,
                    enhance_match_spec(g, x as int, y as int),
                    enhance_upto(g, init, y as int, x as int),
                ));
            }
            x = x + 1;
        }
        proof {
            assert(enhance_upto(g, init, y + 1 as int, 0) == enhance_upto(g, init, y as int, row_len(
                g,
                y as int,
            )));
        }
        y = y + 1;
    }
    (es, cons)
}

/// Run the per-cell pass over the whole grid, skipping consumed cells.
pub fn run_percell_pass(grid: &Grid, consumed: &Vec<Loc>) -> (r: Vec<Element>)
    requires
        grid.wf(),
    ensures
        elems_view(r@) == percell_pass_spec(grid@, consumed@),
        all_wf(elems_view(r@)),
{
    let ghost g = grid@;
    let ghost cons = consumed@;
    let mut es: Vec<Element> = Vec::new();
    let rows = grid.row_count();
    let mut y: usize = 0;
    while y < rows
        invariant
            0 <= y <= rows,
            rows == g.len(),
            g == grid@,
            grid.wf(),
            cons == consumed@,
            elems_view(es@) == percell_upto(g, cons, y as int, 0),
            all_wf(elems_view(es@)),
        decreases rows - y,
    {
        let ncols = grid.col_count(y);
        let mut x: usize = 0;
        while x < ncols
            invariant
                0 <= x <= ncols,
                0 <= y < rows,
                rows == g.len(),
                ncols == row_len(g, y as int),
                g == grid@,
                grid.wf(),
                cons == consumed@,
                elems_view(es@) == percell_upto(g, cons, y as int, x as int),
                all_wf(elems_view(es@)),
            decreases ncols - x,
        {
            let ghost prev = elems_view(es@);
            let xi = x as i32;
            let yi = y as i32;
            let l = Loc { x: xi, y: yi };
            if !loc_in(consumed, &l) {
                let ces = cell_elements(grid, xi, yi);
                push_all_elems(&mut es, &ces);
            }
            proof {
                if cons.contains((Loc { x: xi, y: yi })) {
                    assert(elems_view(es@) == prev);
                } else {
                    assert(elems_view(es@) == prev + cell_elems_spec(g, x as int, y as int));
                }
                assert(percell_upto(g, cons, y as int, x + 1 as int) == (if cons.contains(
                    (Loc { x: xi, y: yi }),
                ) {
                    percell_upto(g, cons, y as int, x as int)
                } else {
                    percell_upto(g, cons, y as int, x as int) + cell_elems_spec(
                        g,
                        x as int,
                        y as int,
                    )
                }));
            }
            x = x + 1;
        }
        proof {
            assert(percell_upto(g, cons, y + 1 as int, 0) == percell_upto(g, cons, y as int, row_len(
                g,
                y as int,
            )));
        }
        y = y + 1;
    }
    es
}

/// Every element the grid's passes emit, in pass order.
pub fn all_elements(grid: &Grid) -> (r: Vec<Element>)
    requires
        grid.wf(),
    ensures
        elems_view(r@) == all_elements_spec(grid@),
        all_wf(elems_view(r@)),
{
    let (mut es, cons) = run_circle_pass(grid);
    let (es2, cons2) = run_enhance_pass(grid, &cons);
    let es3 = run_percell_pass(grid, &cons2);
    push_all_elems(&mut es, &es2);
    push_all_elems(&mut es, &es3);
    proof {
        assert(elems_view(es@) =~= all_elements_spec(grid@));
        assert(all_wf(elems_view(es@)));
    }
    es
}

} // verus!
