use vstd::prelude::*;
use vstd::string::*;
use crate::geom::{Loc, Block, PointBlock, resolve_spec, resolve, loc_in_range};
use crate::grid::{Grid, GridV, char_at, cell_text};
use crate::element::{Element, ElemV, wf_elem};
use crate::properties::{
    Signal, Fragment, Can, IntendedEntry,
    is_static_spec, is_static, has_characteristic_spec, has_characteristic,
    is_strong_block_spec, is_strong_block, is_medium_block_spec, is_medium_block,
    intensify_entry_spec, intensify_entry, intended_entry_spec, intended_entry,
    property_entry_spec, property_entry,
};
use crate::unicode::{alphanumeric_of, is_alphanumeric_char};
use crate::reducer::elems_view;

verus! {

/// A fragment as emitted by one cell: a geometric primitive, or a text run.
pub enum FragV {
    G(Fragment),
    T(Seq<char>),
}

/// Coordinates the cell logic may look at: at most a few steps outside a
/// grid whose sides fit `grid_dims_ok`.
pub open spec fn xy_ok(x: int, y: int) -> bool {
    -16 <= x <= 0x4100_0000 && -16 <= y <= 0x4100_0000
}

/// The character declares the block at exactly this signal level.
pub open spec fn can_connect_spec(c: char, sig: Signal, b: Block) -> bool {
    match sig {
        Signal::Strong => is_strong_block_spec(c, b),
        Signal::Medium => is_medium_block_spec(c, b),
        Signal::Weak => false,
    }
}

/// Strong or medium: enough to answer a medium-level probe.
pub open spec fn can_pass_medium_spec(c: char, b: Block) -> bool {
    is_strong_block_spec(c, b) || is_medium_block_spec(c, b)
}

/// Strong, medium or weak: enough to answer a weak-level probe.
pub open spec fn can_pass_weakly_spec(c: char, b: Block) -> bool {
    can_pass_medium_spec(c, b)
}

/// Probe the block at the signal level: a strong probe needs a strong
/// declaration, weaker probes accept stronger declarations.
pub open spec fn can_block_pass_spec(c: char, b: Block, sig: Signal) -> bool {
    match sig {
        Signal::Strong => is_strong_block_spec(c, b),
        Signal::Medium => can_pass_medium_spec(c, b),
        Signal::Weak => can_pass_weakly_spec(c, b),
    }
}

/// Whether the cell at `(x, y)` satisfies the neighbour predicate.
pub open spec fn is_satisfied_spec(g: GridV, x: int, y: int, can: Can) -> bool {
    match can {
        Can::ConnectTo(b, sig) => can_block_pass_spec(char_at(g, x, y), b, sig),
        Can::Is(c) => char_at(g, x, y) == c,
        Can::IsStrongAll2(b1, b2) => is_strong_block_spec(char_at(g, x, y), b1)
            && is_strong_block_spec(char_at(g, x, y), b2),
    }
}

/// Whether some intensification rule with index `>= k` of the character at
/// `(x, y)` promotes `b` to strong.
pub open spec fn is_intensified_from_spec(g: GridV, x: int, y: int, b: Block, k: int) -> bool
    decreases 8 - k,
{
    if k < 0 || k >= 8 {
        false
    } else {
        match intensify_entry_spec(char_at(g, x, y), k) {
            None => is_intensified_from_spec(g, x, y, b, k + 1),
            Some(e) => (e.block == b && is_satisfied_spec(
                g,
                x + e.cond.dx,
                y + e.cond.dy,
                e.cond.can,
            )) || is_intensified_from_spec(g, x, y, b, k + 1),
        }
    }
}

/// Whether intensification promotes block `b` of the cell at `(x, y)` to
/// strong.
pub open spec fn is_intensified_spec(g: GridV, x: int, y: int, b: Block) -> bool {
    is_intensified_from_spec(g, x, y, b, 0)
}

/// The block is strong outright, or intensification makes it so.
pub open spec fn can_be_strong_spec(g: GridV, x: int, y: int, b: Block) -> bool {
    is_strong_block_spec(char_at(g, x, y), b) || is_intensified_spec(g, x, y, b)
}

/// Whether the cell is used as drawing: statically a box-drawing glyph, or
/// one of the ten enabling block pairs connects to the matching neighbour.
pub open spec fn used_as_drawing_spec(g: GridV, x: int, y: int) -> bool {
    let c = char_at(g, x, y);
    is_static_spec(c) || (is_strong_block_spec(c, Block::O) && can_pass_medium_spec(
        char_at(g, x + 1, y),
        Block::K,
    )) || (is_strong_block_spec(c, Block::K) && can_pass_medium_spec(char_at(g, x - 1, y), Block::O))
        || (is_strong_block_spec(c, Block::C) && can_pass_medium_spec(
        char_at(g, x, y - 1),
        Block::W,
    )) || (is_strong_block_spec(c, Block::W) && can_pass_medium_spec(char_at(g, x, y + 1), Block::C))
        || (is_strong_block_spec(c, Block::A) && can_pass_medium_spec(
        char_at(g, x - 1, y - 1),
        Block::Y,
    )) || (is_strong_block_spec(c, Block::Y) && can_pass_medium_spec(
        char_at(g, x + 1, y + 1),
        Block::A,
    )) || (is_strong_block_spec(c, Block::E) && can_pass_medium_spec(
        char_at(g, x + 1, y - 1),
        Block::U,
    )) || (is_strong_block_spec(c, Block::U) && can_pass_medium_spec(
        char_at(g, x - 1, y + 1),
        Block::E,
    )) || (is_strong_block_spec(c, Block::U) && can_pass_medium_spec(
        char_at(g, x - 1, y),
        Block::Y,
    )) || (is_strong_block_spec(c, Block::Y) && can_pass_medium_spec(
        char_at(g, x + 1, y),
        Block::U,
    ))
}

/// A character that counts as ordinary text: alphanumeric, excluding the
/// circle endpoints `o`, `O` and the underscore.
pub open spec fn is_text_char_spec(c: char) -> bool {
    !(c == 'o' || c == 'O' || c == '_') && alphanumeric_of(c)
}

/// Used as text: not used as drawing, and an immediate left or right
/// neighbour is ordinary text.
pub open spec fn used_as_text_spec(g: GridV, x: int, y: int) -> bool {
    !used_as_drawing_spec(g, x, y) && (is_text_char_spec(char_at(g, x - 1, y))
        || is_text_char_spec(char_at(g, x + 1, y)))
}

/// Blank: the NUL of an absent or continuation cell, or a space.
pub open spec fn is_blank_spec(c: char) -> bool {
    c == '\0' || c == ' '
}

/// The fragments of one table entry, in order.
pub open spec fn opt_frag_seq(o: Option<Fragment>) -> Seq<Fragment> {
    match o {
        None => Seq::empty(),
        Some(f) => seq![f],
    }
}

/// Whether every block an intended behaviour requires can be made strong.
pub open spec fn intended_blocks_ok(g: GridV, x: int, y: int, e: IntendedEntry) -> bool {
    &&& can_be_strong_spec(g, x, y, e.b1)
    &&& (e.b2 matches Some(b) ==> can_be_strong_spec(g, x, y, b))
    &&& (e.b3 matches Some(b) ==> can_be_strong_spec(g, x, y, b))
}

/// The fragments of all intended behaviours with index `>= k` that match at
/// `(x, y)`.
pub open spec fn intended_from_spec(g: GridV, x: int, y: int, k: int) -> Seq<Fragment>
    decreases 8 - k,
{
    if k < 0 || k >= 8 {
        Seq::empty()
    } else {
        let rest = intended_from_spec(g, x, y, k + 1);
        match intended_entry_spec(char_at(g, x, y), k) {
            None => rest,
            Some(e) => if intended_blocks_ok(g, x, y, e) && !used_as_text_spec(g, x, y) {
                seq![e.frag] + opt_frag_seq(e.frag2) + opt_frag_seq(e.frag3) + rest
            } else {
                rest
            },
        }
    }
}

/// The fragments of all default properties with index `>= k` whose block is
/// strong or intensified at `(x, y)`.
pub open spec fn props_from_spec(g: GridV, x: int, y: int, k: int) -> Seq<Fragment>
    decreases 8 - k,
{
    if k < 0 || k >= 8 {
        Seq::empty()
    } else {
        let rest = props_from_spec(g, x, y, k + 1);
        match property_entry_spec(char_at(g, x, y), k) {
            None => rest,
            Some(e) => if (is_strong_block_spec(char_at(g, x, y), e.block) || is_intensified_spec(
                g,
                x,
                y,
                e.block,
            )) && !used_as_text_spec(g, x, y) {
                seq![e.frag] + opt_frag_seq(e.frag2) + rest
            } else {
                rest
            },
        }
    }
}

/// First-occurrence deduplication of a fragment list.
pub open spec fn dedup_frags(s: Seq<Fragment>) -> Seq<Fragment>
    decreases s.len(),
{
    if s.len() == 0 {
        Seq::empty()
    } else {
        let d = dedup_frags(s.drop_last());
        if d.contains(s.last()) {
            d
        } else {
            d.push(s.last())
        }
    }
}

/// The fragments one cell contributes in the per-cell pass: its matching
/// intended behaviours, else its matching default properties, else a text
/// run when the cell is not blank; geometric output is sorted by the
/// fragment order and deduplicated.
pub open spec fn cell_fragments_spec(g: GridV, x: int, y: int) -> Seq<FragV> {
    let c = char_at(g, x, y);
    if !has_characteristic_spec(c) {
        if is_blank_spec(c) {
            Seq::empty()
        } else {
            seq![FragV::T(cell_text(g, x, y))]
        }
    } else {
        let intended = intended_from_spec(g, x, y, 0);
        if intended.len() > 0 {
            dedup_frags(crate::order::frag_sort_spec(intended)).map_values(
                |f: Fragment| FragV::G(f),
            )
        } else {
            let props = props_from_spec(g, x, y, 0);
            if props.len() > 0 {
                dedup_frags(crate::order::frag_sort_spec(props)).map_values(
                    |f: Fragment| FragV::G(f),
                )
            } else if !is_blank_spec(c) {
                seq![FragV::T(cell_text(g, x, y))]
            } else {
                Seq::empty()
            }
        }
    }
}

/// Where a fragment of the cell at `(x, y)` lands as an element.
pub open spec fn frag_elem_spec(x: int, y: int, fv: FragV) -> ElemV {
    let loc = Loc { x: x as i32, y: y as i32 };
    match fv {
        FragV::T(t) => ElemV::Text { loc, text: t },
        FragV::G(f) => match f {
            Fragment::Line(a, b) => ElemV::Line {
                s: resolve_spec(loc, a),
                e: resolve_spec(loc, b),
                stroke: crate::element::Stroke::Solid,
                sf: crate::element::Feature::Nothing,
                ef: crate::element::Feature::Nothing,
            },
            Fragment::DashedLine(a, b) => ElemV::Line {
                s: resolve_spec(loc, a),
                e: resolve_spec(loc, b),
                stroke: crate::element::Stroke::Dashed,
                sf: crate::element::Feature::Nothing,
                ef: crate::element::Feature::Nothing,
            },
            Fragment::CircleStartLine(a, b) => ElemV::Line {
                s: resolve_spec(loc, a),
                e: resolve_spec(loc, b),
                stroke: crate::element::Stroke::Solid,
                sf: crate::element::Feature::Circle,
                ef: crate::element::Feature::Nothing,
            },
            Fragment::SquareStartLine(a, b) => ElemV::Line {
                s: resolve_spec(loc, a),
                e: resolve_spec(loc, b),
                stroke: crate::element::Stroke::Solid,
                sf: crate::element::Feature::Square,
                ef: crate::element::Feature::Nothing,
            },
            Fragment::CircleOpenLine(a, b) => ElemV::Line {
                s: resolve_spec(loc, a),
                e: resolve_spec(loc, b),
                stroke: crate::element::Stroke::Solid,
                sf: crate::element::Feature::OpenCircle,
                ef: crate::element::Feature::Nothing,
            },
            Fragment::BigCircleOpenLine(a, b) => ElemV::Line {
                s: resolve_spec(loc, a),
                e: resolve_spec(loc, b),
                stroke: crate::element::Stroke::Solid,
                sf: crate::element::Feature::BigOpenCircle,
                ef: crate::element::Feature::Nothing,
            },
            Fragment::ArrowLine(a, b) => ElemV::Line {
                s: resolve_spec(loc, a),
                e: resolve_spec(loc, b),
                stroke: crate::element::Stroke::Solid,
                sf: crate::element::Feature::Nothing,
                ef: crate::element::Feature::Arrow,
            },
            Fragment::ClearArrowLine(a, b) => ElemV::Line {
                s: resolve_spec(loc, a),
                e: resolve_spec(loc, b),
                stroke: crate::element::Stroke::Solid,
                sf: crate::element::Feature::Nothing,
                ef: crate::element::Feature::ClearArrow,
            },
            Fragment::StartArrowLine(a, b) => ElemV::Line {
                s: resolve_spec(loc, a),
                e: resolve_spec(loc, b),
                stroke: crate::element::Stroke::Solid,
                sf: crate::element::Feature::Arrow,
                ef: crate::element::Feature::Nothing,
            },
            Fragment::Arc(a, b, m) => ElemV::Arc {
                s: resolve_spec(loc, a),
                e: resolve_spec(loc, b),
                radius: 2 * m,
                flag: crate::element::ArcFlag::Minor,
                sweep: false,
                stroke: crate::element::Stroke::Solid,
                sf: crate::element::Feature::Nothing,
                ef: crate::element::Feature::Nothing,
            },
            Fragment::OpenCircle(c0, m) => ElemV::Circle {
                center: resolve_spec(loc, c0),
                radius: 2 * m,
            },
        },
    }
}

/// The elements one cell contributes in the per-cell pass.
pub open spec fn cell_elems_spec(g: GridV, x: int, y: int) -> Seq<ElemV> {
    cell_fragments_spec(g, x, y).map_values(|fv: FragV| frag_elem_spec(x, y, fv))
}

/// Exact-level probe of the table.
pub fn can_connect(c: char, sig: Signal, b: Block) -> (r: bool)
    ensures
        r == can_connect_spec(c, sig, b),
{
    match sig {
        Signal::Strong => is_strong_block(c, b),
        Signal::Medium => is_medium_block(c, b),
        Signal::Weak => false,
    }
}

/// Strong-or-medium probe of the table.
pub fn can_pass_medium(c: char, b: Block) -> (r: bool)
    ensures
        r == can_pass_medium_spec(c, b),
{
    is_strong_block(c, b) || is_medium_block(c, b)
}

/// Probe at a required signal level.
pub fn can_block_pass(c: char, b: Block, sig: Signal) -> (r: bool)
    ensures
        r == can_block_pass_spec(c, b, sig),
{
    match sig {
        Signal::Strong => is_strong_block(c, b),
        Signal::Medium => can_pass_medium(c, b),
        Signal::Weak => can_pass_medium(c, b),
    }
}

/// Whether the cell at `(x, y)` satisfies the neighbour predicate.
pub fn is_satisfied(grid: &Grid, x: i32, y: i32, can: &Can) -> (r: bool)
    ensures
        r == is_satisfied_spec(grid@, x as int, y as int, *can),
{
    match *can {
        Can::ConnectTo(b, sig) => can_block_pass(grid.char_at_xy(x, y), b, sig),
        Can::Is(c) => grid.char_at_xy(x, y) == c,
        Can::IsStrongAll2(b1, b2) => {
            let c = grid.char_at_xy(x, y);
            is_strong_block(c, b1) && is_strong_block(c, b2)
        },
    }
}

/// Whether intensification promotes block `b` at `(x, y)` to strong.
pub fn is_intensified(grid: &Grid, x: i32, y: i32, b: Block) -> (r: bool)
    requires
        xy_ok(x as int, y as int),
    ensures
        r == is_intensified_spec(grid@, x as int, y as int, b),
{
    let c = grid.char_at_xy(x, y);
    let mut k: usize = 0;
    while k < 8
        invariant
            0 <= k <= 8,
            xy_ok(x as int, y as int),
            c == char_at(grid@, x as int, y as int),
            is_intensified_spec(grid@, x as int, y as int, b) == is_intensified_from_spec(
                grid@,
                x as int,
                y as int,
                b,
                k as int,
            ),
        decreases 8 - k,
    {
        match intensify_entry(c, k) {
            None => {},
            Some(e) => {
                if e.block == b && is_satisfied(grid, x + e.cond.dx, y + e.cond.dy, &e.cond.can) {
                    return true;
                }
            },
        }
        k = k + 1;
    }
    false
}

/// The block is strong outright or intensified.
pub fn can_be_strong(grid: &Grid, x: i32, y: i32, b: Block) -> (r: bool)
    requires
        xy_ok(x as int, y as int),
    ensures
        r == can_be_strong_spec(grid@, x as int, y as int, b),
{
    is_strong_block(grid.char_at_xy(x, y), b) || is_intensified(grid, x, y, b)
}

/// Whether the cell at `(x, y)` is used as drawing.
pub fn used_as_drawing(grid: &Grid, x: i32, y: i32) -> (r: bool)
    requires
        xy_ok(x as int, y as int),
    ensures
        r == used_as_drawing_spec(grid@, x as int, y as int),
{
    let c = grid.char_at_xy(x, y);
    if is_static(c) {
        return true;
    }
    (is_strong_block(c, Block::O) && can_pass_medium(grid.char_at_xy(x + 1, y), Block::K)) || (
    is_strong_block(c, Block::K) && can_pass_medium(grid.char_at_xy(x - 1, y), Block::O)) || (
    is_strong_block(c, Block::C) && can_pass_medium(grid.char_at_xy(x, y - 1), Block::W)) || (
    is_strong_block(c, Block::W) && can_pass_medium(grid.char_at_xy(x, y + 1), Block::C)) || (
    is_strong_block(c, Block::A) && can_pass_medium(grid.char_at_xy(x - 1, y - 1), Block::Y)) || (
    is_strong_block(c, Block::Y) && can_pass_medium(grid.char_at_xy(x + 1, y + 1), Block::A)) || (
    is_strong_block(c, Block::E) && can_pass_medium(grid.char_at_xy(x + 1, y - 1), Block::U)) || (
    is_strong_block(c, Block::U) && can_pass_medium(grid.char_at_xy(x - 1, y + 1), Block::E)) || (
    is_strong_block(c, Block::U) && can_pass_medium(grid.char_at_xy(x - 1, y), Block::Y)) || (
    is_strong_block(c, Block::Y) && can_pass_medium(grid.char_at_xy(x + 1, y), Block::U))
}

/// Whether the character counts as ordinary text.
pub fn is_text_char(c: char) -> (r: bool)
    ensures
        r == is_text_char_spec(c),
{
    if c == 'o' || c == 'O' || c == '_' {
        false
    } else {
        is_alphanumeric_char(c)
    }
}

/// Whether the cell at `(x, y)` is used as text.
pub fn used_as_text(grid: &Grid, x: i32, y: i32) -> (r: bool)
    requires
        xy_ok(x as int, y as int),
    ensures
        r == used_as_text_spec(grid@, x as int, y as int),
{
    if used_as_drawing(grid, x, y) {
        false
    } else {
        is_text_char(grid.char_at_xy(x - 1, y)) || is_text_char(grid.char_at_xy(x + 1, y))
    }
}

/// The cell's text as an owned string, empty outside the grid.
pub fn cell_string(grid: &Grid, x: i32, y: i32) -> (r: String)
    ensures
        r@ == cell_text(grid@, x as int, y as int),
{
    match grid.get(&Loc { x, y }) {
        None => {
            let r = String::from_str("");
            proof {
                reveal_strlit("");
                assert(r@ =~= cell_text(grid@, x as int, y as int));
            }
            r
        },
        Some(s) => String::from_str(s.as_str()),
    }
}

/// Build the element a fragment of cell `(x, y)` denotes.
pub fn frag_to_element(x: i32, y: i32, f: &Fragment) -> (r: Element)
    requires
        xy_ok(x as int, y as int),
        frag_pb_ok(*f),
    ensures
        r@ == frag_elem_spec(x as int, y as int, FragV::G(*f)),
        wf_elem(r@),
{
    let loc = Loc { x, y };
    match *f {
        Fragment::Line(a, b) => crate::element::line(&resolve(&loc, &a), &resolve(&loc, &b)),
        Fragment::DashedLine(a, b) => crate::element::dashed_line(
            &resolve(&loc, &a),
            &resolve(&loc, &b),
        ),
        Fragment::CircleStartLine(a, b) => crate::element::circle_start_line(
            &resolve(&loc, &a),
            &resolve(&loc, &b),
        ),
        Fragment::SquareStartLine(a, b) => crate::element::square_start_line(
            &resolve(&loc, &a),
            &resolve(&loc, &b),
        ),
        Fragment::CircleOpenLine(a, b) => crate::element::circle_open_line(
            &resolve(&loc, &a),
            &resolve(&loc, &b),
        ),
        Fragment::BigCircleOpenLine(a, b) => crate::element::big_circle_open_line(
            &resolve(&loc, &a),
            &resolve(&loc, &b),
        ),
        Fragment::ArrowLine(a, b) => crate::element::arrow_line(
            &resolve(&loc, &a),
            &resolve(&loc, &b),
        ),
        Fragment::ClearArrowLine(a, b) => crate::element::clear_arrow_line(
            &resolve(&loc, &a),
            &resolve(&loc, &b),
        ),
        Fragment::StartArrowLine(a, b) => crate::element::start_arrow_line(
            &resolve(&loc, &a),
            &resolve(&loc, &b),
        ),
        Fragment::Arc(a, b, m) => crate::element::arc(&resolve(&loc, &a), &resolve(&loc, &b), 2 * m),
        Fragment::OpenCircle(c0, m) => crate::element::open_circle(&resolve(&loc, &c0), 2 * m),
    }
}

/// The symbolic points of a fragment stay within the cell window the table
/// uses, and radii stay small.
pub open spec fn frag_pb_ok(f: Fragment) -> bool {
    match f {
        Fragment::Line(a, b) | Fragment::DashedLine(a, b) | Fragment::CircleStartLine(a, b)
            | Fragment::SquareStartLine(a, b) | Fragment::CircleOpenLine(a, b)
            | Fragment::BigCircleOpenLine(a, b) | Fragment::ArrowLine(a, b)
            | Fragment::ClearArrowLine(a, b) | Fragment::StartArrowLine(a, b) => pb_ok(a) && pb_ok(
            b,
        ),
        Fragment::Arc(a, b, m) => pb_ok(a) && pb_ok(b) && m <= 8,
        Fragment::OpenCircle(c0, m) => pb_ok(c0) && m <= 8,
    }
}

/// The symbolic point is within four cells of its owner.
pub open spec fn pb_ok(p: PointBlock) -> bool {
    -4 <= p.dx <= 4 && -4 <= p.dy <= 4
}


/// Table constants stay within the windows the geometry needs: conditions
/// look one cell away, fragments stay within the cell window.
proof fn lemma_table_entry_ok(c: char, k: int)
    ensures
        intended_entry_spec(c, k) matches Some(e) ==> frag_pb_ok(e.frag) && (e.frag2 matches Some(
            f,
        ) ==> frag_pb_ok(f)) && (e.frag3 matches Some(f) ==> frag_pb_ok(f)),
        property_entry_spec(c, k) matches Some(e) ==> frag_pb_ok(e.frag) && (e.frag2 matches Some(
            f,
        ) ==> frag_pb_ok(f)),
{
}

/// Whether the vector holds the fragment.
fn frag_contains(v: &Vec<Fragment>, f: &Fragment) -> (r: bool)
    ensures
        r == v@.contains(*f),
{
    let n = v.len();
    let mut i: usize = 0;
    while i < n
        invariant
            0 <= i <= n,
            n == v@.len(),
            forall|j: int| 0 <= j < i ==> v@[j] != *f,
        decreases n - i,
    {
        if v[i] == *f {
            return true;
        }
        i = i + 1;
    }
    false
}

/// First-occurrence deduplication.
fn dedup_vec(v: &Vec<Fragment>) -> (r: Vec<Fragment>)
    ensures
        r@ == dedup_frags(v@),
        forall|i: int| 0 <= i < r@.len() ==> v@.contains(#[trigger] r@[i]),
{
    let n = v.len();
    let mut out: Vec<Fragment> = Vec::new();
    let mut i: usize = 0;
    while i < n
        invariant
            0 <= i <= n,
            n == v@.len(),
            out@ == dedup_frags(v@.subrange(0, i as int)),
            forall|j: int| 0 <= j < out@.len() ==> v@.contains(#[trigger] out@[j]),
        decreases n - i,
    {
        proof {
            assert(v@.subrange(0, i + 1 as int).drop_last() =~= v@.subrange(0, i as int));
            assert(v@.subrange(0, i + 1 as int).last() == v@[i as int]);
        }
        if !frag_contains(&out, &v[i]) {
            out.push(v[i]);
        }
        i = i + 1;
    }
    proof {
        assert(v@.subrange(0, n as int) =~= v@);
    }
    out
}

/// Collect the fragments of the matching intended behaviours, in table
/// order.
fn collect_intended(grid: &Grid, x: i32, y: i32) -> (r: Vec<Fragment>)
    requires
        xy_ok(x as int, y as int),
    ensures
        r@ == intended_from_spec(grid@, x as int, y as int, 0),
        forall|i: int| 0 <= i < r@.len() ==> frag_pb_ok(#[trigger] r@[i]),
{
    let c = grid.char_at_xy(x, y);
    let mut out: Vec<Fragment> = Vec::new();
    let mut k: usize = 0;
    while k < 8
        invariant
            0 <= k <= 8,
            xy_ok(x as int, y as int),
            c == char_at(grid@, x as int, y as int),
            intended_from_spec(grid@, x as int, y as int, 0) == out@ + intended_from_spec(
                grid@,
                x as int,
                y as int,
                k as int,
            ),
            forall|i: int| 0 <= i < out@.len() ==> frag_pb_ok(#[trigger] out@[i]),
        decreases 8 - k,
    {
        let ghost pre = out@;
        let ghost gi = intended_from_spec(grid@, x as int, y as int, k as int);
        let ghost gnext = intended_from_spec(grid@, x as int, y as int, k + 1 as int);
        match intended_entry(c, k) {
            None => {},
            Some(e) => {
                let ok = can_be_strong(grid, x, y, e.b1) && (match e.b2 {
                    None => true,
                    Some(b) => can_be_strong(grid, x, y, b),
                }) && (match e.b3 {
                    None => true,
                    Some(b) => can_be_strong(grid, x, y, b),
                });
                if ok && !used_as_text(grid, x, y) {
                    proof {
                        lemma_table_entry_ok(c, k as int);
                    }
                    out.push(e.frag);
                    match e.frag2 {
                        None => {},
                        Some(f) => out.push(f),
                    }
                    match e.frag3 {
                        None => {},
                        Some(f) => out.push(f),
                    }
                    proof {
                        assert(out@ =~= pre + (seq![e.frag] + opt_frag_seq(e.frag2) + opt_frag_seq(
                            e.frag3,
                        )));
                        assert(gi == (seq![e.frag] + opt_frag_seq(e.frag2) + opt_frag_seq(e.frag3))
                            + gnext);
                        assert(pre + gi =~= out@ + gnext);
                    }
                }
            },
        }
        k = k + 1;
    }
    proof {
        assert(intended_from_spec(grid@, x as int, y as int, 8) =~= Seq::<Fragment>::empty());
        assert(out@ + Seq::<Fragment>::empty() =~= out@);
    }
    out
}

/// Collect the fragments of the default properties whose block is strong or
/// intensified, in table order.
fn collect_props(grid: &Grid, x: i32, y: i32) -> (r: Vec<Fragment>)
    requires
        xy_ok(x as int, y as int),
    ensures
        r@ == props_from_spec(grid@, x as int, y as int, 0),
        forall|i: int| 0 <= i < r@.len() ==> frag_pb_ok(#[trigger] r@[i]),
{
    let c = grid.char_at_xy(x, y);
    let mut out: Vec<Fragment> = Vec::new();
    let mut k: usize = 0;
    while k < 8
        invariant
            0 <= k <= 8,
            xy_ok(x as int, y as int),
            c == char_at(grid@, x as int, y as int),
            props_from_spec(grid@, x as int, y as int, 0) == out@ + props_from_spec(
                grid@,
                x as int,
                y as int,
                k as int,
            ),
            forall|i: int| 0 <= i < out@.len() ==> frag_pb_ok(#[trigger] out@[i]),
        decreases 8 - k,
    {
        let ghost pre = out@;
        let ghost gi = props_from_spec(grid@, x as int, y as int, k as int);
        let ghost gnext = props_from_spec(grid@, x as int, y as int, k + 1 as int);
        match property_entry(c, k) {
            None => {},
            Some(e) => {
                let hit = is_strong_block(c, e.block) || is_intensified(grid, x, y, e.block);
                if hit && !used_as_text(grid, x, y) {
                    proof {
                        lemma_table_entry_ok(c, k as int);
                    }
                    out.push(e.frag);
                    match e.frag2 {
                        None => {},
                        Some(f) => out.push(f),
                    }
                    proof {
                        assert(out@ =~= pre + (seq![e.frag] + opt_frag_seq(e.frag2)));
                        assert(gi == (seq![e.frag] + opt_frag_seq(e.frag2)) + gnext);
                        assert(pre + gi =~= out@ + gnext);
                    }
                }
            },
        }
        k = k + 1;
    }
    proof {
        assert(props_from_spec(grid@, x as int, y as int, 8) =~= Seq::<Fragment>::empty());
        assert(out@ + Seq::<Fragment>::empty() =~= out@);
    }
    out
}

/// Lower a fragment list of one cell into elements.
fn frags_to_elements(x: i32, y: i32, v: &Vec<Fragment>) -> (r: Vec<Element>)
    requires
        xy_ok(x as int, y as int),
        forall|i: int| 0 <= i < v@.len() ==> frag_pb_ok(#[trigger] v@[i]),
    ensures
        elems_view(r@) == v@.map_values(
            |f: Fragment| frag_elem_spec(x as int, y as int, FragV::G(f)),
        ),
        crate::reducer::all_wf(elems_view(r@)),
{
    let n = v.len();
    let mut out: Vec<Element> = Vec::new();
    let mut i: usize = 0;
    while i < n
        invariant
            0 <= i <= n,
            n == v@.len(),
            xy_ok(x as int, y as int),
            forall|j: int| 0 <= j < v@.len() ==> frag_pb_ok(#[trigger] v@[j]),
            out@.len() == i,
            forall|j: int| 0 <= j < i ==> (#[trigger] out@[j])@ == frag_elem_spec(
                x as int,
                y as int,
                FragV::G(v@[j]),
            ),
            forall|j: int| 0 <= j < i ==> wf_elem((#[trigger] out@[j])@),
        decreases n - i,
    {
        let e = frag_to_element(x, y, &v[i]);
        out.push(e);
        i = i + 1;
    }
    proof {
        assert(elems_view(out@) =~= v@.map_values(
            |f: Fragment| frag_elem_spec(x as int, y as int, FragV::G(f)),
        ));
        assert forall|j: int| 0 <= j < elems_view(out@).len() implies wf_elem(
            #[trigger] elems_view(out@)[j],
        ) by {
            assert(elems_view(out@)[j] == out@[j]@);
        }
    }
    out
}

/// The elements the cell at `(x, y)` contributes in the per-cell pass:
/// exactly `cell_elems_spec`.
pub fn cell_elements(grid: &Grid, x: i32, y: i32) -> (r: Vec<Element>)
    requires
        xy_ok(x as int, y as int),
    ensures
        elems_view(r@) == cell_elems_spec(grid@, x as int, y as int),
        crate::reducer::all_wf(elems_view(r@)),
{
    let ghost gv = grid@;
    let c = grid.char_at_xy(x, y);
    let blank = c == '\0' || c == ' ';
    let ghost goal = cell_elems_spec(gv, x as int, y as int);
    if !has_characteristic(c) {
        if blank {
            let out: Vec<Element> = Vec::new();
            proof {
                assert(elems_view(out@) =~= goal);
            }
            out
        } else {
            let t = cell_string(grid, x, y);
            let mut out: Vec<Element> = Vec::new();
            out.push(crate::element::text(&Loc { x, y }, t));
            proof {
                assert(cell_fragments_spec(gv, x as int, y as int) =~= seq![
                    FragV::T(cell_text(gv, x as int, y as int)),
                ]);
                assert(elems_view(out@) =~= goal);
            }
            out
        }
    } else {
        let mut intended = collect_intended(grid, x, y);
        if intended.len() > 0 {
            let ghost ipre = intended@;
            crate::order::frag_sort(&mut intended);
            proof {
                crate::order::lemma_frag_sort_from(ipre);
            }
            let d = dedup_vec(&intended);
            proof {
                assert forall|i: int| 0 <= i < d@.len() implies frag_pb_ok(#[trigger] d@[i]) by {
                    assert(intended@.contains(d@[i]));
                    let j = choose|j: int| 0 <= j < intended@.len() && intended@[j] == d@[i];
                    assert(ipre.contains(intended@[j]));
                    let k = choose|k: int| 0 <= k < ipre.len() && ipre[k] == intended@[j];
                }
            }
            let out = frags_to_elements(x, y, &d);
            proof {
                let fr = cell_fragments_spec(gv, x as int, y as int);
                assert(fr == dedup_frags(crate::order::frag_sort_spec(ipre)).map_values(
                    |f: Fragment| FragV::G(f),
                ));
                assert(elems_view(out@) =~= goal);
            }
            out
        } else {
            let mut props = collect_props(grid, x, y);
            if props.len() > 0 {
                let ghost ppre = props@;
                crate::order::frag_sort(&mut props);
                proof {
                    crate::order::lemma_frag_sort_from(ppre);
                }
                let d = dedup_vec(&props);
                proof {
                    assert forall|i: int| 0 <= i < d@.len() implies frag_pb_ok(
                        #[trigger] d@[i],
                    ) by {
                        assert(props@.contains(d@[i]));
                        let j = choose|j: int| 0 <= j < props@.len() && props@[j] == d@[i];
                        assert(ppre.contains(props@[j]));
                        let k = choose|k: int| 0 <= k < ppre.len() && ppre[k] == props@[j];
                    }
                }
                let out = frags_to_elements(x, y, &d);
                proof {
                    let fr = cell_fragments_spec(gv, x as int, y as int);
                    assert(fr == dedup_frags(crate::order::frag_sort_spec(ppre)).map_values(
                        |f: Fragment| FragV::G(f),
                    ));
                    assert(elems_view(out@) =~= goal);
                }
                out
            } else if !blank {
                let t = cell_string(grid, x, y);
                let mut out: Vec<Element> = Vec::new();
                out.push(crate::element::text(&Loc { x, y }, t));
                proof {
                    assert(cell_fragments_spec(gv, x as int, y as int) =~= seq![
                        FragV::T(cell_text(gv, x as int, y as int)),
                    ]);
                    assert(elems_view(out@) =~= goal);
                }
                out
            } else {
                let out: Vec<Element> = Vec::new();
                proof {
                    assert(elems_view(out@) =~= goal);
                }
                out
            }
        }
    }
}


/// First-occurrence deduplication leaves no duplicates.
pub proof fn lemma_dedup_frags_distinct(s: Seq<Fragment>)
    ensures
        forall|i: int, j: int|
            0 <= i < j < dedup_frags(s).len() ==> #[trigger] dedup_frags(s)[i]
                != #[trigger] dedup_frags(s)[j],
    decreases s.len(),
{
    if s.len() > 0 {
        lemma_dedup_frags_distinct(s.drop_last());
        let d = dedup_frags(s.drop_last());
        let t = dedup_frags(s);
        if !d.contains(s.last()) {
            assert forall|i: int, j: int| 0 <= i < j < t.len() implies (#[trigger] t[i])
                != (#[trigger] t[j]) by {
                if j < d.len() {
                    assert(t[i] == d[i] && t[j] == d[j]);
                } else {
                    assert(t[j] == s.last());
                    assert(t[i] == d[i]);
                    assert(!d.contains(s.last()));
                    assert(d[i] != s.last());
                }
            }
        }
    }
}

/// The geometric fragments one cell emits are pairwise distinct: the
/// per-cell pass sorts and deduplicates them.
pub proof fn lemma_cell_fragments_distinct(g: GridV, x: int, y: int)
    ensures
        forall|i: int, j: int|
            0 <= i < j < cell_fragments_spec(g, x, y).len() ==> (#[trigger] cell_fragments_spec(
                g,
                x,
                y,
            )[i]) != (#[trigger] cell_fragments_spec(g, x, y)[j]),
{
    let c = char_at(g, x, y);
    let fr = cell_fragments_spec(g, x, y);
    if has_characteristic_spec(c) {
        let intended = intended_from_spec(g, x, y, 0);
        let props = props_from_spec(g, x, y, 0);
        if intended.len() > 0 {
            let d = dedup_frags(crate::order::frag_sort_spec(intended));
            lemma_dedup_frags_distinct(crate::order::frag_sort_spec(intended));
            assert forall|i: int, j: int| 0 <= i < j < fr.len() implies (#[trigger] fr[i])
                != (#[trigger] fr[j]) by {
                assert(fr[i] == FragV::G(d[i]) && fr[j] == FragV::G(d[j]));
                assert(d[i] != d[j]);
            }
        } else if props.len() > 0 {
            let d = dedup_frags(crate::order::frag_sort_spec(props));
            lemma_dedup_frags_distinct(crate::order::frag_sort_spec(props));
            assert forall|i: int, j: int| 0 <= i < j < fr.len() implies (#[trigger] fr[i])
                != (#[trigger] fr[j]) by {
                assert(fr[i] == FragV::G(d[i]) && fr[j] == FragV::G(d[j]));
                assert(d[i] != d[j]);
            }
        }
    }
}


/// Every fragment that deduplication keeps comes from the input.
proof fn lemma_dedup_frags_from(s: Seq<Fragment>)
    ensures
        forall|i: int|
            0 <= i < dedup_frags(s).len() ==> s.contains(#[trigger] dedup_frags(s)[i]),
    decreases s.len(),
{
    if s.len() > 0 {
        lemma_dedup_frags_from(s.drop_last());
        let d = dedup_frags(s.drop_last());
        let t = dedup_frags(s);
        assert forall|i: int| 0 <= i < t.len() implies s.contains(#[trigger] t[i]) by {
            if i < d.len() {
                assert(s.drop_last().contains(d[i]));
                let k = choose|k: int| 0 <= k < s.drop_last().len() && s.drop_last()[k] == d[i];
                assert(s[k] == d[i]);
            } else {
                assert(t[i] == s.last());
                assert(s[s.len() - 1] == s.last());
            }
        }
    }
}

/// Deduplication keeps a sorted list sorted.
proof fn lemma_dedup_frags_sorted(s: Seq<Fragment>)
    requires
        crate::order::frags_sorted(s),
    ensures
        crate::order::frags_sorted(dedup_frags(s)),
    decreases s.len(),
{
    if s.len() > 0 {
        assert forall|i: int, j: int|
            0 <= i < j < s.drop_last().len() implies crate::order::frag_cmp_spec(
            #[trigger] s.drop_last()[i],
            #[trigger] s.drop_last()[j],
        ) <= 0 by {
            assert(s.drop_last()[i] == s[i] && s.drop_last()[j] == s[j]);
        }
        lemma_dedup_frags_sorted(s.drop_last());
        lemma_dedup_frags_from(s.drop_last());
        let d = dedup_frags(s.drop_last());
        let t = dedup_frags(s);
        if !d.contains(s.last()) {
            assert forall|i: int, j: int|
                0 <= i < j < t.len() implies crate::order::frag_cmp_spec(
                #[trigger] t[i],
                #[trigger] t[j],
            ) <= 0 by {
                if j < d.len() {
                    assert(t[i] == d[i] && t[j] == d[j]);
                } else {
                    assert(t[j] == s.last() && t[i] == d[i]);
                    assert(s.drop_last().contains(d[i]));
                    let k = choose|k: int|
                        0 <= k < s.drop_last().len() && s.drop_last()[k] == d[i];
                    assert(s[k] == d[i]);
                    assert(crate::order::frag_cmp_spec(s[k], s[s.len() - 1]) <= 0);
                }
            }
        }
    }
}

/// The geometric fragments one cell emits come out in the fragment order:
/// the per-cell pass sorts before deduplicating.
pub proof fn lemma_cell_fragments_sorted(g: GridV, x: int, y: int)
    ensures
        forall|i: int, j: int|
            0 <= i < j < cell_fragments_spec(g, x, y).len() ==> ((#[trigger] cell_fragments_spec(
                g,
                x,
                y,
            )[i]) matches FragV::G(f1) && (#[trigger] cell_fragments_spec(g, x, y)[j]) matches
                FragV::G(f2) ==> crate::order::frag_cmp_spec(f1, f2) <= 0),
{
    let c = char_at(g, x, y);
    let fr = cell_fragments_spec(g, x, y);
    if has_characteristic_spec(c) {
        let intended = intended_from_spec(g, x, y, 0);
        let props = props_from_spec(g, x, y, 0);
        if intended.len() > 0 {
            let sorted = crate::order::frag_sort_spec(intended);
            crate::order::lemma_frag_sort_sorted(intended);
            lemma_dedup_frags_sorted(sorted);
            let d = dedup_frags(sorted);
            assert forall|i: int, j: int|
                0 <= i < j < fr.len() implies ((#[trigger] fr[i]) matches FragV::G(f1) && (
            #[trigger] fr[j]) matches FragV::G(f2) ==> crate::order::frag_cmp_spec(f1, f2)
                <= 0) by {
                assert(fr[i] == FragV::G(d[i]) && fr[j] == FragV::G(d[j]));
                assert(crate::order::frag_cmp_spec(d[i], d[j]) <= 0);
            }
        } else if props.len() > 0 {
            let sorted = crate::order::frag_sort_spec(props);
            crate::order::lemma_frag_sort_sorted(props);
            lemma_dedup_frags_sorted(sorted);
            let d = dedup_frags(sorted);
            assert forall|i: int, j: int|
                0 <= i < j < fr.len() implies ((#[trigger] fr[i]) matches FragV::G(f1) && (
            #[trigger] fr[j]) matches FragV::G(f2) ==> crate::order::frag_cmp_spec(f1, f2)
                <= 0) by {
                assert(fr[i] == FragV::G(d[i]) && fr[j] == FragV::G(d[j]));
                assert(crate::order::frag_cmp_spec(d[i], d[j]) <= 0);
            }
        }
    }
}

} // verus!
