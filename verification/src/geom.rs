use vstd::prelude::*;

verus! {

/// Cell coordinates into the grid: origin at the top left, `x` grows to the
/// right, `y` grows downward. Neighbour lookups may step outside the grid,
/// so the fields are signed.
#[derive(Debug, Clone, Copy, PartialEq, Eq, Structural)]
pub struct Loc {
    pub x: i32,
    pub y: i32,
}

/// Bound on cell coordinates: every location the library works with stays
/// within one step of a grid whose sides fit in `i32`, so coordinate
/// arithmetic below stays inside `i64`.
pub open spec fn loc_in_range(l: Loc) -> bool {
    -16 <= l.x <= 0x4100_0000 && -16 <= l.y <= 0x4100_0000
}

impl Loc {
    pub fn new(x: i32, y: i32) -> (r: Loc)
        ensures
            r.x == x && r.y == y,
    {
        Loc { x, y }
    }

    pub fn top(&self) -> (r: Loc)
        requires
            self.y - 1 >= i32::MIN,
        ensures
            r.x == self.x && r.y == self.y - 1,
    {
        Loc { x: self.x, y: self.y - 1 }
    }

    pub fn bottom(&self) -> (r: Loc)
        requires
            self.y + 1 <= i32::MAX,
        ensures
            r.x == self.x && r.y == self.y + 1,
    {
        Loc { x: self.x, y: self.y + 1 }
    }

    pub fn left(&self) -> (r: Loc)
        requires
            self.x - 1 >= i32::MIN,
        ensures
            r.x == self.x - 1 && r.y == self.y,
    {
        Loc { x: self.x - 1, y: self.y }
    }

    pub fn right(&self) -> (r: Loc)
        requires
            self.x + 1 <= i32::MAX,
        ensures
            r.x == self.x + 1 && r.y == self.y,
    {
        Loc { x: self.x + 1, y: self.y }
    }

    pub fn top_left(&self) -> (r: Loc)
        requires
            self.x - 1 >= i32::MIN && self.y - 1 >= i32::MIN,
        ensures
            r.x == self.x - 1 && r.y == self.y - 1,
    {
        Loc { x: self.x - 1, y: self.y - 1 }
    }

    pub fn top_right(&self) -> (r: Loc)
        requires
            self.x + 1 <= i32::MAX && self.y - 1 >= i32::MIN,
        ensures
            r.x == self.x + 1 && r.y == self.y - 1,
    {
        Loc { x: self.x + 1, y: self.y - 1 }
    }

    pub fn bottom_left(&self) -> (r: Loc)
        requires
            self.x - 1 >= i32::MIN && self.y + 1 <= i32::MAX,
        ensures
            r.x == self.x - 1 && r.y == self.y + 1,
    {
        Loc { x: self.x - 1, y: self.y + 1 }
    }

    pub fn bottom_right(&self) -> (r: Loc)
        requires
            self.x + 1 <= i32::MAX && self.y + 1 <= i32::MAX,
        ensures
            r.x == self.x + 1 && r.y == self.y + 1,
    {
        Loc { x: self.x + 1, y: self.y + 1 }
    }

    pub fn in_left(&self, n: i32) -> (r: Loc)
        requires
            0 <= n,
            self.x - n >= i32::MIN,
        ensures
            r.x == self.x - n && r.y == self.y,
    {
        Loc { x: self.x - n, y: self.y }
    }

    pub fn in_right(&self, n: i32) -> (r: Loc)
        requires
            0 <= n,
            self.x + n <= i32::MAX,
        ensures
            r.x == self.x + n && r.y == self.y,
    {
        Loc { x: self.x + n, y: self.y }
    }

    pub fn in_top(&self, n: i32) -> (r: Loc)
        requires
            0 <= n,
            self.y - n >= i32::MIN,
        ensures
            r.x == self.x && r.y == self.y - n,
    {
        Loc { x: self.x, y: self.y - n }
    }

    pub fn in_bottom(&self, n: i32) -> (r: Loc)
        requires
            0 <= n,
            self.y + n <= i32::MAX,
        ensures
            r.x == self.x && r.y == self.y + n,
    {
        Loc { x: self.x, y: self.y + n }
    }
}

/// A point of the drawing plane, in exact units of one eighth of a cell:
/// the pixel coordinate is `x * text_width / 8` by `y * text_height / 8`.
/// Keeping eighths as integers makes every geometric comparison exact.
#[derive(Debug, Clone, Copy, PartialEq, Eq, Structural)]
pub struct Point {
    pub x: i64,
    pub y: i64,
}

/// Bound on point coordinates, wide enough for any cell of an in-range
/// location and narrow enough that cross products fit in `i128`.
pub open spec fn point_in_range(p: Point) -> bool {
    -0x10_0000_0000 <= p.x <= 0x10_0000_0000 && -0x10_0000_0000 <= p.y <= 0x10_0000_0000
}

/// Three points lie on one straight line: the cross product of the two
/// difference vectors vanishes.
pub open spec fn collinear_spec(a: Point, b: Point, c: Point) -> bool {
    (b.x - a.x) * (c.y - a.y) == (b.y - a.y) * (c.x - a.x)
}

/// `p` lies between `a` and `b` in both coordinates.
pub open spec fn in_box(p: Point, a: Point, b: Point) -> bool {
    &&& (a.x <= p.x <= b.x || b.x <= p.x <= a.x)
    &&& (a.y <= p.y <= b.y || b.y <= p.y <= a.y)
}

/// `p` lies on the closed segment from `a` to `b`.
pub open spec fn on_segment(p: Point, a: Point, b: Point) -> bool {
    collinear_spec(a, b, p) && in_box(p, a, b)
}

/// Exact collinearity test over integer coordinates.
pub fn collinear(a: &Point, b: &Point, c: &Point) -> (r: bool)
    requires
        point_in_range(*a) && point_in_range(*b) && point_in_range(*c),
    ensures
        r == collinear_spec(*a, *b, *c),
{
    let bax: i128 = b.x as i128 - a.x as i128;
    let bay: i128 = b.y as i128 - a.y as i128;
    let cax: i128 = c.x as i128 - a.x as i128;
    let cay: i128 = c.y as i128 - a.y as i128;
    proof {
        assert(bax * cay <= 0x40_0000_0000 * 0x40_0000_0000 && bax * cay
            >= -(0x40_0000_0000 * 0x40_0000_0000) && bay * cax <= 0x40_0000_0000 * 0x40_0000_0000
            && bay * cax >= -(0x40_0000_0000 * 0x40_0000_0000)) by (nonlinear_arith)
            requires
                -0x40_0000_0000 <= bax <= 0x40_0000_0000,
                -0x40_0000_0000 <= bay <= 0x40_0000_0000,
                -0x40_0000_0000 <= cax <= 0x40_0000_0000,
                -0x40_0000_0000 <= cay <= 0x40_0000_0000,
        ;
    }
    bax * cay == bay * cax
}

/// One of the twenty five anchor positions of a cell: a five by five
/// sub-grid read left to right, top to bottom, so `A` is the top left
/// corner, `M` the centre and `Y` the bottom right corner.
#[derive(Debug, Clone, Copy, PartialEq, Eq, Structural)]
pub enum Block {
    A, B, C, D, E,
    F, G, H, I, J,
    K, L, M, N, O,
    P, Q, R, S, T,
    U, V, W, X, Y,
}

/// Horizontal position of a block inside its cell, in quarters (0 to 4).
pub open spec fn block_col(b: Block) -> int {
    match b {
        Block::A | Block::F | Block::K | Block::P | Block::U => 0,
        Block::B | Block::G | Block::L | Block::Q | Block::V => 1,
        Block::C | Block::H | Block::M | Block::R | Block::W => 2,
        Block::D | Block::I | Block::N | Block::S | Block::X => 3,
        Block::E | Block::J | Block::O | Block::T | Block::Y => 4,
    }
}

/// Vertical position of a block inside its cell, in quarters (0 to 4).
pub open spec fn block_row(b: Block) -> int {
    match b {
        Block::A | Block::B | Block::C | Block::D | Block::E => 0,
        Block::F | Block::G | Block::H | Block::I | Block::J => 1,
        Block::K | Block::L | Block::M | Block::N | Block::O => 2,
        Block::P | Block::Q | Block::R | Block::S | Block::T => 3,
        Block::U | Block::V | Block::W | Block::X | Block::Y => 4,
    }
}

pub(crate) fn block_col_exec(b: Block) -> (r: i64)
    ensures
        r == block_col(b),
{
    match b {
        Block::A | Block::F | Block::K | Block::P | Block::U => 0,
        Block::B | Block::G | Block::L | Block::Q | Block::V => 1,
        Block::C | Block::H | Block::M | Block::R | Block::W => 2,
        Block::D | Block::I | Block::N | Block::S | Block::X => 3,
        Block::E | Block::J | Block::O | Block::T | Block::Y => 4,
    }
}

pub(crate) fn block_row_exec(b: Block) -> (r: i64)
    ensures
        r == block_row(b),
{
    match b {
        Block::A | Block::B | Block::C | Block::D | Block::E => 0,
        Block::F | Block::G | Block::H | Block::I | Block::J => 1,
        Block::K | Block::L | Block::M | Block::N | Block::O => 2,
        Block::P | Block::Q | Block::R | Block::S | Block::T => 3,
        Block::U | Block::V | Block::W | Block::X | Block::Y => 4,
    }
}

/// A symbolic point: an anchor block of the cell `(dx, dy)` cells away from
/// the cell that owns the fragment.
#[derive(Debug, Clone, Copy, PartialEq, Eq, Structural)]
pub struct PointBlock {
    pub dx: i32,
    pub dy: i32,
    pub block: Block,
}

impl PointBlock {
    /// The named anchor of the owning cell itself.
    pub fn here(block: Block) -> (r: PointBlock)
        ensures
            r.dx == 0 && r.dy == 0 && r.block == block,
    {
        PointBlock { dx: 0, dy: 0, block }
    }

    /// The named anchor of a neighbouring cell.
    pub fn shifted(dx: i32, dy: i32, block: Block) -> (r: PointBlock)
        ensures
            r.dx == dx && r.dy == dy && r.block == block,
    {
        PointBlock { dx, dy, block }
    }
}

/// Where a symbolic point of the cell at `loc` lands on the drawing plane,
/// in eighths of a cell.
pub open spec fn resolve_spec(loc: Loc, pb: PointBlock) -> Point {
    Point {
        x: (8 * (loc.x + pb.dx) + 2 * block_col(pb.block)) as i64,
        y: (8 * (loc.y + pb.dy) + 2 * block_row(pb.block)) as i64,
    }
}

/// Resolve a symbolic point against its owning cell.
pub fn resolve(loc: &Loc, pb: &PointBlock) -> (r: Point)
    requires
        loc_in_range(*loc),
        -4 <= pb.dx <= 4 && -4 <= pb.dy <= 4,
    ensures
        r == resolve_spec(*loc, *pb),
        point_in_range(r),
{
    let x: i64 = 8 * (loc.x as i64 + pb.dx as i64) + 2 * block_col_exec(pb.block);
    let y: i64 = 8 * (loc.y as i64 + pb.dy as i64) + 2 * block_row_exec(pb.block);
    Point { x, y }
}


/// Parallelism transfers: two vectors parallel to one nonzero vector are
/// parallel to each other.
proof fn lemma_cross_transfer(ux: int, uy: int, vx: int, vy: int, wx: int, wy: int)
    requires
        ux * vy == uy * vx,
        ux * wy == uy * wx,
        ux != 0 || uy != 0,
    ensures
        vx * wy == vy * wx,
{
    assert(ux * (vx * wy - vy * wx) == 0) by (nonlinear_arith)
        requires
            ux * vy == uy * vx,
            ux * wy == uy * wx,
    ;
    assert(uy * (vx * wy - vy * wx) == 0) by (nonlinear_arith)
        requires
            ux * vy == uy * vx,
            ux * wy == uy * wx,
    ;
    if ux != 0 {
        assert(vx * wy - vy * wx == 0) by (nonlinear_arith)
            requires
                ux * (vx * wy - vy * wx) == 0,
                ux != 0,
        ;
    } else {
        assert(vx * wy - vy * wx == 0) by (nonlinear_arith)
            requires
                uy * (vx * wy - vy * wx) == 0,
                uy != 0,
        ;
    }
}

/// On a rightward line, horizontal betweenness forces vertical
/// betweenness.
proof fn lemma_collinear_x_to_y_pos(a: Point, b: Point, p: Point)
    requires
        collinear_spec(a, b, p),
        a.x < b.x,
        a.x <= p.x <= b.x,
    ensures
        a.y <= p.y <= b.y || b.y <= p.y <= a.y,
{
    let d = b.x - a.x;
    assert(d * (p.y - a.y) == (b.y - a.y) * (p.x - a.x));
    if b.y >= a.y {
        assert(0 <= d * (p.y - a.y) <= d * (b.y - a.y)) by (nonlinear_arith)
            requires
                d > 0,
                d * (p.y - a.y) == (b.y - a.y) * (p.x - a.x),
                b.y - a.y >= 0,
                0 <= p.x - a.x <= d,
        ;
        assert(0 <= p.y - a.y <= b.y - a.y) by (nonlinear_arith)
            requires
                d > 0,
                0 <= d * (p.y - a.y) <= d * (b.y - a.y),
        ;
    } else {
        assert(d * (b.y - a.y) <= d * (p.y - a.y) <= 0) by (nonlinear_arith)
            requires
                d > 0,
                d * (p.y - a.y) == (b.y - a.y) * (p.x - a.x),
                b.y - a.y < 0,
                0 <= p.x - a.x <= d,
        ;
        assert(b.y - a.y <= p.y - a.y <= 0) by (nonlinear_arith)
            requires
                d > 0,
                d * (b.y - a.y) <= d * (p.y - a.y) <= 0,
        ;
    }
}

/// On a non-vertical line, horizontal betweenness forces vertical
/// betweenness.
proof fn lemma_collinear_x_to_y(a: Point, b: Point, p: Point)
    requires
        collinear_spec(a, b, p),
        a.x != b.x,
        a.x <= p.x <= b.x || b.x <= p.x <= a.x,
    ensures
        a.y <= p.y <= b.y || b.y <= p.y <= a.y,
{
    if a.x < b.x {
        lemma_collinear_x_to_y_pos(a, b, p);
    } else {
        assert(collinear_spec(b, a, p)) by (nonlinear_arith)
            requires
                (b.x - a.x) * (p.y - a.y) == (b.y - a.y) * (p.x - a.x),
        ;
        lemma_collinear_x_to_y_pos(b, a, p);
    }
}

/// On a non-vertical line, equal abscissae force equal points.
proof fn lemma_same_x_same_point(a: Point, b: Point, p: Point)
    requires
        collinear_spec(a, b, p),
        a.x != b.x,
        p.x == a.x,
    ensures
        p.y == a.y,
{
    assert((b.x - a.x) * (p.y - a.y) == 0);
    assert(p.y - a.y == 0) by (nonlinear_arith)
        requires
            (b.x - a.x) * (p.y - a.y) == 0,
            b.x - a.x != 0,
    ;
}

/// Merging two collinear segments joined end to end preserves geometry,
/// provided the joint lies on the merged segment: the points of the merged
/// segment are exactly the union of the points of the two originals. When
/// the joint lies outside the merged segment (the second segment doubles
/// back over the first), merging discards the overhang, so the proviso is
/// necessary.
pub proof fn lemma_merge_preserves_geometry(s1: Point, e1: Point, e2: Point, p: Point)
    requires
        collinear_spec(s1, e1, e2),
        on_segment(e1, s1, e2),
    ensures
        on_segment(p, s1, e2) <==> (on_segment(p, s1, e1) || on_segment(p, e1, e2)),
{
    if s1 == e2 {
        assert(e1 == s1);
        if on_segment(p, s1, e2) {
            assert(p == s1);
        }
    } else {
        let ux = e2.x - s1.x;
        let uy = e2.y - s1.y;
        // forward: a point of the merged segment is on one of the parts
        if on_segment(p, s1, e2) {
            if e1 != s1 {
                lemma_cross_transfer(
                    ux,
                    uy,
                    e1.x - s1.x,
                    e1.y - s1.y,
                    p.x - s1.x,
                    p.y - s1.y,
                );
                assert(collinear_spec(s1, e1, p));
            }
            // the joint-relative vectors are parallel to the axis too
            assert(ux * (p.y - e1.y) == uy * (p.x - e1.x)) by (nonlinear_arith)
                requires
                    ux * (p.y - s1.y) == uy * (p.x - s1.x),
                    ux * (e1.y - s1.y) == uy * (e1.x - s1.x),
            ;
            assert(ux * (e2.y - e1.y) == uy * (e2.x - e1.x)) by (nonlinear_arith)
                requires
                    ux * (e1.y - s1.y) == uy * (e1.x - s1.x),
                    ux == e2.x - s1.x && uy == e2.y - s1.y,
            ;
            lemma_cross_transfer(
                ux,
                uy,
                e2.x - e1.x,
                e2.y - e1.y,
                p.x - e1.x,
                p.y - e1.y,
            );
            assert(collinear_spec(e1, e2, p));
            if s1.x != e2.x {
                if (s1.x <= p.x <= e1.x) || (e1.x <= p.x <= s1.x) {
                    if s1.x == e1.x {
                        lemma_same_x_same_point(s1, e2, p);
                        assert(on_segment(p, s1, e1));
                    } else {
                        lemma_collinear_x_to_y(s1, e1, p);
                        assert(on_segment(p, s1, e1));
                    }
                } else {
                    assert((e1.x <= p.x <= e2.x) || (e2.x <= p.x <= e1.x));
                    if e1.x == e2.x {
                        lemma_same_x_same_point(e2, s1, p);
                        lemma_same_x_same_point(e2, s1, e1);
                        assert(on_segment(p, e1, e2));
                    } else {
                        lemma_collinear_x_to_y(e1, e2, p);
                        assert(on_segment(p, e1, e2));
                    }
                }
            } else {
                assert(e1.x == s1.x && p.x == s1.x);
                if (s1.y <= p.y <= e1.y) || (e1.y <= p.y <= s1.y) {
                    assert(on_segment(p, s1, e1));
                } else {
                    assert(on_segment(p, e1, e2));
                }
            }
        }
        // backward: points of either part are on the merged segment
        if on_segment(p, s1, e1) {
            if e1 == s1 {
                assert(p == s1);
                assert(on_segment(p, s1, e2));
            } else {
                lemma_cross_transfer(
                    e1.x - s1.x,
                    e1.y - s1.y,
                    e2.x - s1.x,
                    e2.y - s1.y,
                    p.x - s1.x,
                    p.y - s1.y,
                );
                assert(collinear_spec(s1, e2, p));
                assert(on_segment(p, s1, e2));
            }
        }
        if on_segment(p, e1, e2) {
            if e1 == e2 {
                assert(p == e1);
                assert(on_segment(p, s1, e2));
            } else {
                assert((e2.x - e1.x) * (s1.y - e1.y) == (e2.y - e1.y) * (s1.x - e1.x))
                    by (nonlinear_arith)
                    requires
                        (e1.x - s1.x) * (e2.y - s1.y) == (e1.y - s1.y) * (e2.x - s1.x),
                ;
                lemma_cross_transfer(
                    e2.x - e1.x,
                    e2.y - e1.y,
                    s1.x - e1.x,
                    s1.y - e1.y,
                    p.x - e1.x,
                    p.y - e1.y,
                );
                assert((s1.x - e1.x) * (p.y - e1.y) == (s1.y - e1.y) * (p.x - e1.x));
                assert((e2.x - s1.x) * (p.y - s1.y) == (e2.y - s1.y) * (p.x - s1.x))
                    by (nonlinear_arith)
                    requires
                        (s1.x - e1.x) * (p.y - e1.y) == (s1.y - e1.y) * (p.x - e1.x),
                        (e2.x - e1.x) * (p.y - e1.y) == (e2.y - e1.y) * (p.x - e1.x),
                        (e2.x - e1.x) * (s1.y - e1.y) == (e2.y - e1.y) * (s1.x - e1.x),
                ;
                assert(collinear_spec(s1, e2, p));
                assert(on_segment(p, s1, e2));
            }
        }
    }
}

} // verus!
