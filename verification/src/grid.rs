use vstd::prelude::*;
use crate::geom::Loc;
use crate::settings::Settings;
use crate::text::str_chars;
use crate::unicode::{char_width, char_width_of, chars_to_string};

verus! {

/// The mathematical model of a grid: rows of cells, each cell a character
/// sequence (empty for the continuation slot of a wide character).
pub type GridV = Seq<Seq<Seq<char>>>;

/// The character of the cell at `(x, y)`: the first character of the cell,
/// or NUL when the cell is empty or out of bounds.
pub open spec fn char_at(g: GridV, x: int, y: int) -> char {
    if 0 <= y < g.len() && 0 <= x < g[y].len() && g[y][x].len() > 0 {
        g[y][x][0]
    } else {
        '\0'
    }
}

/// The text of the cell at `(x, y)`, empty when out of bounds.
pub open spec fn cell_text(g: GridV, x: int, y: int) -> Seq<char> {
    if 0 <= y < g.len() && 0 <= x < g[y].len() {
        g[y][x]
    } else {
        Seq::empty()
    }
}

/// Grid dimensions stay well below `i32`, so location arithmetic is exact.
pub open spec fn grid_dims_ok(g: GridV) -> bool {
    g.len() <= 0x4000_0000 && forall|y: int| 0 <= y < g.len() ==> (#[trigger] g[y]).len()
        <= 0x4000_0000
}

/// The number of columns: the length of the longest row.
pub open spec fn grid_cols(g: GridV) -> int {
    grid_cols_upto(g, g.len() as int)
}

/// The length of the longest row among the first `n` rows.
pub open spec fn grid_cols_upto(g: GridV, n: int) -> int
    decreases n,
{
    if n <= 0 {
        0
    } else if g[n - 1].len() > grid_cols_upto(g, n - 1) {
        g[n - 1].len() as int
    } else {
        grid_cols_upto(g, n - 1)
    }
}

/// Columns of a bounded grid are bounded.
pub proof fn lemma_grid_cols_bound(g: GridV, n: int)
    requires
        grid_dims_ok(g),
        0 <= n <= g.len(),
    ensures
        0 <= grid_cols_upto(g, n) <= 0x4000_0000,
    decreases n,
{
    if n > 0 {
        lemma_grid_cols_bound(g, n - 1);
    }
}

/// The cells one input character occupies: a double-width character takes
/// its own cell and an empty continuation cell.
pub open spec fn cells_of_char(c: char) -> Seq<Seq<char>> {
    if char_width_of(c) == Some(2usize) {
        seq![seq![c], Seq::<char>::empty()]
    } else {
        seq![seq![c]]
    }
}

/// The rows parsed from `s[i..]`, given the finished rows and the cells of
/// the unfinished row so far: a newline closes the current row, any other
/// character appends its cells.
pub open spec fn parse_from(s: Seq<char>, i: int, done: GridV, cur: Seq<Seq<char>>) -> GridV
    decreases s.len() - i,
{
    if i < 0 || i >= s.len() {
        done.push(cur)
    } else if s[i] == '\n' {
        parse_from(s, i + 1, done.push(cur), Seq::empty())
    } else {
        parse_from(s, i + 1, done, cur + cells_of_char(s[i]))
    }
}

/// The grid a piece of text parses to; empty text has no rows.
pub open spec fn grid_of(s: Seq<char>) -> GridV {
    if s.len() == 0 {
        Seq::empty()
    } else {
        parse_from(s, 0, Seq::empty(), Seq::empty())
    }
}

/// The model of one row of cells.
pub open spec fn row_model(cells: Seq<String>) -> Seq<Seq<char>> {
    Seq::new(cells.len(), |x: int| cells[x]@)
}

/// The model of a vector of rows.
pub open spec fn rows_model(rows: Seq<Vec<String>>) -> GridV {
    Seq::new(rows.len(), |y: int| row_model(rows[y]@))
}

/// A rectangular matrix of character cells, together with the settings the
/// drawing will be rendered with.
pub struct Grid {
    pub settings: Settings,
    pub rows: Vec<Vec<String>>,
}

impl View for Grid {
    type V = GridV;

    open spec fn view(&self) -> GridV {
        Seq::new(
            self.rows@.len(),
            |y: int| Seq::new(self.rows@[y]@.len(), |x: int| self.rows@[y]@[x]@),
        )
    }
}

impl Grid {
    /// Validity: dimensions bounded as `grid_dims_ok` asks.
    pub open spec fn wf(&self) -> bool {
        grid_dims_ok(self@)
    }

    /// Parse input text into a grid: rows split on newlines, each row split
    /// into one cell per character, with an empty continuation cell after
    /// each double-width character. Empty input yields no rows; the result
    /// is exactly `grid_of` the input's characters.
    pub fn from_str(input: &str, settings: &Settings) -> (g: Grid)
        requires
            input@.len() < 0x2000_0000,
        ensures
            g.wf(),
            g@ == grid_of(input@),
            g.settings.text_width == settings.text_width,
            g.settings.text_height == settings.text_height,
            g.settings.font_size == settings.font_size,
            g.settings.stroke_width == settings.stroke_width,
            g.settings.font_family@ == settings.font_family@,
            input@.len() == 0 ==> g@.len() == 0,
            input@.len() > 0 ==> g@.len() >= 1,
    {
        let ghost sv = input@;
        let chars: Vec<char> = str_chars(input);
        let mut rows: Vec<Vec<String>> = Vec::new();
        let mut cur: Vec<String> = Vec::new();
        let mut i: usize = 0;
        let n: usize = chars.len();
        if n == 0 {
            let g = Grid { settings: settings.clone(), rows };
            proof {
                assert(g@ =~= grid_of(sv));
            }
            return g;
        }
        proof {
            assert(rows_model(rows@) =~= Seq::<Seq<Seq<char>>>::empty());
            assert(row_model(cur@) =~= Seq::<Seq<char>>::empty());
        }
        while i < n
            invariant
                0 <= i <= n,
                n == chars@.len(),
                chars@ == sv,
                n < 0x2000_0000,
                rows@.len() <= i,
                cur@.len() <= 2 * i,
                forall|y: int| 0 <= y < rows@.len() ==> (#[trigger] rows@[y])@.len() < 0x4000_0000,
                parse_from(sv, i as int, rows_model(rows@), row_model(cur@)) == grid_of(sv),
            decreases n - i,
        {
            let ghost pre_rows = rows_model(rows@);
            let ghost pre_cur = row_model(cur@);
            let c = chars[i];
            if c == '\n' {
                rows.push(cur);
                cur = Vec::new();
                proof {
                    assert(rows_model(rows@) =~= pre_rows.push(pre_cur));
                    assert(row_model(cur@) =~= Seq::<Seq<char>>::empty());
                }
            } else {
                let mut cell: Vec<char> = Vec::new();
                cell.push(c);
                cur.push(chars_to_string(cell));
                let wide = match char_width(c) {
                    Some(w) => w == 2,
                    None => false,
                };
                if wide {
                    let empty: Vec<char> = Vec::new();
                    cur.push(chars_to_string(empty));
                }
                proof {
                    assert(row_model(cur@) =~= pre_cur + cells_of_char(c));
                }
            }
            i = i + 1;
        }
        rows.push(cur);
        let g = Grid { settings: settings.clone(), rows };
        proof {
            assert(rows_model(rows@) =~= rows_model(rows@.drop_last()).push(
                row_model(rows@.last()@),
            ));
            assert(g@ =~= rows_model(rows@));
            assert(g@ == grid_of(sv));
            assert forall|y: int| 0 <= y < g@.len() implies (#[trigger] g@[y]).len()
                <= 0x4000_0000 by {
                assert(g@[y].len() == g.rows@[y]@.len());
            }
        }
        g
    }

    /// The number of rows.
    pub fn row_count(&self) -> (r: usize)
        ensures
            r == self@.len(),
    {
        self.rows.len()
    }

    /// The number of cells of row `y`.
    pub fn col_count(&self, y: usize) -> (r: usize)
        requires
            y < self@.len(),
        ensures
            r == self@[y as int].len(),
    {
        self.rows[y].len()
    }

    /// The number of columns of the grid: its longest row.
    pub fn cols(&self) -> (r: usize)
        requires
            self.wf(),
        ensures
            r == grid_cols(self@),
    {
        let n: usize = self.rows.len();
        let mut best: usize = 0;
        let mut y: usize = 0;
        while y < n
            invariant
                0 <= y <= n,
                n == self@.len(),
                self.wf(),
                best == grid_cols_upto(self@, y as int),
            decreases n - y,
        {
            let len = self.rows[y].len();
            proof {
                assert(self@[y as int].len() == self.rows@[y as int]@.len());
            }
            if len > best {
                best = len;
            }
            y = y + 1;
        }
        best
    }

    /// The cell at `loc`, or `None` when `loc` lies outside the grid.
    pub fn get(&self, loc: &Loc) -> (r: Option<&String>)
        ensures
            r is Some <==> (0 <= loc.y < self@.len() && 0 <= loc.x < self@[loc.y as int].len()),
            r matches Some(s) ==> s@ == cell_text(self@, loc.x as int, loc.y as int),
    {
        if loc.y < 0 || loc.x < 0 {
            return None;
        }
        let y = loc.y as usize;
        let x = loc.x as usize;
        if y >= self.rows.len() {
            return None;
        }
        let row = &self.rows[y];
        if x >= row.len() {
            return None;
        }
        proof {
            assert(self@[y as int][x as int] == self.rows@[y as int]@[x as int]@);
        }
        Some(&row[x])
    }

    /// The character of the cell at `(x, y)`: NUL outside the grid or on an
    /// empty continuation cell.
    pub fn char_at_xy(&self, x: i32, y: i32) -> (c: char)
        ensures
            c == char_at(self@, x as int, y as int),
    {
        match self.get(&Loc { x, y }) {
            None => '\0',
            Some(s) => {
                if s.as_str().unicode_len() > 0 {
                    s.as_str().get_char(0)
                } else {
                    '\0'
                }
            },
        }
    }
}

} // verus!
