use vstd::prelude::*;
use crate::figure_type::FigureType;
use crate::geometry::{Point, Size};
use crate::matrix::{Matrix, grid_update, grid_width, is_grid, rows_view};

verus! {

/// A board cell: empty, or holding the shape of the piece locked there.
pub type Cell = Option<FigureType>;

/// A row of `w` empty cells.
pub open spec fn empty_row(w: int) -> Seq<Cell> {
    Seq::new(w as nat, |x: int| None)
}

/// `k` rows of `w` empty cells.
pub open spec fn empty_rows(k: int, w: int) -> Seq<Seq<Cell>> {
    Seq::new(k as nat, |y: int| empty_row(w))
}

/// The cell at `(x, y)` exists and is occupied.
pub open spec fn occupied(g: Seq<Seq<Cell>>, p: (int, int)) -> bool {
    &&& 0 <= p.1 < g.len()
    &&& 0 <= p.0 < g[p.1].len()
    &&& g[p.1][p.0] is Some
}

/// Row `y` exists and every one of its cells is occupied.
pub open spec fn line_full(g: Seq<Seq<Cell>>, y: int) -> bool {
    &&& 0 <= y < g.len()
    &&& forall|x: int| 0 <= x < g[y].len() ==> (#[trigger] g[y][x]) is Some
}

/// How many of the rows `0..n` are named in `rows`.
pub open spec fn count_named(rows: Seq<usize>, n: int) -> int
    decreases n,
{
    if n <= 0 {
        0
    } else {
        count_named(rows, n - 1) + if rows.contains((n - 1) as usize) {
            1int
        } else {
            0int
        }
    }
}

/// The rows among the first `n` of the grid that are not named in `rows`,
/// top to bottom.
pub open spec fn surviving(g: Seq<Seq<Cell>>, rows: Seq<usize>, n: int) -> Seq<Seq<Cell>>
    decreases n,
{
    if n <= 0 {
        seq![]
    } else if rows.contains((n - 1) as usize) {
        surviving(g, rows, n - 1)
    } else {
        surviving(g, rows, n - 1).push(g[n - 1])
    }
}

/// The grid with the named rows taken out, the rows above them moved down,
/// and empty rows added at the top so that the height is kept.
pub open spec fn removing(g: Seq<Seq<Cell>>, rows: Seq<usize>) -> Seq<Seq<Cell>> {
    let s = surviving(g, rows, g.len() as int);
    empty_rows(g.len() - s.len(), grid_width(g)) + s
}

proof fn lemma_count_named_bounds(rows: Seq<usize>, n: int)
    requires
        n >= 0,
    ensures
        0 <= count_named(rows, n) <= n,
    decreases n,
{
    if n > 0 {
        lemma_count_named_bounds(rows, n - 1);
    }
}

proof fn lemma_count_named_mono(rows: Seq<usize>, a: int, b: int)
    requires
        0 <= a <= b,
    ensures
        count_named(rows, a) <= count_named(rows, b),
        count_named(rows, b) - count_named(rows, a) <= b - a,
    decreases b - a,
{
    if a < b {
        lemma_count_named_mono(rows, a, b - 1);
    }
}

/// The survivors of the first `n` rows number `n` minus the named ones, and
/// a surviving row `y` sits after the survivors above it.
proof fn lemma_surviving(g: Seq<Seq<Cell>>, rows: Seq<usize>, n: int)
    requires
        0 <= n <= g.len(),
    ensures
        surviving(g, rows, n).len() == n - count_named(rows, n),
        forall|y: int|
            #![trigger count_named(rows, y)]
            0 <= y < n && !rows.contains(y as usize) ==> {
                &&& 0 <= y - count_named(rows, y) < surviving(g, rows, n).len()
                &&& surviving(g, rows, n)[y - count_named(rows, y)] == g[y]
            },
        forall|i: int|
            0 <= i < surviving(g, rows, n).len() ==> exists|y: int|
                0 <= y < n && #[trigger] surviving(g, rows, n)[i] == g[y],
    decreases n,
{
    if n > 0 {
        lemma_surviving(g, rows, n - 1);
        lemma_count_named_bounds(rows, n - 1);
        let prev = surviving(g, rows, n - 1);
        let cur = surviving(g, rows, n);
        assert(cur.len() >= prev.len());
        assert forall|y: int| #![trigger count_named(rows, y)]
            0 <= y < n && !rows.contains(y as usize) implies {
            &&& 0 <= y - count_named(rows, y) < cur.len()
            &&& cur[y - count_named(rows, y)] == g[y]
        } by {
            lemma_count_named_mono(rows, y, n - 1);
            lemma_count_named_bounds(rows, y);
            if y < n - 1 {
                assert(prev[y - count_named(rows, y)] == g[y]);
                assert(0 <= y - count_named(rows, y) < prev.len());
                assert(cur[y - count_named(rows, y)] == prev[y - count_named(rows, y)]);
            } else {
                assert(y == n - 1);
                assert(!rows.contains((n - 1) as usize));
                assert(cur == prev.push(g[n - 1]));
                assert(y - count_named(rows, y) == prev.len());
                assert(cur[prev.len() as int] == g[n - 1]);
            }
        }
        assert forall|i: int| 0 <= i < cur.len() implies exists|y: int|
            0 <= y < n && #[trigger] cur[i] == g[y] by {
            if i < prev.len() {
                let y = choose|y: int| 0 <= y < n - 1 && #[trigger] prev[i] == g[y];
                assert(cur[i] == g[y]);
            } else {
                assert(cur[i] == g[n - 1]);
            }
        }
    }
}

/// Removing lines takes out exactly the named rows: the height and the width
/// are kept, each surviving row `y` moves down by the number of named rows
/// below it, and the rows freed at the top are empty.
pub proof fn lemma_removing_lines(g: Seq<Seq<Cell>>, rows: Seq<usize>)
    requires
        is_grid(g),
    ensures
        removing(g, rows).len() == g.len(),
        is_grid(removing(g, rows)),
        grid_width(removing(g, rows)) == grid_width(g),
        forall|y: int|
            0 <= y < g.len() && !rows.contains(y as usize) ==> #[trigger] removing(g, rows)[y
                + (count_named(rows, g.len() as int) - count_named(rows, y + 1))] == g[y],
        forall|y: int|
            0 <= y < count_named(rows, g.len() as int) ==> #[trigger] removing(g, rows)[y]
                == empty_row(grid_width(g)),
{
    let h = g.len() as int;
    let w = grid_width(g);
    lemma_surviving(g, rows, h);
    lemma_count_named_bounds(rows, h);
    let s = surviving(g, rows, h);
    let k = h - s.len();
    let r = removing(g, rows);
    assert(r.len() == g.len());
    assert forall|y: int| 0 <= y < h && !rows.contains(y as usize) implies #[trigger] r[y + (
    count_named(rows, h) - count_named(rows, y + 1))] == g[y] by {
        assert(count_named(rows, y + 1) == count_named(rows, y));
        assert(s[y - count_named(rows, y)] == g[y]);
        assert(r[k + y - count_named(rows, y)] == s[y - count_named(rows, y)]);
    }
    assert forall|y: int| 0 <= y < r.len() implies #[trigger] r[y].len() == w by {
        if y >= k {
            let z = choose|z: int| 0 <= z < h && #[trigger] s[y - k] == g[z];
            assert(r[y] == s[y - k]);
            assert(g[z].len() == w);
        }
    }
    if h > 0 {
        assert(r[0].len() == w);
    }
}

/// With no rows named, every row of the first `n` survives.
proof fn lemma_surviving_all(g: Seq<Seq<Cell>>, n: int)
    requires
        0 <= n <= g.len(),
    ensures
        surviving(g, seq![], n) == g.subrange(0, n),
    decreases n,
{
    if n > 0 {
        lemma_surviving_all(g, n - 1);
        assert(g.subrange(0, n) =~= g.subrange(0, n - 1).push(g[n - 1]));
    }
}

/// Removing no rows leaves the grid as it is.
pub proof fn lemma_removing_nothing(g: Seq<Seq<Cell>>)
    ensures
        removing(g, seq![]) == g,
{
    lemma_surviving_all(g, g.len() as int);
    assert(g.subrange(0, g.len() as int) =~= g);
    assert(removing(g, seq![]) =~= g);
}

/// Writing one cell and reading it back gives the written value; every other
/// cell, and the size of the grid, is unchanged.
pub proof fn lemma_replace_then_read(g: Seq<Seq<Cell>>, x: int, y: int, v: Cell)
    requires
        is_grid(g),
        0 <= y < g.len(),
        0 <= x < grid_width(g),
    ensures
        grid_update(g, x, y, v)[y][x] == v,
        grid_update(g, x, y, v).len() == g.len(),
        forall|a: int, b: int|
            0 <= b < g.len() && 0 <= a < g[b].len() && (a, b) != (x, y) ==> #[trigger] grid_update(
                g,
                x,
                y,
                v,
            )[b][a] == g[b][a],
        forall|b: int| 0 <= b < g.len() ==> #[trigger] grid_update(g, x, y, v)[b].len() == g[b].len(),
{
    assert(g[y].len() == grid_width(g));
}

/// A row is complete exactly when each of its cells is occupied, and emptying
/// any one of its cells makes it incomplete.
pub proof fn lemma_line_completion(g: Seq<Seq<Cell>>, y: int, x: int)
    requires
        is_grid(g),
        0 <= y < g.len(),
        0 <= x < grid_width(g),
    ensures
        line_full(g, y) <==> forall|a: int| 0 <= a < grid_width(g) ==> occupied(g, (a, y)),
        !line_full(grid_update(g, x, y, None), y),
{
    assert(g[y].len() == grid_width(g));
    let u = grid_update(g, x, y, None);
    assert(u[y][x] is None);
    if line_full(g, y) {
        assert forall|a: int| 0 <= a < grid_width(g) implies occupied(g, (a, y)) by {
            assert(g[y][a] is Some);
        }
    }
    if forall|a: int| 0 <= a < grid_width(g) ==> occupied(g, (a, y)) {
        assert forall|a: int| 0 <= a < g[y].len() implies (#[trigger] g[y][a]) is Some by {
            assert(occupied(g, (a, y)));
        }
    }
}

/// The grid of locked cells, `width` columns by `height` rows.
#[derive(Debug, PartialEq)]
pub struct Board {
    matrix: Matrix<Cell>,
    width: usize,
}

impl Board {
    /// The rows of the board, top to bottom.
    pub closed spec fn grid(&self) -> Seq<Seq<Cell>> {
        self.matrix.view()
    }

    /// The number of columns the board was created with.
    pub closed spec fn width_spec(&self) -> int {
        self.width as int
    }

    /// A rectangular grid whose every row has the board's width.
    pub open spec fn wf(&self) -> bool {
        &&& is_grid(self.grid())
        &&& self.width_spec() <= u32::MAX
        &&& forall|y: int| 0 <= y < self.grid().len() ==> #[trigger] self.grid()[y].len() == self.width_spec()
    }

    pub open spec fn height_spec(&self) -> int {
        self.grid().len() as int
    }

    /// An empty board of the given size.
    pub fn new(size: Size) -> (r: Board)
        requires
            size.height <= u32::MAX,
            size.width <= u32::MAX,
        ensures
            r.grid() == empty_rows(size.height as int, size.width as int),
            r.height_spec() == size.height,
            r.width_spec() == size.width,
            r.wf(),
    {
        let mut cells: Vec<Vec<Cell>> = Vec::new();
        let mut y: usize = 0;
        while y < size.height
            invariant
                size.height <= u32::MAX,
                size.width <= u32::MAX,
                0 <= y <= size.height,
                rows_view(cells@) == empty_rows(y as int, size.width as int),
            decreases size.height - y,
        {
            let line = empty_line(size.width);
            let ghost before = cells@;
            cells.push(line);
            assert(rows_view(cells@) =~= rows_view(before).push(line@));
            assert(rows_view(cells@) =~= empty_rows(y + 1, size.width as int));
            y = y + 1;
        }
        let ghost g = rows_view(cells@);
        assert forall|k: int| 0 <= k < g.len() implies #[trigger] g[k].len() == grid_width(g) by {
            assert(g[0].len() == size.width);
        }
        Board { matrix: Matrix::new(cells), width: size.width }
    }

    pub fn height(&self) -> (r: usize)
        requires
            self.wf(),
        ensures
            r == self.height_spec(),
    {
        self.matrix.height() as usize
    }

    pub fn width(&self) -> (r: usize)
        requires
            self.wf(),
        ensures
            r == self.width_spec(),
    {
        self.width
    }

    /// The shape locked at column `x`, row `y`, if any.
    pub fn figure_at_xy(&self, x: usize, y: usize) -> (r: &Cell)
        requires
            self.wf(),
            x < self.width_spec(),
            y < self.height_spec(),
        ensures
            *r == self.grid()[y as int][x as int],
    {
        self.matrix.at_xy(x as u32, y as u32)
    }

    /// A copy of the board with the one cell at column `x`, row `y` set to
    /// `figure_type`.
    pub fn replacing_figure_at_xy(&self, x: usize, y: usize, figure_type: Cell) -> (r: Board)
        requires
            self.wf(),
            x < self.width_spec(),
            y < self.height_spec(),
        ensures
            r.grid() == grid_update(self.grid(), x as int, y as int, figure_type),
            r.height_spec() == self.height_spec(),
            r.width_spec() == self.width_spec(),
            r.wf(),
    {
        assert(self.grid()[y as int].len() == self.width_spec());
        assert(self.grid()[0].len() == self.width_spec());
        Board { matrix: self.matrix.replacing_at_xy(x as u32, y as u32, figure_type), width: self.width }
    }

    /// Whether the point lies on the board and its cell is occupied.
    pub fn contains(&self, point: Point) -> (r: bool)
        requires
            self.wf(),
        ensures
            r == occupied(self.grid(), point@),
    {
        if point.x < 0 || point.y < 0 {
            return false;
        }
        let x = point.x as usize;
        let y = point.y as usize;
        if y >= self.height() || x >= self.width() {
            proof {
                if y < self.height_spec() {
                    assert(self.grid()[y as int].len() == self.width_spec());
                }
            }
            return false;
        }
        assert(self.grid()[y as int].len() == self.width_spec());
        self.figure_at_xy(x, y).is_some()
    }

    /// Whether row `line` exists and all of its cells are occupied.
    pub fn is_line_completed(&self, line: usize) -> (r: bool)
        requires
            self.wf(),
        ensures
            r == line_full(self.grid(), line as int),
    {
        if line >= self.height() {
            return false;
        }
        let w = self.width();
        assert(self.grid()[line as int].len() == w);
        let mut x: usize = 0;
        while x < w
            invariant
                self.wf(),
                line < self.height_spec(),
                w == self.width_spec(),
                self.grid()[line as int].len() == w,
                0 <= x <= w,
                forall|k: int| 0 <= k < x ==> (#[trigger] self.grid()[line as int][k]) is Some,
            decreases w - x,
        {
            if self.figure_at_xy(x, line).is_none() {
                return false;
            }
            x = x + 1;
        }
        true
    }

    /// A copy of row `y`.
    fn line(&self, y: usize) -> (r: Vec<Cell>)
        requires
            self.wf(),
            y < self.height_spec(),
        ensures
            r@ == self.grid()[y as int],
    {
        let w = self.width();
        assert(self.grid()[y as int].len() == w);
        let mut line: Vec<Cell> = Vec::new();
        let mut x: usize = 0;
        while x < w
            invariant
                self.wf(),
                y < self.height_spec(),
                w == self.width_spec(),
                self.grid()[y as int].len() == w,
                0 <= x <= w,
                line@ == self.grid()[y as int].subrange(0, x as int),
            decreases w - x,
        {
            let c = *self.figure_at_xy(x, y);
            line.push(c);
            assert(line@ =~= self.grid()[y as int].subrange(0, x + 1));
            x = x + 1;
        }
        assert(line@ =~= self.grid()[y as int]);
        line
    }

    /// A board with the rows named in `lines` removed, the rows above each
    /// moved down to fill the gap, and empty rows added at the top.
    pub fn removing_lines(&self, lines: &Vec<usize>) -> (r: Board)
        requires
            self.wf(),
        ensures
            r.grid() == removing(self.grid(), lines@),
            r.height_spec() == self.height_spec(),
            r.width_spec() == self.width_spec(),
            r.wf(),
    {
        let ghost g = self.grid();
        let h = self.height();
        let w = self.matrix.width() as usize;
        let mut kept: Vec<Vec<Cell>> = Vec::new();
        let mut y: usize = 0;
        while y < h
            invariant
                self.wf(),
                g == self.grid(),
                h == g.len(),
                w == grid_width(g),
                0 <= y <= h,
                rows_view(kept@) == surviving(g, lines@, y as int),
            decreases h - y,
        {
            if !names_line(lines, y) {
                let line = self.line(y);
                kept.push(line);
                assert(rows_view(kept@) =~= surviving(g, lines@, y + 1));
            }
            y = y + 1;
        }
        proof {
            lemma_surviving(g, lines@, h as int);
            lemma_count_named_bounds(lines@, h as int);
            lemma_removing_lines(g, lines@);
        }
        let missing = h - kept.len();
        let mut cells: Vec<Vec<Cell>> = Vec::new();
        let mut k: usize = 0;
        while k < missing
            invariant
                missing == h - kept@.len(),
                w == grid_width(g),
                w <= u32::MAX,
                0 <= k <= missing,
                rows_view(cells@) == empty_rows(k as int, w as int),
            decreases missing - k,
        {
            let line = empty_line(w);
            let ghost before = cells@;
            cells.push(line);
            assert(rows_view(cells@) =~= rows_view(before).push(line@));
            assert(rows_view(cells@) =~= empty_rows(k + 1, w as int));
            k = k + 1;
        }
        let mut i: usize = 0;
        while i < kept.len()
            invariant
                missing == h - kept@.len(),
                0 <= i <= kept.len(),
                rows_view(cells@) == empty_rows(missing as int, w as int) + rows_view(kept@).subrange(
                    0,
                    i as int,
                ),
            decreases kept.len() - i,
        {
            let row = copy_line(&kept[i]);
            let ghost before = cells@;
            cells.push(row);
            assert(rows_view(cells@) =~= rows_view(before).push(row@));
            assert(row@ == rows_view(kept@)[i as int]);
            assert(rows_view(cells@) =~= empty_rows(missing as int, w as int) + rows_view(
                kept@,
            ).subrange(0, i + 1));
            i = i + 1;
        }
        assert(rows_view(cells@) =~= removing(g, lines@));
        let r = Board { matrix: Matrix::new(cells), width: self.width };
        assert forall|y: int| 0 <= y < r.grid().len() implies #[trigger] r.grid()[y].len() == r.width_spec() by {
            assert(r.grid()[y].len() == grid_width(r.grid()));
            assert(g[0].len() == self.width_spec());
        }
        r
    }
}

/// A row of `w` empty cells.
fn empty_line(w: usize) -> (r: Vec<Cell>)
    ensures
        r@ == empty_row(w as int),
{
    let mut line: Vec<Cell> = Vec::new();
    let mut x: usize = 0;
    while x < w
        invariant
            0 <= x <= w,
            line@ == Seq::new(x as nat, |k: int| None::<FigureType>),
        decreases w - x,
    {
        line.push(None);
        assert(line@ =~= Seq::new((x + 1) as nat, |k: int| None::<FigureType>));
        x = x + 1;
    }
    assert(line@ =~= empty_row(w as int));
    line
}

/// A copy of a row.
fn copy_line(line: &Vec<Cell>) -> (r: Vec<Cell>)
    ensures
        r@ == line@,
{
    let mut r: Vec<Cell> = Vec::new();
    let mut x: usize = 0;
    while x < line.len()
        invariant
            0 <= x <= line.len(),
            r@ == line@.subrange(0, x as int),
        decreases line.len() - x,
    {
        r.push(line[x]);
        assert(r@ =~= line@.subrange(0, x + 1));
        x = x + 1;
    }
    assert(r@ =~= line@);
    r
}

/// Whether row `y` is named in `lines`.
fn names_line(lines: &Vec<usize>, y: usize) -> (r: bool)
    ensures
        r == lines@.contains(y),
{
    let mut i: usize = 0;
    while i < lines.len()
        invariant
            0 <= i <= lines.len(),
            forall|k: int| 0 <= k < i ==> lines@[k] != y,
        decreases lines.len() - i,
    {
        if lines[i] == y {
            return true;
        }
        i = i + 1;
    }
    false
}

} // verus!
