use vstd::prelude::*;
use crate::figure_type::{FigureType, color_of, lemma_orientation, orientation, side};
use crate::geometry::Point;
use crate::graphics::Color;
use crate::matrix::{Matrix, is_square, lemma_rotate_four_times, rotate};

verus! {

/// The occupied cells (value 1) among the first `w` columns of one row,
/// left to right, as `(x, y)` pairs.
pub open spec fn row_cells(row: Seq<u8>, y: int, w: int) -> Seq<(int, int)>
    decreases w,
{
    if w <= 0 {
        seq![]
    } else {
        row_cells(row, y, w - 1) + if row[w - 1] == 1 {
            seq![(w - 1, y)]
        } else {
            seq![]
        }
    }
}

/// The occupied cells of the first `h` rows of a grid, in row-major order.
pub open spec fn grid_cells(g: Seq<Seq<u8>>, h: int) -> Seq<(int, int)>
    decreases h,
{
    if h <= 0 {
        seq![]
    } else {
        grid_cells(g, h - 1) + row_cells(g[h - 1], h - 1, g[h - 1].len() as int)
    }
}

/// The occupied cells of a grid as `(x, y)` offsets, scanned row by row from
/// the top and left to right within a row.
pub open spec fn cells(g: Seq<Seq<u8>>) -> Seq<(int, int)> {
    grid_cells(g, g.len() as int)
}

/// The points, as `(x, y)` pairs.
pub open spec fn points_view(s: Seq<Point>) -> Seq<(int, int)> {
    s.map_values(|p: Point| p@)
}

proof fn lemma_row_cells_bounds(row: Seq<u8>, y: int, w: int)
    ensures
        forall|i: int|
            0 <= i < row_cells(row, y, w).len() ==> {
                &&& 0 <= (#[trigger] row_cells(row, y, w)[i]).0 < w
                &&& row_cells(row, y, w)[i].1 == y
            },
    decreases w,
{
    if w > 0 {
        lemma_row_cells_bounds(row, y, w - 1);
        let a = row_cells(row, y, w - 1);
        assert forall|i: int| 0 <= i < row_cells(row, y, w).len() implies {
            &&& 0 <= (#[trigger] row_cells(row, y, w)[i]).0 < w
            &&& row_cells(row, y, w)[i].1 == y
        } by {
            if i < a.len() {
                assert(row_cells(row, y, w)[i] == a[i]);
            }
        }
    }
}

proof fn lemma_grid_cells_bounds(g: Seq<Seq<u8>>, h: int, n: int)
    requires
        h <= g.len(),
        forall|i: int| 0 <= i < g.len() ==> #[trigger] g[i].len() == n,
    ensures
        forall|i: int|
            0 <= i < grid_cells(g, h).len() ==> {
                &&& 0 <= (#[trigger] grid_cells(g, h)[i]).0 < n
                &&& 0 <= grid_cells(g, h)[i].1 < h
            },
    decreases h,
{
    if h > 0 {
        lemma_grid_cells_bounds(g, h - 1, n);
        lemma_row_cells_bounds(g[h - 1], h - 1, g[h - 1].len() as int);
        let a = grid_cells(g, h - 1);
        let b = row_cells(g[h - 1], h - 1, g[h - 1].len() as int);
        assert forall|i: int| 0 <= i < grid_cells(g, h).len() implies {
            &&& 0 <= (#[trigger] grid_cells(g, h)[i]).0 < n
            &&& 0 <= grid_cells(g, h)[i].1 < h
        } by {
            if i < a.len() {
                assert(grid_cells(g, h)[i] == a[i]);
            } else {
                assert(grid_cells(g, h)[i] == b[i - a.len()]);
            }
        }
    }
}

/// Every orientation of every shape has exactly four occupied cells, each
/// inside the shape's square.
pub proof fn lemma_orientation_cells(t: FigureType, k: int)
    requires
        0 <= k < 4,
    ensures
        cells(orientation(t, k)).len() == 4,
        forall|i: int|
            0 <= i < 4 ==> {
                &&& 0 <= (#[trigger] cells(orientation(t, k))[i]).0 < side(t)
                &&& 0 <= cells(orientation(t, k))[i].1 < side(t)
            },
{
    reveal_with_fuel(grid_cells, 5);
    reveal_with_fuel(row_cells, 5);
    lemma_orientation(t, k);
    let g = orientation(t, k);
    assert(cells(g).len() == 4);
    lemma_grid_cells_bounds(g, g.len() as int, side(t));
}

/// A piece shape together with its current orientation.
#[derive(Debug, PartialEq)]
pub struct Figure {
    figure_type: FigureType,
    matrix: Matrix<u8>,
}

impl Figure {
    /// The figure's shape.
    pub closed spec fn shape(&self) -> FigureType {
        self.figure_type
    }

    /// The figure's current orientation grid.
    pub closed spec fn grid(&self) -> Seq<Seq<u8>> {
        self.matrix.view()
    }

    /// The orientation is one of the four quarter turns of the shape's
    /// initial orientation.
    pub open spec fn wf(&self) -> bool {
        exists|k: int| 0 <= k < 4 && self.grid() == #[trigger] orientation(self.shape(), k)
    }

    pub fn new(figure_type: FigureType) -> (r: Figure)
        ensures
            r.shape() == figure_type,
            r.grid() == orientation(figure_type, 0),
            r.wf(),
    {
        let matrix = figure_type.initial_matrix();
        Figure { figure_type, matrix }
    }

    pub fn get_type(&self) -> (r: FigureType)
        ensures
            r == self.shape(),
    {
        self.figure_type
    }

    pub fn color(&self) -> (r: Color)
        ensures
            r == color_of(self.shape()),
    {
        self.figure_type.color()
    }

    /// The current orientation matrix.
    pub fn matrix(&self) -> (r: &Matrix<u8>)
        ensures
            r.view() == self.grid(),
    {
        &self.matrix
    }

    /// The same shape, turned a quarter turn clockwise.
    pub fn rotated(&self) -> (r: Figure)
        requires
            self.wf(),
        ensures
            r.shape() == self.shape(),
            r.grid() == rotate(self.grid()),
            r.wf(),
    {
        let ghost k = choose|k: int| 0 <= k < 4 && self.grid() == #[trigger] orientation(self.shape(), k);
        proof {
            lemma_orientation(self.figure_type, k);
        }
        let matrix = self.matrix.rotated();
        let r = Figure { figure_type: self.figure_type, matrix };
        assert(r.grid() == orientation(r.shape(), (k + 1) % 4));
        r
    }

    /// The offsets of the occupied cells of the orientation, in row-major
    /// order.
    pub fn to_cartesian(&self) -> (r: Vec<Point>)
        requires
            self.wf(),
        ensures
            points_view(r@) == cells(self.grid()),
            r@.len() == 4,
    {
        let ghost k = choose|k: int| 0 <= k < 4 && self.grid() == #[trigger] orientation(self.shape(), k);
        let ghost g = self.grid();
        proof {
            lemma_orientation(self.figure_type, k);
            lemma_orientation_cells(self.figure_type, k);
        }
        let n = self.matrix.height();
        let mut points: Vec<Point> = Vec::new();
        let mut y: u32 = 0;
        while y < n
            invariant
                g == self.matrix.view(),
                self.matrix.wf(),
                is_square(g),
                n == g.len(),
                n <= 4,
                0 <= y <= n,
                points_view(points@) == grid_cells(g, y as int),
            decreases n - y,
        {
            let mut x: u32 = 0;
            while x < n
                invariant
                    g == self.matrix.view(),
                    self.matrix.wf(),
                    is_square(g),
                    n == g.len(),
                    n <= 4,
                    0 <= y < n,
                    0 <= x <= n,
                    points_view(points@) == grid_cells(g, y as int) + row_cells(
                        g[y as int],
                        y as int,
                        x as int,
                    ),
                decreases n - x,
            {
                assert(g[y as int].len() == n);
                let ghost before = points@;
                let ghost head = grid_cells(g, y as int);
                let ghost row = g[y as int];
                assert(row_cells(row, y as int, x + 1) == row_cells(row, y as int, x as int) + if row[x as int] == 1 {
                    seq![(x as int, y as int)]
                } else {
                    seq![]
                });
                if *self.matrix.at_xy(x, y) == 1 {
                    let p = Point { x: x as i32, y: y as i32 };
                    points.push(p);
                    assert(points_view(points@) =~= points_view(before).push(p@));
                    assert(points_view(points@) =~= head + row_cells(row, y as int, x + 1));
                } else {
                    assert(points_view(points@) =~= head + row_cells(row, y as int, x + 1));
                }
                assert(points_view(points@) =~= grid_cells(g, y as int) + row_cells(
                    g[y as int],
                    y as int,
                    x + 1,
                ));
                x = x + 1;
            }
            assert(g[y as int].len() == n);
            y = y + 1;
        }
        points
    }
}

impl Clone for Figure {
    fn clone(&self) -> (r: Self)
        ensures
            r.shape() == self.shape(),
            r.grid() == self.grid(),
    {
        Figure { figure_type: self.figure_type, matrix: self.matrix.clone() }
    }
}

/// Four quarter turns give any figure's orientation back, for every shape
/// and from each of its orientations.
pub proof fn lemma_four_rotations(f: Figure)
    requires
        f.wf(),
    ensures
        rotate(rotate(rotate(rotate(f.grid())))) == f.grid(),
{
    let k = choose|k: int| 0 <= k < 4 && f.grid() == #[trigger] orientation(f.shape(), k);
    lemma_orientation(f.shape(), k);
    lemma_rotate_four_times(f.grid());
}

} // verus!
