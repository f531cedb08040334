use vstd::prelude::*;

verus! {

/// The rows of a grid of vectors, as sequences.
pub open spec fn rows_view<T>(rows: Seq<Vec<T>>) -> Seq<Seq<T>> {
    rows.map_values(|r: Vec<T>| r@)
}

/// Number of columns of a grid: the length of its first row, or 0.
pub open spec fn grid_width<T>(g: Seq<Seq<T>>) -> int {
    if g.len() == 0 {
        0
    } else {
        g[0].len() as int
    }
}

/// Every row of the grid has the same length.
pub open spec fn is_rectangular<T>(g: Seq<Seq<T>>) -> bool {
    forall|y: int| 0 <= y < g.len() ==> #[trigger] g[y].len() == grid_width(g)
}

/// A rectangular grid whose dimensions fit in `u32`.
pub open spec fn is_grid<T>(g: Seq<Seq<T>>) -> bool {
    &&& is_rectangular(g)
    &&& g.len() <= u32::MAX
    &&& grid_width(g) <= u32::MAX
}

/// A grid with as many columns as rows.
pub open spec fn is_square<T>(g: Seq<Seq<T>>) -> bool {
    is_rectangular(g) && grid_width(g) == g.len()
}

/// The grid turned a quarter turn clockwise: `new[i][j] == old[n-1-j][i]`.
pub open spec fn rotate<T>(g: Seq<Seq<T>>) -> Seq<Seq<T>> {
    Seq::new(g.len(), |i: int| Seq::new(g.len(), |j: int| g[g.len() - 1 - j][i]))
}

/// The grid with the single cell in column `x` of row `y` set to `v`.
pub open spec fn grid_update<T>(g: Seq<Seq<T>>, x: int, y: int, v: T) -> Seq<Seq<T>> {
    g.update(y, g[y].update(x, v))
}

/// Rotation keeps a grid square.
pub proof fn lemma_rotate_square<T>(g: Seq<Seq<T>>)
    requires
        is_square(g),
    ensures
        is_square(rotate(g)),
        rotate(g).len() == g.len(),
{
    if g.len() > 0 {
        assert(rotate(g)[0].len() == g.len());
    }
}

/// A quarter turn applied four times gives the grid back: rotation is a
/// cyclic operation of order four.
pub proof fn lemma_rotate_four_times<T>(g: Seq<Seq<T>>)
    requires
        is_square(g),
    ensures
        rotate(rotate(rotate(rotate(g)))) == g,
{
    let n = g.len();
    let r1 = rotate(g);
    let r2 = rotate(r1);
    let r3 = rotate(r2);
    let r4 = rotate(r3);
    assert forall|i: int, j: int| 0 <= i < n && 0 <= j < n implies r4[i][j] == g[i][j] by {
        assert(r4[i][j] == r3[n - 1 - j][i]);
        assert(r3[n - 1 - j][i] == r2[n - 1 - i][n - 1 - j]);
        assert(r2[n - 1 - i][n - 1 - j] == r1[j][n - 1 - i]);
        assert(r1[j][n - 1 - i] == g[i][j]);
    }
    assert forall|i: int| 0 <= i < n implies r4[i] == g[i] by {
        assert(g[i].len() == grid_width(g));
        assert(r4[i] =~= g[i]);
    }
    assert(r4 =~= g);
}

/// A rectangular grid of values, read and written by column `x` and row `y`.
#[derive(Debug, PartialEq)]
pub struct Matrix<T> {
    data: Vec<Vec<T>>,
}

impl<T: Copy> Matrix<T> {
    /// The rows of the matrix, top to bottom.
    pub closed spec fn view(&self) -> Seq<Seq<T>> {
        rows_view(self.data@)
    }

    pub open spec fn wf(&self) -> bool {
        is_grid(self.view())
    }

    pub fn new(data: Vec<Vec<T>>) -> (r: Matrix<T>)
        requires
            is_grid(rows_view(data@)),
        ensures
            r.view() == rows_view(data@),
            r.wf(),
    {
        Matrix { data }
    }

    /// The matrix turned a quarter turn clockwise.
    pub fn rotated(&self) -> (r: Matrix<T>)
        requires
            self.wf(),
            is_square(self.view()),
        ensures
            r.view() == rotate(self.view()),
            r.wf(),
    {
        let ghost g = self.view();
        let n = self.data.len();
        let mut data: Vec<Vec<T>> = Vec::new();
        let mut i: usize = 0;
        while i < n
            invariant
                n == g.len(),
                g == rows_view(self.data@),
                is_square(g),
                0 <= i <= n,
                data@.len() == i,
                forall|k: int| 0 <= k < i ==> #[trigger] data@[k]@ == rotate(g)[k],
            decreases n - i,
        {
            let mut row: Vec<T> = Vec::new();
            let mut j: usize = 0;
            while j < n
                invariant
                    n == g.len(),
                    g == rows_view(self.data@),
                    is_square(g),
                    0 <= i < n,
                    0 <= j <= n,
                    row@ == rotate(g)[i as int].subrange(0, j as int),
                decreases n - j,
            {
                assert(g[n - 1 - j].len() == n);
                assert(self.data@[n - 1 - j]@ == g[n - 1 - j]);
                let v: T = self.data[n - 1 - j][i];
                row.push(v);
                assert(row@ =~= rotate(g)[i as int].subrange(0, j + 1));
                j = j + 1;
            }
            assert(row@ =~= rotate(g)[i as int]);
            data.push(row);
            i = i + 1;
        }
        proof {
            lemma_rotate_square(g);
        }
        assert(rows_view(data@) =~= rotate(g));
        Matrix { data }
    }

    pub fn height(&self) -> (r: u32)
        requires
            self.wf(),
        ensures
            r == self.view().len(),
    {
        self.data.len() as u32
    }

    pub fn width(&self) -> (r: u32)
        requires
            self.wf(),
        ensures
            r == grid_width(self.view()),
    {
        if self.data.len() == 0 {
            0
        } else {
            self.data[0].len() as u32
        }
    }

    pub fn at_xy(&self, x: u32, y: u32) -> (r: &T)
        requires
            self.wf(),
            y < self.view().len(),
            x < grid_width(self.view()),
        ensures
            *r == self.view()[y as int][x as int],
    {
        assert(self.view()[y as int].len() == grid_width(self.view()));
        &self.data[y as usize][x as usize]
    }

    /// A copy of the matrix with the one cell at column `x`, row `y` set to `element`.
    pub fn replacing_at_xy(&self, x: u32, y: u32, element: T) -> (r: Matrix<T>)
        requires
            self.wf(),
            y < self.view().len(),
            x < grid_width(self.view()),
        ensures
            r.view() == grid_update(self.view(), x as int, y as int, element),
            r.wf(),
    {
        let ghost g = self.view();
        let ghost target = grid_update(g, x as int, y as int, element);
        let h = self.data.len();
        let mut data: Vec<Vec<T>> = Vec::new();
        let mut row_index: usize = 0;
        while row_index < h
            invariant
                h == g.len(),
                g == rows_view(self.data@),
                is_grid(g),
                y < h,
                x < grid_width(g),
                target == grid_update(g, x as int, y as int, element),
                0 <= row_index <= h,
                data@.len() == row_index,
                forall|k: int| 0 <= k < row_index ==> #[trigger] data@[k]@ == target[k],
            decreases h - row_index,
        {
            let w = self.data[row_index].len();
            assert(self.data@[row_index as int]@ == g[row_index as int]);
            let mut row: Vec<T> = Vec::new();
            let mut col: usize = 0;
            while col < w
                invariant
                    h == g.len(),
                    g == rows_view(self.data@),
                    is_grid(g),
                    y < h,
                    x < grid_width(g),
                    target == grid_update(g, x as int, y as int, element),
                    0 <= row_index < h,
                    w == g[row_index as int].len(),
                    0 <= col <= w,
                    row@ == target[row_index as int].subrange(0, col as int),
                decreases w - col,
            {
                if col as u32 == x && row_index as u32 == y {
                    row.push(element);
                } else {
                    let v: T = self.data[row_index][col];
                    row.push(v);
                }
                assert(g[y as int].len() == grid_width(g));
                assert(row@ =~= target[row_index as int].subrange(0, col + 1));
                col = col + 1;
            }
            assert(row@ =~= target[row_index as int]);
            data.push(row);
            row_index = row_index + 1;
        }
        assert(rows_view(data@) =~= target);
        assert(g[y as int].len() == grid_width(g));
        assert forall|k: int| 0 <= k < target.len() implies #[trigger] target[k].len()
            == grid_width(target) by {
            assert(g[k].len() == grid_width(g));
            assert(g[0].len() == grid_width(g));
        }
        Matrix { data }
    }
}

impl<T: Copy> Clone for Matrix<T> {
    fn clone(&self) -> (r: Self)
        ensures
            r.view() == self.view(),
    {
        let ghost g = self.view();
        let h = self.data.len();
        let mut data: Vec<Vec<T>> = Vec::new();
        let mut y: usize = 0;
        while y < h
            invariant
                h == g.len(),
                g == rows_view(self.data@),
                0 <= y <= h,
                data@.len() == y,
                forall|k: int| 0 <= k < y ==> #[trigger] data@[k]@ == g[k],
            decreases h - y,
        {
            let w = self.data[y].len();
            let mut row: Vec<T> = Vec::new();
            let mut x: usize = 0;
            while x < w
                invariant
                    h == g.len(),
                    g == rows_view(self.data@),
                    0 <= y < h,
                    w == g[y as int].len(),
                    0 <= x <= w,
                    row@ == g[y as int].subrange(0, x as int),
                decreases w - x,
            {
                let v: T = self.data[y][x];
                row.push(v);
                assert(row@ =~= g[y as int].subrange(0, x + 1));
                x = x + 1;
            }
            assert(row@ =~= g[y as int]);
            data.push(row);
            y = y + 1;
        }
        assert(rows_view(data@) =~= g);
        Matrix { data }
    }
}

} // verus!
