use vstd::prelude::*;
use crate::graphics::Color;
use crate::matrix::{Matrix, is_square, rotate, rows_view};

verus! {

/// One of the seven standard piece shapes.
#[derive(Debug, Clone, Copy, PartialEq, Eq, Structural)]
pub enum FigureType {
    I,
    T,
    L,
    J,
    O,
    Z,
    S,
}

/// The colour in which pieces of a shape are drawn.
pub open spec fn color_of(t: FigureType) -> Color {
    match t {
        FigureType::I => Color { red: 108, green: 237, blue: 238, alpha: 255 },
        FigureType::J => Color { red: 0, green: 33, blue: 230, alpha: 255 },
        FigureType::L => Color { red: 229, green: 162, blue: 67, alpha: 255 },
        FigureType::O => Color { red: 241, green: 238, blue: 79, alpha: 255 },
        FigureType::S => Color { red: 221, green: 47, blue: 23, alpha: 255 },
        FigureType::T => Color { red: 146, green: 45, blue: 231, alpha: 255 },
        FigureType::Z => Color { red: 110, green: 235, blue: 71, alpha: 255 },
    }
}

/// Side of the square orientation matrix of a shape.
pub open spec fn side(t: FigureType) -> int {
    match t {
        FigureType::I => 4,
        FigureType::O => 2,
        _ => 3,
    }
}

/// The orientation of a shape after `k` quarter turns clockwise from its
/// initial one (`k` taken modulo 4); 1 marks an occupied cell.
pub open spec fn orientation(t: FigureType, k: int) -> Seq<Seq<u8>> {
    let k = k % 4;
    match t {
        FigureType::I => if k == 0 {
            seq![seq![0u8, 0, 0, 0], seq![1u8, 1, 1, 1], seq![0u8, 0, 0, 0], seq![0u8, 0, 0, 0]]
        } else if k == 1 {
            seq![seq![0u8, 0, 1, 0], seq![0u8, 0, 1, 0], seq![0u8, 0, 1, 0], seq![0u8, 0, 1, 0]]
        } else if k == 2 {
            seq![seq![0u8, 0, 0, 0], seq![0u8, 0, 0, 0], seq![1u8, 1, 1, 1], seq![0u8, 0, 0, 0]]
        } else {
            seq![seq![0u8, 1, 0, 0], seq![0u8, 1, 0, 0], seq![0u8, 1, 0, 0], seq![0u8, 1, 0, 0]]
        },
        FigureType::J => if k == 0 {
            seq![seq![1u8, 0, 0], seq![1u8, 1, 1], seq![0u8, 0, 0]]
        } else if k == 1 {
            seq![seq![0u8, 1, 1], seq![0u8, 1, 0], seq![0u8, 1, 0]]
        } else if k == 2 {
            seq![seq![0u8, 0, 0], seq![1u8, 1, 1], seq![0u8, 0, 1]]
        } else {
            seq![seq![0u8, 1, 0], seq![0u8, 1, 0], seq![1u8, 1, 0]]
        },
        FigureType::L => if k == 0 {
            seq![seq![0u8, 0, 1], seq![1u8, 1, 1], seq![0u8, 0, 0]]
        } else if k == 1 {
            seq![seq![0u8, 1, 0], seq![0u8, 1, 0], seq![0u8, 1, 1]]
        } else if k == 2 {
            seq![seq![0u8, 0, 0], seq![1u8, 1, 1], seq![1u8, 0, 0]]
        } else {
            seq![seq![1u8, 1, 0], seq![0u8, 1, 0], seq![0u8, 1, 0]]
        },
        FigureType::O => seq![seq![1u8, 1], seq![1u8, 1]],
        FigureType::S => if k == 0 {
            seq![seq![0u8, 1, 1], seq![1u8, 1, 0], seq![0u8, 0, 0]]
        } else if k == 1 {
            seq![seq![0u8, 1, 0], seq![0u8, 1, 1], seq![0u8, 0, 1]]
        } else if k == 2 {
            seq![seq![0u8, 0, 0], seq![0u8, 1, 1], seq![1u8, 1, 0]]
        } else {
            seq![seq![1u8, 0, 0], seq![1u8, 1, 0], seq![0u8, 1, 0]]
        },
        FigureType::T => if k == 0 {
            seq![seq![0u8, 1, 0], seq![1u8, 1, 1], seq![0u8, 0, 0]]
        } else if k == 1 {
            seq![seq![0u8, 1, 0], seq![0u8, 1, 1], seq![0u8, 1, 0]]
        } else if k == 2 {
            seq![seq![0u8, 0, 0], seq![1u8, 1, 1], seq![0u8, 1, 0]]
        } else {
            seq![seq![0u8, 1, 0], seq![1u8, 1, 0], seq![0u8, 1, 0]]
        },
        FigureType::Z => if k == 0 {
            seq![seq![1u8, 1, 0], seq![0u8, 1, 1], seq![0u8, 0, 0]]
        } else if k == 1 {
            seq![seq![0u8, 0, 1], seq![0u8, 1, 1], seq![0u8, 1, 0]]
        } else if k == 2 {
            seq![seq![0u8, 0, 0], seq![1u8, 1, 0], seq![0u8, 1, 1]]
        } else {
            seq![seq![0u8, 1, 0], seq![1u8, 1, 0], seq![1u8, 0, 0]]
        },
    }
}

/// Two square grids of side `n` where `h` is `g` turned a quarter turn.
proof fn lemma_rotate_is(g: Seq<Seq<u8>>, h: Seq<Seq<u8>>, n: int)
    requires
        g.len() == n,
        h.len() == n,
        forall|i: int| 0 <= i < n ==> #[trigger] g[i].len() == n,
        forall|i: int| 0 <= i < n ==> #[trigger] h[i].len() == n,
        forall|i: int, j: int| 0 <= i < n && 0 <= j < n ==> g[n - 1 - j][i] == #[trigger] h[i][j],
    ensures
        rotate(g) == h,
{
    assert forall|i: int| 0 <= i < n implies #[trigger] rotate(g)[i] == h[i] by {
        assert(rotate(g)[i] =~= h[i]);
    }
    assert(rotate(g) =~= h);
}

/// Each orientation of a shape is a square of the shape's side, and a quarter
/// turn of it is the next orientation.
pub proof fn lemma_orientation(t: FigureType, k: int)
    requires
        0 <= k < 4,
    ensures
        is_square(orientation(t, k)),
        orientation(t, k).len() == side(t),
        rotate(orientation(t, k)) == orientation(t, k + 1),
        orientation(t, k + 1) == orientation(t, (k + 1) % 4),
{
    let g = orientation(t, k);
    let h = orientation(t, k + 1);
    let n = side(t);
    assert(forall|i: int| 0 <= i < n ==> #[trigger] g[i].len() == n);
    assert(forall|i: int| 0 <= i < n ==> #[trigger] h[i].len() == n);
    assert forall|i: int, j: int| 0 <= i < n && 0 <= j < n implies g[n - 1 - j][i]
        == #[trigger] h[i][j] by {
        assert(0 <= i < n && 0 <= j < n);
    }
    lemma_rotate_is(g, h, n);
}

impl FigureType {
    pub fn color(&self) -> (r: Color)
        ensures
            r == color_of(*self),
    {
        match self {
            FigureType::I => Color { red: 108, green: 237, blue: 238, alpha: 255 },
            FigureType::J => Color { red: 0, green: 33, blue: 230, alpha: 255 },
            FigureType::L => Color { red: 229, green: 162, blue: 67, alpha: 255 },
            FigureType::O => Color { red: 241, green: 238, blue: 79, alpha: 255 },
            FigureType::S => Color { red: 221, green: 47, blue: 23, alpha: 255 },
            FigureType::T => Color { red: 146, green: 45, blue: 231, alpha: 255 },
            FigureType::Z => Color { red: 110, green: 235, blue: 71, alpha: 255 },
        }
    }

    /// The shape's orientation before any rotation.
    pub fn initial_matrix(&self) -> (r: Matrix<u8>)
        ensures
            r.view() == orientation(*self, 0),
            r.wf(),
    {
        let vectors = match self {
            FigureType::I => self.draw_i(),
            FigureType::J => self.draw_j(),
            FigureType::L => self.draw_l(),
            FigureType::O => self.draw_o(),
            FigureType::S => self.draw_s(),
            FigureType::T => self.draw_t(),
            FigureType::Z => self.draw_z(),
        };
        proof {
            lemma_orientation(*self, 0);
        }
        Matrix::new(vectors)
    }

    fn draw_i(&self) -> (r: Vec<Vec<u8>>)
        ensures
            rows_view(r@) == orientation(FigureType::I, 0),
    {
        let r = vec![vec![0, 0, 0, 0], vec![1, 1, 1, 1], vec![0, 0, 0, 0], vec![0, 0, 0, 0]];
        assert(rows_view(r@) =~= orientation(FigureType::I, 0));
        r
    }

    fn draw_j(&self) -> (r: Vec<Vec<u8>>)
        ensures
            rows_view(r@) == orientation(FigureType::J, 0),
    {
        let r = vec![vec![1, 0, 0], vec![1, 1, 1], vec![0, 0, 0]];
        assert(rows_view(r@) =~= orientation(FigureType::J, 0));
        r
    }

    fn draw_l(&self) -> (r: Vec<Vec<u8>>)
        ensures
            rows_view(r@) == orientation(FigureType::L, 0),
    {
        let r = vec![vec![0, 0, 1], vec![1, 1, 1], vec![0, 0, 0]];
        assert(rows_view(r@) =~= orientation(FigureType::L, 0));
        r
    }

    fn draw_o(&self) -> (r: Vec<Vec<u8>>)
        ensures
            rows_view(r@) == orientation(FigureType::O, 0),
    {
        let r = vec![vec![1, 1], vec![1, 1]];
        assert(rows_view(r@) =~= orientation(FigureType::O, 0));
        r
    }

    fn draw_s(&self) -> (r: Vec<Vec<u8>>)
        ensures
            rows_view(r@) == orientation(FigureType::S, 0),
    {
        let r = vec![vec![0, 1, 1], vec![1, 1, 0], vec![0, 0, 0]];
        assert(rows_view(r@) =~= orientation(FigureType::S, 0));
        r
    }

    fn draw_t(&self) -> (r: Vec<Vec<u8>>)
        ensures
            rows_view(r@) == orientation(FigureType::T, 0),
    {
        let r = vec![vec![0, 1, 0], vec![1, 1, 1], vec![0, 0, 0]];
        assert(rows_view(r@) =~= orientation(FigureType::T, 0));
        r
    }

    fn draw_z(&self) -> (r: Vec<Vec<u8>>)
        ensures
            rows_view(r@) == orientation(FigureType::Z, 0),
    {
        let r = vec![vec![1, 1, 0], vec![0, 1, 1], vec![0, 0, 0]];
        assert(rows_view(r@) =~= orientation(FigureType::Z, 0));
        r
    }
}

} // verus!
