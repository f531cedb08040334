use vstd::prelude::*;
use crate::figure::{Figure, cells, lemma_orientation_cells, points_view};
use crate::figure_type::{FigureType, color_of, orientation, side};
use crate::geometry::Point;
use crate::graphics::Color;
use crate::matrix::rotate;

verus! {

/// The cells moved by the offset `p`.
pub open spec fn translate(cs: Seq<(int, int)>, p: (int, int)) -> Seq<(int, int)> {
    cs.map_values(|c: (int, int)| (c.0 + p.0, c.1 + p.1))
}

/// A placed figure as plain values: its shape, its orientation grid and its
/// anchor.
pub type Piece = (FigureType, Seq<Seq<u8>>, (int, int));

/// The board cells a placed figure covers.
pub open spec fn piece_cells(p: Piece) -> Seq<(int, int)> {
    translate(cells(p.1), p.2)
}

/// `v` is the smallest x among the cells.
pub open spec fn is_least_x(cs: Seq<(int, int)>, v: int) -> bool {
    &&& exists|i: int| 0 <= i < cs.len() && #[trigger] cs[i].0 == v
    &&& forall|i: int| 0 <= i < cs.len() ==> v <= #[trigger] cs[i].0
}

/// `v` is the largest x among the cells.
pub open spec fn is_greatest_x(cs: Seq<(int, int)>, v: int) -> bool {
    &&& exists|i: int| 0 <= i < cs.len() && #[trigger] cs[i].0 == v
    &&& forall|i: int| 0 <= i < cs.len() ==> #[trigger] cs[i].0 <= v
}

/// `v` is the largest y among the cells.
pub open spec fn is_greatest_y(cs: Seq<(int, int)>, v: int) -> bool {
    &&& exists|i: int| 0 <= i < cs.len() && #[trigger] cs[i].1 == v
    &&& forall|i: int| 0 <= i < cs.len() ==> #[trigger] cs[i].1 <= v
}

/// An anchor far enough from the largest `i32` that every cell of a figure
/// placed there has representable coordinates.
pub open spec fn anchor_fits(p: (int, int)) -> bool {
    &&& i32::MIN <= p.0 <= i32::MAX - 4
    &&& i32::MIN <= p.1 <= i32::MAX - 4
}

/// The anchor offsets tried, in order, when rotating a figure.
pub open spec fn wall_kicks() -> Seq<(int, int)> {
    seq![(0, 0), (-1, 0), (1, 0), (-2, 0), (2, 0)]
}

/// The falling piece: a figure anchored at a board position.
#[derive(Debug, PartialEq)]
pub struct ActiveFigure {
    figure: Figure,
    position: Point,
}

impl ActiveFigure {
    pub closed spec fn fig(&self) -> Figure {
        self.figure
    }

    pub closed spec fn anchor(&self) -> Point {
        self.position
    }

    pub open spec fn wf(&self) -> bool {
        self.fig().wf() && anchor_fits(self.anchor()@)
    }

    /// The figure as plain values: shape, orientation grid and anchor.
    pub open spec fn piece(&self) -> Piece {
        (self.fig().shape(), self.fig().grid(), self.anchor()@)
    }

    /// The board cells the figure covers, in the figure's row-major order.
    pub open spec fn cells_spec(&self) -> Seq<(int, int)> {
        piece_cells(self.piece())
    }

    /// Every cell of a well-formed figure lies in the 4-by-4 square at its
    /// anchor, and there are exactly four of them.
    pub proof fn lemma_cells(&self)
        requires
            self.wf(),
        ensures
            self.cells_spec().len() == 4,
            forall|i: int|
                0 <= i < 4 ==> {
                    &&& self.anchor().x <= (#[trigger] self.cells_spec()[i]).0 < self.anchor().x + 4
                    &&& self.anchor().y <= self.cells_spec()[i].1 < self.anchor().y + 4
                },
    {
        let f = self.fig();
        let k = choose|k: int| 0 <= k < 4 && f.grid() == #[trigger] orientation(f.shape(), k);
        lemma_orientation_cells(f.shape(), k);
        assert(side(f.shape()) <= 4);
    }

    pub fn new(figure_type: FigureType, position: Point) -> (r: ActiveFigure)
        requires
            anchor_fits(position@),
        ensures
            r.fig().shape() == figure_type,
            r.fig().grid() == orientation(figure_type, 0),
            r.anchor() == position,
            r.wf(),
    {
        ActiveFigure { figure: Figure::new(figure_type), position }
    }

    /// The board cells the figure covers.
    pub fn to_cartesian(&self) -> (r: Vec<Point>)
        requires
            self.wf(),
        ensures
            points_view(r@) == self.cells_spec(),
            r@.len() == 4,
    {
        let offsets = self.figure.to_cartesian();
        let ghost local = cells(self.figure.grid());
        proof {
            let f = self.fig();
            let k = choose|k: int| 0 <= k < 4 && f.grid() == #[trigger] orientation(f.shape(), k);
            lemma_orientation_cells(f.shape(), k);
        }
        let dx = self.position.x;
        let dy = self.position.y;
        let mut points: Vec<Point> = Vec::new();
        let mut i: usize = 0;
        while i < offsets.len()
            invariant
                points_view(offsets@) == local,
                local.len() == 4,
                forall|j: int|
                    0 <= j < 4 ==> {
                        &&& 0 <= (#[trigger] local[j]).0 < 4
                        &&& 0 <= local[j].1 < 4
                    },
                dx == self.position.x,
                dy == self.position.y,
                anchor_fits(self.position@),
                0 <= i <= offsets.len(),
                points_view(points@) == translate(local, self.position@).subrange(0, i as int),
            decreases offsets.len() - i,
        {
            let o = offsets[i];
            assert(o@ == local[i as int]);
            let p = Point { x: o.x + dx, y: o.y + dy };
            let ghost before = points@;
            points.push(p);
            assert(translate(local, self.position@)[i as int] == p@);
            assert(points_view(points@) =~= points_view(before).push(p@));
            assert(points_view(points@) =~= translate(local, self.position@).subrange(0, i + 1));
            i = i + 1;
        }
        assert(points_view(points@) =~= translate(local, self.position@));
        points
    }

    pub fn color(&self) -> (r: Color)
        ensures
            r == color_of(self.fig().shape()),
    {
        self.figure.color()
    }

    pub fn get_type(&self) -> (r: FigureType)
        ensures
            r == self.fig().shape(),
    {
        self.figure.get_type()
    }

    pub fn figure(&self) -> (r: &Figure)
        ensures
            *r == self.fig(),
    {
        &self.figure
    }

    pub fn position(&self) -> (r: Point)
        ensures
            r == self.anchor(),
    {
        self.position
    }

    /// The smallest x of the covered cells.
    pub fn left_edge(&self) -> (r: i32)
        requires
            self.wf(),
        ensures
            is_least_x(self.cells_spec(), r as int),
    {
        let points = self.to_cartesian();
        let ghost cs = self.cells_spec();
        let mut edge = points[0].x;
        let mut i: usize = 1;
        let ghost mut at: int = 0;
        assert(points@[0]@ == cs[0]);
        while i < points.len()
            invariant
                points_view(points@) == cs,
                cs.len() == 4,
                1 <= i <= points.len(),
                0 <= at < i,
                cs[at].0 == edge,
                forall|j: int| 0 <= j < i ==> edge <= #[trigger] cs[j].0,
            decreases points.len() - i,
        {
            assert(points@[i as int]@ == cs[i as int]);
            if points[i].x < edge {
                edge = points[i].x;
                proof {
                    at = i as int;
                }
            }
            i = i + 1;
        }
        edge
    }

    /// The largest x of the covered cells.
    pub fn right_edge(&self) -> (r: i32)
        requires
            self.wf(),
        ensures
            is_greatest_x(self.cells_spec(), r as int),
    {
        let points = self.to_cartesian();
        let ghost cs = self.cells_spec();
        let mut edge = points[0].x;
        let mut i: usize = 1;
        let ghost mut at: int = 0;
        assert(points@[0]@ == cs[0]);
        while i < points.len()
            invariant
                points_view(points@) == cs,
                cs.len() == 4,
                1 <= i <= points.len(),
                0 <= at < i,
                cs[at].0 == edge,
                forall|j: int| 0 <= j < i ==> #[trigger] cs[j].0 <= edge,
            decreases points.len() - i,
        {
            assert(points@[i as int]@ == cs[i as int]);
            if points[i].x > edge {
                edge = points[i].x;
                proof {
                    at = i as int;
                }
            }
            i = i + 1;
        }
        edge
    }

    /// The largest y of the covered cells.
    pub fn bottom_edge(&self) -> (r: i32)
        requires
            self.wf(),
        ensures
            is_greatest_y(self.cells_spec(), r as int),
    {
        let points = self.to_cartesian();
        let ghost cs = self.cells_spec();
        let mut edge = points[0].y;
        let mut i: usize = 1;
        let ghost mut at: int = 0;
        assert(points@[0]@ == cs[0]);
        while i < points.len()
            invariant
                points_view(points@) == cs,
                cs.len() == 4,
                1 <= i <= points.len(),
                0 <= at < i,
                cs[at].1 == edge,
                forall|j: int| 0 <= j < i ==> #[trigger] cs[j].1 <= edge,
            decreases points.len() - i,
        {
            assert(points@[i as int]@ == cs[i as int]);
            if points[i].y > edge {
                edge = points[i].y;
                proof {
                    at = i as int;
                }
            }
            i = i + 1;
        }
        edge
    }

    /// The same figure with its anchor moved by `(x, y)`.
    pub fn updating_position_by_xy(&self, x: i32, y: i32) -> (r: ActiveFigure)
        requires
            self.wf(),
            anchor_fits((self.anchor().x + x, self.anchor().y + y)),
        ensures
            r.fig().shape() == self.fig().shape(),
            r.fig().grid() == self.fig().grid(),
            r.anchor()@ == (self.anchor().x + x, self.anchor().y + y),
            r.wf(),
    {
        let figure = self.figure.clone();
        let r = ActiveFigure {
            figure,
            position: Point { x: self.position.x + x, y: self.position.y + y },
        };
        assert(r.fig().wf());
        r
    }

    /// The same figure turned a quarter turn clockwise about the same anchor.
    pub fn rotated(&self) -> (r: ActiveFigure)
        requires
            self.wf(),
        ensures
            r.fig().shape() == self.fig().shape(),
            r.fig().grid() == rotate(self.fig().grid()),
            r.anchor() == self.anchor(),
            r.wf(),
    {
        ActiveFigure { figure: self.figure.rotated(), position: self.position }
    }

    /// The anchor offsets to try, in order, when rotating.
    pub fn wall_kick_tests(&self) -> (r: Vec<Point>)
        ensures
            points_view(r@) == wall_kicks(),
    {
        let r = vec![
            Point { x: 0, y: 0 },
            Point { x: -1, y: 0 },
            Point { x: 1, y: 0 },
            Point { x: -2, y: 0 },
            Point { x: 2, y: 0 },
        ];
        assert(points_view(r@) =~= wall_kicks());
        r
    }
}

impl Clone for ActiveFigure {
    fn clone(&self) -> (r: Self)
        ensures
            r.fig().shape() == self.fig().shape(),
            r.fig().grid() == self.fig().grid(),
            r.anchor() == self.anchor(),
    {
        ActiveFigure { figure: self.figure.clone(), position: self.position }
    }
}

} // verus!
