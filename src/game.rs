use vstd::prelude::*;
use crate::active_figure::{ActiveFigure, Piece, is_greatest_y, piece_cells, wall_kicks};
use crate::block::Block;
use crate::board::{Board, Cell, empty_rows, lemma_removing_nothing, line_full, occupied, removing};
use crate::figure::points_view;
use crate::figure_type::{FigureType, color_of, orientation};
use crate::geometry::{Point, Rect, Size};
use crate::graphics::Color;
use crate::matrix::{grid_update, grid_width, rotate};

verus! {

/// Milliseconds that must pass before gravity moves the falling piece.
pub const MOVING_PERIOD: u64 = 200;

/// Every cell lies on the board.
pub open spec fn inside(g: Seq<Seq<Cell>>, cs: Seq<(int, int)>) -> bool {
    forall|i: int|
        0 <= i < cs.len() ==> {
            &&& 0 <= (#[trigger] cs[i]).0 < grid_width(g)
            &&& 0 <= cs[i].1 < g.len()
        }
}

/// Some cell is an occupied board cell.
pub open spec fn overlaps(g: Seq<Seq<Cell>>, cs: Seq<(int, int)>) -> bool {
    exists|i: int| 0 <= i < cs.len() && occupied(g, #[trigger] cs[i])
}

/// A placement is valid when every cell is on the board and free.
pub open spec fn valid(g: Seq<Seq<Cell>>, cs: Seq<(int, int)>) -> bool {
    inside(g, cs) && !overlaps(g, cs)
}

/// The piece with its anchor moved by `(dx, dy)`.
pub open spec fn shifted(p: Piece, dx: int, dy: int) -> Piece {
    (p.0, p.1, (p.2.0 + dx, p.2.1 + dy))
}

/// The piece turned a quarter turn about its anchor.
pub open spec fn turned(p: Piece) -> Piece {
    (p.0, rotate(p.1), p.2)
}

/// The piece after a requested move: the candidate if its placement is
/// valid, the piece unchanged otherwise.
pub open spec fn moved_if_valid(g: Seq<Seq<Cell>>, p: Piece, candidate: Piece) -> Piece {
    if valid(g, piece_cells(candidate)) {
        candidate
    } else {
        p
    }
}

/// The first of the wall-kick offsets, from the `i`-th on, whose shifted and
/// turned piece has a valid placement.
pub open spec fn first_kick(g: Seq<Seq<Cell>>, p: Piece, i: int) -> Option<Piece>
    decreases wall_kicks().len() - i,
{
    if i < 0 || i >= wall_kicks().len() {
        None
    } else {
        let c = turned(shifted(p, wall_kicks()[i].0, wall_kicks()[i].1));
        if valid(g, piece_cells(c)) {
            Some(c)
        } else {
            first_kick(g, p, i + 1)
        }
    }
}

/// A piece found by the wall-kick search has a valid placement.
proof fn lemma_first_kick_valid(g: Seq<Seq<Cell>>, p: Piece, i: int)
    ensures
        first_kick(g, p, i) matches Some(c) ==> valid(g, piece_cells(c)),
    decreases wall_kicks().len() - i,
{
    if 0 <= i < wall_kicks().len() {
        lemma_first_kick_valid(g, p, i + 1);
    }
}

/// The piece after a rotation request: the first valid wall-kicked rotation,
/// or the piece unchanged when there is none.
pub open spec fn rotated_piece(g: Seq<Seq<Cell>>, p: Piece) -> Piece {
    match first_kick(g, p, 0) {
        Some(c) => c,
        None => p,
    }
}

/// The cell lies on the grid.
pub open spec fn on_grid(g: Seq<Seq<Cell>>, c: (int, int)) -> bool {
    0 <= c.1 < g.len() && 0 <= c.0 < g[c.1].len()
}

/// The grid with those of the first `n` cells that lie on it set to hold
/// shape `t`.
pub open spec fn stamp(g: Seq<Seq<Cell>>, cs: Seq<(int, int)>, t: FigureType, n: int) -> Seq<Seq<Cell>>
    decreases n,
{
    if n <= 0 {
        g
    } else {
        let prev = stamp(g, cs, t, n - 1);
        if on_grid(prev, cs[n - 1]) {
            grid_update(prev, cs[n - 1].0, cs[n - 1].1, Some(t))
        } else {
            prev
        }
    }
}

/// The grid with every cell of the piece that lies on it locked in, holding
/// the piece's shape.
pub open spec fn locked(g: Seq<Seq<Cell>>, p: Piece) -> Seq<Seq<Cell>> {
    stamp(g, piece_cells(p), p.0, piece_cells(p).len() as int)
}

/// The completed rows among the first `n`, top to bottom.
pub open spec fn full_lines(g: Seq<Seq<Cell>>, n: int) -> Seq<usize>
    decreases n,
{
    if n <= 0 {
        seq![]
    } else if line_full(g, n - 1) {
        full_lines(g, n - 1).push((n - 1) as usize)
    } else {
        full_lines(g, n - 1)
    }
}

/// The completed rows of the grid, top to bottom.
pub open spec fn completed_lines(g: Seq<Seq<Cell>>) -> Seq<usize> {
    full_lines(g, g.len() as int)
}

/// The score after clearing `lines` rows: 100 for each, saturating at the
/// largest `u128`.
pub open spec fn add_points(score: u128, lines: int) -> u128 {
    if score + 100 * lines > u128::MAX {
        u128::MAX
    } else {
        (score + 100 * lines) as u128
    }
}

/// A fresh piece of shape `t` at the spawn anchor, the top-left corner.
pub open spec fn spawned(t: FigureType) -> Piece {
    (t, orientation(t, 0), (0, 0))
}

/// One gravity step on board `g`, falling piece `p`, score `score`, with
/// `next` the shape to spawn: the piece moves down a row if it can; else it
/// is locked into the board, completed rows are cleared and scored, and a
/// piece of shape `next` is spawned when its placement is valid.
pub open spec fn gravity_step(g: Seq<Seq<Cell>>, p: Piece, score: u128, next: FigureType) -> (
    Seq<Seq<Cell>>,
    Piece,
    u128,
) {
    let down = shifted(p, 0, 1);
    if valid(g, piece_cells(down)) {
        (g, down, score)
    } else {
        let filled = locked(g, p);
        let lines = completed_lines(filled);
        let cleared = removing(filled, lines);
        (cleared, moved_if_valid(cleared, p, spawned(next)), add_points(score, lines.len() as int))
    }
}

/// A one-by-one block at `(x, y)`.
pub open spec fn cell_block(x: int, y: int, c: Color) -> Block {
    Block {
        rect: Rect { origin: Point { x: x as i32, y: y as i32 }, size: Size { height: 1, width: 1 } },
        color: c,
    }
}

/// Blocks for the occupied cells among the first `w` of a row.
pub open spec fn row_blocks(row: Seq<Cell>, y: int, w: int) -> Seq<Block>
    decreases w,
{
    if w <= 0 {
        seq![]
    } else {
        row_blocks(row, y, w - 1) + match row[w - 1] {
            Some(t) => seq![cell_block(w - 1, y, color_of(t))],
            None => seq![],
        }
    }
}

/// Blocks for the occupied cells of the first `h` rows, in row-major order.
pub open spec fn grid_blocks(g: Seq<Seq<Cell>>, h: int) -> Seq<Block>
    decreases h,
{
    if h <= 0 {
        seq![]
    } else {
        grid_blocks(g, h - 1) + row_blocks(g[h - 1], h - 1, g[h - 1].len() as int)
    }
}

/// Blocks for the cells of a placed piece, in the colour of its shape.
pub open spec fn piece_blocks(p: Piece) -> Seq<Block> {
    piece_cells(p).map_values(|c: (int, int)| cell_block(c.0, c.1, color_of(p.0)))
}

/// When the falling piece cannot move down, the gravity step scores 100
/// for each row that locking it completes: with none, the score stays and
/// the board is the old one with the piece locked in; with one, the score
/// grows by exactly 100 (short of the largest `u128`, where it saturates).
pub proof fn lemma_gravity_scoring(g: Seq<Seq<Cell>>, p: Piece, score: u128, next: FigureType)
    requires
        !valid(g, piece_cells(shifted(p, 0, 1))),
    ensures
        gravity_step(g, p, score, next).2 == add_points(
            score,
            completed_lines(locked(g, p)).len() as int,
        ),
        completed_lines(locked(g, p)).len() == 0 ==> gravity_step(g, p, score, next).0 == locked(g, p)
            && gravity_step(g, p, score, next).2 == score,
        completed_lines(locked(g, p)).len() == 1 && score + 100 <= u128::MAX ==> gravity_step(
            g,
            p,
            score,
            next,
        ).2 == score + 100,
{
    let lines = completed_lines(locked(g, p));
    if lines.len() == 0 {
        assert(lines =~= seq![]);
        lemma_removing_nothing(locked(g, p));
    }
}

/// A gravity step never lowers the score.
pub proof fn lemma_score_never_decreases(g: Seq<Seq<Cell>>, p: Piece, score: u128, next: FigureType)
    ensures
        gravity_step(g, p, score, next).2 >= score,
{
}

/// An anchor no further than a piece's size from the board, so that moving
/// it by a wall-kick offset keeps its coordinates representable.
pub open spec fn near(b: Board, a: (int, int)) -> bool {
    -4 <= a.0 <= b.width_spec() && -4 <= a.1 <= b.height_spec()
}

/// A figure lying on a well-formed board is anchored near it.
proof fn lemma_inside_near(b: Board, a: ActiveFigure)
    requires
        b.wf(),
        a.wf(),
        inside(b.grid(), a.cells_spec()),
    ensures
        near(b, a.anchor()@),
{
    a.lemma_cells();
    let c = a.cells_spec()[0];
    assert(0 <= c.0 < grid_width(b.grid()));
    assert(0 <= c.1 < b.grid().len());
    assert(b.grid()[0].len() == b.width_spec());
}

/// A board side small enough that a piece near it keeps representable
/// coordinates.
pub open spec fn side_fits(n: int) -> bool {
    n <= i32::MAX - 8
}

proof fn lemma_full_lines_len(g: Seq<Seq<Cell>>, n: int)
    requires
        0 <= n,
    ensures
        full_lines(g, n).len() <= n,
    decreases n,
{
    if n > 0 {
        lemma_full_lines_len(g, n - 1);
    }
}

/// The falling-block game: the board of locked cells, the falling piece, the
/// score and the time waited since gravity last acted.
pub struct Game {
    board: Board,
    points: u128,
    active: ActiveFigure,
    waiting_time: u64,
    next_figure: FigureType,
}

impl Game {
    pub closed spec fn board_spec(&self) -> Board {
        self.board
    }

    pub closed spec fn active_spec(&self) -> ActiveFigure {
        self.active
    }

    pub closed spec fn score(&self) -> u128 {
        self.points
    }

    pub closed spec fn waited(&self) -> u64 {
        self.waiting_time
    }

    pub closed spec fn next_type(&self) -> FigureType {
        self.next_figure
    }

    /// The board grid.
    pub open spec fn grid(&self) -> Seq<Seq<Cell>> {
        self.board_spec().grid()
    }

    /// The falling piece.
    pub open spec fn piece(&self) -> Piece {
        self.active_spec().piece()
    }

    /// The board is well formed and small enough, and the falling piece is
    /// anchored near it.
    pub open spec fn wf(&self) -> bool {
        &&& self.board_spec().wf()
        &&& side_fits(self.board_spec().height_spec())
        &&& side_fits(self.board_spec().width_spec())
        &&& self.active_spec().wf()
        &&& near(self.board_spec(), self.active_spec().anchor()@)
    }

    /// A game on an empty board of the given size, with a T piece falling
    /// from the top-left corner.
    pub fn new(size: Size) -> (r: Game)
        requires
            side_fits(size.height as int),
            side_fits(size.width as int),
        ensures
            r.wf(),
            r.grid() == empty_rows(size.height as int, size.width as int),
            r.piece() == (FigureType::T, orientation(FigureType::T, 0), (0int, 0int)),
            r.score() == 0,
            r.waited() == 0,
            r.next_type() == FigureType::I,
    {
        let active = ActiveFigure::new(FigureType::T, Point { x: 0, y: 0 });
        let board = Board::new(size);
        Game { board, points: 0, active, waiting_time: 0, next_figure: FigureType::I }
    }

    /// The board of locked cells.
    pub fn board(&self) -> (r: &Board)
        ensures
            *r == self.board_spec(),
    {
        &self.board
    }

    /// The falling piece.
    pub fn active(&self) -> (r: &ActiveFigure)
        ensures
            *r == self.active_spec(),
    {
        &self.active
    }

    /// The score so far.
    pub fn points(&self) -> (r: u128)
        ensures
            r == self.score(),
    {
        self.points
    }

    /// Whether some cell of the figure is an occupied board cell.
    pub fn will_colide_with_block(&self, figure: &ActiveFigure) -> (r: bool)
        requires
            self.wf(),
            figure.wf(),
        ensures
            r == overlaps(self.grid(), figure.cells_spec()),
    {
        let points = figure.to_cartesian();
        let ghost cs = figure.cells_spec();
        let mut i: usize = 0;
        while i < points.len()
            invariant
                self.wf(),
                points_view(points@) == cs,
                cs == figure.cells_spec(),
                0 <= i <= points.len(),
                forall|k: int| 0 <= k < i ==> !occupied(self.grid(), #[trigger] cs[k]),
            decreases points.len() - i,
        {
            assert(points@[i as int]@ == cs[i as int]);
            if self.board.contains(points[i]) {
                assert(occupied(self.grid(), cs[i as int]));
                assert(points_view(points@).len() == points@.len());
                return true;
            }
            i = i + 1;
        }
        false
    }

    /// Whether some cell of the figure lies off the board.
    fn will_collide_with_edge(&self, figure: &ActiveFigure) -> (r: bool)
        requires
            self.wf(),
            figure.wf(),
        ensures
            r == !inside(self.grid(), figure.cells_spec()),
    {
        let points = figure.to_cartesian();
        let ghost cs = figure.cells_spec();
        let h = self.board.height();
        let w = self.board.width();
        let mut i: usize = 0;
        while i < points.len()
            invariant
                self.wf(),
                h == self.grid().len(),
                w == self.board_spec().width_spec(),
                h > 0 ==> w == grid_width(self.grid()),
                points_view(points@) == cs,
                cs == figure.cells_spec(),
                0 <= i <= points.len(),
                forall|k: int|
                    0 <= k < i ==> {
                        &&& 0 <= (#[trigger] cs[k]).0 < w
                        &&& 0 <= cs[k].1 < h
                    },
            decreases points.len() - i,
        {
            let p = points[i];
            assert(p@ == cs[i as int]);
            if p.x < 0 || p.y < 0 || p.x as usize >= w || p.y as usize >= h {
                assert(!(0 <= cs[i as int].0 < grid_width(self.grid()) && 0 <= cs[i as int].1 < h));
                assert(points_view(points@).len() == points@.len());
                return true;
            }
            i = i + 1;
        }
        false
    }

    /// Whether the figure lies on the board without covering a locked cell.
    fn has_valid_position(&self, figure: &ActiveFigure) -> (r: bool)
        requires
            self.wf(),
            figure.wf(),
        ensures
            r == valid(self.grid(), figure.cells_spec()),
    {
        !self.will_colide_with_block(figure) && !self.will_collide_with_edge(figure)
    }

    /// Whether the lowest cell of the falling piece is on the bottom row.
    pub fn is_at_the_bottom(&self) -> (r: bool)
        requires
            self.wf(),
        ensures
            r == is_greatest_y(self.active_spec().cells_spec(), self.grid().len() - 1),
    {
        self.active.bottom_edge() as i64 == self.board.height() as i64 - 1
    }

    /// Makes `new_active` the falling piece if its placement is valid.
    fn update_active_with(&mut self, new_active: ActiveFigure)
        requires
            old(self).wf(),
            new_active.wf(),
        ensures
            final(self).wf(),
            final(self).piece() == moved_if_valid(old(self).grid(), old(self).piece(), new_active.piece()),
            final(self).board_spec() == old(self).board_spec(),
            final(self).score() == old(self).score(),
            final(self).waited() == old(self).waited(),
            final(self).next_type() == old(self).next_type(),
    {
        if self.has_valid_position(&new_active) {
            proof {
                lemma_inside_near(self.board, new_active);
            }
            self.active = new_active;
        }
    }

    /// The falling piece with its anchor moved by `(x, y)`.
    fn active_figure_moved(&self, x: i32, y: i32) -> (r: ActiveFigure)
        requires
            self.wf(),
            -2 <= x <= 2,
            0 <= y <= 1,
        ensures
            r.piece() == shifted(self.piece(), x as int, y as int),
            r.wf(),
    {
        self.active.updating_position_by_xy(x, y)
    }

    pub fn move_left(&mut self)
        requires
            old(self).wf(),
        ensures
            final(self).wf(),
            final(self).piece() == moved_if_valid(old(self).grid(), old(self).piece(), shifted(old(self).piece(), -1, 0)),
            final(self).board_spec() == old(self).board_spec(),
            final(self).score() == old(self).score(),
            final(self).waited() == old(self).waited(),
            final(self).next_type() == old(self).next_type(),
    {
        let moved = self.active_figure_moved(-1, 0);
        self.update_active_with(moved);
    }

    pub fn move_right(&mut self)
        requires
            old(self).wf(),
        ensures
            final(self).wf(),
            final(self).piece() == moved_if_valid(old(self).grid(), old(self).piece(), shifted(old(self).piece(), 1, 0)),
            final(self).board_spec() == old(self).board_spec(),
            final(self).score() == old(self).score(),
            final(self).waited() == old(self).waited(),
            final(self).next_type() == old(self).next_type(),
    {
        let moved = self.active_figure_moved(1, 0);
        self.update_active_with(moved);
    }

    pub fn move_down(&mut self)
        requires
            old(self).wf(),
        ensures
            final(self).wf(),
            final(self).piece() == moved_if_valid(old(self).grid(), old(self).piece(), shifted(old(self).piece(), 0, 1)),
            final(self).board_spec() == old(self).board_spec(),
            final(self).score() == old(self).score(),
            final(self).waited() == old(self).waited(),
            final(self).next_type() == old(self).next_type(),
    {
        let moved = self.active_figure_moved(0, 1);
        self.update_active_with(moved);
    }

    /// The first wall-kicked rotation of the falling piece whose placement
    /// is valid, if any.
    fn wall_kicked_rotated_active_figure(&self) -> (r: Option<ActiveFigure>)
        requires
            self.wf(),
        ensures
            match r {
                Some(a) => a.wf() && first_kick(self.grid(), self.piece(), 0) == Some(a.piece()),
                None => first_kick(self.grid(), self.piece(), 0) is None,
            },
    {
        let kicks = self.active.wall_kick_tests();
        let ghost g = self.grid();
        let ghost p = self.piece();
        let mut i: usize = 0;
        while i < kicks.len()
            invariant
                self.wf(),
                g == self.grid(),
                p == self.piece(),
                points_view(kicks@) == wall_kicks(),
                0 <= i <= kicks.len(),
                first_kick(g, p, 0) == first_kick(g, p, i as int),
            decreases kicks.len() - i,
        {
            let test = kicks[i];
            assert(test@ == wall_kicks()[i as int]);
            let moved_figure = self.active_figure_moved(test.x, test.y);
            let test_figure = moved_figure.rotated();
            assert(test_figure.piece() == turned(shifted(p, test.x as int, test.y as int)));
            if self.has_valid_position(&test_figure) {
                assert(first_kick(g, p, i as int) == Some(test_figure.piece()));
                return Some(test_figure);
            }
            i = i + 1;
        }
        assert(first_kick(g, p, i as int) == None::<Piece>);
        None
    }

    /// Turns the falling piece a quarter turn, trying the wall-kick offsets
    /// in order; nothing changes when none of them gives a valid placement.
    pub fn rotate(&mut self)
        requires
            old(self).wf(),
        ensures
            final(self).wf(),
            final(self).piece() == rotated_piece(old(self).grid(), old(self).piece()),
            final(self).board_spec() == old(self).board_spec(),
            final(self).score() == old(self).score(),
            final(self).waited() == old(self).waited(),
            final(self).next_type() == old(self).next_type(),
    {
        if let Some(rotated) = self.wall_kicked_rotated_active_figure() {
            proof {
                lemma_first_kick_valid(self.grid(), self.piece(), 0);
            }
            self.update_active_with(rotated);
        }
    }

    /// Replaces the falling piece.
    pub fn set_active(&mut self, active: ActiveFigure)
        requires
            old(self).wf(),
            active.wf(),
            inside(old(self).grid(), active.cells_spec()),
        ensures
            final(self).wf(),
            final(self).active_spec() == active,
            final(self).board_spec() == old(self).board_spec(),
            final(self).score() == old(self).score(),
            final(self).waited() == old(self).waited(),
            final(self).next_type() == old(self).next_type(),
    {
        proof {
            lemma_inside_near(self.board, active);
        }
        self.active = active;
    }

    /// Replaces the board with one of the same size.
    pub fn set_board(&mut self, board: Board)
        requires
            old(self).wf(),
            board.wf(),
            board.height_spec() == old(self).board_spec().height_spec(),
            board.width_spec() == old(self).board_spec().width_spec(),
        ensures
            final(self).wf(),
            final(self).board_spec() == board,
            final(self).active_spec() == old(self).active_spec(),
            final(self).score() == old(self).score(),
            final(self).waited() == old(self).waited(),
            final(self).next_type() == old(self).next_type(),
    {
        self.board = board;
    }

    /// Chooses the shape of the piece spawned after the falling one locks.
    pub fn set_next_figure(&mut self, figure_type: FigureType)
        requires
            old(self).wf(),
        ensures
            final(self).wf(),
            final(self).next_type() == figure_type,
            final(self).board_spec() == old(self).board_spec(),
            final(self).active_spec() == old(self).active_spec(),
            final(self).score() == old(self).score(),
            final(self).waited() == old(self).waited(),
    {
        self.next_figure = figure_type;
    }

    /// Writes every cell of the falling piece into the board, holding its
    /// shape.
    pub fn add_active_figure_to_board(&mut self)
        requires
            old(self).wf(),
        ensures
            final(self).wf(),
            final(self).grid() == locked(old(self).grid(), old(self).piece()),
            final(self).board_spec().height_spec() == old(self).board_spec().height_spec(),
            final(self).board_spec().width_spec() == old(self).board_spec().width_spec(),
            final(self).active_spec() == old(self).active_spec(),
            final(self).score() == old(self).score(),
            final(self).waited() == old(self).waited(),
            final(self).next_type() == old(self).next_type(),
    {
        let points = self.active.to_cartesian();
        let t = self.active.get_type();
        let ghost g = self.grid();
        let ghost cs = self.active.cells_spec();
        let mut i: usize = 0;
        while i < points.len()
            invariant
                self.wf(),
                points_view(points@) == cs,
                cs == self.active_spec().cells_spec(),
                cs.len() == 4,
                t == self.piece().0,
                0 <= i <= points.len(),
                self.grid() == stamp(g, cs, t, i as int),
                self.board_spec().height_spec() == old(self).board_spec().height_spec(),
                self.board_spec().width_spec() == old(self).board_spec().width_spec(),
                g == old(self).grid(),
                self.active_spec() == old(self).active_spec(),
                self.score() == old(self).score(),
                self.waited() == old(self).waited(),
                self.next_type() == old(self).next_type(),
            decreases points.len() - i,
        {
            let p = points[i];
            assert(p@ == cs[i as int]);
            if p.x >= 0 && p.y >= 0 && (p.x as usize) < self.board.width() && (p.y as usize)
                < self.board.height() {
                assert(self.grid()[p.y as int].len() == self.board_spec().width_spec());
                self.board = self.board.replacing_figure_at_xy(p.x as usize, p.y as usize, Some(t));
            } else {
                proof {
                    if 0 <= p.y < self.grid().len() {
                        assert(self.grid()[p.y as int].len() == self.board_spec().width_spec());
                    }
                }
            }
            i = i + 1;
        }
    }

    /// The completed rows, top to bottom.
    fn lines_completed(&self) -> (r: Vec<usize>)
        requires
            self.wf(),
        ensures
            r@ == completed_lines(self.grid()),
    {
        let h = self.board.height();
        let mut lines: Vec<usize> = Vec::new();
        let mut y: usize = 0;
        while y < h
            invariant
                self.wf(),
                h == self.grid().len(),
                0 <= y <= h,
                lines@ == full_lines(self.grid(), y as int),
            decreases h - y,
        {
            if self.board.is_line_completed(y) {
                lines.push(y);
            }
            y = y + 1;
        }
        lines
    }

    /// Clears the completed rows and returns how many there were.
    fn remove_completed_lines(&mut self) -> (r: usize)
        requires
            old(self).wf(),
        ensures
            final(self).wf(),
            r == completed_lines(old(self).grid()).len(),
            final(self).grid() == removing(old(self).grid(), completed_lines(old(self).grid())),
            final(self).active_spec() == old(self).active_spec(),
            final(self).score() == old(self).score(),
            final(self).waited() == old(self).waited(),
            final(self).next_type() == old(self).next_type(),
    {
        let lines = self.lines_completed();
        self.board = self.board.removing_lines(&lines);
        lines.len()
    }

    /// Adds 100 points for each cleared row.
    fn add_points_for(&mut self, completed_lines: usize)
        requires
            old(self).wf(),
            completed_lines <= old(self).grid().len(),
        ensures
            final(self).wf(),
            final(self).score() == add_points(old(self).score(), completed_lines as int),
            final(self).board_spec() == old(self).board_spec(),
            final(self).active_spec() == old(self).active_spec(),
            final(self).waited() == old(self).waited(),
            final(self).next_type() == old(self).next_type(),
    {
        let gained: u128 = (completed_lines as u128) * 100;
        self.points = self.points.saturating_add(gained);
    }

    /// Spawns a piece of the next shape at the top-left corner if its
    /// placement is valid.
    fn add_new_active_figure(&mut self)
        requires
            old(self).wf(),
        ensures
            final(self).wf(),
            final(self).piece() == moved_if_valid(old(self).grid(), old(self).piece(), spawned(old(self).next_type())),
            final(self).board_spec() == old(self).board_spec(),
            final(self).score() == old(self).score(),
            final(self).waited() == old(self).waited(),
            final(self).next_type() == old(self).next_type(),
    {
        let new_active = ActiveFigure::new(self.next_figure, Point { x: 0, y: 0 });
        self.update_active_with(new_active);
    }

    /// Whether a piece of the next shape could not be placed at the spawn
    /// anchor on the current board: the game cannot go on.
    pub fn is_game_over(&self) -> (r: bool)
        requires
            self.wf(),
        ensures
            r == !valid(self.grid(), piece_cells(spawned(self.next_type()))),
    {
        let candidate = ActiveFigure::new(self.next_figure, Point { x: 0, y: 0 });
        !self.has_valid_position(&candidate)
    }

    /// Whether the falling piece can move down a row.
    fn can_move_down(&self) -> (r: bool)
        requires
            self.wf(),
        ensures
            r == valid(self.grid(), piece_cells(shifted(self.piece(), 0, 1))),
    {
        let moved_down = self.active_figure_moved(0, 1);
        self.has_valid_position(&moved_down)
    }

    /// One gravity step: move the piece down a row, or lock it, clear and
    /// score completed rows, and spawn the next piece.
    fn update_game(&mut self)
        requires
            old(self).wf(),
        ensures
            final(self).wf(),
            (final(self).grid(), final(self).piece(), final(self).score()) == gravity_step(
                old(self).grid(),
                old(self).piece(),
                old(self).score(),
                old(self).next_type(),
            ),
            final(self).waited() == old(self).waited(),
            final(self).next_type() == old(self).next_type(),
    {
        if self.can_move_down() {
            self.move_down();
        } else {
            self.add_active_figure_to_board();
            let completed_lines_count = self.remove_completed_lines();
            proof {
                let filled = locked(old(self).grid(), old(self).piece());
                lemma_full_lines_len(filled, filled.len() as int);
            }
            self.add_points_for(completed_lines_count);
            self.add_new_active_figure();
        }
    }

    /// Lets `delta_time` milliseconds pass; once more than the moving period
    /// has accumulated, gravity acts once and the wait starts again.
    pub fn update(&mut self, delta_time: u64)
        requires
            old(self).wf(),
        ensures
            final(self).wf(),
            final(self).next_type() == old(self).next_type(),
            ({
                let waited = if old(self).waited() + delta_time > u64::MAX {
                    u64::MAX as int
                } else {
                    old(self).waited() + delta_time
                };
                if waited > MOVING_PERIOD {
                    &&& (final(self).grid(), final(self).piece(), final(self).score()) == gravity_step(
                        old(self).grid(),
                        old(self).piece(),
                        old(self).score(),
                        old(self).next_type(),
                    )
                    &&& final(self).waited() == 0
                } else {
                    &&& final(self).board_spec() == old(self).board_spec()
                    &&& final(self).active_spec() == old(self).active_spec()
                    &&& final(self).score() == old(self).score()
                    &&& final(self).waited() == waited
                }
            }),
    {
        self.waiting_time = self.waiting_time.saturating_add(delta_time);
        if self.waiting_time > MOVING_PERIOD {
            self.update_game();
            self.waiting_time = 0;
        }
    }

    /// Blocks for the locked cells, in row-major order.
    pub fn draw_board(&self) -> (r: Vec<Block>)
        requires
            self.wf(),
        ensures
            r@ == grid_blocks(self.grid(), self.grid().len() as int),
    {
        let h = self.board.height();
        let w = self.board.width();
        let ghost g = self.grid();
        let mut blocks: Vec<Block> = Vec::new();
        let mut y: usize = 0;
        while y < h
            invariant
                self.wf(),
                g == self.grid(),
                h == g.len(),
                w == self.board_spec().width_spec(),
                side_fits(h as int),
                side_fits(w as int),
                0 <= y <= h,
                blocks@ == grid_blocks(g, y as int),
            decreases h - y,
        {
            assert(g[y as int].len() == w);
            let mut x: usize = 0;
            while x < w
                invariant
                    self.wf(),
                    g == self.grid(),
                    h == g.len(),
                    w == self.board_spec().width_spec(),
                    g[y as int].len() == w,
                    side_fits(h as int),
                    side_fits(w as int),
                    0 <= y < h,
                    0 <= x <= w,
                    blocks@ == grid_blocks(g, y as int) + row_blocks(g[y as int], y as int, x as int),
                decreases w - x,
            {
                let ghost before = blocks@;
                if let Some(square) = self.board.figure_at_xy(x, y) {
                    let block = Block::new(x as i32, y as i32, 1, 1, square.color());
                    blocks.push(block);
                    assert(block == cell_block(x as int, y as int, color_of(*square)));
                }
                assert(blocks@ =~= grid_blocks(g, y as int) + row_blocks(g[y as int], y as int, x + 1));
                x = x + 1;
            }
            y = y + 1;
        }
        blocks
    }

    /// Blocks for the cells of the falling piece.
    fn draw_active_figure(&self) -> (r: Vec<Block>)
        requires
            self.wf(),
        ensures
            r@ == piece_blocks(self.piece()),
    {
        let points = self.active.to_cartesian();
        let color = self.active.color();
        let ghost cs = self.active.cells_spec();
        let mut blocks: Vec<Block> = Vec::new();
        let mut i: usize = 0;
        while i < points.len()
            invariant
                self.wf(),
                points_view(points@) == cs,
                cs == self.active_spec().cells_spec(),
                color == color_of(self.piece().0),
                0 <= i <= points.len(),
                blocks@ == piece_blocks(self.piece()).subrange(0, i as int),
            decreases points.len() - i,
        {
            let p = points[i];
            assert(p@ == cs[i as int]);
            blocks.push(Block::new(p.x, p.y, 1, 1, color));
            assert(blocks@ =~= piece_blocks(self.piece()).subrange(0, i + 1));
            i = i + 1;
        }
        assert(blocks@ =~= piece_blocks(self.piece()));
        blocks
    }

    /// Everything to draw: the locked cells, then the falling piece on top.
    pub fn draw(&self) -> (r: Vec<Block>)
        requires
            self.wf(),
        ensures
            r@ == grid_blocks(self.grid(), self.grid().len() as int) + piece_blocks(self.piece()),
    {
        let mut blocks = self.draw_board();
        let figure = self.draw_active_figure();
        let ghost head = blocks@;
        let mut i: usize = 0;
        while i < figure.len()
            invariant
                0 <= i <= figure.len(),
                blocks@ == head + figure@.subrange(0, i as int),
            decreases figure.len() - i,
        {
            blocks.push(figure[i]);
            assert(blocks@ =~= head + figure@.subrange(0, i + 1));
            i = i + 1;
        }
        assert(figure@.subrange(0, figure@.len() as int) =~= figure@);
        blocks
    }

}

} // verus!
