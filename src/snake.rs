use vstd::prelude::*;
use crate::block::Block;
use crate::geometry::{Direction, Point, Rect, Size};
use crate::graphics::Color;

verus! {

/// The direction a new snake heads in.
pub const SNAKE_START_DIRECTION: Direction = Direction::Right;

/// The block of the snake's body at `(x, y)`: one cell, in the snake's
/// colour (opaque blue).
pub open spec fn body_block(x: int, y: int) -> Block {
    Block {
        rect: Rect { origin: Point { x: x as i32, y: y as i32 }, size: Size { height: 1, width: 1 } },
        color: Color { red: 0, green: 0, blue: 255, alpha: 255 },
    }
}

/// The body of a new snake with its head at `(x, y)`: three blocks lying to
/// the left of the head.
pub open spec fn start_body(x: int, y: int) -> Seq<Block> {
    seq![body_block(x, y), body_block(x - 1, y), body_block(x - 2, y)]
}

/// The cell next to `p` in direction `d` (y grows downwards).
pub open spec fn step(p: (int, int), d: Direction) -> (int, int) {
    match d {
        Direction::Up => (p.0, p.1 - 1),
        Direction::Down => (p.0, p.1 + 1),
        Direction::Left => (p.0 - 1, p.1),
        Direction::Right => (p.0 + 1, p.1),
    }
}

/// Both coordinates of `p` are representable as `i32`.
pub open spec fn fits_i32(p: (int, int)) -> bool {
    i32::MIN <= p.0 <= i32::MAX && i32::MIN <= p.1 <= i32::MAX
}

/// The body block of the snake at `(x, y)`.
pub fn snake_block_at(x: i32, y: i32) -> (r: Block)
    ensures
        r == body_block(x as int, y as int),
{
    Block::new(x, y, 1, 1, Color { red: 0, green: 0, blue: 255, alpha: 255 })
}

/// A snake: its body blocks from head to tail, the direction it heads in,
/// and the block it last left behind.
#[derive(Debug)]
pub struct Snake {
    pub direction: Direction,
    body: Vec<Block>,
    tail: Option<Block>,
}

impl Snake {
    /// The direction the snake heads in.
    pub closed spec fn heading(&self) -> Direction {
        self.direction
    }

    /// The body blocks, head first.
    pub closed spec fn body_spec(&self) -> Seq<Block> {
        self.body@
    }

    /// The block left behind by the last move, if any.
    pub closed spec fn tail_spec(&self) -> Option<Block> {
        self.tail
    }

    pub open spec fn wf(&self) -> bool {
        self.body_spec().len() >= 1
    }

    /// The head's cell.
    pub open spec fn head_spec(&self) -> (int, int) {
        self.body_spec()[0].rect.origin@
    }

    /// A snake of three blocks with its head at `origin`, lying to the left
    /// of it, heading right.
    pub fn new(origin: Point) -> (r: Snake)
        requires
            origin.x >= i32::MIN + 2,
        ensures
            r.wf(),
            r.body_spec() == start_body(origin.x as int, origin.y as int),
            r.heading() == SNAKE_START_DIRECTION,
            r.tail_spec() is None,
    {
        let (x, y) = (origin.x, origin.y);
        let mut body: Vec<Block> = Vec::new();
        body.push(snake_block_at(x, y));
        body.push(snake_block_at(x - 1, y));
        body.push(snake_block_at(x - 2, y));
        Snake { direction: SNAKE_START_DIRECTION, body, tail: None }
    }

    /// The body blocks, head first.
    pub fn draw(&self) -> (r: Vec<Block>)
        ensures
            r@ == self.body_spec(),
    {
        let mut blocks: Vec<Block> = Vec::new();
        let mut i: usize = 0;
        while i < self.body.len()
            invariant
                0 <= i <= self.body.len(),
                blocks@ == self.body@.subrange(0, i as int),
            decreases self.body.len() - i,
        {
            blocks.push(self.body[i]);
            assert(blocks@ =~= self.body@.subrange(0, i + 1));
            i = i + 1;
        }
        assert(blocks@ =~= self.body@);
        blocks
    }

    pub fn head_position(&self) -> (r: Point)
        requires
            self.wf(),
        ensures
            r@ == self.head_spec(),
    {
        self.body[0].position()
    }

    pub fn len(&self) -> (r: usize)
        ensures
            r == self.body_spec().len(),
    {
        self.body.len()
    }

    /// Moves one cell, first turning to `direction` when one is given: a new
    /// head block is added in front and the last block is left behind.
    pub fn move_forward(&mut self, direction: Option<Direction>)
        requires
            old(self).wf(),
            fits_i32(
                step(
                    old(self).head_spec(),
                    match direction {
                        Some(d) => d,
                        None => old(self).heading(),
                    },
                ),
            ),
        ensures
            final(self).wf(),
            final(self).heading() == match direction {
                Some(d) => d,
                None => old(self).heading(),
            },
            final(self).body_spec() == seq![
                body_block(
                    step(old(self).head_spec(), final(self).heading()).0,
                    step(old(self).head_spec(), final(self).heading()).1,
                ),
            ] + old(self).body_spec().subrange(0, old(self).body_spec().len() - 1),
            final(self).tail_spec() == Some(old(self).body_spec().last()),
    {
        match direction {
            Some(value) => self.direction = value,
            None => (),
        }
        let next = self.next_head(None);
        self.body.insert(0, snake_block_at(next.x, next.y));
        let removed_block = self.body.pop();
        self.tail = removed_block;
        assert(self.body@ =~= seq![body_block(next.x as int, next.y as int)] + old(self).body@.subrange(
            0,
            old(self).body@.len() - 1,
        ));
    }

    pub fn head_direction(&self) -> (r: Direction)
        ensures
            r == self.heading(),
    {
        self.direction
    }

    /// The cell the head would move to, heading in `direction` if one is
    /// given and in the current direction otherwise.
    pub fn next_head(&self, direction: Option<Direction>) -> (r: Point)
        requires
            self.wf(),
            fits_i32(
                step(
                    self.head_spec(),
                    match direction {
                        Some(d) => d,
                        None => self.heading(),
                    },
                ),
            ),
        ensures
            r@ == step(
                self.head_spec(),
                match direction {
                    Some(d) => d,
                    None => self.heading(),
                },
            ),
    {
        let head = self.head_position();
        let moving_dir = match direction {
            Some(value) => value,
            None => self.direction,
        };
        let (x, y) = match moving_dir {
            Direction::Up => (head.x, head.y - 1),
            Direction::Down => (head.x, head.y + 1),
            Direction::Left => (head.x - 1, head.y),
            Direction::Right => (head.x + 1, head.y),
        };
        Point { x, y }
    }

    /// Grows the snake by putting back the block its last move left behind.
    pub fn restore_tail(&mut self)
        requires
            old(self).wf(),
            old(self).tail_spec() is Some,
        ensures
            final(self).wf(),
            final(self).body_spec() == old(self).body_spec().push(old(self).tail_spec()->Some_0),
            final(self).tail_spec() == old(self).tail_spec(),
            final(self).heading() == old(self).heading(),
    {
        match self.tail {
            Some(block) => self.body.push(block),
            None => {},
        }
    }

    /// Whether some body block lies at `point`.
    pub fn is_overlaping(&self, point: &Point) -> (r: bool)
        ensures
            r == exists|i: int|
                0 <= i < self.body_spec().len() && (#[trigger] self.body_spec()[i]).rect.origin
                    == *point,
    {
        let mut i: usize = 0;
        while i < self.body.len()
            invariant
                0 <= i <= self.body.len(),
                forall|k: int| 0 <= k < i ==> (#[trigger] self.body@[k]).rect.origin != *point,
            decreases self.body.len() - i,
        {
            let origin = self.body[i].position();
            if origin.x == point.x && origin.y == point.y {
                assert(self.body_spec()[i as int].rect.origin == *point);
                return true;
            }
            i = i + 1;
        }
        false
    }
}

} // verus!
