use vstd::prelude::*;
use crate::block::Block;
use crate::geometry::{Direction, Point, Rect, Size};
use crate::graphics::Color;
use crate::snake::{SNAKE_START_DIRECTION, Snake, start_body, step};

verus! {

/// A direction key.
#[derive(Debug, Clone, Copy, PartialEq, Eq, Structural)]
pub enum Button {
    Up,
    Down,
    Left,
    Right,
}

/// Milliseconds between two moves of the snake.
pub const MOVING_PERIOD: u64 = 200;

/// Milliseconds after a game over before a new round starts.
pub const RESTART_TIME: u64 = 1000;

/// The direction a key asks for.
pub open spec fn button_direction(b: Button) -> Direction {
    match b {
        Button::Up => Direction::Up,
        Button::Down => Direction::Down,
        Button::Left => Direction::Left,
        Button::Right => Direction::Right,
    }
}

/// The cell strictly inside the walls of a board of the given size.
pub open spec fn in_field(p: (int, int), size: Size) -> bool {
    0 < p.0 < size.width - 1 && 0 < p.1 < size.height - 1
}

/// A rectangle of cells in colour `c`.
pub open spec fn rect_block(x: int, y: int, height: int, width: int, c: Color) -> Block {
    Block {
        rect: Rect {
            origin: Point { x: x as i32, y: y as i32 },
            size: Size { height: height as usize, width: width as usize },
        },
        color: c,
    }
}

pub open spec fn food_color() -> Color {
    Color { red: 204, green: 0, blue: 0, alpha: 255 }
}

pub open spec fn border_color() -> Color {
    Color { red: 0, green: 0, blue: 0, alpha: 255 }
}

pub open spec fn game_over_color() -> Color {
    Color { red: 230, green: 0, blue: 0, alpha: 128 }
}

/// The four walls: left, right, top and bottom.
pub open spec fn walls(size: Size) -> Seq<Block> {
    let (h, w) = (size.height as int, size.width as int);
    seq![
        rect_block(0, 0, h, 1, border_color()),
        rect_block(w - 1, 0, h, 1, border_color()),
        rect_block(0, 0, 1, w, border_color()),
        rect_block(0, h - 1, 1, w, border_color()),
    ]
}

/// The snake would survive moving to `next`: the cell is inside the walls
/// and free of its body.
pub open spec fn survives(g: Game, next: (int, int)) -> bool {
    in_field(next, g.size_spec()) && !exists|i: int|
        0 <= i < g.snake_spec().body_spec().len()
            && (#[trigger] g.snake_spec().body_spec()[i]).rect.origin@ == next
}

/// `after` follows `before` by one move attempt heading in `direction` (the
/// current direction when `None`): the round ends if the snake would not
/// survive the move; otherwise the head moves one cell, and when it lands on
/// the food the food goes and the snake grows by one block. The wait starts
/// again either way.
pub open spec fn snake_stepped(before: Game, after: Game, direction: Option<Direction>) -> bool {
    let d = match direction {
        Some(d) => d,
        None => before.snake_spec().heading(),
    };
    let next = step(before.snake_spec().head_spec(), d);
    let eats = before.food_spec() is Some && before.food_spec()->Some_0@ == next;
    &&& after.size_spec() == before.size_spec()
    &&& after.waited() == 0
    &&& after.over() == (before.over() || !survives(before, next))
    &&& !after.over() ==> {
        &&& after.snake_spec().heading() == d
        &&& after.snake_spec().head_spec() == next
        &&& after.snake_spec().body_spec().len() == before.snake_spec().body_spec().len() + if eats {
            1int
        } else {
            0int
        }
        &&& after.food_spec() == if eats {
            None
        } else {
            before.food_spec()
        }
    }
}

/// The snake game: the snake, the food if any, the board size, whether the
/// round is over, and the time waited since the last move.
pub struct Game {
    snake: Snake,
    food: Option<Point>,
    size: Size,
    game_over: bool,
    waiting_time: u64,
}

impl Game {
    pub closed spec fn snake_spec(&self) -> Snake {
        self.snake
    }

    pub closed spec fn food_spec(&self) -> Option<Point> {
        self.food
    }

    pub closed spec fn size_spec(&self) -> Size {
        self.size
    }

    pub closed spec fn over(&self) -> bool {
        self.game_over
    }

    pub closed spec fn waited(&self) -> u64 {
        self.waiting_time
    }

    /// The snake is well formed, its head is away from the ends of the `i32`
    /// range, and the board's sides fit in an `i32`.
    pub open spec fn wf(&self) -> bool {
        &&& self.snake_spec().wf()
        &&& i32::MIN < self.snake_spec().head_spec().0 < i32::MAX
        &&& i32::MIN < self.snake_spec().head_spec().1 < i32::MAX
        &&& 1 <= self.size_spec().width <= i32::MAX
        &&& 1 <= self.size_spec().height <= i32::MAX
    }

    /// A new round on a board of the given size: the snake's head at (4, 2)
    /// heading right, food at (6, 4).
    pub fn new(size: Size) -> (r: Game)
        requires
            1 <= size.width <= i32::MAX,
            1 <= size.height <= i32::MAX,
        ensures
            r.wf(),
            r.snake_spec().body_spec() == start_body(4, 2),
            r.snake_spec().heading() == SNAKE_START_DIRECTION,
            r.food_spec() == Some(Point { x: 6, y: 4 }),
            r.size_spec() == size,
            !r.over(),
            r.waited() == 0,
    {
        Game {
            snake: Snake::new(Point { x: 4, y: 2 }),
            waiting_time: 0,
            food: Some(Point { x: 6, y: 4 }),
            size,
            game_over: false,
        }
    }

    pub fn snake(&self) -> (r: &Snake)
        ensures
            *r == self.snake_spec(),
    {
        &self.snake
    }

    pub fn food(&self) -> (r: Option<Point>)
        ensures
            r == self.food_spec(),
    {
        self.food
    }

    pub fn is_game_over(&self) -> (r: bool)
        ensures
            r == self.over(),
    {
        self.game_over
    }

    /// Puts food at `food`, or removes it.
    pub fn set_food(&mut self, food: Option<Point>)
        requires
            old(self).wf(),
        ensures
            final(self).wf(),
            final(self).food_spec() == food,
            final(self).snake_spec() == old(self).snake_spec(),
            final(self).size_spec() == old(self).size_spec(),
            final(self).over() == old(self).over(),
            final(self).waited() == old(self).waited(),
    {
        self.food = food;
    }

    /// Marks the round as over, or as running.
    pub fn set_game_over(&mut self, game_over: bool)
        requires
            old(self).wf(),
        ensures
            final(self).wf(),
            final(self).over() == game_over,
            final(self).food_spec() == old(self).food_spec(),
            final(self).snake_spec() == old(self).snake_spec(),
            final(self).size_spec() == old(self).size_spec(),
            final(self).waited() == old(self).waited(),
    {
        self.game_over = game_over;
    }

    /// A key press: unless the round is over or the key asks for the
    /// opposite of the snake's direction, the snake moves one cell that way.
    pub fn button_pressed(&mut self, button: Button)
        requires
            old(self).wf(),
        ensures
            final(self).wf(),
            final(self).size_spec() == old(self).size_spec(),
            if old(self).over() || button_direction(button)
                == old(self).snake_spec().heading().opposite_spec() {
                *final(self) == *old(self)
            } else {
                snake_stepped(*old(self), *final(self), Some(button_direction(button)))
            },
    {
        if self.game_over {
            return;
        }
        let direction = match button {
            Button::Up => Direction::Up,
            Button::Down => Direction::Down,
            Button::Left => Direction::Left,
            Button::Right => Direction::Right,
        };
        if direction == self.snake.head_direction().opposite() {
            return;
        }
        self.update_snake(Some(direction));
    }

    /// Whether the round is running and there is no food on the board.
    pub fn needs_food(&self) -> (r: bool)
        ensures
            r == (!self.over() && self.food_spec() is None),
    {
        !self.game_over && self.food.is_none()
    }

    /// Puts food at `point` when that cell is inside the walls and free of
    /// the snake; says whether it did.
    pub fn add_food(&mut self, point: Point) -> (r: bool)
        requires
            old(self).wf(),
        ensures
            final(self).wf(),
            r == (in_field(point@, old(self).size_spec()) && !exists|i: int|
                0 <= i < old(self).snake_spec().body_spec().len()
                    && (#[trigger] old(self).snake_spec().body_spec()[i]).rect.origin == point),
            final(self).food_spec() == if r {
                Some(point)
            } else {
                old(self).food_spec()
            },
            final(self).snake_spec() == old(self).snake_spec(),
            final(self).size_spec() == old(self).size_spec(),
            final(self).over() == old(self).over(),
            final(self).waited() == old(self).waited(),
    {
        let inside = point.x > 0 && point.y > 0 && (point.x as i64) < (self.size.width as i64) - 1
            && (point.y as i64) < (self.size.height as i64) - 1;
        if inside && !self.snake.is_overlaping(&point) {
            self.food = Some(point);
            true
        } else {
            false
        }
    }

    /// Lets `delta_time` milliseconds pass: a finished round restarts once
    /// the restart time has passed; a running one moves the snake once the
    /// moving period has passed.
    pub fn update(&mut self, delta_time: u64)
        requires
            old(self).wf(),
        ensures
            final(self).wf(),
            final(self).size_spec() == old(self).size_spec(),
            ({
                let waited = if old(self).waited() + delta_time > u64::MAX {
                    u64::MAX as int
                } else {
                    old(self).waited() + delta_time
                };
                if old(self).over() {
                    if waited > RESTART_TIME {
                        &&& !final(self).over()
                        &&& final(self).snake_spec().body_spec() == start_body(2, 2)
                        &&& final(self).snake_spec().heading() == SNAKE_START_DIRECTION
                        &&& final(self).food_spec() == Some(Point { x: 6, y: 4 })
                        &&& final(self).waited() == 0
                    } else {
                        &&& final(self).over()
                        &&& final(self).snake_spec() == old(self).snake_spec()
                        &&& final(self).food_spec() == old(self).food_spec()
                        &&& final(self).waited() == waited
                    }
                } else if waited > MOVING_PERIOD {
                    snake_stepped(*old(self), *final(self), None)
                } else {
                    &&& final(self).snake_spec() == old(self).snake_spec()
                    &&& final(self).food_spec() == old(self).food_spec()
                    &&& final(self).over() == old(self).over()
                    &&& final(self).waited() == waited
                }
            }),
    {
        self.waiting_time = self.waiting_time.saturating_add(delta_time);
        if self.game_over {
            if self.waiting_time > RESTART_TIME {
                self.restart();
            }
            return;
        }
        if self.waiting_time > MOVING_PERIOD {
            self.update_snake(None);
        }
    }

    /// Eats the food when the head is on it: the food goes and the snake
    /// grows by its last tail block.
    fn check_eaten(&mut self)
        requires
            old(self).wf(),
            old(self).snake_spec().tail_spec() is Some,
        ensures
            final(self).wf(),
            final(self).size_spec() == old(self).size_spec(),
            final(self).over() == old(self).over(),
            final(self).waited() == old(self).waited(),
            ({
                let head = old(self).snake_spec().head_spec();
                if old(self).food_spec() is Some && old(self).food_spec()->Some_0@ == head {
                    &&& final(self).food_spec() is None
                    &&& final(self).snake_spec().body_spec() == old(self).snake_spec().body_spec().push(
                        old(self).snake_spec().tail_spec()->Some_0,
                    )
                    &&& final(self).snake_spec().heading() == old(self).snake_spec().heading()
                } else {
                    &&& final(self).food_spec() == old(self).food_spec()
                    &&& final(self).snake_spec() == old(self).snake_spec()
                }
            }),
    {
        let head = self.snake.head_position();
        if let Some(food) = self.food {
            if food.x == head.x && food.y == head.y {
                self.food = None;
                self.snake.restore_tail();
            }
        }
    }

    /// Whether the snake survives a move, heading in `direction` if given and
    /// in its current direction otherwise: the next head cell must be free
    /// of the body and inside the walls.
    pub fn is_snake_alive(&self, direction: Option<Direction>) -> (r: bool)
        requires
            self.wf(),
        ensures
            ({
                let d = match direction {
                    Some(d) => d,
                    None => self.snake_spec().heading(),
                };
                let next = step(self.snake_spec().head_spec(), d);
                r == (in_field(next, self.size_spec()) && !exists|i: int|
                    0 <= i < self.snake_spec().body_spec().len()
                        && (#[trigger] self.snake_spec().body_spec()[i]).rect.origin@ == next)
            }),
    {
        let next = self.snake.next_head(direction);
        if self.snake.is_overlaping(&next) {
            return false;
        }
        proof {
            if exists|i: int|
                0 <= i < self.snake_spec().body_spec().len()
                    && (#[trigger] self.snake_spec().body_spec()[i]).rect.origin@ == next@ {
                let i = choose|i: int|
                    0 <= i < self.snake_spec().body_spec().len()
                        && (#[trigger] self.snake_spec().body_spec()[i]).rect.origin@ == next@;
                assert(self.snake_spec().body_spec()[i].rect.origin == next);
            }
        }
        next.x > 0 && next.y > 0 && (next.x as i64) < (self.size.width as i64) - 1
            && (next.y as i64) < (self.size.height as i64) - 1
    }

    /// Moves the snake one cell if it survives the move, eating food on the
    /// way; ends the round otherwise. The wait starts again either way.
    pub fn update_snake(&mut self, direction: Option<Direction>)
        requires
            old(self).wf(),
        ensures
            final(self).wf(),
            final(self).size_spec() == old(self).size_spec(),
            final(self).waited() == 0,
            snake_stepped(*old(self), *final(self), direction),
    {
        if self.is_snake_alive(direction) {
            self.snake.move_forward(direction);
            self.check_eaten();
        } else {
            self.game_over = true;
        }
        self.waiting_time = 0;
    }

    /// A new round: the snake's head at (2, 2) heading right, food at (6, 4).
    fn restart(&mut self)
        requires
            old(self).wf(),
        ensures
            final(self).wf(),
            final(self).snake_spec().body_spec() == start_body(2, 2),
            final(self).snake_spec().heading() == SNAKE_START_DIRECTION,
            final(self).food_spec() == Some(Point { x: 6, y: 4 }),
            final(self).size_spec() == old(self).size_spec(),
            !final(self).over(),
            final(self).waited() == 0,
    {
        self.snake = Snake::new(Point { x: 2, y: 2 });
        self.waiting_time = 0;
        self.food = Some(Point { x: 6, y: 4 });
        self.game_over = false;
    }

    /// Everything to draw: the snake, the food, the walls, then the game-over
    /// layer.
    pub fn draw(&self) -> (r: Vec<Block>)
        requires
            self.wf(),
        ensures
            r@ == self.snake_spec().body_spec() + self.food_blocks() + walls(self.size_spec())
                + self.game_over_blocks(),
    {
        let mut blocks = self.snake.draw();
        append(&mut blocks, self.draw_food());
        append(&mut blocks, self.draw_walls());
        append(&mut blocks, self.draw_game_over_layer());
        blocks
    }

    pub open spec fn food_blocks(&self) -> Seq<Block> {
        match self.food_spec() {
            Some(f) => seq![rect_block(f.x as int, f.y as int, 1, 1, food_color())],
            None => seq![],
        }
    }

    pub open spec fn game_over_blocks(&self) -> Seq<Block> {
        if self.over() {
            seq![
                rect_block(
                    0,
                    0,
                    self.size_spec().height as int,
                    self.size_spec().width as int,
                    game_over_color(),
                ),
            ]
        } else {
            seq![]
        }
    }

    /// The food's block, if there is food.
    pub fn draw_food(&self) -> (r: Vec<Block>)
        ensures
            r@ == self.food_blocks(),
    {
        if let Some(food) = self.food {
            let r = vec![Block::new(food.x, food.y, 1, 1, Color { red: 204, green: 0, blue: 0, alpha: 255 })];
            assert(r@ =~= self.food_blocks());
            return r;
        }
        let r: Vec<Block> = vec![];
        assert(r@ =~= self.food_blocks());
        r
    }

    /// The blocks of the four walls.
    pub fn draw_walls(&self) -> (r: Vec<Block>)
        requires
            self.wf(),
        ensures
            r@ == walls(self.size_spec()),
    {
        let (height, width) = (self.size.height, self.size.width);
        let border = Color { red: 0, green: 0, blue: 0, alpha: 255 };
        let r = vec![
            Block::new(0, 0, height, 1, border),
            Block::new((width - 1) as i32, 0, height, 1, border),
            Block::new(0, 0, 1, width, border),
            Block::new(0, (height - 1) as i32, 1, width, border),
        ];
        assert(r@ =~= walls(self.size_spec()));
        r
    }

    /// A block over the whole board while the round is over.
    pub fn draw_game_over_layer(&self) -> (r: Vec<Block>)
        ensures
            r@ == self.game_over_blocks(),
    {
        if self.game_over {
            let (height, width) = (self.size.height, self.size.width);
            let r = vec![Block::new(0, 0, height, width, Color { red: 230, green: 0, blue: 0, alpha: 128 })];
            assert(r@ =~= self.game_over_blocks());
            return r;
        }
        let r: Vec<Block> = vec![];
        assert(r@ =~= self.game_over_blocks());
        r
    }
}

/// Appends the blocks of `more` to `blocks`.
fn append(blocks: &mut Vec<Block>, more: Vec<Block>)
    ensures
        final(blocks)@ == old(blocks)@ + more@,
{
    let ghost start = blocks@;
    let mut i: usize = 0;
    while i < more.len()
        invariant
            0 <= i <= more.len(),
            blocks@ == start + more@.subrange(0, i as int),
        decreases more.len() - i,
    {
        blocks.push(more[i]);
        assert(blocks@ =~= start + more@.subrange(0, i + 1));
        i = i + 1;
    }
    assert(more@.subrange(0, more@.len() as int) =~= more@);
}

} // verus!
