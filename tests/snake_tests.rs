use tetris_core::{snake_block_at, Direction, Point, Snake, SNAKE_START_DIRECTION};

fn get_snake_at(x: i32, y: i32) -> Snake {
    let start_point = Point { x, y };
    Snake::new(start_point)
}

#[test]
fn test_snake_start_at_position() {
    let start_point = Point { x: 2, y: 2 };
    let snake = Snake::new(start_point);
    assert_eq!(snake.direction, SNAKE_START_DIRECTION);
    assert_eq!(snake.head_position(), start_point);
}

#[test]
fn test_move_forward_right() {
    let mut snake = get_snake_at(2, 2);
    snake.move_forward(Some(Direction::Right));
    assert_eq!(snake.head_position(), Point { x: 3, y: 2 });
}

#[test]
fn test_move_forward_down() {
    let mut snake = get_snake_at(2, 2);
    snake.move_forward(Some(Direction::Down));
    assert_eq!(snake.head_position(), Point { x: 2, y: 3 });
}

#[test]
fn test_move_forward_left() {
    let mut snake = get_snake_at(2, 2);
    snake.move_forward(Some(Direction::Left));
    assert_eq!(snake.head_position(), Point { x: 1, y: 2 });
}

#[test]
fn test_move_forward_up() {
    let mut snake = get_snake_at(2, 2);
    snake.move_forward(Some(Direction::Up));
    assert_eq!(snake.head_position(), Point { x: 2, y: 1 });
}

#[test]
fn test_next_head_right() {
    let snake = get_snake_at(2, 2);
    assert_eq!(snake.next_head(Some(Direction::Right)), Point { x: 3, y: 2 });
}

#[test]
fn test_next_head_down() {
    let snake = get_snake_at(2, 2);
    assert_eq!(snake.next_head(Some(Direction::Down)), Point { x: 2, y: 3 });
}

#[test]
fn test_next_head_left() {
    let snake = get_snake_at(2, 2);
    assert_eq!(snake.next_head(Some(Direction::Left)), Point { x: 1, y: 2 });
}

#[test]
fn test_next_head_up() {
    let snake = get_snake_at(2, 2);
    assert_eq!(snake.next_head(Some(Direction::Up)), Point { x: 2, y: 1 });
}

#[test]
fn test_restore_tail() {
    let mut snake = get_snake_at(2, 2);
    snake.move_forward(None);
    snake.restore_tail();
    let drawed_snake = snake.draw();
    assert_eq!(drawed_snake.len(), 4);
    assert_eq!(*drawed_snake.last().unwrap(), snake_block_at(0, 2));
}

#[test]
fn test_is_overlaping() {
    let mut snake = get_snake_at(5, 5);
    let dead_point = Point { x: 4, y: 4 };
    assert!(!snake.is_overlaping(&dead_point));

    snake.move_forward(None);
    assert!(!snake.is_overlaping(&dead_point));

    snake.move_forward(Some(Direction::Up));
    assert!(!snake.is_overlaping(&dead_point));

    snake.move_forward(Some(Direction::Left));
    assert!(!snake.is_overlaping(&dead_point));

    snake.move_forward(None);
    assert!(snake.is_overlaping(&dead_point));
}

#[test]
fn a_new_snake_lies_left_of_its_head() {
    let snake = get_snake_at(3, 1);
    assert_eq!(snake.len(), 3);
    assert_eq!(snake.head_direction(), Direction::Right);
    assert_eq!(
        snake.draw(),
        vec![snake_block_at(3, 1), snake_block_at(2, 1), snake_block_at(1, 1)]
    );
    assert_eq!(snake_block_at(3, 1).color.blue, 255);
    assert_eq!(snake_block_at(3, 1).size().width, 1);
}

#[test]
fn moving_keeps_the_length_and_leaves_the_last_block() {
    let mut snake = get_snake_at(3, 3);
    snake.move_forward(Some(Direction::Down));
    assert_eq!(snake.len(), 3);
    assert_eq!(snake.direction, Direction::Down);
    assert_eq!(
        snake.draw(),
        vec![snake_block_at(3, 4), snake_block_at(3, 3), snake_block_at(2, 3)]
    );
    snake.restore_tail();
    assert_eq!(snake.len(), 4);
    assert_eq!(*snake.draw().last().unwrap(), snake_block_at(1, 3));
}
