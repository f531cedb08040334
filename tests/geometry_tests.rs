use tetris_core::{Block, Color, Direction, Point, Size};

#[test]
fn test_direction_opposite() {
    assert_eq!(Direction::Up.opposite(), Direction::Down);
    assert_eq!(Direction::Down.opposite(), Direction::Up);
    assert_eq!(Direction::Left.opposite(), Direction::Right);
    assert_eq!(Direction::Right.opposite(), Direction::Left);
}

#[test]
fn block_keeps_its_rectangle_and_colour() {
    let color = Color { red: 1, green: 2, blue: 3, alpha: 4 };
    let block = Block::new(-2, 7, 3, 5, color);
    assert_eq!(block.position(), Point { x: -2, y: 7 });
    assert_eq!(block.size(), Size { height: 3, width: 5 });
    assert_eq!(block.color, color);
}
