use tetris_core::snake_game::{Button, Game};
use tetris_core::{Direction, Point, Size};

fn new_game() -> Game {
    Game::new(Size { height: 20, width: 20 })
}

#[test]
fn test_button_press_change_direction() {
    let mut game = new_game();
    game.button_pressed(Button::Down);
    let direction = game.snake().head_direction();
    assert_eq!(direction, Direction::Down);
}

#[test]
fn test_opposite_button_press_does_not_change_direction() {
    let mut game = new_game();
    game.button_pressed(Button::Down);
    assert_eq!(game.snake().head_direction(), Direction::Down);
    game.button_pressed(Button::Up);
    assert_eq!(game.snake().head_direction(), Direction::Down);
}

#[test]
fn test_add_food() {
    let mut game = new_game();
    game.set_food(None);
    let number_completely_random = 10;
    assert!(game.needs_food());
    assert!(game.add_food(Point { x: number_completely_random, y: number_completely_random }));
    assert!(game.food().is_some());
    assert_eq!(game.food().unwrap().x, number_completely_random);
    assert_eq!(game.food().unwrap().y, number_completely_random);
    assert!(!game.needs_food());
}

#[test]
fn test_has_not_eaten_with_food_out_of_range() {
    let mut game = new_game();
    let far_away_point = Point {
        x: game.snake().head_position().x + 10,
        y: game.snake().head_position().y + 10,
    };
    game.set_food(Some(far_away_point));
    let snake_length = game.snake().len();
    game.update_snake(Some(Direction::Right));
    let snake_new_length = game.snake().len();
    assert!(game.food().is_some());
    assert_eq!(snake_length, snake_new_length);
}

#[test]
fn test_has_eaten_with_food_on_range() {
    let mut game = new_game();
    let near_point = Point {
        x: game.snake().head_position().x + 1,
        y: game.snake().head_position().y,
    };
    game.set_food(Some(near_point));
    let snake_length = game.snake().len();
    game.update_snake(Some(Direction::Right));
    let snake_new_length = game.snake().len();
    assert!(game.food().is_none());
    assert_eq!(snake_length + 1, snake_new_length);
}

#[test]
fn test_snake_is_alive() {
    let mut game = new_game();
    game.update_snake(Some(Direction::Right));
    assert!(game.is_snake_alive(None));
}

#[test]
fn test_snake_dies_by_overlaping_itself() {
    let mut game = new_game();
    let near_point = Point {
        x: game.snake().head_position().x + 1,
        y: game.snake().head_position().y,
    };
    game.set_food(Some(near_point));
    game.update_snake(Some(Direction::Right));
    game.update_snake(Some(Direction::Down));
    game.update_snake(Some(Direction::Left));
    game.update_snake(Some(Direction::Up));
    assert!(game.is_game_over());
}

#[test]
fn test_snake_dies_by_crashing_the_wall() {
    let mut game = new_game();
    game.update_snake(Some(Direction::Up));
    game.update_snake(Some(Direction::Up));
    assert!(game.is_game_over());
}

#[test]
fn test_draw_food() {
    let game = new_game();
    let food = game.draw_food();
    assert_eq!(food.len(), 1);
}

#[test]
fn test_food_not_drawn() {
    let mut game = new_game();
    game.set_food(None);
    let food = game.draw_food();
    assert_eq!(food.len(), 0);
}

#[test]
fn test_draw_walls() {
    let game = new_game();
    let walls = game.draw_walls();
    assert_eq!(walls.len(), 4);
}

#[test]
fn test_draw_game_over_layer() {
    let mut game = new_game();
    game.set_game_over(true);
    let layer = game.draw_game_over_layer();
    assert_eq!(layer.len(), 1);
}

#[test]
fn test_does_not_draw_game_over_layer() {
    let mut game = new_game();
    game.set_game_over(false);
    let layer = game.draw_game_over_layer();
    assert_eq!(layer.len(), 0);
}

#[test]
fn food_is_refused_on_the_snake_or_the_walls() {
    let mut game = new_game();
    game.set_food(None);
    assert!(!game.add_food(Point { x: 4, y: 2 }));
    assert!(!game.add_food(Point { x: 0, y: 5 }));
    assert!(!game.add_food(Point { x: 19, y: 5 }));
    assert!(!game.add_food(Point { x: 5, y: 19 }));
    assert!(game.food().is_none());
    assert!(game.add_food(Point { x: 18, y: 18 }));
    assert_eq!(game.food(), Some(Point { x: 18, y: 18 }));
}

#[test]
fn the_snake_moves_after_the_moving_period() {
    let mut game = new_game();
    game.update(200);
    assert_eq!(game.snake().head_position(), Point { x: 4, y: 2 });
    game.update(1);
    assert_eq!(game.snake().head_position(), Point { x: 5, y: 2 });
}

#[test]
fn a_finished_round_restarts_after_the_restart_time() {
    let mut game = new_game();
    game.update_snake(Some(Direction::Up));
    game.update_snake(Some(Direction::Up));
    assert!(game.is_game_over());
    assert!(!game.needs_food());
    game.button_pressed(Button::Right);
    assert_eq!(game.snake().head_position(), Point { x: 4, y: 1 });
    game.update(1000);
    assert!(game.is_game_over());
    game.update(1);
    assert!(!game.is_game_over());
    assert_eq!(game.snake().head_position(), Point { x: 2, y: 2 });
    assert_eq!(game.food(), Some(Point { x: 6, y: 4 }));
}

#[test]
fn draw_lists_snake_food_walls_and_layer() {
    let mut game = new_game();
    assert_eq!(game.draw().len(), 3 + 1 + 4);
    game.set_game_over(true);
    let blocks = game.draw();
    assert_eq!(blocks.len(), 3 + 1 + 4 + 1);
    assert_eq!(blocks[0].position(), Point { x: 4, y: 2 });
    assert_eq!(blocks[3].position(), Point { x: 6, y: 4 });
    assert_eq!(blocks[5].position(), Point { x: 19, y: 0 });
    assert_eq!(blocks[7].position(), Point { x: 0, y: 19 });
    assert_eq!(blocks[8].size(), Size { height: 20, width: 20 });
}
